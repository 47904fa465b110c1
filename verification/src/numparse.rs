use vstd::prelude::*;
use vstd::string::StrSliceExecFns;

verus! {

// The feed carries identifiers and counts as decimal text. The reader below
// accepts exactly what `str::parse::<i32>` accepts: an optional sign followed
// by one or more decimal digits, denoting a value in range.

/// Whether a character is a decimal digit.
pub open spec fn digit_ok(c: char) -> bool {
    48 <= c as u32 <= 57
}

/// A digit's value.
pub open spec fn dv(c: char) -> int {
    c as u32 - 48
}

/// The value of a digit run read as a decimal numeral.
pub open spec fn digits_val(s: Seq<char>) -> int
    decreases s.len(),
{
    if s.len() == 0 {
        0
    } else {
        digits_val(s.drop_last()) * 10 + dv(s.last())
    }
}

/// Whether every character is a decimal digit.
pub open spec fn all_digits(s: Seq<char>) -> bool {
    forall|i: int| 0 <= i < s.len() ==> digit_ok(s[i])
}

/// The number a text denotes as an optionally signed decimal numeral, when it
/// denotes one in `i32` range.
pub open spec fn parse_i32_spec(s: Seq<char>) -> Option<i32> {
    if s.len() == 0 {
        None::<i32>
    } else if s[0] == '-' {
        let d = s.drop_first();
        if d.len() > 0 && all_digits(d) && -digits_val(d) >= i32::MIN as int {
            Some((0 - digits_val(d)) as i32)
        } else {
            None::<i32>
        }
    } else if s[0] == '+' {
        let d = s.drop_first();
        if d.len() > 0 && all_digits(d) && digits_val(d) <= i32::MAX as int {
            Some(digits_val(d) as i32)
        } else {
            None::<i32>
        }
    } else {
        if all_digits(s) && digits_val(s) <= i32::MAX as int {
            Some(digits_val(s) as i32)
        } else {
            None::<i32>
        }
    }
}

/// A digit run's value is nonnegative and no prefix exceeds the whole.
proof fn lemma_digits_prefix(s: Seq<char>, j: int)
    requires
        all_digits(s),
        0 <= j <= s.len(),
    ensures
        0 <= digits_val(s.take(j)),
        digits_val(s.take(j)) <= digits_val(s),
    decreases s.len() - j,
{
    assert(all_digits(s.take(j))) by {
        assert(forall|i: int| 0 <= i < j ==> s.take(j)[i] == s[i]);
    }
    lemma_digits_prefix_nonneg(s.take(j));
    if j == s.len() {
        assert(s.take(j) =~= s);
    } else {
        lemma_digits_prefix(s, j + 1);
        assert(s.take(j) =~= s.take(j + 1).drop_last());
        assert(digits_val(s.take(j + 1)) == digits_val(s.take(j)) * 10 + dv(s[j]));
    }
}

/// A digit run's value is nonnegative.
proof fn lemma_digits_prefix_nonneg(s: Seq<char>)
    requires
        all_digits(s),
    ensures
        0 <= digits_val(s),
    decreases s.len(),
{
    if s.len() > 0 {
        assert(all_digits(s.drop_last()));
        lemma_digits_prefix_nonneg(s.drop_last());
    }
}

/// Reads an optionally signed decimal numeral, exactly as the original
/// identifier fields are read.
pub fn parse_i32(s: &str) -> (r: Option<i32>)
    ensures
        r == parse_i32_spec(s@),
{
    let n = s.unicode_len();
    if n == 0 {
        return None;
    }
    let first = s.get_char(0);
    let neg = first == '-';
    let plus = first == '+';
    let start: usize = if neg || plus {
        1
    } else {
        0
    };
    let ghost dpart = s@.subrange(start as int, n as int);
    proof {
        if neg || plus {
            assert(dpart =~= s@.drop_first());
        } else {
            assert(dpart =~= s@);
        }
    }
    if n == start {
        return None;
    }
    let mut i: usize = start;
    let mut acc: i64 = 0;
    proof {
        assert(s@.subrange(start as int, start as int) =~= Seq::<char>::empty());
    }
    while i < n
        invariant
            start <= i <= n,
            n == s@.len(),
            start <= 1,
            n > start,
            dpart == s@.subrange(start as int, n as int),
            all_digits(s@.subrange(start as int, i as int)),
            acc == digits_val(s@.subrange(start as int, i as int)),
            0 <= acc <= 0x8000_0000i64,
            neg == (s@[0] == '-'),
            plus == (s@[0] == '+'),
            (start == 1) == (neg || plus),
        decreases n - i,
    {
        let c = s.get_char(i);
        let cu = c as u32;
        let ghost processed = s@.subrange(start as int, i as int);
        if cu < 48 || cu > 57 {
            proof {
                assert(dpart[i - start] == s@[i as int]);
                assert(!digit_ok(dpart[i - start]));
                assert(!all_digits(dpart));
                if neg || plus {
                    assert(s@.drop_first() =~= dpart);
                } else {
                    assert(s@ =~= dpart);
                }
            }
            return None;
        }
        let d = cu - 48;
        acc = acc * 10 + d as i64;
        i = i + 1;
        proof {
            let processed2 = s@.subrange(start as int, i as int);
            assert(processed2.drop_last() =~= processed);
            assert(processed2.last() == s@[i - 1]);
            assert(acc == digits_val(processed2));
            lemma_digits_prefix_nonneg(processed2);
        }
        if acc > 0x8000_0000i64 {
            proof {
                let processed2 = s@.subrange(start as int, i as int);
                if neg || plus {
                    assert(s@.drop_first() =~= dpart);
                } else {
                    assert(s@ =~= dpart);
                }
                if all_digits(dpart) {
                    lemma_digits_prefix(dpart, i - start);
                    assert(dpart.take(i - start) =~= processed2);
                    assert(digits_val(dpart) >= acc);
                    assert(digits_val(dpart) > i32::MAX as int);
                    assert(-digits_val(dpart) < i32::MIN as int);
                }
            }
            return None;
        }
    }
    proof {
        assert(s@.subrange(start as int, i as int) =~= dpart);
    }
    if neg {
        proof {
            assert(-digits_val(dpart) >= i32::MIN as int);
        }
        Some((0 - acc) as i32)
    } else {
        if acc > 0x7FFF_FFFFi64 {
            proof {
                assert(digits_val(dpart) > i32::MAX as int);
            }
            return None;
        }
        Some(acc as i32)
    }
}

} // verus!

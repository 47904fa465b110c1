use vstd::prelude::*;

verus! {

// A stored table is a sequence of rows with pairwise distinct keys. Writing a
// row either overwrites the row holding its key in place or appends it; the
// two conflict policies differ in which of the two rows survives an overwrite.

/// The index of the first row whose key is `k`, or -1 when there is none.
pub open spec fn find_key<V, K>(s: Seq<V>, kf: spec_fn(V) -> K, k: K) -> int
    decreases s.len(),
{
    if s.len() == 0 {
        -1
    } else if kf(s[0]) == k {
        0
    } else {
        let r = find_key(s.drop_first(), kf, k);
        if r < 0 {
            -1
        } else {
            r + 1
        }
    }
}

/// Whether some row holds the key `k`.
pub open spec fn has_key<V, K>(s: Seq<V>, kf: spec_fn(V) -> K, k: K) -> bool {
    find_key(s, kf, k) >= 0
}

/// The row holding the key `k`.
pub open spec fn val_at<V, K>(s: Seq<V>, kf: spec_fn(V) -> K, k: K) -> V {
    s[find_key(s, kf, k)]
}

/// Pairwise distinct keys.
pub open spec fn dkeys<V, K>(s: Seq<V>, kf: spec_fn(V) -> K) -> bool {
    forall|i: int, j: int|
        0 <= i < j < s.len() ==> kf(s[i]) != kf(s[j])
}

/// The keys of the rows, in row order.
pub open spec fn keyseq<V, K>(s: Seq<V>, kf: spec_fn(V) -> K) -> Seq<K> {
    s.map_values(kf)
}

/// The set of keys written by a row sequence.
pub open spec fn kset<V, K>(vs: Seq<V>, kf: spec_fn(V) -> K) -> Set<K>
    decreases vs.len(),
{
    if vs.len() == 0 {
        Set::<K>::empty()
    } else {
        kset(vs.drop_first(), kf).insert(kf(vs[0]))
    }
}

/// The last row of `vs` whose key is `k`.
pub open spec fn last_val<V, K>(vs: Seq<V>, kf: spec_fn(V) -> K, k: K) -> V
    decreases vs.len(),
{
    if vs.len() == 0 {
        arbitrary()
    } else if kset(vs.drop_first(), kf).contains(k) {
        last_val(vs.drop_first(), kf, k)
    } else {
        vs[0]
    }
}

/// The first row of `vs` whose key is `k`.
pub open spec fn first_val<V, K>(vs: Seq<V>, kf: spec_fn(V) -> K, k: K) -> V
    decreases vs.len(),
{
    if vs.len() == 0 {
        arbitrary()
    } else if kf(vs[0]) == k {
        vs[0]
    } else {
        first_val(vs.drop_first(), kf, k)
    }
}

/// Keys of `vs` not in `present`, in order of first occurrence.
pub open spec fn newkeys<V, K>(vs: Seq<V>, kf: spec_fn(V) -> K, present: Set<K>) -> Seq<K>
    decreases vs.len(),
{
    if vs.len() == 0 {
        Seq::<K>::empty()
    } else if present.contains(kf(vs[0])) {
        newkeys(vs.drop_first(), kf, present)
    } else {
        seq![kf(vs[0])] + newkeys(vs.drop_first(), kf, present.insert(kf(vs[0])))
    }
}

/// One insert-or-update write: overwrite the row with the same key, else append.
pub open spec fn up1<V, K>(s: Seq<V>, kf: spec_fn(V) -> K, v: V) -> Seq<V> {
    if has_key(s, kf, kf(v)) {
        s.update(find_key(s, kf, kf(v)), v)
    } else {
        s.push(v)
    }
}

/// One insert-or-ignore write: keep the row with the same key, else append.
pub open spec fn ign1<V, K>(s: Seq<V>, kf: spec_fn(V) -> K, v: V) -> Seq<V> {
    if has_key(s, kf, kf(v)) {
        s
    } else {
        s.push(v)
    }
}

/// A run of insert-or-update writes, first to last.
pub open spec fn up<V, K>(s: Seq<V>, kf: spec_fn(V) -> K, vs: Seq<V>) -> Seq<V>
    decreases vs.len(),
{
    if vs.len() == 0 {
        s
    } else {
        up(up1(s, kf, vs[0]), kf, vs.drop_first())
    }
}

/// A run of insert-or-ignore writes, first to last.
pub open spec fn ign<V, K>(s: Seq<V>, kf: spec_fn(V) -> K, vs: Seq<V>) -> Seq<V>
    decreases vs.len(),
{
    if vs.len() == 0 {
        s
    } else {
        ign(ign1(s, kf, vs[0]), kf, vs.drop_first())
    }
}

pub proof fn lemma_find_key_bounds<V, K>(s: Seq<V>, kf: spec_fn(V) -> K, k: K)
    ensures
        has_key(s, kf, k) ==> 0 <= find_key(s, kf, k) < s.len() && kf(s[find_key(s, kf, k)]) == k,
        !has_key(s, kf, k) ==> forall|i: int| 0 <= i < s.len() ==> kf(s[i]) != k,
    decreases s.len(),
{
    if s.len() > 0 {
        lemma_find_key_bounds(s.drop_first(), kf, k);
        if !has_key(s, kf, k) {
            assert forall|i: int| 0 <= i < s.len() implies kf(s[i]) != k by {
                if i > 0 {
                    assert(s.drop_first()[i - 1] == s[i]);
                }
            }
        }
    }
}

pub proof fn lemma_find_key_exists<V, K>(s: Seq<V>, kf: spec_fn(V) -> K, k: K, i: int)
    requires
        0 <= i < s.len(),
        kf(s[i]) == k,
    ensures
        has_key(s, kf, k),
        dkeys(s, kf) ==> find_key(s, kf, k) == i,
    decreases s.len(),
{
    lemma_find_key_bounds(s, kf, k);
    if i > 0 && kf(s[0]) != k {
        lemma_find_key_exists(s.drop_first(), kf, k, i - 1);
        assert(dkeys(s, kf) ==> dkeys(s.drop_first(), kf));
    }
    if has_key(s, kf, k) && dkeys(s, kf) {
        let f = find_key(s, kf, k);
        assert(kf(s[f]) == k);
        if f != i {
            assert(false);
        }
    }
}

/// Membership in the written-key set is occurrence of the key.
pub proof fn lemma_kset_contains<V, K>(vs: Seq<V>, kf: spec_fn(V) -> K, k: K)
    ensures
        kset(vs, kf).contains(k) <==> exists|i: int| 0 <= i < vs.len() && kf(vs[i]) == k,
    decreases vs.len(),
{
    if vs.len() > 0 {
        lemma_kset_contains(vs.drop_first(), kf, k);
        if kset(vs, kf).contains(k) {
            if kf(vs[0]) == k {
                assert(kf(vs[0int]) == k);
            } else {
                let i = choose|i: int|
                    0 <= i < vs.drop_first().len() && kf(vs.drop_first()[i]) == k;
                assert(kf(vs[i + 1]) == k);
            }
        }
        if exists|i: int| 0 <= i < vs.len() && kf(vs[i]) == k {
            let i = choose|i: int| 0 <= i < vs.len() && kf(vs[i]) == k;
            if i > 0 {
                assert(kf(vs.drop_first()[i - 1]) == k);
            }
        }
    }
}

/// What one insert-or-update write does to keys, rows and order.
pub proof fn lemma_up1<V, K>(s: Seq<V>, kf: spec_fn(V) -> K, v: V)
    requires
        dkeys(s, kf),
    ensures
        dkeys(up1(s, kf, v), kf),
        forall|k: K|
            has_key(up1(s, kf, v), kf, k) <==> has_key(s, kf, k) || k == kf(v),
        val_at(up1(s, kf, v), kf, kf(v)) == v,
        forall|k: K|
            has_key(s, kf, k) && k != kf(v) ==> val_at(up1(s, kf, v), kf, k) == val_at(s, kf, k),
        keyseq(up1(s, kf, v), kf) == if has_key(s, kf, kf(v)) {
            keyseq(s, kf)
        } else {
            keyseq(s, kf).push(kf(v))
        },
        kset(up1(s, kf, v), kf) =~= kset(s, kf).insert(kf(v)),
{
    let t = up1(s, kf, v);
    lemma_find_key_bounds(s, kf, kf(v));
    assert forall|i: int| 0 <= i < t.len() implies kf(t[i]) == keyseq(t, kf)[i] by {}
    if has_key(s, kf, kf(v)) {
        let f = find_key(s, kf, kf(v));
        assert(t =~= s.update(f, v));
        assert(keyseq(t, kf) =~= keyseq(s, kf));
        assert forall|k: K| has_key(s, kf, k) implies has_key(t, kf, k) by {
            lemma_find_key_bounds(s, kf, k);
            let i = find_key(s, kf, k);
            assert(kf(t[i]) == k);
            lemma_find_key_exists(t, kf, k, i);
        }
        assert forall|k: K| has_key(t, kf, k) implies has_key(s, kf, k) || k == kf(v) by {
            lemma_find_key_bounds(t, kf, k);
            let i = find_key(t, kf, k);
            if i != f {
                lemma_find_key_exists(s, kf, k, i);
            }
        }
        lemma_find_key_exists(t, kf, kf(v), f);
        assert forall|k: K| has_key(s, kf, k) && k != kf(v) implies val_at(t, kf, k) == val_at(
            s,
            kf,
            k,
        ) by {
            lemma_find_key_bounds(s, kf, k);
            let i = find_key(s, kf, k);
            assert(i != f);
            lemma_find_key_exists(t, kf, k, i);
        }
    } else {
        assert(t =~= s.push(v));
        assert(keyseq(t, kf) =~= keyseq(s, kf).push(kf(v)));
        assert forall|i: int, j: int| 0 <= i < j < t.len() implies kf(t[i]) != kf(t[j]) by {
            if j == s.len() {
                lemma_find_key_bounds(s, kf, kf(v));
            }
        }
        assert forall|k: K| has_key(s, kf, k) implies has_key(t, kf, k) by {
            lemma_find_key_bounds(s, kf, k);
            let i = find_key(s, kf, k);
            assert(kf(t[i]) == k);
            lemma_find_key_exists(t, kf, k, i);
        }
        assert forall|k: K| has_key(t, kf, k) implies has_key(s, kf, k) || k == kf(v) by {
            lemma_find_key_bounds(t, kf, k);
            let i = find_key(t, kf, k);
            if i < s.len() {
                lemma_find_key_exists(s, kf, k, i);
            }
        }
        lemma_find_key_exists(t, kf, kf(v), s.len() as int);
        assert forall|k: K| has_key(s, kf, k) && k != kf(v) implies val_at(t, kf, k) == val_at(
            s,
            kf,
            k,
        ) by {
            lemma_find_key_bounds(s, kf, k);
            let i = find_key(s, kf, k);
            lemma_find_key_exists(t, kf, k, i);
        }
    }
    assert forall|k: K| kset(t, kf).contains(k) <==> kset(s, kf).insert(kf(v)).contains(k) by {
        lemma_kset_contains(t, kf, k);
        lemma_kset_contains(s, kf, k);
        lemma_find_key_bounds(t, kf, k);
        lemma_find_key_bounds(s, kf, k);
        if kset(t, kf).contains(k) {
            let i = choose|i: int| 0 <= i < t.len() && kf(t[i]) == k;
            lemma_find_key_exists(t, kf, k, i);
        }
        if kset(s, kf).contains(k) {
            let i = choose|i: int| 0 <= i < s.len() && kf(s[i]) == k;
            lemma_find_key_exists(s, kf, k, i);
        }
        if k == kf(v) {
            lemma_find_key_bounds(t, kf, k);
        }
        assert(has_key(t, kf, k) <==> has_key(s, kf, k) || k == kf(v));
    }
}

/// What one insert-or-ignore write does: an existing row is never altered.
pub proof fn lemma_ign1<V, K>(s: Seq<V>, kf: spec_fn(V) -> K, v: V)
    requires
        dkeys(s, kf),
    ensures
        dkeys(ign1(s, kf, v), kf),
        forall|k: K|
            has_key(ign1(s, kf, v), kf, k) <==> has_key(s, kf, k) || k == kf(v),
        forall|k: K|
            has_key(s, kf, k) ==> val_at(ign1(s, kf, v), kf, k) == val_at(s, kf, k),
        !has_key(s, kf, kf(v)) ==> val_at(ign1(s, kf, v), kf, kf(v)) == v,
        keyseq(ign1(s, kf, v), kf) == if has_key(s, kf, kf(v)) {
            keyseq(s, kf)
        } else {
            keyseq(s, kf).push(kf(v))
        },
        kset(ign1(s, kf, v), kf) =~= kset(s, kf).insert(kf(v)),
{
    let t = ign1(s, kf, v);
    lemma_find_key_bounds(s, kf, kf(v));
    if has_key(s, kf, kf(v)) {
        assert forall|k: K| kset(t, kf).contains(k) <==> kset(s, kf).insert(kf(v)).contains(
            k,
        ) by {
            lemma_kset_contains(s, kf, k);
            if k == kf(v) {
                let f = find_key(s, kf, kf(v));
                assert(kf(s[f]) == kf(v));
            }
        }
    } else {
        lemma_up1(s, kf, v);
        assert(t =~= up1(s, kf, v));
    }
}

/// Rows with the same keys in the same order and the same row per key are the
/// same table.
pub proof fn lemma_table_eq<V, K>(t1: Seq<V>, t2: Seq<V>, kf: spec_fn(V) -> K)
    requires
        dkeys(t1, kf),
        dkeys(t2, kf),
        keyseq(t1, kf) == keyseq(t2, kf),
        forall|k: K| has_key(t1, kf, k) ==> val_at(t1, kf, k) == val_at(t2, kf, k),
    ensures
        t1 == t2,
{
    assert(t1.len() == keyseq(t1, kf).len());
    assert(t2.len() == keyseq(t2, kf).len());
    assert forall|i: int| 0 <= i < t1.len() implies t1[i] == t2[i] by {
        let k = kf(t1[i]);
        assert(keyseq(t1, kf)[i] == k);
        assert(kf(t2[i]) == keyseq(t2, kf)[i]);
        lemma_find_key_exists(t1, kf, k, i);
        lemma_find_key_exists(t2, kf, k, i);
        assert(val_at(t1, kf, k) == t1[i]);
        assert(val_at(t2, kf, k) == t2[i]);
    }
    assert(t1 =~= t2);
}

/// Where every written key is already present, the new-key list is empty.
pub proof fn lemma_newkeys_empty<V, K>(vs: Seq<V>, kf: spec_fn(V) -> K, present: Set<K>)
    requires
        forall|i: int| 0 <= i < vs.len() ==> present.contains(kf(vs[i])),
    ensures
        newkeys(vs, kf, present) == Seq::<K>::empty(),
    decreases vs.len(),
{
    if vs.len() > 0 {
        assert(present.contains(kf(vs[0int])));
        assert forall|i: int| 0 <= i < vs.drop_first().len() implies present.contains(
            kf(vs.drop_first()[i]),
        ) by {
            assert(vs.drop_first()[i] == vs[i + 1]);
        }
        lemma_newkeys_empty(vs.drop_first(), kf, present);
    }
}

/// What a run of insert-or-update writes leaves behind: existing rows keep
/// their place, an overwritten key holds the last row written to it, and new
/// keys are appended in first-occurrence order.
pub proof fn lemma_up_run<V, K>(s: Seq<V>, kf: spec_fn(V) -> K, vs: Seq<V>)
    requires
        dkeys(s, kf),
    ensures
        dkeys(up(s, kf, vs), kf),
        forall|k: K|
            has_key(up(s, kf, vs), kf, k) <==> has_key(s, kf, k) || kset(vs, kf).contains(k),
        forall|k: K|
            kset(vs, kf).contains(k) ==> val_at(up(s, kf, vs), kf, k) == last_val(vs, kf, k),
        forall|k: K|
            has_key(s, kf, k) && !kset(vs, kf).contains(k) ==> val_at(up(s, kf, vs), kf, k)
                == val_at(s, kf, k),
        keyseq(up(s, kf, vs), kf) == keyseq(s, kf) + newkeys(vs, kf, kset(s, kf)),
    decreases vs.len(),
{
    let t = up(s, kf, vs);
    if vs.len() == 0 {
        assert(keyseq(t, kf) =~= keyseq(s, kf) + newkeys(vs, kf, kset(s, kf)));
    } else {
        let v0 = vs[0];
        let rest = vs.drop_first();
        let s1 = up1(s, kf, v0);
        lemma_up1(s, kf, v0);
        lemma_up_run(s1, kf, rest);
        assert(t == up(s1, kf, rest));
        // keys
        assert forall|k: K| kset(vs, kf).contains(k) <==> kset(rest, kf).contains(k) || k == kf(
            v0,
        ) by {}
        // values written by the run
        assert forall|k: K| kset(vs, kf).contains(k) implies val_at(t, kf, k) == last_val(
            vs,
            kf,
            k,
        ) by {
            if kset(rest, kf).contains(k) {
                assert(val_at(t, kf, k) == last_val(rest, kf, k));
            } else {
                assert(k == kf(v0));
                assert(has_key(s1, kf, k) && !kset(rest, kf).contains(k));
                assert(val_at(t, kf, k) == val_at(s1, kf, k));
                assert(val_at(s1, kf, kf(v0)) == v0);
            }
        }
        // untouched rows
        assert forall|k: K| has_key(s, kf, k) && !kset(vs, kf).contains(k) implies val_at(
            t,
            kf,
            k,
        ) == val_at(s, kf, k) by {
            assert(k != kf(v0));
            assert(val_at(s1, kf, k) == val_at(s, kf, k));
        }
        // order
        if has_key(s, kf, kf(v0)) {
            assert(kset(s, kf).contains(kf(v0))) by {
                lemma_find_key_bounds(s, kf, kf(v0));
                lemma_kset_contains(s, kf, kf(v0));
            }
            assert(kset(s1, kf) =~= kset(s, kf));
            assert(newkeys(vs, kf, kset(s, kf)) == newkeys(rest, kf, kset(s, kf)));
            assert(keyseq(t, kf) == keyseq(s, kf) + newkeys(rest, kf, kset(s1, kf)));
        } else {
            assert(!kset(s, kf).contains(kf(v0))) by {
                lemma_find_key_bounds(s, kf, kf(v0));
                lemma_kset_contains(s, kf, kf(v0));
            }
            assert(keyseq(t, kf) == keyseq(s1, kf) + newkeys(rest, kf, kset(s1, kf)));
            assert(keyseq(s1, kf) == keyseq(s, kf).push(kf(v0)));
            assert(kset(s1, kf) =~= kset(s, kf).insert(kf(v0)));
            assert(newkeys(vs, kf, kset(s, kf)) == seq![kf(v0)] + newkeys(
                rest,
                kf,
                kset(s, kf).insert(kf(v0)),
            ));
            assert(keyseq(s, kf).push(kf(v0)) + newkeys(rest, kf, kset(s1, kf)) =~= keyseq(s, kf)
                + (seq![kf(v0)] + newkeys(rest, kf, kset(s1, kf))));
        }
    }
}

/// What a run of insert-or-ignore writes leaves behind: existing rows are
/// never altered, a newly written key holds the first row written to it, and
/// new keys are appended in first-occurrence order.
pub proof fn lemma_ign_run<V, K>(s: Seq<V>, kf: spec_fn(V) -> K, vs: Seq<V>)
    requires
        dkeys(s, kf),
    ensures
        dkeys(ign(s, kf, vs), kf),
        forall|k: K|
            has_key(ign(s, kf, vs), kf, k) <==> has_key(s, kf, k) || kset(vs, kf).contains(k),
        forall|k: K|
            has_key(s, kf, k) ==> val_at(ign(s, kf, vs), kf, k) == val_at(s, kf, k),
        forall|k: K|
            kset(vs, kf).contains(k) && !has_key(s, kf, k) ==> val_at(ign(s, kf, vs), kf, k)
                == first_val(vs, kf, k),
        keyseq(ign(s, kf, vs), kf) == keyseq(s, kf) + newkeys(vs, kf, kset(s, kf)),
    decreases vs.len(),
{
    let t = ign(s, kf, vs);
    if vs.len() == 0 {
        assert(keyseq(t, kf) =~= keyseq(s, kf) + newkeys(vs, kf, kset(s, kf)));
    } else {
        let v0 = vs[0];
        let rest = vs.drop_first();
        let s1 = ign1(s, kf, v0);
        lemma_ign1(s, kf, v0);
        lemma_ign_run(s1, kf, rest);
        assert(kset(s, kf).contains(kf(v0)) <==> has_key(s, kf, kf(v0))) by {
            lemma_find_key_bounds(s, kf, kf(v0));
            lemma_kset_contains(s, kf, kf(v0));
        }
        assert forall|k: K| kset(vs, kf).contains(k) && !has_key(s, kf, k) implies val_at(
            t,
            kf,
            k,
        ) == first_val(vs, kf, k) by {
            if k == kf(v0) {
                if has_key(s, kf, k) {
                } else {
                    assert(val_at(s1, kf, k) == v0);
                    assert(has_key(s1, kf, k));
                    assert(val_at(t, kf, k) == val_at(s1, kf, k));
                    assert(first_val(vs, kf, k) == v0);
                }
            } else {
                assert(kset(rest, kf).contains(k));
                assert(first_val(vs, kf, k) == first_val(rest, kf, k));
                if has_key(s1, kf, k) {
                    assert(has_key(s, kf, k) || k == kf(v0));
                    assert(false);
                }
                assert(val_at(t, kf, k) == first_val(rest, kf, k));
            }
        }
        if has_key(s, kf, kf(v0)) {
            assert(kset(s1, kf) =~= kset(s, kf));
            assert(newkeys(vs, kf, kset(s, kf)) == newkeys(rest, kf, kset(s, kf)));
        } else {
            assert(keyseq(s1, kf) == keyseq(s, kf).push(kf(v0)));
            assert(kset(s1, kf) =~= kset(s, kf).insert(kf(v0)));
            assert(newkeys(vs, kf, kset(s, kf)) == seq![kf(v0)] + newkeys(
                rest,
                kf,
                kset(s, kf).insert(kf(v0)),
            ));
            assert(keyseq(s, kf).push(kf(v0)) + newkeys(rest, kf, kset(s1, kf)) =~= keyseq(s, kf)
                + (seq![kf(v0)] + newkeys(rest, kf, kset(s1, kf))));
        }
    }
}

/// Re-running the same insert-or-update writes changes nothing further.
pub proof fn lemma_up_idempotent<V, K>(s: Seq<V>, kf: spec_fn(V) -> K, vs: Seq<V>)
    requires
        dkeys(s, kf),
    ensures
        up(up(s, kf, vs), kf, vs) == up(s, kf, vs),
{
    let t = up(s, kf, vs);
    lemma_up_run(s, kf, vs);
    lemma_up_run(t, kf, vs);
    assert forall|i: int| 0 <= i < vs.len() implies kset(t, kf).contains(kf(vs[i])) by {
        lemma_kset_contains(vs, kf, kf(vs[i]));
        lemma_kset_contains(t, kf, kf(vs[i]));
        assert(kset(vs, kf).contains(kf(vs[i]))) by {
            assert(0 <= i < vs.len() && kf(vs[i]) == kf(vs[i]));
        }
        let b = has_key(s, kf, kf(vs[i]));
        let c = kset(vs, kf).contains(kf(vs[i]));
        assert(has_key(up(s, kf, vs), kf, kf(vs[i])));
        assert(has_key(t, kf, kf(vs[i])));
        lemma_find_key_bounds(t, kf, kf(vs[i]));
        let f = find_key(t, kf, kf(vs[i]));
        assert(kf(t[f]) == kf(vs[i]));
    }
    lemma_newkeys_empty(vs, kf, kset(t, kf));
    assert(keyseq(up(t, kf, vs), kf) =~= keyseq(t, kf));
    assert forall|k: K| has_key(up(t, kf, vs), kf, k) implies val_at(up(t, kf, vs), kf, k)
        == val_at(t, kf, k) by {
        if kset(vs, kf).contains(k) {
            assert(val_at(up(t, kf, vs), kf, k) == last_val(vs, kf, k));
            assert(val_at(t, kf, k) == last_val(vs, kf, k));
        }
    }
    lemma_table_eq(up(t, kf, vs), t, kf);
}

/// Re-running the same insert-or-ignore writes changes nothing further.
pub proof fn lemma_ign_idempotent<V, K>(s: Seq<V>, kf: spec_fn(V) -> K, vs: Seq<V>)
    requires
        dkeys(s, kf),
    ensures
        ign(ign(s, kf, vs), kf, vs) == ign(s, kf, vs),
{
    let t = ign(s, kf, vs);
    lemma_ign_run(s, kf, vs);
    lemma_ign_run(t, kf, vs);
    assert forall|i: int| 0 <= i < vs.len() implies kset(t, kf).contains(kf(vs[i])) by {
        lemma_kset_contains(vs, kf, kf(vs[i]));
        lemma_kset_contains(t, kf, kf(vs[i]));
        assert(kset(vs, kf).contains(kf(vs[i]))) by {
            assert(0 <= i < vs.len() && kf(vs[i]) == kf(vs[i]));
        }
        let b = has_key(s, kf, kf(vs[i]));
        let c = kset(vs, kf).contains(kf(vs[i]));
        assert(has_key(ign(s, kf, vs), kf, kf(vs[i])));
        assert(has_key(t, kf, kf(vs[i])));
        lemma_find_key_bounds(t, kf, kf(vs[i]));
        let f = find_key(t, kf, kf(vs[i]));
        assert(kf(t[f]) == kf(vs[i]));
    }
    lemma_newkeys_empty(vs, kf, kset(t, kf));
    assert(keyseq(ign(t, kf, vs), kf) =~= keyseq(t, kf));
    assert forall|k: K| has_key(ign(t, kf, vs), kf, k) implies val_at(ign(t, kf, vs), kf, k)
        == val_at(t, kf, k) by {}
    lemma_table_eq(ign(t, kf, vs), t, kf);
}

} // verus!

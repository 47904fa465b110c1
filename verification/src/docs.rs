use vstd::prelude::*;
use vstd::string::StrSliceExecFns;
use crate::events::str_eq;

verus! {

// Downloaded documents live in a content-addressed cache: the presence of an
// artifact under its name is the only guard against fetching it again. The
// decision logic below is what the downloader follows; the transport and the
// format conversion stay outside.

/// Which record a document belongs to.
#[derive(Clone, Copy, PartialEq, Eq, Structural, Debug)]
pub enum DocKind {
    Protocol,
    Stenogram,
}

/// The identity of one document artifact: its kind, the owning session and
/// sitting number, and the source system's document identifier.
#[derive(Debug)]
pub struct DocKey {
    pub kind: DocKind,
    pub session: i32,
    pub num: i32,
    pub doc_id: String,
}

pub struct DocKeyV {
    pub kind: DocKind,
    pub session: int,
    pub num: i32,
    pub doc_id: Seq<char>,
}

impl View for DocKey {
    type V = DocKeyV;

    open spec fn view(&self) -> DocKeyV {
        DocKeyV {
            kind: self.kind,
            session: self.session as int,
            num: self.num,
            doc_id: self.doc_id@,
        }
    }
}

impl DocKey {
    pub fn dup(&self) -> (r: Self)
        ensures
            r@ == self@,
    {
        DocKey {
            kind: self.kind,
            session: self.session,
            num: self.num,
            doc_id: self.doc_id.clone(),
        }
    }
}

/// Whether an artifact with this identity is present.
pub open spec fn doc_present(cache: Seq<DocKeyV>, key: DocKeyV) -> bool {
    exists|j: int| 0 <= j < cache.len() && cache[j] == key
}

/// Whether one fetch of this identity performs a download.
pub open spec fn fetch_downloads(cache: Seq<DocKeyV>, key: DocKeyV) -> bool {
    !doc_present(cache, key)
}

/// The cache after one fetch of this identity.
pub open spec fn after_fetch(cache: Seq<DocKeyV>, key: DocKeyV) -> Seq<DocKeyV> {
    if doc_present(cache, key) {
        cache
    } else {
        cache.push(key)
    }
}

/// The set of artifacts already materialized.
pub struct DocumentCache {
    pub entries: Vec<DocKey>,
}

impl View for DocumentCache {
    type V = Seq<DocKeyV>;

    open spec fn view(&self) -> Seq<DocKeyV> {
        self.entries@.map_values(|k: DocKey| k@)
    }
}

impl DocumentCache {
    /// An empty cache.
    pub fn new() -> (r: DocumentCache)
        ensures
            r@ == Seq::<DocKeyV>::empty(),
    {
        let c = DocumentCache { entries: Vec::new() };
        proof {
            assert(c@ =~= Seq::<DocKeyV>::empty());
        }
        c
    }

    /// Whether an artifact with this identity is present.
    pub fn contains(&self, key: &DocKey) -> (r: bool)
        ensures
            r == doc_present(self@, key@),
    {
        let mut j: usize = 0;
        while j < self.entries.len()
            invariant
                j <= self.entries@.len(),
                self@.len() == self.entries@.len(),
                forall|k: int| 0 <= k < j ==> self@[k] != key@,
            decreases self.entries@.len() - j,
        {
            let e = &self.entries[j];
            proof {
                assert(self@[j as int] == self.entries@[j as int]@);
            }
            if matches_kind(e.kind, key.kind) && e.session == key.session && e.num == key.num
                && str_eq(e.doc_id.as_str(), key.doc_id.as_str()) {
                return true;
            }
            j = j + 1;
        }
        false
    }

    /// One fetch cycle for this identity: reports whether a download is to be
    /// performed, and if so records the artifact as materialized.
    pub fn fetch_document(&mut self, key: &DocKey) -> (r: bool)
        ensures
            final(self)@ == after_fetch(old(self)@, key@),
            r == fetch_downloads(old(self)@, key@),
    {
        if self.contains(key) {
            false
        } else {
            self.entries.push(key.dup());
            proof {
                assert(self@ =~= old(self)@.push(key@));
            }
            true
        }
    }
}

/// Compares document kinds.
fn matches_kind(a: DocKind, b: DocKind) -> (r: bool)
    ensures
        r == (a == b),
{
    match (a, b) {
        (DocKind::Protocol, DocKind::Protocol) => true,
        (DocKind::Stenogram, DocKind::Stenogram) => true,
        _ => false,
    }
}

/// Fetching the same identity twice performs exactly one download: the first
/// fetch downloads exactly when the artifact is absent, and after it the
/// artifact is present, so the second fetch never downloads and leaves the
/// cache as the first left it.
pub proof fn lemma_document_fetch_idempotent(cache: Seq<DocKeyV>, key: DocKeyV)
    ensures
        !fetch_downloads(after_fetch(cache, key), key),
        after_fetch(after_fetch(cache, key), key) == after_fetch(cache, key),
{
    if !doc_present(cache, key) {
        assert(cache.push(key)[cache.len() as int] == key);
        assert(doc_present(cache.push(key), key));
    }
}

/// The index of the last separator in a link, or -1 when there is none.
pub open spec fn last_slash(s: Seq<char>) -> int
    decreases s.len(),
{
    if s.len() == 0 {
        -1
    } else if s.last() == '/' {
        s.len() - 1
    } else {
        last_slash(s.drop_last())
    }
}

/// The last path segment of a link: what follows its final separator, when
/// the link has a separator and does not end in one.
pub open spec fn doc_id_of(s: Seq<char>) -> Option<Seq<char>> {
    if last_slash(s) >= 0 && last_slash(s) < s.len() - 1 {
        Some(s.subrange(last_slash(s) + 1, s.len() as int))
    } else {
        None::<Seq<char>>
    }
}

/// Extracts the source system's document identifier from a record link: the
/// link's last path segment. A link without one names no document.
pub fn document_id_of_link(link: &str) -> (r: Option<String>)
    ensures
        match r {
            Some(v) => doc_id_of(link@) == Some(v@),
            None => doc_id_of(link@) is None,
        },
{
    let n = link.unicode_len();
    let mut j: usize = n;
    proof {
        assert(link@.subrange(0, n as int) =~= link@);
    }
    while j > 0
        invariant
            j <= n,
            n == link@.len(),
            last_slash(link@) == last_slash(link@.subrange(0, j as int)),
        decreases j,
    {
        j = j - 1;
        let c = link.get_char(j);
        proof {
            assert(link@.subrange(0, j + 1 as int).last() == link@[j as int]);
            assert(link@.subrange(0, j + 1 as int).drop_last() =~= link@.subrange(0, j as int));
        }
        if c == '/' {
            proof {
                assert(last_slash(link@.subrange(0, j + 1 as int)) == j as int);
                assert(last_slash(link@) == j as int);
            }
            if j + 1 < n {
                let mut out = String::new();
                let mut k: usize = j + 1;
                while k < n
                    invariant
                        j + 1 <= k <= n,
                        n == link@.len(),
                        out@ == link@.subrange(j + 1 as int, k as int),
                    decreases n - k,
                {
                    let ch = link.get_char(k);
                    push_char(&mut out, ch);
                    k = k + 1;
                    proof {
                        assert(link@.subrange(j + 1 as int, k as int) =~= link@.subrange(
                            j + 1 as int,
                            k - 1,
                        ).push(link@[k - 1]));
                    }
                }
                return Some(out);
            } else {
                return None;
            }
        }
    }
    proof {
        assert(link@.subrange(0, 0) =~= Seq::<char>::empty());
        assert(last_slash(link@) == -1);
    }
    None
}

/// Relies on `String::push` of std: the string grows by the one character.
#[verifier::external_body]
fn push_char(s: &mut String, c: char)
    ensures
        final(s)@ == old(s)@.push(c),
{
    s.push(c)
}

} // verus!

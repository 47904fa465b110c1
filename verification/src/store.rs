use vstd::prelude::*;
use crate::records::{
    AgendaItem, AgendaItemV, MeetingData, MeetingDataV, Meetings, MeetingsV, OfficeInsertableV,
    OfficeQueryable, OfficeQueryableV, Parliament, ParliamentV, Politician, PoliticianV,
    Registration, RegistrationData, RegistrationDataV, RegistrationV, Sessions, SessionsV, Speech,
    SpeechV, Vote, VoteData, VoteDataV, VoteV,
};
use crate::upsert::{dkeys, has_key, ign1, up1, find_key, lemma_find_key_bounds,
    lemma_find_key_exists};

verus! {

/// A failure reported by the record store. The only failure the in-memory
/// store can raise is exhaustion of the office identifier space; a relational
/// backend would raise its fatal errors through the same variant.
#[derive(Clone, Copy, PartialEq, Eq, Structural, Debug)]
pub enum StoreError {
    Fatal,
}

/// A row of one of the store's tables: its view carries a primary key.
pub trait Row: View + Sized {
    type K;

    /// The primary key of a row's view.
    spec fn rkey(v: Self::V) -> Self::K;

    /// Compares two rows' primary keys.
    fn keys_match(&self, other: &Self) -> (r: bool)
        ensures
            r == (Self::rkey(self@) == Self::rkey(other@));

    /// An equal-viewed copy of the row.
    fn dup_row(&self) -> (r: Self)
        ensures
            r@ == self@;
}

/// The key function of a row type, as a value.
pub open spec fn rkf<T: Row>() -> spec_fn(T::V) -> T::K {
    |v: T::V| T::rkey(v)
}

/// The views of a table's rows.
pub open spec fn tview<T: View>(s: Seq<T>) -> Seq<T::V> {
    s.map_values(|x: T| x@)
}

/// Whether some row of the sequence holds a key occurs at an index.
pub proof fn lemma_has_key_iff<V, K>(s: Seq<V>, kf: spec_fn(V) -> K, k: K)
    ensures
        has_key(s, kf, k) <==> exists|i: int| 0 <= i < s.len() && kf(s[i]) == k,
{
    lemma_find_key_bounds(s, kf, k);
    if exists|i: int| 0 <= i < s.len() && kf(s[i]) == k {
        let i = choose|i: int| 0 <= i < s.len() && kf(s[i]) == k;
        lemma_find_key_exists(s, kf, k, i);
    }
}

/// Writes a row under the insert-or-update policy: the row holding the same
/// key is overwritten in place, else the row is appended.
pub fn upsert_row<T: Row>(table: &mut Vec<T>, row: T)
    requires
        dkeys(tview(old(table)@), rkf::<T>()),
    ensures
        tview(final(table)@) == up1(tview(old(table)@), rkf::<T>(), row@),
        dkeys(tview(final(table)@), rkf::<T>()),
{
    let ghost s = tview(old(table)@);
    let ghost kf = rkf::<T>();
    let ghost kr = kf(row@);
    proof {
        assert(kr == T::rkey(row@));
    }
    let mut i: usize = 0;
    while i < table.len()
        invariant
            i <= table@.len(),
            table@ == old(table)@,
            s == tview(table@),
            kf == rkf::<T>(),
            kr == kf(row@),
            kr == T::rkey(row@),
            dkeys(s, kf),
            !has_key(s.take(i as int), kf, kr),
        decreases table@.len() - i,
    {
        let hit = table[i].keys_match(&row);
        proof {
            assert(s[i as int] == table@[i as int]@);
            assert(kf(s[i as int]) == T::rkey(table@[i as int]@));
        }
        if hit {
            proof {
                lemma_has_key_iff(s, kf, kr);
                assert(kf(s[i as int]) == kr);
                lemma_find_key_exists(s, kf, kr, i as int);
                assert(find_key(s, kf, kr) == i as int);
            }
            table[i] = row;
            proof {
                assert(table@[i as int]@ == tview(table@)[i as int]);
                assert(tview(table@) =~= s.update(i as int, table@[i as int]@));
                assert(tview(table@) == up1(s, kf, table@[i as int]@));
                crate::upsert::lemma_up1(s, kf, table@[i as int]@);
            }
            return ;
        }
        proof {
            let t1 = s.take(i + 1 as int);
            lemma_has_key_iff(t1, kf, kr);
            lemma_has_key_iff(s.take(i as int), kf, kr);
            assert forall|j: int| 0 <= j < t1.len() implies kf(t1[j]) != kr by {
                if j < i {
                    assert(t1[j] == s.take(i as int)[j]);
                } else {
                    assert(t1[j] == s[i as int]);
                }
            }
        }
        i = i + 1;
    }
    proof {
        assert(s.take(table@.len() as int) =~= s);
        assert(!has_key(s, kf, kr));
    }
    table.push(row);
    proof {
        assert(table@[table@.len() - 1]@ == tview(table@)[table@.len() - 1]);
        assert(tview(table@) =~= s.push(table@[table@.len() - 1]@));
        assert(tview(table@) == up1(s, kf, table@[table@.len() - 1]@));
        crate::upsert::lemma_up1(s, kf, table@[table@.len() - 1]@);
    }
}

/// Writes a row under the insert-or-ignore policy: a row holding the same key
/// is left as it is, else the row is appended. Reports whether the row was
/// appended.
pub fn ignore_row<T: Row>(table: &mut Vec<T>, row: T) -> (inserted: bool)
    requires
        dkeys(tview(old(table)@), rkf::<T>()),
    ensures
        tview(final(table)@) == ign1(tview(old(table)@), rkf::<T>(), row@),
        dkeys(tview(final(table)@), rkf::<T>()),
        inserted == !has_key(tview(old(table)@), rkf::<T>(), T::rkey(row@)),
{
    let ghost s = tview(old(table)@);
    let ghost kf = rkf::<T>();
    let ghost kr = kf(row@);
    proof {
        assert(kr == T::rkey(row@));
    }
    let mut i: usize = 0;
    while i < table.len()
        invariant
            i <= table@.len(),
            table@ == old(table)@,
            s == tview(table@),
            kf == rkf::<T>(),
            kr == kf(row@),
            kr == T::rkey(row@),
            dkeys(s, kf),
            !has_key(s.take(i as int), kf, kr),
        decreases table@.len() - i,
    {
        let hit = table[i].keys_match(&row);
        proof {
            assert(s[i as int] == table@[i as int]@);
            assert(kf(s[i as int]) == T::rkey(table@[i as int]@));
        }
        if hit {
            proof {
                lemma_has_key_iff(s, kf, kr);
                assert(kf(s[i as int]) == kr);
                lemma_find_key_exists(s, kf, kr, i as int);
            }
            return false;
        }
        proof {
            let t1 = s.take(i + 1 as int);
            lemma_has_key_iff(t1, kf, kr);
            lemma_has_key_iff(s.take(i as int), kf, kr);
            assert forall|j: int| 0 <= j < t1.len() implies kf(t1[j]) != kr by {
                if j < i {
                    assert(t1[j] == s.take(i as int)[j]);
                } else {
                    assert(t1[j] == s[i as int]);
                }
            }
        }
        i = i + 1;
    }
    proof {
        assert(s.take(table@.len() as int) =~= s);
        assert(!has_key(s, kf, kr));
    }
    table.push(row);
    proof {
        assert(table@[table@.len() - 1]@ == tview(table@)[table@.len() - 1]);
        assert(tview(table@) =~= s.push(table@[table@.len() - 1]@));
        assert(tview(table@) == ign1(s, kf, table@[table@.len() - 1]@));
        crate::upsert::lemma_ign1(s, kf, table@[table@.len() - 1]@);
    }
    true
}

impl Row for Parliament {
    type K = int;

    open spec fn rkey(v: ParliamentV) -> int {
        v.id
    }

    fn keys_match(&self, other: &Self) -> (r: bool) {
        self.id == other.id
    }

    fn dup_row(&self) -> (r: Self) {
        self.dup()
    }
}

impl Row for Politician {
    type K = (int, int);

    open spec fn rkey(v: PoliticianV) -> (int, int) {
        (v.id, v.parliament)
    }

    fn keys_match(&self, other: &Self) -> (r: bool) {
        self.id == other.id && self.parliament == other.parliament
    }

    fn dup_row(&self) -> (r: Self) {
        self.dup()
    }
}

impl Row for OfficeQueryable {
    type K = int;

    open spec fn rkey(v: OfficeQueryableV) -> int {
        v.id
    }

    fn keys_match(&self, other: &Self) -> (r: bool) {
        self.id == other.id
    }

    fn dup_row(&self) -> (r: Self) {
        OfficeQueryable {
            id: self.id,
            department_id: self.department_id,
            department_name: crate::records::copy_opt_string(&self.department_name),
            department_type: self.department_type,
            duties: crate::records::copy_opt_string(&self.duties),
            from: self.from,
            to: self.to,
        }
    }
}

impl Row for Sessions {
    type K = int;

    open spec fn rkey(v: SessionsV) -> int {
        v.id
    }

    fn keys_match(&self, other: &Self) -> (r: bool) {
        self.id == other.id
    }

    fn dup_row(&self) -> (r: Self) {
        self.dup()
    }
}

impl Row for Meetings {
    type K = int;

    open spec fn rkey(v: MeetingsV) -> int {
        v.id
    }

    fn keys_match(&self, other: &Self) -> (r: bool) {
        self.id == other.id
    }

    fn dup_row(&self) -> (r: Self) {
        self.dup()
    }
}

impl Row for MeetingData {
    type K = int;

    open spec fn rkey(v: MeetingDataV) -> int {
        v.id
    }

    fn keys_match(&self, other: &Self) -> (r: bool) {
        self.id == other.id
    }

    fn dup_row(&self) -> (r: Self) {
        self.dup()
    }
}

impl Row for AgendaItem {
    type K = int;

    open spec fn rkey(v: AgendaItemV) -> int {
        v.id
    }

    fn keys_match(&self, other: &Self) -> (r: bool) {
        self.id == other.id
    }

    fn dup_row(&self) -> (r: Self) {
        self.dup()
    }
}

impl Row for Vote {
    type K = int;

    open spec fn rkey(v: VoteV) -> int {
        v.id
    }

    fn keys_match(&self, other: &Self) -> (r: bool) {
        self.id == other.id
    }

    fn dup_row(&self) -> (r: Self) {
        self.dup()
    }
}

impl Row for Speech {
    type K = int;

    open spec fn rkey(v: SpeechV) -> int {
        v.id
    }

    fn keys_match(&self, other: &Self) -> (r: bool) {
        self.id == other.id
    }

    fn dup_row(&self) -> (r: Self) {
        self.dup()
    }
}

impl Row for Registration {
    type K = int;

    open spec fn rkey(v: RegistrationV) -> int {
        v.id
    }

    fn keys_match(&self, other: &Self) -> (r: bool) {
        self.id == other.id
    }

    fn dup_row(&self) -> (r: Self) {
        self.dup()
    }
}

impl Row for VoteData {
    type K = (int, int);

    open spec fn rkey(v: VoteDataV) -> (int, int) {
        (v.id, v.person_id)
    }

    fn keys_match(&self, other: &Self) -> (r: bool) {
        self.id == other.id && self.person_id == other.person_id
    }

    fn dup_row(&self) -> (r: Self) {
        *self
    }
}

impl Row for RegistrationData {
    type K = (int, int);

    open spec fn rkey(v: RegistrationDataV) -> (int, int) {
        (v.id, v.person_id)
    }

    fn keys_match(&self, other: &Self) -> (r: bool) {
        self.id == other.id && self.person_id == other.person_id
    }

    fn dup_row(&self) -> (r: Self) {
        *self
    }
}

/// The mathematical contents of the record store: one row sequence per table,
/// and the next office identifier to assign.
#[verifier::ext_equal]
pub struct StoreView {
    pub parliaments: Seq<ParliamentV>,
    pub politicians: Seq<PoliticianV>,
    pub offices: Seq<OfficeQueryableV>,
    pub sessions: Seq<SessionsV>,
    pub meetings: Seq<MeetingsV>,
    pub meeting_data: Seq<MeetingDataV>,
    pub agenda_items: Seq<AgendaItemV>,
    pub votes: Seq<VoteV>,
    pub speeches: Seq<SpeechV>,
    pub registrations: Seq<RegistrationV>,
    pub vote_data: Seq<VoteDataV>,
    pub registration_data: Seq<RegistrationDataV>,
    pub next_office_id: int,
}

impl StoreView {
    /// Every table holds pairwise distinct primary keys, and every stored
    /// office identifier lies below the next one to assign.
    pub open spec fn wf(self) -> bool {
        &&& dkeys(self.parliaments, rkf::<Parliament>())
        &&& dkeys(self.politicians, rkf::<Politician>())
        &&& dkeys(self.offices, rkf::<OfficeQueryable>())
        &&& dkeys(self.sessions, rkf::<Sessions>())
        &&& dkeys(self.meetings, rkf::<Meetings>())
        &&& dkeys(self.meeting_data, rkf::<MeetingData>())
        &&& dkeys(self.agenda_items, rkf::<AgendaItem>())
        &&& dkeys(self.votes, rkf::<Vote>())
        &&& dkeys(self.speeches, rkf::<Speech>())
        &&& dkeys(self.registrations, rkf::<Registration>())
        &&& dkeys(self.vote_data, rkf::<VoteData>())
        &&& dkeys(self.registration_data, rkf::<RegistrationData>())
        &&& forall|i: int|
            0 <= i < self.offices.len() ==> self.offices[i].id < self.next_office_id
        &&& 1 <= self.next_office_id <= i32::MAX
    }

    /// The store with one table replaced.
    pub open spec fn with_parliaments(self, t: Seq<ParliamentV>) -> StoreView {
        StoreView { parliaments: t, ..self }
    }

    /// The store with one table replaced.
    pub open spec fn with_politicians(self, t: Seq<PoliticianV>) -> StoreView {
        StoreView { politicians: t, ..self }
    }

    /// The store with one table replaced.
    pub open spec fn with_sessions(self, t: Seq<SessionsV>) -> StoreView {
        StoreView { sessions: t, ..self }
    }

    /// The store with one table replaced.
    pub open spec fn with_meetings(self, t: Seq<MeetingsV>) -> StoreView {
        StoreView { meetings: t, ..self }
    }

    /// The store with one table replaced.
    pub open spec fn with_meeting_data(self, t: Seq<MeetingDataV>) -> StoreView {
        StoreView { meeting_data: t, ..self }
    }

    /// The store with one table replaced.
    pub open spec fn with_agenda_items(self, t: Seq<AgendaItemV>) -> StoreView {
        StoreView { agenda_items: t, ..self }
    }

    /// The store with one table replaced.
    pub open spec fn with_votes(self, t: Seq<VoteV>) -> StoreView {
        StoreView { votes: t, ..self }
    }

    /// The store with one table replaced.
    pub open spec fn with_speeches(self, t: Seq<SpeechV>) -> StoreView {
        StoreView { speeches: t, ..self }
    }

    /// The store with one table replaced.
    pub open spec fn with_registrations(self, t: Seq<RegistrationV>) -> StoreView {
        StoreView { registrations: t, ..self }
    }

    /// The store with one table replaced.
    pub open spec fn with_vote_data(self, t: Seq<VoteDataV>) -> StoreView {
        StoreView { vote_data: t, ..self }
    }

    /// The store with one table replaced.
    pub open spec fn with_registration_data(self, t: Seq<RegistrationDataV>) -> StoreView {
        StoreView { registration_data: t, ..self }
    }

    /// The store after one office row was appended under a fresh identifier.
    pub open spec fn with_office_added(self, o: OfficeQueryableV) -> StoreView {
        StoreView {
            offices: self.offices.push(o),
            next_office_id: self.next_office_id + 1,
            ..self
        }
    }

    /// The empty store.
    pub open spec fn empty() -> StoreView {
        StoreView {
            parliaments: Seq::empty(),
            politicians: Seq::empty(),
            offices: Seq::empty(),
            sessions: Seq::empty(),
            meetings: Seq::empty(),
            meeting_data: Seq::empty(),
            agenda_items: Seq::empty(),
            votes: Seq::empty(),
            speeches: Seq::empty(),
            registrations: Seq::empty(),
            vote_data: Seq::empty(),
            registration_data: Seq::empty(),
            next_office_id: 1,
        }
    }
}

/// The record store: one table per entity, held in memory.
pub struct Store {
    pub parliaments: Vec<Parliament>,
    pub politicians: Vec<Politician>,
    pub offices: Vec<OfficeQueryable>,
    pub sessions: Vec<Sessions>,
    pub meetings: Vec<Meetings>,
    pub meeting_data: Vec<MeetingData>,
    pub agenda_items: Vec<AgendaItem>,
    pub votes: Vec<Vote>,
    pub speeches: Vec<Speech>,
    pub registrations: Vec<Registration>,
    pub vote_data: Vec<VoteData>,
    pub registration_data: Vec<RegistrationData>,
    pub next_office_id: i32,
}

impl View for Store {
    type V = StoreView;

    open spec fn view(&self) -> StoreView {
        StoreView {
            parliaments: tview(self.parliaments@),
            politicians: tview(self.politicians@),
            offices: tview(self.offices@),
            sessions: tview(self.sessions@),
            meetings: tview(self.meetings@),
            meeting_data: tview(self.meeting_data@),
            agenda_items: tview(self.agenda_items@),
            votes: tview(self.votes@),
            speeches: tview(self.speeches@),
            registrations: tview(self.registrations@),
            vote_data: tview(self.vote_data@),
            registration_data: tview(self.registration_data@),
            next_office_id: self.next_office_id as int,
        }
    }
}

impl Store {
    /// A fresh, empty store.
    pub fn new() -> (r: Store)
        ensures
            r@ == StoreView::empty(),
            r@.wf(),
    {
        let s = Store {
            parliaments: Vec::new(),
            politicians: Vec::new(),
            offices: Vec::new(),
            sessions: Vec::new(),
            meetings: Vec::new(),
            meeting_data: Vec::new(),
            agenda_items: Vec::new(),
            votes: Vec::new(),
            speeches: Vec::new(),
            registrations: Vec::new(),
            vote_data: Vec::new(),
            registration_data: Vec::new(),
            next_office_id: 1,
        };
        proof {
            assert(s@.parliaments =~= Seq::<ParliamentV>::empty());
            assert(s@.politicians =~= Seq::<PoliticianV>::empty());
            assert(s@.offices =~= Seq::<OfficeQueryableV>::empty());
            assert(s@.sessions =~= Seq::<SessionsV>::empty());
            assert(s@.meetings =~= Seq::<MeetingsV>::empty());
            assert(s@.meeting_data =~= Seq::<MeetingDataV>::empty());
            assert(s@.agenda_items =~= Seq::<AgendaItemV>::empty());
            assert(s@.votes =~= Seq::<VoteV>::empty());
            assert(s@.speeches =~= Seq::<SpeechV>::empty());
            assert(s@.registrations =~= Seq::<RegistrationV>::empty());
            assert(s@.vote_data =~= Seq::<VoteDataV>::empty());
            assert(s@.registration_data =~= Seq::<RegistrationDataV>::empty());
        }
        s
    }
}

/// A stored office copy of an insertable office, under an assigned identifier.
pub open spec fn office_with_id(o: OfficeInsertableV, id: int) -> OfficeQueryableV {
    OfficeQueryableV {
        id: id,
        department_id: o.department_id,
        department_name: o.department_name,
        department_type: o.department_type,
        duties: o.duties,
        from: o.from,
        to: o.to,
    }
}

} // verus!

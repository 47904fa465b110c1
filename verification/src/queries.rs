use vstd::prelude::*;
use crate::records::{
    ids_view, opt_str, MeetingDataV, MeetingsV, ParliamentV, Registration, RegistrationData,
    RegistrationDataV, RegistrationV, Sessions, SessionsV, Vote, VoteData, VoteDataV, VoteV,
    MeetingData, Meetings, Parliament, copy_opt_string,
};
use crate::store::{lemma_has_key_iff, rkf, Row, Store};
use crate::upsert::has_key;

verus! {

// Read-side queries used to build the crawl's task lists: identifier lists
// per table, identifier lists filtered by the owning parent, row counts, and
// the "missing identifier" views that drive incremental backfill.

/// The identifiers of all parliament rows, in row order.
pub open spec fn parliament_ids(s: Seq<ParliamentV>) -> Seq<int>
    decreases s.len(),
{
    if s.len() == 0 {
        Seq::<int>::empty()
    } else {
        parliament_ids(s.drop_last()).push(s.last().id)
    }
}

/// The identifiers of the sessions owned by one parliament, in row order.
pub open spec fn session_ids_for(s: Seq<SessionsV>, pid: int) -> Seq<int>
    decreases s.len(),
{
    if s.len() == 0 {
        Seq::<int>::empty()
    } else {
        let r = session_ids_for(s.drop_last(), pid);
        if s.last().parliament == pid {
            r.push(s.last().id)
        } else {
            r
        }
    }
}

/// The identifiers of the meetings owned by one session, in row order.
pub open spec fn meeting_ids_for(s: Seq<MeetingsV>, sid: int) -> Seq<int>
    decreases s.len(),
{
    if s.len() == 0 {
        Seq::<int>::empty()
    } else {
        let r = meeting_ids_for(s.drop_last(), sid);
        if s.last().session == sid {
            r.push(s.last().id)
        } else {
            r
        }
    }
}

/// The (session, number, link) rows of one session's meetings.
pub open spec fn protocol_rows(s: Seq<MeetingsV>, sid: int) -> Seq<(int, i32, Option<Seq<char>>)>
    decreases s.len(),
{
    if s.len() == 0 {
        Seq::<(int, i32, Option<Seq<char>>)>::empty()
    } else {
        let r = protocol_rows(s.drop_last(), sid);
        if s.last().session == sid {
            r.push((s.last().session, s.last().num, s.last().protocol_link))
        } else {
            r
        }
    }
}

/// The (session, number, link) rows of one session's meetings.
pub open spec fn stenogram_rows(s: Seq<MeetingsV>, sid: int) -> Seq<(int, i32, Option<Seq<char>>)>
    decreases s.len(),
{
    if s.len() == 0 {
        Seq::<(int, i32, Option<Seq<char>>)>::empty()
    } else {
        let r = stenogram_rows(s.drop_last(), sid);
        if s.last().session == sid {
            r.push((s.last().session, s.last().num, s.last().stenogram_link))
        } else {
            r
        }
    }
}

/// The identifiers of all voting-event rows, in row order.
pub open spec fn vote_ids(s: Seq<VoteV>) -> Seq<int>
    decreases s.len(),
{
    if s.len() == 0 {
        Seq::<int>::empty()
    } else {
        vote_ids(s.drop_last()).push(s.last().id)
    }
}

/// The identifiers of all roll-call-event rows, in row order.
pub open spec fn registration_ids(s: Seq<RegistrationV>) -> Seq<int>
    decreases s.len(),
{
    if s.len() == 0 {
        Seq::<int>::empty()
    } else {
        registration_ids(s.drop_last()).push(s.last().id)
    }
}

/// Whether some per-person vote row refers to the voting event `id`.
pub open spec fn vote_detail_present(s: Seq<VoteDataV>, id: int) -> bool {
    exists|i: int| 0 <= i < s.len() && s[i].id == id
}

/// Whether some per-person registration row refers to the roll-call event
/// `id`.
pub open spec fn registration_detail_present(s: Seq<RegistrationDataV>, id: int) -> bool {
    exists|i: int| 0 <= i < s.len() && s[i].id == id
}

/// The meetings that have no detail row yet, in row order.
pub open spec fn missing_meeting_ids(ms: Seq<MeetingsV>, md: Seq<MeetingDataV>) -> Seq<int>
    decreases ms.len(),
{
    if ms.len() == 0 {
        Seq::<int>::empty()
    } else {
        let r = missing_meeting_ids(ms.drop_last(), md);
        if !has_key(md, rkf::<MeetingData>(), ms.last().id) {
            r.push(ms.last().id)
        } else {
            r
        }
    }
}

/// The voting events that have no per-person rows yet, in row order.
pub open spec fn missing_vote_ids(vs: Seq<VoteV>, vd: Seq<VoteDataV>) -> Seq<int>
    decreases vs.len(),
{
    if vs.len() == 0 {
        Seq::<int>::empty()
    } else {
        let r = missing_vote_ids(vs.drop_last(), vd);
        if !vote_detail_present(vd, vs.last().id) {
            r.push(vs.last().id)
        } else {
            r
        }
    }
}

/// The roll-call events that have no per-person rows yet, in row order.
pub open spec fn missing_registration_ids(
    rs: Seq<RegistrationV>,
    rd: Seq<RegistrationDataV>,
) -> Seq<int>
    decreases rs.len(),
{
    if rs.len() == 0 {
        Seq::<int>::empty()
    } else {
        let r = missing_registration_ids(rs.drop_last(), rd);
        if !registration_detail_present(rd, rs.last().id) {
            r.push(rs.last().id)
        } else {
            r
        }
    }
}

/// The view of a (session, number, link) row list.
pub open spec fn link_rows_view(s: Seq<(i32, i32, Option<String>)>) -> Seq<
    (int, i32, Option<Seq<char>>),
> {
    s.map_values(|t: (i32, i32, Option<String>)| (t.0 as int, t.1, opt_str(t.2)))
}

impl Parliament {
    /// All stored parliament identifiers.
    pub fn get_parliaments_ids(store: &Store) -> (r: Vec<i32>)
        ensures
            ids_view(r@) == parliament_ids(store@.parliaments),
    {
        let ghost s = store@.parliaments;
        let mut out: Vec<i32> = Vec::new();
        let mut i: usize = 0;
        proof {
            assert(s.take(0) =~= Seq::<ParliamentV>::empty());
            assert(ids_view(out@) =~= parliament_ids(s.take(0)));
        }
        while i < store.parliaments.len()
            invariant
                i <= store.parliaments@.len(),
                s == store@.parliaments,
                s.len() == store.parliaments@.len(),
                ids_view(out@) == parliament_ids(s.take(i as int)),
            decreases store.parliaments@.len() - i,
        {
            out.push(store.parliaments[i].id);
            i = i + 1;
            proof {
                assert(s.take(i as int).drop_last() =~= s.take(i - 1));
                assert(s.take(i as int).last() == s[i - 1]);
                assert(s[i - 1] == store.parliaments@[i - 1]@);
                assert(ids_view(out@) =~= ids_view(out@.drop_last()).push(
                    out@.last() as int,
                ));
            }
        }
        proof {
            assert(s.take(s.len() as int) =~= s);
        }
        out
    }
}

impl Sessions {
    /// The identifiers of the sessions owned by one parliament.
    pub fn get_sessions_per_parliament(store: &Store, parliament_id: i32) -> (r: Vec<i32>)
        ensures
            ids_view(r@) == session_ids_for(store@.sessions, parliament_id as int),
    {
        let ghost s = store@.sessions;
        let ghost pid = parliament_id as int;
        let mut out: Vec<i32> = Vec::new();
        let mut i: usize = 0;
        proof {
            assert(s.take(0) =~= Seq::<SessionsV>::empty());
            assert(ids_view(out@) =~= session_ids_for(s.take(0), pid));
        }
        while i < store.sessions.len()
            invariant
                i <= store.sessions@.len(),
                s == store@.sessions,
                pid == parliament_id as int,
                s.len() == store.sessions@.len(),
                ids_view(out@) == session_ids_for(s.take(i as int), pid),
            decreases store.sessions@.len() - i,
        {
            if store.sessions[i].parliament == parliament_id {
                out.push(store.sessions[i].id);
                proof {
                    assert(ids_view(out@) =~= ids_view(out@.drop_last()).push(
                        out@.last() as int,
                    ));
                }
            }
            i = i + 1;
            proof {
                assert(s.take(i as int).drop_last() =~= s.take(i - 1));
                assert(s.take(i as int).last() == s[i - 1]);
                assert(s[i - 1] == store.sessions@[i - 1]@);
            }
        }
        proof {
            assert(s.take(s.len() as int) =~= s);
        }
        out
    }
}

impl Meetings {
    /// The identifiers of the meetings owned by one session.
    pub fn get_meetings_ids(store: &Store, session_id: i32) -> (r: Vec<i32>)
        ensures
            ids_view(r@) == meeting_ids_for(store@.meetings, session_id as int),
    {
        let ghost s = store@.meetings;
        let ghost sid = session_id as int;
        let mut out: Vec<i32> = Vec::new();
        let mut i: usize = 0;
        proof {
            assert(s.take(0) =~= Seq::<MeetingsV>::empty());
            assert(ids_view(out@) =~= meeting_ids_for(s.take(0), sid));
        }
        while i < store.meetings.len()
            invariant
                i <= store.meetings@.len(),
                s == store@.meetings,
                sid == session_id as int,
                s.len() == store.meetings@.len(),
                ids_view(out@) == meeting_ids_for(s.take(i as int), sid),
            decreases store.meetings@.len() - i,
        {
            if store.meetings[i].session == session_id {
                out.push(store.meetings[i].id);
                proof {
                    assert(ids_view(out@) =~= ids_view(out@.drop_last()).push(
                        out@.last() as int,
                    ));
                }
            }
            i = i + 1;
            proof {
                assert(s.take(i as int).drop_last() =~= s.take(i - 1));
                assert(s.take(i as int).last() == s[i - 1]);
                assert(s[i - 1] == store.meetings@[i - 1]@);
            }
        }
        proof {
            assert(s.take(s.len() as int) =~= s);
        }
        out
    }

    /// How many meetings one session owns.
    pub fn get_session_count(store: &Store, session_id: i32) -> (r: usize)
        ensures
            r == meeting_ids_for(store@.meetings, session_id as int).len(),
    {
        let ids = Meetings::get_meetings_ids(store, session_id);
        proof {
            assert(ids@.len() == ids_view(ids@).len());
        }
        ids.len()
    }

    /// The (session, number, protocol link) rows of one session's meetings.
    pub fn get_protocols_per_session(store: &Store, session_id: i32) -> (r: Vec<
        (i32, i32, Option<String>),
    >)
        ensures
            link_rows_view(r@) == protocol_rows(store@.meetings, session_id as int),
    {
        let ghost s = store@.meetings;
        let ghost sid = session_id as int;
        let mut out: Vec<(i32, i32, Option<String>)> = Vec::new();
        let mut i: usize = 0;
        proof {
            assert(s.take(0) =~= Seq::<MeetingsV>::empty());
            assert(link_rows_view(out@) =~= protocol_rows(s.take(0), sid));
        }
        while i < store.meetings.len()
            invariant
                i <= store.meetings@.len(),
                s == store@.meetings,
                sid == session_id as int,
                s.len() == store.meetings@.len(),
                link_rows_view(out@) == protocol_rows(s.take(i as int), sid),
            decreases store.meetings@.len() - i,
        {
            if store.meetings[i].session == session_id {
                let link = copy_opt_string(&store.meetings[i].protocol_link);
                out.push((store.meetings[i].session, store.meetings[i].num, link));
                proof {
                    assert(link_rows_view(out@) =~= link_rows_view(out@.drop_last()).push(
                        (out@.last().0 as int, out@.last().1, opt_str(out@.last().2)),
                    ));
                }
            }
            i = i + 1;
            proof {
                assert(s.take(i as int).drop_last() =~= s.take(i - 1));
                assert(s.take(i as int).last() == s[i - 1]);
                assert(s[i - 1] == store.meetings@[i - 1]@);
            }
        }
        proof {
            assert(s.take(s.len() as int) =~= s);
        }
        out
    }

    /// The (session, number, stenogram link) rows of one session's meetings.
    pub fn get_stenograms_per_session(store: &Store, session_id: i32) -> (r: Vec<
        (i32, i32, Option<String>),
    >)
        ensures
            link_rows_view(r@) == stenogram_rows(store@.meetings, session_id as int),
    {
        let ghost s = store@.meetings;
        let ghost sid = session_id as int;
        let mut out: Vec<(i32, i32, Option<String>)> = Vec::new();
        let mut i: usize = 0;
        proof {
            assert(s.take(0) =~= Seq::<MeetingsV>::empty());
            assert(link_rows_view(out@) =~= stenogram_rows(s.take(0), sid));
        }
        while i < store.meetings.len()
            invariant
                i <= store.meetings@.len(),
                s == store@.meetings,
                sid == session_id as int,
                s.len() == store.meetings@.len(),
                link_rows_view(out@) == stenogram_rows(s.take(i as int), sid),
            decreases store.meetings@.len() - i,
        {
            if store.meetings[i].session == session_id {
                let link = copy_opt_string(&store.meetings[i].stenogram_link);
                out.push((store.meetings[i].session, store.meetings[i].num, link));
                proof {
                    assert(link_rows_view(out@) =~= link_rows_view(out@.drop_last()).push(
                        (out@.last().0 as int, out@.last().1, opt_str(out@.last().2)),
                    ));
                }
            }
            i = i + 1;
            proof {
                assert(s.take(i as int).drop_last() =~= s.take(i - 1));
                assert(s.take(i as int).last() == s[i - 1]);
                assert(s[i - 1] == store.meetings@[i - 1]@);
            }
        }
        proof {
            assert(s.take(s.len() as int) =~= s);
        }
        out
    }

    /// The meetings that have no detail row yet.
    pub fn get_missing_meeting_ids(store: &Store) -> (r: Vec<i32>)
        ensures
            ids_view(r@) == missing_meeting_ids(store@.meetings, store@.meeting_data),
    {
        let ghost s = store@.meetings;
        let ghost md = store@.meeting_data;
        let mut out: Vec<i32> = Vec::new();
        let mut i: usize = 0;
        proof {
            assert(s.take(0) =~= Seq::<MeetingsV>::empty());
            assert(ids_view(out@) =~= missing_meeting_ids(s.take(0), md));
        }
        while i < store.meetings.len()
            invariant
                i <= store.meetings@.len(),
                s == store@.meetings,
                md == store@.meeting_data,
                s.len() == store.meetings@.len(),
                ids_view(out@) == missing_meeting_ids(s.take(i as int), md),
            decreases store.meetings@.len() - i,
        {
            if !has_meeting_detail(store, store.meetings[i].id) {
                out.push(store.meetings[i].id);
                proof {
                    assert(ids_view(out@) =~= ids_view(out@.drop_last()).push(
                        out@.last() as int,
                    ));
                }
            }
            i = i + 1;
            proof {
                assert(s.take(i as int).drop_last() =~= s.take(i - 1));
                assert(s.take(i as int).last() == s[i - 1]);
                assert(s[i - 1] == store.meetings@[i - 1]@);
            }
        }
        proof {
            assert(s.take(s.len() as int) =~= s);
        }
        out
    }
}

/// Whether a meeting-detail row with this identifier is stored.
pub fn has_meeting_detail(store: &Store, id: i32) -> (r: bool)
    ensures
        r == has_key(store@.meeting_data, rkf::<MeetingData>(), id as int),
{
    let ghost s = store@.meeting_data;
    let ghost kf = rkf::<MeetingData>();
    let mut i: usize = 0;
    proof {
        lemma_has_key_iff(s, kf, id as int);
    }
    while i < store.meeting_data.len()
        invariant
            i <= store.meeting_data@.len(),
            s == store@.meeting_data,
            kf == rkf::<MeetingData>(),
            s.len() == store.meeting_data@.len(),
            has_key(s, kf, id as int) <==> exists|j: int|
                0 <= j < s.len() && s[j].id == id as int,
            forall|j: int| 0 <= j < i ==> s[j].id != id as int,
        decreases store.meeting_data@.len() - i,
    {
        if store.meeting_data[i].id == id {
            proof {
                assert(s[i as int] == store.meeting_data@[i as int]@);
                assert(s[i as int].id == id as int);
            }
            return true;
        }
        proof {
            assert(s[i as int] == store.meeting_data@[i as int]@);
        }
        i = i + 1;
    }
    false
}

impl Vote {
    /// All stored voting-event identifiers.
    pub fn get_vote_ids(store: &Store) -> (r: Vec<i32>)
        ensures
            ids_view(r@) == vote_ids(store@.votes),
    {
        let ghost s = store@.votes;
        let mut out: Vec<i32> = Vec::new();
        let mut i: usize = 0;
        proof {
            assert(s.take(0) =~= Seq::<VoteV>::empty());
            assert(ids_view(out@) =~= vote_ids(s.take(0)));
        }
        while i < store.votes.len()
            invariant
                i <= store.votes@.len(),
                s == store@.votes,
                s.len() == store.votes@.len(),
                ids_view(out@) == vote_ids(s.take(i as int)),
            decreases store.votes@.len() - i,
        {
            out.push(store.votes[i].id);
            i = i + 1;
            proof {
                assert(s.take(i as int).drop_last() =~= s.take(i - 1));
                assert(s.take(i as int).last() == s[i - 1]);
                assert(s[i - 1] == store.votes@[i - 1]@);
                assert(ids_view(out@) =~= ids_view(out@.drop_last()).push(
                    out@.last() as int,
                ));
            }
        }
        proof {
            assert(s.take(s.len() as int) =~= s);
        }
        out
    }
}

impl Registration {
    /// All stored roll-call-event identifiers.
    pub fn get_registration_ids(store: &Store) -> (r: Vec<i32>)
        ensures
            ids_view(r@) == registration_ids(store@.registrations),
    {
        let ghost s = store@.registrations;
        let mut out: Vec<i32> = Vec::new();
        let mut i: usize = 0;
        proof {
            assert(s.take(0) =~= Seq::<RegistrationV>::empty());
            assert(ids_view(out@) =~= registration_ids(s.take(0)));
        }
        while i < store.registrations.len()
            invariant
                i <= store.registrations@.len(),
                s == store@.registrations,
                s.len() == store.registrations@.len(),
                ids_view(out@) == registration_ids(s.take(i as int)),
            decreases store.registrations@.len() - i,
        {
            out.push(store.registrations[i].id);
            i = i + 1;
            proof {
                assert(s.take(i as int).drop_last() =~= s.take(i - 1));
                assert(s.take(i as int).last() == s[i - 1]);
                assert(s[i - 1] == store.registrations@[i - 1]@);
                assert(ids_view(out@) =~= ids_view(out@.drop_last()).push(
                    out@.last() as int,
                ));
            }
        }
        proof {
            assert(s.take(s.len() as int) =~= s);
        }
        out
    }
}

/// Whether a per-person vote row referring to this voting event is stored.
pub fn has_vote_detail(store: &Store, id: i32) -> (r: bool)
    ensures
        r == vote_detail_present(store@.vote_data, id as int),
{
    let ghost s = store@.vote_data;
    let mut i: usize = 0;
    while i < store.vote_data.len()
        invariant
            i <= store.vote_data@.len(),
            s == store@.vote_data,
            s.len() == store.vote_data@.len(),
            forall|j: int| 0 <= j < i ==> s[j].id != id as int,
        decreases store.vote_data@.len() - i,
    {
        if store.vote_data[i].id == id {
            proof {
                assert(s[i as int] == store.vote_data@[i as int]@);
                assert(s[i as int].id == id as int);
            }
            return true;
        }
        proof {
            assert(s[i as int] == store.vote_data@[i as int]@);
        }
        i = i + 1;
    }
    false
}

/// Whether a per-person registration row referring to this roll-call event is
/// stored.
pub fn has_registration_detail(store: &Store, id: i32) -> (r: bool)
    ensures
        r == registration_detail_present(store@.registration_data, id as int),
{
    let ghost s = store@.registration_data;
    let mut i: usize = 0;
    while i < store.registration_data.len()
        invariant
            i <= store.registration_data@.len(),
            s == store@.registration_data,
            s.len() == store.registration_data@.len(),
            forall|j: int| 0 <= j < i ==> s[j].id != id as int,
        decreases store.registration_data@.len() - i,
    {
        if store.registration_data[i].id == id {
            proof {
                assert(s[i as int] == store.registration_data@[i as int]@);
                assert(s[i as int].id == id as int);
            }
            return true;
        }
        proof {
            assert(s[i as int] == store.registration_data@[i as int]@);
        }
        i = i + 1;
    }
    false
}

impl VoteData {
    /// The voting events that have no per-person rows yet.
    pub fn get_missing_vote_ids(store: &Store) -> (r: Vec<i32>)
        ensures
            ids_view(r@) == missing_vote_ids(store@.votes, store@.vote_data),
    {
        let ghost s = store@.votes;
        let ghost vd = store@.vote_data;
        let mut out: Vec<i32> = Vec::new();
        let mut i: usize = 0;
        proof {
            assert(s.take(0) =~= Seq::<VoteV>::empty());
            assert(ids_view(out@) =~= missing_vote_ids(s.take(0), vd));
        }
        while i < store.votes.len()
            invariant
                i <= store.votes@.len(),
                s == store@.votes,
                vd == store@.vote_data,
                s.len() == store.votes@.len(),
                ids_view(out@) == missing_vote_ids(s.take(i as int), vd),
            decreases store.votes@.len() - i,
        {
            if !has_vote_detail(store, store.votes[i].id) {
                out.push(store.votes[i].id);
                proof {
                    assert(ids_view(out@) =~= ids_view(out@.drop_last()).push(
                        out@.last() as int,
                    ));
                }
            }
            i = i + 1;
            proof {
                assert(s.take(i as int).drop_last() =~= s.take(i - 1));
                assert(s.take(i as int).last() == s[i - 1]);
                assert(s[i - 1] == store.votes@[i - 1]@);
            }
        }
        proof {
            assert(s.take(s.len() as int) =~= s);
        }
        out
    }
}

impl RegistrationData {
    /// The roll-call events that have no per-person rows yet.
    pub fn get_missing_registration_ids(store: &Store) -> (r: Vec<i32>)
        ensures
            ids_view(r@) == missing_registration_ids(
                store@.registrations,
                store@.registration_data,
            ),
    {
        let ghost s = store@.registrations;
        let ghost rd = store@.registration_data;
        let mut out: Vec<i32> = Vec::new();
        let mut i: usize = 0;
        proof {
            assert(s.take(0) =~= Seq::<RegistrationV>::empty());
            assert(ids_view(out@) =~= missing_registration_ids(s.take(0), rd));
        }
        while i < store.registrations.len()
            invariant
                i <= store.registrations@.len(),
                s == store@.registrations,
                rd == store@.registration_data,
                s.len() == store.registrations@.len(),
                ids_view(out@) == missing_registration_ids(s.take(i as int), rd),
            decreases store.registrations@.len() - i,
        {
            if !has_registration_detail(store, store.registrations[i].id) {
                out.push(store.registrations[i].id);
                proof {
                    assert(ids_view(out@) =~= ids_view(out@.drop_last()).push(
                        out@.last() as int,
                    ));
                }
            }
            i = i + 1;
            proof {
                assert(s.take(i as int).drop_last() =~= s.take(i - 1));
                assert(s.take(i as int).last() == s[i - 1]);
                assert(s[i - 1] == store.registrations@[i - 1]@);
            }
        }
        proof {
            assert(s.take(s.len() as int) =~= s);
        }
        out
    }
}

} // verus!

use vstd::prelude::*;
use crate::docs::{DocKind, DocKey, DocKeyV};
use crate::queries::{
    link_rows_view, meeting_ids_for, parliament_ids, protocol_rows, session_ids_for,
    stenogram_rows,
};
use crate::records::{ids_view, Meetings, MeetingsV, Parliament, Sessions, SessionsV};
use crate::store::Store;

verus! {

// The crawl runs its stages in a fixed order: terms, members, sessions,
// sittings, sitting details, vote results, registration results, documents.
// A later stage's task list is built only from what earlier stages
// committed; the lists below are those task lists. Within one stage the
// tasks run concurrently in fixed-size batches: the runner takes the list in
// chunks, runs one chunk to completion, then starts the next.

/// The concatenation of a chunk list.
pub open spec fn cat_chunks<T>(s: Seq<Vec<T>>) -> Seq<T>
    decreases s.len(),
{
    if s.len() == 0 {
        Seq::<T>::empty()
    } else {
        cat_chunks(s.drop_last()) + s.last()@
    }
}

/// Splits a task list into successive batches: every batch but the last
/// holds exactly `size` tasks, the last holds the nonempty remainder, and
/// the batches in order carry exactly the given tasks.
pub fn chunked<T>(items: Vec<T>, size: usize) -> (r: Vec<Vec<T>>)
    requires
        size > 0,
    ensures
        cat_chunks(r@) == items@,
        forall|j: int| 0 <= j < r@.len() ==> 0 < (#[trigger] r@[j])@.len() <= size,
        forall|j: int| 0 <= j < r@.len() - 1 ==> (#[trigger] r@[j])@.len() == size,
{
    let ghost orig = items@;
    let mut items = items;
    let mut out: Vec<Vec<T>> = Vec::new();
    let mut cur: Vec<T> = Vec::new();
    proof {
        assert(cat_chunks(out@) =~= Seq::<T>::empty());
        assert(cat_chunks(out@) + cur@ + items@ =~= orig);
    }
    while items.len() > 0
        invariant
            size > 0,
            cur@.len() < size,
            cat_chunks(out@) + cur@ + items@ == orig,
            forall|j: int| 0 <= j < out@.len() ==> (#[trigger] out@[j])@.len() == size,
        decreases items@.len(),
    {
        let ghost outb = out@;
        let ghost curb = cur@;
        let ghost itemsb = items@;
        let x = items.remove(0);
        cur.push(x);
        proof {
            assert(items@ =~= itemsb.drop_first());
            assert(cur@ =~= curb.push(itemsb[0]));
            assert(cat_chunks(out@) + cur@ + items@ =~= cat_chunks(outb) + curb + itemsb);
        }
        if cur.len() == size {
            out.push(cur);
            cur = Vec::new();
            proof {
                assert(out@.drop_last() =~= outb);
                assert(cat_chunks(out@) == cat_chunks(outb) + out@.last()@);
                assert(cat_chunks(out@) + cur@ + items@ =~= cat_chunks(outb) + curb.push(
                    itemsb[0],
                ) + items@);
            }
        }
    }
    if cur.len() > 0 {
        let ghost outb = out@;
        let ghost curb = cur@;
        out.push(cur);
        proof {
            assert(out@.drop_last() =~= outb);
            assert(cat_chunks(out@) == cat_chunks(outb) + out@.last()@);
            assert(cat_chunks(out@) =~= cat_chunks(outb) + curb + Seq::<T>::empty());
            assert(cat_chunks(out@) =~= orig);
        }
    } else {
        proof {
            assert(cat_chunks(out@) =~= cat_chunks(out@) + cur@ + items@);
            assert(cat_chunks(out@) =~= orig);
        }
    }
    out
}

/// The session identifiers of each parliament in turn.
pub open spec fn flat_session_ids(parls: Seq<int>, sess: Seq<SessionsV>) -> Seq<int>
    decreases parls.len(),
{
    if parls.len() == 0 {
        Seq::<int>::empty()
    } else {
        flat_session_ids(parls.drop_last(), sess) + session_ids_for(sess, parls.last())
    }
}

/// The meeting identifiers of each session in turn.
pub open spec fn flat_meeting_ids(sids: Seq<int>, meets: Seq<MeetingsV>) -> Seq<int>
    decreases sids.len(),
{
    if sids.len() == 0 {
        Seq::<int>::empty()
    } else {
        flat_meeting_ids(sids.drop_last(), meets) + meeting_ids_for(meets, sids.last())
    }
}

/// The sitting-stage task list: one fetch per stored session, grouped by
/// parliament.
pub fn meetings_tasks(store: &Store) -> (r: Vec<i32>)
    ensures
        ids_view(r@) == flat_session_ids(parliament_ids(store@.parliaments), store@.sessions),
{
    let pids = Parliament::get_parliaments_ids(store);
    let ghost pv = parliament_ids(store@.parliaments);
    let mut out: Vec<i32> = Vec::new();
    let mut i: usize = 0;
    proof {
        assert(pv.take(0) =~= Seq::<int>::empty());
        assert(ids_view(out@) =~= flat_session_ids(pv.take(0), store@.sessions));
    }
    while i < pids.len()
        invariant
            i <= pids@.len(),
            ids_view(pids@) == pv,
            pv == parliament_ids(store@.parliaments),
            pv.len() == pids@.len(),
            ids_view(out@) == flat_session_ids(pv.take(i as int), store@.sessions),
        decreases pids@.len() - i,
    {
        let ghost outb = out@;
        let mut inner = Sessions::get_sessions_per_parliament(store, pids[i]);
        proof {
            assert(pids@[i as int] as int == pv[i as int]);
        }
        out.append(&mut inner);
        i = i + 1;
        proof {
            assert(pv.take(i as int).drop_last() =~= pv.take(i - 1));
            assert(pv.take(i as int).last() == pv[i - 1]);
            assert(ids_view(out@) =~= ids_view(outb) + session_ids_for(
                store@.sessions,
                pv[i - 1],
            ));
        }
    }
    proof {
        assert(pv.take(pv.len() as int) =~= pv);
    }
    out
}

/// The detail-stage task list in full mode: one fetch per stored meeting,
/// grouped by session and parliament.
pub fn meeting_detail_tasks(store: &Store) -> (r: Vec<i32>)
    ensures
        ids_view(r@) == flat_meeting_ids(
            flat_session_ids(parliament_ids(store@.parliaments), store@.sessions),
            store@.meetings,
        ),
{
    let sids = meetings_tasks(store);
    let ghost sv = flat_session_ids(parliament_ids(store@.parliaments), store@.sessions);
    let mut out: Vec<i32> = Vec::new();
    let mut i: usize = 0;
    proof {
        assert(sv.take(0) =~= Seq::<int>::empty());
        assert(ids_view(out@) =~= flat_meeting_ids(sv.take(0), store@.meetings));
    }
    while i < sids.len()
        invariant
            i <= sids@.len(),
            ids_view(sids@) == sv,
            sv == flat_session_ids(parliament_ids(store@.parliaments), store@.sessions),
            sv.len() == sids@.len(),
            ids_view(out@) == flat_meeting_ids(sv.take(i as int), store@.meetings),
        decreases sids@.len() - i,
    {
        let ghost outb = out@;
        let mut inner = Meetings::get_meetings_ids(store, sids[i]);
        proof {
            assert(sids@[i as int] as int == sv[i as int]);
        }
        out.append(&mut inner);
        i = i + 1;
        proof {
            assert(sv.take(i as int).drop_last() =~= sv.take(i - 1));
            assert(sv.take(i as int).last() == sv[i - 1]);
            assert(ids_view(out@) =~= ids_view(outb) + meeting_ids_for(
                store@.meetings,
                sv[i - 1],
            ));
        }
    }
    proof {
        assert(sv.take(sv.len() as int) =~= sv);
    }
    out
}

/// The sessions of one parliament that hold no meeting row yet: the document
/// stage fetches their sittings before listing documents. A session already
/// holding a meeting row is treated as complete.
pub open spec fn sessions_without_meetings(sids: Seq<int>, meets: Seq<MeetingsV>) -> Seq<int>
    decreases sids.len(),
{
    if sids.len() == 0 {
        Seq::<int>::empty()
    } else {
        let r = sessions_without_meetings(sids.drop_last(), meets);
        if meeting_ids_for(meets, sids.last()).len() == 0 {
            r.push(sids.last())
        } else {
            r
        }
    }
}

/// The sessions of one parliament whose sittings still need fetching.
pub fn sessions_needing_meetings(store: &Store, parliament_id: i32) -> (r: Vec<i32>)
    ensures
        ids_view(r@) == sessions_without_meetings(
            session_ids_for(store@.sessions, parliament_id as int),
            store@.meetings,
        ),
{
    let sids = Sessions::get_sessions_per_parliament(store, parliament_id);
    let ghost sv = session_ids_for(store@.sessions, parliament_id as int);
    let mut out: Vec<i32> = Vec::new();
    let mut i: usize = 0;
    proof {
        assert(sv.take(0) =~= Seq::<int>::empty());
        assert(ids_view(out@) =~= sessions_without_meetings(sv.take(0), store@.meetings));
    }
    while i < sids.len()
        invariant
            i <= sids@.len(),
            ids_view(sids@) == sv,
            sv == session_ids_for(store@.sessions, parliament_id as int),
            sv.len() == sids@.len(),
            ids_view(out@) == sessions_without_meetings(sv.take(i as int), store@.meetings),
        decreases sids@.len() - i,
    {
        let n = Meetings::get_session_count(store, sids[i]);
        proof {
            assert(sids@[i as int] as int == sv[i as int]);
        }
        if n < 1 {
            out.push(sids[i]);
            proof {
                assert(ids_view(out@) =~= ids_view(out@.drop_last()).push(out@.last() as int));
            }
        }
        i = i + 1;
        proof {
            assert(sv.take(i as int).drop_last() =~= sv.take(i - 1));
            assert(sv.take(i as int).last() == sv[i - 1]);
        }
    }
    proof {
        assert(sv.take(sv.len() as int) =~= sv);
    }
    out
}

/// One document-fetch task: the record kind, the owning session and sitting
/// number, and the stored link.
#[derive(Debug)]
pub struct DocTask {
    pub kind: DocKind,
    pub session: i32,
    pub num: i32,
    pub link: String,
}

pub struct DocTaskV {
    pub kind: DocKind,
    pub session: int,
    pub num: i32,
    pub link: Seq<char>,
}

impl View for DocTask {
    type V = DocTaskV;

    open spec fn view(&self) -> DocTaskV {
        DocTaskV {
            kind: self.kind,
            session: self.session as int,
            num: self.num,
            link: self.link@,
        }
    }
}

impl DocTask {
    /// The cache identity of the document behind the stored link, where the
    /// link carries a document identifier.
    pub fn key(&self) -> (r: Option<DocKey>)
        ensures
            match r {
                Some(k) => crate::docs::doc_id_of(self@.link) is Some && k@ == (DocKeyV {
                    kind: self@.kind,
                    session: self@.session,
                    num: self@.num,
                    doc_id: crate::docs::doc_id_of(self@.link).unwrap(),
                }),
                None => crate::docs::doc_id_of(self@.link) is None,
            },
    {
        match crate::docs::document_id_of_link(self.link.as_str()) {
            Some(doc_id) => Some(
                DocKey { kind: self.kind, session: self.session, num: self.num, doc_id },
            ),
            None => None,
        }
    }
}

/// The views of a task list.
pub open spec fn dtasks_view(s: Seq<DocTask>) -> Seq<DocTaskV> {
    s.map_values(|t: DocTask| t@)
}

/// One task per row holding a link, in row order.
pub open spec fn row_tasks(kind: DocKind, rows: Seq<(int, i32, Option<Seq<char>>)>) -> Seq<
    DocTaskV,
>
    decreases rows.len(),
{
    if rows.len() == 0 {
        Seq::<DocTaskV>::empty()
    } else {
        let r = row_tasks(kind, rows.drop_last());
        match rows.last().2 {
            Some(l) => r.push(
                DocTaskV { kind: kind, session: rows.last().0, num: rows.last().1, link: l },
            ),
            None => r,
        }
    }
}

/// The protocol tasks of each session in turn.
pub open spec fn protocol_tasks(sids: Seq<int>, meets: Seq<MeetingsV>) -> Seq<DocTaskV>
    decreases sids.len(),
{
    if sids.len() == 0 {
        Seq::<DocTaskV>::empty()
    } else {
        protocol_tasks(sids.drop_last(), meets) + row_tasks(
            DocKind::Protocol,
            protocol_rows(meets, sids.last()),
        )
    }
}

/// The stenogram tasks of each session in turn.
pub open spec fn stenogram_tasks(sids: Seq<int>, meets: Seq<MeetingsV>) -> Seq<DocTaskV>
    decreases sids.len(),
{
    if sids.len() == 0 {
        Seq::<DocTaskV>::empty()
    } else {
        stenogram_tasks(sids.drop_last(), meets) + row_tasks(
            DocKind::Stenogram,
            stenogram_rows(meets, sids.last()),
        )
    }
}

/// The document-fetch tasks of one row list.
fn tasks_of_rows(kind: DocKind, rows: &Vec<(i32, i32, Option<String>)>, out: &mut Vec<DocTask>)
    ensures
        dtasks_view(final(out)@) == dtasks_view(old(out)@) + row_tasks(
            kind,
            link_rows_view(rows@),
        ),
{
    let ghost rv = link_rows_view(rows@);
    let ghost outb = old(out)@;
    let mut j: usize = 0;
    proof {
        assert(rv.take(0) =~= Seq::<(int, i32, Option<Seq<char>>)>::empty());
        assert(dtasks_view(out@) =~= dtasks_view(outb) + row_tasks(kind, rv.take(0)));
    }
    while j < rows.len()
        invariant
            j <= rows@.len(),
            rv == link_rows_view(rows@),
            rv.len() == rows@.len(),
            dtasks_view(out@) == dtasks_view(outb) + row_tasks(kind, rv.take(j as int)),
        decreases rows@.len() - j,
    {
        proof {
            assert(rv[j as int] == (
                rows@[j as int].0 as int,
                rows@[j as int].1,
                crate::records::opt_str(rows@[j as int].2),
            ));
        }
        if rows[j].2.is_some() {
            let ghost ob = out@;
            let link = crate::records::copy_opt_string(&rows[j].2);
            out.push(
                DocTask { kind, session: rows[j].0, num: rows[j].1, link: link.unwrap() },
            );
            proof {
                assert(dtasks_view(out@) =~= dtasks_view(ob).push(out@.last()@));
                assert(out@.last()@ == (DocTaskV {
                    kind: kind,
                    session: rv[j as int].0,
                    num: rv[j as int].1,
                    link: rv[j as int].2.unwrap(),
                }));
            }
        }
        j = j + 1;
        proof {
            assert(rv.take(j as int).drop_last() =~= rv.take(j - 1));
            assert(rv.take(j as int).last() == rv[j - 1]);
        }
    }
    proof {
        assert(rv.take(rv.len() as int) =~= rv);
    }
}

/// The document stage's task list for one parliament: one task per stored
/// protocol link of its sessions' sittings, then one per stored stenogram
/// link.
pub fn document_tasks(store: &Store, parliament_id: i32) -> (r: Vec<DocTask>)
    ensures
        dtasks_view(r@) == protocol_tasks(
            session_ids_for(store@.sessions, parliament_id as int),
            store@.meetings,
        ) + stenogram_tasks(
            session_ids_for(store@.sessions, parliament_id as int),
            store@.meetings,
        ),
{
    let sids = Sessions::get_sessions_per_parliament(store, parliament_id);
    let ghost sv = session_ids_for(store@.sessions, parliament_id as int);
    let mut out: Vec<DocTask> = Vec::new();
    let mut i: usize = 0;
    proof {
        assert(sv.take(0) =~= Seq::<int>::empty());
        assert(dtasks_view(out@) =~= Seq::<DocTaskV>::empty() + protocol_tasks(
            sv.take(0),
            store@.meetings,
        ));
        assert(dtasks_view(out@) =~= protocol_tasks(sv.take(0), store@.meetings));
    }
    while i < sids.len()
        invariant
            i <= sids@.len(),
            ids_view(sids@) == sv,
            sv == session_ids_for(store@.sessions, parliament_id as int),
            sv.len() == sids@.len(),
            dtasks_view(out@) == protocol_tasks(sv.take(i as int), store@.meetings),
        decreases sids@.len() - i,
    {
        let ghost outb = out@;
        let rows = Meetings::get_protocols_per_session(store, sids[i]);
        proof {
            assert(sids@[i as int] as int == sv[i as int]);
        }
        tasks_of_rows(DocKind::Protocol, &rows, &mut out);
        i = i + 1;
        proof {
            assert(sv.take(i as int).drop_last() =~= sv.take(i - 1));
            assert(sv.take(i as int).last() == sv[i - 1]);
        }
    }
    proof {
        assert(sv.take(sv.len() as int) =~= sv);
    }
    let ghost protos = dtasks_view(out@);
    let mut i: usize = 0;
    proof {
        assert(sv.take(0) =~= Seq::<int>::empty());
        assert(dtasks_view(out@) =~= protos + stenogram_tasks(sv.take(0), store@.meetings));
    }
    while i < sids.len()
        invariant
            i <= sids@.len(),
            ids_view(sids@) == sv,
            sv == session_ids_for(store@.sessions, parliament_id as int),
            sv.len() == sids@.len(),
            protos == protocol_tasks(sv, store@.meetings),
            dtasks_view(out@) == protos + stenogram_tasks(sv.take(i as int), store@.meetings),
        decreases sids@.len() - i,
    {
        let ghost outb = out@;
        let rows = Meetings::get_stenograms_per_session(store, sids[i]);
        proof {
            assert(sids@[i as int] as int == sv[i as int]);
        }
        tasks_of_rows(DocKind::Stenogram, &rows, &mut out);
        i = i + 1;
        proof {
            assert(sv.take(i as int).drop_last() =~= sv.take(i - 1));
            assert(sv.take(i as int).last() == sv[i - 1]);
            assert(protos + stenogram_tasks(sv.take(i - 1), store@.meetings) + row_tasks(
                DocKind::Stenogram,
                stenogram_rows(store@.meetings, sv[i - 1]),
            ) =~= protos + (stenogram_tasks(sv.take(i - 1), store@.meetings) + row_tasks(
                DocKind::Stenogram,
                stenogram_rows(store@.meetings, sv[i - 1]),
            )));
        }
    }
    proof {
        assert(sv.take(sv.len() as int) =~= sv);
    }
    out
}

} // verus!

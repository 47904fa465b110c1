use vstd::prelude::*;
use crate::records::{
    AgendaItem, AgendaItemV, MeetingData, MeetingDataV, Meetings, MeetingsV, Parliament,
    ParliamentV, Registration, RegistrationData, RegistrationDataV, RegistrationV, Sessions,
    SessionsV, Speech, SpeechV, Vote, VoteData, VoteDataV, VoteV,
};
use crate::store::{rkf, Row, StoreView};
use crate::upsert::{
    ign, ign1, lemma_ign_idempotent, lemma_ign_run, lemma_up_idempotent, lemma_up_run, up, up1,
};

verus! {

// A feed's effect on the store is a list of row writes, applied first to
// last. Every write carries the conflict policy of its table: parliament rows
// are insert-or-ignore, all others insert-or-update.

/// One row write.
pub enum WriteOp {
    WParliament(ParliamentV),
    WSession(SessionsV),
    WMeeting(MeetingsV),
    WMeetingData(MeetingDataV),
    WAgendaItem(AgendaItemV),
    WVote(VoteV),
    WSpeech(SpeechV),
    WRegistration(RegistrationV),
    WVoteData(VoteDataV),
    WRegistrationData(RegistrationDataV),
}

/// One write applied to the store.
pub open spec fn apply_write(sv: StoreView, w: WriteOp) -> StoreView {
    match w {
        WriteOp::WParliament(p) => sv.with_parliaments(
            ign1(sv.parliaments, rkf::<Parliament>(), p),
        ),
        WriteOp::WSession(x) => sv.with_sessions(up1(sv.sessions, rkf::<Sessions>(), x)),
        WriteOp::WMeeting(x) => sv.with_meetings(up1(sv.meetings, rkf::<Meetings>(), x)),
        WriteOp::WMeetingData(x) => sv.with_meeting_data(
            up1(sv.meeting_data, rkf::<MeetingData>(), x),
        ),
        WriteOp::WAgendaItem(x) => sv.with_agenda_items(
            up1(sv.agenda_items, rkf::<AgendaItem>(), x),
        ),
        WriteOp::WVote(x) => sv.with_votes(up1(sv.votes, rkf::<Vote>(), x)),
        WriteOp::WSpeech(x) => sv.with_speeches(up1(sv.speeches, rkf::<Speech>(), x)),
        WriteOp::WRegistration(x) => sv.with_registrations(
            up1(sv.registrations, rkf::<Registration>(), x),
        ),
        WriteOp::WVoteData(x) => sv.with_vote_data(up1(sv.vote_data, rkf::<VoteData>(), x)),
        WriteOp::WRegistrationData(x) => sv.with_registration_data(
            up1(sv.registration_data, rkf::<RegistrationData>(), x),
        ),
    }
}

/// A write list applied to the store, first to last.
pub open spec fn apply_writes(sv: StoreView, ws: Seq<WriteOp>) -> StoreView
    decreases ws.len(),
{
    if ws.len() == 0 {
        sv
    } else {
        apply_writes(apply_write(sv, ws[0]), ws.drop_first())
    }
}

/// Applying a concatenation is applying the parts in turn.
pub proof fn lemma_apply_writes_app(sv: StoreView, ws1: Seq<WriteOp>, ws2: Seq<WriteOp>)
    ensures
        apply_writes(sv, ws1 + ws2) == apply_writes(apply_writes(sv, ws1), ws2),
    decreases ws1.len(),
{
    if ws1.len() == 0 {
        assert(ws1 + ws2 =~= ws2);
    } else {
        assert((ws1 + ws2)[0] == ws1[0]);
        assert((ws1 + ws2).drop_first() =~= ws1.drop_first() + ws2);
        lemma_apply_writes_app(apply_write(sv, ws1[0]), ws1.drop_first(), ws2);
    }
}

/// One write keeps the store well formed.
pub proof fn lemma_apply_write_wf(sv: StoreView, w: WriteOp)
    requires
        sv.wf(),
    ensures
        apply_write(sv, w).wf(),
{
    match w {
        WriteOp::WParliament(p) => {
            crate::upsert::lemma_ign1(sv.parliaments, rkf::<Parliament>(), p);
        }
        WriteOp::WSession(x) => {
            crate::upsert::lemma_up1(sv.sessions, rkf::<Sessions>(), x);
        }
        WriteOp::WMeeting(x) => {
            crate::upsert::lemma_up1(sv.meetings, rkf::<Meetings>(), x);
        }
        WriteOp::WMeetingData(x) => {
            crate::upsert::lemma_up1(sv.meeting_data, rkf::<MeetingData>(), x);
        }
        WriteOp::WAgendaItem(x) => {
            crate::upsert::lemma_up1(sv.agenda_items, rkf::<AgendaItem>(), x);
        }
        WriteOp::WVote(x) => {
            crate::upsert::lemma_up1(sv.votes, rkf::<Vote>(), x);
        }
        WriteOp::WSpeech(x) => {
            crate::upsert::lemma_up1(sv.speeches, rkf::<Speech>(), x);
        }
        WriteOp::WRegistration(x) => {
            crate::upsert::lemma_up1(sv.registrations, rkf::<Registration>(), x);
        }
        WriteOp::WVoteData(x) => {
            crate::upsert::lemma_up1(sv.vote_data, rkf::<VoteData>(), x);
        }
        WriteOp::WRegistrationData(x) => {
            crate::upsert::lemma_up1(sv.registration_data, rkf::<RegistrationData>(), x);
        }
    }
}

/// A write list keeps the store well formed.
pub proof fn lemma_apply_writes_wf(sv: StoreView, ws: Seq<WriteOp>)
    requires
        sv.wf(),
    ensures
        apply_writes(sv, ws).wf(),
    decreases ws.len(),
{
    if ws.len() > 0 {
        lemma_apply_write_wf(sv, ws[0]);
        lemma_apply_writes_wf(apply_write(sv, ws[0]), ws.drop_first());
    }
}

/// The parliament rows a write list writes, in order.
pub open spec fn proj_parliaments(ws: Seq<WriteOp>) -> Seq<ParliamentV>
    decreases ws.len(),
{
    if ws.len() == 0 {
        Seq::<ParliamentV>::empty()
    } else {
        (match ws[0] {
            WriteOp::WParliament(p) => seq![p],
            _ => Seq::<ParliamentV>::empty(),
        }) + proj_parliaments(ws.drop_first())
    }
}

/// The session rows a write list writes, in order.
pub open spec fn proj_sessions(ws: Seq<WriteOp>) -> Seq<SessionsV>
    decreases ws.len(),
{
    if ws.len() == 0 {
        Seq::<SessionsV>::empty()
    } else {
        (match ws[0] {
            WriteOp::WSession(p) => seq![p],
            _ => Seq::<SessionsV>::empty(),
        }) + proj_sessions(ws.drop_first())
    }
}

/// The sitting rows a write list writes, in order.
pub open spec fn proj_meetings(ws: Seq<WriteOp>) -> Seq<MeetingsV>
    decreases ws.len(),
{
    if ws.len() == 0 {
        Seq::<MeetingsV>::empty()
    } else {
        (match ws[0] {
            WriteOp::WMeeting(p) => seq![p],
            _ => Seq::<MeetingsV>::empty(),
        }) + proj_meetings(ws.drop_first())
    }
}

/// The meeting-detail rows a write list writes, in order.
pub open spec fn proj_meeting_data(ws: Seq<WriteOp>) -> Seq<MeetingDataV>
    decreases ws.len(),
{
    if ws.len() == 0 {
        Seq::<MeetingDataV>::empty()
    } else {
        (match ws[0] {
            WriteOp::WMeetingData(p) => seq![p],
            _ => Seq::<MeetingDataV>::empty(),
        }) + proj_meeting_data(ws.drop_first())
    }
}

/// The agenda-item rows a write list writes, in order.
pub open spec fn proj_agenda_items(ws: Seq<WriteOp>) -> Seq<AgendaItemV>
    decreases ws.len(),
{
    if ws.len() == 0 {
        Seq::<AgendaItemV>::empty()
    } else {
        (match ws[0] {
            WriteOp::WAgendaItem(p) => seq![p],
            _ => Seq::<AgendaItemV>::empty(),
        }) + proj_agenda_items(ws.drop_first())
    }
}

/// The voting-event rows a write list writes, in order.
pub open spec fn proj_votes(ws: Seq<WriteOp>) -> Seq<VoteV>
    decreases ws.len(),
{
    if ws.len() == 0 {
        Seq::<VoteV>::empty()
    } else {
        (match ws[0] {
            WriteOp::WVote(p) => seq![p],
            _ => Seq::<VoteV>::empty(),
        }) + proj_votes(ws.drop_first())
    }
}

/// The speech rows a write list writes, in order.
pub open spec fn proj_speeches(ws: Seq<WriteOp>) -> Seq<SpeechV>
    decreases ws.len(),
{
    if ws.len() == 0 {
        Seq::<SpeechV>::empty()
    } else {
        (match ws[0] {
            WriteOp::WSpeech(p) => seq![p],
            _ => Seq::<SpeechV>::empty(),
        }) + proj_speeches(ws.drop_first())
    }
}

/// The roll-call-event rows a write list writes, in order.
pub open spec fn proj_registrations(ws: Seq<WriteOp>) -> Seq<RegistrationV>
    decreases ws.len(),
{
    if ws.len() == 0 {
        Seq::<RegistrationV>::empty()
    } else {
        (match ws[0] {
            WriteOp::WRegistration(p) => seq![p],
            _ => Seq::<RegistrationV>::empty(),
        }) + proj_registrations(ws.drop_first())
    }
}

/// The per-person vote rows a write list writes, in order.
pub open spec fn proj_vote_data(ws: Seq<WriteOp>) -> Seq<VoteDataV>
    decreases ws.len(),
{
    if ws.len() == 0 {
        Seq::<VoteDataV>::empty()
    } else {
        (match ws[0] {
            WriteOp::WVoteData(p) => seq![p],
            _ => Seq::<VoteDataV>::empty(),
        }) + proj_vote_data(ws.drop_first())
    }
}

/// The per-person registration rows a write list writes, in order.
pub open spec fn proj_registration_data(ws: Seq<WriteOp>) -> Seq<RegistrationDataV>
    decreases ws.len(),
{
    if ws.len() == 0 {
        Seq::<RegistrationDataV>::empty()
    } else {
        (match ws[0] {
            WriteOp::WRegistrationData(p) => seq![p],
            _ => Seq::<RegistrationDataV>::empty(),
        }) + proj_registration_data(ws.drop_first())
    }
}

/// A write list acts on each table as the run of that table's own writes;
/// no write list touches politicians, offices or the office counter.
pub proof fn lemma_apply_writes_tables(sv: StoreView, ws: Seq<WriteOp>)
    ensures
        apply_writes(sv, ws).parliaments == ign(
            sv.parliaments,
            rkf::<Parliament>(),
            proj_parliaments(ws),
        ),
        apply_writes(sv, ws).sessions == up(sv.sessions, rkf::<Sessions>(), proj_sessions(ws)),
        apply_writes(sv, ws).meetings == up(sv.meetings, rkf::<Meetings>(), proj_meetings(ws)),
        apply_writes(sv, ws).meeting_data == up(
            sv.meeting_data,
            rkf::<MeetingData>(),
            proj_meeting_data(ws),
        ),
        apply_writes(sv, ws).agenda_items == up(
            sv.agenda_items,
            rkf::<AgendaItem>(),
            proj_agenda_items(ws),
        ),
        apply_writes(sv, ws).votes == up(sv.votes, rkf::<Vote>(), proj_votes(ws)),
        apply_writes(sv, ws).speeches == up(sv.speeches, rkf::<Speech>(), proj_speeches(ws)),
        apply_writes(sv, ws).registrations == up(
            sv.registrations,
            rkf::<Registration>(),
            proj_registrations(ws),
        ),
        apply_writes(sv, ws).vote_data == up(sv.vote_data, rkf::<VoteData>(), proj_vote_data(ws)),
        apply_writes(sv, ws).registration_data == up(
            sv.registration_data,
            rkf::<RegistrationData>(),
            proj_registration_data(ws),
        ),
        apply_writes(sv, ws).politicians == sv.politicians,
        apply_writes(sv, ws).offices == sv.offices,
        apply_writes(sv, ws).next_office_id == sv.next_office_id,
    decreases ws.len(),
{
    if ws.len() > 0 {
        let sv1 = apply_write(sv, ws[0]);
        lemma_apply_writes_tables(sv1, ws.drop_first());
        match ws[0] {
            WriteOp::WParliament(p) => {
                assert(proj_parliaments(ws) =~= seq![p] + proj_parliaments(ws.drop_first()));
                assert((seq![p] + proj_parliaments(ws.drop_first())).drop_first()
                    =~= proj_parliaments(ws.drop_first()));
                assert(proj_sessions(ws) =~= proj_sessions(ws.drop_first()));
                assert(proj_meetings(ws) =~= proj_meetings(ws.drop_first()));
                assert(proj_meeting_data(ws) =~= proj_meeting_data(ws.drop_first()));
                assert(proj_agenda_items(ws) =~= proj_agenda_items(ws.drop_first()));
                assert(proj_votes(ws) =~= proj_votes(ws.drop_first()));
                assert(proj_speeches(ws) =~= proj_speeches(ws.drop_first()));
                assert(proj_registrations(ws) =~= proj_registrations(ws.drop_first()));
                assert(proj_vote_data(ws) =~= proj_vote_data(ws.drop_first()));
                assert(proj_registration_data(ws) =~= proj_registration_data(ws.drop_first()));
            }
            WriteOp::WSession(p) => {
                assert(proj_sessions(ws) =~= seq![p] + proj_sessions(ws.drop_first()));
                assert((seq![p] + proj_sessions(ws.drop_first())).drop_first() =~= proj_sessions(
                    ws.drop_first(),
                ));
                assert(proj_parliaments(ws) =~= proj_parliaments(ws.drop_first()));
                assert(proj_meetings(ws) =~= proj_meetings(ws.drop_first()));
                assert(proj_meeting_data(ws) =~= proj_meeting_data(ws.drop_first()));
                assert(proj_agenda_items(ws) =~= proj_agenda_items(ws.drop_first()));
                assert(proj_votes(ws) =~= proj_votes(ws.drop_first()));
                assert(proj_speeches(ws) =~= proj_speeches(ws.drop_first()));
                assert(proj_registrations(ws) =~= proj_registrations(ws.drop_first()));
                assert(proj_vote_data(ws) =~= proj_vote_data(ws.drop_first()));
                assert(proj_registration_data(ws) =~= proj_registration_data(ws.drop_first()));
            }
            WriteOp::WMeeting(p) => {
                assert(proj_meetings(ws) =~= seq![p] + proj_meetings(ws.drop_first()));
                assert((seq![p] + proj_meetings(ws.drop_first())).drop_first() =~= proj_meetings(
                    ws.drop_first(),
                ));
                assert(proj_parliaments(ws) =~= proj_parliaments(ws.drop_first()));
                assert(proj_sessions(ws) =~= proj_sessions(ws.drop_first()));
                assert(proj_meeting_data(ws) =~= proj_meeting_data(ws.drop_first()));
                assert(proj_agenda_items(ws) =~= proj_agenda_items(ws.drop_first()));
                assert(proj_votes(ws) =~= proj_votes(ws.drop_first()));
                assert(proj_speeches(ws) =~= proj_speeches(ws.drop_first()));
                assert(proj_registrations(ws) =~= proj_registrations(ws.drop_first()));
                assert(proj_vote_data(ws) =~= proj_vote_data(ws.drop_first()));
                assert(proj_registration_data(ws) =~= proj_registration_data(ws.drop_first()));
            }
            WriteOp::WMeetingData(p) => {
                assert(proj_meeting_data(ws) =~= seq![p] + proj_meeting_data(ws.drop_first()));
                assert((seq![p] + proj_meeting_data(ws.drop_first())).drop_first()
                    =~= proj_meeting_data(ws.drop_first()));
                assert(proj_parliaments(ws) =~= proj_parliaments(ws.drop_first()));
                assert(proj_sessions(ws) =~= proj_sessions(ws.drop_first()));
                assert(proj_meetings(ws) =~= proj_meetings(ws.drop_first()));
                assert(proj_agenda_items(ws) =~= proj_agenda_items(ws.drop_first()));
                assert(proj_votes(ws) =~= proj_votes(ws.drop_first()));
                assert(proj_speeches(ws) =~= proj_speeches(ws.drop_first()));
                assert(proj_registrations(ws) =~= proj_registrations(ws.drop_first()));
                assert(proj_vote_data(ws) =~= proj_vote_data(ws.drop_first()));
                assert(proj_registration_data(ws) =~= proj_registration_data(ws.drop_first()));
            }
            WriteOp::WAgendaItem(p) => {
                assert(proj_agenda_items(ws) =~= seq![p] + proj_agenda_items(ws.drop_first()));
                assert((seq![p] + proj_agenda_items(ws.drop_first())).drop_first()
                    =~= proj_agenda_items(ws.drop_first()));
                assert(proj_parliaments(ws) =~= proj_parliaments(ws.drop_first()));
                assert(proj_sessions(ws) =~= proj_sessions(ws.drop_first()));
                assert(proj_meetings(ws) =~= proj_meetings(ws.drop_first()));
                assert(proj_meeting_data(ws) =~= proj_meeting_data(ws.drop_first()));
                assert(proj_votes(ws) =~= proj_votes(ws.drop_first()));
                assert(proj_speeches(ws) =~= proj_speeches(ws.drop_first()));
                assert(proj_registrations(ws) =~= proj_registrations(ws.drop_first()));
                assert(proj_vote_data(ws) =~= proj_vote_data(ws.drop_first()));
                assert(proj_registration_data(ws) =~= proj_registration_data(ws.drop_first()));
            }
            WriteOp::WVote(p) => {
                assert(proj_votes(ws) =~= seq![p] + proj_votes(ws.drop_first()));
                assert((seq![p] + proj_votes(ws.drop_first())).drop_first() =~= proj_votes(
                    ws.drop_first(),
                ));
                assert(proj_parliaments(ws) =~= proj_parliaments(ws.drop_first()));
                assert(proj_sessions(ws) =~= proj_sessions(ws.drop_first()));
                assert(proj_meetings(ws) =~= proj_meetings(ws.drop_first()));
                assert(proj_meeting_data(ws) =~= proj_meeting_data(ws.drop_first()));
                assert(proj_agenda_items(ws) =~= proj_agenda_items(ws.drop_first()));
                assert(proj_speeches(ws) =~= proj_speeches(ws.drop_first()));
                assert(proj_registrations(ws) =~= proj_registrations(ws.drop_first()));
                assert(proj_vote_data(ws) =~= proj_vote_data(ws.drop_first()));
                assert(proj_registration_data(ws) =~= proj_registration_data(ws.drop_first()));
            }
            WriteOp::WSpeech(p) => {
                assert(proj_speeches(ws) =~= seq![p] + proj_speeches(ws.drop_first()));
                assert((seq![p] + proj_speeches(ws.drop_first())).drop_first() =~= proj_speeches(
                    ws.drop_first(),
                ));
                assert(proj_parliaments(ws) =~= proj_parliaments(ws.drop_first()));
                assert(proj_sessions(ws) =~= proj_sessions(ws.drop_first()));
                assert(proj_meetings(ws) =~= proj_meetings(ws.drop_first()));
                assert(proj_meeting_data(ws) =~= proj_meeting_data(ws.drop_first()));
                assert(proj_agenda_items(ws) =~= proj_agenda_items(ws.drop_first()));
                assert(proj_votes(ws) =~= proj_votes(ws.drop_first()));
                assert(proj_registrations(ws) =~= proj_registrations(ws.drop_first()));
                assert(proj_vote_data(ws) =~= proj_vote_data(ws.drop_first()));
                assert(proj_registration_data(ws) =~= proj_registration_data(ws.drop_first()));
            }
            WriteOp::WRegistration(p) => {
                assert(proj_registrations(ws) =~= seq![p] + proj_registrations(ws.drop_first()));
                assert((seq![p] + proj_registrations(ws.drop_first())).drop_first()
                    =~= proj_registrations(ws.drop_first()));
                assert(proj_parliaments(ws) =~= proj_parliaments(ws.drop_first()));
                assert(proj_sessions(ws) =~= proj_sessions(ws.drop_first()));
                assert(proj_meetings(ws) =~= proj_meetings(ws.drop_first()));
                assert(proj_meeting_data(ws) =~= proj_meeting_data(ws.drop_first()));
                assert(proj_agenda_items(ws) =~= proj_agenda_items(ws.drop_first()));
                assert(proj_votes(ws) =~= proj_votes(ws.drop_first()));
                assert(proj_speeches(ws) =~= proj_speeches(ws.drop_first()));
                assert(proj_vote_data(ws) =~= proj_vote_data(ws.drop_first()));
                assert(proj_registration_data(ws) =~= proj_registration_data(ws.drop_first()));
            }
            WriteOp::WVoteData(p) => {
                assert(proj_vote_data(ws) =~= seq![p] + proj_vote_data(ws.drop_first()));
                assert((seq![p] + proj_vote_data(ws.drop_first())).drop_first() =~= proj_vote_data(
                    ws.drop_first(),
                ));
                assert(proj_parliaments(ws) =~= proj_parliaments(ws.drop_first()));
                assert(proj_sessions(ws) =~= proj_sessions(ws.drop_first()));
                assert(proj_meetings(ws) =~= proj_meetings(ws.drop_first()));
                assert(proj_meeting_data(ws) =~= proj_meeting_data(ws.drop_first()));
                assert(proj_agenda_items(ws) =~= proj_agenda_items(ws.drop_first()));
                assert(proj_votes(ws) =~= proj_votes(ws.drop_first()));
                assert(proj_speeches(ws) =~= proj_speeches(ws.drop_first()));
                assert(proj_registrations(ws) =~= proj_registrations(ws.drop_first()));
                assert(proj_registration_data(ws) =~= proj_registration_data(ws.drop_first()));
            }
            WriteOp::WRegistrationData(p) => {
                assert(proj_registration_data(ws) =~= seq![p] + proj_registration_data(
                    ws.drop_first(),
                ));
                assert((seq![p] + proj_registration_data(ws.drop_first())).drop_first()
                    =~= proj_registration_data(ws.drop_first()));
                assert(proj_parliaments(ws) =~= proj_parliaments(ws.drop_first()));
                assert(proj_sessions(ws) =~= proj_sessions(ws.drop_first()));
                assert(proj_meetings(ws) =~= proj_meetings(ws.drop_first()));
                assert(proj_meeting_data(ws) =~= proj_meeting_data(ws.drop_first()));
                assert(proj_agenda_items(ws) =~= proj_agenda_items(ws.drop_first()));
                assert(proj_votes(ws) =~= proj_votes(ws.drop_first()));
                assert(proj_speeches(ws) =~= proj_speeches(ws.drop_first()));
                assert(proj_registrations(ws) =~= proj_registrations(ws.drop_first()));
                assert(proj_vote_data(ws) =~= proj_vote_data(ws.drop_first()));
            }
        }
    }
}

/// Applying the same write list twice leaves what one application left: the
/// store's contents after a re-run are those of the first run.
pub proof fn lemma_apply_writes_idempotent(sv: StoreView, ws: Seq<WriteOp>)
    requires
        sv.wf(),
    ensures
        apply_writes(apply_writes(sv, ws), ws) == apply_writes(sv, ws),
{
    let t = apply_writes(sv, ws);
    lemma_apply_writes_tables(sv, ws);
    lemma_apply_writes_tables(t, ws);
    lemma_ign_idempotent(sv.parliaments, rkf::<Parliament>(), proj_parliaments(ws));
    lemma_up_idempotent(sv.sessions, rkf::<Sessions>(), proj_sessions(ws));
    lemma_up_idempotent(sv.meetings, rkf::<Meetings>(), proj_meetings(ws));
    lemma_up_idempotent(sv.meeting_data, rkf::<MeetingData>(), proj_meeting_data(ws));
    lemma_up_idempotent(sv.agenda_items, rkf::<AgendaItem>(), proj_agenda_items(ws));
    lemma_up_idempotent(sv.votes, rkf::<Vote>(), proj_votes(ws));
    lemma_up_idempotent(sv.speeches, rkf::<Speech>(), proj_speeches(ws));
    lemma_up_idempotent(sv.registrations, rkf::<Registration>(), proj_registrations(ws));
    lemma_up_idempotent(sv.vote_data, rkf::<VoteData>(), proj_vote_data(ws));
    lemma_up_idempotent(
        sv.registration_data,
        rkf::<RegistrationData>(),
        proj_registration_data(ws),
    );
    assert(apply_writes(t, ws) =~= t);
}

} // verus!

use vstd::prelude::*;
use crate::dates::{datetime_parse, parse_datetime};
use crate::events::{
    attr_get, attr_has, events_of, fault_free_prefix, lookup_attr, read_events, str_eq, views_of,
    EventV, RawEvent,
};
use crate::numparse::{parse_i32, parse_i32_spec};
use crate::records::{
    ids_view, opt_str, AgendaItem, AgendaItemV, MeetingData, MeetingDataV, Registration,
    RegistrationV, Speech, SpeechV, Vote, VoteV,
};
use crate::store::Store;
use crate::writes::{apply_writes, lemma_apply_writes_app, WriteOp};

verus! {

// The meeting-detail feed mixes record tags (the meeting, its agenda items,
// votes, speeches and roll calls) with character data routed by the current
// parent context and the current element name. Child identifiers are
// appended to the enclosing record's pending array as soon as the child
// opens; the arrays are folded into the parent when it closes.

/// The parent context of character data.
#[derive(Clone, Copy, PartialEq, Eq, Structural, Debug)]
pub enum MdCtx {
    MeetingItem,
    AgendaItemCtx,
    VoteItem,
    SpeechItem,
    RegistrationItem,
}

/// The in-progress decode state of one meeting-detail feed.
pub struct MdState {
    pub cur: Option<Seq<char>>,
    pub ctx: Option<MdCtx>,
    pub meeting: Option<MeetingDataV>,
    pub agenda_item: Option<AgendaItemV>,
    pub vote_item: Option<VoteV>,
    pub speech_item: Option<SpeechV>,
    pub registration_item: Option<RegistrationV>,
    pub agenda: Seq<int>,
    pub registrations: Seq<int>,
    pub speeches: Seq<int>,
    pub voting: Seq<int>,
}

/// The initial decode state.
pub open spec fn md_init() -> MdState {
    MdState {
        cur: None::<Seq<char>>,
        ctx: None::<MdCtx>,
        meeting: None::<MeetingDataV>,
        agenda_item: None::<AgendaItemV>,
        vote_item: None::<VoteV>,
        speech_item: None::<SpeechV>,
        registration_item: None::<RegistrationV>,
        agenda: Seq::<int>::empty(),
        registrations: Seq::<int>::empty(),
        speeches: Seq::<int>::empty(),
        voting: Seq::<int>::empty(),
    }
}

/// An attribute read as a required identifier.
pub open spec fn req_id(attrs: Seq<(Seq<char>, Seq<char>)>, key: Seq<char>) -> Option<i32> {
    if attr_has(attrs, key) {
        parse_i32_spec(attr_get(attrs, key).unwrap())
    } else {
        None::<i32>
    }
}

/// An attribute read as an optional identifier.
pub open spec fn opt_attr_id(attrs: Seq<(Seq<char>, Seq<char>)>, key: Seq<char>) -> Option<i32> {
    if attr_has(attrs, key) {
        parse_i32_spec(attr_get(attrs, key).unwrap())
    } else {
        None::<i32>
    }
}

/// The state an opening tag leaves behind: a record tag starts a fresh
/// in-progress record and appends its identifier to the enclosing pending
/// array; a record whose required identifier cannot be read is dropped. Every
/// opening tag becomes the current element.
pub open spec fn md_open_step(st: MdState, name: Seq<char>, attrs: Seq<(Seq<char>, Seq<char>)>) -> MdState {
    let st1 = if name == "posedis"@ {
        match req_id(attrs, "pos_id"@) {
            Some(id) => MdState {
                ctx: Some(MdCtx::MeetingItem),
                meeting: Some(
                    MeetingDataV {
                        id: id as int,
                        from: None,
                        to: None,
                        agenda: Seq::<int>::empty(),
                        registrations: Seq::<int>::empty(),
                    },
                ),
                ..st
            },
            None => MdState { ctx: Some(MdCtx::MeetingItem), meeting: None::<MeetingDataV>, ..st },
        }
    } else if name == "darbotvarkes-klausimas"@ {
        match req_id(attrs, "svarst_kl_stad_id"@) {
            Some(id) => MdState {
                ctx: Some(MdCtx::AgendaItemCtx),
                agenda_item: Some(
                    AgendaItemV {
                        id: id as int,
                        agenda_state_id: opt_attr_id(attrs, "kl_stad_id"@),
                        agenda_group_id: opt_attr_id(attrs, "kl_gr_id"@),
                        document_key: opt_attr_id(attrs, "dok_key"@),
                        nr: None,
                        name: None,
                        state: None,
                        agenda_type: None,
                        from: None,
                        to: None,
                        speeches: Seq::<int>::empty(),
                        voting: Seq::<int>::empty(),
                    },
                ),
                agenda: st.agenda.push(id as int),
                ..st
            },
            None => MdState {
                ctx: Some(MdCtx::AgendaItemCtx),
                agenda_item: None::<AgendaItemV>,
                ..st
            },
        }
    } else if name == "balsavimas"@ {
        match req_id(attrs, "bals_id"@) {
            Some(id) => MdState {
                ctx: Some(MdCtx::VoteItem),
                vote_item: Some(
                    VoteV { id: id as int, summary: None, result: None, from: None, to: None },
                ),
                voting: st.voting.push(id as int),
                ..st
            },
            None => MdState { ctx: Some(MdCtx::VoteItem), vote_item: None::<VoteV>, ..st },
        }
    } else if name == "kalbetojas"@ {
        match req_id(attrs, "klb_id"@) {
            Some(id) => {
                if attr_has(attrs, "diskus_id"@) && (attr_has(attrs, "asm_id"@) || attr_has(
                    attrs,
                    "pran_id"@,
                )) {
                    MdState {
                        ctx: Some(MdCtx::SpeechItem),
                        speech_item: Some(
                            SpeechV {
                                id: id as int,
                                discussion_id: parse_i32_spec(attr_get(attrs, "diskus_id"@).unwrap()),
                                person_id: if attr_has(attrs, "asm_id"@) {
                                    parse_i32_spec(attr_get(attrs, "asm_id"@).unwrap())
                                } else {
                                    parse_i32_spec(attr_get(attrs, "pran_id"@).unwrap())
                                },
                                person: None,
                                office: None,
                                from: None,
                                to: None,
                            },
                        ),
                        speeches: st.speeches.push(id as int),
                        ..st
                    }
                } else {
                    MdState { ctx: Some(MdCtx::SpeechItem), speech_item: None::<SpeechV>, ..st }
                }
            }
            None => MdState { ctx: Some(MdCtx::SpeechItem), speech_item: None::<SpeechV>, ..st },
        }
    } else if name == "registracija"@ {
        match req_id(attrs, "reg_id"@) {
            Some(id) => MdState {
                ctx: Some(MdCtx::RegistrationItem),
                registration_item: Some(
                    RegistrationV { id: id as int, result: None, from: None, to: None },
                ),
                registrations: st.registrations.push(id as int),
                ..st
            },
            None => MdState {
                ctx: Some(MdCtx::RegistrationItem),
                registration_item: None::<RegistrationV>,
                ..st
            },
        }
    } else {
        st
    };
    MdState { cur: Some(name), ..st1 }
}

/// The timestamp pattern of the detail feed's time fields.
pub open spec fn md_time(t: Seq<char>) -> Option<crate::dates::DateTime> {
    datetime_parse(t, "%Y-%m-%d %H:%M:%S"@)
}

/// The state character data leaves behind: the text is routed by the current
/// parent context and element name to the one field that pair stands for.
pub open spec fn md_text_step(st: MdState, text: Seq<char>) -> MdState {
    match st.ctx {
        Some(MdCtx::MeetingItem) => {
            match (st.cur, st.meeting) {
                (Some(ce), Some(m)) => {
                    if ce == "pradzia"@ {
                        MdState { meeting: Some(MeetingDataV { from: md_time(text), ..m }), ..st }
                    } else if ce == "pabaiga"@ {
                        MdState { meeting: Some(MeetingDataV { to: md_time(text), ..m }), ..st }
                    } else {
                        st
                    }
                }
                _ => st,
            }
        }
        Some(MdCtx::AgendaItemCtx) => {
            match (st.cur, st.agenda_item) {
                (Some(ce), Some(a)) => {
                    if ce == "nr"@ {
                        MdState { agenda_item: Some(AgendaItemV { nr: Some(text), ..a }), ..st }
                    } else if ce == "pavadinimas"@ {
                        MdState { agenda_item: Some(AgendaItemV { name: Some(text), ..a }), ..st }
                    } else if ce == "stadija"@ {
                        MdState { agenda_item: Some(AgendaItemV { state: Some(text), ..a }), ..st }
                    } else if ce == "tipas"@ {
                        MdState {
                            agenda_item: Some(AgendaItemV { agenda_type: Some(text), ..a }),
                            ..st
                        }
                    } else if ce == "nuo"@ {
                        MdState { agenda_item: Some(AgendaItemV { from: md_time(text), ..a }), ..st }
                    } else if ce == "iki"@ {
                        MdState { agenda_item: Some(AgendaItemV { to: md_time(text), ..a }), ..st }
                    } else {
                        st
                    }
                }
                _ => st,
            }
        }
        Some(MdCtx::VoteItem) => {
            match (st.cur, st.vote_item) {
                (Some(ce), Some(v)) => {
                    if ce == "aprasas"@ {
                        MdState { vote_item: Some(VoteV { summary: Some(text), ..v }), ..st }
                    } else if ce == "antraste"@ {
                        MdState { vote_item: Some(VoteV { result: Some(text), ..v }), ..st }
                    } else if ce == "nuo"@ {
                        MdState { vote_item: Some(VoteV { from: md_time(text), ..v }), ..st }
                    } else if ce == "iki"@ {
                        MdState { vote_item: Some(VoteV { to: md_time(text), ..v }), ..st }
                    } else {
                        st
                    }
                }
                _ => st,
            }
        }
        Some(MdCtx::SpeechItem) => {
            match (st.cur, st.speech_item) {
                (Some(ce), Some(sp)) => {
                    if ce == "asmuo"@ {
                        MdState { speech_item: Some(SpeechV { person: Some(text), ..sp }), ..st }
                    } else if ce == "pareigos"@ {
                        MdState { speech_item: Some(SpeechV { office: Some(text), ..sp }), ..st }
                    } else if ce == "nuo"@ {
                        MdState { speech_item: Some(SpeechV { from: md_time(text), ..sp }), ..st }
                    } else if ce == "iki"@ {
                        MdState { speech_item: Some(SpeechV { to: md_time(text), ..sp }), ..st }
                    } else {
                        st
                    }
                }
                _ => st,
            }
        }
        Some(MdCtx::RegistrationItem) => {
            match (st.cur, st.registration_item) {
                (Some(ce), Some(g)) => {
                    if ce == "antraste"@ {
                        MdState {
                            registration_item: Some(RegistrationV { result: Some(text), ..g }),
                            ..st
                        }
                    } else if ce == "nuo"@ {
                        MdState {
                            registration_item: Some(RegistrationV { from: md_time(text), ..g }),
                            ..st
                        }
                    } else if ce == "iki"@ {
                        MdState {
                            registration_item: Some(RegistrationV { to: md_time(text), ..g }),
                            ..st
                        }
                    } else {
                        st
                    }
                }
                _ => st,
            }
        }
        None => st,
    }
}

/// The state a closing tag leaves behind: a parent's pending child arrays are
/// folded into its record and cleared, and the current element is forgotten.
pub open spec fn md_close_step(st: MdState, name: Seq<char>) -> MdState {
    let st1 = if name == "posedis"@ {
        match st.meeting {
            Some(m) => MdState {
                meeting: Some(
                    MeetingDataV { agenda: st.agenda, registrations: st.registrations, ..m },
                ),
                agenda: Seq::<int>::empty(),
                registrations: Seq::<int>::empty(),
                ..st
            },
            None => MdState {
                agenda: Seq::<int>::empty(),
                registrations: Seq::<int>::empty(),
                ..st
            },
        }
    } else if name == "darbotvarkes-klausimas"@ {
        match st.agenda_item {
            Some(a) => MdState {
                agenda_item: Some(AgendaItemV { speeches: st.speeches, voting: st.voting, ..a }),
                speeches: Seq::<int>::empty(),
                voting: Seq::<int>::empty(),
                ..st
            },
            None => MdState { speeches: Seq::<int>::empty(), voting: Seq::<int>::empty(), ..st },
        }
    } else {
        st
    };
    MdState { cur: None::<Seq<char>>, ..st1 }
}

/// The writes a closing tag causes: each record is stored insert-or-update
/// when its closing tag is observed, the parents with their pending child
/// arrays folded in.
pub open spec fn md_close_writes(st: MdState, name: Seq<char>) -> Seq<WriteOp> {
    if name == "posedis"@ {
        match st.meeting {
            Some(m) => seq![
                WriteOp::WMeetingData(
                    MeetingDataV { agenda: st.agenda, registrations: st.registrations, ..m },
                ),
            ],
            None => Seq::<WriteOp>::empty(),
        }
    } else if name == "darbotvarkes-klausimas"@ {
        match st.agenda_item {
            Some(a) => seq![
                WriteOp::WAgendaItem(
                    AgendaItemV { speeches: st.speeches, voting: st.voting, ..a },
                ),
            ],
            None => Seq::<WriteOp>::empty(),
        }
    } else if name == "balsavimas"@ {
        match st.vote_item {
            Some(v) => seq![WriteOp::WVote(v)],
            None => Seq::<WriteOp>::empty(),
        }
    } else if name == "kalbetojas"@ {
        match st.speech_item {
            Some(sp) => seq![WriteOp::WSpeech(sp)],
            None => Seq::<WriteOp>::empty(),
        }
    } else if name == "registracija"@ {
        match st.registration_item {
            Some(g) => seq![WriteOp::WRegistration(g)],
            None => Seq::<WriteOp>::empty(),
        }
    } else {
        Seq::<WriteOp>::empty()
    }
}

/// The state one stream element leaves behind.
pub open spec fn md_state_step(st: MdState, ev: EventV) -> MdState {
    match ev {
        EventV::Open { name, attrs } => md_open_step(st, name, attrs),
        EventV::Text { text } => md_text_step(st, text),
        EventV::Close { name } => md_close_step(st, name),
        EventV::Fault => st,
    }
}

/// The writes one stream element causes.
pub open spec fn md_step_writes(st: MdState, ev: EventV) -> Seq<WriteOp> {
    match ev {
        EventV::Close { name } => md_close_writes(st, name),
        _ => Seq::<WriteOp>::empty(),
    }
}

/// The decode state after a run of stream elements.
pub open spec fn md_run(st: MdState, evs: Seq<EventV>) -> MdState
    decreases evs.len(),
{
    if evs.len() == 0 {
        st
    } else if evs[0] is Fault {
        st
    } else {
        md_run(md_state_step(st, evs[0]), evs.drop_first())
    }
}

/// The writes the meeting-detail feed performs, stopping at a decode fault.
pub open spec fn md_writes(st: MdState, evs: Seq<EventV>) -> Seq<WriteOp>
    decreases evs.len(),
{
    if evs.len() == 0 {
        Seq::<WriteOp>::empty()
    } else if evs[0] is Fault {
        Seq::<WriteOp>::empty()
    } else {
        md_step_writes(st, evs[0]) + md_writes(md_state_step(st, evs[0]), evs.drop_first())
    }
}

proof fn lemma_md_snoc(st: MdState, evs: Seq<EventV>, i: int)
    requires
        0 <= i < evs.len(),
        fault_free_prefix(evs, i),
        !(evs[i] is Fault),
    ensures
        md_run(st, evs.take(i + 1)) == md_state_step(md_run(st, evs.take(i)), evs[i]),
        md_writes(st, evs.take(i + 1)) == md_writes(st, evs.take(i)) + md_step_writes(
            md_run(st, evs.take(i)),
            evs[i],
        ),
    decreases i,
{
    if i == 0 {
        let t = evs.take(1);
        let p1 = md_state_step(st, evs[0]);
        assert(t[0] == evs[0]);
        assert(t.drop_first() =~= evs.take(0));
        assert(evs.take(0) =~= Seq::<EventV>::empty());
        assert(md_run(st, Seq::<EventV>::empty()) == st);
        assert(md_run(p1, Seq::<EventV>::empty()) == p1);
        assert(md_writes(st, Seq::<EventV>::empty()) == Seq::<WriteOp>::empty());
        assert(md_writes(p1, Seq::<EventV>::empty()) == Seq::<WriteOp>::empty());
        assert(md_run(st, t) == md_run(p1, t.drop_first()));
        assert(md_writes(st, t) == md_step_writes(st, evs[0]) + md_writes(p1, t.drop_first()));
        assert(md_step_writes(st, evs[0]) + Seq::<WriteOp>::empty() =~= md_step_writes(
            st,
            evs[0],
        ));
        assert(Seq::<WriteOp>::empty() + md_step_writes(st, evs[0]) =~= md_step_writes(
            st,
            evs[0],
        ));
    } else {
        let r = evs.drop_first();
        let p1 = md_state_step(st, evs[0]);
        assert(evs.take(i + 1)[0] == evs[0]);
        assert(evs.take(i)[0] == evs[0]);
        assert(!(evs[0] is Fault));
        assert(evs.take(i + 1).drop_first() =~= r.take(i));
        assert(evs.take(i).drop_first() =~= r.take(i - 1));
        assert(fault_free_prefix(r, i - 1)) by {
            assert(forall|j: int| 0 <= j < i - 1 ==> r[j] == evs[j + 1]);
        }
        assert(r[i - 1] == evs[i]);
        lemma_md_snoc(p1, r, i - 1);
        assert(md_run(st, evs.take(i)) == md_run(p1, r.take(i - 1)));
        assert(md_run(st, evs.take(i + 1)) == md_run(p1, r.take(i)));
        assert(md_writes(st, evs.take(i)) == md_step_writes(st, evs[0]) + md_writes(
            p1,
            r.take(i - 1),
        ));
        assert(md_writes(st, evs.take(i + 1)) == md_step_writes(st, evs[0]) + md_writes(
            p1,
            r.take(i),
        ));
        assert(md_step_writes(st, evs[0]) + (md_writes(p1, r.take(i - 1)) + md_step_writes(
            md_run(p1, r.take(i - 1)),
            evs[i],
        )) =~= (md_step_writes(st, evs[0]) + md_writes(p1, r.take(i - 1))) + md_step_writes(
            md_run(p1, r.take(i - 1)),
            evs[i],
        ));
    }
}

proof fn lemma_md_fault(st: MdState, evs: Seq<EventV>, i: int)
    requires
        0 <= i < evs.len(),
        fault_free_prefix(evs, i),
        evs[i] is Fault,
    ensures
        md_writes(st, evs) == md_writes(st, evs.take(i)),
    decreases i,
{
    if i == 0 {
        assert(md_writes(st, evs.take(0)) =~= Seq::<WriteOp>::empty());
    } else {
        let r = evs.drop_first();
        assert(fault_free_prefix(r, i - 1)) by {
            assert(forall|j: int| 0 <= j < i - 1 ==> r[j] == evs[j + 1]);
        }
        assert(r[i - 1] == evs[i]);
        lemma_md_fault(md_state_step(st, evs[0]), r, i - 1);
        assert(evs.take(i).drop_first() =~= r.take(i - 1));
        assert(evs.take(i)[0] == evs[0]);
    }
}

/// The views of the in-progress records.
pub open spec fn opt_md_view(m: Option<MeetingData>) -> Option<MeetingDataV> {
    match m {
        Some(x) => Some(x@),
        None => None,
    }
}

pub open spec fn opt_ai_view(m: Option<AgendaItem>) -> Option<AgendaItemV> {
    match m {
        Some(x) => Some(x@),
        None => None,
    }
}

pub open spec fn opt_vote_view(m: Option<Vote>) -> Option<VoteV> {
    match m {
        Some(x) => Some(x@),
        None => None,
    }
}

pub open spec fn opt_speech_view(m: Option<Speech>) -> Option<SpeechV> {
    match m {
        Some(x) => Some(x@),
        None => None,
    }
}

pub open spec fn opt_reg_view(m: Option<Registration>) -> Option<RegistrationV> {
    match m {
        Some(x) => Some(x@),
        None => None,
    }
}

/// Reads an attribute as a required identifier.
fn read_req_id(attrs: &Vec<(String, String)>, key: &str) -> (r: Option<i32>)
    ensures
        r == req_id(crate::events::attrs_view(attrs@), key@),
{
    match lookup_attr(attrs, key) {
        Some(t) => parse_i32(t.as_str()),
        None => None,
    }
}

/// Decodes one meeting-detail feed: records are stored at their closing tags
/// with their pending child arrays folded in, in document order, up to the
/// first decode fault.
pub fn parse_meeting_data(events: &Vec<RawEvent>, store: &mut Store)
    requires
        old(store)@.wf(),
    ensures
        final(store)@.wf(),
        final(store)@ == apply_writes(old(store)@, md_writes(md_init(), views_of(events@))),
{
    let ghost evs = views_of(events@);
    let ghost sv0 = old(store)@;
    let mut current_element: Option<String> = None;
    let mut ctx: Option<MdCtx> = None;
    let mut meeting_item: Option<MeetingData> = None;
    let mut agenda_item: Option<AgendaItem> = None;
    let mut vote_item: Option<Vote> = None;
    let mut speech_item: Option<Speech> = None;
    let mut registration_item: Option<Registration> = None;
    let mut agenda: Vec<i32> = Vec::new();
    let mut registrations: Vec<i32> = Vec::new();
    let mut speeches: Vec<i32> = Vec::new();
    let mut voting: Vec<i32> = Vec::new();
    let mut i: usize = 0;
    proof {
        assert(evs.take(0) =~= Seq::<EventV>::empty());
        assert(ids_view(agenda@) =~= Seq::<int>::empty());
        assert(ids_view(registrations@) =~= Seq::<int>::empty());
        assert(ids_view(speeches@) =~= Seq::<int>::empty());
        assert(ids_view(voting@) =~= Seq::<int>::empty());
    }
    while i < events.len()
        invariant
            0 <= i <= events@.len(),
            evs == views_of(events@),
            evs.len() == events@.len(),
            sv0 == old(store)@,
            sv0.wf(),
            store@.wf(),
            fault_free_prefix(evs, i as int),
            opt_str(current_element) == md_run(md_init(), evs.take(i as int)).cur,
            ctx == md_run(md_init(), evs.take(i as int)).ctx,
            opt_md_view(meeting_item) == md_run(md_init(), evs.take(i as int)).meeting,
            opt_ai_view(agenda_item) == md_run(md_init(), evs.take(i as int)).agenda_item,
            opt_vote_view(vote_item) == md_run(md_init(), evs.take(i as int)).vote_item,
            opt_speech_view(speech_item) == md_run(md_init(), evs.take(i as int)).speech_item,
            opt_reg_view(registration_item) == md_run(
                md_init(),
                evs.take(i as int),
            ).registration_item,
            ids_view(agenda@) == md_run(md_init(), evs.take(i as int)).agenda,
            ids_view(registrations@) == md_run(md_init(), evs.take(i as int)).registrations,
            ids_view(speeches@) == md_run(md_init(), evs.take(i as int)).speeches,
            ids_view(voting@) == md_run(md_init(), evs.take(i as int)).voting,
            store@ == apply_writes(sv0, md_writes(md_init(), evs.take(i as int))),
        decreases events@.len() - i,
    {
        let ghost svb = store@;
        let ghost stb = md_run(md_init(), evs.take(i as int));
        let ev = &events[i];
        proof {
            assert(evs[i as int] == events@[i as int]@);
        }
        match ev {
            RawEvent::Open { name, attrs } => {
                let ghost av = crate::events::attrs_view(attrs@);
                proof {
                    assert(evs[i as int] == (EventV::Open { name: name@, attrs: av }));
                }
                if str_eq(name.as_str(), "posedis") {
                    ctx = Some(MdCtx::MeetingItem);
                    meeting_item = match read_req_id(attrs, "pos_id") {
                        Some(id) => Some(
                            MeetingData {
                                id,
                                from: None,
                                to: None,
                                agenda: Vec::new(),
                                registrations: Vec::new(),
                            },
                        ),
                        None => None,
                    };
                    proof {
                        assert(ids_view(Seq::<i32>::empty()) =~= Seq::<int>::empty());
                    }
                } else if str_eq(name.as_str(), "darbotvarkes-klausimas") {
                    ctx = Some(MdCtx::AgendaItemCtx);
                    match read_req_id(attrs, "svarst_kl_stad_id") {
                        Some(id) => {
                            let state_id = read_req_id(attrs, "kl_stad_id");
                            let group_id = read_req_id(attrs, "kl_gr_id");
                            let doc_key = read_req_id(attrs, "dok_key");
                            agenda_item = Some(
                                AgendaItem {
                                    id,
                                    agenda_state_id: state_id,
                                    agenda_group_id: group_id,
                                    document_key: doc_key,
                                    nr: None,
                                    name: None,
                                    state: None,
                                    agenda_type: None,
                                    from: None,
                                    to: None,
                                    speeches: Vec::new(),
                                    voting: Vec::new(),
                                },
                            );
                            agenda.push(id);
                            proof {
                                assert(ids_view(Seq::<i32>::empty()) =~= Seq::<int>::empty());
                                assert(ids_view(agenda@) =~= ids_view(agenda@.drop_last()).push(
                                    agenda@.last() as int,
                                ));
                            }
                        }
                        None => {
                            agenda_item = None;
                        }
                    }
                } else if str_eq(name.as_str(), "balsavimas") {
                    ctx = Some(MdCtx::VoteItem);
                    match read_req_id(attrs, "bals_id") {
                        Some(id) => {
                            vote_item = Some(
                                Vote { id, summary: None, result: None, from: None, to: None },
                            );
                            voting.push(id);
                            proof {
                                assert(ids_view(voting@) =~= ids_view(voting@.drop_last()).push(
                                    voting@.last() as int,
                                ));
                            }
                        }
                        None => {
                            vote_item = None;
                        }
                    }
                } else if str_eq(name.as_str(), "kalbetojas") {
                    ctx = Some(MdCtx::SpeechItem);
                    speech_item = None;
                    match read_req_id(attrs, "klb_id") {
                        Some(id) => {
                            let has_person = has_attr_pair(attrs);
                            if lookup_attr(attrs, "diskus_id").is_some() && has_person {
                                let discussion_id = read_req_id(attrs, "diskus_id");
                                let person_id = if let Some(t) = lookup_attr(attrs, "asm_id") {
                                    parse_i32(t.as_str())
                                } else {
                                    match lookup_attr(attrs, "pran_id") {
                                        Some(t) => parse_i32(t.as_str()),
                                        None => None,
                                    }
                                };
                                speech_item = Some(
                                    Speech {
                                        id,
                                        discussion_id,
                                        person_id,
                                        person: None,
                                        office: None,
                                        from: None,
                                        to: None,
                                    },
                                );
                                speeches.push(id);
                                proof {
                                    assert(ids_view(speeches@) =~= ids_view(
                                        speeches@.drop_last(),
                                    ).push(speeches@.last() as int));
                                }
                            }
                        }
                        None => {}
                    }
                } else if str_eq(name.as_str(), "registracija") {
                    ctx = Some(MdCtx::RegistrationItem);
                    match read_req_id(attrs, "reg_id") {
                        Some(id) => {
                            registration_item = Some(
                                Registration { id, result: None, from: None, to: None },
                            );
                            registrations.push(id);
                            proof {
                                assert(ids_view(registrations@) =~= ids_view(
                                    registrations@.drop_last(),
                                ).push(registrations@.last() as int));
                            }
                        }
                        None => {
                            registration_item = None;
                        }
                    }
                }
                current_element = Some(name.clone());
            }
            RawEvent::Text { text } => {
                proof {
                    assert(evs[i as int] == (EventV::Text { text: text@ }));
                }
                if ctx.is_some() && current_element.is_some() {
                    let c = ctx.unwrap();
                    match c {
                        MdCtx::MeetingItem => {
                            if meeting_item.is_some() {
                                let ce = current_element.as_ref().unwrap();
                                if str_eq(ce.as_str(), "pradzia") {
                                    meeting_item = match meeting_item {
                                        Some(mut m) => {
                                            m.from = parse_datetime(
                                                text.as_str(),
                                                "%Y-%m-%d %H:%M:%S",
                                            );
                                            Some(m)
                                        }
                                        None => None,
                                    };
                                } else if str_eq(ce.as_str(), "pabaiga") {
                                    meeting_item = match meeting_item {
                                        Some(mut m) => {
                                            m.to = parse_datetime(
                                                text.as_str(),
                                                "%Y-%m-%d %H:%M:%S",
                                            );
                                            Some(m)
                                        }
                                        None => None,
                                    };
                                }
                            }
                        }
                        MdCtx::AgendaItemCtx => {
                            if agenda_item.is_some() {
                                let ce = current_element.as_ref().unwrap();
                                if str_eq(ce.as_str(), "nr") {
                                    agenda_item = match agenda_item {
                                        Some(mut a) => {
                                            a.nr = Some(text.clone());
                                            Some(a)
                                        }
                                        None => None,
                                    };
                                } else if str_eq(ce.as_str(), "pavadinimas") {
                                    agenda_item = match agenda_item {
                                        Some(mut a) => {
                                            a.name = Some(text.clone());
                                            Some(a)
                                        }
                                        None => None,
                                    };
                                } else if str_eq(ce.as_str(), "stadija") {
                                    agenda_item = match agenda_item {
                                        Some(mut a) => {
                                            a.state = Some(text.clone());
                                            Some(a)
                                        }
                                        None => None,
                                    };
                                } else if str_eq(ce.as_str(), "tipas") {
                                    agenda_item = match agenda_item {
                                        Some(mut a) => {
                                            a.agenda_type = Some(text.clone());
                                            Some(a)
                                        }
                                        None => None,
                                    };
                                } else if str_eq(ce.as_str(), "nuo") {
                                    agenda_item = match agenda_item {
                                        Some(mut a) => {
                                            a.from = parse_datetime(
                                                text.as_str(),
                                                "%Y-%m-%d %H:%M:%S",
                                            );
                                            Some(a)
                                        }
                                        None => None,
                                    };
                                } else if str_eq(ce.as_str(), "iki") {
                                    agenda_item = match agenda_item {
                                        Some(mut a) => {
                                            a.to = parse_datetime(
                                                text.as_str(),
                                                "%Y-%m-%d %H:%M:%S",
                                            );
                                            Some(a)
                                        }
                                        None => None,
                                    };
                                }
                            }
                        }
                        MdCtx::VoteItem => {
                            if vote_item.is_some() {
                                let ce = current_element.as_ref().unwrap();
                                if str_eq(ce.as_str(), "aprasas") {
                                    vote_item = match vote_item {
                                        Some(mut v) => {
                                            v.summary = Some(text.clone());
                                            Some(v)
                                        }
                                        None => None,
                                    };
                                } else if str_eq(ce.as_str(), "antraste") {
                                    vote_item = match vote_item {
                                        Some(mut v) => {
                                            v.result = Some(text.clone());
                                            Some(v)
                                        }
                                        None => None,
                                    };
                                } else if str_eq(ce.as_str(), "nuo") {
                                    vote_item = match vote_item {
                                        Some(mut v) => {
                                            v.from = parse_datetime(
                                                text.as_str(),
                                                "%Y-%m-%d %H:%M:%S",
                                            );
                                            Some(v)
                                        }
                                        None => None,
                                    };
                                } else if str_eq(ce.as_str(), "iki") {
                                    vote_item = match vote_item {
                                        Some(mut v) => {
                                            v.to = parse_datetime(
                                                text.as_str(),
                                                "%Y-%m-%d %H:%M:%S",
                                            );
                                            Some(v)
                                        }
                                        None => None,
                                    };
                                }
                            }
                        }
                        MdCtx::SpeechItem => {
                            if speech_item.is_some() {
                                let ce = current_element.as_ref().unwrap();
                                if str_eq(ce.as_str(), "asmuo") {
                                    speech_item = match speech_item {
                                        Some(mut sp) => {
                                            sp.person = Some(text.clone());
                                            Some(sp)
                                        }
                                        None => None,
                                    };
                                } else if str_eq(ce.as_str(), "pareigos") {
                                    speech_item = match speech_item {
                                        Some(mut sp) => {
                                            sp.office = Some(text.clone());
                                            Some(sp)
                                        }
                                        None => None,
                                    };
                                } else if str_eq(ce.as_str(), "nuo") {
                                    speech_item = match speech_item {
                                        Some(mut sp) => {
                                            sp.from = parse_datetime(
                                                text.as_str(),
                                                "%Y-%m-%d %H:%M:%S",
                                            );
                                            Some(sp)
                                        }
                                        None => None,
                                    };
                                } else if str_eq(ce.as_str(), "iki") {
                                    speech_item = match speech_item {
                                        Some(mut sp) => {
                                            sp.to = parse_datetime(
                                                text.as_str(),
                                                "%Y-%m-%d %H:%M:%S",
                                            );
                                            Some(sp)
                                        }
                                        None => None,
                                    };
                                }
                            }
                        }
                        MdCtx::RegistrationItem => {
                            if registration_item.is_some() {
                                let ce = current_element.as_ref().unwrap();
                                if str_eq(ce.as_str(), "antraste") {
                                    registration_item = match registration_item {
                                        Some(mut g) => {
                                            g.result = Some(text.clone());
                                            Some(g)
                                        }
                                        None => None,
                                    };
                                } else if str_eq(ce.as_str(), "nuo") {
                                    registration_item = match registration_item {
                                        Some(mut g) => {
                                            g.from = parse_datetime(
                                                text.as_str(),
                                                "%Y-%m-%d %H:%M:%S",
                                            );
                                            Some(g)
                                        }
                                        None => None,
                                    };
                                } else if str_eq(ce.as_str(), "iki") {
                                    registration_item = match registration_item {
                                        Some(mut g) => {
                                            g.to = parse_datetime(
                                                text.as_str(),
                                                "%Y-%m-%d %H:%M:%S",
                                            );
                                            Some(g)
                                        }
                                        None => None,
                                    };
                                }
                            }
                        }
                    }
                }
            }
            RawEvent::Close { name } => {
                proof {
                    assert(evs[i as int] == (EventV::Close { name: name@ }));
                }
                if str_eq(name.as_str(), "posedis") {
                    meeting_item = match meeting_item {
                        Some(mut m) => {
                            m.agenda = agenda;
                            m.registrations = registrations;
                            Some(m)
                        }
                        None => None,
                    };
                    agenda = Vec::new();
                    registrations = Vec::new();
                    if let Some(m) = &meeting_item {
                        let _ = m.save(store);
                        proof {
                            assert(store@ == crate::writes::apply_write(
                                svb,
                                WriteOp::WMeetingData(m@),
                            ));
                        }
                    }
                    proof {
                        assert(ids_view(Seq::<i32>::empty()) =~= Seq::<int>::empty());
                    }
                } else if str_eq(name.as_str(), "darbotvarkes-klausimas") {
                    agenda_item = match agenda_item {
                        Some(mut a) => {
                            a.speeches = speeches;
                            a.voting = voting;
                            Some(a)
                        }
                        None => None,
                    };
                    speeches = Vec::new();
                    voting = Vec::new();
                    if let Some(a) = &agenda_item {
                        let _ = a.save(store);
                        proof {
                            assert(store@ == crate::writes::apply_write(
                                svb,
                                WriteOp::WAgendaItem(a@),
                            ));
                        }
                    }
                    proof {
                        assert(ids_view(Seq::<i32>::empty()) =~= Seq::<int>::empty());
                    }
                } else if str_eq(name.as_str(), "balsavimas") {
                    if let Some(v) = &vote_item {
                        let _ = v.save(store);
                        proof {
                            assert(store@ == crate::writes::apply_write(
                                svb,
                                WriteOp::WVote(v@),
                            ));
                        }
                    }
                } else if str_eq(name.as_str(), "kalbetojas") {
                    if let Some(sp) = &speech_item {
                        let _ = sp.save(store);
                        proof {
                            assert(store@ == crate::writes::apply_write(
                                svb,
                                WriteOp::WSpeech(sp@),
                            ));
                        }
                    }
                } else if str_eq(name.as_str(), "registracija") {
                    if let Some(g) = &registration_item {
                        let _ = g.save(store);
                        proof {
                            assert(store@ == crate::writes::apply_write(
                                svb,
                                WriteOp::WRegistration(g@),
                            ));
                        }
                    }
                }
                current_element = None;
            }
            RawEvent::Fault => {
                proof {
                    lemma_md_fault(md_init(), evs, i as int);
                }
                return ;
            }
        }
        proof {
            lemma_md_snoc(md_init(), evs, i as int);
            lemma_apply_writes_app(
                sv0,
                md_writes(md_init(), evs.take(i as int)),
                md_step_writes(stb, evs[i as int]),
            );
            let s1 = md_step_writes(stb, evs[i as int]);
            if s1.len() == 0 {
                assert(apply_writes(svb, s1) == svb);
            } else {
                let w = s1[0];
                let sv1 = crate::writes::apply_write(svb, w);
                assert(s1.drop_first() =~= Seq::<WriteOp>::empty());
                assert(apply_writes(sv1, s1.drop_first()) == sv1);
                assert(apply_writes(svb, s1) == sv1);
            }
            let stn = md_state_step(stb, evs[i as int]);
            assert(opt_str(current_element) == stn.cur);
            assert(ctx == stn.ctx);
            assert(opt_md_view(meeting_item) == stn.meeting);
            assert(opt_ai_view(agenda_item) == stn.agenda_item);
            assert(opt_vote_view(vote_item) == stn.vote_item);
            assert(opt_speech_view(speech_item) == stn.speech_item);
            assert(opt_reg_view(registration_item) == stn.registration_item);
            assert(ids_view(agenda@) == stn.agenda);
            assert(ids_view(registrations@) == stn.registrations);
            assert(ids_view(speeches@) == stn.speeches);
            assert(ids_view(voting@) == stn.voting);
        }
        i = i + 1;
    }
    proof {
        assert(evs.take(evs.len() as int) =~= evs);
    }
}

/// Whether a speaker tag names a person, directly or as a reporter.
fn has_attr_pair(attrs: &Vec<(String, String)>) -> (r: bool)
    ensures
        r == (attr_has(crate::events::attrs_view(attrs@), "asm_id"@) || attr_has(
            crate::events::attrs_view(attrs@),
            "pran_id"@,
        )),
{
    match lookup_attr(attrs, "asm_id") {
        Some(_) => true,
        None => match lookup_attr(attrs, "pran_id") {
            Some(_) => true,
            None => false,
        },
    }
}

/// Decodes and stores one meeting-detail feed text, as fetched from the
/// detail endpoint of one meeting.
pub fn get_meeting_data(text: &str, store: &mut Store)
    requires
        old(store)@.wf(),
    ensures
        final(store)@.wf(),
        final(store)@ == apply_writes(old(store)@, md_writes(md_init(), events_of(text@))),
{
    let events = read_events(text);
    parse_meeting_data(&events, store);
}

/// Re-running one meeting-detail feed leaves the store exactly as one run
/// left it.
pub proof fn lemma_meeting_data_idempotent(sv: crate::store::StoreView, evs: Seq<EventV>)
    requires
        sv.wf(),
    ensures
        apply_writes(apply_writes(sv, md_writes(md_init(), evs)), md_writes(md_init(), evs))
            == apply_writes(sv, md_writes(md_init(), evs)),
{
    crate::writes::lemma_apply_writes_idempotent(sv, md_writes(md_init(), evs));
}

/// Whether a stream element stays inside one sitting: it is no sitting
/// boundary and no decode fault.
pub open spec fn md_inner_event(ev: EventV) -> bool {
    match ev {
        EventV::Open { name, .. } => name != "posedis"@,
        EventV::Close { name } => name != "posedis"@,
        EventV::Fault => false,
        _ => true,
    }
}

/// Whether a whole segment stays inside one sitting.
pub open spec fn md_child_segment(evs: Seq<EventV>) -> bool {
    forall|j: int| 0 <= j < evs.len() ==> md_inner_event(#[trigger] evs[j])
}

/// The agenda-item identifiers a segment opens, in encounter order.
pub open spec fn agenda_open_ids(evs: Seq<EventV>) -> Seq<int>
    decreases evs.len(),
{
    if evs.len() == 0 {
        Seq::<int>::empty()
    } else {
        (match evs[0] {
            EventV::Open { name, attrs } => {
                if name == "darbotvarkes-klausimas"@ && req_id(attrs, "svarst_kl_stad_id"@)
                    is Some {
                    seq![req_id(attrs, "svarst_kl_stad_id"@).unwrap() as int]
                } else {
                    Seq::<int>::empty()
                }
            }
            _ => Seq::<int>::empty(),
        }) + agenda_open_ids(evs.drop_first())
    }
}

/// The roll-call identifiers a segment opens, in encounter order.
pub open spec fn registration_open_ids(evs: Seq<EventV>) -> Seq<int>
    decreases evs.len(),
{
    if evs.len() == 0 {
        Seq::<int>::empty()
    } else {
        (match evs[0] {
            EventV::Open { name, attrs } => {
                if name == "registracija"@ && req_id(attrs, "reg_id"@) is Some {
                    seq![req_id(attrs, "reg_id"@).unwrap() as int]
                } else {
                    Seq::<int>::empty()
                }
            }
            _ => Seq::<int>::empty(),
        }) + registration_open_ids(evs.drop_first())
    }
}

/// The record element names of the detail feed differ pairwise.
proof fn lemma_md_names()
    ensures
        "posedis"@ != "darbotvarkes-klausimas"@,
        "posedis"@ != "balsavimas"@,
        "posedis"@ != "kalbetojas"@,
        "posedis"@ != "registracija"@,
        "darbotvarkes-klausimas"@ != "balsavimas"@,
        "darbotvarkes-klausimas"@ != "kalbetojas"@,
        "darbotvarkes-klausimas"@ != "registracija"@,
        "balsavimas"@ != "kalbetojas"@,
        "balsavimas"@ != "registracija"@,
        "kalbetojas"@ != "registracija"@,
{
    reveal_strlit("posedis");
    reveal_strlit("darbotvarkes-klausimas");
    reveal_strlit("balsavimas");
    reveal_strlit("kalbetojas");
    reveal_strlit("registracija");
    assert("posedis"@.len() == 7);
    assert("darbotvarkes-klausimas"@.len() == 22);
    assert("balsavimas"@.len() == 10);
    assert("kalbetojas"@.len() == 10);
    assert("registracija"@.len() == 12);
    assert("balsavimas"@[0] == 'b');
    assert("kalbetojas"@[0] == 'k');
}

/// Inside one sitting, the pending child arrays only grow by the child
/// identifiers the segment opens, in encounter order, and the in-progress
/// sitting record survives under its identifier.
proof fn lemma_child_arrays(st: MdState, evs: Seq<EventV>)
    requires
        md_child_segment(evs),
    ensures
        md_run(st, evs).agenda == st.agenda + agenda_open_ids(evs),
        md_run(st, evs).registrations == st.registrations + registration_open_ids(evs),
        st.meeting is Some ==> md_run(st, evs).meeting is Some && md_run(
            st,
            evs,
        ).meeting.unwrap().id == st.meeting.unwrap().id,
    decreases evs.len(),
{
    if evs.len() == 0 {
        assert(st.agenda + agenda_open_ids(evs) =~= st.agenda);
        assert(st.registrations + registration_open_ids(evs) =~= st.registrations);
    } else {
        lemma_md_names();
        let e0 = evs[0];
        assert(md_inner_event(e0));
        let st1 = md_state_step(st, e0);
        let rest = evs.drop_first();
        assert(md_child_segment(rest)) by {
            assert(forall|j: int| 0 <= j < rest.len() ==> rest[j] == evs[j + 1]);
        }
        lemma_child_arrays(st1, rest);
        assert(md_run(st, evs) == md_run(st1, rest));
        match e0 {
            EventV::Open { name, attrs } => {
                if name == "darbotvarkes-klausimas"@ && req_id(attrs, "svarst_kl_stad_id"@)
                    is Some {
                    let id = req_id(attrs, "svarst_kl_stad_id"@).unwrap() as int;
                    assert(st1.agenda == st.agenda.push(id));
                    assert(st.agenda.push(id) =~= st.agenda + seq![id]);
                    assert(agenda_open_ids(evs) =~= seq![id] + agenda_open_ids(rest));
                    assert(st.agenda + seq![id] + agenda_open_ids(rest) =~= st.agenda + (
                    seq![id] + agenda_open_ids(rest)));
                    assert(st1.registrations == st.registrations);
                    assert(registration_open_ids(evs) =~= registration_open_ids(rest));
                } else if name == "registracija"@ && req_id(attrs, "reg_id"@) is Some {
                    let id = req_id(attrs, "reg_id"@).unwrap() as int;
                    assert(st1.registrations == st.registrations.push(id));
                    assert(st.registrations.push(id) =~= st.registrations + seq![id]);
                    assert(registration_open_ids(evs) =~= seq![id] + registration_open_ids(rest));
                    assert(st.registrations + seq![id] + registration_open_ids(rest)
                        =~= st.registrations + (seq![id] + registration_open_ids(rest)));
                    assert(st1.agenda == st.agenda);
                    assert(agenda_open_ids(evs) =~= agenda_open_ids(rest));
                } else {
                    assert(st1.agenda == st.agenda);
                    assert(st1.registrations == st.registrations);
                    assert(agenda_open_ids(evs) =~= Seq::<int>::empty() + agenda_open_ids(rest));
                    assert(Seq::<int>::empty() + agenda_open_ids(rest) =~= agenda_open_ids(rest));
                    assert(registration_open_ids(evs) =~= Seq::<int>::empty()
                        + registration_open_ids(rest));
                    assert(Seq::<int>::empty() + registration_open_ids(rest)
                        =~= registration_open_ids(rest));
                }
            }
            _ => {
                assert(st1.agenda == st.agenda);
                assert(st1.registrations == st.registrations);
                assert(agenda_open_ids(evs) =~= agenda_open_ids(rest));
                assert(registration_open_ids(evs) =~= registration_open_ids(rest));
            }
        }
    }
}

/// A run over a fault-free part followed by the rest.
proof fn lemma_md_app(st: MdState, a: Seq<EventV>, b: Seq<EventV>)
    requires
        fault_free_prefix(a, a.len() as int),
    ensures
        md_run(st, a + b) == md_run(md_run(st, a), b),
        md_writes(st, a + b) == md_writes(st, a) + md_writes(md_run(st, a), b),
    decreases a.len(),
{
    if a.len() == 0 {
        assert(a + b =~= b);
        assert(md_writes(st, a) =~= Seq::<WriteOp>::empty());
        assert(md_writes(st, a) + md_writes(st, b) =~= md_writes(st, b));
    } else {
        assert((a + b)[0] == a[0]);
        assert(!(a[0] is Fault)) by {
            assert(a[0] == a[0int]);
        }
        assert((a + b).drop_first() =~= a.drop_first() + b);
        assert(fault_free_prefix(a.drop_first(), a.len() - 1)) by {
            assert(forall|j: int| 0 <= j < a.len() - 1 ==> a.drop_first()[j] == a[j + 1]);
        }
        let st1 = md_state_step(st, a[0]);
        lemma_md_app(st1, a.drop_first(), b);
        assert(md_writes(st, a) == md_step_writes(st, a[0]) + md_writes(st1, a.drop_first()));
        assert(md_step_writes(st, a[0]) + (md_writes(st1, a.drop_first()) + md_writes(
            md_run(st1, a.drop_first()),
            b,
        )) =~= (md_step_writes(st, a[0]) + md_writes(st1, a.drop_first())) + md_writes(
            md_run(st1, a.drop_first()),
            b,
        ));
    }
}

/// For a sitting whose detail segment opens children, the child-identifier
/// arrays stored at the sitting's closing tag are exactly the identifiers of
/// the children opened between its opening and closing tags, in encounter
/// order.
pub proof fn lemma_children_recorded(attrs: Seq<(Seq<char>, Seq<char>)>, body: Seq<EventV>)
    requires
        md_child_segment(body),
        req_id(attrs, "pos_id"@) is Some,
    ensures
        ({
            let evs = seq![EventV::Open { name: "posedis"@, attrs }] + body + seq![
                EventV::Close { name: "posedis"@ },
            ];
            let ws = md_writes(md_init(), evs);
            &&& ws.len() > 0
            &&& ws.last() matches WriteOp::WMeetingData(m) && m.agenda == agenda_open_ids(body)
                && m.registrations == registration_open_ids(body) && m.id == req_id(
                attrs,
                "pos_id"@,
            ).unwrap() as int
        }),
{
    let open = seq![EventV::Open { name: "posedis"@, attrs }];
    let close = seq![EventV::Close { name: "posedis"@ }];
    let evs = open + body + close;
    let st1 = md_state_step(md_init(), open[0]);
    assert(fault_free_prefix(open, 1)) by {
        assert(open[0int] == (EventV::Open { name: "posedis"@, attrs }));
    }
    assert(fault_free_prefix(body, body.len() as int)) by {
        assert(forall|j: int| 0 <= j < body.len() ==> md_inner_event(body[j]));
    }
    assert(open[0] == (EventV::Open { name: "posedis"@, attrs }));
    assert(open.drop_first() =~= Seq::<EventV>::empty());
    assert(md_run(st1, Seq::<EventV>::empty()) == st1);
    assert(md_run(md_init(), open) == st1);
    assert(st1.meeting is Some);
    assert(st1.meeting.unwrap().id == req_id(attrs, "pos_id"@).unwrap() as int);
    assert(st1.agenda =~= Seq::<int>::empty());
    assert(st1.registrations =~= Seq::<int>::empty());
    lemma_child_arrays(st1, body);
    let st2 = md_run(st1, body);
    assert(st2.agenda =~= agenda_open_ids(body));
    assert(st2.registrations =~= registration_open_ids(body));
    assert(st2.meeting is Some);
    lemma_md_app(md_init(), open, body + close);
    assert(open + (body + close) =~= evs);
    lemma_md_app(st1, body, close);
    let wclose = md_writes(st2, close);
    assert(wclose == md_step_writes(st2, close[0]) + md_writes(
        md_state_step(st2, close[0]),
        close.drop_first(),
    )) by {
        assert(close[0] == (EventV::Close { name: "posedis"@ }));
    }
    assert(close.drop_first() =~= Seq::<EventV>::empty());
    assert(md_writes(md_state_step(st2, close[0]), Seq::<EventV>::empty()) == Seq::<
        WriteOp,
    >::empty());
    assert(md_step_writes(st2, close[0]) == md_close_writes(st2, "posedis"@));
    let m = MeetingDataV {
        agenda: st2.agenda,
        registrations: st2.registrations,
        ..st2.meeting.unwrap()
    };
    assert(md_close_writes(st2, "posedis"@) == seq![WriteOp::WMeetingData(m)]);
    assert(wclose =~= seq![WriteOp::WMeetingData(m)]);
    let ws = md_writes(md_init(), evs);
    assert(ws == md_writes(md_init(), open) + (md_writes(st1, body) + wclose));
    assert(ws.len() > 0 && ws.last() == WriteOp::WMeetingData(m)) by {
        assert((md_writes(md_init(), open) + (md_writes(st1, body) + wclose)).last() == wclose.last());
        assert(wclose.last() == WriteOp::WMeetingData(m));
    }
    assert(m.agenda == agenda_open_ids(body));
    assert(m.registrations == registration_open_ids(body));
    assert(m.id == req_id(attrs, "pos_id"@).unwrap() as int);
}

/// Whether a stream element stays inside one agenda item: it is neither an
/// agenda-item nor a sitting boundary, and no decode fault.
pub open spec fn md_agenda_inner_event(ev: EventV) -> bool {
    match ev {
        EventV::Open { name, .. } => name != "posedis"@ && name != "darbotvarkes-klausimas"@,
        EventV::Close { name } => name != "posedis"@ && name != "darbotvarkes-klausimas"@,
        EventV::Fault => false,
        _ => true,
    }
}

/// Whether a whole segment stays inside one agenda item.
pub open spec fn md_agenda_segment(evs: Seq<EventV>) -> bool {
    forall|j: int| 0 <= j < evs.len() ==> md_agenda_inner_event(#[trigger] evs[j])
}

/// The speech identifiers a segment opens, in encounter order. A speaker tag
/// counts when its required fields can be read.
pub open spec fn speech_open_ids(evs: Seq<EventV>) -> Seq<int>
    decreases evs.len(),
{
    if evs.len() == 0 {
        Seq::<int>::empty()
    } else {
        (match evs[0] {
            EventV::Open { name, attrs } => {
                if name == "kalbetojas"@ && req_id(attrs, "klb_id"@) is Some && attr_has(
                    attrs,
                    "diskus_id"@,
                ) && (attr_has(attrs, "asm_id"@) || attr_has(attrs, "pran_id"@)) {
                    seq![req_id(attrs, "klb_id"@).unwrap() as int]
                } else {
                    Seq::<int>::empty()
                }
            }
            _ => Seq::<int>::empty(),
        }) + speech_open_ids(evs.drop_first())
    }
}

/// The voting-event identifiers a segment opens, in encounter order.
pub open spec fn vote_open_ids(evs: Seq<EventV>) -> Seq<int>
    decreases evs.len(),
{
    if evs.len() == 0 {
        Seq::<int>::empty()
    } else {
        (match evs[0] {
            EventV::Open { name, attrs } => {
                if name == "balsavimas"@ && req_id(attrs, "bals_id"@) is Some {
                    seq![req_id(attrs, "bals_id"@).unwrap() as int]
                } else {
                    Seq::<int>::empty()
                }
            }
            _ => Seq::<int>::empty(),
        }) + vote_open_ids(evs.drop_first())
    }
}

/// Inside one agenda item, the pending speech and voting arrays only grow by
/// the children the segment opens, in encounter order, and the in-progress
/// agenda record survives under its identifier.
proof fn lemma_agenda_arrays(st: MdState, evs: Seq<EventV>)
    requires
        md_agenda_segment(evs),
    ensures
        md_run(st, evs).speeches == st.speeches + speech_open_ids(evs),
        md_run(st, evs).voting == st.voting + vote_open_ids(evs),
        st.agenda_item is Some ==> md_run(st, evs).agenda_item is Some && md_run(
            st,
            evs,
        ).agenda_item.unwrap().id == st.agenda_item.unwrap().id,
    decreases evs.len(),
{
    if evs.len() == 0 {
        assert(st.speeches + speech_open_ids(evs) =~= st.speeches);
        assert(st.voting + vote_open_ids(evs) =~= st.voting);
    } else {
        lemma_md_names();
        let e0 = evs[0];
        assert(md_agenda_inner_event(e0));
        let st1 = md_state_step(st, e0);
        let rest = evs.drop_first();
        assert(md_agenda_segment(rest)) by {
            assert(forall|j: int| 0 <= j < rest.len() ==> rest[j] == evs[j + 1]);
        }
        lemma_agenda_arrays(st1, rest);
        assert(md_run(st, evs) == md_run(st1, rest));
        match e0 {
            EventV::Open { name, attrs } => {
                if name == "kalbetojas"@ && req_id(attrs, "klb_id"@) is Some && attr_has(
                    attrs,
                    "diskus_id"@,
                ) && (attr_has(attrs, "asm_id"@) || attr_has(attrs, "pran_id"@)) {
                    let id = req_id(attrs, "klb_id"@).unwrap() as int;
                    assert(st1.speeches == st.speeches.push(id));
                    assert(st.speeches.push(id) =~= st.speeches + seq![id]);
                    assert(speech_open_ids(evs) =~= seq![id] + speech_open_ids(rest));
                    assert(st.speeches + seq![id] + speech_open_ids(rest) =~= st.speeches + (
                    seq![id] + speech_open_ids(rest)));
                    assert(st1.voting == st.voting);
                    assert(vote_open_ids(evs) =~= vote_open_ids(rest));
                } else if name == "balsavimas"@ && req_id(attrs, "bals_id"@) is Some {
                    let id = req_id(attrs, "bals_id"@).unwrap() as int;
                    assert(st1.voting == st.voting.push(id));
                    assert(st.voting.push(id) =~= st.voting + seq![id]);
                    assert(vote_open_ids(evs) =~= seq![id] + vote_open_ids(rest));
                    assert(st.voting + seq![id] + vote_open_ids(rest) =~= st.voting + (seq![id]
                        + vote_open_ids(rest)));
                    assert(st1.speeches == st.speeches);
                    assert(speech_open_ids(evs) =~= speech_open_ids(rest));
                } else {
                    assert(st1.speeches == st.speeches);
                    assert(st1.voting == st.voting);
                    assert(speech_open_ids(evs) =~= Seq::<int>::empty() + speech_open_ids(rest));
                    assert(Seq::<int>::empty() + speech_open_ids(rest) =~= speech_open_ids(rest));
                    assert(vote_open_ids(evs) =~= Seq::<int>::empty() + vote_open_ids(rest));
                    assert(Seq::<int>::empty() + vote_open_ids(rest) =~= vote_open_ids(rest));
                }
            }
            _ => {
                assert(st1.speeches == st.speeches);
                assert(st1.voting == st.voting);
                assert(speech_open_ids(evs) =~= speech_open_ids(rest));
                assert(vote_open_ids(evs) =~= vote_open_ids(rest));
            }
        }
    }
}

/// For an agenda item whose segment opens speeches and votes, the child
/// arrays stored at the item's closing tag are exactly the identifiers of
/// the children opened between its opening and closing tags, in encounter
/// order. The starting state is any state whose pending child arrays are
/// clear, as they are at the start of a feed and after every agenda item.
pub proof fn lemma_agenda_children_recorded(
    st0: MdState,
    attrs: Seq<(Seq<char>, Seq<char>)>,
    inner: Seq<EventV>,
)
    requires
        md_agenda_segment(inner),
        req_id(attrs, "svarst_kl_stad_id"@) is Some,
        st0.speeches == Seq::<int>::empty(),
        st0.voting == Seq::<int>::empty(),
    ensures
        ({
            let evs = seq![EventV::Open { name: "darbotvarkes-klausimas"@, attrs }] + inner
                + seq![EventV::Close { name: "darbotvarkes-klausimas"@ }];
            let ws = md_writes(st0, evs);
            &&& ws.len() > 0
            &&& ws.last() matches WriteOp::WAgendaItem(a) && a.speeches == speech_open_ids(inner)
                && a.voting == vote_open_ids(inner) && a.id == req_id(
                attrs,
                "svarst_kl_stad_id"@,
            ).unwrap() as int
        }),
{
    lemma_md_names();
    let open = seq![EventV::Open { name: "darbotvarkes-klausimas"@, attrs }];
    let close = seq![EventV::Close { name: "darbotvarkes-klausimas"@ }];
    let evs = open + inner + close;
    assert(open[0] == (EventV::Open { name: "darbotvarkes-klausimas"@, attrs }));
    let st1 = md_state_step(st0, open[0]);
    assert(fault_free_prefix(open, 1));
    assert(fault_free_prefix(inner, inner.len() as int)) by {
        assert(forall|j: int| 0 <= j < inner.len() ==> md_agenda_inner_event(inner[j]));
    }
    assert(open.drop_first() =~= Seq::<EventV>::empty());
    assert(md_run(st1, Seq::<EventV>::empty()) == st1);
    assert(md_run(st0, open) == st1);
    assert(st1.agenda_item is Some);
    assert(st1.agenda_item.unwrap().id == req_id(attrs, "svarst_kl_stad_id"@).unwrap() as int);
    assert(st1.speeches =~= Seq::<int>::empty());
    assert(st1.voting =~= Seq::<int>::empty());
    lemma_agenda_arrays(st1, inner);
    let st2 = md_run(st1, inner);
    assert(st2.speeches =~= speech_open_ids(inner));
    assert(st2.voting =~= vote_open_ids(inner));
    assert(st2.agenda_item is Some);
    lemma_md_app(st0, open, inner + close);
    assert(open + (inner + close) =~= evs);
    lemma_md_app(st1, inner, close);
    let wclose = md_writes(st2, close);
    assert(wclose == md_step_writes(st2, close[0]) + md_writes(
        md_state_step(st2, close[0]),
        close.drop_first(),
    )) by {
        assert(close[0] == (EventV::Close { name: "darbotvarkes-klausimas"@ }));
    }
    assert(close.drop_first() =~= Seq::<EventV>::empty());
    assert(md_writes(md_state_step(st2, close[0]), Seq::<EventV>::empty()) == Seq::<
        WriteOp,
    >::empty());
    assert(md_step_writes(st2, close[0]) == md_close_writes(st2, "darbotvarkes-klausimas"@));
    let a = AgendaItemV { speeches: st2.speeches, voting: st2.voting, ..st2.agenda_item.unwrap() };
    assert(md_close_writes(st2, "darbotvarkes-klausimas"@) == seq![WriteOp::WAgendaItem(a)]);
    assert(wclose =~= seq![WriteOp::WAgendaItem(a)]);
    let ws = md_writes(st0, evs);
    assert(ws == md_writes(st0, open) + (md_writes(st1, inner) + wclose));
    assert(ws.len() > 0 && ws.last() == WriteOp::WAgendaItem(a)) by {
        assert((md_writes(st0, open) + (md_writes(st1, inner) + wclose)).last() == wclose.last());
        assert(wclose.last() == WriteOp::WAgendaItem(a));
    }
}

} // verus!

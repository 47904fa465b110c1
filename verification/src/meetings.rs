use vstd::prelude::*;
use crate::dates::{datetime_parse, parse_datetime};
use crate::events::{
    attr_get, attr_has, events_of, fault_free_prefix, lookup_attr, read_events, str_eq, views_of,
    EventV, RawEvent,
};
use crate::numparse::{parse_i32, parse_i32_spec};
use crate::records::{opt_id, Meetings, MeetingsV};
use crate::store::Store;
use crate::writes::{apply_writes, lemma_apply_writes_app, WriteOp};

verus! {

// The sitting feed nests `SeimoPosėdis` elements inside a `SeimoSesija`
// group tag; a sitting's record links arrive on nested `Protokolas`,
// `Stenograma` and `VaizdoĮrašas` tags and are folded into the in-progress
// record, which is stored at the sitting's closing tag.

/// The in-progress decode state: the remembered owning session and the
/// sitting record under construction.
pub struct MeetState {
    pub sid: Option<int>,
    pub meeting: Option<MeetingsV>,
}

/// The sitting row one opening tag's attributes describe under a remembered
/// session, where every required field can be read; an unreadable time falls
/// to an absent value.
pub open spec fn meeting_of_attrs(sid: Option<int>, attrs: Seq<(Seq<char>, Seq<char>)>) -> Option<
    MeetingsV,
> {
    if sid is Some && attr_has(attrs, "posėdžio_id"@) && parse_i32_spec(
        attr_get(attrs, "posėdžio_id"@).unwrap(),
    ) is Some && attr_has(attrs, "numeris"@) && parse_i32_spec(
        attr_get(attrs, "numeris"@).unwrap(),
    ) is Some && attr_has(attrs, "tipas"@) && attr_has(attrs, "pradžia"@) && attr_has(
        attrs,
        "pabaiga"@,
    ) {
        Some(
            MeetingsV {
                id: parse_i32_spec(attr_get(attrs, "posėdžio_id"@).unwrap()).unwrap() as int,
                num: parse_i32_spec(attr_get(attrs, "numeris"@).unwrap()).unwrap(),
                meeting_type: attr_get(attrs, "tipas"@).unwrap(),
                from: datetime_parse(attr_get(attrs, "pradžia"@).unwrap(), "%Y-%m-%d %H:%M"@),
                to: datetime_parse(attr_get(attrs, "pabaiga"@).unwrap(), "%Y-%m-%d %H:%M"@),
                session: sid.unwrap(),
                protocol_link: None,
                stenogram_link: None,
                video_comment: None,
                video_link: None,
            },
        )
    } else {
        None::<MeetingsV>
    }
}

/// The state one stream element leaves behind.
pub open spec fn meet_state_step(st: MeetState, ev: EventV) -> MeetState {
    match ev {
        EventV::Open { name, attrs } => {
            if name == "SeimoPosėdis"@ {
                MeetState { sid: st.sid, meeting: meeting_of_attrs(st.sid, attrs) }
            } else if name == "SeimoSesija"@ {
                MeetState {
                    sid: if attr_has(attrs, "sesijos_id"@) {
                        match parse_i32_spec(attr_get(attrs, "sesijos_id"@).unwrap()) {
                            Some(v) => Some(v as int),
                            None => None::<int>,
                        }
                    } else {
                        None::<int>
                    },
                    meeting: st.meeting,
                }
            } else if name == "Protokolas"@ {
                match st.meeting {
                    Some(m) => {
                        if attr_has(attrs, "protokolo_nuoroda"@) {
                            MeetState {
                                sid: st.sid,
                                meeting: Some(
                                    MeetingsV {
                                        protocol_link: Some(
                                            attr_get(attrs, "protokolo_nuoroda"@).unwrap(),
                                        ),
                                        ..m
                                    },
                                ),
                            }
                        } else {
                            st
                        }
                    }
                    None => st,
                }
            } else if name == "Stenograma"@ {
                match st.meeting {
                    Some(m) => {
                        if attr_has(attrs, "stenogramos_nuoroda"@) {
                            MeetState {
                                sid: st.sid,
                                meeting: Some(
                                    MeetingsV {
                                        stenogram_link: Some(
                                            attr_get(attrs, "stenogramos_nuoroda"@).unwrap(),
                                        ),
                                        ..m
                                    },
                                ),
                            }
                        } else {
                            st
                        }
                    }
                    None => st,
                }
            } else if name == "VaizdoĮrašas"@ {
                match st.meeting {
                    Some(m) => MeetState {
                        sid: st.sid,
                        meeting: Some(
                            MeetingsV {
                                video_comment: if attr_has(attrs, "komentaras"@) {
                                    Some(attr_get(attrs, "komentaras"@).unwrap())
                                } else {
                                    m.video_comment
                                },
                                video_link: if attr_has(attrs, "vaizdo_įrašo_nuoroda"@) {
                                    Some(attr_get(attrs, "vaizdo_įrašo_nuoroda"@).unwrap())
                                } else {
                                    m.video_link
                                },
                                ..m
                            },
                        ),
                    },
                    None => st,
                }
            } else {
                st
            }
        }
        EventV::Close { name } => {
            if name == "SeimoSesija"@ {
                MeetState { sid: None, meeting: st.meeting }
            } else if name == "SeimoPosėdis"@ {
                MeetState { sid: st.sid, meeting: None }
            } else {
                st
            }
        }
        _ => st,
    }
}

/// The writes one stream element causes: the in-progress sitting is stored
/// when its closing tag is observed.
pub open spec fn meet_step_writes(st: MeetState, ev: EventV) -> Seq<WriteOp> {
    match ev {
        EventV::Close { name } => {
            if name == "SeimoPosėdis"@ {
                match st.meeting {
                    Some(m) => seq![WriteOp::WMeeting(m)],
                    None => Seq::<WriteOp>::empty(),
                }
            } else {
                Seq::<WriteOp>::empty()
            }
        }
        _ => Seq::<WriteOp>::empty(),
    }
}

/// The decode state after a run of stream elements.
pub open spec fn meet_run(st: MeetState, evs: Seq<EventV>) -> MeetState
    decreases evs.len(),
{
    if evs.len() == 0 {
        st
    } else if evs[0] is Fault {
        st
    } else {
        meet_run(meet_state_step(st, evs[0]), evs.drop_first())
    }
}

/// The writes the sitting feed performs, stopping at a decode fault.
pub open spec fn meet_writes(st: MeetState, evs: Seq<EventV>) -> Seq<WriteOp>
    decreases evs.len(),
{
    if evs.len() == 0 {
        Seq::<WriteOp>::empty()
    } else if evs[0] is Fault {
        Seq::<WriteOp>::empty()
    } else {
        meet_step_writes(st, evs[0]) + meet_writes(meet_state_step(st, evs[0]), evs.drop_first())
    }
}

/// The initial decode state.
pub open spec fn meet_init() -> MeetState {
    MeetState { sid: None::<int>, meeting: None::<MeetingsV> }
}

/// The element names the sitting feed distinguishes differ pairwise.
proof fn lemma_meeting_names()
    ensures
        "SeimoPosėdis"@ != "SeimoSesija"@,
        "SeimoPosėdis"@ != "Protokolas"@,
        "SeimoPosėdis"@ != "Stenograma"@,
        "SeimoPosėdis"@ != "VaizdoĮrašas"@,
        "SeimoSesija"@ != "Protokolas"@,
        "SeimoSesija"@ != "Stenograma"@,
        "SeimoSesija"@ != "VaizdoĮrašas"@,
        "Protokolas"@ != "Stenograma"@,
        "Protokolas"@ != "VaizdoĮrašas"@,
        "Stenograma"@ != "VaizdoĮrašas"@,
{
    reveal_strlit("SeimoPosėdis");
    reveal_strlit("SeimoSesija");
    reveal_strlit("Protokolas");
    reveal_strlit("Stenograma");
    reveal_strlit("VaizdoĮrašas");
    assert("SeimoPosėdis"@.len() == 12);
    assert("SeimoSesija"@.len() == 11);
    assert("Protokolas"@.len() == 10);
    assert("Stenograma"@.len() == 10);
    assert("VaizdoĮrašas"@.len() == 12);
    assert("Protokolas"@[0] == 'P');
    assert("Stenograma"@[0] == 'S');
    assert("SeimoPosėdis"@[0] == 'S');
    assert("VaizdoĮrašas"@[0] == 'V');
}

proof fn lemma_meet_snoc(st: MeetState, evs: Seq<EventV>, i: int)
    requires
        0 <= i < evs.len(),
        fault_free_prefix(evs, i),
        !(evs[i] is Fault),
    ensures
        meet_run(st, evs.take(i + 1)) == meet_state_step(meet_run(st, evs.take(i)), evs[i]),
        meet_writes(st, evs.take(i + 1)) == meet_writes(st, evs.take(i)) + meet_step_writes(
            meet_run(st, evs.take(i)),
            evs[i],
        ),
    decreases i,
{
    if i == 0 {
        let t = evs.take(1);
        let p1 = meet_state_step(st, evs[0]);
        assert(t[0] == evs[0]);
        assert(t.drop_first() =~= evs.take(0));
        assert(evs.take(0) =~= Seq::<EventV>::empty());
        assert(meet_run(st, Seq::<EventV>::empty()) == st);
        assert(meet_run(p1, Seq::<EventV>::empty()) == p1);
        assert(meet_writes(st, Seq::<EventV>::empty()) == Seq::<WriteOp>::empty());
        assert(meet_writes(p1, Seq::<EventV>::empty()) == Seq::<WriteOp>::empty());
        assert(meet_run(st, t) == meet_run(p1, t.drop_first()));
        assert(meet_writes(st, t) == meet_step_writes(st, evs[0]) + meet_writes(
            p1,
            t.drop_first(),
        ));
        assert(meet_step_writes(st, evs[0]) + Seq::<WriteOp>::empty() =~= meet_step_writes(
            st,
            evs[0],
        ));
        assert(Seq::<WriteOp>::empty() + meet_step_writes(st, evs[0]) =~= meet_step_writes(
            st,
            evs[0],
        ));
    } else {
        let r = evs.drop_first();
        let p1 = meet_state_step(st, evs[0]);
        assert(evs.take(i + 1)[0] == evs[0]);
        assert(evs.take(i)[0] == evs[0]);
        assert(!(evs[0] is Fault));
        assert(evs.take(i + 1).drop_first() =~= r.take(i));
        assert(evs.take(i).drop_first() =~= r.take(i - 1));
        assert(fault_free_prefix(r, i - 1)) by {
            assert(forall|j: int| 0 <= j < i - 1 ==> r[j] == evs[j + 1]);
        }
        assert(r[i - 1] == evs[i]);
        lemma_meet_snoc(p1, r, i - 1);
        assert(meet_run(st, evs.take(i)) == meet_run(p1, r.take(i - 1)));
        assert(meet_run(st, evs.take(i + 1)) == meet_run(p1, r.take(i)));
        assert(meet_writes(st, evs.take(i)) == meet_step_writes(st, evs[0]) + meet_writes(
            p1,
            r.take(i - 1),
        ));
        assert(meet_writes(st, evs.take(i + 1)) == meet_step_writes(st, evs[0]) + meet_writes(
            p1,
            r.take(i),
        ));
        assert(meet_step_writes(st, evs[0]) + (meet_writes(p1, r.take(i - 1)) + meet_step_writes(
            meet_run(p1, r.take(i - 1)),
            evs[i],
        )) =~= (meet_step_writes(st, evs[0]) + meet_writes(p1, r.take(i - 1))) + meet_step_writes(
            meet_run(p1, r.take(i - 1)),
            evs[i],
        ));
    }
}

proof fn lemma_meet_fault(st: MeetState, evs: Seq<EventV>, i: int)
    requires
        0 <= i < evs.len(),
        fault_free_prefix(evs, i),
        evs[i] is Fault,
    ensures
        meet_writes(st, evs) == meet_writes(st, evs.take(i)),
    decreases i,
{
    if i == 0 {
        assert(meet_writes(st, evs.take(0)) =~= Seq::<WriteOp>::empty());
    } else {
        let r = evs.drop_first();
        assert(fault_free_prefix(r, i - 1)) by {
            assert(forall|j: int| 0 <= j < i - 1 ==> r[j] == evs[j + 1]);
        }
        assert(r[i - 1] == evs[i]);
        lemma_meet_fault(meet_state_step(st, evs[0]), r, i - 1);
        assert(evs.take(i).drop_first() =~= r.take(i - 1));
        assert(evs.take(i)[0] == evs[0]);
    }
}

/// The view of the in-progress sitting record.
pub open spec fn opt_meeting_view(m: Option<Meetings>) -> Option<MeetingsV> {
    match m {
        Some(x) => Some(x@),
        None => None,
    }
}

/// Decodes one sitting feed: every `SeimoPosėdis` element whose required
/// fields can be read is stored insert-or-update at its closing tag, with the
/// record links its nested tags carried, in document order, up to the first
/// decode fault.
pub fn parse_meetings(events: &Vec<RawEvent>, store: &mut Store)
    requires
        old(store)@.wf(),
    ensures
        final(store)@.wf(),
        final(store)@ == apply_writes(old(store)@, meet_writes(meet_init(), views_of(events@))),
{
    let ghost evs = views_of(events@);
    let ghost sv0 = old(store)@;
    let mut session_id: Option<i32> = None;
    let mut meeting: Option<Meetings> = None;
    let mut i: usize = 0;
    proof {
        assert(evs.take(0) =~= Seq::<EventV>::empty());
    }
    while i < events.len()
        invariant
            0 <= i <= events@.len(),
            evs == views_of(events@),
            evs.len() == events@.len(),
            sv0 == old(store)@,
            sv0.wf(),
            store@.wf(),
            fault_free_prefix(evs, i as int),
            opt_id(session_id) == meet_run(meet_init(), evs.take(i as int)).sid,
            opt_meeting_view(meeting) == meet_run(meet_init(), evs.take(i as int)).meeting,
            store@ == apply_writes(sv0, meet_writes(meet_init(), evs.take(i as int))),
        decreases events@.len() - i,
    {
        let ghost svb = store@;
        let ghost stb = meet_run(meet_init(), evs.take(i as int));
        let ev = &events[i];
        proof {
            assert(evs[i as int] == events@[i as int]@);
            lemma_meeting_names();
            assert(stb.sid == opt_id(session_id));
            assert(stb.meeting == opt_meeting_view(meeting));
            assert(stb == (MeetState { sid: stb.sid, meeting: stb.meeting }));
        }
        match ev {
            RawEvent::Open { name, attrs } => {
                let ghost av = crate::events::attrs_view(attrs@);
                proof {
                    assert(evs[i as int] == (EventV::Open { name: name@, attrs: av }));
                }
                if str_eq(name.as_str(), "SeimoPosėdis") {
                    meeting = None;
                    if session_id.is_some() {
                        if let Some(idt) = lookup_attr(attrs, "posėdžio_id") {
                            if let Some(id) = parse_i32(idt.as_str()) {
                                if let Some(numt) = lookup_attr(attrs, "numeris") {
                                    if let Some(num) = parse_i32(numt.as_str()) {
                                        let tp = lookup_attr(attrs, "tipas");
                                        let d1 = lookup_attr(attrs, "pradžia");
                                        let d2 = lookup_attr(attrs, "pabaiga");
                                        if tp.is_some() && d1.is_some() && d2.is_some() {
                                            meeting = Some(
                                                Meetings {
                                                    id,
                                                    num,
                                                    meeting_type: tp.unwrap(),
                                                    from: parse_datetime(
                                                        d1.unwrap().as_str(),
                                                        "%Y-%m-%d %H:%M",
                                                    ),
                                                    to: parse_datetime(
                                                        d2.unwrap().as_str(),
                                                        "%Y-%m-%d %H:%M",
                                                    ),
                                                    session: session_id.unwrap(),
                                                    protocol_link: None,
                                                    stenogram_link: None,
                                                    video_comment: None,
                                                    video_link: None,
                                                },
                                            );
                                        }
                                    }
                                }
                            }
                        }
                    }
                    proof {
                        assert(opt_meeting_view(meeting) == meeting_of_attrs(stb.sid, av));
                    }
                } else if str_eq(name.as_str(), "SeimoSesija") {
                    session_id = match lookup_attr(attrs, "sesijos_id") {
                        Some(t) => parse_i32(t.as_str()),
                        None => None,
                    };
                } else if str_eq(name.as_str(), "Protokolas") {
                    if meeting.is_some() {
                        if let Some(link) = lookup_attr(attrs, "protokolo_nuoroda") {
                            meeting = match meeting {
                                Some(mut m) => {
                                    m.protocol_link = Some(link);
                                    Some(m)
                                }
                                None => None,
                            };
                        }
                    }
                } else if str_eq(name.as_str(), "Stenograma") {
                    if meeting.is_some() {
                        if let Some(link) = lookup_attr(attrs, "stenogramos_nuoroda") {
                            meeting = match meeting {
                                Some(mut m) => {
                                    m.stenogram_link = Some(link);
                                    Some(m)
                                }
                                None => None,
                            };
                        }
                    }
                } else if str_eq(name.as_str(), "VaizdoĮrašas") {
                    if meeting.is_some() {
                        let cmt = lookup_attr(attrs, "komentaras");
                        let lnk = lookup_attr(attrs, "vaizdo_įrašo_nuoroda");
                        meeting = match meeting {
                            Some(mut m) => {
                                if cmt.is_some() {
                                    m.video_comment = cmt;
                                }
                                if lnk.is_some() {
                                    m.video_link = lnk;
                                }
                                Some(m)
                            }
                            None => None,
                        };
                    }
                }
            }
            RawEvent::Close { name } => {
                if str_eq(name.as_str(), "SeimoSesija") {
                    session_id = None;
                } else if str_eq(name.as_str(), "SeimoPosėdis") {
                    if let Some(m) = &meeting {
                        let _ = m.save(store);
                        proof {
                            assert(store@ == crate::writes::apply_write(
                                svb,
                                WriteOp::WMeeting(m@),
                            ));
                        }
                    }
                    meeting = None;
                }
            }
            RawEvent::Fault => {
                proof {
                    lemma_meet_fault(meet_init(), evs, i as int);
                }
                return ;
            }
            _ => {}
        }
        proof {
            lemma_meet_snoc(meet_init(), evs, i as int);
            lemma_apply_writes_app(
                sv0,
                meet_writes(meet_init(), evs.take(i as int)),
                meet_step_writes(stb, evs[i as int]),
            );
            let s1 = meet_step_writes(stb, evs[i as int]);
            if s1.len() == 0 {
                assert(apply_writes(svb, s1) == svb);
            } else {
                let w = s1[0];
                let sv1 = crate::writes::apply_write(svb, w);
                assert(s1.drop_first() =~= Seq::<WriteOp>::empty());
                assert(apply_writes(sv1, s1.drop_first()) == sv1);
                assert(apply_writes(svb, s1) == sv1);
            }
            assert(opt_id(session_id) == meet_state_step(stb, evs[i as int]).sid);
            assert(opt_meeting_view(meeting) == meet_state_step(stb, evs[i as int]).meeting);
        }
        i = i + 1;
    }
    proof {
        assert(evs.take(evs.len() as int) =~= evs);
    }
}

/// Decodes and stores one sitting feed text, as fetched from the sitting
/// endpoint of one session.
pub fn get_meetings(text: &str, store: &mut Store)
    requires
        old(store)@.wf(),
    ensures
        final(store)@.wf(),
        final(store)@ == apply_writes(old(store)@, meet_writes(meet_init(), events_of(text@))),
{
    let events = read_events(text);
    parse_meetings(&events, store);
}

/// Re-running one sitting feed leaves the store exactly as one run left it.
pub proof fn lemma_meetings_idempotent(sv: crate::store::StoreView, evs: Seq<EventV>)
    requires
        sv.wf(),
    ensures
        apply_writes(apply_writes(sv, meet_writes(meet_init(), evs)), meet_writes(meet_init(), evs))
            == apply_writes(sv, meet_writes(meet_init(), evs)),
{
    crate::writes::lemma_apply_writes_idempotent(sv, meet_writes(meet_init(), evs));
}

} // verus!

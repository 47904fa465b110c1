use vstd::prelude::*;
use crate::dates::{date_parse, parse_date};
use crate::events::{
    attr_get, attr_has, events_of, fault_free_prefix, lookup_attr, read_events, str_eq, views_of,
    EventV, RawEvent,
};
use crate::numparse::{parse_i32, parse_i32_spec};
use crate::records::{opt_id, Sessions, SessionsV};
use crate::store::Store;
use crate::writes::{apply_writes, lemma_apply_writes_app, WriteOp};

verus! {

// The session feed nests `SeimoSesija` elements inside a `SeimoKadencija`
// group tag; the group only scopes the owning parliament identifier, which is
// forgotten again at the group's closing tag.

/// The remembered owning parliament identifier.
pub open spec fn session_ctx_step(pid: Option<int>, ev: EventV) -> Option<int> {
    match ev {
        EventV::Open { name, attrs } => {
            if name == "SeimoKadencija"@ {
                if attr_has(attrs, "kadencijos_id"@) {
                    match parse_i32_spec(attr_get(attrs, "kadencijos_id"@).unwrap()) {
                        Some(v) => Some(v as int),
                        None => None::<int>,
                    }
                } else {
                    None::<int>
                }
            } else {
                pid
            }
        }
        EventV::Close { name } => {
            if name == "SeimoKadencija"@ {
                None::<int>
            } else {
                pid
            }
        }
        _ => pid,
    }
}

/// The session row one opening tag's attributes describe under a remembered
/// parliament, where every required field can be read.
pub open spec fn session_of_attrs(pid: Option<int>, attrs: Seq<(Seq<char>, Seq<char>)>) -> Option<
    SessionsV,
> {
    if pid is Some && attr_has(attrs, "sesijos_id"@) && parse_i32_spec(
        attr_get(attrs, "sesijos_id"@).unwrap(),
    ) is Some && attr_has(attrs, "numeris"@) && parse_i32_spec(
        attr_get(attrs, "numeris"@).unwrap(),
    ) is Some && attr_has(attrs, "pavadinimas"@) && attr_has(attrs, "data_nuo"@) && attr_has(
        attrs,
        "data_iki"@,
    ) {
        Some(
            SessionsV {
                id: parse_i32_spec(attr_get(attrs, "sesijos_id"@).unwrap()).unwrap() as int,
                num: parse_i32_spec(attr_get(attrs, "numeris"@).unwrap()).unwrap(),
                name: attr_get(attrs, "pavadinimas"@).unwrap(),
                from: date_parse(attr_get(attrs, "data_nuo"@).unwrap(), "%Y-%m-%d"@),
                to: date_parse(attr_get(attrs, "data_iki"@).unwrap(), "%Y-%m-%d"@),
                parliament: pid.unwrap(),
            },
        )
    } else {
        None::<SessionsV>
    }
}

/// The writes one stream element causes under a remembered parliament.
pub open spec fn session_step_writes(pid: Option<int>, ev: EventV) -> Seq<WriteOp> {
    match ev {
        EventV::Open { name, attrs } => {
            if name == "SeimoSesija"@ {
                match session_of_attrs(pid, attrs) {
                    Some(s) => seq![WriteOp::WSession(s)],
                    None => Seq::<WriteOp>::empty(),
                }
            } else {
                Seq::<WriteOp>::empty()
            }
        }
        _ => Seq::<WriteOp>::empty(),
    }
}

/// The remembered parliament after a run of stream elements, which stops at a
/// decode fault.
pub open spec fn session_ctx_run(pid: Option<int>, evs: Seq<EventV>) -> Option<int>
    decreases evs.len(),
{
    if evs.len() == 0 {
        pid
    } else if evs[0] is Fault {
        pid
    } else {
        session_ctx_run(session_ctx_step(pid, evs[0]), evs.drop_first())
    }
}

/// The writes the session feed performs, stopping at a decode fault.
pub open spec fn session_writes(pid: Option<int>, evs: Seq<EventV>) -> Seq<WriteOp>
    decreases evs.len(),
{
    if evs.len() == 0 {
        Seq::<WriteOp>::empty()
    } else if evs[0] is Fault {
        Seq::<WriteOp>::empty()
    } else {
        session_step_writes(pid, evs[0]) + session_writes(
            session_ctx_step(pid, evs[0]),
            evs.drop_first(),
        )
    }
}

/// The two element names the session feed distinguishes differ.
proof fn lemma_session_names()
    ensures
        "SeimoKadencija"@ != "SeimoSesija"@,
{
    reveal_strlit("SeimoKadencija");
    reveal_strlit("SeimoSesija");
    assert("SeimoKadencija"@.len() == 14);
    assert("SeimoSesija"@.len() == 11);
}

proof fn lemma_session_snoc(pid: Option<int>, evs: Seq<EventV>, i: int)
    requires
        0 <= i < evs.len(),
        fault_free_prefix(evs, i),
        !(evs[i] is Fault),
    ensures
        session_ctx_run(pid, evs.take(i + 1)) == session_ctx_step(
            session_ctx_run(pid, evs.take(i)),
            evs[i],
        ),
        session_writes(pid, evs.take(i + 1)) == session_writes(pid, evs.take(i))
            + session_step_writes(session_ctx_run(pid, evs.take(i)), evs[i]),
    decreases i,
{
    if i == 0 {
        let t = evs.take(1);
        let p1 = session_ctx_step(pid, evs[0]);
        assert(t[0] == evs[0]);
        assert(t.drop_first() =~= evs.take(0));
        assert(evs.take(0) =~= Seq::<EventV>::empty());
        assert(session_ctx_run(pid, Seq::<EventV>::empty()) == pid);
        assert(session_ctx_run(p1, Seq::<EventV>::empty()) == p1);
        assert(session_writes(pid, Seq::<EventV>::empty()) == Seq::<WriteOp>::empty());
        assert(session_writes(p1, Seq::<EventV>::empty()) == Seq::<WriteOp>::empty());
        assert(session_ctx_run(pid, t) == session_ctx_run(p1, t.drop_first()));
        assert(session_writes(pid, t) == session_step_writes(pid, evs[0]) + session_writes(
            p1,
            t.drop_first(),
        ));
        assert(session_step_writes(pid, evs[0]) + Seq::<WriteOp>::empty() =~= session_step_writes(
            pid,
            evs[0],
        ));
        assert(Seq::<WriteOp>::empty() + session_step_writes(pid, evs[0]) =~= session_step_writes(
            pid,
            evs[0],
        ));
    } else {
        let r = evs.drop_first();
        let p1 = session_ctx_step(pid, evs[0]);
        assert(evs.take(i + 1)[0] == evs[0]);
        assert(evs.take(i)[0] == evs[0]);
        assert(!(evs[0] is Fault));
        assert(evs.take(i + 1).drop_first() =~= r.take(i));
        assert(evs.take(i).drop_first() =~= r.take(i - 1));
        assert(fault_free_prefix(r, i - 1)) by {
            assert(forall|j: int| 0 <= j < i - 1 ==> r[j] == evs[j + 1]);
        }
        assert(r[i - 1] == evs[i]);
        lemma_session_snoc(p1, r, i - 1);
        assert(session_ctx_run(pid, evs.take(i)) == session_ctx_run(p1, r.take(i - 1)));
        assert(session_ctx_run(pid, evs.take(i + 1)) == session_ctx_run(p1, r.take(i)));
        assert(session_writes(pid, evs.take(i)) == session_step_writes(pid, evs[0])
            + session_writes(p1, r.take(i - 1)));
        assert(session_writes(pid, evs.take(i + 1)) == session_step_writes(pid, evs[0])
            + session_writes(p1, r.take(i)));
        assert(session_step_writes(pid, evs[0]) + (session_writes(p1, r.take(i - 1))
            + session_step_writes(session_ctx_run(p1, r.take(i - 1)), evs[i])) =~= (
        session_step_writes(pid, evs[0]) + session_writes(p1, r.take(i - 1)))
            + session_step_writes(session_ctx_run(p1, r.take(i - 1)), evs[i]));
    }
}

proof fn lemma_session_fault(pid: Option<int>, evs: Seq<EventV>, i: int)
    requires
        0 <= i < evs.len(),
        fault_free_prefix(evs, i),
        evs[i] is Fault,
    ensures
        session_writes(pid, evs) == session_writes(pid, evs.take(i)),
    decreases i,
{
    if i == 0 {
        assert(session_writes(pid, evs.take(0)) =~= Seq::<WriteOp>::empty());
    } else {
        let r = evs.drop_first();
        assert(fault_free_prefix(r, i - 1)) by {
            assert(forall|j: int| 0 <= j < i - 1 ==> r[j] == evs[j + 1]);
        }
        assert(r[i - 1] == evs[i]);
        lemma_session_fault(session_ctx_step(pid, evs[0]), r, i - 1);
        assert(evs.take(i).drop_first() =~= r.take(i - 1));
        assert(evs.take(i)[0] == evs[0]);
    }
}

/// Decodes one session feed: every well-formed `SeimoSesija` element is
/// written insert-or-update under the parliament remembered from its
/// enclosing group, in document order, up to the first decode fault.
pub fn parse_sessions(events: &Vec<RawEvent>, store: &mut Store)
    requires
        old(store)@.wf(),
    ensures
        final(store)@.wf(),
        final(store)@ == apply_writes(
            old(store)@,
            session_writes(None::<int>, views_of(events@)),
        ),
{
    let ghost evs = views_of(events@);
    let ghost sv0 = old(store)@;
    let mut parliament_id: Option<i32> = None;
    let mut i: usize = 0;
    proof {
        assert(evs.take(0) =~= Seq::<EventV>::empty());
    }
    while i < events.len()
        invariant
            0 <= i <= events@.len(),
            evs == views_of(events@),
            evs.len() == events@.len(),
            sv0 == old(store)@,
            sv0.wf(),
            store@.wf(),
            fault_free_prefix(evs, i as int),
            opt_id(parliament_id) == session_ctx_run(None::<int>, evs.take(i as int)),
            store@ == apply_writes(sv0, session_writes(None::<int>, evs.take(i as int))),
        decreases events@.len() - i,
    {
        let ghost svb = store@;
        let ghost pidb = opt_id(parliament_id);
        let ev = &events[i];
        proof {
            assert(evs[i as int] == events@[i as int]@);
            lemma_session_names();
        }
        match ev {
            RawEvent::Open { name, attrs } => {
                let ghost av = crate::events::attrs_view(attrs@);
                proof {
                    assert(evs[i as int] == (EventV::Open { name: name@, attrs: av }));
                }
                if str_eq(name.as_str(), "SeimoKadencija") {
                    parliament_id = match lookup_attr(attrs, "kadencijos_id") {
                        Some(t) => parse_i32(t.as_str()),
                        None => None,
                    };
                } else if str_eq(name.as_str(), "SeimoSesija") {
                    let mut wrote = false;
                    if parliament_id.is_some() {
                        if let Some(idt) = lookup_attr(attrs, "sesijos_id") {
                            if let Some(id) = parse_i32(idt.as_str()) {
                                if let Some(numt) = lookup_attr(attrs, "numeris") {
                                    if let Some(num) = parse_i32(numt.as_str()) {
                                        let nm = lookup_attr(attrs, "pavadinimas");
                                        let d1 = lookup_attr(attrs, "data_nuo");
                                        let d2 = lookup_attr(attrs, "data_iki");
                                        if nm.is_some() && d1.is_some() && d2.is_some() {
                                            let s = Sessions {
                                                id,
                                                num,
                                                name: nm.unwrap(),
                                                from: parse_date(d1.unwrap().as_str(), "%Y-%m-%d"),
                                                to: parse_date(d2.unwrap().as_str(), "%Y-%m-%d"),
                                                parliament: parliament_id.unwrap(),
                                            };
                                            proof {
                                                assert(session_of_attrs(pidb, av) == Some(s@));
                                            }
                                            let _ = s.save(store);
                                            wrote = true;
                                            proof {
                                                assert(store@ == crate::writes::apply_write(
                                                    svb,
                                                    WriteOp::WSession(s@),
                                                ));
                                            }
                                        }
                                    }
                                }
                            }
                        }
                    }
                    proof {
                        if !wrote {
                            assert(session_of_attrs(pidb, av) is None);
                        }
                    }
                }
            }
            RawEvent::Close { name } => {
                if str_eq(name.as_str(), "SeimoKadencija") {
                    parliament_id = None;
                }
            }
            RawEvent::Fault => {
                proof {
                    lemma_session_fault(None::<int>, evs, i as int);
                }
                return ;
            }
            _ => {}
        }
        proof {
            lemma_session_snoc(None::<int>, evs, i as int);
            lemma_apply_writes_app(
                sv0,
                session_writes(None::<int>, evs.take(i as int)),
                session_step_writes(pidb, evs[i as int]),
            );
            let s1 = session_step_writes(pidb, evs[i as int]);
            if s1.len() == 0 {
                assert(apply_writes(svb, s1) == svb);
            } else {
                let w = s1[0];
                let sv1 = crate::writes::apply_write(svb, w);
                assert(s1.drop_first() =~= Seq::<WriteOp>::empty());
                assert(apply_writes(sv1, s1.drop_first()) == sv1);
                assert(apply_writes(svb, s1) == sv1);
            }
            assert(opt_id(parliament_id) == session_ctx_step(pidb, evs[i as int]));
        }
        i = i + 1;
    }
    proof {
        assert(evs.take(evs.len() as int) =~= evs);
    }
}

/// Decodes and stores one session feed text, as fetched from the session
/// endpoint of one parliament.
pub fn get_sessions(text: &str, store: &mut Store)
    requires
        old(store)@.wf(),
    ensures
        final(store)@.wf(),
        final(store)@ == apply_writes(
            old(store)@,
            session_writes(None::<int>, events_of(text@)),
        ),
{
    let events = read_events(text);
    parse_sessions(&events, store);
}

/// Re-running one session feed leaves the store exactly as one run left it.
pub proof fn lemma_sessions_idempotent(sv: crate::store::StoreView, evs: Seq<EventV>)
    requires
        sv.wf(),
    ensures
        apply_writes(
            apply_writes(sv, session_writes(None::<int>, evs)),
            session_writes(None::<int>, evs),
        ) == apply_writes(sv, session_writes(None::<int>, evs)),
{
    crate::writes::lemma_apply_writes_idempotent(sv, session_writes(None::<int>, evs));
}

} // verus!

use vstd::prelude::*;
use crate::events::{
    attr_get, attr_has, events_of, fault_free_prefix, lookup_attr, read_events, str_eq, views_of,
    EventV, RawEvent,
};
use crate::numparse::{parse_i32, parse_i32_spec};
use crate::records::{opt_id, RegistrationData, RegistrationDataV};
use crate::store::Store;
use crate::writes::{apply_writes, lemma_apply_writes_app, WriteOp};

verus! {

// The registration feed nests one `IndividualusRegistracijosRezultatas`
// element per person inside a `SeimoNariųRegistracija` group tag that scopes
// the roll-call event's identifier.

/// The presence a result text denotes: yes, no, or unknown.
pub open spec fn registered_of_text(t: Seq<char>) -> Option<bool> {
    if t == "Ne"@ {
        Some(false)
    } else if t == "Taip"@ {
        Some(true)
    } else {
        None::<bool>
    }
}

/// The remembered roll-call-event identifier.
pub open spec fn reg_ctx_step(vid: Option<int>, ev: EventV) -> Option<int> {
    match ev {
        EventV::Open { name, attrs } => {
            if name == "SeimoNariųRegistracija"@ {
                if attr_has(attrs, "registracijos_id"@) {
                    match parse_i32_spec(attr_get(attrs, "registracijos_id"@).unwrap()) {
                        Some(v) => Some(v as int),
                        None => None::<int>,
                    }
                } else {
                    None::<int>
                }
            } else {
                vid
            }
        }
        EventV::Close { name } => {
            if name == "SeimoNariųRegistracija"@ {
                None::<int>
            } else {
                vid
            }
        }
        _ => vid,
    }
}

/// The per-person registration row one opening tag's attributes describe
/// under a remembered roll-call event, where every required field can be
/// read.
pub open spec fn reg_data_of_attrs(vid: Option<int>, attrs: Seq<(Seq<char>, Seq<char>)>) -> Option<
    RegistrationDataV,
> {
    if vid is Some && attr_has(attrs, "asmens_id"@) && parse_i32_spec(
        attr_get(attrs, "asmens_id"@).unwrap(),
    ) is Some && attr_has(attrs, "ar_registravosi"@) {
        Some(
            RegistrationDataV {
                id: vid.unwrap(),
                person_id: parse_i32_spec(attr_get(attrs, "asmens_id"@).unwrap()).unwrap() as int,
                registered: registered_of_text(attr_get(attrs, "ar_registravosi"@).unwrap()),
            },
        )
    } else {
        None::<RegistrationDataV>
    }
}

/// The writes one stream element causes under a remembered roll-call event.
pub open spec fn reg_step_writes(vid: Option<int>, ev: EventV) -> Seq<WriteOp> {
    match ev {
        EventV::Open { name, attrs } => {
            if name == "IndividualusRegistracijosRezultatas"@ {
                match reg_data_of_attrs(vid, attrs) {
                    Some(v) => seq![WriteOp::WRegistrationData(v)],
                    None => Seq::<WriteOp>::empty(),
                }
            } else {
                Seq::<WriteOp>::empty()
            }
        }
        _ => Seq::<WriteOp>::empty(),
    }
}

/// The remembered roll-call event after a run of stream elements.
pub open spec fn reg_ctx_run(vid: Option<int>, evs: Seq<EventV>) -> Option<int>
    decreases evs.len(),
{
    if evs.len() == 0 {
        vid
    } else if evs[0] is Fault {
        vid
    } else {
        reg_ctx_run(reg_ctx_step(vid, evs[0]), evs.drop_first())
    }
}

/// The writes the registration feed performs, stopping at a decode fault.
pub open spec fn reg_writes(vid: Option<int>, evs: Seq<EventV>) -> Seq<WriteOp>
    decreases evs.len(),
{
    if evs.len() == 0 {
        Seq::<WriteOp>::empty()
    } else if evs[0] is Fault {
        Seq::<WriteOp>::empty()
    } else {
        reg_step_writes(vid, evs[0]) + reg_writes(reg_ctx_step(vid, evs[0]), evs.drop_first())
    }
}

/// The two element names the registration feed distinguishes differ.
proof fn lemma_reg_names()
    ensures
        "SeimoNariųRegistracija"@ != "IndividualusRegistracijosRezultatas"@,
{
    reveal_strlit("SeimoNariųRegistracija");
    reveal_strlit("IndividualusRegistracijosRezultatas");
    assert("SeimoNariųRegistracija"@.len() == 22);
    assert("IndividualusRegistracijosRezultatas"@.len() == 35);
}

proof fn lemma_reg_snoc(vid: Option<int>, evs: Seq<EventV>, i: int)
    requires
        0 <= i < evs.len(),
        fault_free_prefix(evs, i),
        !(evs[i] is Fault),
    ensures
        reg_ctx_run(vid, evs.take(i + 1)) == reg_ctx_step(reg_ctx_run(vid, evs.take(i)), evs[i]),
        reg_writes(vid, evs.take(i + 1)) == reg_writes(vid, evs.take(i)) + reg_step_writes(
            reg_ctx_run(vid, evs.take(i)),
            evs[i],
        ),
    decreases i,
{
    if i == 0 {
        let t = evs.take(1);
        let p1 = reg_ctx_step(vid, evs[0]);
        assert(t[0] == evs[0]);
        assert(t.drop_first() =~= evs.take(0));
        assert(evs.take(0) =~= Seq::<EventV>::empty());
        assert(reg_ctx_run(vid, Seq::<EventV>::empty()) == vid);
        assert(reg_ctx_run(p1, Seq::<EventV>::empty()) == p1);
        assert(reg_writes(vid, Seq::<EventV>::empty()) == Seq::<WriteOp>::empty());
        assert(reg_writes(p1, Seq::<EventV>::empty()) == Seq::<WriteOp>::empty());
        assert(reg_ctx_run(vid, t) == reg_ctx_run(p1, t.drop_first()));
        assert(reg_writes(vid, t) == reg_step_writes(vid, evs[0]) + reg_writes(
            p1,
            t.drop_first(),
        ));
        assert(reg_step_writes(vid, evs[0]) + Seq::<WriteOp>::empty() =~= reg_step_writes(
            vid,
            evs[0],
        ));
        assert(Seq::<WriteOp>::empty() + reg_step_writes(vid, evs[0]) =~= reg_step_writes(
            vid,
            evs[0],
        ));
    } else {
        let r = evs.drop_first();
        let p1 = reg_ctx_step(vid, evs[0]);
        assert(evs.take(i + 1)[0] == evs[0]);
        assert(evs.take(i)[0] == evs[0]);
        assert(!(evs[0] is Fault));
        assert(evs.take(i + 1).drop_first() =~= r.take(i));
        assert(evs.take(i).drop_first() =~= r.take(i - 1));
        assert(fault_free_prefix(r, i - 1)) by {
            assert(forall|j: int| 0 <= j < i - 1 ==> r[j] == evs[j + 1]);
        }
        assert(r[i - 1] == evs[i]);
        lemma_reg_snoc(p1, r, i - 1);
        assert(reg_ctx_run(vid, evs.take(i)) == reg_ctx_run(p1, r.take(i - 1)));
        assert(reg_ctx_run(vid, evs.take(i + 1)) == reg_ctx_run(p1, r.take(i)));
        assert(reg_writes(vid, evs.take(i)) == reg_step_writes(vid, evs[0]) + reg_writes(
            p1,
            r.take(i - 1),
        ));
        assert(reg_writes(vid, evs.take(i + 1)) == reg_step_writes(vid, evs[0]) + reg_writes(
            p1,
            r.take(i),
        ));
        assert(reg_step_writes(vid, evs[0]) + (reg_writes(p1, r.take(i - 1)) + reg_step_writes(
            reg_ctx_run(p1, r.take(i - 1)),
            evs[i],
        )) =~= (reg_step_writes(vid, evs[0]) + reg_writes(p1, r.take(i - 1))) + reg_step_writes(
            reg_ctx_run(p1, r.take(i - 1)),
            evs[i],
        ));
    }
}

proof fn lemma_reg_fault(vid: Option<int>, evs: Seq<EventV>, i: int)
    requires
        0 <= i < evs.len(),
        fault_free_prefix(evs, i),
        evs[i] is Fault,
    ensures
        reg_writes(vid, evs) == reg_writes(vid, evs.take(i)),
    decreases i,
{
    if i == 0 {
        assert(reg_writes(vid, evs.take(0)) =~= Seq::<WriteOp>::empty());
    } else {
        let r = evs.drop_first();
        assert(fault_free_prefix(r, i - 1)) by {
            assert(forall|j: int| 0 <= j < i - 1 ==> r[j] == evs[j + 1]);
        }
        assert(r[i - 1] == evs[i]);
        lemma_reg_fault(reg_ctx_step(vid, evs[0]), r, i - 1);
        assert(evs.take(i).drop_first() =~= r.take(i - 1));
        assert(evs.take(i)[0] == evs[0]);
    }
}

/// Decodes one registration feed: every well-formed per-person result is
/// written insert-or-update under the remembered roll-call event, in
/// document order, up to the first decode fault.
pub fn parse_registration_data(events: &Vec<RawEvent>, store: &mut Store)
    requires
        old(store)@.wf(),
    ensures
        final(store)@.wf(),
        final(store)@ == apply_writes(old(store)@, reg_writes(None::<int>, views_of(events@))),
{
    let ghost evs = views_of(events@);
    let ghost sv0 = old(store)@;
    let mut registration_id: Option<i32> = None;
    let mut i: usize = 0;
    proof {
        assert(evs.take(0) =~= Seq::<EventV>::empty());
    }
    while i < events.len()
        invariant
            0 <= i <= events@.len(),
            evs == views_of(events@),
            evs.len() == events@.len(),
            sv0 == old(store)@,
            sv0.wf(),
            store@.wf(),
            fault_free_prefix(evs, i as int),
            opt_id(registration_id) == reg_ctx_run(None::<int>, evs.take(i as int)),
            store@ == apply_writes(sv0, reg_writes(None::<int>, evs.take(i as int))),
        decreases events@.len() - i,
    {
        let ghost svb = store@;
        let ghost vidb = opt_id(registration_id);
        let ev = &events[i];
        proof {
            assert(evs[i as int] == events@[i as int]@);
            lemma_reg_names();
        }
        match ev {
            RawEvent::Open { name, attrs } => {
                let ghost av = crate::events::attrs_view(attrs@);
                proof {
                    assert(evs[i as int] == (EventV::Open { name: name@, attrs: av }));
                }
                if str_eq(name.as_str(), "SeimoNariųRegistracija") {
                    registration_id = match lookup_attr(attrs, "registracijos_id") {
                        Some(t) => parse_i32(t.as_str()),
                        None => None,
                    };
                } else if str_eq(name.as_str(), "IndividualusRegistracijosRezultatas") {
                    let mut wrote = false;
                    if registration_id.is_some() {
                        if let Some(pt) = lookup_attr(attrs, "asmens_id") {
                            if let Some(person_id) = parse_i32(pt.as_str()) {
                                if let Some(how) = lookup_attr(attrs, "ar_registravosi") {
                                    let registered: Option<bool> = if str_eq(how.as_str(), "Ne") {
                                        Some(false)
                                    } else if str_eq(how.as_str(), "Taip") {
                                        Some(true)
                                    } else {
                                        None
                                    };
                                    let rd = RegistrationData {
                                        id: registration_id.unwrap(),
                                        person_id,
                                        registered,
                                    };
                                    proof {
                                        assert(reg_data_of_attrs(vidb, av) == Some(rd@));
                                    }
                                    let _ = rd.save(store);
                                    wrote = true;
                                    proof {
                                        assert(store@ == crate::writes::apply_write(
                                            svb,
                                            WriteOp::WRegistrationData(rd@),
                                        ));
                                    }
                                }
                            }
                        }
                    }
                    proof {
                        if !wrote {
                            assert(reg_data_of_attrs(vidb, av) is None);
                        }
                    }
                }
            }
            RawEvent::Close { name } => {
                if str_eq(name.as_str(), "SeimoNariųRegistracija") {
                    registration_id = None;
                }
            }
            RawEvent::Fault => {
                proof {
                    lemma_reg_fault(None::<int>, evs, i as int);
                }
                return ;
            }
            _ => {}
        }
        proof {
            lemma_reg_snoc(None::<int>, evs, i as int);
            lemma_apply_writes_app(
                sv0,
                reg_writes(None::<int>, evs.take(i as int)),
                reg_step_writes(vidb, evs[i as int]),
            );
            let s1 = reg_step_writes(vidb, evs[i as int]);
            if s1.len() == 0 {
                assert(apply_writes(svb, s1) == svb);
            } else {
                let w = s1[0];
                let sv1 = crate::writes::apply_write(svb, w);
                assert(s1.drop_first() =~= Seq::<WriteOp>::empty());
                assert(apply_writes(sv1, s1.drop_first()) == sv1);
                assert(apply_writes(svb, s1) == sv1);
            }
            assert(opt_id(registration_id) == reg_ctx_step(vidb, evs[i as int]));
        }
        i = i + 1;
    }
    proof {
        assert(evs.take(evs.len() as int) =~= evs);
    }
}

/// Decodes and stores one registration feed text, as fetched from the
/// registration endpoint of one roll-call event.
pub fn get_registration_data(text: &str, store: &mut Store)
    requires
        old(store)@.wf(),
    ensures
        final(store)@.wf(),
        final(store)@ == apply_writes(old(store)@, reg_writes(None::<int>, events_of(text@))),
{
    let events = read_events(text);
    parse_registration_data(&events, store);
}

/// Re-running one registration feed leaves the store exactly as one run left
/// it.
pub proof fn lemma_registration_data_idempotent(sv: crate::store::StoreView, evs: Seq<EventV>)
    requires
        sv.wf(),
    ensures
        apply_writes(apply_writes(sv, reg_writes(None::<int>, evs)), reg_writes(None::<int>, evs))
            == apply_writes(sv, reg_writes(None::<int>, evs)),
{
    crate::writes::lemma_apply_writes_idempotent(sv, reg_writes(None::<int>, evs));
}

} // verus!

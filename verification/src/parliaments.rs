use vstd::prelude::*;
use crate::dates::{date_parse, parse_date};
use crate::events::{
    attr_get, attr_has, events_of, fault_free_prefix, lookup_attr, read_events, str_eq, views_of,
    EventV, RawEvent,
};
use crate::numparse::{parse_i32, parse_i32_spec};
use crate::records::{Parliament, ParliamentV};
use crate::store::Store;
use crate::writes::{apply_writes, lemma_apply_writes_app, WriteOp};

verus! {

// The term feed is a flat list of `SeimoKadencija` elements; each well-formed
// one yields one insert-or-ignore parliament write.

/// The parliament row one opening tag's attributes describe, where every
/// required field can be read; a record with an unreadable required field is
/// dropped, and an unreadable date falls to an absent value.
pub open spec fn parliament_of_attrs(attrs: Seq<(Seq<char>, Seq<char>)>) -> Option<ParliamentV> {
    if attr_has(attrs, "kadencijos_id"@) && parse_i32_spec(
        attr_get(attrs, "kadencijos_id"@).unwrap(),
    ) is Some && attr_has(attrs, "pavadinimas"@) && attr_has(attrs, "data_nuo"@) && attr_has(
        attrs,
        "data_iki"@,
    ) {
        Some(
            ParliamentV {
                id: parse_i32_spec(attr_get(attrs, "kadencijos_id"@).unwrap()).unwrap() as int,
                name: Some(attr_get(attrs, "pavadinimas"@).unwrap()),
                from: date_parse(attr_get(attrs, "data_nuo"@).unwrap(), "%Y-%m-%d"@),
                to: date_parse(attr_get(attrs, "data_iki"@).unwrap(), "%Y-%m-%d"@),
            },
        )
    } else {
        None::<ParliamentV>
    }
}

/// The writes one stream element causes.
pub open spec fn parliament_step(ev: EventV) -> Seq<WriteOp> {
    match ev {
        EventV::Open { name, attrs } => {
            if name == "SeimoKadencija"@ {
                match parliament_of_attrs(attrs) {
                    Some(p) => seq![WriteOp::WParliament(p)],
                    None => Seq::<WriteOp>::empty(),
                }
            } else {
                Seq::<WriteOp>::empty()
            }
        }
        _ => Seq::<WriteOp>::empty(),
    }
}

/// The writes the term feed performs, stopping at a decode fault.
pub open spec fn parliament_writes(evs: Seq<EventV>) -> Seq<WriteOp>
    decreases evs.len(),
{
    if evs.len() == 0 {
        Seq::<WriteOp>::empty()
    } else if evs[0] is Fault {
        Seq::<WriteOp>::empty()
    } else {
        parliament_step(evs[0]) + parliament_writes(evs.drop_first())
    }
}

proof fn lemma_parliament_writes_snoc(evs: Seq<EventV>, i: int)
    requires
        0 <= i < evs.len(),
        fault_free_prefix(evs, i),
        !(evs[i] is Fault),
    ensures
        parliament_writes(evs.take(i + 1)) == parliament_writes(evs.take(i)) + parliament_step(
            evs[i],
        ),
    decreases i,
{
    if i == 0 {
        let t = evs.take(1);
        assert(t[0] == evs[0]);
        assert(t.drop_first() =~= evs.take(0));
        assert(parliament_writes(evs.take(0)) =~= Seq::<WriteOp>::empty());
        assert(parliament_writes(t) == parliament_step(evs[0]) + parliament_writes(evs.take(0)));
        assert(parliament_step(evs[0]) + Seq::<WriteOp>::empty() =~= parliament_step(evs[0]));
        assert(Seq::<WriteOp>::empty() + parliament_step(evs[0]) =~= parliament_step(evs[0]));
    } else {
        let r = evs.drop_first();
        assert(evs.take(i + 1)[0] == evs[0]);
        assert(evs.take(i)[0] == evs[0]);
        assert(!(evs[0] is Fault));
        assert(evs.take(i + 1).drop_first() =~= r.take(i));
        assert(evs.take(i).drop_first() =~= r.take(i - 1));
        assert(fault_free_prefix(r, i - 1)) by {
            assert(forall|j: int| 0 <= j < i - 1 ==> r[j] == evs[j + 1]);
        }
        assert(r[i - 1] == evs[i]);
        lemma_parliament_writes_snoc(r, i - 1);
        assert(parliament_writes(evs.take(i + 1)) == parliament_step(evs[0]) + (
        parliament_writes(r.take(i - 1)) + parliament_step(evs[i])));
        assert(parliament_step(evs[0]) + (parliament_writes(r.take(i - 1)) + parliament_step(
            evs[i],
        )) =~= (parliament_step(evs[0]) + parliament_writes(r.take(i - 1))) + parliament_step(
            evs[i],
        ));
    }
}

proof fn lemma_parliament_writes_fault(evs: Seq<EventV>, i: int)
    requires
        0 <= i < evs.len(),
        fault_free_prefix(evs, i),
        evs[i] is Fault,
    ensures
        parliament_writes(evs) == parliament_writes(evs.take(i)),
    decreases i,
{
    if i == 0 {
        assert(parliament_writes(evs.take(0)) =~= Seq::<WriteOp>::empty());
    } else {
        let r = evs.drop_first();
        assert(fault_free_prefix(r, i - 1)) by {
            assert(forall|j: int| 0 <= j < i - 1 ==> r[j] == evs[j + 1]);
        }
        assert(r[i - 1] == evs[i]);
        lemma_parliament_writes_fault(r, i - 1);
        assert(evs.take(i).drop_first() =~= r.take(i - 1));
        assert(evs.take(i)[0] == evs[0]);
    }
}

/// Decodes one term feed: every well-formed `SeimoKadencija` element is
/// written insert-or-ignore, in document order, up to the first decode fault.
pub fn parse_parliaments(events: &Vec<RawEvent>, store: &mut Store)
    requires
        old(store)@.wf(),
    ensures
        final(store)@.wf(),
        final(store)@ == apply_writes(old(store)@, parliament_writes(views_of(events@))),
{
    let ghost evs = views_of(events@);
    let ghost sv0 = old(store)@;
    let mut i: usize = 0;
    proof {
        assert(evs.take(0) =~= Seq::<EventV>::empty());
    }
    while i < events.len()
        invariant
            0 <= i <= events@.len(),
            evs == views_of(events@),
            evs.len() == events@.len(),
            sv0 == old(store)@,
            sv0.wf(),
            store@.wf(),
            fault_free_prefix(evs, i as int),
            store@ == apply_writes(sv0, parliament_writes(evs.take(i as int))),
        decreases events@.len() - i,
    {
        let ghost svb = store@;
        let ev = &events[i];
        proof {
            assert(evs[i as int] == events@[i as int]@);
        }
        match ev {
            RawEvent::Open { name, attrs } => {
                let ghost av = crate::events::attrs_view(attrs@);
                proof {
                    assert(evs[i as int] == (EventV::Open { name: name@, attrs: av }));
                }
                if str_eq(name.as_str(), "SeimoKadencija") {
                    let mut wrote = false;
                    if let Some(idt) = lookup_attr(attrs, "kadencijos_id") {
                        if let Some(id) = parse_i32(idt.as_str()) {
                            let nm = lookup_attr(attrs, "pavadinimas");
                            let d1 = lookup_attr(attrs, "data_nuo");
                            let d2 = lookup_attr(attrs, "data_iki");
                            if nm.is_some() && d1.is_some() && d2.is_some() {
                                let p = Parliament {
                                    id,
                                    name: nm,
                                    from: parse_date(d1.unwrap().as_str(), "%Y-%m-%d"),
                                    to: parse_date(d2.unwrap().as_str(), "%Y-%m-%d"),
                                };
                                proof {
                                    assert(parliament_of_attrs(av) == Some(p@));
                                }
                                let _ = p.save(store);
                                wrote = true;
                                proof {
                                    assert(store@ == crate::writes::apply_write(
                                        svb,
                                        WriteOp::WParliament(p@),
                                    ));
                                }
                            }
                        }
                    }
                    proof {
                        if !wrote {
                            assert(parliament_of_attrs(av) is None);
                            assert(parliament_step(evs[i as int]) =~= Seq::<WriteOp>::empty());
                        }
                    }
                }
            }
            RawEvent::Fault => {
                proof {
                    lemma_parliament_writes_fault(evs, i as int);
                }
                return ;
            }
            _ => {}
        }
        proof {
            lemma_parliament_writes_snoc(evs, i as int);
            lemma_apply_writes_app(
                sv0,
                parliament_writes(evs.take(i as int)),
                parliament_step(evs[i as int]),
            );
            let s1 = parliament_step(evs[i as int]);
            if s1.len() == 0 {
                assert(apply_writes(svb, s1) == svb);
            } else {
                let w = s1[0];
                let sv1 = crate::writes::apply_write(svb, w);
                assert(s1.drop_first() =~= Seq::<WriteOp>::empty());
                assert(apply_writes(sv1, s1.drop_first()) == sv1);
                assert(apply_writes(svb, s1) == sv1);
            }
        }
        i = i + 1;
    }
    proof {
        assert(evs.take(evs.len() as int) =~= evs);
    }
}

/// Decodes and stores one term feed text, as fetched from the term list
/// endpoint.
pub fn get_parliaments(text: &str, store: &mut Store)
    requires
        old(store)@.wf(),
    ensures
        final(store)@.wf(),
        final(store)@ == apply_writes(old(store)@, parliament_writes(events_of(text@))),
{
    let events = read_events(text);
    parse_parliaments(&events, store);
}

/// Re-running one term feed leaves the store exactly as one run left it.
pub proof fn lemma_parliaments_idempotent(sv: crate::store::StoreView, evs: Seq<EventV>)
    requires
        sv.wf(),
    ensures
        apply_writes(apply_writes(sv, parliament_writes(evs)), parliament_writes(evs))
            == apply_writes(sv, parliament_writes(evs)),
{
    crate::writes::lemma_apply_writes_idempotent(sv, parliament_writes(evs));
}

} // verus!

use vstd::prelude::*;
use crate::events::{
    attr_get, attr_has, events_of, fault_free_prefix, lookup_attr, read_events, str_eq, views_of,
    EventV, RawEvent,
};
use crate::numparse::{parse_i32, parse_i32_spec};
use crate::records::{opt_id, VoteData, VoteDataV, VoteType};
use crate::store::Store;
use crate::writes::{apply_writes, lemma_apply_writes_app, WriteOp};

verus! {

// The vote-result feed nests one `IndividualusBalsavimoRezultatas` element
// per person inside a `SeimoNariųBalsavimas` group tag that scopes the voting
// event's identifier.

/// The choice a result text denotes.
pub open spec fn vote_of_text(t: Seq<char>) -> Option<VoteType> {
    if t == "Už"@ {
        Some(VoteType::For)
    } else if t == "Prieš"@ {
        Some(VoteType::Against)
    } else if t == "Susilaikė"@ {
        Some(VoteType::Abstain)
    } else {
        None::<VoteType>
    }
}

/// The remembered voting-event identifier.
pub open spec fn vote_ctx_step(vid: Option<int>, ev: EventV) -> Option<int> {
    match ev {
        EventV::Open { name, attrs } => {
            if name == "SeimoNariųBalsavimas"@ {
                if attr_has(attrs, "balsavimo_id"@) {
                    match parse_i32_spec(attr_get(attrs, "balsavimo_id"@).unwrap()) {
                        Some(v) => Some(v as int),
                        None => None::<int>,
                    }
                } else {
                    None::<int>
                }
            } else {
                vid
            }
        }
        EventV::Close { name } => {
            if name == "SeimoNariųBalsavimas"@ {
                None::<int>
            } else {
                vid
            }
        }
        _ => vid,
    }
}

/// The per-person vote row one opening tag's attributes describe under a
/// remembered voting event, where every required field can be read.
pub open spec fn vote_data_of_attrs(vid: Option<int>, attrs: Seq<(Seq<char>, Seq<char>)>) -> Option<
    VoteDataV,
> {
    if vid is Some && attr_has(attrs, "asmens_id"@) && parse_i32_spec(
        attr_get(attrs, "asmens_id"@).unwrap(),
    ) is Some && attr_has(attrs, "kaip_balsavo"@) {
        Some(
            VoteDataV {
                id: vid.unwrap(),
                person_id: parse_i32_spec(attr_get(attrs, "asmens_id"@).unwrap()).unwrap() as int,
                vote: vote_of_text(attr_get(attrs, "kaip_balsavo"@).unwrap()),
            },
        )
    } else {
        None::<VoteDataV>
    }
}

/// The writes one stream element causes under a remembered voting event.
pub open spec fn vote_step_writes(vid: Option<int>, ev: EventV) -> Seq<WriteOp> {
    match ev {
        EventV::Open { name, attrs } => {
            if name == "IndividualusBalsavimoRezultatas"@ {
                match vote_data_of_attrs(vid, attrs) {
                    Some(v) => seq![WriteOp::WVoteData(v)],
                    None => Seq::<WriteOp>::empty(),
                }
            } else {
                Seq::<WriteOp>::empty()
            }
        }
        _ => Seq::<WriteOp>::empty(),
    }
}

/// The remembered voting event after a run of stream elements.
pub open spec fn vote_ctx_run(vid: Option<int>, evs: Seq<EventV>) -> Option<int>
    decreases evs.len(),
{
    if evs.len() == 0 {
        vid
    } else if evs[0] is Fault {
        vid
    } else {
        vote_ctx_run(vote_ctx_step(vid, evs[0]), evs.drop_first())
    }
}

/// The writes the vote-result feed performs, stopping at a decode fault.
pub open spec fn vote_writes(vid: Option<int>, evs: Seq<EventV>) -> Seq<WriteOp>
    decreases evs.len(),
{
    if evs.len() == 0 {
        Seq::<WriteOp>::empty()
    } else if evs[0] is Fault {
        Seq::<WriteOp>::empty()
    } else {
        vote_step_writes(vid, evs[0]) + vote_writes(vote_ctx_step(vid, evs[0]), evs.drop_first())
    }
}

/// The two element names the vote-result feed distinguishes differ.
proof fn lemma_vote_names()
    ensures
        "SeimoNariųBalsavimas"@ != "IndividualusBalsavimoRezultatas"@,
{
    reveal_strlit("SeimoNariųBalsavimas");
    reveal_strlit("IndividualusBalsavimoRezultatas");
    assert("SeimoNariųBalsavimas"@.len() == 20);
    assert("IndividualusBalsavimoRezultatas"@.len() == 31);
}

proof fn lemma_vote_snoc(vid: Option<int>, evs: Seq<EventV>, i: int)
    requires
        0 <= i < evs.len(),
        fault_free_prefix(evs, i),
        !(evs[i] is Fault),
    ensures
        vote_ctx_run(vid, evs.take(i + 1)) == vote_ctx_step(vote_ctx_run(vid, evs.take(i)), evs[i]),
        vote_writes(vid, evs.take(i + 1)) == vote_writes(vid, evs.take(i)) + vote_step_writes(
            vote_ctx_run(vid, evs.take(i)),
            evs[i],
        ),
    decreases i,
{
    if i == 0 {
        let t = evs.take(1);
        let p1 = vote_ctx_step(vid, evs[0]);
        assert(t[0] == evs[0]);
        assert(t.drop_first() =~= evs.take(0));
        assert(evs.take(0) =~= Seq::<EventV>::empty());
        assert(vote_ctx_run(vid, Seq::<EventV>::empty()) == vid);
        assert(vote_ctx_run(p1, Seq::<EventV>::empty()) == p1);
        assert(vote_writes(vid, Seq::<EventV>::empty()) == Seq::<WriteOp>::empty());
        assert(vote_writes(p1, Seq::<EventV>::empty()) == Seq::<WriteOp>::empty());
        assert(vote_ctx_run(vid, t) == vote_ctx_run(p1, t.drop_first()));
        assert(vote_writes(vid, t) == vote_step_writes(vid, evs[0]) + vote_writes(
            p1,
            t.drop_first(),
        ));
        assert(vote_step_writes(vid, evs[0]) + Seq::<WriteOp>::empty() =~= vote_step_writes(
            vid,
            evs[0],
        ));
        assert(Seq::<WriteOp>::empty() + vote_step_writes(vid, evs[0]) =~= vote_step_writes(
            vid,
            evs[0],
        ));
    } else {
        let r = evs.drop_first();
        let p1 = vote_ctx_step(vid, evs[0]);
        assert(evs.take(i + 1)[0] == evs[0]);
        assert(evs.take(i)[0] == evs[0]);
        assert(!(evs[0] is Fault));
        assert(evs.take(i + 1).drop_first() =~= r.take(i));
        assert(evs.take(i).drop_first() =~= r.take(i - 1));
        assert(fault_free_prefix(r, i - 1)) by {
            assert(forall|j: int| 0 <= j < i - 1 ==> r[j] == evs[j + 1]);
        }
        assert(r[i - 1] == evs[i]);
        lemma_vote_snoc(p1, r, i - 1);
        assert(vote_ctx_run(vid, evs.take(i)) == vote_ctx_run(p1, r.take(i - 1)));
        assert(vote_ctx_run(vid, evs.take(i + 1)) == vote_ctx_run(p1, r.take(i)));
        assert(vote_writes(vid, evs.take(i)) == vote_step_writes(vid, evs[0]) + vote_writes(
            p1,
            r.take(i - 1),
        ));
        assert(vote_writes(vid, evs.take(i + 1)) == vote_step_writes(vid, evs[0]) + vote_writes(
            p1,
            r.take(i),
        ));
        assert(vote_step_writes(vid, evs[0]) + (vote_writes(p1, r.take(i - 1)) + vote_step_writes(
            vote_ctx_run(p1, r.take(i - 1)),
            evs[i],
        )) =~= (vote_step_writes(vid, evs[0]) + vote_writes(p1, r.take(i - 1))) + vote_step_writes(
            vote_ctx_run(p1, r.take(i - 1)),
            evs[i],
        ));
    }
}

proof fn lemma_vote_fault(vid: Option<int>, evs: Seq<EventV>, i: int)
    requires
        0 <= i < evs.len(),
        fault_free_prefix(evs, i),
        evs[i] is Fault,
    ensures
        vote_writes(vid, evs) == vote_writes(vid, evs.take(i)),
    decreases i,
{
    if i == 0 {
        assert(vote_writes(vid, evs.take(0)) =~= Seq::<WriteOp>::empty());
    } else {
        let r = evs.drop_first();
        assert(fault_free_prefix(r, i - 1)) by {
            assert(forall|j: int| 0 <= j < i - 1 ==> r[j] == evs[j + 1]);
        }
        assert(r[i - 1] == evs[i]);
        lemma_vote_fault(vote_ctx_step(vid, evs[0]), r, i - 1);
        assert(evs.take(i).drop_first() =~= r.take(i - 1));
        assert(evs.take(i)[0] == evs[0]);
    }
}

/// Decodes one vote-result feed: every well-formed per-person result is
/// written insert-or-update under the remembered voting event, in document
/// order, up to the first decode fault.
pub fn parse_voting_data(events: &Vec<RawEvent>, store: &mut Store)
    requires
        old(store)@.wf(),
    ensures
        final(store)@.wf(),
        final(store)@ == apply_writes(old(store)@, vote_writes(None::<int>, views_of(events@))),
{
    let ghost evs = views_of(events@);
    let ghost sv0 = old(store)@;
    let mut voting_id: Option<i32> = None;
    let mut i: usize = 0;
    proof {
        assert(evs.take(0) =~= Seq::<EventV>::empty());
    }
    while i < events.len()
        invariant
            0 <= i <= events@.len(),
            evs == views_of(events@),
            evs.len() == events@.len(),
            sv0 == old(store)@,
            sv0.wf(),
            store@.wf(),
            fault_free_prefix(evs, i as int),
            opt_id(voting_id) == vote_ctx_run(None::<int>, evs.take(i as int)),
            store@ == apply_writes(sv0, vote_writes(None::<int>, evs.take(i as int))),
        decreases events@.len() - i,
    {
        let ghost svb = store@;
        let ghost vidb = opt_id(voting_id);
        let ev = &events[i];
        proof {
            assert(evs[i as int] == events@[i as int]@);
            lemma_vote_names();
        }
        match ev {
            RawEvent::Open { name, attrs } => {
                let ghost av = crate::events::attrs_view(attrs@);
                proof {
                    assert(evs[i as int] == (EventV::Open { name: name@, attrs: av }));
                }
                if str_eq(name.as_str(), "SeimoNariųBalsavimas") {
                    voting_id = match lookup_attr(attrs, "balsavimo_id") {
                        Some(t) => parse_i32(t.as_str()),
                        None => None,
                    };
                } else if str_eq(name.as_str(), "IndividualusBalsavimoRezultatas") {
                    let mut wrote = false;
                    if voting_id.is_some() {
                        if let Some(pt) = lookup_attr(attrs, "asmens_id") {
                            if let Some(person_id) = parse_i32(pt.as_str()) {
                                if let Some(how) = lookup_attr(attrs, "kaip_balsavo") {
                                    let vote: Option<VoteType> = if str_eq(how.as_str(), "Už") {
                                        Some(VoteType::For)
                                    } else if str_eq(how.as_str(), "Prieš") {
                                        Some(VoteType::Against)
                                    } else if str_eq(how.as_str(), "Susilaikė") {
                                        Some(VoteType::Abstain)
                                    } else {
                                        None
                                    };
                                    let vd = VoteData {
                                        id: voting_id.unwrap(),
                                        person_id,
                                        vote,
                                    };
                                    proof {
                                        assert(vote_data_of_attrs(vidb, av) == Some(vd@));
                                    }
                                    let _ = vd.save(store);
                                    wrote = true;
                                    proof {
                                        assert(store@ == crate::writes::apply_write(
                                            svb,
                                            WriteOp::WVoteData(vd@),
                                        ));
                                    }
                                }
                            }
                        }
                    }
                    proof {
                        if !wrote {
                            assert(vote_data_of_attrs(vidb, av) is None);
                        }
                    }
                }
            }
            RawEvent::Close { name } => {
                if str_eq(name.as_str(), "SeimoNariųBalsavimas") {
                    voting_id = None;
                }
            }
            RawEvent::Fault => {
                proof {
                    lemma_vote_fault(None::<int>, evs, i as int);
                }
                return ;
            }
            _ => {}
        }
        proof {
            lemma_vote_snoc(None::<int>, evs, i as int);
            lemma_apply_writes_app(
                sv0,
                vote_writes(None::<int>, evs.take(i as int)),
                vote_step_writes(vidb, evs[i as int]),
            );
            let s1 = vote_step_writes(vidb, evs[i as int]);
            if s1.len() == 0 {
                assert(apply_writes(svb, s1) == svb);
            } else {
                let w = s1[0];
                let sv1 = crate::writes::apply_write(svb, w);
                assert(s1.drop_first() =~= Seq::<WriteOp>::empty());
                assert(apply_writes(sv1, s1.drop_first()) == sv1);
                assert(apply_writes(svb, s1) == sv1);
            }
            assert(opt_id(voting_id) == vote_ctx_step(vidb, evs[i as int]));
        }
        i = i + 1;
    }
    proof {
        assert(evs.take(evs.len() as int) =~= evs);
    }
}

/// Decodes and stores one vote-result feed text, as fetched from the vote
/// endpoint of one voting event.
pub fn get_voting_data(text: &str, store: &mut Store)
    requires
        old(store)@.wf(),
    ensures
        final(store)@.wf(),
        final(store)@ == apply_writes(old(store)@, vote_writes(None::<int>, events_of(text@))),
{
    let events = read_events(text);
    parse_voting_data(&events, store);
}

/// Re-running one vote-result feed leaves the store exactly as one run left
/// it.
pub proof fn lemma_voting_data_idempotent(sv: crate::store::StoreView, evs: Seq<EventV>)
    requires
        sv.wf(),
    ensures
        apply_writes(apply_writes(sv, vote_writes(None::<int>, evs)), vote_writes(None::<int>, evs))
            == apply_writes(sv, vote_writes(None::<int>, evs)),
{
    crate::writes::lemma_apply_writes_idempotent(sv, vote_writes(None::<int>, evs));
}

} // verus!

use vstd::prelude::*;
use crate::dates::{date_parse, parse_date};
use crate::events::{
    attr_get, attr_has, events_of, fault_free_prefix, lookup_attr, read_events, str_eq, views_of,
    EventV, RawEvent,
};
use crate::numparse::{parse_i32, parse_i32_spec};
use crate::records::{
    ids_view, opt_id, opt_str, DepartmentType, Gender, OfficeInsertable, OfficeInsertableV,
    Politician, PoliticianV,
};
use crate::store::{office_with_id, rkf, Row, Store, StoreError, StoreView};
use crate::upsert::{up, up1};

verus! {

// The politician feed nests `SeimoNarys` elements inside a `SeimoKadencija`
// group tag; a member's offices arrive on nested `Pareigos` tags, each stored
// at once under a freshly assigned identifier that is appended to the
// member's office array, and contact fields arrive on nested `Kontaktai`
// tags. The member row itself is stored at its closing tag. This feed is the
// one whose writes depend on the store: each office receives the next free
// identifier.

/// The in-progress decode state, carrying the store it writes.
pub struct PolRun {
    pub pid: Option<int>,
    pub politician: Option<PoliticianV>,
    pub sv: StoreView,
    pub failed: bool,
}

/// The member row one opening tag's attributes describe under a remembered
/// parliament, where every required field can be read.
pub open spec fn politician_of_attrs(pid: Option<int>, attrs: Seq<(Seq<char>, Seq<char>)>) -> Option<
    PoliticianV,
> {
    if pid is Some && attr_has(attrs, "asmens_id"@) && parse_i32_spec(
        attr_get(attrs, "asmens_id"@).unwrap(),
    ) is Some && attr_has(attrs, "vardas"@) && attr_has(attrs, "pavardė"@) && attr_has(
        attrs,
        "lytis"@,
    ) && attr_has(attrs, "data_nuo"@) && attr_has(attrs, "data_iki"@) && attr_has(
        attrs,
        "iškėlusi_partija"@,
    ) && attr_has(attrs, "išrinkimo_būdas"@) && attr_has(attrs, "kadencijų_skaičius"@) {
        Some(
            PoliticianV {
                id: parse_i32_spec(attr_get(attrs, "asmens_id"@).unwrap()).unwrap() as int,
                parliament: pid.unwrap(),
                name: attr_get(attrs, "vardas"@).unwrap(),
                surname: attr_get(attrs, "pavardė"@).unwrap(),
                gender: Some(
                    if attr_get(attrs, "lytis"@).unwrap() == "V"@ {
                        Gender::M
                    } else {
                        Gender::F
                    },
                ),
                from: date_parse(attr_get(attrs, "data_nuo"@).unwrap(), "%Y-%m-%d"@),
                to: date_parse(attr_get(attrs, "data_iki"@).unwrap(), "%Y-%m-%d"@),
                party: Some(attr_get(attrs, "iškėlusi_partija"@).unwrap()),
                elected_type: Some(attr_get(attrs, "išrinkimo_būdas"@).unwrap()),
                biography_link: attr_get(attrs, "biografijos_nuoroda"@),
                term_count: parse_i32_spec(attr_get(attrs, "kadencijų_skaičius"@).unwrap()),
                email: None,
                phone: Seq::<Seq<char>>::empty(),
                website: None,
                offices: Seq::<int>::empty(),
            },
        )
    } else {
        None::<PoliticianV>
    }
}

/// The office one opening tag's attributes describe, where every required
/// field can be read: an office names an administrative unit, a group office
/// names a parliamentary group.
pub open spec fn office_of_attrs(attrs: Seq<(Seq<char>, Seq<char>)>) -> Option<OfficeInsertableV> {
    if (attr_has(attrs, "padalinio_id"@) || attr_has(attrs, "parlamentinės_grupės_id"@))
        && (attr_has(attrs, "padalinio_pavadinimas"@) || attr_has(
        attrs,
        "parlamentinės_grupės_pavadinimas"@,
    )) && attr_has(attrs, "pareigos"@) && attr_has(attrs, "data_nuo"@) && attr_has(
        attrs,
        "data_iki"@,
    ) {
        Some(
            OfficeInsertableV {
                department_id: if attr_has(attrs, "padalinio_id"@) {
                    parse_i32_spec(attr_get(attrs, "padalinio_id"@).unwrap())
                } else {
                    parse_i32_spec(attr_get(attrs, "parlamentinės_grupės_id"@).unwrap())
                },
                department_name: Some(
                    if attr_has(attrs, "padalinio_pavadinimas"@) {
                        attr_get(attrs, "padalinio_pavadinimas"@).unwrap()
                    } else {
                        attr_get(attrs, "parlamentinės_grupės_pavadinimas"@).unwrap()
                    },
                ),
                department_type: Some(
                    if attr_has(attrs, "padalinio_id"@) {
                        DepartmentType::Office
                    } else {
                        DepartmentType::Group
                    },
                ),
                duties: Some(attr_get(attrs, "pareigos"@).unwrap()),
                from: date_parse(attr_get(attrs, "data_nuo"@).unwrap(), "%Y-%m-%d"@),
                to: date_parse(attr_get(attrs, "data_iki"@).unwrap(), "%Y-%m-%d"@),
            },
        )
    } else {
        None::<OfficeInsertableV>
    }
}

/// The state one stream element leaves behind; a failed state is frozen.
pub open spec fn pol_step(pr: PolRun, ev: EventV) -> PolRun {
    if pr.failed {
        pr
    } else {
        match ev {
            EventV::Open { name, attrs } => {
                if name == "SeimoNarys"@ {
                    PolRun { politician: politician_of_attrs(pr.pid, attrs), ..pr }
                } else if name == "Pareigos"@ {
                    match office_of_attrs(attrs) {
                        Some(o) => {
                            if pr.sv.next_office_id < i32::MAX as int {
                                PolRun {
                                    sv: pr.sv.with_office_added(
                                        office_with_id(o, pr.sv.next_office_id),
                                    ),
                                    politician: match pr.politician {
                                        Some(p) => Some(
                                            PoliticianV {
                                                offices: p.offices.push(pr.sv.next_office_id),
                                                ..p
                                            },
                                        ),
                                        None => None,
                                    },
                                    ..pr
                                }
                            } else {
                                PolRun { failed: true, ..pr }
                            }
                        }
                        None => pr,
                    }
                } else if name == "Kontaktai"@ {
                    if attr_has(attrs, "rūšis"@) && attr_has(attrs, "reikšmė"@) {
                        let kind = attr_get(attrs, "rūšis"@).unwrap();
                        let value = attr_get(attrs, "reikšmė"@).unwrap();
                        match pr.politician {
                            Some(p) => {
                                if kind == "El. p."@ {
                                    PolRun { politician: Some(PoliticianV { email: Some(value), ..p }), ..pr }
                                } else if kind == "Darbo telefonas"@ {
                                    PolRun {
                                        politician: Some(
                                            PoliticianV { phone: p.phone.push(value), ..p },
                                        ),
                                        ..pr
                                    }
                                } else if kind == "Asmeninė interneto svetainė"@ {
                                    PolRun {
                                        politician: Some(PoliticianV { website: Some(value), ..p }),
                                        ..pr
                                    }
                                } else {
                                    pr
                                }
                            }
                            None => pr,
                        }
                    } else {
                        pr
                    }
                } else if name == "SeimoKadencija"@ {
                    PolRun {
                        pid: if attr_has(attrs, "kadencijos_id"@) {
                            match parse_i32_spec(attr_get(attrs, "kadencijos_id"@).unwrap()) {
                                Some(v) => Some(v as int),
                                None => None::<int>,
                            }
                        } else {
                            None::<int>
                        },
                        ..pr
                    }
                } else {
                    pr
                }
            }
            EventV::Close { name } => {
                if name == "SeimoKadencija"@ {
                    PolRun { pid: None::<int>, ..pr }
                } else if name == "SeimoNarys"@ {
                    match pr.politician {
                        Some(p) => PolRun {
                            sv: pr.sv.with_politicians(
                                up1(pr.sv.politicians, rkf::<Politician>(), p),
                            ),
                            politician: None::<PoliticianV>,
                            ..pr
                        },
                        None => PolRun { politician: None::<PoliticianV>, ..pr },
                    }
                } else {
                    pr
                }
            }
            _ => pr,
        }
    }
}

/// The decode state after a run of stream elements, stopping at a decode
/// fault.
pub open spec fn pol_run(pr: PolRun, evs: Seq<EventV>) -> PolRun
    decreases evs.len(),
{
    if evs.len() == 0 {
        pr
    } else if evs[0] is Fault {
        pr
    } else {
        pol_run(pol_step(pr, evs[0]), evs.drop_first())
    }
}

/// The initial decode state over a store.
pub open spec fn pol_init(sv: StoreView) -> PolRun {
    PolRun { pid: None::<int>, politician: None::<PoliticianV>, sv: sv, failed: false }
}

proof fn lemma_pol_snoc(pr: PolRun, evs: Seq<EventV>, i: int)
    requires
        0 <= i < evs.len(),
        fault_free_prefix(evs, i),
        !(evs[i] is Fault),
    ensures
        pol_run(pr, evs.take(i + 1)) == pol_step(pol_run(pr, evs.take(i)), evs[i]),
    decreases i,
{
    if i == 0 {
        let t = evs.take(1);
        let p1 = pol_step(pr, evs[0]);
        assert(t[0] == evs[0]);
        assert(t.drop_first() =~= evs.take(0));
        assert(evs.take(0) =~= Seq::<EventV>::empty());
        assert(pol_run(pr, Seq::<EventV>::empty()) == pr);
        assert(pol_run(p1, Seq::<EventV>::empty()) == p1);
        assert(pol_run(pr, t) == pol_run(p1, t.drop_first()));
    } else {
        let r = evs.drop_first();
        let p1 = pol_step(pr, evs[0]);
        assert(evs.take(i + 1)[0] == evs[0]);
        assert(evs.take(i)[0] == evs[0]);
        assert(!(evs[0] is Fault));
        assert(evs.take(i + 1).drop_first() =~= r.take(i));
        assert(evs.take(i).drop_first() =~= r.take(i - 1));
        assert(fault_free_prefix(r, i - 1)) by {
            assert(forall|j: int| 0 <= j < i - 1 ==> r[j] == evs[j + 1]);
        }
        assert(r[i - 1] == evs[i]);
        lemma_pol_snoc(p1, r, i - 1);
        assert(pol_run(pr, evs.take(i)) == pol_run(p1, r.take(i - 1)));
        assert(pol_run(pr, evs.take(i + 1)) == pol_run(p1, r.take(i)));
    }
}

proof fn lemma_pol_fault(pr: PolRun, evs: Seq<EventV>, i: int)
    requires
        0 <= i < evs.len(),
        fault_free_prefix(evs, i),
        evs[i] is Fault,
    ensures
        pol_run(pr, evs) == pol_run(pr, evs.take(i)),
    decreases i,
{
    if i == 0 {
        assert(evs.take(0) =~= Seq::<EventV>::empty());
    } else {
        let r = evs.drop_first();
        assert(fault_free_prefix(r, i - 1)) by {
            assert(forall|j: int| 0 <= j < i - 1 ==> r[j] == evs[j + 1]);
        }
        assert(r[i - 1] == evs[i]);
        lemma_pol_fault(pol_step(pr, evs[0]), r, i - 1);
        assert(evs.take(i).drop_first() =~= r.take(i - 1));
        assert(evs.take(i)[0] == evs[0]);
    }
}

/// A frozen failed state stays as it is.
proof fn lemma_pol_run_failed(pr: PolRun, evs: Seq<EventV>)
    requires
        pr.failed,
    ensures
        pol_run(pr, evs) == pr,
    decreases evs.len(),
{
    if evs.len() > 0 && !(evs[0] is Fault) {
        assert(pol_step(pr, evs[0]) == pr);
        lemma_pol_run_failed(pr, evs.drop_first());
    }
}

/// A run over a fault-free part followed by the rest.
proof fn lemma_pol_run_app(pr: PolRun, a: Seq<EventV>, b: Seq<EventV>)
    requires
        fault_free_prefix(a, a.len() as int),
    ensures
        pol_run(pr, a + b) == pol_run(pol_run(pr, a), b),
    decreases a.len(),
{
    if a.len() == 0 {
        assert(a + b =~= b);
    } else {
        assert((a + b)[0] == a[0]);
        assert(!(a[0] is Fault)) by {
            assert(a[0] == a[0int]);
        }
        assert((a + b).drop_first() =~= a.drop_first() + b);
        assert(fault_free_prefix(a.drop_first(), a.len() - 1)) by {
            assert(forall|j: int| 0 <= j < a.len() - 1 ==> a.drop_first()[j] == a[j + 1]);
        }
        lemma_pol_run_app(pol_step(pr, a[0]), a.drop_first(), b);
    }
}

/// The view of the in-progress member record.
pub open spec fn opt_pol_view(m: Option<Politician>) -> Option<PoliticianV> {
    match m {
        Some(x) => Some(x@),
        None => None,
    }
}

/// Decodes one politician feed: each `SeimoNarys` element whose required
/// fields can be read is stored insert-or-update at its closing tag; each
/// well-formed `Pareigos` element is stored at once under a freshly assigned
/// office identifier, appended to the member's office array. Exhaustion of
/// the office identifier space aborts the decode with the store as written so
/// far.
pub fn parse_politicians(events: &Vec<RawEvent>, store: &mut Store) -> (r: Result<(), StoreError>)
    requires
        old(store)@.wf(),
    ensures
        final(store)@.wf(),
        final(store)@ == pol_run(pol_init(old(store)@), views_of(events@)).sv,
        r is Ok <==> !pol_run(pol_init(old(store)@), views_of(events@)).failed,
{
    let ghost evs = views_of(events@);
    let ghost sv0 = old(store)@;
    let mut parliament_id: Option<i32> = None;
    let mut politician: Option<Politician> = None;
    let mut i: usize = 0;
    proof {
        assert(evs.take(0) =~= Seq::<EventV>::empty());
    }
    while i < events.len()
        invariant
            0 <= i <= events@.len(),
            evs == views_of(events@),
            evs.len() == events@.len(),
            sv0 == old(store)@,
            sv0.wf(),
            store@.wf(),
            fault_free_prefix(evs, i as int),
            !pol_run(pol_init(sv0), evs.take(i as int)).failed,
            opt_id(parliament_id) == pol_run(pol_init(sv0), evs.take(i as int)).pid,
            opt_pol_view(politician) == pol_run(pol_init(sv0), evs.take(i as int)).politician,
            store@ == pol_run(pol_init(sv0), evs.take(i as int)).sv,
        decreases events@.len() - i,
    {
        let ghost prb = pol_run(pol_init(sv0), evs.take(i as int));
        let ev = &events[i];
        proof {
            assert(evs[i as int] == events@[i as int]@);
        }
        match ev {
            RawEvent::Open { name, attrs } => {
                let ghost av = crate::events::attrs_view(attrs@);
                proof {
                    assert(evs[i as int] == (EventV::Open { name: name@, attrs: av }));
                }
                if str_eq(name.as_str(), "SeimoNarys") {
                    politician = None;
                    if parliament_id.is_some() {
                        if let Some(idt) = lookup_attr(attrs, "asmens_id") {
                            if let Some(id) = parse_i32(idt.as_str()) {
                                let nm = lookup_attr(attrs, "vardas");
                                let sn = lookup_attr(attrs, "pavardė");
                                let ly = lookup_attr(attrs, "lytis");
                                let d1 = lookup_attr(attrs, "data_nuo");
                                let d2 = lookup_attr(attrs, "data_iki");
                                let pa = lookup_attr(attrs, "iškėlusi_partija");
                                let el = lookup_attr(attrs, "išrinkimo_būdas");
                                let tc = lookup_attr(attrs, "kadencijų_skaičius");
                                if nm.is_some() && sn.is_some() && ly.is_some() && d1.is_some()
                                    && d2.is_some() && pa.is_some() && el.is_some()
                                    && tc.is_some() {
                                    let gender = if str_eq(ly.as_ref().unwrap().as_str(), "V") {
                                        Gender::M
                                    } else {
                                        Gender::F
                                    };
                                    politician = Some(
                                        Politician {
                                            id,
                                            parliament: parliament_id.unwrap(),
                                            name: nm.unwrap(),
                                            surname: sn.unwrap(),
                                            gender: Some(gender),
                                            from: parse_date(d1.unwrap().as_str(), "%Y-%m-%d"),
                                            to: parse_date(d2.unwrap().as_str(), "%Y-%m-%d"),
                                            party: pa,
                                            elected_type: el,
                                            biography_link: lookup_attr(
                                                attrs,
                                                "biografijos_nuoroda",
                                            ),
                                            term_count: parse_i32(tc.unwrap().as_str()),
                                            email: None,
                                            phone: Vec::new(),
                                            website: None,
                                            offices: Vec::new(),
                                        },
                                    );
                                    proof {
                                        assert(crate::records::strs_view(Seq::<String>::empty())
                                            =~= Seq::<Seq<char>>::empty());
                                        assert(ids_view(Seq::<i32>::empty()) =~= Seq::<
                                            int,
                                        >::empty());
                                    }
                                }
                            }
                        }
                    }
                    proof {
                        assert(opt_pol_view(politician) == politician_of_attrs(prb.pid, av));
                    }
                } else if str_eq(name.as_str(), "Pareigos") {
                    let i1 = lookup_attr(attrs, "padalinio_id");
                    let i2 = lookup_attr(attrs, "parlamentinės_grupės_id");
                    let n1 = lookup_attr(attrs, "padalinio_pavadinimas");
                    let n2 = lookup_attr(attrs, "parlamentinės_grupės_pavadinimas");
                    let du = lookup_attr(attrs, "pareigos");
                    let d1 = lookup_attr(attrs, "data_nuo");
                    let d2 = lookup_attr(attrs, "data_iki");
                    if (i1.is_some() || i2.is_some()) && (n1.is_some() || n2.is_some())
                        && du.is_some() && d1.is_some() && d2.is_some() {
                        let use_office = i1.is_some();
                        let department_id = if use_office {
                            parse_i32(i1.as_ref().unwrap().as_str())
                        } else {
                            parse_i32(i2.as_ref().unwrap().as_str())
                        };
                        let department_name = if n1.is_some() {
                            n1
                        } else {
                            n2
                        };
                        let department_type = if use_office {
                            DepartmentType::Office
                        } else {
                            DepartmentType::Group
                        };
                        let office = OfficeInsertable {
                            department_id,
                            department_name,
                            department_type: Some(department_type),
                            duties: du,
                            from: parse_date(d1.unwrap().as_str(), "%Y-%m-%d"),
                            to: parse_date(d2.unwrap().as_str(), "%Y-%m-%d"),
                        };
                        proof {
                            assert(office_of_attrs(av) == Some(office@));
                        }
                        match office.save(store) {
                            Ok(saved) => {
                                let o = saved.unwrap();
                                politician = match politician {
                                    Some(mut p) => {
                                        p.offices.push(o.id);
                                        proof {
                                            assert(ids_view(p.offices@)
                                                =~= prb.politician.unwrap().offices.push(
                                                prb.sv.next_office_id,
                                            ));
                                        }
                                        Some(p)
                                    }
                                    None => None,
                                };
                            }
                            Err(e) => {
                                proof {
                                    let prn = pol_step(prb, evs[i as int]);
                                    assert(prn.failed);
                                    lemma_pol_snoc(pol_init(sv0), evs, i as int);
                                    assert(evs.take(i as int + 1) + evs.skip(i as int + 1)
                                        =~= evs);
                                    lemma_pol_run_app(
                                        pol_init(sv0),
                                        evs.take(i as int + 1),
                                        evs.skip(i as int + 1),
                                    );
                                    lemma_pol_run_failed(prn, evs.skip(i as int + 1));
                                }
                                return Err(e);
                            }
                        }
                    }
                } else if str_eq(name.as_str(), "Kontaktai") {
                    let kind = lookup_attr(attrs, "rūšis");
                    let value = lookup_attr(attrs, "reikšmė");
                    if kind.is_some() && value.is_some() && politician.is_some() {
                        let k = kind.unwrap();
                        if str_eq(k.as_str(), "El. p.") {
                            politician = match politician {
                                Some(mut p) => {
                                    p.email = value;
                                    Some(p)
                                }
                                None => None,
                            };
                        } else if str_eq(k.as_str(), "Darbo telefonas") {
                            politician = match politician {
                                Some(mut p) => {
                                    p.phone.push(value.unwrap());
                                    proof {
                                        assert(crate::records::strs_view(p.phone@)
                                            =~= prb.politician.unwrap().phone.push(
                                            attr_get(av, "reikšmė"@).unwrap(),
                                        ));
                                    }
                                    Some(p)
                                }
                                None => None,
                            };
                        } else if str_eq(k.as_str(), "Asmeninė interneto svetainė") {
                            politician = match politician {
                                Some(mut p) => {
                                    p.website = value;
                                    Some(p)
                                }
                                None => None,
                            };
                        }
                    }
                } else if str_eq(name.as_str(), "SeimoKadencija") {
                    parliament_id = match lookup_attr(attrs, "kadencijos_id") {
                        Some(t) => parse_i32(t.as_str()),
                        None => None,
                    };
                }
            }
            RawEvent::Close { name } => {
                proof {
                    assert(evs[i as int] == (EventV::Close { name: name@ }));
                }
                if str_eq(name.as_str(), "SeimoKadencija") {
                    parliament_id = None;
                } else if str_eq(name.as_str(), "SeimoNarys") {
                    if let Some(p) = &politician {
                        let _ = p.save(store);
                    }
                    politician = None;
                }
            }
            RawEvent::Fault => {
                proof {
                    lemma_pol_fault(pol_init(sv0), evs, i as int);
                }
                return Ok(());
            }
            _ => {}
        }
        proof {
            lemma_pol_snoc(pol_init(sv0), evs, i as int);
            let prn = pol_step(prb, evs[i as int]);
            assert(opt_id(parliament_id) == prn.pid);
            assert(opt_pol_view(politician) == prn.politician);
            assert(store@ == prn.sv);
            assert(!prn.failed);
        }
        i = i + 1;
    }
    proof {
        assert(evs.take(evs.len() as int) =~= evs);
    }
    Ok(())
}

/// Decodes and stores one politician feed text, as fetched from the member
/// endpoint of one parliament.
pub fn get_politicians(text: &str, store: &mut Store) -> (r: Result<(), StoreError>)
    requires
        old(store)@.wf(),
    ensures
        final(store)@.wf(),
        final(store)@ == pol_run(pol_init(old(store)@), events_of(text@)).sv,
        r is Ok <==> !pol_run(pol_init(old(store)@), events_of(text@)).failed,
{
    let events = read_events(text);
    parse_politicians(&events, store)
}

/// Whether a feed opens no office element. Re-running a feed that stores
/// offices is not idempotent: every run assigns fresh office identifiers,
/// as the always-insert office write dictates.
pub open spec fn pareigos_free(evs: Seq<EventV>) -> bool {
    forall|j: int| 0 <= j < evs.len() ==> (match #[trigger] evs[j] {
        EventV::Open { name, .. } => name != "Pareigos"@,
        _ => true,
    })
}

/// The remembered parliament and in-progress member after one stream
/// element of an office-free feed; this part of the state never reads the
/// store.
pub open spec fn pcore_step(pid: Option<int>, pol: Option<PoliticianV>, ev: EventV) -> (
    Option<int>,
    Option<PoliticianV>,
) {
    match ev {
        EventV::Open { name, attrs } => {
            if name == "SeimoNarys"@ {
                (pid, politician_of_attrs(pid, attrs))
            } else if name == "Kontaktai"@ {
                if attr_has(attrs, "rūšis"@) && attr_has(attrs, "reikšmė"@) {
                    let kind = attr_get(attrs, "rūšis"@).unwrap();
                    let value = attr_get(attrs, "reikšmė"@).unwrap();
                    match pol {
                        Some(p) => {
                            if kind == "El. p."@ {
                                (pid, Some(PoliticianV { email: Some(value), ..p }))
                            } else if kind == "Darbo telefonas"@ {
                                (pid, Some(PoliticianV { phone: p.phone.push(value), ..p }))
                            } else if kind == "Asmeninė interneto svetainė"@ {
                                (pid, Some(PoliticianV { website: Some(value), ..p }))
                            } else {
                                (pid, pol)
                            }
                        }
                        None => (pid, pol),
                    }
                } else {
                    (pid, pol)
                }
            } else if name == "SeimoKadencija"@ {
                (
                    if attr_has(attrs, "kadencijos_id"@) {
                        match parse_i32_spec(attr_get(attrs, "kadencijos_id"@).unwrap()) {
                            Some(v) => Some(v as int),
                            None => None::<int>,
                        }
                    } else {
                        None::<int>
                    },
                    pol,
                )
            } else {
                (pid, pol)
            }
        }
        EventV::Close { name } => {
            if name == "SeimoKadencija"@ {
                (None::<int>, pol)
            } else if name == "SeimoNarys"@ {
                (pid, None::<PoliticianV>)
            } else {
                (pid, pol)
            }
        }
        _ => (pid, pol),
    }
}

/// That state after a run of an office-free feed.
pub open spec fn pcore_run(pid: Option<int>, pol: Option<PoliticianV>, evs: Seq<EventV>) -> (
    Option<int>,
    Option<PoliticianV>,
)
    decreases evs.len(),
{
    if evs.len() == 0 {
        (pid, pol)
    } else if evs[0] is Fault {
        (pid, pol)
    } else {
        let n = pcore_step(pid, pol, evs[0]);
        pcore_run(n.0, n.1, evs.drop_first())
    }
}

/// The member rows an office-free feed writes, in order. They depend on the
/// feed alone, never on the store.
pub open spec fn pol_rows(pid: Option<int>, pol: Option<PoliticianV>, evs: Seq<EventV>) -> Seq<
    PoliticianV,
>
    decreases evs.len(),
{
    if evs.len() == 0 {
        Seq::<PoliticianV>::empty()
    } else if evs[0] is Fault {
        Seq::<PoliticianV>::empty()
    } else {
        (match evs[0] {
            EventV::Close { name } => {
                if name == "SeimoNarys"@ && pol is Some {
                    seq![pol.unwrap()]
                } else {
                    Seq::<PoliticianV>::empty()
                }
            }
            _ => Seq::<PoliticianV>::empty(),
        }) + {
            let n = pcore_step(pid, pol, evs[0]);
            pol_rows(n.0, n.1, evs.drop_first())
        }
    }
}

/// The member element and its group tag differ.
proof fn lemma_pol_names()
    ensures
        "SeimoNarys"@ != "SeimoKadencija"@,
{
    reveal_strlit("SeimoNarys");
    reveal_strlit("SeimoKadencija");
    assert("SeimoNarys"@.len() == 10);
    assert("SeimoKadencija"@.len() == 14);
}

/// An office-free feed writes nothing but member rows, and those rows are a
/// function of the feed alone: the run acts on the store as the
/// insert-or-update fold of that row list.
proof fn lemma_pol_office_free(pr: PolRun, evs: Seq<EventV>)
    requires
        pareigos_free(evs),
        !pr.failed,
    ensures
        pol_run(pr, evs).sv == pr.sv.with_politicians(
            up(pr.sv.politicians, rkf::<Politician>(), pol_rows(pr.pid, pr.politician, evs)),
        ),
        !pol_run(pr, evs).failed,
        pol_run(pr, evs).pid == pcore_run(pr.pid, pr.politician, evs).0,
        pol_run(pr, evs).politician == pcore_run(pr.pid, pr.politician, evs).1,
    decreases evs.len(),
{
    let kf = rkf::<Politician>();
    if evs.len() == 0 || evs[0] is Fault {
        assert(pol_rows(pr.pid, pr.politician, evs) == Seq::<PoliticianV>::empty());
        assert(up(pr.sv.politicians, kf, Seq::<PoliticianV>::empty()) == pr.sv.politicians);
        assert(pr.sv.with_politicians(pr.sv.politicians) =~= pr.sv);
    } else {
        lemma_pol_names();
        let e0 = evs[0];
        assert(match e0 {
            EventV::Open { name, .. } => name != "Pareigos"@,
            _ => true,
        });
        let pr1 = pol_step(pr, e0);
        let rest = evs.drop_first();
        assert(pareigos_free(rest)) by {
            assert(forall|j: int| 0 <= j < rest.len() ==> rest[j] == evs[j + 1]);
        }
        let n = pcore_step(pr.pid, pr.politician, e0);
        assert(pr1.pid == n.0 && pr1.politician == n.1 && !pr1.failed);
        lemma_pol_office_free(pr1, rest);
        assert(pol_run(pr, evs) == pol_run(pr1, rest));
        match e0 {
            EventV::Close { name } => {
                if name == "SeimoNarys"@ && pr.politician is Some {
                    let p = pr.politician.unwrap();
                    assert(pr1.sv == pr.sv.with_politicians(up1(pr.sv.politicians, kf, p)));
                    assert(pol_rows(pr.pid, pr.politician, evs) =~= seq![p] + pol_rows(
                        n.0,
                        n.1,
                        rest,
                    ));
                    let ws = seq![p] + pol_rows(n.0, n.1, rest);
                    assert(ws[0] == p);
                    assert(ws.drop_first() =~= pol_rows(n.0, n.1, rest));
                    assert(up(pr.sv.politicians, kf, ws) == up(
                        up1(pr.sv.politicians, kf, p),
                        kf,
                        pol_rows(n.0, n.1, rest),
                    ));
                    assert(pr1.sv.politicians == up1(pr.sv.politicians, kf, p));
                    assert(pol_run(pr1, rest).sv == pr1.sv.with_politicians(
                        up(pr1.sv.politicians, kf, pol_rows(n.0, n.1, rest)),
                    ));
                    assert(pr1.sv.with_politicians(
                        up(pr1.sv.politicians, kf, pol_rows(n.0, n.1, rest)),
                    ) =~= pr.sv.with_politicians(up(pr.sv.politicians, kf, ws)));
                } else {
                    assert(pr1.sv == pr.sv);
                    assert(pol_rows(pr.pid, pr.politician, evs) =~= pol_rows(n.0, n.1, rest));
                }
            }
            _ => {
                assert(pr1.sv == pr.sv);
                assert(pol_rows(pr.pid, pr.politician, evs) =~= pol_rows(n.0, n.1, rest));
            }
        }
    }
}

/// Re-running an office-free politician feed leaves the store exactly as one
/// run left it. A feed that opens an office element is the one input family
/// left out: each run stores its offices anew under fresh identifiers.
pub proof fn lemma_politicians_idempotent_without_offices(sv: StoreView, evs: Seq<EventV>)
    requires
        sv.wf(),
        pareigos_free(evs),
    ensures
        pol_run(pol_init(pol_run(pol_init(sv), evs).sv), evs).sv == pol_run(pol_init(sv), evs).sv,
{
    let kf = rkf::<Politician>();
    let ws = pol_rows(None::<int>, None::<PoliticianV>, evs);
    lemma_pol_office_free(pol_init(sv), evs);
    let t = pol_run(pol_init(sv), evs).sv;
    assert(t == sv.with_politicians(up(sv.politicians, kf, ws)));
    lemma_pol_office_free(pol_init(t), evs);
    assert(pol_run(pol_init(t), evs).sv == t.with_politicians(up(t.politicians, kf, ws)));
    crate::upsert::lemma_up_idempotent(sv.politicians, kf, ws);
    assert(t.with_politicians(up(t.politicians, kf, ws)) =~= t);
}

} // verus!

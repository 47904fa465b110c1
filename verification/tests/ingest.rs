use seimas_ingest::dates::{parse_date, parse_datetime, Date, DateTime};
use seimas_ingest::meeting_data::get_meeting_data;
use seimas_ingest::meetings::get_meetings;
use seimas_ingest::parliaments::get_parliaments;
use seimas_ingest::politicians::get_politicians;
use seimas_ingest::registration_data::get_registration_data;
use seimas_ingest::sessions::get_sessions;
use seimas_ingest::store::Store;
use seimas_ingest::voting_data::get_voting_data;
use seimas_ingest::records::{DepartmentType, Gender, VoteType};

#[test]
fn one_term_feed_yields_one_row() {
    let feed = "<SeimoKadencijos>\
        <SeimoKadencija kadencijos_id=\"9\" pavadinimas=\"X\" \
         data_nuo=\"2020-01-01\" data_iki=\"2024-01-01\"/>\
        </SeimoKadencijos>";
    let mut store = Store::new();
    get_parliaments(feed, &mut store);
    assert_eq!(store.parliaments.len(), 1);
    let p = &store.parliaments[0];
    assert_eq!(p.id, 9);
    assert_eq!(p.name.as_deref(), Some("X"));
    assert_eq!(p.from, Some(Date { year: 2020, month: 1, day: 1 }));
    assert_eq!(p.to, Some(Date { year: 2024, month: 1, day: 1 }));
}

#[test]
fn second_identical_crawl_leaves_term_row_identical() {
    let feed = "<SeimoKadencijos>\
        <SeimoKadencija kadencijos_id=\"9\" pavadinimas=\"X\" \
         data_nuo=\"2020-01-01\" data_iki=\"2024-01-01\"/>\
        </SeimoKadencijos>";
    let mut store = Store::new();
    get_parliaments(feed, &mut store);
    let name_before = store.parliaments[0].name.clone();
    let from_before = store.parliaments[0].from;
    let to_before = store.parliaments[0].to;
    get_parliaments(feed, &mut store);
    assert_eq!(store.parliaments.len(), 1);
    assert_eq!(store.parliaments[0].id, 9);
    assert_eq!(store.parliaments[0].name, name_before);
    assert_eq!(store.parliaments[0].from, from_before);
    assert_eq!(store.parliaments[0].to, to_before);
}

#[test]
fn conflicting_term_write_is_ignored() {
    let first = "<SeimoKadencija kadencijos_id=\"9\" pavadinimas=\"X\" \
         data_nuo=\"2020-01-01\" data_iki=\"2024-01-01\"/>";
    let second = "<SeimoKadencija kadencijos_id=\"9\" pavadinimas=\"Y\" \
         data_nuo=\"1990-01-01\" data_iki=\"1994-01-01\"/>";
    let mut store = Store::new();
    get_parliaments(first, &mut store);
    get_parliaments(second, &mut store);
    assert_eq!(store.parliaments.len(), 1);
    assert_eq!(store.parliaments[0].name.as_deref(), Some("X"));
}

#[test]
fn session_feed_stores_session_under_its_term() {
    let feed = "<SeimoKadencijos><SeimoKadencija kadencijos_id=\"9\">\
        <SeimoSesija sesijos_id=\"5\" numeris=\"1\" pavadinimas=\"Rudens\" \
         data_nuo=\"2020-09-10\" data_iki=\"2020-12-23\"/>\
        </SeimoKadencija></SeimoKadencijos>";
    let mut store = Store::new();
    get_sessions(feed, &mut store);
    assert_eq!(store.sessions.len(), 1);
    let s = &store.sessions[0];
    assert_eq!(s.id, 5);
    assert_eq!(s.num, 1);
    assert_eq!(s.name, "Rudens");
    assert_eq!(s.parliament, 9);
    assert_eq!(s.from, Some(Date { year: 2020, month: 9, day: 10 }));
}

#[test]
fn conflicting_session_write_overwrites() {
    let first = "<SeimoKadencija kadencijos_id=\"9\">\
        <SeimoSesija sesijos_id=\"5\" numeris=\"1\" pavadinimas=\"Rudens\" \
         data_nuo=\"2020-09-10\" data_iki=\"2020-12-23\"/></SeimoKadencija>";
    let second = "<SeimoKadencija kadencijos_id=\"9\">\
        <SeimoSesija sesijos_id=\"5\" numeris=\"2\" pavadinimas=\"Pavasario\" \
         data_nuo=\"2021-03-10\" data_iki=\"2021-06-30\"/></SeimoKadencija>";
    let mut store = Store::new();
    get_sessions(first, &mut store);
    get_sessions(second, &mut store);
    assert_eq!(store.sessions.len(), 1);
    assert_eq!(store.sessions[0].num, 2);
    assert_eq!(store.sessions[0].name, "Pavasario");
}

#[test]
fn meeting_feed_with_both_links_populates_both() {
    let feed = "<SeimoSesija sesijos_id=\"5\">\
        <SeimoPos\u{117}dis pos\u{117}d\u{17e}io_id=\"42\" numeris=\"7\" tipas=\"Rytinis\" \
         prad\u{17e}ia=\"2020-09-10 10:00\" pabaiga=\"2020-09-10 13:00\">\
        <Protokolas protokolo_nuoroda=\"https://x.example/rs/TAK/ABC123\"/>\
        <Stenograma stenogramos_nuoroda=\"https://x.example/rs/TAK/DEF456\"/>\
        </SeimoPos\u{117}dis></SeimoSesija>";
    let mut store = Store::new();
    get_meetings(feed, &mut store);
    assert_eq!(store.meetings.len(), 1);
    let m = &store.meetings[0];
    assert_eq!(m.id, 42);
    assert_eq!(m.num, 7);
    assert_eq!(m.session, 5);
    assert_eq!(m.meeting_type, "Rytinis");
    assert_eq!(
        m.from,
        Some(DateTime { year: 2020, month: 9, day: 10, hour: 10, minute: 0, second: 0 })
    );
    assert_eq!(m.protocol_link.as_deref(), Some("https://x.example/rs/TAK/ABC123"));
    assert_eq!(m.stenogram_link.as_deref(), Some("https://x.example/rs/TAK/DEF456"));
}

#[test]
fn meeting_detail_feed_links_children_to_parents() {
    let feed = "<Posedziai><posedis pos_id=\"77\">\
        <pradzia>2020-09-10 10:00:00</pradzia>\
        <darbotvarkes-klausimas svarst_kl_stad_id=\"101\" kl_stad_id=\"11\">\
        <pavadinimas>Klausimas</pavadinimas>\
        <kalbetojas klb_id=\"1\" diskus_id=\"10\" asm_id=\"55\">\
        <asmuo>A B</asmuo></kalbetojas>\
        <kalbetojas klb_id=\"2\" diskus_id=\"10\" asm_id=\"56\">\
        <asmuo>C D</asmuo></kalbetojas>\
        <balsavimas bals_id=\"201\"><antraste>Priimta</antraste></balsavimas>\
        </darbotvarkes-klausimas>\
        <registracija reg_id=\"301\"><antraste>Registracija</antraste></registracija>\
        </posedis></Posedziai>";
    let mut store = Store::new();
    get_meeting_data(feed, &mut store);
    assert_eq!(store.meeting_data.len(), 1);
    assert_eq!(store.agenda_items.len(), 1);
    assert_eq!(store.speeches.len(), 2);
    assert_eq!(store.votes.len(), 1);
    assert_eq!(store.registrations.len(), 1);
    let md = &store.meeting_data[0];
    assert_eq!(md.id, 77);
    assert_eq!(md.agenda, vec![101]);
    assert_eq!(md.registrations, vec![301]);
    let ai = &store.agenda_items[0];
    assert_eq!(ai.id, 101);
    assert_eq!(ai.agenda_state_id, Some(11));
    assert_eq!(ai.name.as_deref(), Some("Klausimas"));
    assert_eq!(ai.speeches, vec![1, 2]);
    assert_eq!(ai.voting, vec![201]);
    assert_eq!(store.speeches[0].person_id, Some(55));
    assert_eq!(store.speeches[1].person_id, Some(56));
    assert_eq!(store.votes[0].result.as_deref(), Some("Priimta"));
}

#[test]
fn detail_feed_twice_stores_once() {
    let feed = "<posedis pos_id=\"77\">\
        <darbotvarkes-klausimas svarst_kl_stad_id=\"101\">\
        <balsavimas bals_id=\"201\"/>\
        </darbotvarkes-klausimas></posedis>";
    let mut store = Store::new();
    get_meeting_data(feed, &mut store);
    get_meeting_data(feed, &mut store);
    assert_eq!(store.meeting_data.len(), 1);
    assert_eq!(store.agenda_items.len(), 1);
    assert_eq!(store.votes.len(), 1);
    assert_eq!(store.meeting_data[0].agenda, vec![101]);
    assert_eq!(store.agenda_items[0].voting, vec![201]);
}

#[test]
fn vote_result_feed_stores_person_rows() {
    let feed = "<SeimoNari\u{173}Balsavimas balsavimo_id=\"300\">\
        <IndividualusBalsavimoRezultatas asmens_id=\"55\" kaip_balsavo=\"U\u{17e}\"/>\
        <IndividualusBalsavimoRezultatas asmens_id=\"56\" kaip_balsavo=\"Prie\u{161}\"/>\
        <IndividualusBalsavimoRezultatas asmens_id=\"57\" kaip_balsavo=\"Susilaik\u{117}\"/>\
        <IndividualusBalsavimoRezultatas asmens_id=\"58\" kaip_balsavo=\"Nedalyvavo\"/>\
        </SeimoNari\u{173}Balsavimas>";
    let mut store = Store::new();
    get_voting_data(feed, &mut store);
    assert_eq!(store.vote_data.len(), 4);
    assert_eq!(store.vote_data[0].vote, Some(VoteType::For));
    assert_eq!(store.vote_data[1].vote, Some(VoteType::Against));
    assert_eq!(store.vote_data[2].vote, Some(VoteType::Abstain));
    assert_eq!(store.vote_data[3].vote, None);
    assert_eq!(store.vote_data[0].id, 300);
    assert_eq!(store.vote_data[0].person_id, 55);
}

#[test]
fn vote_result_feed_twice_stores_once() {
    let feed = "<SeimoNari\u{173}Balsavimas balsavimo_id=\"300\">\
        <IndividualusBalsavimoRezultatas asmens_id=\"55\" kaip_balsavo=\"U\u{17e}\"/>\
        </SeimoNari\u{173}Balsavimas>";
    let mut store = Store::new();
    get_voting_data(feed, &mut store);
    get_voting_data(feed, &mut store);
    assert_eq!(store.vote_data.len(), 1);
    assert_eq!(store.vote_data[0].vote, Some(VoteType::For));
}

#[test]
fn registration_feed_stores_person_rows() {
    let feed = "<SeimoNari\u{173}Registracija registracijos_id=\"400\">\
        <IndividualusRegistracijosRezultatas asmens_id=\"55\" ar_registravosi=\"Taip\"/>\
        <IndividualusRegistracijosRezultatas asmens_id=\"56\" ar_registravosi=\"Ne\"/>\
        <IndividualusRegistracijosRezultatas asmens_id=\"57\" ar_registravosi=\"?\"/>\
        </SeimoNari\u{173}Registracija>";
    let mut store = Store::new();
    get_registration_data(feed, &mut store);
    assert_eq!(store.registration_data.len(), 3);
    assert_eq!(store.registration_data[0].registered, Some(true));
    assert_eq!(store.registration_data[1].registered, Some(false));
    assert_eq!(store.registration_data[2].registered, None);
}

#[test]
fn politician_feed_stores_member_offices_and_contacts() {
    let feed = "<SeimoKadencija kadencijos_id=\"9\">\
        <SeimoNarys asmens_id=\"55\" vardas=\"Vardas\" pavard\u{117}=\"Pavarde\" \
         lytis=\"V\" data_nuo=\"2020-11-13\" data_iki=\"2024-11-13\" \
         i\u{161}k\u{117}lusi_partija=\"Partija\" i\u{161}rinkimo_b\u{16b}das=\"apygardoje\" \
         kadencij\u{173}_skai\u{10d}ius=\"2\">\
        <Pareigos padalinio_id=\"12\" padalinio_pavadinimas=\"Komitetas\" \
         pareigos=\"Narys\" data_nuo=\"2020-11-13\" data_iki=\"2024-11-13\"/>\
        <Kontaktai r\u{16b}\u{161}is=\"El. p.\" reik\u{161}m\u{117}=\"v@p.lt\"/>\
        <Kontaktai r\u{16b}\u{161}is=\"Darbo telefonas\" reik\u{161}m\u{117}=\"+370 1\"/>\
        </SeimoNarys></SeimoKadencija>";
    let mut store = Store::new();
    let r = get_politicians(feed, &mut store);
    assert!(r.is_ok());
    assert_eq!(store.politicians.len(), 1);
    assert_eq!(store.offices.len(), 1);
    let p = &store.politicians[0];
    assert_eq!(p.id, 55);
    assert_eq!(p.parliament, 9);
    assert_eq!(p.name, "Vardas");
    assert_eq!(p.surname, "Pavarde");
    assert_eq!(p.gender, Some(Gender::M));
    assert_eq!(p.party.as_deref(), Some("Partija"));
    assert_eq!(p.term_count, Some(2));
    assert_eq!(p.email.as_deref(), Some("v@p.lt"));
    assert_eq!(p.phone, vec!["+370 1".to_string()]);
    assert_eq!(p.offices, vec![1]);
    let o = &store.offices[0];
    assert_eq!(o.id, 1);
    assert_eq!(o.department_id, Some(12));
    assert_eq!(o.department_type, Some(DepartmentType::Office));
    assert_eq!(o.duties.as_deref(), Some("Narys"));
}

#[test]
fn politician_feed_twice_keeps_one_member_but_appends_offices() {
    let feed = "<SeimoKadencija kadencijos_id=\"9\">\
        <SeimoNarys asmens_id=\"55\" vardas=\"Vardas\" pavard\u{117}=\"Pavarde\" \
         lytis=\"M\" data_nuo=\"2020-11-13\" data_iki=\"2024-11-13\" \
         i\u{161}k\u{117}lusi_partija=\"Partija\" i\u{161}rinkimo_b\u{16b}das=\"s\u{105}ra\u{161}e\" \
         kadencij\u{173}_skai\u{10d}ius=\"2\">\
        <Pareigos padalinio_id=\"12\" padalinio_pavadinimas=\"Komitetas\" \
         pareigos=\"Narys\" data_nuo=\"2020-11-13\" data_iki=\"2024-11-13\"/>\
        </SeimoNarys></SeimoKadencija>";
    let mut store = Store::new();
    get_politicians(feed, &mut store).unwrap();
    get_politicians(feed, &mut store).unwrap();
    assert_eq!(store.politicians.len(), 1);
    assert_eq!(store.offices.len(), 2);
    assert_eq!(store.politicians[0].offices, vec![2]);
    assert_eq!(store.politicians[0].gender, Some(Gender::F));
}

#[test]
fn record_with_unreadable_required_field_is_dropped() {
    let feed = "<SeimoKadencijos>\
        <SeimoKadencija kadencijos_id=\"abc\" pavadinimas=\"X\" \
         data_nuo=\"2020-01-01\" data_iki=\"2024-01-01\"/>\
        <SeimoKadencija kadencijos_id=\"9\" pavadinimas=\"X\" \
         data_nuo=\"2020-01-01\" data_iki=\"2024-01-01\"/>\
        </SeimoKadencijos>";
    let mut store = Store::new();
    get_parliaments(feed, &mut store);
    assert_eq!(store.parliaments.len(), 1);
    assert_eq!(store.parliaments[0].id, 9);
}

#[test]
fn unreadable_date_falls_to_absent() {
    let feed = "<SeimoKadencija kadencijos_id=\"9\" pavadinimas=\"X\" \
         data_nuo=\"soon\" data_iki=\"2024-01-01\"/>";
    let mut store = Store::new();
    get_parliaments(feed, &mut store);
    assert_eq!(store.parliaments.len(), 1);
    assert_eq!(store.parliaments[0].from, None);
    assert_eq!(store.parliaments[0].to, Some(Date { year: 2024, month: 1, day: 1 }));
}

#[test]
fn malformed_feed_keeps_committed_records() {
    let feed = "<SeimoKadencijos>\
        <SeimoKadencija kadencijos_id=\"9\" pavadinimas=\"X\" \
         data_nuo=\"2020-01-01\" data_iki=\"2024-01-01\"/>\
        <SeimoKadencija kadencijos_id=\"10\" pavadinimas=\"Y\" \
         data_nuo=\"2024-01-01\" data_iki=\"2028-01-01\"/>\
        <broken></SeimoKadencijos>";
    let mut store = Store::new();
    get_parliaments(feed, &mut store);
    assert_eq!(store.parliaments.len(), 2);
}

#[test]
fn empty_feed_stores_nothing() {
    let mut store = Store::new();
    get_parliaments("", &mut store);
    get_meetings("", &mut store);
    assert_eq!(store.parliaments.len(), 0);
    assert_eq!(store.meetings.len(), 0);
}

#[test]
fn meeting_feed_twice_stores_once() {
    let feed = "<SeimoSesija sesijos_id=\"5\">\
        <SeimoPos\u{117}dis pos\u{117}d\u{17e}io_id=\"42\" numeris=\"7\" tipas=\"Rytinis\" \
         prad\u{17e}ia=\"2020-09-10 10:00\" pabaiga=\"2020-09-10 13:00\"/>\
        </SeimoSesija>";
    let mut store = Store::new();
    get_meetings(feed, &mut store);
    get_meetings(feed, &mut store);
    assert_eq!(store.meetings.len(), 1);
    assert_eq!(store.meetings[0].id, 42);
}

#[test]
fn date_reader_reports_calendar_fields() {
    assert_eq!(
        parse_date("2020-01-01", "%Y-%m-%d"),
        Some(Date { year: 2020, month: 1, day: 1 })
    );
    assert_eq!(parse_date("2020-13-01", "%Y-%m-%d"), None);
    assert_eq!(parse_date("soon", "%Y-%m-%d"), None);
    assert_eq!(
        parse_datetime("2021-03-04 10:20", "%Y-%m-%d %H:%M"),
        Some(DateTime { year: 2021, month: 3, day: 4, hour: 10, minute: 20, second: 0 })
    );
    assert_eq!(
        parse_datetime("2021-03-04 10:20:30", "%Y-%m-%d %H:%M:%S"),
        Some(DateTime { year: 2021, month: 3, day: 4, hour: 10, minute: 20, second: 30 })
    );
    assert_eq!(parse_datetime("2021-03-04", "%Y-%m-%d %H:%M"), None);
}

use seimas_ingest::crawler::{chunked, document_tasks, meetings_tasks, sessions_needing_meetings};
use seimas_ingest::docs::{document_id_of_link, DocKey, DocKind, DocumentCache};
use seimas_ingest::meetings::get_meetings;
use seimas_ingest::numparse::parse_i32;
use seimas_ingest::queries::has_meeting_detail;
use seimas_ingest::records::{
    MeetingData, Meetings, Parliament, RegistrationData, Sessions, Vote, VoteData,
};
use seimas_ingest::records::OfficeInsertable;
use seimas_ingest::sessions::get_sessions;
use seimas_ingest::store::{Store, StoreError};

fn store_with_one_meeting() -> Store {
    let terms = "<SeimoKadencija kadencijos_id=\"9\" pavadinimas=\"X\" \
         data_nuo=\"2020-01-01\" data_iki=\"2024-01-01\"/>";
    let sessions = "<SeimoKadencija kadencijos_id=\"9\">\
        <SeimoSesija sesijos_id=\"5\" numeris=\"1\" pavadinimas=\"Rudens\" \
         data_nuo=\"2020-09-10\" data_iki=\"2020-12-23\"/></SeimoKadencija>";
    let meetings = "<SeimoSesija sesijos_id=\"5\">\
        <SeimoPos\u{117}dis pos\u{117}d\u{17e}io_id=\"42\" numeris=\"7\" tipas=\"Rytinis\" \
         prad\u{17e}ia=\"2020-09-10 10:00\" pabaiga=\"2020-09-10 13:00\">\
        <Protokolas protokolo_nuoroda=\"https://x.example/rs/TAK/ABC123\"/>\
        <Stenograma stenogramos_nuoroda=\"https://x.example/rs/TAK/DEF456\"/>\
        </SeimoPos\u{117}dis></SeimoSesija>";
    let mut store = Store::new();
    seimas_ingest::parliaments::get_parliaments(terms, &mut store);
    get_sessions(sessions, &mut store);
    get_meetings(meetings, &mut store);
    store
}

#[test]
fn meeting_with_both_links_yields_two_document_tasks() {
    let store = store_with_one_meeting();
    let tasks = document_tasks(&store, 9);
    assert_eq!(tasks.len(), 2);
    assert_eq!(tasks[0].kind, DocKind::Protocol);
    assert_eq!(tasks[0].session, 5);
    assert_eq!(tasks[0].num, 7);
    assert_eq!(tasks[0].link, "https://x.example/rs/TAK/ABC123");
    assert_eq!(tasks[1].kind, DocKind::Stenogram);
    assert_eq!(tasks[1].link, "https://x.example/rs/TAK/DEF456");
    let key = tasks[0].key().expect("link carries a document identifier");
    assert_eq!(key.doc_id, "ABC123");
}

#[test]
fn document_fetch_is_idempotent() {
    let mut cache = DocumentCache::new();
    let key = DocKey { kind: DocKind::Protocol, session: 5, num: 7, doc_id: "ABC123".to_string() };
    assert!(cache.fetch_document(&key));
    assert!(!cache.fetch_document(&key));
    assert!(!cache.fetch_document(&key));
    let other =
        DocKey { kind: DocKind::Stenogram, session: 5, num: 7, doc_id: "ABC123".to_string() };
    assert!(cache.fetch_document(&other));
}

#[test]
fn link_without_segment_names_no_document() {
    assert_eq!(document_id_of_link("https://x.example/rs/TAK/ABC123").as_deref(), Some("ABC123"));
    assert_eq!(document_id_of_link("https://x.example/rs/TAK/ABC123/"), None);
    assert_eq!(document_id_of_link("nolink"), None);
}

#[test]
fn batches_hold_the_tasks_in_order() {
    let r = chunked(vec![1, 2, 3, 4, 5, 6, 7], 3);
    assert_eq!(r.len(), 3);
    assert_eq!(r[0], vec![1, 2, 3]);
    assert_eq!(r[1], vec![4, 5, 6]);
    assert_eq!(r[2], vec![7]);
    let even = chunked(vec![1, 2, 3, 4], 2);
    assert_eq!(even.len(), 2);
    assert_eq!(even[1], vec![3, 4]);
    let empty: Vec<Vec<i32>> = chunked(Vec::new(), 4);
    assert_eq!(empty.len(), 0);
}

#[test]
fn session_with_meetings_is_treated_as_complete() {
    let store = store_with_one_meeting();
    assert_eq!(Meetings::get_session_count(&store, 5), 1);
    assert_eq!(sessions_needing_meetings(&store, 9), Vec::<i32>::new());
    assert_eq!(meetings_tasks(&store), vec![5]);
}

#[test]
fn session_without_meetings_needs_fetching() {
    let sessions = "<SeimoKadencija kadencijos_id=\"9\">\
        <SeimoSesija sesijos_id=\"5\" numeris=\"1\" pavadinimas=\"Rudens\" \
         data_nuo=\"2020-09-10\" data_iki=\"2020-12-23\"/></SeimoKadencija>";
    let mut store = Store::new();
    get_sessions(sessions, &mut store);
    assert_eq!(sessions_needing_meetings(&store, 9), vec![5]);
}

#[test]
fn missing_id_views_drive_incremental_backfill() {
    let mut store = Store::new();
    let v = Vote { id: 300, summary: None, result: None, from: None, to: None };
    v.save(&mut store).unwrap();
    assert_eq!(VoteData::get_missing_vote_ids(&store), vec![300]);
    let vd = VoteData { id: 300, person_id: 55, vote: None };
    vd.save(&mut store).unwrap();
    assert_eq!(VoteData::get_missing_vote_ids(&store), Vec::<i32>::new());
    assert_eq!(RegistrationData::get_missing_registration_ids(&store), Vec::<i32>::new());
    let m = store_with_one_meeting();
    assert!(!has_meeting_detail(&m, 42));
    assert_eq!(Meetings::get_missing_meeting_ids(&m), vec![42]);
}

#[test]
fn event_row_is_independent_of_detail_rows() {
    let mut store = Store::new();
    let vd = VoteData { id: 300, person_id: 55, vote: None };
    vd.save(&mut store).unwrap();
    let v = Vote { id: 300, summary: None, result: None, from: None, to: None };
    let r = v.save(&mut store);
    assert!(r.is_ok());
    assert_eq!(store.votes.len(), 1);
    let mut bare = Store::new();
    let r2 = v.save(&mut bare);
    assert!(r2.is_ok());
    assert_eq!(bare.votes.len(), 1);
    assert_eq!(bare.vote_data.len(), 0);
}

#[test]
fn exhausted_office_identifiers_fail_the_save() {
    let mut store = Store::new();
    store.next_office_id = i32::MAX;
    let office = OfficeInsertable {
        department_id: Some(12),
        department_name: None,
        department_type: None,
        duties: None,
        from: None,
        to: None,
    };
    assert_eq!(office.save(&mut store).unwrap_err(), StoreError::Fatal);
    assert_eq!(store.offices.len(), 0);
}

#[test]
fn decimal_reader_matches_the_numeric_fields() {
    assert_eq!(parse_i32("123"), Some(123));
    assert_eq!(parse_i32("-45"), Some(-45));
    assert_eq!(parse_i32("+7"), Some(7));
    assert_eq!(parse_i32("2147483647"), Some(2147483647));
    assert_eq!(parse_i32("-2147483648"), Some(-2147483648));
    assert_eq!(parse_i32("2147483648"), None);
    assert_eq!(parse_i32("-2147483649"), None);
    assert_eq!(parse_i32(""), None);
    assert_eq!(parse_i32("-"), None);
    assert_eq!(parse_i32("12a"), None);
    assert_eq!(parse_i32(" 12"), None);
    assert_eq!(parse_i32("007"), Some(7));
}

#[test]
fn id_queries_report_row_order() {
    let feed = "<SeimoKadencijos>\
        <SeimoKadencija kadencijos_id=\"8\" pavadinimas=\"A\" \
         data_nuo=\"2016-01-01\" data_iki=\"2020-01-01\"/>\
        <SeimoKadencija kadencijos_id=\"9\" pavadinimas=\"B\" \
         data_nuo=\"2020-01-01\" data_iki=\"2024-01-01\"/>\
        </SeimoKadencijos>";
    let mut store = Store::new();
    seimas_ingest::parliaments::get_parliaments(feed, &mut store);
    assert_eq!(Parliament::get_parliaments_ids(&store), vec![8, 9]);
    assert_eq!(Sessions::get_sessions_per_parliament(&store, 9), Vec::<i32>::new());
}

#[test]
fn meeting_detail_row_keeps_its_meeting_key() {
    let mut store = Store::new();
    let md = MeetingData { id: 42, from: None, to: None, agenda: vec![1], registrations: vec![] };
    md.save(&mut store).unwrap();
    assert!(has_meeting_detail(&store, 42));
    let md2 = MeetingData { id: 42, from: None, to: None, agenda: vec![1, 2], registrations: vec![] };
    md2.save(&mut store).unwrap();
    assert_eq!(store.meeting_data.len(), 1);
    assert_eq!(store.meeting_data[0].agenda, vec![1, 2]);
}

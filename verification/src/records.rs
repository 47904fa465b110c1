use vstd::prelude::*;
use crate::dates::{Date, DateTime};

verus! {

/// Tag for the stored column type behind `DepartmentType` values.
pub struct PqDepartmentType;

/// Tag for the stored column type behind `Gender` values.
pub struct PqGender;

/// Tag for the stored column type behind `VoteType` values.
pub struct PqVoteType;

/// Whether an office belongs to an administrative unit or to a parliamentary
/// group.
#[derive(Clone, Copy, PartialEq, Eq, Structural, Debug)]
pub enum DepartmentType {
    Office,
    Group,
}

/// A politician's recorded gender.
#[derive(Clone, Copy, PartialEq, Eq, Structural, Debug)]
pub enum Gender {
    M,
    F,
}

/// One person's choice in a vote.
#[derive(Clone, Copy, PartialEq, Eq, Structural, Debug)]
pub enum VoteType {
    For,
    Against,
    Abstain,
}

/// The view of an optional text field.
pub open spec fn opt_str(o: Option<String>) -> Option<Seq<char>> {
    match o {
        Some(s) => Some(s@),
        None => None,
    }
}

/// The view of an optional identifier.
pub open spec fn opt_id(o: Option<i32>) -> Option<int> {
    match o {
        Some(x) => Some(x as int),
        None => None,
    }
}

/// The view of an identifier array.
pub open spec fn ids_view(v: Seq<i32>) -> Seq<int> {
    v.map_values(|x: i32| x as int)
}

/// The view of a text array.
pub open spec fn strs_view(v: Seq<String>) -> Seq<Seq<char>> {
    v.map_values(|s: String| s@)
}

/// Copies an identifier array.
pub fn copy_ids(v: &Vec<i32>) -> (r: Vec<i32>)
    ensures
        r@ == v@,
{
    let mut out: Vec<i32> = Vec::new();
    let mut i: usize = 0;
    while i < v.len()
        invariant
            i <= v.len(),
            out@ == v@.subrange(0, i as int),
        decreases v.len() - i,
    {
        out.push(v[i]);
        i = i + 1;
        proof {
            assert(v@.subrange(0, i as int) =~= v@.subrange(0, i - 1).push(v@[i - 1]));
        }
    }
    proof {
        assert(v@.subrange(0, v@.len() as int) =~= v@);
    }
    out
}

/// Copies a text array.
pub fn copy_strings(v: &Vec<String>) -> (r: Vec<String>)
    ensures
        r@ == v@,
{
    let mut out: Vec<String> = Vec::new();
    let mut i: usize = 0;
    while i < v.len()
        invariant
            i <= v.len(),
            out@ == v@.subrange(0, i as int),
        decreases v.len() - i,
    {
        out.push(v[i].clone());
        i = i + 1;
        proof {
            assert(v@.subrange(0, i as int) =~= v@.subrange(0, i - 1).push(v@[i - 1]));
        }
    }
    proof {
        assert(v@.subrange(0, v@.len() as int) =~= v@);
    }
    out
}

/// Copies an optional text field.
pub fn copy_opt_string(o: &Option<String>) -> (r: Option<String>)
    ensures
        r == *o,
{
    match o {
        Some(s) => Some(s.clone()),
        None => None,
    }
}

/// A parliamentary term. Terms are immutable once stored: a conflicting write
/// is ignored.
#[derive(Debug)]
pub struct Parliament {
    pub id: i32,
    pub name: Option<String>,
    pub from: Option<Date>,
    pub to: Option<Date>,
}

pub struct ParliamentV {
    pub id: int,
    pub name: Option<Seq<char>>,
    pub from: Option<Date>,
    pub to: Option<Date>,
}

impl View for Parliament {
    type V = ParliamentV;

    open spec fn view(&self) -> ParliamentV {
        ParliamentV { id: self.id as int, name: opt_str(self.name), from: self.from, to: self.to }
    }
}

impl Parliament {
    pub fn dup(&self) -> (r: Self)
        ensures
            r@ == self@,
    {
        Parliament {
            id: self.id,
            name: copy_opt_string(&self.name),
            from: self.from,
            to: self.to,
        }
    }
}

/// A member of a parliamentary term, keyed by person and term together.
#[derive(Debug)]
pub struct Politician {
    pub id: i32,
    pub parliament: i32,
    pub name: String,
    pub surname: String,
    pub gender: Option<Gender>,
    pub from: Option<Date>,
    pub to: Option<Date>,
    pub party: Option<String>,
    pub elected_type: Option<String>,
    pub biography_link: Option<String>,
    pub term_count: Option<i32>,
    pub email: Option<String>,
    pub phone: Vec<String>,
    pub website: Option<String>,
    pub offices: Vec<i32>,
}

pub struct PoliticianV {
    pub id: int,
    pub parliament: int,
    pub name: Seq<char>,
    pub surname: Seq<char>,
    pub gender: Option<Gender>,
    pub from: Option<Date>,
    pub to: Option<Date>,
    pub party: Option<Seq<char>>,
    pub elected_type: Option<Seq<char>>,
    pub biography_link: Option<Seq<char>>,
    pub term_count: Option<i32>,
    pub email: Option<Seq<char>>,
    pub phone: Seq<Seq<char>>,
    pub website: Option<Seq<char>>,
    pub offices: Seq<int>,
}

impl View for Politician {
    type V = PoliticianV;

    open spec fn view(&self) -> PoliticianV {
        PoliticianV {
            id: self.id as int,
            parliament: self.parliament as int,
            name: self.name@,
            surname: self.surname@,
            gender: self.gender,
            from: self.from,
            to: self.to,
            party: opt_str(self.party),
            elected_type: opt_str(self.elected_type),
            biography_link: opt_str(self.biography_link),
            term_count: self.term_count,
            email: opt_str(self.email),
            phone: strs_view(self.phone@),
            website: opt_str(self.website),
            offices: ids_view(self.offices@),
        }
    }
}

impl Politician {
    pub fn dup(&self) -> (r: Self)
        ensures
            r@ == self@,
    {
        Politician {
            id: self.id,
            parliament: self.parliament,
            name: self.name.clone(),
            surname: self.surname.clone(),
            gender: self.gender,
            from: self.from,
            to: self.to,
            party: copy_opt_string(&self.party),
            elected_type: copy_opt_string(&self.elected_type),
            biography_link: copy_opt_string(&self.biography_link),
            term_count: self.term_count,
            email: copy_opt_string(&self.email),
            phone: copy_strings(&self.phone),
            website: copy_opt_string(&self.website),
            offices: copy_ids(&self.offices),
        }
    }
}

/// An office to be stored; the store assigns its identifier.
#[derive(Debug)]
pub struct OfficeInsertable {
    pub department_id: Option<i32>,
    pub department_name: Option<String>,
    pub department_type: Option<DepartmentType>,
    pub duties: Option<String>,
    pub from: Option<Date>,
    pub to: Option<Date>,
}

pub struct OfficeInsertableV {
    pub department_id: Option<i32>,
    pub department_name: Option<Seq<char>>,
    pub department_type: Option<DepartmentType>,
    pub duties: Option<Seq<char>>,
    pub from: Option<Date>,
    pub to: Option<Date>,
}

impl View for OfficeInsertable {
    type V = OfficeInsertableV;

    open spec fn view(&self) -> OfficeInsertableV {
        OfficeInsertableV {
            department_id: self.department_id,
            department_name: opt_str(self.department_name),
            department_type: self.department_type,
            duties: opt_str(self.duties),
            from: self.from,
            to: self.to,
        }
    }
}

/// A stored office, with the identifier the store assigned to it.
#[derive(Debug)]
pub struct OfficeQueryable {
    pub id: i32,
    pub department_id: Option<i32>,
    pub department_name: Option<String>,
    pub department_type: Option<DepartmentType>,
    pub duties: Option<String>,
    pub from: Option<Date>,
    pub to: Option<Date>,
}

pub struct OfficeQueryableV {
    pub id: int,
    pub department_id: Option<i32>,
    pub department_name: Option<Seq<char>>,
    pub department_type: Option<DepartmentType>,
    pub duties: Option<Seq<char>>,
    pub from: Option<Date>,
    pub to: Option<Date>,
}

impl View for OfficeQueryable {
    type V = OfficeQueryableV;

    open spec fn view(&self) -> OfficeQueryableV {
        OfficeQueryableV {
            id: self.id as int,
            department_id: self.department_id,
            department_name: opt_str(self.department_name),
            department_type: self.department_type,
            duties: opt_str(self.duties),
            from: self.from,
            to: self.to,
        }
    }
}

/// A sitting period of one parliamentary term.
#[derive(Debug)]
pub struct Sessions {
    pub id: i32,
    pub num: i32,
    pub name: String,
    pub from: Option<Date>,
    pub to: Option<Date>,
    pub parliament: i32,
}

pub struct SessionsV {
    pub id: int,
    pub num: i32,
    pub name: Seq<char>,
    pub from: Option<Date>,
    pub to: Option<Date>,
    pub parliament: int,
}

impl View for Sessions {
    type V = SessionsV;

    open spec fn view(&self) -> SessionsV {
        SessionsV {
            id: self.id as int,
            num: self.num,
            name: self.name@,
            from: self.from,
            to: self.to,
            parliament: self.parliament as int,
        }
    }
}

impl Sessions {
    pub fn dup(&self) -> (r: Self)
        ensures
            r@ == self@,
    {
        Sessions {
            id: self.id,
            num: self.num,
            name: self.name.clone(),
            from: self.from,
            to: self.to,
            parliament: self.parliament,
        }
    }
}

/// A sitting of one session, with its optional record links.
#[derive(Debug)]
pub struct Meetings {
    pub id: i32,
    pub num: i32,
    pub meeting_type: String,
    pub from: Option<DateTime>,
    pub to: Option<DateTime>,
    pub session: i32,
    pub protocol_link: Option<String>,
    pub stenogram_link: Option<String>,
    pub video_comment: Option<String>,
    pub video_link: Option<String>,
}

pub struct MeetingsV {
    pub id: int,
    pub num: i32,
    pub meeting_type: Seq<char>,
    pub from: Option<DateTime>,
    pub to: Option<DateTime>,
    pub session: int,
    pub protocol_link: Option<Seq<char>>,
    pub stenogram_link: Option<Seq<char>>,
    pub video_comment: Option<Seq<char>>,
    pub video_link: Option<Seq<char>>,
}

impl View for Meetings {
    type V = MeetingsV;

    open spec fn view(&self) -> MeetingsV {
        MeetingsV {
            id: self.id as int,
            num: self.num,
            meeting_type: self.meeting_type@,
            from: self.from,
            to: self.to,
            session: self.session as int,
            protocol_link: opt_str(self.protocol_link),
            stenogram_link: opt_str(self.stenogram_link),
            video_comment: opt_str(self.video_comment),
            video_link: opt_str(self.video_link),
        }
    }
}

impl Meetings {
    pub fn dup(&self) -> (r: Self)
        ensures
            r@ == self@,
    {
        Meetings {
            id: self.id,
            num: self.num,
            meeting_type: self.meeting_type.clone(),
            from: self.from,
            to: self.to,
            session: self.session,
            protocol_link: copy_opt_string(&self.protocol_link),
            stenogram_link: copy_opt_string(&self.stenogram_link),
            video_comment: copy_opt_string(&self.video_comment),
            video_link: copy_opt_string(&self.video_link),
        }
    }
}

/// The detailed course of one meeting, with its child identifier arrays.
#[derive(Debug)]
pub struct MeetingData {
    pub id: i32,
    pub from: Option<DateTime>,
    pub to: Option<DateTime>,
    pub agenda: Vec<i32>,
    pub registrations: Vec<i32>,
}

pub struct MeetingDataV {
    pub id: int,
    pub from: Option<DateTime>,
    pub to: Option<DateTime>,
    pub agenda: Seq<int>,
    pub registrations: Seq<int>,
}

impl View for MeetingData {
    type V = MeetingDataV;

    open spec fn view(&self) -> MeetingDataV {
        MeetingDataV {
            id: self.id as int,
            from: self.from,
            to: self.to,
            agenda: ids_view(self.agenda@),
            registrations: ids_view(self.registrations@),
        }
    }
}

impl MeetingData {
    pub fn dup(&self) -> (r: Self)
        ensures
            r@ == self@,
    {
        MeetingData {
            id: self.id,
            from: self.from,
            to: self.to,
            agenda: copy_ids(&self.agenda),
            registrations: copy_ids(&self.registrations),
        }
    }
}

/// One agenda item of a meeting, with its child identifier arrays.
#[derive(Debug)]
pub struct AgendaItem {
    pub id: i32,
    pub agenda_state_id: Option<i32>,
    pub agenda_group_id: Option<i32>,
    pub document_key: Option<i32>,
    pub nr: Option<String>,
    pub name: Option<String>,
    pub state: Option<String>,
    pub agenda_type: Option<String>,
    pub from: Option<DateTime>,
    pub to: Option<DateTime>,
    pub speeches: Vec<i32>,
    pub voting: Vec<i32>,
}

pub struct AgendaItemV {
    pub id: int,
    pub agenda_state_id: Option<i32>,
    pub agenda_group_id: Option<i32>,
    pub document_key: Option<i32>,
    pub nr: Option<Seq<char>>,
    pub name: Option<Seq<char>>,
    pub state: Option<Seq<char>>,
    pub agenda_type: Option<Seq<char>>,
    pub from: Option<DateTime>,
    pub to: Option<DateTime>,
    pub speeches: Seq<int>,
    pub voting: Seq<int>,
}

impl View for AgendaItem {
    type V = AgendaItemV;

    open spec fn view(&self) -> AgendaItemV {
        AgendaItemV {
            id: self.id as int,
            agenda_state_id: self.agenda_state_id,
            agenda_group_id: self.agenda_group_id,
            document_key: self.document_key,
            nr: opt_str(self.nr),
            name: opt_str(self.name),
            state: opt_str(self.state),
            agenda_type: opt_str(self.agenda_type),
            from: self.from,
            to: self.to,
            speeches: ids_view(self.speeches@),
            voting: ids_view(self.voting@),
        }
    }
}

impl AgendaItem {
    pub fn dup(&self) -> (r: Self)
        ensures
            r@ == self@,
    {
        AgendaItem {
            id: self.id,
            agenda_state_id: self.agenda_state_id,
            agenda_group_id: self.agenda_group_id,
            document_key: self.document_key,
            nr: copy_opt_string(&self.nr),
            name: copy_opt_string(&self.name),
            state: copy_opt_string(&self.state),
            agenda_type: copy_opt_string(&self.agenda_type),
            from: self.from,
            to: self.to,
            speeches: copy_ids(&self.speeches),
            voting: copy_ids(&self.voting),
        }
    }
}

/// A voting event of an agenda item.
#[derive(Debug)]
pub struct Vote {
    pub id: i32,
    pub summary: Option<String>,
    pub result: Option<String>,
    pub from: Option<DateTime>,
    pub to: Option<DateTime>,
}

pub struct VoteV {
    pub id: int,
    pub summary: Option<Seq<char>>,
    pub result: Option<Seq<char>>,
    pub from: Option<DateTime>,
    pub to: Option<DateTime>,
}

impl View for Vote {
    type V = VoteV;

    open spec fn view(&self) -> VoteV {
        VoteV {
            id: self.id as int,
            summary: opt_str(self.summary),
            result: opt_str(self.result),
            from: self.from,
            to: self.to,
        }
    }
}

impl Vote {
    pub fn dup(&self) -> (r: Self)
        ensures
            r@ == self@,
    {
        Vote {
            id: self.id,
            summary: copy_opt_string(&self.summary),
            result: copy_opt_string(&self.result),
            from: self.from,
            to: self.to,
        }
    }
}

/// One speaker's turn within an agenda item.
#[derive(Debug)]
pub struct Speech {
    pub id: i32,
    pub discussion_id: Option<i32>,
    pub person_id: Option<i32>,
    pub person: Option<String>,
    pub office: Option<String>,
    pub from: Option<DateTime>,
    pub to: Option<DateTime>,
}

pub struct SpeechV {
    pub id: int,
    pub discussion_id: Option<i32>,
    pub person_id: Option<i32>,
    pub person: Option<Seq<char>>,
    pub office: Option<Seq<char>>,
    pub from: Option<DateTime>,
    pub to: Option<DateTime>,
}

impl View for Speech {
    type V = SpeechV;

    open spec fn view(&self) -> SpeechV {
        SpeechV {
            id: self.id as int,
            discussion_id: self.discussion_id,
            person_id: self.person_id,
            person: opt_str(self.person),
            office: opt_str(self.office),
            from: self.from,
            to: self.to,
        }
    }
}

impl Speech {
    pub fn dup(&self) -> (r: Self)
        ensures
            r@ == self@,
    {
        Speech {
            id: self.id,
            discussion_id: self.discussion_id,
            person_id: self.person_id,
            person: copy_opt_string(&self.person),
            office: copy_opt_string(&self.office),
            from: self.from,
            to: self.to,
        }
    }
}

/// A roll-call event of one meeting.
#[derive(Debug)]
pub struct Registration {
    pub id: i32,
    pub result: Option<String>,
    pub from: Option<DateTime>,
    pub to: Option<DateTime>,
}

pub struct RegistrationV {
    pub id: int,
    pub result: Option<Seq<char>>,
    pub from: Option<DateTime>,
    pub to: Option<DateTime>,
}

impl View for Registration {
    type V = RegistrationV;

    open spec fn view(&self) -> RegistrationV {
        RegistrationV {
            id: self.id as int,
            result: opt_str(self.result),
            from: self.from,
            to: self.to,
        }
    }
}

impl Registration {
    pub fn dup(&self) -> (r: Self)
        ensures
            r@ == self@,
    {
        Registration {
            id: self.id,
            result: copy_opt_string(&self.result),
            from: self.from,
            to: self.to,
        }
    }
}

/// One person's choice within a voting event, keyed by vote and person.
#[derive(Clone, Copy, PartialEq, Eq, Structural, Debug)]
pub struct VoteData {
    pub id: i32,
    pub person_id: i32,
    pub vote: Option<VoteType>,
}

pub struct VoteDataV {
    pub id: int,
    pub person_id: int,
    pub vote: Option<VoteType>,
}

impl View for VoteData {
    type V = VoteDataV;

    open spec fn view(&self) -> VoteDataV {
        VoteDataV { id: self.id as int, person_id: self.person_id as int, vote: self.vote }
    }
}

/// One person's presence within a roll-call event, keyed by event and person.
#[derive(Clone, Copy, PartialEq, Eq, Structural, Debug)]
pub struct RegistrationData {
    pub id: i32,
    pub person_id: i32,
    pub registered: Option<bool>,
}

pub struct RegistrationDataV {
    pub id: int,
    pub person_id: int,
    pub registered: Option<bool>,
}

impl View for RegistrationData {
    type V = RegistrationDataV;

    open spec fn view(&self) -> RegistrationDataV {
        RegistrationDataV {
            id: self.id as int,
            person_id: self.person_id as int,
            registered: self.registered,
        }
    }
}

} // verus!

use vstd::prelude::*;
use crate::records::{
    AgendaItem, MeetingData, Meetings, OfficeInsertable, OfficeQueryable, Parliament, Politician,
    Registration, RegistrationData, Sessions, Speech, Vote, VoteData,
};
use crate::store::{
    ignore_row, office_with_id, rkf, upsert_row, Row, Store, StoreError,
};
use crate::upsert::{has_key, ign1, up1};

verus! {

// Each entity writes itself into its table under its declared conflict
// policy: Parliament rows are insert-or-ignore (the first writer wins), every
// other row is insert-or-update (a conflicting write overwrites every mutable
// column). A successful write reports the stored row.

impl Parliament {
    /// Insert-or-ignore write: an existing row with this identifier is never
    /// altered, and the write then reports no row.
    pub fn save(&self, store: &mut Store) -> (r: Result<Option<Parliament>, StoreError>)
        requires
            old(store)@.wf(),
        ensures
            final(store)@.wf(),
            final(store)@ == old(store)@.with_parliaments(
                ign1(old(store)@.parliaments, rkf::<Parliament>(), self@),
            ),
            match r {
                Ok(Some(p)) => p@ == self@ && !has_key(
                    old(store)@.parliaments,
                    rkf::<Parliament>(),
                    self@.id,
                ),
                Ok(None) => has_key(old(store)@.parliaments, rkf::<Parliament>(), self@.id),
                Err(_) => false,
            },
    {
        let inserted = ignore_row(&mut store.parliaments, self.dup());
        proof {
            assert(store@ =~= old(store)@.with_parliaments(
                ign1(old(store)@.parliaments, rkf::<Parliament>(), self@),
            ));
        }
        if inserted {
            Ok(Some(self.dup()))
        } else {
            Ok(None)
        }
    }
}

impl Politician {
    /// Insert-or-update write keyed by person and term together.
    pub fn save(&self, store: &mut Store) -> (r: Result<Option<Politician>, StoreError>)
        requires
            old(store)@.wf(),
        ensures
            final(store)@.wf(),
            final(store)@ == old(store)@.with_politicians(
                up1(old(store)@.politicians, rkf::<Politician>(), self@),
            ),
            match r {
                Ok(Some(p)) => p@ == self@,
                _ => false,
            },
    {
        upsert_row(&mut store.politicians, self.dup());
        proof {
            assert(store@ =~= old(store)@.with_politicians(
                up1(old(store)@.politicians, rkf::<Politician>(), self@),
            ));
        }
        Ok(Some(self.dup()))
    }
}

impl OfficeInsertable {
    /// Appends an office under a freshly assigned identifier and reports the
    /// stored row; fails only when the identifier space is exhausted.
    pub fn save(&self, store: &mut Store) -> (r: Result<Option<OfficeQueryable>, StoreError>)
        requires
            old(store)@.wf(),
        ensures
            final(store)@.wf(),
            match r {
                Ok(Some(o)) => old(store)@.next_office_id < i32::MAX && o@ == office_with_id(
                    self@,
                    old(store)@.next_office_id,
                ) && final(store)@ == old(store)@.with_office_added(o@),
                Ok(None) => false,
                Err(_) => old(store)@.next_office_id == i32::MAX && final(store)@ == old(store)@,
            },
    {
        if store.next_office_id == i32::MAX {
            return Err(StoreError::Fatal);
        }
        let id = store.next_office_id;
        let o = OfficeQueryable {
            id,
            department_id: self.department_id,
            department_name: crate::records::copy_opt_string(&self.department_name),
            department_type: self.department_type,
            duties: crate::records::copy_opt_string(&self.duties),
            from: self.from,
            to: self.to,
        };
        let stored = o.dup_row();
        store.offices.push(stored);
        store.next_office_id = id + 1;
        proof {
            let t = store@.offices;
            let prev = old(store)@.offices;
            assert(t =~= prev.push(o@));
            assert(store@ =~= old(store)@.with_office_added(o@));
            assert forall|i: int, j: int| 0 <= i < j < t.len() implies rkf::<OfficeQueryable>()(
                t[i],
            ) != rkf::<OfficeQueryable>()(t[j]) by {
                if j == t.len() - 1 {
                    assert(t[i] == prev[i]);
                    assert(prev[i].id < id as int);
                }
            }
        }
        Ok(Some(o))
    }
}

impl Sessions {
    /// Insert-or-update write of one session row.
    pub fn save(&self, store: &mut Store) -> (r: Result<Option<Sessions>, StoreError>)
        requires
            old(store)@.wf(),
        ensures
            final(store)@.wf(),
            final(store)@ == old(store)@.with_sessions(
                up1(old(store)@.sessions, rkf::<Sessions>(), self@),
            ),
            match r {
                Ok(Some(s)) => s@ == self@,
                _ => false,
            },
    {
        upsert_row(&mut store.sessions, self.dup());
        proof {
            assert(store@ =~= old(store)@.with_sessions(
                up1(old(store)@.sessions, rkf::<Sessions>(), self@),
            ));
        }
        Ok(Some(self.dup()))
    }
}

impl Meetings {
    /// Insert-or-update write of one sitting row.
    pub fn save(&self, store: &mut Store) -> (r: Result<Option<Meetings>, StoreError>)
        requires
            old(store)@.wf(),
        ensures
            final(store)@.wf(),
            final(store)@ == old(store)@.with_meetings(
                up1(old(store)@.meetings, rkf::<Meetings>(), self@),
            ),
            match r {
                Ok(Some(m)) => m@ == self@,
                _ => false,
            },
    {
        upsert_row(&mut store.meetings, self.dup());
        proof {
            assert(store@ =~= old(store)@.with_meetings(
                up1(old(store)@.meetings, rkf::<Meetings>(), self@),
            ));
        }
        Ok(Some(self.dup()))
    }
}

impl MeetingData {
    /// Insert-or-update write of one meeting-detail row.
    pub fn save(&self, store: &mut Store) -> (r: Result<Option<MeetingData>, StoreError>)
        requires
            old(store)@.wf(),
        ensures
            final(store)@.wf(),
            final(store)@ == old(store)@.with_meeting_data(
                up1(old(store)@.meeting_data, rkf::<MeetingData>(), self@),
            ),
            match r {
                Ok(Some(m)) => m@ == self@,
                _ => false,
            },
    {
        upsert_row(&mut store.meeting_data, self.dup());
        proof {
            assert(store@ =~= old(store)@.with_meeting_data(
                up1(old(store)@.meeting_data, rkf::<MeetingData>(), self@),
            ));
        }
        Ok(Some(self.dup()))
    }
}

impl AgendaItem {
    /// Insert-or-update write of one agenda-item row.
    pub fn save(&self, store: &mut Store) -> (r: Result<Option<AgendaItem>, StoreError>)
        requires
            old(store)@.wf(),
        ensures
            final(store)@.wf(),
            final(store)@ == old(store)@.with_agenda_items(
                up1(old(store)@.agenda_items, rkf::<AgendaItem>(), self@),
            ),
            match r {
                Ok(Some(a)) => a@ == self@,
                _ => false,
            },
    {
        upsert_row(&mut store.agenda_items, self.dup());
        proof {
            assert(store@ =~= old(store)@.with_agenda_items(
                up1(old(store)@.agenda_items, rkf::<AgendaItem>(), self@),
            ));
        }
        Ok(Some(self.dup()))
    }
}

impl Vote {
    /// Insert-or-update write of one voting-event row. The write touches no
    /// per-person detail table.
    pub fn save(&self, store: &mut Store) -> (r: Result<Option<Vote>, StoreError>)
        requires
            old(store)@.wf(),
        ensures
            final(store)@.wf(),
            final(store)@ == old(store)@.with_votes(up1(old(store)@.votes, rkf::<Vote>(), self@)),
            match r {
                Ok(Some(v)) => v@ == self@,
                _ => false,
            },
    {
        upsert_row(&mut store.votes, self.dup());
        proof {
            assert(store@ =~= old(store)@.with_votes(
                up1(old(store)@.votes, rkf::<Vote>(), self@),
            ));
        }
        Ok(Some(self.dup()))
    }
}

impl Speech {
    /// Insert-or-update write of one speech row.
    pub fn save(&self, store: &mut Store) -> (r: Result<Option<Speech>, StoreError>)
        requires
            old(store)@.wf(),
        ensures
            final(store)@.wf(),
            final(store)@ == old(store)@.with_speeches(
                up1(old(store)@.speeches, rkf::<Speech>(), self@),
            ),
            match r {
                Ok(Some(s)) => s@ == self@,
                _ => false,
            },
    {
        upsert_row(&mut store.speeches, self.dup());
        proof {
            assert(store@ =~= old(store)@.with_speeches(
                up1(old(store)@.speeches, rkf::<Speech>(), self@),
            ));
        }
        Ok(Some(self.dup()))
    }
}

impl Registration {
    /// Insert-or-update write of one roll-call-event row. The write touches
    /// no per-person detail table.
    pub fn save(&self, store: &mut Store) -> (r: Result<Option<Registration>, StoreError>)
        requires
            old(store)@.wf(),
        ensures
            final(store)@.wf(),
            final(store)@ == old(store)@.with_registrations(
                up1(old(store)@.registrations, rkf::<Registration>(), self@),
            ),
            match r {
                Ok(Some(g)) => g@ == self@,
                _ => false,
            },
    {
        upsert_row(&mut store.registrations, self.dup());
        proof {
            assert(store@ =~= old(store)@.with_registrations(
                up1(old(store)@.registrations, rkf::<Registration>(), self@),
            ));
        }
        Ok(Some(self.dup()))
    }
}

impl VoteData {
    /// Insert-or-update write of one per-person vote row, keyed by vote and
    /// person together.
    pub fn save(&self, store: &mut Store) -> (r: Result<Option<VoteData>, StoreError>)
        requires
            old(store)@.wf(),
        ensures
            final(store)@.wf(),
            final(store)@ == old(store)@.with_vote_data(
                up1(old(store)@.vote_data, rkf::<VoteData>(), self@),
            ),
            match r {
                Ok(Some(v)) => v@ == self@,
                _ => false,
            },
    {
        upsert_row(&mut store.vote_data, *self);
        proof {
            assert(store@ =~= old(store)@.with_vote_data(
                up1(old(store)@.vote_data, rkf::<VoteData>(), self@),
            ));
        }
        Ok(Some(*self))
    }
}

impl RegistrationData {
    /// Insert-or-update write of one per-person registration row, keyed by
    /// event and person together.
    pub fn save(&self, store: &mut Store) -> (r: Result<Option<RegistrationData>, StoreError>)
        requires
            old(store)@.wf(),
        ensures
            final(store)@.wf(),
            final(store)@ == old(store)@.with_registration_data(
                up1(old(store)@.registration_data, rkf::<RegistrationData>(), self@),
            ),
            match r {
                Ok(Some(v)) => v@ == self@,
                _ => false,
            },
    {
        upsert_row(&mut store.registration_data, *self);
        proof {
            assert(store@ =~= old(store)@.with_registration_data(
                up1(old(store)@.registration_data, rkf::<RegistrationData>(), self@),
            ));
        }
        Ok(Some(*self))
    }
}

} // verus!

use vstd::prelude::*;
use crate::records::{Parliament, RegistrationDataV, RegistrationV, VoteDataV, VoteV};
use crate::store::{rkf, Row, StoreView};
use crate::upsert::{dkeys, has_key, ign1, lemma_up1, up1, val_at};
use crate::writes::{apply_write, WriteOp};

verus! {

// The laws below state the conflict policies and the event-row independence
// in their own right, over the same write model the parsers' contracts use.

/// A conflicting write never alters an insert-or-ignore table: writing a
/// parliament whose identifier is already stored leaves the whole store as
/// it was.
pub proof fn lemma_ignore_keeps_existing(sv: StoreView, p: crate::records::ParliamentV)
    requires
        sv.wf(),
        has_key(sv.parliaments, rkf::<Parliament>(), p.id),
    ensures
        apply_write(sv, WriteOp::WParliament(p)) == sv,
{
    assert(ign1(sv.parliaments, rkf::<Parliament>(), p) == sv.parliaments) by {
        assert(rkf::<Parliament>()(p) == p.id);
    }
    assert(sv.with_parliaments(sv.parliaments) == sv);
}

/// A conflicting write always overwrites an insert-or-update table: after
/// the write, the row under the written key holds exactly the new values,
/// whether or not the key was present before.
pub proof fn lemma_update_overwrites<V, K>(s: Seq<V>, kf: spec_fn(V) -> K, v: V)
    requires
        dkeys(s, kf),
    ensures
        has_key(up1(s, kf, v), kf, kf(v)),
        val_at(up1(s, kf, v), kf, kf(v)) == v,
        has_key(s, kf, kf(v)) ==> up1(s, kf, v).len() == s.len(),
{
    lemma_up1(s, kf, v);
    if has_key(s, kf, kf(v)) {
        crate::upsert::lemma_find_key_bounds(s, kf, kf(v));
    }
}

/// A voting event's row is independent of its per-person detail rows: its
/// write reads nothing from the detail table and changes nothing in it, so
/// absent or deleted detail rows cannot prevent it.
pub proof fn lemma_vote_event_independent(sv: StoreView, vd: Seq<VoteDataV>, v: VoteV)
    ensures
        apply_write(sv, WriteOp::WVote(v)).votes == apply_write(
            sv.with_vote_data(vd),
            WriteOp::WVote(v),
        ).votes,
        apply_write(sv, WriteOp::WVote(v)).vote_data == sv.vote_data,
{
}

/// A roll-call event's row is independent of its per-person detail rows in
/// the same way.
pub proof fn lemma_registration_event_independent(
    sv: StoreView,
    rd: Seq<RegistrationDataV>,
    g: RegistrationV,
)
    ensures
        apply_write(sv, WriteOp::WRegistration(g)).registrations == apply_write(
            sv.with_registration_data(rd),
            WriteOp::WRegistration(g),
        ).registrations,
        apply_write(sv, WriteOp::WRegistration(g)).registration_data == sv.registration_data,
{
}

} // verus!

//! The model of the relational store and the writes the engine performs
//! on it.
//!
//! The store keeps proposals keyed by id (at most one row per id) and
//! recommendations append-only.  [`Store::upsert_proposals`] is the
//! transactional writer: a batch is applied all-or-nothing, and a row
//! that already exists keeps its creation-time fields while its volatile
//! fields are refreshed — the semantics [`crate::proposal::merged`]
//! pins down.

use vstd::prelude::*;

use crate::errors::CoreError;
use crate::proposal::{merge_into, merged, spec_axis_of, axis_of, Axis, Proposal};
use crate::recommendation::{check_weights, rec_wf, weights_ok, RecView, Recommendation};

verus! {

/// Whether some recommendation row references the proposal id `id`.
pub open spec fn has_rec(recs: Seq<RecView>, id: Seq<char>) -> bool {
    exists|i: int| 0 <= i < recs.len() && recs[i].proposal_id@ == id
}

/// A proposal in need of enrichment: currently active, not yet ended,
/// and without any recommendation row.
pub open spec fn backfill_eligible(p: Proposal, recs: Seq<RecView>, now: i64) -> bool {
    &&& p.state matches Some(st) && st@ == "active"@
    &&& p.end matches Some(e) && e >= now
    &&& !has_rec(recs, p.id@)
}

/// The proposals in need of enrichment, in store order.
pub open spec fn backfill_seq(props: Seq<Proposal>, recs: Seq<RecView>, now: i64) -> Seq<Proposal>
    decreases props.len(),
{
    if props.len() == 0 {
        Seq::empty()
    } else {
        let rest = backfill_seq(props.drop_last(), recs, now);
        if backfill_eligible(props.last(), recs, now) {
            rest.push(props.last())
        } else {
            rest
        }
    }
}

/// Whether any row of `s` carries a value on axis `a`.
pub open spec fn has_axis_value(s: Seq<Proposal>, a: Axis) -> bool {
    exists|i: int| 0 <= i < s.len() && spec_axis_of(s[i], a) is Some
}

/// The cursor the store implies for an axis: the greatest value any
/// stored proposal carries on it, `0` when none does.
pub open spec fn max_axis_spec(s: Seq<Proposal>, a: Axis) -> i64
    decreases s.len(),
{
    if s.len() == 0 {
        0
    } else {
        let rest = max_axis_spec(s.drop_last(), a);
        match spec_axis_of(s.last(), a) {
            Some(v) => if !has_axis_value(s.drop_last(), a) || v > rest {
                v
            } else {
                rest
            },
            None => rest,
        }
    }
}

/// Whether some row of `s` carries the id `id`.
pub open spec fn has_id(s: Seq<Proposal>, id: Seq<char>) -> bool {
    exists|i: int| 0 <= i < s.len() && s[i].id@ == id
}

/// The index of the row of `s` carrying `id` (meaningful when the ids
/// of `s` are unique and `id` is present).
pub open spec fn idx_of(s: Seq<Proposal>, id: Seq<char>) -> int {
    choose|i: int| 0 <= i < s.len() && s[i].id@ == id
}

/// No two rows of `s` share an id.
pub open spec fn unique_ids(s: Seq<Proposal>) -> bool {
    forall|i: int, j: int| 0 <= i < j < s.len() ==> s[i].id@ != s[j].id@
}

/// The persistence constraint on one row: its key must not be empty.
pub open spec fn row_ok(p: Proposal) -> bool {
    p.id@.len() > 0
}

/// Every row of the batch satisfies the persistence constraint.
pub open spec fn batch_ok(b: Seq<Proposal>) -> bool {
    forall|i: int| 0 <= i < b.len() ==> row_ok(#[trigger] b[i])
}

/// One row written with the insert-or-update-on-conflict policy: on
/// first sight the whole record, on conflict only the volatile fields.
pub open spec fn upsert_one(s: Seq<Proposal>, p: Proposal) -> Seq<Proposal> {
    if has_id(s, p.id@) {
        s.update(idx_of(s, p.id@), merged(s[idx_of(s, p.id@)], p))
    } else {
        s.push(p)
    }
}

/// A whole batch written row by row, first row first.
pub open spec fn upsert_seq(s: Seq<Proposal>, b: Seq<Proposal>) -> Seq<Proposal>
    decreases b.len(),
{
    if b.len() == 0 {
        s
    } else {
        upsert_seq(upsert_one(s, b[0]), b.skip(1))
    }
}

/// The index `idx_of` names is the one index carrying the id, when ids
/// are unique.
pub proof fn lemma_idx_of(s: Seq<Proposal>, i: int)
    requires
        unique_ids(s),
        0 <= i < s.len(),
    ensures
        has_id(s, s[i].id@),
        idx_of(s, s[i].id@) == i,
{
    assert(has_id(s, s[i].id@));
    let j = idx_of(s, s[i].id@);
    assert(0 <= j < s.len() && s[j].id@ == s[i].id@);
    if i < j {
        assert(false);
    } else if j < i {
        assert(false);
    }
}

/// Writing one row keeps ids unique, keeps every other row in place,
/// adds the row's id, and respects the per-row constraint.
pub proof fn lemma_upsert_one(s: Seq<Proposal>, p: Proposal)
    requires
        unique_ids(s),
    ensures
        unique_ids(upsert_one(s, p)),
        upsert_one(s, p).len() == if has_id(s, p.id@) {
            s.len() as int
        } else {
            s.len() + 1 as int
        },
        forall|id: Seq<char>|
            #[trigger] has_id(upsert_one(s, p), id) <==> has_id(s, id) || id == p.id@,
        forall|i: int|
            0 <= i < s.len() ==> #[trigger] upsert_one(s, p)[i] == (if s[i].id@ == p.id@ {
                merged(s[i], p)
            } else {
                s[i]
            }),
        !has_id(s, p.id@) ==> upsert_one(s, p)[s.len() as int] == p,
        row_ok(p) && batch_ok(s) ==> batch_ok(upsert_one(s, p)),
{
    let r = upsert_one(s, p);
    if has_id(s, p.id@) {
        let k = idx_of(s, p.id@);
        assert(0 <= k < s.len() && s[k].id@ == p.id@);
        assert(merged(s[k], p).id == s[k].id);
        assert forall|i: int| 0 <= i < s.len() implies #[trigger] r[i] == (if s[i].id@ == p.id@ {
            merged(s[i], p)
        } else {
            s[i]
        }) by {
            lemma_idx_of(s, i);
        }
        assert forall|id: Seq<char>| #[trigger] has_id(r, id) implies has_id(s, id) || id
            == p.id@ by {
            let w = choose|w: int| 0 <= w < r.len() && r[w].id@ == id;
            assert(s[w].id@ == id);
        }
        assert forall|id: Seq<char>| has_id(s, id) || id == p.id@ implies #[trigger] has_id(
            r,
            id,
        ) by {
            if has_id(s, id) {
                let w = choose|w: int| 0 <= w < s.len() && s[w].id@ == id;
                assert(r[w].id@ == id);
            } else {
                assert(r[k].id@ == p.id@);
            }
        }
    } else {
        assert(r == s.push(p));
        assert forall|id: Seq<char>| #[trigger] has_id(r, id) implies has_id(s, id) || id
            == p.id@ by {
            let w = choose|w: int| 0 <= w < r.len() && r[w].id@ == id;
            if w < s.len() {
                assert(s[w].id@ == id);
            }
        }
        assert forall|id: Seq<char>| has_id(s, id) || id == p.id@ implies #[trigger] has_id(
            r,
            id,
        ) by {
            if has_id(s, id) {
                let w = choose|w: int| 0 <= w < s.len() && s[w].id@ == id;
                assert(r[w].id@ == id);
            } else {
                assert(r[s.len() as int].id@ == p.id@);
            }
        }
        assert forall|i: int, j: int| 0 <= i < j < r.len() implies r[i].id@ != r[j].id@ by {
            if j == s.len() {
                assert(r[i] == s[i]);
                assert(!has_id(s, p.id@));
                if s[i].id@ == p.id@ {
                    assert(has_id(s, p.id@));
                }
            }
        }
    }
}

/// Appending one more row to a batch is the same as writing the batch
/// and then the row.
pub proof fn lemma_upsert_seq_snoc(s: Seq<Proposal>, b: Seq<Proposal>, p: Proposal)
    ensures
        upsert_seq(s, b.push(p)) == upsert_one(upsert_seq(s, b), p),
    decreases b.len(),
{
    if b.len() == 0 {
        assert(b.push(p)[0] == p);
        assert(b.push(p).skip(1) =~= Seq::<Proposal>::empty());
        assert(upsert_seq(upsert_one(s, p), b.push(p).skip(1)) == upsert_one(s, p));
    } else {
        assert(b.push(p)[0] == b[0]);
        assert(b.push(p).skip(1) =~= b.skip(1).push(p));
        lemma_upsert_seq_snoc(upsert_one(s, b[0]), b.skip(1), p);
    }
}

proof fn lemma_skip_facts(b: Seq<Proposal>)
    requires
        unique_ids(b),
        b.len() > 0,
    ensures
        b.skip(1).len() == b.len() - 1,
        forall|i: int| 0 <= i < b.len() - 1 ==> #[trigger] b.skip(1)[i] == b[i + 1],
        unique_ids(b.skip(1)),
        batch_ok(b) ==> batch_ok(b.skip(1)),
        !has_id(b.skip(1), b[0].id@),
{
    let rest = b.skip(1);
    assert(rest =~= b.subrange(1, b.len() as int));
    assert forall|i: int, j: int| 0 <= i < j < rest.len() implies rest[i].id@ != rest[j].id@ by {
        assert(rest[i] == b[i + 1]);
        assert(rest[j] == b[j + 1]);
    }
    if batch_ok(b) {
        assert forall|i: int| 0 <= i < rest.len() implies row_ok(#[trigger] rest[i]) by {
            assert(rest[i] == b[i + 1]);
        }
    }
    if has_id(rest, b[0].id@) {
        let w = choose|w: int| 0 <= w < rest.len() && rest[w].id@ == b[0].id@;
        assert(b[w + 1].id@ == b[0].id@);
        assert(false);
    }
}

/// An id found past the first row of a unique batch is found in the
/// batch, one position later.
proof fn lemma_idx_skip(b: Seq<Proposal>, id: Seq<char>)
    requires
        unique_ids(b),
        b.len() > 0,
        has_id(b.skip(1), id),
    ensures
        has_id(b, id),
        idx_of(b, id) == idx_of(b.skip(1), id) + 1,
        b[idx_of(b, id)] == b.skip(1)[idx_of(b.skip(1), id)],
{
    lemma_skip_facts(b);
    let j = idx_of(b.skip(1), id);
    assert(0 <= j < b.skip(1).len() && b.skip(1)[j].id@ == id);
    assert(b.skip(1)[j] == b[j + 1]);
    assert(has_id(b, id));
    lemma_idx_of(b, j + 1);
}

/// What a whole batch write leaves behind, row by row:
/// - ids stay unique, and the ids present afterwards are exactly those
///   present before plus those of the batch;
/// - a row already stored stays at its index; if the batch carries its
///   id it becomes the merge of the stored row with the batch row (the
///   stored creation-time fields, the batch's volatile fields),
///   otherwise it is untouched;
/// - every row beyond the old length is a batch row whose id was not
///   stored before, written whole.
pub proof fn lemma_upsert_effect(s: Seq<Proposal>, b: Seq<Proposal>)
    requires
        unique_ids(s),
        unique_ids(b),
    ensures
        unique_ids(upsert_seq(s, b)),
        s.len() <= upsert_seq(s, b).len(),
        forall|id: Seq<char>|
            #[trigger] has_id(upsert_seq(s, b), id) <==> has_id(s, id) || has_id(b, id),
        forall|i: int|
            0 <= i < s.len() ==> #[trigger] upsert_seq(s, b)[i] == (if has_id(b, s[i].id@) {
                merged(s[i], b[idx_of(b, s[i].id@)])
            } else {
                s[i]
            }),
        forall|i: int|
            s.len() <= i < upsert_seq(s, b).len() ==> has_id(
                b,
                (#[trigger] upsert_seq(s, b)[i]).id@,
            ) && !has_id(s, upsert_seq(s, b)[i].id@) && upsert_seq(s, b)[i] == b[idx_of(
                b,
                upsert_seq(s, b)[i].id@,
            )],
        batch_ok(s) && batch_ok(b) ==> batch_ok(upsert_seq(s, b)),
    decreases b.len(),
{
    let r = upsert_seq(s, b);
    if b.len() == 0 {
    } else {
        let p = b[0];
        let s1 = upsert_one(s, p);
        let rest = b.skip(1);
        lemma_upsert_one(s, p);
        lemma_skip_facts(b);
        lemma_upsert_effect(s1, rest);
        assert(r == upsert_seq(s1, rest));
        lemma_idx_of(b, 0);
        assert(idx_of(b, p.id@) == 0);
        // which ids the batch carries
        assert forall|id: Seq<char>|
            #![trigger has_id(b, id)]
            has_id(b, id) <==> (id == p.id@ || has_id(rest, id)) by {
            if has_id(b, id) {
                let w = choose|w: int| 0 <= w < b.len() && b[w].id@ == id;
                if w > 0 {
                    assert(rest[w - 1] == b[w]);
                    assert(has_id(rest, id));
                }
            }
            if has_id(rest, id) {
                let w = choose|w: int| 0 <= w < rest.len() && rest[w].id@ == id;
                assert(b[w + 1] == rest[w]);
                assert(has_id(b, id));
            }
            if id == p.id@ {
                assert(has_id(b, id));
            }
        }
        // rows kept in place
        assert forall|i: int| 0 <= i < s.len() implies #[trigger] r[i] == (if has_id(
            b,
            s[i].id@,
        ) {
            merged(s[i], b[idx_of(b, s[i].id@)])
        } else {
            s[i]
        }) by {
            let id = s[i].id@;
            if s[i].id@ == p.id@ {
                assert(s1[i] == merged(s[i], p));
                assert(s1[i].id@ == id);
                assert(!has_id(rest, id));
                assert(r[i] == s1[i]);
                assert(has_id(b, id));
            } else {
                assert(s1[i] == s[i]);
                if has_id(rest, id) {
                    lemma_idx_skip(b, id);
                    assert(r[i] == merged(s[i], rest[idx_of(rest, id)]));
                    assert(rest[idx_of(rest, id)] == b[idx_of(b, id)]);
                } else {
                    assert(!has_id(b, id));
                    assert(r[i] == s[i]);
                }
            }
        }
        // rows appended
        assert forall|i: int| s.len() <= i < r.len() implies has_id(
            b,
            (#[trigger] r[i]).id@,
        ) && !has_id(s, r[i].id@) && r[i] == b[idx_of(b, r[i].id@)] by {
            if i < s1.len() {
                // only possible when the first row was fresh and i is its slot
                assert(!has_id(s, p.id@));
                assert(s1[i] == p);
                assert(!has_id(rest, p.id@));
                assert(r[i] == p);
                assert(has_id(b, p.id@));
            } else {
                let rid = r[i].id@;
                assert(has_id(rest, rid) && !has_id(s1, rid) && r[i] == rest[idx_of(rest, rid)]);
                lemma_idx_skip(b, rid);
                assert(r[i] == b[idx_of(b, rid)]);
            }
        }
        if batch_ok(s) && batch_ok(b) {
            assert(row_ok(p));
            assert(batch_ok(s1));
        }
    }
}

/// A batch of fresh ids is appended whole, in order.
pub proof fn lemma_upsert_fresh(s: Seq<Proposal>, b: Seq<Proposal>)
    requires
        unique_ids(b),
        forall|j: int| 0 <= j < b.len() ==> !has_id(s, (#[trigger] b[j]).id@),
    ensures
        upsert_seq(s, b) == s + b,
    decreases b.len(),
{
    if b.len() == 0 {
        assert(s + b =~= s);
    } else {
        let p = b[0];
        let rest = b.skip(1);
        lemma_skip_facts(b);
        assert(!has_id(s, p.id@));
        assert(upsert_one(s, p) == s.push(p));
        assert forall|j: int| 0 <= j < rest.len() implies !has_id(
            s.push(p),
            (#[trigger] rest[j]).id@,
        ) by {
            assert(rest[j] == b[j + 1]);
            if has_id(s.push(p), rest[j].id@) {
                let w = choose|w: int|
                    0 <= w < s.push(p).len() && s.push(p)[w].id@ == rest[j].id@;
                if w < s.len() {
                    assert(has_id(s, b[j + 1].id@));
                } else {
                    assert(p.id@ == b[j + 1].id@);
                }
                assert(false);
            }
        }
        lemma_upsert_fresh(s.push(p), rest);
        assert(s.push(p) + rest =~= s + b);
    }
}

/// Upsert idempotence: once a batch has been applied, applying the very
/// same batch again changes nothing.
pub proof fn lemma_upsert_idempotent(s: Seq<Proposal>, b: Seq<Proposal>)
    requires
        unique_ids(s),
        unique_ids(b),
    ensures
        upsert_seq(upsert_seq(s, b), b) == upsert_seq(s, b),
{
    let t = upsert_seq(s, b);
    let t2 = upsert_seq(t, b);
    lemma_upsert_effect(s, b);
    lemma_upsert_effect(t, b);
    if t2.len() > t.len() {
        assert(!has_id(t, t2[t.len() as int].id@) && has_id(b, t2[t.len() as int].id@));
        assert(false);
    }
    assert forall|i: int| 0 <= i < t.len() implies t2[i] == t[i] by {
        let tid = t[i].id@;
        if has_id(b, tid) {
            let k = idx_of(b, tid);
            let q = b[k];
            assert(t2[i] == merged(t[i], q));
            if i < s.len() {
                if has_id(b, s[i].id@) {
                    assert(t[i] == merged(s[i], b[idx_of(b, s[i].id@)]));
                    assert(t[i].id@ == s[i].id@);
                    assert(t2[i] == merged(merged(s[i], q), q));
                    assert(merged(merged(s[i], q), q) == merged(s[i], q));
                } else {
                    assert(t[i] == s[i]);
                    assert(false);
                }
            } else {
                assert(t[i] == b[idx_of(b, tid)]);
                assert(merged(q, q) == q);
            }
        } else {
            assert(t2[i] == t[i]);
        }
    }
    assert(t2 =~= t);
}

/// Creation-time immutability: a row already stored keeps every
/// creation-time field — in particular its title — across any later
/// batch, whatever values the batch carries.
pub proof fn lemma_creation_time_immutable(s: Seq<Proposal>, b: Seq<Proposal>, i: int)
    requires
        unique_ids(s),
        unique_ids(b),
        0 <= i < s.len(),
    ensures
        upsert_seq(s, b).len() >= s.len(),
        upsert_seq(s, b)[i].id == s[i].id,
        upsert_seq(s, b)[i].ipfs == s[i].ipfs,
        upsert_seq(s, b)[i].proposal_type == s[i].proposal_type,
        upsert_seq(s, b)[i].title == s[i].title,
        upsert_seq(s, b)[i].body == s[i].body,
        upsert_seq(s, b)[i].author == s[i].author,
        upsert_seq(s, b)[i].quorum == s[i].quorum,
        upsert_seq(s, b)[i].quorum_type == s[i].quorum_type,
        upsert_seq(s, b)[i].start == s[i].start,
        upsert_seq(s, b)[i].end == s[i].end,
        upsert_seq(s, b)[i].snapshot == s[i].snapshot,
        upsert_seq(s, b)[i].choices == s[i].choices,
        upsert_seq(s, b)[i].labels == s[i].labels,
        upsert_seq(s, b)[i].strategies == s[i].strategies,
        upsert_seq(s, b)[i].created == s[i].created,
        upsert_seq(s, b)[i].privacy == s[i].privacy,
        upsert_seq(s, b)[i].plugins == s[i].plugins,
        upsert_seq(s, b)[i].flagged == s[i].flagged,
{
    lemma_upsert_effect(s, b);
}

/// Weight invariant: every recommendation a well-formed store holds
/// has weights summing to the whole vote within rounding slack.  All
/// the store's operations preserve well-formedness, so this holds of
/// every store the engine produces.
pub proof fn lemma_weight_invariant(s: Store)
    requires
        s.wf(),
    ensures
        forall|i: int|
            0 <= i < s.recs().len() ==> weights_ok((#[trigger] s.recs()[i]).recommendation),
{
}

/// Locate the row of `v` carrying `id`, if any.
pub fn find_by_id(v: &Vec<Proposal>, id: &String) -> (r: Option<usize>)
    ensures
        match r {
            Some(i) => i < v@.len() && v@[i as int].id@ == id@,
            None => !has_id(v@, id@),
        },
{
    let mut i: usize = 0;
    while i < v.len()
        invariant
            i <= v@.len(),
            forall|j: int| 0 <= j < i ==> v@[j].id@ != id@,
        decreases v@.len() - i,
    {
        if v[i].id == *id {
            return Some(i);
        }
        i = i + 1;
    }
    None
}

/// The local relational store: proposals keyed by id, recommendations
/// append-only.
pub struct Store {
    pub proposals: Vec<Proposal>,
    pub recommendations: Vec<Recommendation>,
}

impl Store {
    /// The mathematical contents of the recommendation table.
    pub open spec fn recs(self) -> Seq<RecView> {
        self.recommendations@.map_values(|r: Recommendation| r@)
    }

    /// Well-formedness: proposal ids unique and non-empty, every
    /// persisted recommendation well-formed (in particular its weights
    /// sum to the whole vote within rounding slack).
    pub open spec fn wf(self) -> bool {
        &&& unique_ids(self.proposals@)
        &&& batch_ok(self.proposals@)
        &&& forall|i: int| 0 <= i < self.recs().len() ==> rec_wf(#[trigger] self.recs()[i])
    }

    /// An empty store.
    pub fn new() -> (s: Store)
        ensures
            s.wf(),
            s.proposals@ == Seq::<Proposal>::empty(),
            s.recs() == Seq::<RecView>::empty(),
    {
        let s = Store { proposals: Vec::new(), recommendations: Vec::new() };
        proof {
            assert(s.recs() =~= Seq::<RecView>::empty());
        }
        s
    }

    /// Persist a batch atomically and idempotently.
    ///
    /// The empty batch is a no-op.  If any row violates the persistence
    /// constraint the whole batch is rolled back: the store is exactly
    /// what it was.  Otherwise every row is written with the
    /// insert-or-update-on-conflict policy, first row first.
    pub fn upsert_proposals(&mut self, batch: &Vec<Proposal>) -> (r: Result<(), CoreError>)
        requires
            old(self).wf(),
        ensures
            final(self).wf(),
            final(self).recommendations == old(self).recommendations,
            r is Ok <==> batch_ok(batch@),
            r is Ok ==> final(self).proposals@ == upsert_seq(old(self).proposals@, batch@),
            r is Err ==> *final(self) == *old(self),
            r matches Err(e) ==> e is Persistence,
    {
        let mut i: usize = 0;
        while i < batch.len()
            invariant
                i <= batch@.len(),
                forall|j: int| 0 <= j < i ==> row_ok(#[trigger] batch@[j]),
                old(self).wf(),
                *self == *old(self),
            decreases batch@.len() - i,
        {
            if batch[i].id.as_str().is_empty() {
                proof {
                    assert(self.recs() == old(self).recs());
                    assert(self.wf());
                }
                return Err(CoreError::Persistence("proposal id must not be empty".to_owned()));
            }
            i = i + 1;
        }
        let ghost s0 = self.proposals@;
        let mut k: usize = 0;
        while k < batch.len()
            invariant
                k <= batch@.len(),
                batch_ok(batch@),
                old(self).wf(),
                s0 == old(self).proposals@,
                unique_ids(self.proposals@),
                batch_ok(self.proposals@),
                self.proposals@ == upsert_seq(s0, batch@.take(k as int)),
                self.recommendations == old(self).recommendations,
            decreases batch@.len() - k,
        {
            let ghost cur = self.proposals@;
            proof {
                lemma_upsert_seq_snoc(s0, batch@.take(k as int), batch@[k as int]);
                assert(batch@.take(k as int).push(batch@[k as int]) =~= batch@.take(k + 1));
                lemma_upsert_one(cur, batch@[k as int]);
            }
            let p = &batch[k];
            match find_by_id(&self.proposals, &p.id) {
                Some(idx) => {
                    proof {
                        lemma_idx_of(cur, idx as int);
                        assert(idx_of(cur, p.id@) == idx as int);
                    }
                    let m = merge_into(&self.proposals[idx], p);
                    self.proposals.set(idx, m);
                },
                None => {
                    self.proposals.push(p.clone());
                },
            }
            k = k + 1;
        }
        proof {
            assert(batch@.take(batch@.len() as int) =~= batch@);
            assert(self.recs() == old(self).recs());
            assert(self.wf());
        }
        Ok(())
    }

    /// Whether some recommendation row references `id`.
    pub fn rec_exists(&self, id: &String) -> (b: bool)
        ensures
            b == has_rec(self.recs(), id@),
    {
        let mut i: usize = 0;
        while i < self.recommendations.len()
            invariant
                i <= self.recs().len(),
                forall|j: int| 0 <= j < i ==> self.recs()[j].proposal_id@ != id@,
            decreases self.recs().len() - i,
        {
            if self.recommendations[i].proposal_id == *id {
                proof {
                    assert(self.recs()[i as int].proposal_id@ == id@);
                }
                return true;
            }
            i = i + 1;
        }
        false
    }

    fn is_backfill_eligible(&self, p: &Proposal, now: i64) -> (b: bool)
        ensures
            b == backfill_eligible(*p, self.recs(), now),
    {
        let state_active = match &p.state {
            Some(st) => {
                let active = "active".to_owned();
                *st == active
            },
            None => false,
        };
        if !state_active {
            return false;
        }
        let not_ended = match p.end {
            Some(e) => e >= now,
            None => false,
        };
        if !not_ended {
            return false;
        }
        !self.rec_exists(&p.id)
    }

    /// The backfill scan: every stored proposal that is currently
    /// active, has not ended at `now`, and has no recommendation row,
    /// in store order.
    pub fn get_active_proposals_without_rec(&self, now: i64) -> (r: Vec<Proposal>)
        ensures
            r@ == backfill_seq(self.proposals@, self.recs(), now),
    {
        let mut r: Vec<Proposal> = Vec::new();
        let mut i: usize = 0;
        while i < self.proposals.len()
            invariant
                i <= self.proposals@.len(),
                r@ == backfill_seq(self.proposals@.take(i as int), self.recs(), now),
            decreases self.proposals@.len() - i,
        {
            proof {
                assert(self.proposals@.take(i + 1).drop_last() =~= self.proposals@.take(i as int));
                assert(self.proposals@.take(i + 1).last() == self.proposals@[i as int]);
            }
            let p = &self.proposals[i];
            if self.is_backfill_eligible(p, now) {
                r.push(p.clone());
            }
            i = i + 1;
        }
        proof {
            assert(self.proposals@.take(self.proposals@.len() as int) =~= self.proposals@);
        }
        r
    }

    /// Persist one analysis row.  Append-only: rows are never updated
    /// or deleted.  The write is accepted exactly when the row is
    /// well-formed — its weights sum to the whole vote within rounding
    /// slack — and references a stored proposal; otherwise the store is
    /// left exactly as it was.
    pub fn save_recommendation(&mut self, rec: Recommendation) -> (r: Result<(), CoreError>)
        requires
            old(self).wf(),
        ensures
            final(self).wf(),
            final(self).proposals == old(self).proposals,
            r is Ok <==> rec_wf(rec@) && has_id(old(self).proposals@, rec@.proposal_id@),
            r is Ok ==> final(self).recs() == old(self).recs().push(rec@),
            r is Err ==> *final(self) == *old(self),
            r matches Err(e) ==> e is Persistence,
    {
        if rec.proposal_id.as_str().is_empty() {
            return Err(CoreError::Persistence("recommendation must reference a proposal".to_owned()));
        }
        if !check_weights(&rec.recommendation) {
            return Err(CoreError::Persistence("recommendation weights must sum to the whole vote".to_owned()));
        }
        if find_by_id(&self.proposals, &rec.proposal_id).is_none() {
            return Err(CoreError::Persistence("recommendation references an unknown proposal".to_owned()));
        }
        proof {
            assert(has_id(self.proposals@, rec.proposal_id@));
        }
        self.recommendations.push(rec);
        proof {
            assert(self.recs() =~= old(self).recs().push(rec@));
        }
        Ok(())
    }

    /// The current recommendation for a proposal: a stored row carrying
    /// the id, none of which is more recent.
    pub fn get_recommendation_by_id(&self, id: &String) -> (r: Option<Recommendation>)
        ensures
            r is Some <==> has_rec(self.recs(), id@),
            r matches Some(rec) ==> rec@.proposal_id@ == id@ && self.recs().contains(rec@),
            r matches Some(rec) ==> forall|i: int|
                0 <= i < self.recs().len() && self.recs()[i].proposal_id@ == id@
                    ==> (#[trigger] self.recs()[i]).created_at <= rec@.created_at,
    {
        let mut best: Option<usize> = None;
        let mut i: usize = 0;
        while i < self.recommendations.len()
            invariant
                i <= self.recs().len(),
                match best {
                    Some(k) => k < i && self.recs()[k as int].proposal_id@ == id@ && forall|j: int|
                        0 <= j < i && self.recs()[j].proposal_id@ == id@
                            ==> (#[trigger] self.recs()[j]).created_at <= self.recs()[
                            k as int
                        ].created_at,
                    None => forall|j: int| 0 <= j < i ==> self.recs()[j].proposal_id@ != id@,
                },
            decreases self.recs().len() - i,
        {
            if self.recommendations[i].proposal_id == *id {
                let better = match best {
                    Some(k) => self.recommendations[i].created_at
                        > self.recommendations[k].created_at,
                    None => true,
                };
                if better {
                    best = Some(i);
                }
            }
            i = i + 1;
        }
        match best {
            Some(k) => {
                let rec = self.recommendations[k].clone();
                proof {
                    assert(self.recs()[k as int] == rec@);
                    assert(self.recs().contains(rec@));
                }
                Some(rec)
            },
            None => None,
        }
    }

    /// The most recent recommendation row not yet consumed by the
    /// one-shot notification read, if any.
    pub fn get_new_recommendation(&self) -> (r: Option<Recommendation>)
        ensures
            r is Some <==> exists|i: int|
                0 <= i < self.recs().len() && (#[trigger] self.recs()[i]).new_flag,
            r matches Some(rec) ==> rec@.new_flag && self.recs().contains(rec@),
            r matches Some(rec) ==> forall|i: int|
                0 <= i < self.recs().len() && (#[trigger] self.recs()[i]).new_flag
                    ==> self.recs()[i].created_at <= rec@.created_at,
    {
        let mut best: Option<usize> = None;
        let mut i: usize = 0;
        while i < self.recommendations.len()
            invariant
                i <= self.recs().len(),
                match best {
                    Some(k) => k < i && self.recs()[k as int].new_flag && forall|j: int|
                        0 <= j < i && (#[trigger] self.recs()[j]).new_flag ==> self.recs()[
                            j
                        ].created_at <= self.recs()[k as int].created_at,
                    None => forall|j: int| 0 <= j < i ==> !(#[trigger] self.recs()[j]).new_flag,
                },
            decreases self.recs().len() - i,
        {
            if self.recommendations[i].new_flag {
                let better = match best {
                    Some(k) => self.recommendations[i].created_at
                        > self.recommendations[k].created_at,
                    None => true,
                };
                if better {
                    best = Some(i);
                }
            }
            i = i + 1;
        }
        match best {
            Some(k) => {
                let rec = self.recommendations[k].clone();
                proof {
                    assert(self.recs()[k as int] == rec@);
                    assert(self.recs().contains(rec@));
                }
                Some(rec)
            },
            None => None,
        }
    }

    /// The stored proposal carrying `id`, if any.
    pub fn get_proposals_by_id(&self, id: &String) -> (r: Option<Proposal>)
        requires
            self.wf(),
        ensures
            r is Some <==> has_id(self.proposals@, id@),
            r matches Some(p) ==> p == self.proposals@[idx_of(self.proposals@, id@)],
    {
        match find_by_id(&self.proposals, id) {
            Some(i) => {
                proof {
                    lemma_idx_of(self.proposals@, i as int);
                }
                Some(self.proposals[i].clone())
            },
            None => None,
        }
    }

    /// The cursor the store implies for an axis: the greatest stored
    /// value on that axis, `0` when the store carries none.
    pub fn max_axis_value(&self, axis: Axis) -> (m: i64)
        ensures
            m == max_axis_spec(self.proposals@, axis),
    {
        let mut m: i64 = 0;
        let mut found = false;
        let mut i: usize = 0;
        while i < self.proposals.len()
            invariant
                i <= self.proposals@.len(),
                found == has_axis_value(self.proposals@.take(i as int), axis),
                m == max_axis_spec(self.proposals@.take(i as int), axis),
            decreases self.proposals@.len() - i,
        {
            proof {
                assert(self.proposals@.take(i + 1).drop_last() =~= self.proposals@.take(i as int));
                assert(self.proposals@.take(i + 1).last() == self.proposals@[i as int]);
            }
            match axis_of(&self.proposals[i], axis) {
                Some(v) => {
                    proof {
                        assert(spec_axis_of(self.proposals@.take(i + 1)[i as int], axis) is Some);
                        assert(has_axis_value(self.proposals@.take(i + 1), axis));
                    }
                    if !found || v > m {
                        m = v;
                    }
                    found = true;
                },
                None => {
                    proof {
                        if has_axis_value(self.proposals@.take(i + 1), axis) {
                            let w = choose|w: int|
                                0 <= w < self.proposals@.take(i + 1).len() && #[trigger] spec_axis_of(
                                    self.proposals@.take(i + 1)[w],
                                    axis,
                                ) is Some;
                            if w < i {
                                assert(has_axis_value(self.proposals@.take(i as int), axis));
                            }
                            assert(has_axis_value(self.proposals@.take(i + 1), axis)
                                == has_axis_value(self.proposals@.take(i as int), axis));
                        }
                    }
                },
            }
            i = i + 1;
        }
        proof {
            assert(self.proposals@.take(self.proposals@.len() as int) =~= self.proposals@);
        }
        m
    }
}

} // verus!

use vstd::prelude::*;

use crate::config::{effective_cooldown, window_start, cooldown_of, window_start_of};
use crate::error::FaucetError;

verus! {

/// One row of the ledger: a dispensation attempt and, once known, its settlement.
#[derive(Debug)]
pub struct TransferRecord {
    pub id: u64,
    pub address: String,
    pub amount: u64,
    pub timestamp: i64,
    /// Empty until the transfer has settled.
    pub settlement_ref: String,
}

/// What a record holds, as mathematical values.
pub struct RecordModel {
    pub id: nat,
    pub address: Seq<char>,
    pub amount: nat,
    pub timestamp: int,
    pub settlement_ref: Seq<char>,
}

impl TransferRecord {
    /// A copy of this record.
    pub fn duplicate(&self) -> (r: TransferRecord)
        ensures
            r@ == self@,
    {
        TransferRecord {
            id: self.id,
            address: self.address.clone(),
            amount: self.amount,
            timestamp: self.timestamp,
            settlement_ref: self.settlement_ref.clone(),
        }
    }
}

impl View for TransferRecord {
    type V = RecordModel;

    open spec fn view(&self) -> RecordModel {
        RecordModel {
            id: self.id as nat,
            address: self.address@,
            amount: self.amount as nat,
            timestamp: self.timestamp as int,
            settlement_ref: self.settlement_ref@,
        }
    }
}

/// A record of `a` whose timestamp lies strictly after `since`.
pub open spec fn is_recent(r: RecordModel, a: Seq<char>, since: int) -> bool {
    r.address == a && r.timestamp > since
}

/// A record of `a` whose timestamp lies strictly before `before`.
pub open spec fn is_expired(r: RecordModel, a: Seq<char>, before: int) -> bool {
    r.address == a && r.timestamp < before
}

/// A record that reconciliation of `(a, t)` may target.
pub open spec fn is_match(r: RecordModel, a: Seq<char>, t: int) -> bool {
    r.address == a && r.timestamp == t
}

/// How many records of `a` lie strictly after `since`.
pub open spec fn recent_count(rs: Seq<RecordModel>, a: Seq<char>, since: int) -> nat
    decreases rs.len(),
{
    if rs.len() == 0 {
        0
    } else {
        recent_count(rs.drop_last(), a, since) + if is_recent(rs.last(), a, since) {
            1nat
        } else {
            0nat
        }
    }
}

/// The records left, in order, once those of `a` before `before` are removed.
pub open spec fn unexpired(rs: Seq<RecordModel>, a: Seq<char>, before: int) -> Seq<RecordModel>
    decreases rs.len(),
{
    if rs.len() == 0 {
        rs
    } else {
        let kept = unexpired(rs.drop_last(), a, before);
        if is_expired(rs.last(), a, before) {
            kept
        } else {
            kept.push(rs.last())
        }
    }
}

/// The position of the last record of `a` stamped `t`, or -1 where there is none.
pub open spec fn latest_match(rs: Seq<RecordModel>, a: Seq<char>, t: int) -> int
    decreases rs.len(),
{
    if rs.len() == 0 {
        -1
    } else if is_match(rs.last(), a, t) {
        rs.len() - 1
    } else {
        latest_match(rs.drop_last(), a, t)
    }
}

/// `r` with its settlement reference replaced.
pub open spec fn settled(r: RecordModel, reference: Seq<char>) -> RecordModel {
    RecordModel { settlement_ref: reference, ..r }
}

/// The records after reconciling `(a, t)` with `reference`: the last matching
/// record gets the reference; without a match nothing changes.
pub open spec fn reconciled(
    rs: Seq<RecordModel>,
    a: Seq<char>,
    t: int,
    reference: Seq<char>,
) -> Seq<RecordModel> {
    let k = latest_match(rs, a, t);
    if k < 0 {
        rs
    } else {
        rs.update(k, settled(rs[k], reference))
    }
}

/// Whether `a` may receive funds at `now` given the records: no record of `a`
/// lies inside the cooldown window.
pub open spec fn eligible(rs: Seq<RecordModel>, a: Seq<char>, now: int, cooldown_minutes: int) -> bool {
    recent_count(rs, a, window_start_of(now, cooldown_minutes)) == 0
}

/// The table of dispensation attempts, in order of insertion.
pub struct Ledger {
    records: Vec<TransferRecord>,
    next_id: u64,
}

impl View for Ledger {
    type V = Seq<RecordModel>;

    closed spec fn view(&self) -> Seq<RecordModel> {
        self.records@.map_values(|r: TransferRecord| r@)
    }
}

impl Ledger {
    /// The identifier the next inserted record receives.
    pub closed spec fn next_id_spec(&self) -> nat {
        self.next_id as nat
    }

    /// Identifiers strictly increase with position and stay below the next one.
    pub open spec fn wf(&self) -> bool {
        &&& forall|i: int, j: int|
            0 <= i < j < self@.len() ==> #[trigger] self@[i].id < #[trigger] self@[j].id
        &&& forall|i: int| 0 <= i < self@.len() ==> #[trigger] self@[i].id < self.next_id_spec()
    }

    pub fn new() -> (r: Ledger)
        ensures
            r.wf(),
            r@ == Seq::<RecordModel>::empty(),
            r.next_id_spec() == 1,
    {
        let r = Ledger { records: Vec::new(), next_id: 1 };
        assert(r@ =~= Seq::<RecordModel>::empty());
        r
    }

    /// The number of records.
    pub fn len(&self) -> (r: usize)
        ensures
            r == self@.len(),
    {
        self.records.len()
    }

    /// The record at position `i`, in order of insertion.
    pub fn get(&self, i: usize) -> (r: &TransferRecord)
        requires
            i < self@.len(),
        ensures
            r@ == self@[i as int],
    {
        &self.records[i]
    }

    /// Appends a record of `(address, amount, timestamp)` with an empty settlement
    /// reference and returns its identifier. Fails with `Storage` once identifiers
    /// are exhausted, leaving the ledger unchanged.
    pub fn insert(&mut self, address: &String, amount: u64, timestamp: i64) -> (r: Result<
        u64,
        FaucetError,
    >)
        requires
            old(self).wf(),
        ensures
            final(self).wf(),
            old(self).next_id_spec() < u64::MAX ==> r == Ok::<u64, FaucetError>(
                old(self).next_id_spec() as u64,
            ) && final(self)@ == old(self)@.push(
                RecordModel {
                    id: old(self).next_id_spec(),
                    address: address@,
                    amount: amount as nat,
                    timestamp: timestamp as int,
                    settlement_ref: Seq::empty(),
                },
            ) && final(self).next_id_spec() == old(self).next_id_spec() + 1,
            old(self).next_id_spec() >= u64::MAX ==> r == Err::<u64, FaucetError>(
                FaucetError::Storage,
            ) && final(self)@ == old(self)@ && final(self).next_id_spec()
                == old(self).next_id_spec(),
    {
        if self.next_id == u64::MAX {
            return Err(FaucetError::Storage);
        }
        let id = self.next_id;
        let rec = TransferRecord {
            id,
            address: address.clone(),
            amount,
            timestamp,
            settlement_ref: String::new(),
        };
        self.records.push(rec);
        self.next_id = id + 1;
        assert(self@ =~= old(self)@.push(self.records@[self.records@.len() - 1]@));
        Ok(id)
    }

    /// Counts the records of `address` stamped strictly after `since`.
    pub fn count_recent(&self, address: &String, since: i128) -> (r: usize)
        ensures
            r == recent_count(self@, address@, since as int),
    {
        let mut count: usize = 0;
        let mut i: usize = 0;
        while i < self.records.len()
            invariant
                i <= self.records@.len(),
                count <= i,
                count == recent_count(self@.subrange(0, i as int), address@, since as int),
            decreases self.records@.len() - i,
        {
            let rec = &self.records[i];
            proof {
                assert(self@.subrange(0, i + 1).drop_last() =~= self@.subrange(0, i as int));
            }
            if rec.address == *address && (rec.timestamp as i128) > since {
                count = count + 1;
            }
            i = i + 1;
        }
        assert(self@.subrange(0, i as int) =~= self@);
        count
    }

    /// Removes the records of `address` stamped strictly before `before`,
    /// keeping the order of the rest.
    pub fn delete_expired(&mut self, address: &String, before: i128)
        requires
            old(self).wf(),
        ensures
            final(self).wf(),
            final(self)@ == unexpired(old(self)@, address@, before as int),
            final(self).next_id_spec() == old(self).next_id_spec(),
    {
        let ghost all = old(self)@;
        let mut kept: Vec<TransferRecord> = Vec::new();
        let mut i: usize = 0;
        while i < self.records.len()
            invariant
                i <= self.records@.len(),
                self@ == all,
                kept@.map_values(|r: TransferRecord| r@) == unexpired(
                    all.subrange(0, i as int),
                    address@,
                    before as int,
                ),
            decreases self.records@.len() - i,
        {
            let rec = &self.records[i];
            proof {
                assert(all.subrange(0, i + 1).drop_last() =~= all.subrange(0, i as int));
                assert(rec@ == all[i as int]);
            }
            if !(rec.address == *address && (rec.timestamp as i128) < before) {
                let ghost prev = kept@;
                kept.push(rec.duplicate());
                proof {
                    assert(kept@.map_values(|r: TransferRecord| r@) =~= prev.map_values(
                        |r: TransferRecord| r@,
                    ).push(rec@));
                }
            }
            i = i + 1;
        }
        assert(all.subrange(0, i as int) =~= all);
        self.records = kept;
        proof {
            lemma_unexpired_subseq(all, address@, before as int);
            let u = self@;
            assert forall|x: int, y: int| 0 <= x < y < u.len() implies #[trigger] u[x].id
                < #[trigger] u[y].id by {
                let (p, q) = choose|p: int, q: int|
                    0 <= p < q < all.len() && all[p] == u[x] && all[q] == u[y];
                assert(all[p].id < all[q].id);
            }
            assert forall|x: int| 0 <= x < u.len() implies #[trigger] u[x].id
                < self.next_id_spec() by {
                assert(all.contains(u[x]));
            }
        }
    }

    /// Attaches `settlement_ref` to the last record of `address` stamped
    /// `timestamp`; does nothing where there is none.
    pub fn attach_settlement(&mut self, address: &String, timestamp: i64, settlement_ref: &String)
        requires
            old(self).wf(),
        ensures
            final(self).wf(),
            final(self)@ == reconciled(
                old(self)@,
                address@,
                timestamp as int,
                settlement_ref@,
            ),
            final(self).next_id_spec() == old(self).next_id_spec(),
    {
        let mut i: usize = self.records.len();
        assert(old(self)@.subrange(0, i as int) =~= old(self)@);
        while i > 0
            invariant
                i <= self.records@.len(),
                self.wf(),
                self@ == old(self)@,
                self.next_id == old(self).next_id,
                latest_match(old(self)@, address@, timestamp as int) == latest_match(
                    old(self)@.subrange(0, i as int),
                    address@,
                    timestamp as int,
                ),
            decreases i,
        {
            proof {
                assert(old(self)@.subrange(0, i as int).drop_last() =~= old(self)@.subrange(
                    0,
                    i - 1,
                ));
            }
            if self.records[i - 1].address == *address && self.records[i - 1].timestamp
                == timestamp {
                let ghost before_set = self.records@;
                self.records[i - 1].settlement_ref = settlement_ref.clone();
                proof {
                    assert(self@ =~= old(self)@.update(
                        i - 1,
                        settled(old(self)@[i - 1], settlement_ref@),
                    ));
                }
                return;
            }
            i = i - 1;
        }
        assert(old(self)@.subrange(0, 0) =~= Seq::<RecordModel>::empty());
    }

    /// Whether `address` may receive funds at `now`: no record of it lies inside
    /// the cooldown window. Whatever the answer, the records of `address` older
    /// than the window are removed.
    pub fn is_eligible(&mut self, address: &String, cooldown_minutes: Option<u64>, now: i64) -> (r:
        bool)
        requires
            old(self).wf(),
        ensures
            final(self).wf(),
            r == eligible(old(self)@, address@, now as int, cooldown_of(cooldown_minutes) as int),
            final(self)@ == unexpired(
                old(self)@,
                address@,
                window_start_of(now as int, cooldown_of(cooldown_minutes) as int),
            ),
            final(self).next_id_spec() == old(self).next_id_spec(),
    {
        let start = window_start(now, effective_cooldown(cooldown_minutes));
        let count = self.count_recent(address, start);
        self.delete_expired(address, start);
        count == 0
    }
}

/// What removing expired records keeps is a subsequence of the input: every
/// kept record appears, in order, among the original ones.
proof fn lemma_unexpired_subseq(rs: Seq<RecordModel>, a: Seq<char>, before: int)
    ensures
        forall|i: int|
            0 <= i < unexpired(rs, a, before).len() ==> rs.contains(
                #[trigger] unexpired(rs, a, before)[i],
            ),
        forall|i: int, j: int|
            0 <= i < j < unexpired(rs, a, before).len() ==> exists|p: int, q: int|
                0 <= p < q < rs.len() && rs[p] == #[trigger] unexpired(rs, a, before)[i]
                    && rs[q] == #[trigger] unexpired(rs, a, before)[j],
    decreases rs.len(),
{
    if rs.len() > 0 {
        let d = rs.drop_last();
        lemma_unexpired_subseq(d, a, before);
        let u = unexpired(rs, a, before);
        let ud = unexpired(d, a, before);
        assert forall|i: int| 0 <= i < u.len() implies rs.contains(#[trigger] u[i]) by {
            if i < ud.len() {
                assert(d.contains(ud[i]));
                let k = choose|k: int| 0 <= k < d.len() && d[k] == ud[i];
                assert(rs[k] == u[i]);
            } else {
                assert(rs[rs.len() - 1] == u[i]);
            }
        }
        assert forall|i: int, j: int| 0 <= i < j < u.len() implies exists|p: int, q: int|
            0 <= p < q < rs.len() && rs[p] == #[trigger] u[i] && rs[q] == #[trigger] u[j] by {
            if j < ud.len() {
                assert(u[i] == ud[i] && u[j] == ud[j]);
                let (p, q) = choose|p: int, q: int|
                    0 <= p < q < d.len() && d[p] == ud[i] && d[q] == ud[j];
                assert(rs[p] == u[i] && rs[q] == u[j]);
            } else {
                assert(d.contains(ud[i]));
                let p = choose|p: int| 0 <= p < d.len() && d[p] == ud[i];
                assert(rs[p] == u[i] && rs[rs.len() - 1] == u[j]);
            }
        }
    }
}

/// A record of `a` after `since` makes the count of such records positive.
proof fn lemma_count_positive(rs: Seq<RecordModel>, a: Seq<char>, since: int, k: int)
    requires
        0 <= k < rs.len(),
        is_recent(rs[k], a, since),
    ensures
        recent_count(rs, a, since) > 0,
    decreases rs.len(),
{
    if k < rs.len() - 1 {
        lemma_count_positive(rs.drop_last(), a, since, k);
    }
}

/// Without a record of `a` after `since` the count is zero.
proof fn lemma_count_zero(rs: Seq<RecordModel>, a: Seq<char>, since: int)
    requires
        forall|i: int| 0 <= i < rs.len() ==> !is_recent(#[trigger] rs[i], a, since),
    ensures
        recent_count(rs, a, since) == 0,
    decreases rs.len(),
{
    if rs.len() > 0 {
        let d = rs.drop_last();
        assert forall|i: int| 0 <= i < d.len() implies !is_recent(#[trigger] d[i], a, since) by {
            assert(d[i] == rs[i]);
        }
        lemma_count_zero(d, a, since);
    }
}

/// Reconciliation changes no record's address, timestamp or identifier.
proof fn lemma_reconciled_keeps_stamps(rs: Seq<RecordModel>, a: Seq<char>, t: int, reference: Seq<char>)
    ensures
        reconciled(rs, a, t, reference).len() == rs.len(),
        forall|i: int|
            0 <= i < rs.len() ==> (#[trigger] reconciled(rs, a, t, reference)[i]).address
                == rs[i].address && reconciled(rs, a, t, reference)[i].timestamp == rs[i].timestamp
                && reconciled(rs, a, t, reference)[i].id == rs[i].id,
{
    lemma_latest_match_range(rs, a, t);
}

proof fn lemma_latest_match_range(rs: Seq<RecordModel>, a: Seq<char>, t: int)
    ensures
        -1 <= latest_match(rs, a, t) < rs.len(),
        latest_match(rs, a, t) >= 0 ==> is_match(rs[latest_match(rs, a, t)], a, t),
    decreases rs.len(),
{
    if rs.len() > 0 && !is_match(rs.last(), a, t) {
        lemma_latest_match_range(rs.drop_last(), a, t);
    }
}

/// An address with no record inside the cooldown window is eligible.
pub proof fn lemma_no_recent_record_means_eligible(
    rs: Seq<RecordModel>,
    a: Seq<char>,
    now: int,
    cooldown_minutes: int,
)
    requires
        forall|i: int|
            0 <= i < rs.len() ==> !is_recent(
                #[trigger] rs[i],
                a,
                window_start_of(now, cooldown_minutes),
            ),
    ensures
        eligible(rs, a, now, cooldown_minutes),
{
    lemma_count_zero(rs, a, window_start_of(now, cooldown_minutes));
}

/// After a dispensation to `a` at `t` (its provisional record inserted, then
/// reconciled with the settlement reference), `a` is refused at every `later`
/// with `later - t` under the cooldown; where no earlier record of `a` is
/// stamped after `t`, it is eligible again once `later - t` reaches the cooldown.
pub proof fn lemma_cooldown_after_dispensation(
    rs: Seq<RecordModel>,
    id: nat,
    a: Seq<char>,
    amount: nat,
    t: int,
    reference: Seq<char>,
    later: int,
    cooldown_minutes: nat,
)
    ensures
        ({
            let inserted = rs.push(
                RecordModel { id, address: a, amount, timestamp: t, settlement_ref: Seq::empty() },
            );
            let after = reconciled(inserted, a, t, reference);
            &&& later - t < cooldown_minutes * 60 ==> !eligible(after, a, later, cooldown_minutes as int)
            &&& (forall|i: int| 0 <= i < rs.len() && #[trigger] rs[i].address == a ==> rs[i].timestamp <= t)
                && later - t >= cooldown_minutes * 60 ==> eligible(after, a, later, cooldown_minutes as int)
        }),
{
    let inserted = rs.push(
        RecordModel { id, address: a, amount, timestamp: t, settlement_ref: Seq::empty() },
    );
    let after = reconciled(inserted, a, t, reference);
    let since = window_start_of(later, cooldown_minutes as int);
    lemma_reconciled_keeps_stamps(inserted, a, t, reference);
    if later - t < cooldown_minutes * 60 {
        assert(is_recent(after[rs.len() as int], a, since));
        lemma_count_positive(after, a, since, rs.len() as int);
    }
    if (forall|i: int| 0 <= i < rs.len() && #[trigger] rs[i].address == a ==> rs[i].timestamp <= t)
        && later - t >= cooldown_minutes * 60 {
        assert forall|i: int| 0 <= i < after.len() implies !is_recent(#[trigger] after[i], a, since) by {
            if i < rs.len() {
                assert(inserted[i] == rs[i]);
            }
        }
        lemma_count_zero(after, a, since);
    }
}

/// Removing expired records twice with the same cutoff leaves what removing
/// them once leaves.
pub proof fn lemma_delete_expired_idempotent(rs: Seq<RecordModel>, a: Seq<char>, before: int)
    ensures
        unexpired(unexpired(rs, a, before), a, before) == unexpired(rs, a, before),
    decreases rs.len(),
{
    if rs.len() > 0 {
        let d = rs.drop_last();
        lemma_delete_expired_idempotent(d, a, before);
        let ud = unexpired(d, a, before);
        if !is_expired(rs.last(), a, before) {
            assert(ud.push(rs.last()).drop_last() =~= ud);
        }
    }
}

/// A record stays through every sweep that does not expire it, and until it
/// expires it is counted for its address by every count whose lower bound lies
/// before its timestamp.
pub proof fn lemma_unsettled_record_persists(
    rs: Seq<RecordModel>,
    k: int,
    swept: Seq<char>,
    before: int,
    since: int,
)
    requires
        0 <= k < rs.len(),
    ensures
        !is_expired(rs[k], swept, before) ==> unexpired(rs, swept, before).contains(rs[k]),
        since < rs[k].timestamp ==> recent_count(rs, rs[k].address, since) > 0,
    decreases rs.len(),
{
    if since < rs[k].timestamp {
        lemma_count_positive(rs, rs[k].address, since, k);
    }
    if !is_expired(rs[k], swept, before) {
        let u = unexpired(rs, swept, before);
        if k == rs.len() - 1 {
            assert(u[u.len() - 1] == rs[k]);
        } else {
            let d = rs.drop_last();
            lemma_unsettled_record_persists(d, k, swept, before, since);
            let ud = unexpired(d, swept, before);
            assert(d[k] == rs[k]);
            let j = choose|j: int| 0 <= j < ud.len() && ud[j] == d[k];
            assert(u[j] == rs[k]);
        }
    }
}

} // verus!

//! Deposit store: records keyed by a unique identifier, with status-indexed
//! queries and forward-only status transitions.
//!
//! The store is the in-memory model of the durable deposits table: records
//! are held in insertion order, each stamped with a strictly increasing
//! creation tick, identifiers are unique, and a deposit's status only ever
//! moves forward. Settling a deposit and recording its transaction hash is a
//! single atomic update.

use crate::decimal::{dec_is_positive, Decimal, DecimalView};
use crate::errors::StoreError;
use vstd::prelude::*;

verus! {

/// Lifecycle status of a deposit.
#[derive(Clone, Copy, Debug, PartialEq, Eq, Structural)]
pub enum DepositStatus {
    /// Recorded, awaiting funds on the predicted address.
    Created,
    /// The user-side transfer was started; not driven by this pipeline.
    Initiated,
    /// Funds were verified and the settlement transaction submitted.
    Deposited,
}

/// Position of a status along the lifecycle.
pub open spec fn status_rank(s: DepositStatus) -> int {
    match s {
        DepositStatus::Created => 0,
        DepositStatus::Initiated => 1,
        DepositStatus::Deposited => 2,
    }
}

/// A status may only move strictly forward.
pub open spec fn transition_allowed(from: DepositStatus, to: DepositStatus) -> bool {
    status_rank(from) < status_rank(to)
}

impl DepositStatus {
    /// The lowercase textual form used by the durable store and the API.
    pub fn label(&self) -> (r: &'static str)
        ensures
            *self == DepositStatus::Created ==> r@ == "created"@,
            *self == DepositStatus::Initiated ==> r@ == "initiated"@,
            *self == DepositStatus::Deposited ==> r@ == "deposited"@,
    {
        match self {
            DepositStatus::Created => "created",
            DepositStatus::Initiated => "initiated",
            DepositStatus::Deposited => "deposited",
        }
    }
}

/// One tracked deposit.
pub struct DepositRecord {
    /// Unique identifier: 32 random bytes, hex-encoded. Immutable.
    pub deposit_id: String,
    /// The depositing user's chain address.
    pub user_address: String,
    /// Intent class of the deposit.
    pub action: u128,
    /// The pledged amount; strictly positive and immutable.
    pub amount: Decimal,
    /// Address of the token contract the amount is denominated in.
    pub token: String,
    /// Address the vault ultimately serves.
    pub target_address: String,
    /// The chain address predicted to receive the funds. Immutable.
    pub deposit_address: String,
    /// Lifecycle status; moves only forward.
    pub status: DepositStatus,
    /// Hash of the settlement transaction; present exactly once settled.
    pub settlement_tx_hash: Option<String>,
    /// Creation tick assigned by the store; strictly increasing.
    pub created_at: u64,
}

/// The mathematical content of a [`DepositRecord`].
pub struct DepositView {
    /// Unique identifier.
    pub deposit_id: Seq<char>,
    /// The depositing user's chain address.
    pub user_address: Seq<char>,
    /// Intent class.
    pub action: u128,
    /// The pledged amount.
    pub amount: DecimalView,
    /// Token contract address.
    pub token: Seq<char>,
    /// Target address.
    pub target_address: Seq<char>,
    /// Predicted deposit address.
    pub deposit_address: Seq<char>,
    /// Lifecycle status.
    pub status: DepositStatus,
    /// Settlement transaction hash, once settled.
    pub settlement_tx_hash: Option<Seq<char>>,
    /// Creation tick.
    pub created_at: u64,
}

impl View for DepositRecord {
    type V = DepositView;

    open spec fn view(&self) -> DepositView {
        DepositView {
            deposit_id: self.deposit_id@,
            user_address: self.user_address@,
            action: self.action,
            amount: self.amount@,
            token: self.token@,
            target_address: self.target_address@,
            deposit_address: self.deposit_address@,
            status: self.status,
            settlement_tx_hash: match self.settlement_tx_hash {
                Some(h) => Some(h@),
                None => None,
            },
            created_at: self.created_at,
        }
    }
}

/// A record is well formed when its amount is strictly positive and its
/// transaction hash is present, and non-empty, exactly when it is settled.
pub open spec fn record_wf(r: DepositView) -> bool {
    &&& dec_is_positive(r.amount)
    &&& (r.status == DepositStatus::Deposited <==> r.settlement_tx_hash is Some)
    &&& (r.settlement_tx_hash matches Some(h) ==> h.len() > 0)
}

impl Clone for DepositRecord {
    /// Clones the record, preserving everything it holds.
    fn clone(&self) -> (r: Self)
        ensures
            r@ == self@,
    {
        let tx: Option<String> = match &self.settlement_tx_hash {
            Some(h) => Some(h.clone()),
            None => None,
        };
        DepositRecord {
            deposit_id: self.deposit_id.clone(),
            user_address: self.user_address.clone(),
            action: self.action,
            amount: self.amount.clone(),
            token: self.token.clone(),
            target_address: self.target_address.clone(),
            deposit_address: self.deposit_address.clone(),
            status: self.status,
            settlement_tx_hash: tx,
            created_at: self.created_at,
        }
    }
}

/// Whether some record in `s` carries the identifier `id`.
pub open spec fn has_id(s: Seq<DepositView>, id: Seq<char>) -> bool {
    exists|i: int| 0 <= i < s.len() && s[i].deposit_id == id
}

/// The records of `s` whose status is `st`, newest (last inserted) first.
pub open spec fn newest_first_with_status(s: Seq<DepositView>, st: DepositStatus) -> Seq<
    DepositView,
>
    decreases s.len(),
{
    if s.len() == 0 {
        Seq::empty()
    } else if s.last().status == st {
        seq![s.last()] + newest_first_with_status(s.drop_last(), st)
    } else {
        newest_first_with_status(s.drop_last(), st)
    }
}

/// The records of `s` belonging to `user`, newest first.
pub open spec fn newest_first_for_user(s: Seq<DepositView>, user: Seq<char>) -> Seq<DepositView>
    decreases s.len(),
{
    if s.len() == 0 {
        Seq::empty()
    } else if s.last().user_address == user {
        seq![s.last()] + newest_first_for_user(s.drop_last(), user)
    } else {
        newest_first_for_user(s.drop_last(), user)
    }
}

/// Law: a status listing holds only records of that status, every one a
/// record of the store, in strictly descending creation order — the newest
/// first. `s` is the store's records oldest-first, with the strictly
/// increasing creation ticks the store invariant grants.
pub proof fn lemma_listing_is_newest_first(s: Seq<DepositView>, st: DepositStatus)
    requires
        forall|i: int, j: int| 0 <= i < j < s.len() ==> s[i].created_at < s[j].created_at,
    ensures
        forall|k: int|
            0 <= k < newest_first_with_status(s, st).len() ==> (#[trigger] newest_first_with_status(
                s,
                st,
            )[k]).status == st,
        forall|k: int|
            0 <= k < newest_first_with_status(s, st).len() ==> exists|i: int|
                0 <= i < s.len() && s[i] == #[trigger] newest_first_with_status(s, st)[k],
        forall|k: int, l: int|
            0 <= k < l < newest_first_with_status(s, st).len() ==> newest_first_with_status(
                s,
                st,
            )[k].created_at > newest_first_with_status(s, st)[l].created_at,
    decreases s.len(),
{
    if s.len() > 0 {
        let rest = newest_first_with_status(s.drop_last(), st);
        lemma_listing_is_newest_first(s.drop_last(), st);
        assert(forall|k: int|
            0 <= k < rest.len() ==> #[trigger] rest[k].created_at < s.last().created_at) by {
            assert(forall|k: int|
                0 <= k < rest.len() ==> exists|i: int|
                    0 <= i < s.drop_last().len() && s.drop_last()[i] == #[trigger] rest[k]);
        }
        if s.last().status == st {
            let r = newest_first_with_status(s, st);
            assert(r == seq![s.last()] + rest);
            assert(forall|k: int| 1 <= k < r.len() ==> #[trigger] r[k] == rest[k - 1]);
            assert(forall|k: int|
                0 <= k < rest.len() ==> exists|i: int|
                    0 <= i < s.len() && s[i] == #[trigger] rest[k]) by {
                assert(forall|i: int| 0 <= i < s.drop_last().len() ==> s.drop_last()[i] == s[i]);
            }
        } else {
            assert(forall|k: int|
                0 <= k < rest.len() ==> exists|i: int|
                    0 <= i < s.len() && s[i] == #[trigger] rest[k]) by {
                assert(forall|i: int| 0 <= i < s.drop_last().len() ==> s.drop_last()[i] == s[i]);
            }
        }
    }
}

/// Law: a status listing misses nothing — every record of the store with
/// that status appears in it.
pub proof fn lemma_listing_complete(s: Seq<DepositView>, st: DepositStatus)
    ensures
        forall|i: int|
            0 <= i < s.len() && (#[trigger] s[i]).status == st ==> exists|k: int|
                0 <= k < newest_first_with_status(s, st).len() && newest_first_with_status(
                    s,
                    st,
                )[k] == s[i],
    decreases s.len(),
{
    if s.len() > 0 {
        let rest = newest_first_with_status(s.drop_last(), st);
        let r = newest_first_with_status(s, st);
        lemma_listing_complete(s.drop_last(), st);
        assert(forall|i: int|
            0 <= i < s.drop_last().len() ==> #[trigger] s.drop_last()[i] == s[i]);
        assert forall|i: int| 0 <= i < s.len() && (#[trigger] s[i]).status == st implies exists|
            k: int,
        | 0 <= k < r.len() && r[k] == s[i] by {
            if s.last().status == st {
                assert(r == seq![s.last()] + rest);
                if i == s.len() - 1 {
                    assert(r[0] == s[i]);
                } else {
                    let k = choose|k: int|
                        0 <= k < rest.len() && rest[k] == s.drop_last()[i];
                    assert(r[k + 1] == s[i]);
                }
            } else {
                assert(r == rest);
                let k = choose|k: int| 0 <= k < rest.len() && rest[k] == s.drop_last()[i];
                assert(r[k] == s[i]);
            }
        }
    }
}

/// The view of an optional owned string.
pub open spec fn opt_view(tx: Option<String>) -> Option<Seq<char>> {
    match tx {
        Some(h) => Some(h@),
        None => None,
    }
}

/// A transaction hash fits a status when settling carries a non-empty hash
/// and no other status carries one.
pub open spec fn hash_matches_status(st: DepositStatus, tx: Option<Seq<char>>) -> bool {
    match tx {
        Some(h) => st == DepositStatus::Deposited && h.len() > 0,
        None => st != DepositStatus::Deposited,
    }
}

/// The record with its status and transaction hash replaced; everything a
/// deposit is created with stays as it was.
pub open spec fn with_update(
    r: DepositView,
    st: DepositStatus,
    tx: Option<Seq<char>>,
) -> DepositView {
    DepositView { status: st, settlement_tx_hash: tx, ..r }
}

/// The fields that are immutable after creation agree between two views.
pub open spec fn unchanged_identity(a: DepositView, b: DepositView) -> bool {
    &&& a.deposit_id == b.deposit_id
    &&& a.user_address == b.user_address
    &&& a.action == b.action
    &&& a.amount == b.amount
    &&& a.token == b.token
    &&& a.target_address == b.target_address
    &&& a.deposit_address == b.deposit_address
    &&& a.created_at == b.created_at
}

/// The rank of a status, as executable code.
fn status_rank_exec(s: DepositStatus) -> (r: u8)
    ensures
        r as int == status_rank(s),
{
    match s {
        DepositStatus::Created => 0,
        DepositStatus::Initiated => 1,
        DepositStatus::Deposited => 2,
    }
}

/// The deposit store: records in insertion order plus the next creation tick.
pub struct DepositStore {
    /// Records, oldest first.
    pub records: Vec<DepositRecord>,
    /// The tick the next created record will carry.
    pub next_stamp: u64,
}

/// The store's mathematical content: the views of its records, oldest first.
pub open spec fn store_view(st: DepositStore) -> Seq<DepositView> {
    st.records@.map_values(|r: DepositRecord| r@)
}

/// Store invariant: well-formed records, unique identifiers, and strictly
/// increasing creation ticks all below the next tick.
pub open spec fn store_wf(st: DepositStore) -> bool {
    &&& (forall|i: int| 0 <= i < store_view(st).len() ==> record_wf(#[trigger] store_view(st)[i]))
    &&& (forall|i: int, j: int|
        0 <= i < j < store_view(st).len() ==> store_view(st)[i].deposit_id != store_view(
            st,
        )[j].deposit_id)
    &&& (forall|i: int, j: int|
        0 <= i < j < store_view(st).len() ==> store_view(st)[i].created_at < store_view(
            st,
        )[j].created_at)
    &&& (forall|i: int|
        0 <= i < store_view(st).len() ==> #[trigger] store_view(st)[i].created_at < st.next_stamp)
}

impl DepositStore {
    /// An empty store.
    pub fn new() -> (st: DepositStore)
        ensures
            store_view(st).len() == 0,
            st.next_stamp == 0,
            store_wf(st),
    {
        DepositStore { records: Vec::new(), next_stamp: 0 }
    }

    /// Index of the record carrying `deposit_id`, if any.
    fn position_of(&self, deposit_id: &String) -> (r: Option<usize>)
        ensures
            match r {
                Some(i) => i < store_view(*self).len() && store_view(*self)[i as int].deposit_id
                    == deposit_id@,
                None => !has_id(store_view(*self), deposit_id@),
            },
    {
        let mut i: usize = 0;
        while i < self.records.len()
            invariant
                0 <= i <= self.records@.len(),
                forall|j: int| 0 <= j < i ==> store_view(*self)[j].deposit_id != deposit_id@,
            decreases self.records@.len() - i,
        {
            if self.records[i].deposit_id == *deposit_id {
                return Some(i);
            }
            i = i + 1;
        }
        None
    }

    /// Inserts a new deposit with status `Created` and no transaction hash.
    ///
    /// Fails with `Conflict` exactly when the identifier is already present;
    /// the store is then unchanged.
    pub fn create_deposit(
        &mut self,
        deposit_id: String,
        user_address: String,
        action: u128,
        amount: Decimal,
        token: String,
        target_address: String,
        deposit_address: String,
    ) -> (r: Result<DepositRecord, StoreError>)
        requires
            store_wf(*old(self)),
            dec_is_positive(amount@),
            old(self).next_stamp < u64::MAX,
        ensures
            store_wf(*final(self)),
            match r {
                Ok(rec) => {
                    &&& !has_id(store_view(*old(self)), deposit_id@)
                    &&& store_view(*final(self)) == store_view(*old(self)).push(rec@)
                    &&& final(self).next_stamp == old(self).next_stamp + 1
                    &&& rec@.deposit_id == deposit_id@
                    &&& rec@.user_address == user_address@
                    &&& rec@.action == action
                    &&& rec@.amount == amount@
                    &&& rec@.token == token@
                    &&& rec@.target_address == target_address@
                    &&& rec@.deposit_address == deposit_address@
                    &&& rec@.status == DepositStatus::Created
                    &&& rec@.settlement_tx_hash is None
                    &&& rec@.created_at == old(self).next_stamp
                },
                Err(e) => {
                    &&& e == StoreError::Conflict
                    &&& has_id(store_view(*old(self)), deposit_id@)
                    &&& *final(self) == *old(self)
                },
            },
    {
        match self.position_of(&deposit_id) {
            Some(_) => Err(StoreError::Conflict),
            None => {
                let rec = DepositRecord {
                    deposit_id,
                    user_address,
                    action,
                    amount,
                    token,
                    target_address,
                    deposit_address,
                    status: DepositStatus::Created,
                    settlement_tx_hash: None,
                    created_at: self.next_stamp,
                };
                let out = rec.clone();
                let ghost old_records = self.records@;
                self.records.push(rec);
                self.next_stamp = self.next_stamp + 1;
                proof {
                    assert(store_view(*self) =~= old_records.map_values(
                        |r: DepositRecord| r@,
                    ).push(out@));
                }
                Ok(out)
            },
        }
    }

    /// All deposits with the given status, newest first.
    pub fn get_deposits_by_status(&self, status: DepositStatus) -> (r: Vec<DepositRecord>)
        ensures
            r@.map_values(|x: DepositRecord| x@) == newest_first_with_status(
                store_view(*self),
                status,
            ),
    {
        let mut out: Vec<DepositRecord> = Vec::new();
        let mut i: usize = self.records.len();
        proof {
            assert(store_view(*self).subrange(0, store_view(*self).len() as int) =~= store_view(
                *self,
            ));
            assert(out@.map_values(|x: DepositRecord| x@) + newest_first_with_status(
                store_view(*self),
                status,
            ) =~= newest_first_with_status(store_view(*self), status));
        }
        while i > 0
            invariant
                0 <= i <= self.records@.len(),
                newest_first_with_status(store_view(*self), status) == out@.map_values(
                    |x: DepositRecord| x@,
                ) + newest_first_with_status(store_view(*self).subrange(0, i as int), status),
            decreases i,
        {
            proof {
                let full = store_view(*self);
                let pre = full.subrange(0, i as int);
                assert(pre.len() == i && pre.last() == full[i - 1]);
                assert(pre.drop_last() =~= full.subrange(0, i - 1));
            }
            let ghost prev_out = out@;
            let rec = &self.records[i - 1];
            if rec.status == status {
                out.push(rec.clone());
                proof {
                    let full = store_view(*self);
                    assert(out@.map_values(|x: DepositRecord| x@) =~= prev_out.map_values(
                        |x: DepositRecord| x@,
                    ).push(full[i - 1]));
                    assert(prev_out.map_values(|x: DepositRecord| x@).push(full[i - 1])
                        + newest_first_with_status(full.subrange(0, i - 1), status)
                        =~= prev_out.map_values(|x: DepositRecord| x@) + (seq![full[i - 1]]
                        + newest_first_with_status(full.subrange(0, i - 1), status)));
                }
            }
            i = i - 1;
        }
        proof {
            assert(store_view(*self).subrange(0, 0) =~= Seq::<DepositView>::empty());
            assert(out@.map_values(|x: DepositRecord| x@) + newest_first_with_status(
                Seq::<DepositView>::empty(),
                status,
            ) =~= out@.map_values(|x: DepositRecord| x@));
        }
        out
    }

    /// All deposits of the given user, newest first.
    pub fn get_deposits_by_user_address(&self, user_address: &String) -> (r: Vec<DepositRecord>)
        ensures
            r@.map_values(|x: DepositRecord| x@) == newest_first_for_user(
                store_view(*self),
                user_address@,
            ),
    {
        let mut out: Vec<DepositRecord> = Vec::new();
        let mut i: usize = self.records.len();
        proof {
            assert(store_view(*self).subrange(0, store_view(*self).len() as int) =~= store_view(
                *self,
            ));
            assert(out@.map_values(|x: DepositRecord| x@) + newest_first_for_user(
                store_view(*self),
                user_address@,
            ) =~= newest_first_for_user(store_view(*self), user_address@));
        }
        while i > 0
            invariant
                0 <= i <= self.records@.len(),
                newest_first_for_user(store_view(*self), user_address@) == out@.map_values(
                    |x: DepositRecord| x@,
                ) + newest_first_for_user(store_view(*self).subrange(0, i as int), user_address@),
            decreases i,
        {
            proof {
                let full = store_view(*self);
                let pre = full.subrange(0, i as int);
                assert(pre.len() == i && pre.last() == full[i - 1]);
                assert(pre.drop_last() =~= full.subrange(0, i - 1));
            }
            let ghost prev_out = out@;
            let rec = &self.records[i - 1];
            if rec.user_address == *user_address {
                out.push(rec.clone());
                proof {
                    let full = store_view(*self);
                    assert(out@.map_values(|x: DepositRecord| x@) =~= prev_out.map_values(
                        |x: DepositRecord| x@,
                    ).push(full[i - 1]));
                    assert(prev_out.map_values(|x: DepositRecord| x@).push(full[i - 1])
                        + newest_first_for_user(full.subrange(0, i - 1), user_address@)
                        =~= prev_out.map_values(|x: DepositRecord| x@) + (seq![full[i - 1]]
                        + newest_first_for_user(full.subrange(0, i - 1), user_address@)));
                }
            }
            i = i - 1;
        }
        proof {
            assert(store_view(*self).subrange(0, 0) =~= Seq::<DepositView>::empty());
            assert(out@.map_values(|x: DepositRecord| x@) + newest_first_for_user(
                Seq::<DepositView>::empty(),
                user_address@,
            ) =~= out@.map_values(|x: DepositRecord| x@));
        }
        out
    }

    /// Atomically moves a deposit to a new status and records the settlement
    /// transaction hash, in one update.
    ///
    /// Succeeds exactly when the deposit exists, the status moves strictly
    /// forward, and the hash fits the new status: settling requires a
    /// non-empty hash, any other move carries none. On failure the store is
    /// unchanged; in every case no status ever moves backwards and the
    /// immutable fields stay untouched.
    pub fn update_deposit_status_and_tx_hash(
        &mut self,
        deposit_id: &String,
        new_status: DepositStatus,
        tx_hash: Option<String>,
    ) -> (r: Result<(), StoreError>)
        requires
            store_wf(*old(self)),
        ensures
            store_wf(*final(self)),
            final(self).next_stamp == old(self).next_stamp,
            store_view(*final(self)).len() == store_view(*old(self)).len(),
            forall|i: int|
                0 <= i < store_view(*old(self)).len() ==> status_rank(
                    #[trigger] store_view(*final(self))[i].status,
                ) >= status_rank(store_view(*old(self))[i].status),
            forall|i: int|
                0 <= i < store_view(*old(self)).len() ==> unchanged_identity(
                    #[trigger] store_view(*final(self))[i],
                    store_view(*old(self))[i],
                ),
            match r {
                Ok(()) => exists|i: int|
                    {
                        &&& 0 <= i < store_view(*old(self)).len()
                        &&& store_view(*old(self))[i].deposit_id == deposit_id@
                        &&& transition_allowed(store_view(*old(self))[i].status, new_status)
                        &&& hash_matches_status(new_status, opt_view(tx_hash))
                        &&& store_view(*final(self)) == store_view(*old(self)).update(
                            i,
                            with_update(store_view(*old(self))[i], new_status, opt_view(tx_hash)),
                        )
                    },
                Err(e) => {
                    &&& *final(self) == *old(self)
                    &&& match e {
                        StoreError::NotFound => !has_id(store_view(*old(self)), deposit_id@),
                        StoreError::InvalidTransition => exists|i: int|
                            {
                                &&& 0 <= i < store_view(*old(self)).len()
                                &&& store_view(*old(self))[i].deposit_id == deposit_id@
                                &&& !transition_allowed(
                                    store_view(*old(self))[i].status,
                                    new_status,
                                )
                            },
                        StoreError::MissingTxHash => !hash_matches_status(
                            new_status,
                            opt_view(tx_hash),
                        ) && has_id(store_view(*old(self)), deposit_id@),
                        _ => false,
                    }
                },
            },
    {
        let idx = match self.position_of(deposit_id) {
            Some(i) => i,
            None => {
                return Err(StoreError::NotFound);
            },
        };
        let current = self.records[idx].status;
        if !(status_rank_exec(current) < status_rank_exec(new_status)) {
            return Err(StoreError::InvalidTransition);
        }
        let hash_ok = match &tx_hash {
            Some(h) => {
                matches!(new_status, DepositStatus::Deposited) && !h.as_str().is_empty()
            },
            None => !matches!(new_status, DepositStatus::Deposited),
        };
        if !hash_ok {
            return Err(StoreError::MissingTxHash);
        }
        let ghost old_store = *self;
        let ghost txv = opt_view(tx_hash);
        let rec = &mut self.records[idx];
        rec.status = new_status;
        rec.settlement_tx_hash = tx_hash;
        proof {
            assert(store_view(*self) =~= store_view(old_store).update(
                idx as int,
                with_update(store_view(old_store)[idx as int], new_status, txv),
            ));
        }
        Ok(())
    }

    /// Moves a deposit to a new status without touching the transaction
    /// hash slot; settling is refused here because it must carry a hash
    /// through the combined update.
    pub fn update_deposit_status(&mut self, deposit_id: &String, new_status: DepositStatus) -> (r:
        Result<(), StoreError>)
        requires
            store_wf(*old(self)),
        ensures
            store_wf(*final(self)),
            final(self).next_stamp == old(self).next_stamp,
            store_view(*final(self)).len() == store_view(*old(self)).len(),
            forall|i: int|
                0 <= i < store_view(*old(self)).len() ==> status_rank(
                    #[trigger] store_view(*final(self))[i].status,
                ) >= status_rank(store_view(*old(self))[i].status),
            match r {
                Ok(()) => exists|i: int|
                    {
                        &&& 0 <= i < store_view(*old(self)).len()
                        &&& store_view(*old(self))[i].deposit_id == deposit_id@
                        &&& transition_allowed(store_view(*old(self))[i].status, new_status)
                        &&& new_status != DepositStatus::Deposited
                        &&& store_view(*final(self)) == store_view(*old(self)).update(
                            i,
                            with_update(store_view(*old(self))[i], new_status, None),
                        )
                    },
                Err(e) => {
                    &&& *final(self) == *old(self)
                    &&& match e {
                        StoreError::NotFound => !has_id(store_view(*old(self)), deposit_id@),
                        StoreError::InvalidTransition => exists|i: int|
                            {
                                &&& 0 <= i < store_view(*old(self)).len()
                                &&& store_view(*old(self))[i].deposit_id == deposit_id@
                                &&& !transition_allowed(
                                    store_view(*old(self))[i].status,
                                    new_status,
                                )
                            },
                        StoreError::MissingTxHash => new_status == DepositStatus::Deposited
                            && has_id(store_view(*old(self)), deposit_id@),
                        _ => false,
                    }
                },
            },
    {
        self.update_deposit_status_and_tx_hash(deposit_id, new_status, None)
    }

    /// Looks a deposit up by its identifier.
    pub fn get_deposit(&self, deposit_id: &String) -> (r: Option<&DepositRecord>)
        ensures
            match r {
                Some(rec) => exists|i: int|
                    0 <= i < store_view(*self).len() && store_view(*self)[i] == rec@
                        && rec@.deposit_id == deposit_id@,
                None => !has_id(store_view(*self), deposit_id@),
            },
    {
        match self.position_of(deposit_id) {
            Some(i) => Some(&self.records[i]),
            None => None,
        }
    }
}

} // verus!

//! Settlement watcher: one poll cycle of the balance-verification-then-
//! settlement loop.
//!
//! A cycle walks the pending (`Created`) deposits. For each, independently:
//! malformed addresses are skipped; the on-chain balance of the predicted
//! deposit address is compared, as a decimal, with the stored amount; a
//! deposit whose funds have not arrived is left `Created` for the next
//! cycle; one whose funds suffice is moved to `Initiated` *before* its
//! vault-deployment transaction is submitted, and atomically marked
//! `Deposited` with the returned hash once submission succeeds. The
//! pre-commit to `Initiated` closes the double-submission window: a deposit
//! whose submission was attempted is never picked up as pending again, so a
//! crash between submission and the final update cannot settle twice; a
//! deposit stuck in `Initiated` is surfaced to the operator instead of
//! being retried blindly. No failure of one deposit touches another, and no
//! status ever moves backwards.

use crate::bignum::NumOrder;
use crate::chain::{
    chain_wf, felt_from_hex, felt_hex_ok, model_balance, vault_calldata, ChainModel,
};
use crate::codec::{truncated_units, u256_limit};
use crate::decimal::{dec_lt, dec_cmp, Decimal};
use crate::errors::StarknetError;
use crate::store::{
    has_id, status_rank, store_view, store_wf, with_update, DepositRecord, DepositStatus,
    DepositStore, DepositView,
};
use vstd::prelude::*;

verus! {

/// The default polling interval, in seconds.
pub const DEFAULT_POLLING_INTERVAL: u64 = 10;

/// The fixed action tag the settlement invocation is submitted with.
pub const DEFAULT_ACTION: u128 = 1;

/// The polling interval to run with: the configured one, or the default.
pub fn effective_polling_interval(configured: Option<u64>) -> (r: u64)
    ensures
        r == match configured {
            Some(v) => v,
            None => DEFAULT_POLLING_INTERVAL as u64,
        },
{
    match configured {
        Some(v) => v,
        None => DEFAULT_POLLING_INTERVAL,
    }
}

/// A deposit is fundable when it is still `Created`, all its chain address
/// fields parse, its amount fits the on-chain width, and the chain's balance
/// of its deposit address covers the amount: everything short of submission
/// itself.
pub open spec fn deposit_fundable(d: DepositView, c: ChainModel) -> bool {
    &&& d.status == DepositStatus::Created
    &&& felt_hex_ok(d.token)
    &&& felt_hex_ok(d.deposit_address)
    &&& felt_hex_ok(d.user_address)
    &&& felt_hex_ok(d.target_address)
    &&& felt_hex_ok(d.deposit_id)
    &&& truncated_units(d.amount) < u256_limit()
    &&& !dec_lt(model_balance(c, d.token, d.deposit_address), d.amount)
}

/// A deposit is ready to settle when it is fundable and submission goes
/// through.
pub open spec fn deposit_ready(d: DepositView, c: ChainModel) -> bool {
    deposit_fundable(d, c) && c.submit_ok
}

/// A ready deposit after settlement: `Deposited`, carrying the chain's
/// transaction hash; nothing else changes.
pub open spec fn settled_view(d: DepositView, c: ChainModel) -> DepositView {
    with_update(d, DepositStatus::Deposited, Some(c.tx_hash@))
}

/// What one poll cycle does to a single deposit: a ready deposit is
/// settled; a fundable one whose submission failed stays pre-committed as
/// `Initiated`, for the operator rather than for blind resubmission; any
/// other deposit is untouched.
pub open spec fn cycle_step(d: DepositView, c: ChainModel) -> DepositView {
    if deposit_ready(d, c) {
        settled_view(d, c)
    } else if deposit_fundable(d, c) {
        with_update(d, DepositStatus::Initiated, None)
    } else {
        d
    }
}

/// How many deposits of `s` are ready.
pub open spec fn count_ready(s: Seq<DepositView>, c: ChainModel) -> int
    decreases s.len(),
{
    if s.len() == 0 {
        0
    } else {
        count_ready(s.drop_last(), c) + if deposit_ready(s.last(), c) {
            1int
        } else {
            0int
        }
    }
}

/// Parses a hex-encoded chain address, succeeding exactly on well-formed
/// ones.
pub fn parse_address(address_hex: &str, field_name: &str) -> (r: Result<
    starknet::core::types::Felt,
    StarknetError,
>)
    ensures
        r is Ok <==> felt_hex_ok(address_hex@),
        r matches Err(e) ==> e matches StarknetError::InvalidDataFormat(_),
{
    match felt_from_hex(address_hex) {
        Some(f) => Ok(f),
        None => {
            let mut msg = "Failed to parse address field: ".to_string();
            msg.append(field_name);
            Err(StarknetError::InvalidDataFormat(msg))
        },
    }
}

/// Whether an on-chain balance covers the stored amount, by decimal
/// comparison.
pub fn balance_covers(balance: &Decimal, amount: &Decimal) -> (r: bool)
    ensures
        r <==> !dec_lt(balance@, amount@),
{
    !matches!(dec_cmp(balance, amount), NumOrder::Less)
}

/// Runs one poll cycle of the settlement watcher over the store, against the
/// given chain: every ready deposit is settled (status `Deposited`, the
/// chain's transaction hash recorded, atomically), every other deposit is
/// left exactly as it was. Returns how many deposits were settled.
pub fn process_pending_deposits(store: &mut DepositStore, chain: &ChainModel) -> (processed: usize)
    requires
        store_wf(*old(store)),
        chain_wf(*chain),
    ensures
        store_wf(*final(store)),
        final(store).next_stamp == old(store).next_stamp,
        store_view(*final(store)).len() == store_view(*old(store)).len(),
        forall|i: int|
            0 <= i < store_view(*old(store)).len() ==> #[trigger] store_view(*final(store))[i]
                == cycle_step(store_view(*old(store))[i], *chain),
        processed == count_ready(store_view(*old(store)), *chain),
{
    let ghost orig = store_view(*old(store));
    let mut processed: usize = 0;
    let mut i: usize = 0;
    proof {
        assert(count_ready(orig.subrange(0, 0), *chain) == 0) by {
            assert(orig.subrange(0, 0) =~= Seq::<DepositView>::empty());
        }
    }
    while i < store.records.len()
        invariant
            store_wf(*store),
            chain_wf(*chain),
            store.next_stamp == old(store).next_stamp,
            orig == store_view(*old(store)),
            store_view(*store).len() == orig.len(),
            0 <= i <= orig.len(),
            processed <= i,
            forall|j: int|
                0 <= j < i ==> #[trigger] store_view(*store)[j] == cycle_step(orig[j], *chain),
            forall|j: int| i <= j < orig.len() ==> #[trigger] store_view(*store)[j] == orig[j],
            processed == count_ready(orig.subrange(0, i as int), *chain),
        decreases orig.len() - i,
    {
        proof {
            lemma_count_ready_step(orig, *chain, i as int);
        }
        let settled = process_deposit(store, chain, i, Ghost(orig));
        if settled {
            processed = processed + 1;
        }
        i = i + 1;
    }
    proof {
        assert(orig.subrange(0, orig.len() as int) =~= orig);
    }
    processed
}

/// Processes the deposit at index `i`: settles it exactly when it is ready.
fn process_deposit(
    store: &mut DepositStore,
    chain: &ChainModel,
    i: usize,
    Ghost(orig): Ghost<Seq<DepositView>>,
) -> (settled: bool)
    requires
        store_wf(*old(store)),
        chain_wf(*chain),
        i < store_view(*old(store)).len(),
        store_view(*old(store))[i as int] == orig[i as int],
        i < orig.len(),
    ensures
        store_wf(*final(store)),
        final(store).next_stamp == old(store).next_stamp,
        store_view(*final(store)).len() == store_view(*old(store)).len(),
        store_view(*final(store)) == store_view(*old(store)).update(
            i as int,
            cycle_step(orig[i as int], *chain),
        ),
        settled == deposit_ready(orig[i as int], *chain),
{
    let ghost pre = store_view(*old(store));
    let rec = store.records[i].clone();
    proof {
        assert(rec@ == pre[i as int]);
        assert(pre.update(i as int, pre[i as int]) =~= pre);
    }
    if !matches!(rec.status, DepositStatus::Created) {
        return false;
    }
    let token_felt = match parse_address(rec.token.as_str(), "token") {
        Ok(f) => f,
        Err(_) => {
            return false;
        },
    };
    match parse_address(rec.deposit_address.as_str(), "deposit") {
        Ok(_) => (),
        Err(_) => {
            return false;
        },
    }
    let user_felt = match parse_address(rec.user_address.as_str(), "user") {
        Ok(f) => f,
        Err(_) => {
            return false;
        },
    };
    let target_felt = match parse_address(rec.target_address.as_str(), "target") {
        Ok(f) => f,
        Err(_) => {
            return false;
        },
    };
    let id_felt = match parse_address(rec.deposit_id.as_str(), "deposit_id") {
        Ok(f) => f,
        Err(_) => {
            return false;
        },
    };
    let balance = chain.balance_of(&rec.token, &rec.deposit_address);
    if !balance_covers(&balance, &rec.amount) {
        return false;
    }
    let calldata = match vault_calldata(
        &user_felt,
        &id_felt,
        DEFAULT_ACTION,
        &rec.amount,
        &token_felt,
        &target_felt,
    ) {
        Ok(cd) => cd,
        Err(_) => {
            return false;
        },
    };
    proof {
        assert(deposit_fundable(orig[i as int], *chain));
    }
    // Pre-commit: take the deposit out of the pending set before the
    // submission, so a crash in between cannot lead to a second submission.
    match store.update_deposit_status(&rec.deposit_id, DepositStatus::Initiated) {
        Ok(()) => {
            proof {
                let upd = choose|k: int|
                    0 <= k < pre.len() && pre[k].deposit_id == rec@.deposit_id
                        && #[trigger] store_view(*store) == pre.update(
                        k,
                        with_update(pre[k], DepositStatus::Initiated, None),
                    );
                assert(upd == i as int);
            }
        },
        Err(_) => {
            // Unreachable: the deposit exists and moves forward.
            proof {
                assert(false);
            }
            return false;
        },
    }
    let ghost committed = store_view(*store);
    let tx_hash = match chain.submit_settlement(&calldata) {
        Ok(h) => h,
        Err(_) => {
            proof {
                assert(store_view(*store) =~= pre.update(
                    i as int,
                    cycle_step(orig[i as int], *chain),
                ));
            }
            return false;
        },
    };
    let ghost hash_view = tx_hash@;
    match store.update_deposit_status_and_tx_hash(
        &rec.deposit_id,
        DepositStatus::Deposited,
        Some(tx_hash),
    ) {
        Ok(()) => {
            proof {
                let upd = choose|k: int|
                    0 <= k < committed.len() && committed[k].deposit_id == rec@.deposit_id
                        && #[trigger] store_view(*store) == committed.update(
                        k,
                        with_update(committed[k], DepositStatus::Deposited, Some(hash_view)),
                    );
                assert(upd == i as int);
                assert(deposit_ready(orig[i as int], *chain));
                assert(store_view(*store)[i as int] == settled_view(orig[i as int], *chain));
                assert(store_view(*store) =~= pre.update(
                    i as int,
                    cycle_step(orig[i as int], *chain),
                ));
            }
            true
        },
        Err(_) => {
            // Unreachable: the deposit exists, moves forward, and the hash
            // is non-empty.
            proof {
                assert(false);
            }
            false
        },
    }
}

/// Law: a pending deposit whose on-chain balance covers its stored amount is
/// settled by one poll cycle — afterwards its status is `Deposited` and it
/// carries the chain's non-empty transaction hash — provided its address
/// fields are well formed, its amount fits the on-chain width, and the
/// submission goes through.
///
/// `pre` and `post` are the store's records before and after one cycle
/// against the chain `c`, as `process_pending_deposits` relates them.
pub proof fn lemma_sufficient_balance_settles(
    pre: Seq<DepositView>,
    post: Seq<DepositView>,
    c: ChainModel,
    i: int,
)
    requires
        chain_wf(c),
        post.len() == pre.len(),
        forall|j: int| 0 <= j < pre.len() ==> #[trigger] post[j] == cycle_step(pre[j], c),
        0 <= i < pre.len(),
        pre[i].status == DepositStatus::Created,
        !dec_lt(model_balance(c, pre[i].token, pre[i].deposit_address), pre[i].amount),
        felt_hex_ok(pre[i].token),
        felt_hex_ok(pre[i].deposit_address),
        felt_hex_ok(pre[i].user_address),
        felt_hex_ok(pre[i].target_address),
        felt_hex_ok(pre[i].deposit_id),
        truncated_units(pre[i].amount) < u256_limit(),
        c.submit_ok,
    ensures
        post[i].status == DepositStatus::Deposited,
        post[i].settlement_tx_hash == Some(c.tx_hash@),
        post[i].settlement_tx_hash matches Some(h) && h.len() > 0,
{
    assert(deposit_ready(pre[i], c));
}

/// Law: a pending deposit whose on-chain balance is below its stored amount
/// is left exactly as it was by one poll cycle — still `Created`, with no
/// transaction recorded — whatever else holds of it.
pub proof fn lemma_insufficient_balance_leaves_pending(
    pre: Seq<DepositView>,
    post: Seq<DepositView>,
    c: ChainModel,
    i: int,
)
    requires
        post.len() == pre.len(),
        forall|j: int| 0 <= j < pre.len() ==> #[trigger] post[j] == cycle_step(pre[j], c),
        0 <= i < pre.len(),
        pre[i].status == DepositStatus::Created,
        dec_lt(model_balance(c, pre[i].token, pre[i].deposit_address), pre[i].amount),
    ensures
        post[i] == pre[i],
        post[i].status == DepositStatus::Created,
{
    assert(!deposit_ready(pre[i], c));
}

/// Law: deposits are settled in isolation. In a batch holding one deposit
/// with a malformed address and one fully settleable deposit, one cycle
/// leaves the malformed one untouched and settles the other.
pub proof fn lemma_batch_isolation(
    pre: Seq<DepositView>,
    post: Seq<DepositView>,
    c: ChainModel,
    bad: int,
    good: int,
)
    requires
        chain_wf(c),
        post.len() == pre.len(),
        forall|j: int| 0 <= j < pre.len() ==> #[trigger] post[j] == cycle_step(pre[j], c),
        0 <= bad < pre.len(),
        0 <= good < pre.len(),
        !felt_hex_ok(pre[bad].token) || !felt_hex_ok(pre[bad].deposit_address),
        deposit_ready(pre[good], c),
    ensures
        post[bad] == pre[bad],
        post[good].status == DepositStatus::Deposited,
        post[good].settlement_tx_hash matches Some(h) && h.len() > 0,
{
    assert(!deposit_ready(pre[bad], c));
}

/// Law: a fundable deposit whose submission fails is pre-committed to
/// `Initiated` with no transaction recorded — it leaves the pending set, so
/// no later cycle can submit for it again.
pub proof fn lemma_failed_submission_pre_commits(
    pre: Seq<DepositView>,
    post: Seq<DepositView>,
    c: ChainModel,
    i: int,
)
    requires
        post.len() == pre.len(),
        forall|j: int| 0 <= j < pre.len() ==> #[trigger] post[j] == cycle_step(pre[j], c),
        0 <= i < pre.len(),
        deposit_fundable(pre[i], c),
        !c.submit_ok,
    ensures
        post[i].status == DepositStatus::Initiated,
        post[i].settlement_tx_hash is None,
        !deposit_fundable(post[i], c),
        !deposit_ready(post[i], c),
{
}

/// Law: one poll cycle never moves a deposit's status backwards and never
/// touches the fields a deposit was created with.
pub proof fn lemma_cycle_never_regresses(
    pre: Seq<DepositView>,
    post: Seq<DepositView>,
    c: ChainModel,
)
    requires
        post.len() == pre.len(),
        forall|j: int| 0 <= j < pre.len() ==> #[trigger] post[j] == cycle_step(pre[j], c),
    ensures
        forall|j: int|
            0 <= j < pre.len() ==> status_rank(#[trigger] post[j].status) >= status_rank(
                pre[j].status,
            ),
        forall|j: int|
            0 <= j < pre.len() ==> crate::store::unchanged_identity(#[trigger] post[j], pre[j]),
{
}

/// Extending the processed prefix by one deposit raises the ready count by
/// one exactly when that deposit is ready.
proof fn lemma_count_ready_step(s: Seq<DepositView>, c: ChainModel, i: int)
    requires
        0 <= i < s.len(),
    ensures
        count_ready(s.subrange(0, i + 1), c) == count_ready(s.subrange(0, i), c) + if deposit_ready(
            s[i],
            c,
        ) {
            1int
        } else {
            0int
        },
{
    let p = s.subrange(0, i + 1);
    assert(p.drop_last() =~= s.subrange(0, i));
    assert(p.last() == s[i]);
}

} // verus!

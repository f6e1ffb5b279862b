//! Deposit registrar: turns an external request into a persisted,
//! address-resolved deposit.
//!
//! The registrar validates the request (a strictly positive amount, addresses
//! that parse as chain addresses), mints a fresh random 256-bit identifier,
//! obtains the predicted deposit address from the chain gateway's read path,
//! and persists the record with status `Created`. Rejected requests touch
//! neither the chain nor the store.

use crate::chain::{felt_from_hex, felt_hex_ok, vault_calldata, ChainModel};
use crate::decimal::{dec_is_positive, Decimal};
use crate::errors::{DepositError, StoreError};
use crate::store::{store_view, store_wf, DepositRecord, DepositStore};
use vstd::prelude::*;

verus! {

/// A request to create a deposit, as the HTTP front door hands it over.
pub struct CreateDepositRequest {
    /// The requesting user's chain address, hex-encoded.
    pub user_address: String,
    /// Intent class of the deposit.
    pub action: u128,
    /// The amount pledged; must be strictly positive.
    pub amount: Decimal,
    /// Token contract address, hex-encoded.
    pub token: String,
    /// Target address of the deposit, hex-encoded.
    pub target_address: String,
}

/// A request is valid when its amount is strictly positive and every
/// address-shaped field parses as a chain address.
pub open spec fn request_valid(req: CreateDepositRequest) -> bool {
    &&& dec_is_positive(req.amount@)
    &&& felt_hex_ok(req.user_address@)
    &&& felt_hex_ok(req.token@)
    &&& felt_hex_ok(req.target_address@)
}

/// Checks a request, returning `ValidationError` exactly on invalid ones.
pub fn validate_request(req: &CreateDepositRequest) -> (r: Result<(), DepositError>)
    ensures
        r is Ok <==> request_valid(*req),
        r matches Err(e) ==> e matches DepositError::ValidationError(_),
{
    match felt_from_hex(req.user_address.as_str()) {
        Some(_) => (),
        None => {
            return Err(DepositError::ValidationError("Invalid user_address".to_string()));
        },
    }
    match felt_from_hex(req.token.as_str()) {
        Some(_) => (),
        None => {
            return Err(DepositError::ValidationError("Invalid token address".to_string()));
        },
    }
    match felt_from_hex(req.target_address.as_str()) {
        Some(_) => (),
        None => {
            return Err(DepositError::ValidationError("Invalid target_address".to_string()));
        },
    }
    if !req.amount.is_positive() {
        return Err(DepositError::ValidationError("Amount must be positive".to_string()));
    }
    Ok(())
}

/// A hexadecimal digit: `0`–`9` then `a`–`f`.
pub open spec fn hex_digit(n: u8) -> char
    recommends
        n < 16,
{
    if n < 10 {
        (n + 0x30) as char
    } else {
        (n + 0x57) as char
    }
}

/// Lowercase hexadecimal encoding: two digits per byte, high nibble first.
pub open spec fn hex_of(b: Seq<u8>) -> Seq<char> {
    Seq::new(
        2 * b.len(),
        |i: int|
            if i % 2 == 0 {
                hex_digit(b[i / 2] / 16)
            } else {
                hex_digit(b[i / 2] % 16)
            },
    )
}

/// Relies on `rand::random`: 32 bytes from the thread-local generator.
/// Nothing is assumed of their values.
#[verifier::external_body]
fn random_bytes_32() -> (r: Vec<u8>)
    ensures
        r@.len() == 32,
{
    rand::random::<[u8; 32]>().to_vec()
}

/// Relies on `hex::encode`: two lowercase hexadecimal digits per byte, high
/// nibble first.
#[verifier::external_body]
fn hex_encode(b: &Vec<u8>) -> (r: String)
    ensures
        r@ == hex_of(b@),
{
    hex::encode(b.as_slice())
}

/// The hex encoding of 32 bytes whose leading byte is below 8 is 64
/// lowercase digits beginning `0` then a digit at most `7` — exactly the
/// shape the chain accepts as a field element.
proof fn lemma_masked_hex_shape(b: Seq<u8>)
    requires
        b.len() == 32,
        b[0] < 8,
    ensures
        hex_of(b).len() == 64,
        crate::chain::lowercase_hex(hex_of(b)),
        hex_of(b)[0] == '0',
        hex_of(b)[1] <= '7',
{
    let h = hex_of(b);
    assert forall|i: int| 0 <= i < h.len() implies ('0' <= #[trigger] h[i] <= '9' || 'a' <= h[i]
        <= 'f') by {
        let n = if i % 2 == 0 {
            b[i / 2] / 16
        } else {
            b[i / 2] % 16
        };
        assert(n < 16);
        assert(h[i] == hex_digit(n));
    }
    assert(h[0] == hex_digit(b[0] / 16) && b[0] / 16 == 0);
    assert(h[1] == hex_digit(b[0] % 16) && b[0] % 16 == b[0]);
}

/// Mints a fresh deposit identifier: 32 random bytes, hex-encoded to 64
/// lowercase digits, beginning `0` then a digit at most `7`.
///
/// The top five bits are cleared so the identifier, read as a big-endian
/// number, always fits the chain's field modulus: the identifier travels in
/// calldata as a field element, and a raw 256-bit value would be rejected
/// almost always.
pub fn new_deposit_id() -> (r: String)
    ensures
        r@.len() == 64,
        crate::chain::lowercase_hex(r@),
        r@[0] == '0',
        r@[1] <= '7',
        exists|b: Seq<u8>| b.len() == 32 && b[0] < 8 && r@ == hex_of(b),
{
    let mut bytes = random_bytes_32();
    let top = bytes[0];
    proof {
        assert(top & 0x07 < 8) by (bit_vector);
    }
    bytes[0] = top & 0x07;
    proof {
        lemma_masked_hex_shape(bytes@);
    }
    hex_encode(&bytes)
}

/// Creates a deposit against a chain: validates the request, mints an
/// identifier, predicts the deposit address, and persists the record.
///
/// An invalid request is rejected with `ValidationError` and leaves both the
/// chain and the store untouched; an unavailable prediction surfaces as
/// `UpstreamError`; an amount beyond the on-chain width as `EncodingError`;
/// an identifier collision as a `Conflict` storage error. On success the new
/// record, with status `Created` and the predicted address, is appended to
/// the store and returned.
pub fn create_deposit(
    store: &mut DepositStore,
    chain: &ChainModel,
    req: &CreateDepositRequest,
) -> (r: Result<DepositRecord, DepositError>)
    requires
        store_wf(*old(store)),
        old(store).next_stamp < u64::MAX,
    ensures
        store_wf(*final(store)),
        !request_valid(*req) <==> r matches Err(DepositError::ValidationError(_)),
        !request_valid(*req) ==> *final(store) == *old(store),
        match r {
            Ok(rec) => {
                &&& request_valid(*req)
                &&& chain.predicted_address matches Some(p) && rec@.deposit_address == p@
                &&& store_view(*final(store)) == store_view(*old(store)).push(rec@)
                &&& rec@.deposit_id.len() == 64
                &&& rec@.user_address == req.user_address@
                &&& rec@.action == req.action
                &&& rec@.amount == req.amount@
                &&& rec@.token == req.token@
                &&& rec@.target_address == req.target_address@
                &&& rec@.status == crate::store::DepositStatus::Created
                &&& rec@.settlement_tx_hash is None
                &&& rec@.created_at == old(store).next_stamp
                &&& final(store).next_stamp == old(store).next_stamp + 1
            },
            Err(e) => {
                &&& *final(store) == *old(store)
                &&& match e {
                    DepositError::ValidationError(_) => !request_valid(*req),
                    DepositError::UpstreamError(_) => request_valid(*req)
                        && chain.predicted_address is None,
                    DepositError::EncodingError => request_valid(*req)
                        && crate::codec::truncated_units(req.amount@)
                        >= crate::codec::u256_limit(),
                    DepositError::StorageError(se) => se == StoreError::Conflict && request_valid(
                        *req,
                    ),
                }
            },
        },
{
    match validate_request(req) {
        Ok(()) => (),
        Err(e) => {
            return Err(e);
        },
    }
    let user_felt = match felt_from_hex(req.user_address.as_str()) {
        Some(f) => f,
        None => {
            return Err(DepositError::ValidationError("Invalid user_address".to_string()));
        },
    };
    let token_felt = match felt_from_hex(req.token.as_str()) {
        Some(f) => f,
        None => {
            return Err(DepositError::ValidationError("Invalid token address".to_string()));
        },
    };
    let target_felt = match felt_from_hex(req.target_address.as_str()) {
        Some(f) => f,
        None => {
            return Err(DepositError::ValidationError("Invalid target_address".to_string()));
        },
    };
    let deposit_id = new_deposit_id();
    let id_felt = match felt_from_hex(deposit_id.as_str()) {
        Some(f) => f,
        None => {
            // Unreachable: minted identifiers keep their top bits clear, so
            // they always parse as field elements.
            proof {
                assert(false);
            }
            return Err(DepositError::ValidationError("Invalid deposit_id".to_string()));
        },
    };
    let calldata = match vault_calldata(
        &user_felt,
        &id_felt,
        req.action,
        &req.amount,
        &token_felt,
        &target_felt,
    ) {
        Ok(cd) => cd,
        Err(_) => {
            return Err(DepositError::EncodingError);
        },
    };
    let deposit_address = match chain.predict_address(&calldata) {
        Ok(a) => a,
        Err(_) => {
            return Err(DepositError::UpstreamError("Failed to predict deposit address".to_string()));
        },
    };
    match store.create_deposit(
        deposit_id,
        req.user_address.clone(),
        req.action,
        req.amount.clone(),
        req.token.clone(),
        req.target_address.clone(),
        deposit_address,
    ) {
        Ok(rec) => Ok(rec),
        Err(se) => Err(DepositError::StorageError(se)),
    }
}

} // verus!

//! Chain gateway: calldata construction and response decoding.
//!
//! The gateway is the single point of contact with the vault registry
//! contract and with token contracts. The network calls themselves are made
//! by the embedding program; this module builds the calldata they send
//! (amount encoding included) and decodes the words they bring back.
//! Addresses and other chain words are `starknet::core::types::Felt` field elements, carried
//! opaquely.

use crate::codec::{to_onchain_pair, truncated_units, u256_limit, EncodingError};
use crate::decimal::Decimal;
use crate::errors::StarknetError;
use vstd::prelude::*;

verus! {

#[verifier::external_type_specification]
#[verifier::external_body]
pub struct ExFelt(starknet::core::types::Felt);

/// The field's modulus: the Stark prime, `2^251 + 17 * 2^192 + 1`.
pub open spec fn field_modulus() -> nat {
    0x800000000000011000000000000000000000000000000000000000000000001nat
}

/// The canonical integer representative of a field element, in
/// `[0, field_modulus())`. A pure function of the element.
pub uninterp spec fn felt_rep(f: starknet::core::types::Felt) -> nat;

/// The `0x`-prefixed lowercase hexadecimal form of a field element, as
/// `Felt::to_hex_string` renders it. A pure function of the element.
pub uninterp spec fn felt_hex_of(f: starknet::core::types::Felt) -> Seq<char>;

/// The selector word an ASCII entry point name resolves to (the starknet
/// keccak of the name). A pure function of the name.
pub uninterp spec fn selector_rep(name: Seq<char>) -> nat;

/// Whether a string parses as a field element: well-formed hexadecimal, with
/// or without a `0x` prefix, whose value fits the field's modulus. The
/// outcome depends on the string alone.
pub uninterp spec fn felt_hex_ok(s: Seq<char>) -> bool;

/// Lowercase hexadecimal digits only.
pub open spec fn lowercase_hex(s: Seq<char>) -> bool {
    forall|i: int|
        0 <= i < s.len() ==> ('0' <= #[trigger] s[i] <= '9' || 'a' <= s[i] <= 'f')
}

/// Relies on `starknet::core::types::Felt::from_hex`, which accepts or rejects a string on its
/// content alone: non-empty hexadecimal, optional `0x` prefix, at most 64
/// digits, value at most the field modulus. In particular it accepts any
/// string of exactly 64 lowercase hexadecimal digits that starts `0` then a
/// digit at most `7`: such a string has no `0x` prefix to strip, meets the
/// length bound, and denotes a value below `2^251`, under the modulus.
#[verifier::external_body]
pub fn felt_from_hex(s: &str) -> (r: Option<starknet::core::types::Felt>)
    ensures
        r is Some <==> felt_hex_ok(s@),
        s@.len() == 64 && lowercase_hex(s@) && s@[0] == '0' && s@[1] <= '7' ==> r is Some,
{
    starknet::core::types::Felt::from_hex(s).ok()
}

/// Relies on `starknet::core::types::Felt::from(u128)`: embeds an unsigned integer, which is
/// below the modulus, so the representative is the integer itself.
#[verifier::external_body]
pub fn felt_from_u128(x: u128) -> (r: starknet::core::types::Felt)
    ensures
        felt_rep(r) == x as nat,
{
    starknet::core::types::Felt::from(x)
}

/// Relies on `starknet::core::types::Felt::from(i128)`: embeds a nonnegative integer as itself
/// and a negative one as the field's additive inverse of its absolute value,
/// whose representative is the modulus minus that absolute value.
#[verifier::external_body]
pub fn felt_from_i128(x: i128) -> (r: starknet::core::types::Felt)
    ensures
        x >= 0 ==> felt_rep(r) == x as nat,
        x < 0 ==> felt_rep(r) == (field_modulus() - (-(x as int))) as nat,
{
    starknet::core::types::Felt::from(x)
}

/// Relies on `get_selector_from_name`: an ASCII function name resolves to
/// its selector word (a pure function of the name); a non-ASCII name is
/// refused.
#[verifier::external_body]
pub fn selector_from_name(name: &str) -> (r: Option<starknet::core::types::Felt>)
    ensures
        r is Some <==> vstd::utf8::is_ascii_chars(name@),
        r matches Some(f) ==> felt_rep(f) == selector_rep(name@),
{
    starknet::core::utils::get_selector_from_name(name).ok()
}

/// Relies on `u128::try_from(starknet::core::types::Felt)`: succeeds exactly when the element's
/// integer representative fits 128 bits, and then yields that representative.
#[verifier::external_body]
pub fn felt_to_u128(f: &starknet::core::types::Felt) -> (r: Option<u128>)
    ensures
        r is Some <==> felt_rep(*f) < 0x100000000000000000000000000000000nat,
        r matches Some(x) ==> x as nat == felt_rep(*f),
{
    u128::try_from(*f).ok()
}

/// Relies on `starknet::core::types::Felt::to_hex_string`: the `0x`-prefixed lowercase hexadecimal
/// form of the element, always at least one digit long and a pure function
/// of the element.
#[verifier::external_body]
pub fn felt_to_hex(f: &starknet::core::types::Felt) -> (r: String)
    ensures
        r@ == felt_hex_of(*f),
        r@.len() >= 3,
{
    f.to_hex_string()
}

/// The selector for a fixed, known-ASCII entry point name.
fn fixed_selector(name: &str) -> (r: starknet::core::types::Felt)
    requires
        vstd::utf8::is_ascii_chars(name@),
    ensures
        felt_rep(r) == selector_rep(name@),
{
    match selector_from_name(name) {
        Some(s) => s,
        None => {
            // Unreachable: the name is ASCII, so resolution succeeds.
            proof {
                assert(false);
            }
            felt_from_u128(0)
        },
    }
}

/// The selector of the registry's address-prediction view function.
pub fn predict_address_selector() -> (r: starknet::core::types::Felt)
    ensures
        felt_rep(r) == selector_rep("predict_address"@),
{
    proof {
        reveal_strlit("predict_address");
    }
    let name = "predict_address";
    if name.is_ascii() {
        fixed_selector(name)
    } else {
        // Unreachable: the literal is ASCII.
        proof {
            assert(false);
        }
        felt_from_u128(0)
    }
}

/// The selector of the registry's vault-deployment entry point.
pub fn deploy_vault_selector() -> (r: starknet::core::types::Felt)
    ensures
        felt_rep(r) == selector_rep("deploy_vault"@),
{
    proof {
        reveal_strlit("deploy_vault");
    }
    let name = "deploy_vault";
    if name.is_ascii() {
        fixed_selector(name)
    } else {
        // Unreachable: the literal is ASCII.
        proof {
            assert(false);
        }
        felt_from_u128(0)
    }
}

/// The selector of a token's balance query.
pub fn balance_of_selector() -> (r: starknet::core::types::Felt)
    ensures
        felt_rep(r) == selector_rep("balance_of"@),
{
    proof {
        reveal_strlit("balance_of");
    }
    let name = "balance_of";
    if name.is_ascii() {
        fixed_selector(name)
    } else {
        // Unreachable: the literal is ASCII.
        proof {
            assert(false);
        }
        felt_from_u128(0)
    }
}

/// What the chain's signed-integer embedding makes of a 128-bit word handed
/// over by bit pattern: a word below `2^127` stays itself, a higher one is
/// read as a negative signed integer and lands at the modulus minus its
/// two's-complement magnitude. This is the calldata convention for each half
/// of the amount pair.
pub open spec fn word_felt_rep(w: nat) -> nat
    recommends
        w < 0x100000000000000000000000000000000,
{
    if w < 0x80000000000000000000000000000000 {
        w
    } else {
        (field_modulus() - (0x100000000000000000000000000000000 - w)) as nat
    }
}

/// Calldata of the registry's address-prediction view call and of the
/// vault-deployment invocation:
/// `[user, deposit_id, action, amount_low, amount_high, token, target]`.
///
/// Fails exactly when the amount's truncated magnitude exceeds 256 bits; on
/// success every word is fixed: the addresses verbatim, the action embedded
/// as itself, and the amount's truncated magnitude split into its 128-bit
/// halves, each embedded by bit pattern.
pub fn vault_calldata(
    user: &starknet::core::types::Felt,
    deposit_id: &starknet::core::types::Felt,
    action: u128,
    amount: &Decimal,
    token: &starknet::core::types::Felt,
    target: &starknet::core::types::Felt,
) -> (r: Result<Vec<starknet::core::types::Felt>, EncodingError>)
    ensures
        match r {
            Ok(cd) => {
                &&& cd@.len() == 7
                &&& cd@[0] == *user
                &&& cd@[1] == *deposit_id
                &&& felt_rep(cd@[2]) == action as nat
                &&& felt_rep(cd@[3]) == word_felt_rep(
                    crate::codec::low_word(truncated_units(amount@)),
                )
                &&& felt_rep(cd@[4]) == word_felt_rep(
                    crate::codec::high_word(truncated_units(amount@)),
                )
                &&& cd@[5] == *token
                &&& cd@[6] == *target
                &&& truncated_units(amount@) < u256_limit()
            },
            Err(_) => truncated_units(amount@) >= u256_limit(),
        },
{
    let (low, high) = match to_onchain_pair(amount) {
        Ok(pair) => pair,
        Err(e) => {
            return Err(e);
        },
    };
    proof {
        crate::codec::lemma_pair_words(low, high);
    }
    let mut cd: Vec<starknet::core::types::Felt> = Vec::new();
    cd.push(*user);
    cd.push(*deposit_id);
    cd.push(felt_from_u128(action));
    cd.push(felt_from_i128(low));
    cd.push(felt_from_i128(high));
    cd.push(*token);
    cd.push(*target);
    Ok(cd)
}

/// Calldata of a token's balance query: `[account]`.
pub fn balance_calldata(account: &starknet::core::types::Felt) -> (r: Vec<starknet::core::types::Felt>)
    ensures
        r@.len() == 1,
        r@[0] == *account,
{
    let mut cd: Vec<starknet::core::types::Felt> = Vec::new();
    cd.push(*account);
    cd
}

/// The predicted address out of a view-call response: its first word.
///
/// An empty response is exactly what is rejected, as `InvalidResponse`.
pub fn extract_predicted_address(words: &Vec<starknet::core::types::Felt>) -> (r: Result<starknet::core::types::Felt, StarknetError>)
    ensures
        match r {
            Ok(f) => words@.len() > 0 && f == words@[0],
            Err(e) => words@.len() == 0 && e matches StarknetError::InvalidResponse(_),
        },
{
    if words.len() == 0 {
        return Err(
            StarknetError::InvalidResponse("Empty response from predict_address".to_string()),
        );
    }
    Ok(words[0])
}

/// The predicted address out of a view-call response, hex-encoded as the
/// store keeps it: exactly the first word's `0x`-prefixed lowercase form.
///
/// An empty response is exactly what is rejected, as `InvalidResponse`.
pub fn extract_predicted_address_hex(words: &Vec<starknet::core::types::Felt>) -> (r: Result<
    String,
    StarknetError,
>)
    ensures
        match r {
            Ok(a) => words@.len() > 0 && a@ == felt_hex_of(words@[0]) && a@.len() >= 3,
            Err(e) => words@.len() == 0 && e matches StarknetError::InvalidResponse(_),
        },
{
    match extract_predicted_address(words) {
        Ok(f) => Ok(felt_to_hex(&f)),
        Err(e) => Err(e),
    }
}

/// Reads a two-word balance reply as the low and high 128-bit halves of the
/// 256-bit balance: exactly the two words' integer representatives.
///
/// A reply of any other shape is rejected as `InvalidResponse`; a reply of
/// two words is accepted exactly when both representatives fit 128 bits, and
/// rejected as `InvalidDataFormat` otherwise.
pub fn decode_balance_words(words: &Vec<starknet::core::types::Felt>) -> (r: Result<(u128, u128), StarknetError>)
    ensures
        words@.len() != 2 <==> r matches Err(StarknetError::InvalidResponse(_)),
        words@.len() == 2 ==> match r {
            Ok(pair) => {
                &&& pair.0 as nat == felt_rep(words@[0])
                &&& pair.1 as nat == felt_rep(words@[1])
                &&& felt_rep(words@[0]) < 0x100000000000000000000000000000000nat
                &&& felt_rep(words@[1]) < 0x100000000000000000000000000000000nat
            },
            Err(e) => e matches StarknetError::InvalidDataFormat(_) && !(felt_rep(words@[0])
                < 0x100000000000000000000000000000000nat && felt_rep(words@[1])
                < 0x100000000000000000000000000000000nat),
        },
{
    if words.len() != 2 {
        return Err(StarknetError::InvalidResponse("Invalid balance response shape".to_string()));
    }
    match felts_to_u256(&words[0], &words[1]) {
        Ok(pair) => Ok(pair),
        Err(e) => Err(e),
    }
}

/// An in-memory stand-in for the chain: canned token balances, a canned
/// predicted address, and a canned settlement transaction hash.
///
/// The live loop talks to the chain over the network; this model carries the
/// same capability set (predict, balance query, settlement submission) as
/// plain values, so the registrar and watcher logic can be verified and
/// exercised against it without a node.
pub struct ChainModel {
    /// Token balances: `(token address, account address, balance)`.
    pub balances: Vec<(String, String, Decimal)>,
    /// The address the registry predicts; `None` models an upstream failure.
    pub predicted_address: Option<String>,
    /// The transaction hash handed out on submission.
    pub tx_hash: String,
    /// Whether submitting a settlement transaction succeeds.
    pub submit_ok: bool,
}

/// The model is well formed when its transaction hash is non-empty, as a
/// chain's transaction hashes are.
pub open spec fn chain_wf(c: ChainModel) -> bool {
    c.tx_hash@.len() > 0
}

/// A zero balance.
pub open spec fn zero_balance() -> crate::decimal::DecimalView {
    crate::decimal::DecimalView { negative: false, magnitude: Seq::empty(), scale: 0 }
}

/// The first balance entry matching a token and account, or zero.
pub open spec fn find_balance(
    s: Seq<(String, String, Decimal)>,
    token: Seq<char>,
    account: Seq<char>,
) -> crate::decimal::DecimalView
    decreases s.len(),
{
    if s.len() == 0 {
        zero_balance()
    } else if s[0].0@ == token && s[0].1@ == account {
        s[0].2@
    } else {
        find_balance(s.drop_first(), token, account)
    }
}

/// The model's balance of `account` for `token`.
pub open spec fn model_balance(
    c: ChainModel,
    token: Seq<char>,
    account: Seq<char>,
) -> crate::decimal::DecimalView {
    find_balance(c.balances@, token, account)
}

impl ChainModel {
    /// The balance the model holds for an account, zero when none is set.
    pub fn balance_of(&self, token: &String, account: &String) -> (r: Decimal)
        ensures
            r@ == model_balance(*self, token@, account@),
    {
        let mut i: usize = 0;
        proof {
            assert(self.balances@.subrange(0, self.balances@.len() as int) =~= self.balances@);
        }
        while i < self.balances.len()
            invariant
                0 <= i <= self.balances@.len(),
                find_balance(self.balances@, token@, account@) == find_balance(
                    self.balances@.subrange(i as int, self.balances@.len() as int),
                    token@,
                    account@,
                ),
            decreases self.balances@.len() - i,
        {
            proof {
                let suf = self.balances@.subrange(i as int, self.balances@.len() as int);
                assert(suf[0] == self.balances@[i as int]);
                assert(suf.drop_first() =~= self.balances@.subrange(
                    i + 1,
                    self.balances@.len() as int,
                ));
            }
            let entry = &self.balances[i];
            if entry.0 == *token && entry.1 == *account {
                return entry.2.clone();
            }
            i = i + 1;
        }
        proof {
            assert(self.balances@.subrange(
                self.balances@.len() as int,
                self.balances@.len() as int,
            ) =~= Seq::<(String, String, Decimal)>::empty());
        }
        Decimal::new(false, Vec::new(), 0)
    }

    /// The model's answer to an address-prediction view call.
    pub fn predict_address(&self, _calldata: &Vec<starknet::core::types::Felt>) -> (r: Result<
        String,
        StarknetError,
    >)
        ensures
            match r {
                Ok(a) => self.predicted_address matches Some(p) && a@ == p@,
                Err(e) => self.predicted_address is None && e
                    matches StarknetError::ProviderError(_),
            },
    {
        match &self.predicted_address {
            Some(a) => Ok(a.clone()),
            None => Err(StarknetError::ProviderError("Prediction unavailable".to_string())),
        }
    }

    /// The model's answer to submitting a settlement transaction.
    pub fn submit_settlement(&self, _calldata: &Vec<starknet::core::types::Felt>) -> (r: Result<
        String,
        StarknetError,
    >)
        ensures
            match r {
                Ok(h) => self.submit_ok && h@ == self.tx_hash@,
                Err(e) => !self.submit_ok && e matches StarknetError::TransactionFailed(_),
            },
    {
        if self.submit_ok {
            Ok(self.tx_hash.clone())
        } else {
            Err(StarknetError::TransactionFailed("Submission refused".to_string()))
        }
    }
}

/// Combines the two words of a balance reply into the 256-bit pair: the
/// words' integer representatives, exactly when both fit 128 bits.
///
/// Fails with `InvalidDataFormat` exactly when a word does not fit 128 bits.
pub fn felts_to_u256(low: &starknet::core::types::Felt, high: &starknet::core::types::Felt) -> (r: Result<(u128, u128), StarknetError>)
    ensures
        r is Ok <==> felt_rep(*low) < 0x100000000000000000000000000000000nat && felt_rep(*high)
            < 0x100000000000000000000000000000000nat,
        r matches Ok(pair) ==> pair.0 as nat == felt_rep(*low) && pair.1 as nat == felt_rep(*high),
        r matches Err(e) ==> e matches StarknetError::InvalidDataFormat(_),
{
    let low_u = match felt_to_u128(low) {
        Some(x) => x,
        None => {
            return Err(StarknetError::InvalidDataFormat("Invalid balance format".to_string()));
        },
    };
    let high_u = match felt_to_u128(high) {
        Some(x) => x,
        None => {
            return Err(StarknetError::InvalidDataFormat("Invalid balance format".to_string()));
        },
    };
    Ok((low_u, high_u))
}

} // verus!

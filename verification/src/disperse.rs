//! The disperse shape: one source wallet, many destination wallets, one
//! batched transfer.
//!
//! Validation happens up front: the source index, every destination index,
//! then the amount string. Only then is the source's balance consulted and
//! the single transfer decided. A validation failure therefore issues no
//! transfer at all.

use vstd::prelude::*;
use crate::amount::{concrete_amount, resolve_amount, ResolvedAmount};
use crate::models::{
    AssetType, DisperseRequest, DisperseTransfer, OneTransactionHashResponse, RequestError,
};
use crate::uint256::{dec_value, valid_amount, Uint256};

verus! {

/// Every index of the sequence resolves to a registry entry.
pub open spec fn all_indices_valid(indices: Seq<u32>, wallet_count: int) -> bool {
    forall|k: int| 0 <= k < indices.len() ==> (indices[k] as int) < wallet_count
}

/// A validated disperse request, waiting for the source's live balance.
pub struct DispersePlan {
    pub from: u32,
    pub recipients: Vec<u32>,
    pub literal: Uint256,
    pub is_percentage: bool,
    pub asset_type: AssetType,
}

/// Validate a disperse request against the wallet registry.
///
/// The source index is checked first, then every destination index (before
/// any balance is read or transfer attempted), then the amount string. On
/// success the returned plan carries the parsed literal and the full
/// destination list, in request order; the caller must query the source's
/// balance next and hand it to `disperse_with_balance`.
pub fn disperse_start(req: &DisperseRequest, wallet_count: usize) -> (r: Result<
    DispersePlan,
    RequestError,
>)
    ensures
        match r {
            Ok(plan) => (req.from as int) < wallet_count as int && all_indices_valid(
                req.to@,
                wallet_count as int,
            ) && valid_amount(req.amount@) && plan.from == req.from && plan.recipients@ == req.to@
                && plan.literal.val() == dec_value(req.amount@) && plan.is_percentage
                == req.is_percentage && plan.asset_type == req.asset_type,
            Err(RequestError::InvalidWalletIndex) => (req.from as int) >= wallet_count as int
                || !all_indices_valid(req.to@, wallet_count as int),
            Err(RequestError::InvalidAmount) => (req.from as int) < wallet_count as int
                && all_indices_valid(req.to@, wallet_count as int) && !valid_amount(req.amount@),
            Err(_) => false,
        },
{
    if req.from as usize >= wallet_count {
        return Err(RequestError::InvalidWalletIndex);
    }
    let mut recipients: Vec<u32> = Vec::new();
    let n = req.to.len();
    let mut k: usize = 0;
    while k < n
        invariant
            0 <= k <= n,
            n == req.to@.len(),
            recipients@ == req.to@.take(k as int),
            all_indices_valid(req.to@.take(k as int), wallet_count as int),
        decreases n - k,
    {
        let index = req.to[k];
        if index as usize >= wallet_count {
            proof {
                assert(!all_indices_valid(req.to@, wallet_count as int));
            }
            return Err(RequestError::InvalidWalletIndex);
        }
        recipients.push(index);
        proof {
            assert(recipients@ =~= req.to@.take(k as int + 1));
        }
        k = k + 1;
    }
    proof {
        assert(req.to@.take(n as int) =~= req.to@);
    }
    match Uint256::from_decimal(req.amount.as_str()) {
        None => Err(RequestError::InvalidAmount),
        Some(literal) => Ok(
            DispersePlan {
                from: req.from,
                recipients,
                literal,
                is_percentage: req.is_percentage,
                asset_type: req.asset_type,
            },
        ),
    }
}

/// Decide a validated disperse request against the source's live balance.
///
/// The percentage is taken of the whole balance, once. If the concrete
/// amount exceeds the balance the request fails with `InsufficientBalance`
/// and no transfer is issued; otherwise the one batched transfer is
/// returned, carrying the full destination list and the total amount.
pub fn disperse_with_balance(plan: DispersePlan, balance: &Uint256) -> (r: Result<
    DisperseTransfer,
    RequestError,
>)
    ensures
        match r {
            Ok(t) => concrete_amount(plan.literal.val(), plan.is_percentage, balance.val())
                <= balance.val() && t.amount.val() == concrete_amount(
                plan.literal.val(),
                plan.is_percentage,
                balance.val(),
            ) && t.from == plan.from && t.recipients@ == plan.recipients@ && t.asset_type
                == plan.asset_type,
            Err(RequestError::InsufficientBalance) => concrete_amount(
                plan.literal.val(),
                plan.is_percentage,
                balance.val(),
            ) > balance.val(),
            Err(_) => false,
        },
{
    match resolve_amount(&plan.literal, plan.is_percentage, balance) {
        ResolvedAmount::ExceedsBalance => Err(RequestError::InsufficientBalance),
        ResolvedAmount::Amount(amount) => {
            if amount.gt(balance) {
                Err(RequestError::InsufficientBalance)
            } else {
                Ok(
                    DisperseTransfer {
                        asset_type: plan.asset_type,
                        from: plan.from,
                        recipients: plan.recipients,
                        amount,
                    },
                )
            }
        },
    }
}

/// Shape the success response from the submitted transfer's hash.
pub fn disperse_response(transaction_hash: String) -> (r: OneTransactionHashResponse)
    ensures
        r.transaction_hash == transaction_hash,
{
    OneTransactionHashResponse { transaction_hash }
}

} // verus!

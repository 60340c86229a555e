//! Request, response and error shapes of the asset-movement service.

use vstd::prelude::*;
use crate::uint256::Uint256;

verus! {

/// Which fungible unit is being moved: the native coin or the token.
#[derive(Clone, Copy, PartialEq, Eq, Structural, Debug)]
pub enum AssetType {
    Eth,
    Token,
}

/// A request to spread funds from one source wallet to many destinations.
///
/// `amount` is a decimal-integer string in the asset's smallest unit; with
/// `is_percentage` set it is read as parts-per-hundred of the live balance.
/// `to` is an ordered list of destination wallet indices, duplicates kept.
pub struct DisperseRequest {
    pub from: u32,
    pub amount: String,
    pub is_percentage: bool,
    pub to: Vec<u32>,
    pub asset_type: AssetType,
}

/// A request to gather funds from many source wallets into one destination.
pub struct CollectRequest {
    pub from: Vec<u32>,
    pub amount: String,
    pub is_percentage: bool,
    pub to: u32,
    pub asset_type: AssetType,
}

/// Response carrying the single transaction hash of a disperse call.
pub struct OneTransactionHashResponse {
    pub transaction_hash: String,
}

/// Response carrying one transaction hash per collected source, in order.
pub struct MultipleTransactionHashResponse {
    pub transaction_hashes: Vec<String>,
}

/// Why a request was rejected.
#[derive(Debug)]
pub enum RequestError {
    /// A wallet index does not resolve to a registry entry.
    InvalidWalletIndex,
    /// The amount string is not a decimal integer in the 256-bit range.
    InvalidAmount,
    /// The concrete amount exceeds the source's live balance.
    InsufficientBalance,
    /// A balance query or transfer submission failed; carries its message.
    ChainClientFailure(String),
}

/// A transfer the chain client is asked to submit for a disperse request:
/// one batched call moving `amount` in total from `from` to every wallet
/// in `recipients`, in order.
pub struct DisperseTransfer {
    pub asset_type: AssetType,
    pub from: u32,
    pub recipients: Vec<u32>,
    pub amount: Uint256,
}

/// A transfer the chain client is asked to submit while collecting: one
/// call moving `amount` from `from` to `to`.
pub struct CollectTransfer {
    pub asset_type: AssetType,
    pub from: u32,
    pub to: u32,
    pub amount: Uint256,
}

} // verus!

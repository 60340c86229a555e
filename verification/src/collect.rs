//! The collect shape: many source wallets, one destination wallet, one
//! transfer per source, strictly in input order.
//!
//! Unlike disperse, sources are not validated up front: each source is
//! resolved, its balance read, and its transfer submitted before the next
//! source is looked at. A failure part-way through therefore leaves the
//! transfers of earlier sources committed on-chain while the request as a
//! whole is reported as failed. The session type below makes that explicit:
//! it advances one source at a time and keeps the hashes gathered so far.

use vstd::prelude::*;
use crate::amount::{concrete_amount, resolve_amount, ResolvedAmount};
use crate::models::{
    AssetType, CollectRequest, CollectTransfer, MultipleTransactionHashResponse, RequestError,
};
use crate::uint256::{dec_value, valid_amount, Uint256};

verus! {

/// An in-progress collect request.
///
/// `pos` counts the sources fully processed; one hash is kept per processed
/// source, in input order. `in_flight` is set while a transfer for
/// `sources[pos]` has been issued but its hash not yet recorded.
pub struct CollectSession {
    pub sources: Vec<u32>,
    pub to: u32,
    pub literal: Uint256,
    pub is_percentage: bool,
    pub asset_type: AssetType,
    pub wallet_count: usize,
    pub pos: usize,
    pub in_flight: bool,
    pub transaction_hashes: Vec<String>,
}

impl CollectSession {
    /// Session well-formedness: the cursor is within the source list, the
    /// destination resolves, and one hash is held per processed source.
    pub open spec fn wf(&self) -> bool {
        self.pos <= self.sources@.len() && (self.to as int) < self.wallet_count as int
            && self.transaction_hashes@.len() == self.pos && (self.in_flight ==> self.pos
            < self.sources@.len() && (self.sources@[self.pos as int] as int)
            < self.wallet_count as int)
    }

    /// Validate the destination and the amount string of a collect request.
    ///
    /// Source indices are deliberately not checked here: each one is
    /// resolved only when its turn comes, as `collect_next` reports.
    pub fn collect_start(req: &CollectRequest, wallet_count: usize) -> (r: Result<
        CollectSession,
        RequestError,
    >)
        ensures
            match r {
                Ok(sess) => (req.to as int) < wallet_count as int && valid_amount(req.amount@)
                    && sess.wf() && !sess.in_flight && sess.pos == 0
                    && sess.transaction_hashes@.len() == 0 && sess.sources@ == req.from@ && sess.to
                    == req.to && sess.literal.val() == dec_value(req.amount@)
                    && sess.is_percentage == req.is_percentage && sess.asset_type
                    == req.asset_type && sess.wallet_count == wallet_count,
                Err(RequestError::InvalidWalletIndex) => (req.to as int) >= wallet_count as int,
                Err(RequestError::InvalidAmount) => (req.to as int) < wallet_count as int
                    && !valid_amount(req.amount@),
                Err(_) => false,
            },
    {
        if req.to as usize >= wallet_count {
            return Err(RequestError::InvalidWalletIndex);
        }
        match Uint256::from_decimal(req.amount.as_str()) {
            None => Err(RequestError::InvalidAmount),
            Some(literal) => {
                let mut sources: Vec<u32> = Vec::new();
                let n = req.from.len();
                let mut k: usize = 0;
                while k < n
                    invariant
                        0 <= k <= n,
                        n == req.from@.len(),
                        sources@ == req.from@.take(k as int),
                    decreases n - k,
                {
                    sources.push(req.from[k]);
                    proof {
                        assert(sources@ =~= req.from@.take(k as int + 1));
                    }
                    k = k + 1;
                }
                proof {
                    assert(req.from@.take(n as int) =~= req.from@);
                }
                Ok(
                    CollectSession {
                        sources,
                        to: req.to,
                        literal,
                        is_percentage: req.is_percentage,
                        asset_type: req.asset_type,
                        wallet_count,
                        pos: 0,
                        in_flight: false,
                        transaction_hashes: Vec::new(),
                    },
                )
            },
        }
    }

    /// What to do next: `Ok(None)` when every source is processed,
    /// `Ok(Some(src))` when the balance of source `src` must be queried,
    /// or `InvalidWalletIndex` when the current source does not resolve —
    /// which aborts the whole request, the earlier transfers staying
    /// committed.
    pub fn collect_next(&self) -> (r: Result<Option<u32>, RequestError>)
        requires
            self.wf(),
            !self.in_flight,
        ensures
            match r {
                Ok(None) => self.pos == self.sources@.len(),
                Ok(Some(src)) => self.pos < self.sources@.len() && src
                    == self.sources@[self.pos as int] && (src as int) < self.wallet_count as int,
                Err(RequestError::InvalidWalletIndex) => self.pos < self.sources@.len() && (
                self.sources@[self.pos as int] as int) >= self.wallet_count as int,
                Err(_) => false,
            },
    {
        if self.pos == self.sources.len() {
            Ok(None)
        } else {
            let src = self.sources[self.pos];
            if src as usize >= self.wallet_count {
                Err(RequestError::InvalidWalletIndex)
            } else {
                Ok(Some(src))
            }
        }
    }

    /// Decide the current source's transfer from its live balance.
    ///
    /// The percentage is taken of this source's own balance, independently
    /// of the other sources. If the concrete amount exceeds the balance the
    /// whole request fails with `InsufficientBalance` — after the transfers
    /// of earlier sources have already been issued; nothing is rolled back.
    pub fn collect_on_balance(&mut self, balance: &Uint256) -> (r: Result<
        CollectTransfer,
        RequestError,
    >)
        requires
            old(self).wf(),
            !old(self).in_flight,
            old(self).pos < old(self).sources@.len(),
            (old(self).sources@[old(self).pos as int] as int) < old(self).wallet_count as int,
        ensures
            final(self).wf(),
            final(self).sources@ == old(self).sources@,
            final(self).to == old(self).to,
            final(self).literal == old(self).literal,
            final(self).is_percentage == old(self).is_percentage,
            final(self).asset_type == old(self).asset_type,
            final(self).wallet_count == old(self).wallet_count,
            final(self).pos == old(self).pos,
            final(self).transaction_hashes@ == old(self).transaction_hashes@,
            match r {
                Ok(t) => final(self).in_flight && concrete_amount(
                    old(self).literal.val(),
                    old(self).is_percentage,
                    balance.val(),
                ) <= balance.val() && t.amount.val() == concrete_amount(
                    old(self).literal.val(),
                    old(self).is_percentage,
                    balance.val(),
                ) && t.from == old(self).sources@[old(self).pos as int] && t.to == old(self).to
                    && t.asset_type == old(self).asset_type,
                Err(RequestError::InsufficientBalance) => !final(self).in_flight
                    && concrete_amount(
                    old(self).literal.val(),
                    old(self).is_percentage,
                    balance.val(),
                ) > balance.val(),
                Err(_) => false,
            },
    {
        match resolve_amount(&self.literal, self.is_percentage, balance) {
            ResolvedAmount::ExceedsBalance => Err(RequestError::InsufficientBalance),
            ResolvedAmount::Amount(amount) => {
                if amount.gt(balance) {
                    Err(RequestError::InsufficientBalance)
                } else {
                    let src = self.sources[self.pos];
                    self.in_flight = true;
                    Ok(
                        CollectTransfer {
                            asset_type: self.asset_type,
                            from: src,
                            to: self.to,
                            amount,
                        },
                    )
                }
            },
        }
    }

    /// Record the hash of the submitted transfer and move to the next
    /// source. Hashes accumulate in input order, one per processed source.
    pub fn collect_on_transfer(&mut self, transaction_hash: String)
        requires
            old(self).wf(),
            old(self).in_flight,
        ensures
            final(self).wf(),
            !final(self).in_flight,
            final(self).pos == old(self).pos + 1,
            final(self).transaction_hashes@ == old(self).transaction_hashes@.push(
                transaction_hash,
            ),
            final(self).sources@ == old(self).sources@,
            final(self).to == old(self).to,
            final(self).literal == old(self).literal,
            final(self).is_percentage == old(self).is_percentage,
            final(self).asset_type == old(self).asset_type,
            final(self).wallet_count == old(self).wallet_count,
    {
        // Tie the source count to a machine word so the cursor can advance.
        let n = self.sources.len();
        proof {
            assert(self.pos < n);
        }
        self.transaction_hashes.push(transaction_hash);
        self.pos = self.pos + 1;
        self.in_flight = false;
    }

    /// Shape the success response once every source is processed: the full
    /// hash list, in input order.
    pub fn collect_response(self) -> (r: MultipleTransactionHashResponse)
        ensures
            r.transaction_hashes@ == self.transaction_hashes@,
    {
        MultipleTransactionHashResponse { transaction_hashes: self.transaction_hashes }
    }
}

} // verus!

use disperse::disperse::{disperse_response, disperse_start, disperse_with_balance};
use disperse::models::{AssetType, DisperseRequest, RequestError};
use disperse::uint256::Uint256;

const WALLETS: usize = 10;

fn u(x: u64) -> Uint256 {
    Uint256::from_u64(x)
}

fn req(from: u32, amount: &str, is_percentage: bool, to: Vec<u32>) -> DisperseRequest {
    DisperseRequest {
        from,
        amount: amount.to_string(),
        is_percentage,
        to,
        asset_type: AssetType::Eth,
    }
}

#[test]
fn disperse_rejects_out_of_range_destination() {
    // A destination index beyond the registry fails the whole request before
    // any balance is read: no transfer is ever issued.
    let r = disperse_start(&req(0, "10", false, vec![1, 2, 10]), WALLETS);
    assert!(matches!(r, Err(RequestError::InvalidWalletIndex)));
}

#[test]
fn disperse_rejects_out_of_range_source() {
    let r = disperse_start(&req(10, "10", false, vec![1]), WALLETS);
    assert!(matches!(r, Err(RequestError::InvalidWalletIndex)));
}

#[test]
fn disperse_rejects_malformed_amount() {
    let r = disperse_start(&req(0, "ten", false, vec![1]), WALLETS);
    assert!(matches!(r, Err(RequestError::InvalidAmount)));
}

#[test]
fn disperse_index_error_wins_over_amount_error() {
    // Index validation runs before amount parsing.
    let r = disperse_start(&req(0, "ten", false, vec![99]), WALLETS);
    assert!(matches!(r, Err(RequestError::InvalidWalletIndex)));
}

#[test]
fn disperse_rejects_insufficient_balance() {
    let plan = disperse_start(&req(0, "50", false, vec![1, 2]), WALLETS).unwrap();
    let r = disperse_with_balance(plan, &u(10));
    assert!(matches!(r, Err(RequestError::InsufficientBalance)));
}

#[test]
fn disperse_rejects_percentage_above_balance() {
    let plan = disperse_start(&req(0, "150", true, vec![1]), WALLETS).unwrap();
    let r = disperse_with_balance(plan, &u(200));
    assert!(matches!(r, Err(RequestError::InsufficientBalance)));
}

#[test]
fn disperse_issues_one_batched_transfer() {
    let plan = disperse_start(&req(3, "30", false, vec![1, 2, 2]), WALLETS).unwrap();
    let t = disperse_with_balance(plan, &u(100)).unwrap();
    assert_eq!(t.from, 3);
    // The full destination list rides on the one call, duplicates kept.
    assert_eq!(t.recipients, vec![1, 2, 2]);
    assert_eq!(t.amount, u(30));
    assert!(matches!(t.asset_type, AssetType::Eth));
    let resp = disperse_response("0xabc".to_string());
    assert_eq!(resp.transaction_hash, "0xabc");
}

#[test]
fn disperse_percentage_is_of_the_whole_balance_once() {
    let plan = disperse_start(&req(0, "10", true, vec![1, 2]), WALLETS).unwrap();
    let t = disperse_with_balance(plan, &u(1000)).unwrap();
    assert_eq!(t.amount, u(100));
}

#[test]
fn disperse_with_no_recipients_still_transfers() {
    // An empty destination list is a valid request: the one batched call is
    // still issued, carrying zero recipients.
    let plan = disperse_start(&req(0, "40", false, Vec::new()), WALLETS).unwrap();
    let t = disperse_with_balance(plan, &u(100)).unwrap();
    assert_eq!(t.recipients.len(), 0);
    assert_eq!(t.amount, u(40));
}

#[test]
fn disperse_allows_exactly_the_balance() {
    let plan = disperse_start(&req(0, "100", false, vec![1]), WALLETS).unwrap();
    let t = disperse_with_balance(plan, &u(100)).unwrap();
    assert_eq!(t.amount, u(100));
}

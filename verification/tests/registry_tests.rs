use disperse::registry::balances_plan;

#[test]
fn balances_listing_of_empty_registry_is_empty() {
    // No wallets: the balances listing is empty, not an error.
    let plan = balances_plan(0);
    assert_eq!(plan.len(), 0);
}

#[test]
fn balances_listing_covers_every_wallet_in_order() {
    let plan = balances_plan(4);
    assert_eq!(plan, vec![0, 1, 2, 3]);
}

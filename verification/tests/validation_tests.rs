use giveaways::utils::validation::validate_minimum_winners_pool;

#[test]
fn minimum_winners_pool_rejects_zero_lamport_winners() {
    assert!(validate_minimum_winners_pool(1, 0, 2).is_err());
    assert!(validate_minimum_winners_pool(2, 0, 2).is_ok());
}

#[test]
fn minimum_winners_pool_accounts_for_service_fee() {
    assert!(validate_minimum_winners_pool(100, 9_900, 2).is_err());
    assert!(validate_minimum_winners_pool(200, 9_900, 2).is_ok());
}

use nft_auction::asset::{validate_incoming, Asset, AssetInfo, Coin};
use nft_auction::error::ContractError;
use nft_auction::royalty::{distribute, RATE_ONE};
use nft_auction::state::Royalty;

fn royalty(address: &str, rate: u128) -> Royalty {
    Royalty { address: address.to_string(), royalty_rate: rate }
}

#[test]
fn distribute_truncates_each_cut_and_keeps_the_total() {
    let schedule = vec![
        royalty("a", RATE_ONE / 3),
        royalty("b", RATE_ONE / 4),
    ];
    let (cuts, residual) = distribute(1_000, &schedule).unwrap();
    assert_eq!(cuts.len(), 2);
    assert_eq!(cuts[0].address, "a");
    assert_eq!(cuts[0].amount, 333);
    assert_eq!(cuts[1].address, "b");
    assert_eq!(cuts[1].amount, 250);
    assert_eq!(residual, 417);
    assert_eq!(cuts[0].amount + cuts[1].amount + residual, 1_000);
}

#[test]
fn distribute_with_empty_schedule_pays_everything_to_the_residual() {
    let (cuts, residual) = distribute(77, &vec![]).unwrap();
    assert_eq!(cuts.len(), 0);
    assert_eq!(residual, 77);
}

#[test]
fn distribute_with_full_rate_leaves_nothing() {
    let schedule = vec![royalty("a", RATE_ONE)];
    let (cuts, residual) = distribute(123, &schedule).unwrap();
    assert_eq!(cuts[0].amount, 123);
    assert_eq!(residual, 0);
}

#[test]
fn distribute_fails_underflow_when_the_schedule_overdraws() {
    let schedule = vec![royalty("a", 2 * RATE_ONE)];
    let r = distribute(10, &schedule);
    assert!(matches!(r, Err(ContractError::ArithmeticUnderflow)));
}

#[test]
fn distribute_of_zero_never_underflows() {
    let schedule = vec![royalty("a", 2 * RATE_ONE)];
    let (cuts, residual) = distribute(0, &schedule).unwrap();
    assert_eq!(cuts[0].amount, 0);
    assert_eq!(residual, 0);
}

#[test]
fn native_payment_must_match_exactly() {
    let asset = Asset { info: AssetInfo::NativeToken { denom: "uusd".to_string() }, amount: 100 };
    let funds = vec![Coin { denom: "uusd".to_string(), amount: 100 }];
    assert!(validate_incoming(&asset, &funds).is_ok());

    let short = vec![Coin { denom: "uusd".to_string(), amount: 99 }];
    assert!(matches!(
        validate_incoming(&asset, &short),
        Err(ContractError::InsufficientFundsSend)
    ));

    let wrong_denom = vec![Coin { denom: "ukrw".to_string(), amount: 100 }];
    assert!(matches!(
        validate_incoming(&asset, &wrong_denom),
        Err(ContractError::InsufficientFundsSend)
    ));

    let none: Vec<Coin> = vec![];
    assert!(matches!(
        validate_incoming(&asset, &none),
        Err(ContractError::InsufficientFundsSend)
    ));

    let zero = Asset { info: AssetInfo::NativeToken { denom: "uusd".to_string() }, amount: 0 };
    assert!(validate_incoming(&zero, &none).is_ok());
}

#[test]
fn token_assets_pass_incoming_validation_unchecked() {
    let asset = Asset { info: AssetInfo::Token { contract_addr: "cw20".to_string() }, amount: 100 };
    let none: Vec<Coin> = vec![];
    assert!(validate_incoming(&asset, &none).is_ok());
}

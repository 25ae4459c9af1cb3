use nft_auction::asset::{Asset, AssetInfo, Coin};
use nft_auction::contract::{
    execute_bid_listing, execute_mint, execute_place_listing, execute_withdraw_listing,
    instantiate, query_list_resolver, query_minters, receive_token, set_nft_address,
    settle_proceeds, unregister_minter, update_minters,
};
use nft_auction::error::ContractError;
use nft_auction::msg::{Cw20HookMsg, GFMintMsg, OutboundMsg, Withdrawal};
use nft_auction::royalty::RATE_ONE;
use nft_auction::state::{read_config, read_minter_info, read_nft_address, MarketState, Royalty};

const TENTH: u128 = RATE_ONE / 10;

fn native(denom: &str, amount: u128) -> Asset {
    Asset { info: AssetInfo::NativeToken { denom: denom.to_string() }, amount }
}

fn coin(denom: &str, amount: u128) -> Coin {
    Coin { denom: denom.to_string(), amount }
}

fn market_with_registry() -> MarketState {
    let mut state = instantiate("alice".to_string());
    set_nft_address(&mut state, &"alice".to_string(), "registry".to_string()).unwrap();
    state
}

fn mint_msg(owner: &str, royalties: Vec<Royalty>) -> GFMintMsg {
    GFMintMsg {
        owner: owner.to_string(),
        name: "piece".to_string(),
        image_uri: Some("ipfs://img".to_string()),
        external_link: None,
        description: Some("a piece".to_string()),
        collection: None,
        num_real_repr: 1,
        num_nfts: 1,
        royalties,
        init_price: 100,
    }
}

#[test]
fn instantiate_sets_owner_and_counters() {
    let state = instantiate("alice".to_string());
    let config = read_config(&state);
    assert_eq!(config.owner, "alice");
    assert_eq!(config.listing_count, 0);
    assert_eq!(config.mint_count, 0);
    assert_eq!(config.max_auction_duration_blocks, 50_000);
    assert_eq!(read_nft_address(&state), Err(ContractError::NotConfigured));
}

#[test]
fn set_nft_address_is_owner_gated() {
    let mut state = instantiate("alice".to_string());
    let r = set_nft_address(&mut state, &"mallory".to_string(), "registry".to_string());
    assert_eq!(r, Err(ContractError::Unauthorized));
    set_nft_address(&mut state, &"alice".to_string(), "registry".to_string()).unwrap();
    assert_eq!(read_nft_address(&state), Ok("registry".to_string()));
}

#[test]
fn minter_whitelist_add_remove() {
    let mut state = instantiate("alice".to_string());
    let r = update_minters(&mut state, &"mallory".to_string(), &"m1".to_string());
    assert_eq!(r, Err(ContractError::Unauthorized));
    update_minters(&mut state, &"alice".to_string(), &"m1".to_string()).unwrap();
    update_minters(&mut state, &"alice".to_string(), &"m2".to_string()).unwrap();
    update_minters(&mut state, &"alice".to_string(), &"m1".to_string()).unwrap();
    assert_eq!(query_minters(&state), vec!["m1".to_string(), "m2".to_string()]);
    assert!(read_minter_info(&state, &"m1".to_string()).is_some());
    let r = unregister_minter(&mut state, &"mallory".to_string(), &"m1".to_string());
    assert_eq!(r, Err(ContractError::Unauthorized));
    unregister_minter(&mut state, &"alice".to_string(), &"m1".to_string()).unwrap();
    assert!(read_minter_info(&state, &"m1".to_string()).is_none());
    assert_eq!(query_minters(&state), vec!["m2".to_string()]);
}

#[test]
fn mint_from_non_whitelisted_fails_unauthorized() {
    let mut state = market_with_registry();
    let r = execute_mint(&mut state, &"stranger".to_string(), mint_msg("o", vec![]));
    assert!(matches!(r, Err(ContractError::Unauthorized)));
}

#[test]
fn mint_with_excessive_royalties_fails() {
    let mut state = market_with_registry();
    update_minters(&mut state, &"alice".to_string(), &"m1".to_string()).unwrap();
    let royalties = vec![
        Royalty { address: "a".to_string(), royalty_rate: 6 * TENTH },
        Royalty { address: "b".to_string(), royalty_rate: 5 * TENTH },
    ];
    let r = execute_mint(&mut state, &"m1".to_string(), mint_msg("o", royalties));
    assert!(matches!(r, Err(ContractError::InvalidRoyaltyRate)));
    assert_eq!(read_config(&state).mint_count, 0);
}

#[test]
fn mint_without_registry_fails_not_configured() {
    let mut state = instantiate("alice".to_string());
    update_minters(&mut state, &"alice".to_string(), &"m1".to_string()).unwrap();
    let r = execute_mint(&mut state, &"m1".to_string(), mint_msg("o", vec![]));
    assert!(matches!(r, Err(ContractError::NotConfigured)));
}

#[test]
fn mint_derives_token_id_from_counter() {
    let mut state = market_with_registry();
    update_minters(&mut state, &"alice".to_string(), &"m1".to_string()).unwrap();
    let royalties = vec![Royalty { address: "artist".to_string(), royalty_rate: TENTH }];
    let r = execute_mint(&mut state, &"m1".to_string(), mint_msg("owner1", royalties)).unwrap();
    match r {
        OutboundMsg::NftMint { registry, token_id, owner, image_uri, metadata } => {
            assert_eq!(registry, "registry");
            assert_eq!(token_id, "GF.1");
            assert_eq!(owner, "owner1");
            assert_eq!(image_uri, Some("ipfs://img".to_string()));
            assert_eq!(metadata.collection, Some(1));
            assert_eq!(metadata.royalties.len(), 1);
            assert_eq!(metadata.royalties[0].address, "artist");
        },
        other => panic!("expected a mint instruction, got {:?}", other),
    }
    assert_eq!(read_config(&state).mint_count, 1);
    let r = execute_mint(&mut state, &"m1".to_string(), mint_msg("owner2", vec![])).unwrap();
    match r {
        OutboundMsg::NftMint { token_id, .. } => assert_eq!(token_id, "GF.2"),
        other => panic!("expected a mint instruction, got {:?}", other),
    }
}

#[test]
fn place_without_registry_fails_not_configured() {
    let mut state = instantiate("alice".to_string());
    let r = execute_place_listing(
        &mut state,
        100,
        &"market".to_string(),
        "tok1".to_string(),
        native("uusd", 100),
        "seller".to_string(),
    );
    assert!(matches!(r, Err(ContractError::NotConfigured)));
}

#[test]
fn place_escrows_the_nft_and_numbers_the_listing() {
    let mut state = market_with_registry();
    let msgs = execute_place_listing(
        &mut state,
        100,
        &"market".to_string(),
        "tok1".to_string(),
        native("uusd", 100),
        "seller".to_string(),
    )
    .unwrap();
    assert_eq!(msgs.len(), 2);
    match &msgs[0] {
        OutboundMsg::NftApprove { registry, spender, token_id, expires_height } => {
            assert_eq!(registry, "registry");
            assert_eq!(spender, "market");
            assert_eq!(token_id, "tok1");
            assert_eq!(*expires_height, 50_100);
        },
        other => panic!("expected an approval first, got {:?}", other),
    }
    match &msgs[1] {
        OutboundMsg::NftTransfer { registry, recipient, token_id } => {
            assert_eq!(registry, "registry");
            assert_eq!(recipient, "market");
            assert_eq!(token_id, "tok1");
        },
        other => panic!("expected a custody transfer second, got {:?}", other),
    }
    assert_eq!(read_config(&state).listing_count, 1);
    let resp = query_list_resolver(&state, &"1".to_string()).unwrap();
    assert_eq!(resp.token_id, "tok1");
    assert_eq!(resp.seller, "seller");
    assert_eq!(resp.max_bid.amount, 100);
    assert_eq!(resp.max_bidder, None);
    assert_eq!(resp.block_limit, 50_100);
    // the counter is persisted, so a second placement gets a fresh key
    execute_place_listing(
        &mut state,
        100,
        &"market".to_string(),
        "tok2".to_string(),
        native("uusd", 10),
        "seller".to_string(),
    )
    .unwrap();
    assert_eq!(read_config(&state).listing_count, 2);
    assert_eq!(query_list_resolver(&state, &"2".to_string()).unwrap().token_id, "tok2");
}

#[test]
fn bid_on_missing_listing_fails_not_found() {
    let mut state = market_with_registry();
    let r = execute_bid_listing(
        &mut state,
        100,
        &"7".to_string(),
        native("uusd", 100),
        "B".to_string(),
        &vec![coin("uusd", 100)],
    );
    assert!(matches!(r, Err(ContractError::NotFound)));
}

#[test]
fn auction_scenario_bids_refunds_and_settlement() {
    let mut state = market_with_registry();
    execute_place_listing(
        &mut state,
        100,
        &"market".to_string(),
        "tok1".to_string(),
        native("uusd", 100),
        "seller".to_string(),
    )
    .unwrap();
    let key = "1".to_string();

    // a first bid above the minimum succeeds; nobody is refunded
    let r = execute_bid_listing(
        &mut state,
        100,
        &key,
        native("uusd", 150),
        "B".to_string(),
        &vec![coin("uusd", 150)],
    );
    assert!(matches!(r, Ok(None)));
    let resp = query_list_resolver(&state, &key).unwrap();
    assert_eq!(resp.max_bid.amount, 150);
    assert_eq!(resp.max_bidder, Some("B".to_string()));

    // a lower bid is rejected and changes nothing
    let r = execute_bid_listing(
        &mut state,
        100,
        &key,
        native("uusd", 120),
        "C".to_string(),
        &vec![coin("uusd", 120)],
    );
    assert!(matches!(r, Err(ContractError::InsufficientFundsSend)));
    assert_eq!(query_list_resolver(&state, &key).unwrap().max_bid.amount, 150);

    // a bid in another currency is rejected whatever its amount
    let r = execute_bid_listing(
        &mut state,
        100,
        &key,
        native("ukrw", 10_000),
        "D".to_string(),
        &vec![coin("ukrw", 10_000)],
    );
    assert!(matches!(r, Err(ContractError::AssetInfoMismatch)));

    // a bid whose attached payment does not match its declared amount fails
    let r = execute_bid_listing(
        &mut state,
        100,
        &key,
        native("uusd", 160),
        "E".to_string(),
        &vec![coin("uusd", 150)],
    );
    assert!(matches!(r, Err(ContractError::InsufficientFundsSend)));

    // a matching bid succeeds and the previous leader gets its bid back
    let r = execute_bid_listing(
        &mut state,
        100,
        &key,
        native("uusd", 160),
        "F".to_string(),
        &vec![coin("uusd", 160)],
    )
    .unwrap();
    match r {
        Some(OutboundMsg::NativeTransfer { recipient, denom, amount }) => {
            assert_eq!(recipient, "B");
            assert_eq!(denom, "uusd");
            assert_eq!(amount, 150);
        },
        other => panic!("expected a refund to the previous leader, got {:?}", other),
    }

    // withdrawing at or before the expiry height fails
    let r = execute_withdraw_listing(&mut state, 50_100, &key);
    assert!(matches!(r, Err(ContractError::AuctionNotEnded)));

    // bidding exactly at the expiry height still works
    let r = execute_bid_listing(
        &mut state,
        50_100,
        &key,
        native("uusd", 160),
        "G".to_string(),
        &vec![coin("uusd", 160)],
    );
    assert!(r.is_ok());

    // one height unit later the auction is over for bidders
    let r = execute_bid_listing(
        &mut state,
        50_101,
        &key,
        native("uusd", 1_000),
        "H".to_string(),
        &vec![coin("uusd", 1_000)],
    );
    assert!(matches!(r, Err(ContractError::AuctionEnded)));

    // withdrawal hands the NFT to the winner and removes the listing
    let w = execute_withdraw_listing(&mut state, 50_101, &key).unwrap();
    let listing = match w {
        Withdrawal::Sold { transfer_nft, listing } => {
            match transfer_nft {
                OutboundMsg::NftTransfer { registry, recipient, token_id } => {
                    assert_eq!(registry, "registry");
                    assert_eq!(recipient, "G");
                    assert_eq!(token_id, "tok1");
                },
                other => panic!("expected a custody transfer, got {:?}", other),
            }
            listing
        },
        other => panic!("expected a sold withdrawal, got {:?}", other),
    };

    // settlement pays the royalty cut and the residual, exactly the proceeds
    let royalties = vec![Royalty { address: "artist".to_string(), royalty_rate: TENTH }];
    let msgs = settle_proceeds(&listing, &royalties).unwrap();
    assert_eq!(msgs.len(), 2);
    let mut paid: u128 = 0;
    match &msgs[0] {
        OutboundMsg::NativeTransfer { recipient, denom, amount } => {
            assert_eq!(recipient, "artist");
            assert_eq!(denom, "uusd");
            assert_eq!(*amount, 16);
            paid += *amount;
        },
        other => panic!("expected the royalty payment first, got {:?}", other),
    }
    match &msgs[1] {
        OutboundMsg::NativeTransfer { recipient, denom, amount } => {
            assert_eq!(recipient, "seller");
            assert_eq!(denom, "uusd");
            assert_eq!(*amount, 144);
            paid += *amount;
        },
        other => panic!("expected the residual to the seller, got {:?}", other),
    }
    assert_eq!(paid, 160);

    // the listing is gone: resolving and withdrawing again answer NotFound
    assert!(matches!(
        query_list_resolver(&state, &key),
        Err(ContractError::NotFound)
    ));
    let r = execute_withdraw_listing(&mut state, 50_101, &key);
    assert!(matches!(r, Err(ContractError::NotFound)));
}

#[test]
fn unsold_listing_returns_nft_to_seller_with_no_payments() {
    let mut state = market_with_registry();
    execute_place_listing(
        &mut state,
        100,
        &"market".to_string(),
        "tok1".to_string(),
        native("uusd", 100),
        "seller".to_string(),
    )
    .unwrap();
    let w = execute_withdraw_listing(&mut state, 50_101, &"1".to_string()).unwrap();
    match w {
        Withdrawal::Unsold { return_nft } => match return_nft {
            OutboundMsg::NftTransfer { registry, recipient, token_id } => {
                assert_eq!(registry, "registry");
                assert_eq!(recipient, "seller");
                assert_eq!(token_id, "tok1");
            },
            other => panic!("expected the NFT back to the seller, got {:?}", other),
        },
        other => panic!("expected an unsold withdrawal, got {:?}", other),
    }
    assert!(matches!(
        query_list_resolver(&state, &"1".to_string()),
        Err(ContractError::NotFound)
    ));
}

#[test]
fn token_rail_place_and_bid_through_notifications() {
    let mut state = market_with_registry();
    // the token contract notifies: its 50 tokens fund a placement
    let msgs = receive_token(
        &mut state,
        100,
        &"market".to_string(),
        "cw20token".to_string(),
        "seller".to_string(),
        50,
        Cw20HookMsg::PlaceListing { id: "tok9".to_string() },
    )
    .unwrap();
    assert_eq!(msgs.len(), 2);
    let resp = query_list_resolver(&state, &"1".to_string()).unwrap();
    assert_eq!(resp.token_id, "tok9");
    assert!(matches!(&resp.max_bid.info, AssetInfo::Token { contract_addr } if contract_addr == "cw20token"));

    // a notified bid in the same token succeeds without attached coins
    let msgs = receive_token(
        &mut state,
        200,
        &"market".to_string(),
        "cw20token".to_string(),
        "B".to_string(),
        60,
        Cw20HookMsg::BidListing { listing_id: "1".to_string() },
    )
    .unwrap();
    assert_eq!(msgs.len(), 0);
    let resp = query_list_resolver(&state, &"1".to_string()).unwrap();
    assert_eq!(resp.max_bid.amount, 60);
    assert_eq!(resp.max_bidder, Some("B".to_string()));

    // a second bid refunds the first through the token contract
    let msgs = receive_token(
        &mut state,
        200,
        &"market".to_string(),
        "cw20token".to_string(),
        "C".to_string(),
        70,
        Cw20HookMsg::BidListing { listing_id: "1".to_string() },
    )
    .unwrap();
    assert_eq!(msgs.len(), 1);
    match &msgs[0] {
        OutboundMsg::TokenTransfer { token_addr, recipient, amount } => {
            assert_eq!(token_addr, "cw20token");
            assert_eq!(recipient, "B");
            assert_eq!(*amount, 60);
        },
        other => panic!("expected a token refund, got {:?}", other),
    }

    // a bid in a different currency than the listing is rejected
    let r = execute_bid_listing(
        &mut state,
        200,
        &"1".to_string(),
        native("uusd", 1_000),
        "D".to_string(),
        &vec![coin("uusd", 1_000)],
    );
    assert!(matches!(r, Err(ContractError::AssetInfoMismatch)));
}

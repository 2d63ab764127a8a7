use margined_core::error::ContractError;
use margined_core::math::parse_decimal;
use margined_core::pricefeed::{PriceData, PriceFeed};

const NOW: u64 = 1_571_797_419;

fn to_decimals(s: &str) -> u128 {
    parse_decimal(s).unwrap()
}

fn instantiate() -> PriceFeed {
    PriceFeed::new("addr0000".to_string())
}

#[test]
fn test_instantiation_of_the_price_feed() {
    let feed = instantiate();
    assert_eq!(feed.query_config().owner, "addr0000");
}

#[test]
fn test_update_config_of_the_price_feed() {
    let mut feed = instantiate();

    feed.update_config("addr0000", Some("addr0001".to_string()))
        .unwrap();
    assert_eq!(feed.query_config().owner, "addr0001");

    assert_eq!(
        feed.update_config("addr0000", None),
        Err(ContractError::Unauthorized)
    );
    feed.update_config("addr0001", None).unwrap();
    assert_eq!(feed.query_config().owner, "addr0001");
}

#[test]
fn test_set_and_get_price() {
    let mut feed = instantiate();
    assert_eq!(feed.query_config().owner, "addr0000");

    // Set some market data
    feed.append_price(
        "addr0000",
        "ETHUSD".to_string(),
        to_decimals("0.5"),
        1_000_000_000,
    )
    .unwrap();

    let price = feed.query_get_price("ETHUSD").unwrap();
    assert_eq!(
        price,
        PriceData {
            round_id: 1,
            price: to_decimals("0.5"),
            timestamp: 1_000_000_000,
        }
    );

    // Set some market data
    feed.append_price(
        "addr0000",
        "ETHUSD".to_string(),
        to_decimals("0.6"),
        1_000_000_001,
    )
    .unwrap();

    let price = feed.query_get_price("ETHUSD").unwrap();
    assert_eq!(
        price,
        PriceData {
            round_id: 2,
            price: to_decimals("0.6"),
            timestamp: 1_000_000_001,
        }
    );
}

#[test]
fn test_set_multiple_price() {
    let mut feed = instantiate();
    assert_eq!(feed.query_config().owner, "addr0000");

    let prices = vec![to_decimals("0.5"), to_decimals("0.6"), to_decimals("0.7")];
    let timestamps = vec![1_000_000_000, 1_000_000_001, 1_000_000_002];

    feed.append_multiple_price("addr0000", "ETHUSD".to_string(), prices, timestamps)
        .unwrap();

    let price = feed.query_get_price("ETHUSD").unwrap();
    assert_eq!(
        price,
        PriceData {
            round_id: 3,
            price: to_decimals("0.7"),
            timestamp: 1_000_000_002,
        }
    );
}

#[test]
fn test_get_previous_price() {
    let mut feed = instantiate();
    assert_eq!(feed.query_config().owner, "addr0000");

    let prices = vec![
        to_decimals("0.5"),
        to_decimals("0.6"),
        to_decimals("0.7"),
        to_decimals("0.6"),
        to_decimals("0.67"),
        to_decimals("0.71"),
    ];
    let timestamps = vec![
        1_000_000_000,
        1_000_000_001,
        1_000_000_002,
        1_000_000_003,
        1_000_000_004,
        1_000_000_005,
    ];

    feed.append_multiple_price("addr0000", "ETHUSD".to_string(), prices, timestamps)
        .unwrap();

    let price = feed.query_get_previous_price("ETHUSD", 3).unwrap();
    assert_eq!(
        price,
        PriceData {
            round_id: 3,
            price: to_decimals("0.7"),
            timestamp: 1_000_000_002,
        }
    );

    let res = feed.query_get_previous_price("ETHUSD", 7);
    assert!(res.is_err());
}

#[test]
fn tests_test_get_twap_price() {
    let mut feed = instantiate();
    assert_eq!(feed.query_config().owner, "addr0000");

    let prices = vec![to_decimals("400"), to_decimals("405"), to_decimals("410")];
    let timestamps: Vec<u64> = vec![NOW, NOW + 15, NOW + 30];

    feed.append_multiple_price("addr0000", "ETHUSD".to_string(), prices, timestamps)
        .unwrap();
    let now = NOW + 45;

    let twap = feed.query_get_twap_price("ETHUSD", 45, now).unwrap();
    assert_eq!(twap, to_decimals("405"));

    let twap = feed.query_get_twap_price("ETHUSD", 46, now).unwrap();
    assert_eq!(twap, to_decimals("405"));

    let twap = feed.query_get_twap_price("ETHUSD", 44, now).unwrap();
    assert_eq!(twap, to_decimals("405.113636363636363636"));
}

#[test]
fn test_get_twap_variant_price_period() {
    let mut feed = instantiate();
    assert_eq!(feed.query_config().owner, "addr0000");

    let prices = vec![
        to_decimals("400"),
        to_decimals("405"),
        to_decimals("410"),
        to_decimals("420"),
    ];
    let timestamps: Vec<u64> = vec![NOW, NOW + 15, NOW + 30, NOW + 75];

    feed.append_multiple_price("addr0000", "ETHUSD".to_string(), prices, timestamps)
        .unwrap();
    let now = NOW + 95;

    let twap = feed.query_get_twap_price("ETHUSD", 95, now).unwrap();
    assert_eq!(twap, to_decimals("409.736842105263157894"));
}

#[test]
fn test_get_twap_error_zero_interval() {
    let mut feed = instantiate();
    assert_eq!(feed.query_config().owner, "addr0000");

    let prices = vec![to_decimals("400"), to_decimals("405"), to_decimals("410")];
    let timestamps: Vec<u64> = vec![NOW, NOW + 15, NOW + 30];

    feed.append_multiple_price("addr0000", "ETHUSD".to_string(), prices, timestamps)
        .unwrap();
    let now = NOW + 30;

    let res = feed.query_get_twap_price("ETHUSD", 0, now);
    assert!(res.is_err());
    assert_eq!(res, Err(ContractError::InvalidRequest));
}

#[test]
fn only_the_owner_reports_prices() {
    let mut feed = instantiate();
    assert_eq!(
        feed.append_price("addr0001", "ETHUSD".to_string(), 5, 10),
        Err(ContractError::Unauthorized)
    );
    assert_eq!(
        feed.append_multiple_price("addr0001", "ETHUSD".to_string(), vec![5], vec![10]),
        Err(ContractError::Unauthorized)
    );
    assert_eq!(
        feed.query_get_price("ETHUSD"),
        Err(ContractError::InvalidRequest)
    );
    // prices and timestamps must pair up
    assert_eq!(
        feed.append_multiple_price("addr0000", "ETHUSD".to_string(), vec![5, 6], vec![10]),
        Err(ContractError::Unauthorized)
    );
    assert_eq!(
        feed.query_get_price("ETHUSD"),
        Err(ContractError::InvalidRequest)
    );
}

#[test]
fn a_series_runs_forward_and_keeps_to_its_key() {
    let mut feed = instantiate();
    feed.append_price("addr0000", "ETHUSD".to_string(), 5, 10)
        .unwrap();
    feed.append_price("addr0000", "BTCUSD".to_string(), 50, 5)
        .unwrap();
    assert_eq!(
        feed.append_price("addr0000", "ETHUSD".to_string(), 6, 9),
        Err(ContractError::InvalidRequest)
    );
    assert_eq!(
        feed.append_multiple_price(
            "addr0000",
            "ETHUSD".to_string(),
            vec![6, 7, 8],
            vec![10, 12, 11]
        ),
        Err(ContractError::InvalidRequest)
    );
    assert_eq!(
        feed.append_multiple_price("addr0000", "ETHUSD".to_string(), vec![6, 7], vec![9, 12]),
        Err(ContractError::InvalidRequest)
    );
    // nothing of the refused reports was added
    assert_eq!(
        feed.query_get_price("ETHUSD"),
        Ok(PriceData {
            round_id: 1,
            price: 5,
            timestamp: 10
        })
    );
    feed.append_multiple_price("addr0000", "ETHUSD".to_string(), vec![6, 7], vec![10, 12])
        .unwrap();
    feed.append_multiple_price("addr0000", "ETHUSD".to_string(), vec![], vec![])
        .unwrap();
    assert_eq!(
        feed.query_get_price("ETHUSD"),
        Ok(PriceData {
            round_id: 3,
            price: 7,
            timestamp: 12
        })
    );
    assert_eq!(
        feed.query_get_previous_price("ETHUSD", 0),
        Ok(PriceData {
            round_id: 3,
            price: 7,
            timestamp: 12
        })
    );
    assert_eq!(
        feed.query_get_previous_price("ETHUSD", 2),
        Ok(PriceData {
            round_id: 1,
            price: 5,
            timestamp: 10
        })
    );
    assert_eq!(
        feed.query_get_previous_price("ETHUSD", 3),
        Err(ContractError::InvalidRequest)
    );
    assert_eq!(
        feed.query_get_price("BTCUSD"),
        Ok(PriceData {
            round_id: 1,
            price: 50,
            timestamp: 5
        })
    );
    assert_eq!(
        feed.query_get_previous_price("LUNAUSD", 0),
        Err(ContractError::InvalidRequest)
    );
}

#[test]
fn twap_of_a_feed_at_its_edges() {
    let mut feed = instantiate();
    assert_eq!(
        feed.query_get_twap_price("ETHUSD", 10, 100),
        Err(ContractError::InvalidRequest)
    );
    feed.append_multiple_price(
        "addr0000",
        "ETHUSD".to_string(),
        vec![10, 20, 40],
        vec![100, 100, 110],
    )
    .unwrap();
    // before the latest price
    assert_eq!(
        feed.query_get_twap_price("ETHUSD", 10, 109),
        Err(ContractError::InvalidRequest)
    );
    // a window inside the latest price
    assert_eq!(feed.query_get_twap_price("ETHUSD", 5, 120), Ok(40));
    // ten seconds at 20, ten at 40; the price of 10 never held
    assert_eq!(feed.query_get_twap_price("ETHUSD", 20, 120), Ok(30));
    assert_eq!(feed.query_get_twap_price("ETHUSD", 1_000, 120), Ok(30));
    // five seconds at 20, ten at 40
    assert_eq!(feed.query_get_twap_price("ETHUSD", 15, 120), Ok(33));
    // a window without length
    let mut feed = instantiate();
    feed.append_multiple_price("addr0000", "K".to_string(), vec![1, 2], vec![7, 7])
        .unwrap();
    assert_eq!(feed.query_get_twap_price("K", 3, 7), Ok(2));
    // a sum beyond 128 bits
    let mut feed = instantiate();
    feed.append_price("addr0000", "K".to_string(), u128::MAX, 0)
        .unwrap();
    assert_eq!(feed.query_get_twap_price("K", 1, 1), Ok(u128::MAX));
    assert_eq!(
        feed.query_get_twap_price("K", 2, 2),
        Err(ContractError::Overflow)
    );
}

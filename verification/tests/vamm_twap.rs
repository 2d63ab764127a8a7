use margined_core::error::ContractError;
use margined_core::math::parse_decimal;
use margined_core::vamm::{Direction, Vamm};

fn to_decimals(s: &str) -> u128 {
    parse_decimal(s).unwrap()
}

struct TestingEnv {
    vamm: Vamm,
    time: u64,
    height: u64,
}

// Every swap of the setup is in a block of its own, fourteen seconds after
// the one before.
fn setup() -> TestingEnv {
    let mut time: u64 = 1_571_797_419;
    let mut height: u64 = 12_345;
    let mut vamm = Vamm::new(
        "addr0000".to_string(),
        "addr0000".to_string(),
        "ETH".to_string(),
        "USD".to_string(),
        18,
        to_decimals("1000"),
        to_decimals("100"),
        3_600,
        to_decimals("0.01"),
        to_decimals("0.01"),
        time,
        height,
    )
    .unwrap();

    time += 14;
    height += 1;

    for i in 0..30 {
        if i % 3 == 0 {
            vamm.swap_input(Direction::RemoveFromAmm, to_decimals("100"), time, height)
                .unwrap();
        } else {
            vamm.swap_input(Direction::AddToAmm, to_decimals("50"), time, height)
                .unwrap();
        }
        time += 14;
        height += 1;
    }

    TestingEnv { vamm, time, height }
}

#[test]
fn twap_tests_test_get_twap_price() {
    let app = setup();
    let twap = app.vamm.twap_price(210, app.time).unwrap();
    assert_eq!(twap, to_decimals("9.041666666666666665"));
}

#[test]
fn test_no_change_in_snapshot() {
    let mut app = setup();

    // the timestamp of latest snapshot is now, the latest snapshot wont have any effect
    app.vamm
        .swap_input(Direction::RemoveFromAmm, to_decimals("100"), app.time, app.height)
        .unwrap();

    let twap = app.vamm.twap_price(210, app.time).unwrap();
    assert_eq!(twap, to_decimals("9.041666666666666665"));
}

#[test]
fn test_interval_less_than_latest_snapshots() {
    let mut app = setup();

    // the timestamp of latest snapshot is now, the latest snapshot wont have any effect
    app.vamm
        .swap_input(Direction::RemoveFromAmm, to_decimals("100"), app.time, app.height)
        .unwrap();
    app.time += 300;

    let twap = app.vamm.twap_price(210, app.time).unwrap();
    assert_eq!(twap, to_decimals("8.099999999999999998"));
}

#[test]
fn test_zero_interval() {
    let app = setup();
    let twap = app.vamm.twap_price(0, app.time).unwrap();
    let spot = app.vamm.spot_price().unwrap();
    assert_eq!(twap, spot);
}

#[test]
fn an_interval_longer_than_the_history_extends_the_earliest_price() {
    let app = setup();
    // the history spans 434 seconds; the opening price of 10 covers the
    // other 466 of the 900
    let twap = app.vamm.twap_price(900, app.time).unwrap();
    assert_eq!(twap, to_decimals("9.552777777777777777"));

    let within = app.vamm.twap_price(434, app.time).unwrap();
    assert_eq!(within, to_decimals("9.072580645161290321"));
}

#[test]
fn twap_of_a_single_snapshot_is_its_price() {
    let vamm = Vamm::new(
        "o".to_string(),
        "e".to_string(),
        "q".to_string(),
        "b".to_string(),
        9,
        1_000,
        300,
        3_600,
        0,
        0,
        50,
        1,
    )
    .unwrap();
    // 1000 / 300 at nine digits, rounded down
    assert_eq!(vamm.spot_price(), Ok(3_333_333_333));
    assert_eq!(vamm.twap_price(10, 50), Ok(3_333_333_333));
    assert_eq!(vamm.twap_price(10, 55), Ok(3_333_333_333));
    assert_eq!(vamm.twap_price(1_000, 55), Ok(3_333_333_333));
    assert_eq!(vamm.twap_price(u64::MAX, 55), Ok(3_333_333_333));
}

#[test]
fn twap_weighs_each_price_by_its_time() {
    let mut vamm = Vamm::new(
        "o".to_string(),
        "e".to_string(),
        "q".to_string(),
        "b".to_string(),
        0,
        1_000,
        100,
        3_600,
        0,
        0,
        100,
        1,
    )
    .unwrap();
    // price 10 from 100 on; 600 out leaves (400, 250), price 1 from 130 on
    vamm.swap_input(Direction::RemoveFromAmm, 600, 130, 2).unwrap();
    assert_eq!(vamm.spot_price(), Ok(1));
    // window 120..140: ten seconds at 10, ten seconds at 1
    assert_eq!(vamm.twap_price(20, 140), Ok(5));
    // window 135..140 lies in the latest snapshot
    assert_eq!(vamm.twap_price(5, 140), Ok(1));
    // window 90..140: forty seconds at 10 (the opening price reaches back), ten at 1
    assert_eq!(vamm.twap_price(50, 140), Ok(8));
    // a clock before the latest snapshot
    assert_eq!(vamm.twap_price(5, 129), Err(ContractError::InvalidRequest));
}

use margined_core::error::ContractError;
use margined_core::math::parse_decimal;
use margined_core::vamm::{
    get_input_price_with_reserves, get_output_price_with_reserves, Direction, SignedDecimal, State,
    Vamm,
};

const TIME: u64 = 1_571_797_419;
const HEIGHT: u64 = 12_345;

fn to_decimals(s: &str) -> u128 {
    parse_decimal(s).unwrap()
}

fn instantiate(quote_asset: &str) -> Vamm {
    Vamm::new(
        "addr0000".to_string(),
        "addr0000".to_string(),
        quote_asset.to_string(),
        "USD".to_string(),
        18,
        to_decimals("1000"),
        to_decimals("100"),
        3_600,
        0,
        0,
        TIME,
        HEIGHT,
    )
    .unwrap()
}

fn swap_input(vamm: &mut Vamm, direction: Direction, amount: &str) {
    vamm.swap_input(direction, to_decimals(amount), TIME, HEIGHT)
        .unwrap();
}

fn swap_output(vamm: &mut Vamm, direction: Direction, amount: &str) {
    vamm.swap_output(direction, to_decimals(amount), TIME, HEIGHT)
        .unwrap();
}

fn state(quote: &str, base: &str) -> State {
    State {
        quote_asset_reserve: to_decimals(quote),
        base_asset_reserve: to_decimals(base),
        funding_rate: SignedDecimal {
            magnitude: 0,
            negative: false,
        },
        funding_period: 3_600,
        next_funding_time: TIME + 3_600,
    }
}

#[test]
fn test_instantiation() {
    let vamm = instantiate("ETH");

    let config = vamm.query_config();
    assert_eq!(config.owner, "addr0000");
    assert_eq!(config.quote_asset, "ETH");
    assert_eq!(config.base_asset, "USD");
    assert_eq!(config.toll_ratio, 0);
    assert_eq!(config.spread_ratio, 0);
    assert_eq!(config.decimals, to_decimals("1"));

    assert_eq!(vamm.query_state(), state("1000", "100"));
}

#[test]
fn test_update_config() {
    let mut vamm = instantiate("ETH");

    vamm.update_config("addr0000", Some("addr0001".to_string()), None, None)
        .unwrap();

    let config = vamm.query_config();
    assert_eq!(config.owner, "addr0001");
    assert_eq!(config.quote_asset, "ETH");
    assert_eq!(config.base_asset, "USD");
    assert_eq!(config.toll_ratio, 0);
    assert_eq!(config.spread_ratio, 0);
    assert_eq!(config.decimals, to_decimals("1"));
}

#[test]
fn update_config_is_for_the_owner_only() {
    let mut vamm = instantiate("ETH");
    assert_eq!(
        vamm.update_config("addr0001", None, Some(5), None),
        Err(ContractError::Unauthorized)
    );
    assert_eq!(vamm.query_config().toll_ratio, 0);
    vamm.update_config("addr0000", None, Some(5), Some(7)).unwrap();
    assert_eq!(vamm.query_config().owner, "addr0000");
    assert_eq!(vamm.query_config().toll_ratio, 5);
    assert_eq!(vamm.query_config().spread_ratio, 7);
}

#[test]
fn test_swap_input_long() {
    let mut vamm = instantiate("ETH/USD");
    swap_input(&mut vamm, Direction::AddToAmm, "600");
    assert_eq!(vamm.query_state(), state("1600", "62.5"));
}

#[test]
fn test_swap_input_short() {
    let mut vamm = instantiate("ETH/USD");
    swap_input(&mut vamm, Direction::RemoveFromAmm, "600");
    assert_eq!(vamm.query_state(), state("400", "250"));
}

#[test]
fn test_swap_output_short() {
    let mut vamm = instantiate("ETH/USD");
    swap_output(&mut vamm, Direction::AddToAmm, "150");
    assert_eq!(vamm.query_state(), state("400", "250"));
}

#[test]
fn test_swap_output_long() {
    let mut vamm = instantiate("ETH/USD");
    swap_output(&mut vamm, Direction::RemoveFromAmm, "50");
    assert_eq!(vamm.query_state(), state("2000", "50"));
}

#[test]
fn test_swap_input_short_long() {
    let mut vamm = instantiate("ETH/USD");
    swap_input(&mut vamm, Direction::RemoveFromAmm, "480");
    assert_eq!(vamm.query_state(), state("520", "192.307692307692307693"));

    swap_input(&mut vamm, Direction::AddToAmm, "960");
    assert_eq!(vamm.query_state(), state("1480", "67.567567567567567568"));
}

#[test]
fn test_swap_input_short_long_long() {
    let mut vamm = instantiate("ETH/USD");
    swap_input(&mut vamm, Direction::RemoveFromAmm, "200");
    assert_eq!(vamm.query_state(), state("800", "125"));

    swap_input(&mut vamm, Direction::AddToAmm, "100");
    assert_eq!(vamm.query_state(), state("900", "111.111111111111111112"));

    swap_input(&mut vamm, Direction::AddToAmm, "200");
    assert_eq!(vamm.query_state(), state("1100", "90.909090909090909092"));
}

#[test]
fn test_swap_input_short_long_short() {
    let mut vamm = instantiate("ETH/USD");
    swap_input(&mut vamm, Direction::RemoveFromAmm, "200");
    assert_eq!(vamm.query_state(), state("800", "125"));

    swap_input(&mut vamm, Direction::AddToAmm, "450");
    assert_eq!(vamm.query_state(), state("1250", "80"));

    swap_input(&mut vamm, Direction::RemoveFromAmm, "250");
    assert_eq!(vamm.query_state(), state("1000", "100"));
}

#[test]
fn test_swap_input_long_integration_example() {
    let mut vamm = instantiate("ETH/USD");
    swap_input(&mut vamm, Direction::AddToAmm, "600");
    assert_eq!(vamm.query_state(), state("1600", "62.5"));
}

#[test]
fn test_swap_input_long_short_integration_example() {
    let mut vamm = instantiate("ETH/USD");
    swap_input(&mut vamm, Direction::AddToAmm, "600");
    assert_eq!(vamm.query_state(), state("1600", "62.5"));

    swap_output(&mut vamm, Direction::AddToAmm, "37.5");
    assert_eq!(vamm.query_state(), state("1000", "100"));
}

#[test]
fn test_swap_input_twice_short_long() {
    let mut vamm = instantiate("ETH/USD");
    swap_input(&mut vamm, Direction::RemoveFromAmm, "10");
    swap_input(&mut vamm, Direction::AddToAmm, "10");
    assert_eq!(vamm.query_state(), state("1000", "100.000000000000000001"));
}

#[test]
fn test_swap_input_twice_long_short() {
    let mut vamm = instantiate("ETH/USD");
    swap_input(&mut vamm, Direction::AddToAmm, "10");
    swap_input(&mut vamm, Direction::RemoveFromAmm, "10");
    assert_eq!(vamm.query_state(), state("1000", "100.000000000000000001"));
}

#[test]
fn test_swap_output_twice_short_long() {
    let mut vamm = instantiate("ETH/USD");
    swap_output(&mut vamm, Direction::RemoveFromAmm, "10");
    swap_output(&mut vamm, Direction::AddToAmm, "10");
    assert_eq!(vamm.query_state(), state("1000.000000000000000001", "100"));
}

#[test]
fn test_swap_output_twice_long_short() {
    let mut vamm = instantiate("ETH/USD");
    swap_output(&mut vamm, Direction::AddToAmm, "10");
    swap_output(&mut vamm, Direction::RemoveFromAmm, "10");
    assert_eq!(vamm.query_state(), state("1000.000000000000000001", "100"));
}

#[test]
fn test_get_input_and_output_price() {
    let vamm = instantiate("ETH");
    let reserves = vamm.query_state();
    let quote = reserves.quote_asset_reserve;
    let base = reserves.base_asset_reserve;

    // amount = 100(quote asset reserved) - (100 * 1000) / (1000 + 50) = 4.7619...
    let result =
        get_input_price_with_reserves(Direction::AddToAmm, to_decimals("50"), quote, base).unwrap();
    assert_eq!(result, to_decimals("4.761904761904761904"));

    // amount = (100 * 1000) / (1000 - 50) - 100(quote asset reserved) = 5.2631578947368
    let result =
        get_input_price_with_reserves(Direction::RemoveFromAmm, to_decimals("50"), quote, base)
            .unwrap();
    assert_eq!(result, to_decimals("5.263157894736842106"));

    // amount = 1000(base asset reversed) - (100 * 1000) / (100 + 5) = 47.619047619047619048
    let result =
        get_output_price_with_reserves(Direction::AddToAmm, to_decimals("5"), quote, base).unwrap();
    assert_eq!(result, to_decimals("47.619047619047619047"));

    // a dividable number should not plus 1 at mantissa
    let result =
        get_output_price_with_reserves(Direction::AddToAmm, to_decimals("25"), quote, base)
            .unwrap();
    assert_eq!(result, to_decimals("200"));

    // amount = (100 * 1000) / (100 - 5) - 1000(base asset reversed) = 52.631578947368
    let result =
        get_output_price_with_reserves(Direction::RemoveFromAmm, to_decimals("5"), quote, base)
            .unwrap();
    assert_eq!(result, to_decimals("52.631578947368421053"));

    // divisable output
    let result =
        get_output_price_with_reserves(Direction::RemoveFromAmm, to_decimals("37.5"), quote, base)
            .unwrap();
    assert_eq!(result, to_decimals("600"));
}

#[test]
fn swap_refuses_what_the_pool_cannot_give() {
    let mut vamm = instantiate("ETH/USD");
    let before = vamm.query_state();
    assert_eq!(
        vamm.swap_input(Direction::RemoveFromAmm, to_decimals("1000"), TIME, HEIGHT),
        Err(ContractError::InsufficientReserve)
    );
    assert_eq!(
        vamm.swap_output(Direction::RemoveFromAmm, to_decimals("100"), TIME, HEIGHT),
        Err(ContractError::InsufficientReserve)
    );
    assert_eq!(
        vamm.swap_input(Direction::AddToAmm, u128::MAX, TIME, HEIGHT),
        Err(ContractError::Overflow)
    );
    assert_eq!(
        vamm.swap_input(Direction::AddToAmm, 1, TIME, HEIGHT - 1),
        Err(ContractError::InvalidRequest)
    );
    assert_eq!(
        vamm.swap_input(Direction::AddToAmm, 1, TIME - 1, HEIGHT + 1),
        Err(ContractError::InvalidRequest)
    );
    assert_eq!(vamm.query_state(), before);
    assert_eq!(vamm.read_reserve_snapshot_counter(), 1);
}

#[test]
fn prices_need_positive_reserves() {
    assert_eq!(
        get_input_price_with_reserves(Direction::AddToAmm, 1, 0, 5),
        Err(ContractError::InvalidRequest)
    );
    assert_eq!(
        get_output_price_with_reserves(Direction::AddToAmm, 1, 5, 0),
        Err(ContractError::InvalidRequest)
    );
    assert_eq!(get_input_price_with_reserves(Direction::AddToAmm, 0, 7, 5), Ok(0));
}

#[test]
fn a_block_has_one_snapshot() {
    let mut vamm = instantiate("ETH/USD");
    // same block as the opening: the snapshot is replaced
    swap_input(&mut vamm, Direction::AddToAmm, "600");
    assert_eq!(vamm.read_reserve_snapshot_counter(), 1);
    let first = vamm.read_reserve_snapshot(1).unwrap();
    assert_eq!(first.quote_asset_reserve, to_decimals("1600"));
    assert_eq!(first.base_asset_reserve, to_decimals("62.5"));
    assert_eq!(first.timestamp, TIME);
    assert_eq!(first.block_height, HEIGHT);

    // a later block appends
    vamm.swap_output(Direction::AddToAmm, to_decimals("37.5"), TIME + 6, HEIGHT + 1)
        .unwrap();
    assert_eq!(vamm.read_reserve_snapshot_counter(), 2);
    // a second change in that block keeps the block's timestamp
    vamm.swap_input(Direction::RemoveFromAmm, to_decimals("600"), TIME + 7, HEIGHT + 1)
        .unwrap();
    assert_eq!(vamm.read_reserve_snapshot_counter(), 2);
    let second = vamm.read_reserve_snapshot(2).unwrap();
    assert_eq!(second.quote_asset_reserve, to_decimals("400"));
    assert_eq!(second.base_asset_reserve, to_decimals("250"));
    assert_eq!(second.timestamp, TIME + 6);
    assert_eq!(second.block_height, HEIGHT + 1);
    assert_eq!(vamm.read_reserve_snapshot(1), Some(first));
    assert_eq!(vamm.read_reserve_snapshot(0), None);
    assert_eq!(vamm.read_reserve_snapshot(3), None);
}

#[test]
fn opening_a_market_checks_its_parameters() {
    let open = |decimals: u8, quote: u128, base: u128, period: u64, now: u64| {
        Vamm::new(
            "o".to_string(),
            "e".to_string(),
            "q".to_string(),
            "b".to_string(),
            decimals,
            quote,
            base,
            period,
            0,
            0,
            now,
            1,
        )
        .map(|v| v.query_config().decimals)
    };
    assert_eq!(open(9, 1, 1, 1, 0), Ok(1_000_000_000));
    assert_eq!(open(0, 1, 1, 1, 0), Ok(1));
    assert_eq!(open(38, 1, 1, 1, 0), Ok(10u128.pow(38)));
    assert_eq!(open(39, 1, 1, 1, 0), Err(ContractError::Overflow));
    assert_eq!(open(9, 0, 1, 1, 0), Err(ContractError::InvalidRequest));
    assert_eq!(open(9, 1, 0, 1, 0), Err(ContractError::InvalidRequest));
    assert_eq!(open(9, 1, 1, 0, 0), Err(ContractError::InvalidRequest));
    assert_eq!(open(9, 1, 1, 2, u64::MAX - 1), Err(ContractError::Overflow));
}

use margined_core::engine::{
    get_position_notional_unrealized_pnl, Action, Engine, PnlCalcOption, Position,
    PositionUnrealizedPnlResponse, Side, SwapKind,
};
use margined_core::error::ContractError;
use margined_core::exchange::{close_position, open_position};
use margined_core::vamm::{Direction, SignedDecimal, Vamm};

const TIME: u64 = 1_571_797_419;
const HEIGHT: u64 = 12_345;
const VAMM: &str = "vamm0000";
const ALICE: &str = "alice";
const BOB: &str = "bob";

fn to_decimals(units: u128) -> u128 {
    units * 1_000_000_000
}

struct Scenario {
    engine: Engine,
    vamm: Vamm,
}

fn setup() -> Scenario {
    let vamm = Vamm::new(
        "owner".to_string(),
        "engine".to_string(),
        "ETH".to_string(),
        "USD".to_string(),
        9,
        to_decimals(1_000),
        to_decimals(100),
        3_600,
        0,
        0,
        TIME,
        HEIGHT,
    )
    .unwrap();
    let engine = Engine::new(
        "owner".to_string(),
        "usdc".to_string(),
        9,
        50_000_000,
        50_000_000,
        50_000_000,
        vec![VAMM.to_string()],
    )
    .unwrap();
    Scenario { engine, vamm }
}

// A request for `notional` at `leverage`: the quote amount that the engine
// divides by the leverage to get the notional.
fn open(env: &mut Scenario, trader: &str, side: Side, notional: u128, leverage: u128) -> Action {
    open_position(
        &mut env.engine,
        &mut env.vamm,
        TIME,
        HEIGHT,
        VAMM.to_string(),
        trader.to_string(),
        side,
        to_decimals(notional * leverage),
        to_decimals(leverage),
    )
    .unwrap()
}

fn position(env: &Scenario, trader: &str) -> Position {
    env.engine.read_position(VAMM, trader).unwrap()
}

fn pull(trader: &str, amount: u128) -> Action {
    Action::TransferFrom {
        owner: trader.to_string(),
        amount,
    }
}

fn push(trader: &str, amount: u128) -> Action {
    Action::Transfer {
        recipient: trader.to_string(),
        amount,
    }
}

#[test]
fn open_position_long() {
    let mut env = setup();

    let action = open(&mut env, ALICE, Side::BUY, 600, 10);
    assert_eq!(action, pull(ALICE, to_decimals(60)));

    let position = position(&env, ALICE);
    assert_eq!(position.size, 37_500_000_000);
    assert_eq!(position.margin, to_decimals(60));
    assert_eq!(position.notional, to_decimals(600));
    assert_eq!(position.direction, Direction::AddToAmm);
    assert_eq!(position.timestamp, TIME);
    assert_eq!(position.vamm, VAMM);
    assert_eq!(position.trader, ALICE);
    assert_eq!(env.engine.read_tmp_swap(), None);

    let state = env.vamm.query_state();
    assert_eq!(state.quote_asset_reserve, to_decimals(1_600));
    assert_eq!(state.base_asset_reserve, 62_500_000_000);
}

#[test]
fn open_position_two_longs() {
    let mut env = setup();

    assert_eq!(open(&mut env, ALICE, Side::BUY, 600, 10), pull(ALICE, to_decimals(60)));
    let once = position(&env, ALICE);
    assert_eq!(once.size, 37_500_000_000);
    assert_eq!(once.notional, to_decimals(600));
    assert_eq!(once.margin, to_decimals(60));

    assert_eq!(open(&mut env, ALICE, Side::BUY, 600, 10), pull(ALICE, to_decimals(120)));
    let twice = position(&env, ALICE);
    assert_eq!(twice.size, 54_545_454_545);
    assert_eq!(twice.notional, to_decimals(1_200));
    assert_eq!(twice.margin, to_decimals(120));
}

#[test]
fn open_position_two_shorts() {
    let mut env = setup();

    open(&mut env, ALICE, Side::SELL, 200, 5);
    open(&mut env, ALICE, Side::SELL, 200, 5);

    let position = position(&env, ALICE);
    assert_eq!(position.size, 66_666_666_667);
    assert_eq!(position.margin, to_decimals(80));
    assert_eq!(position.direction, Direction::RemoveFromAmm);
}

#[test]
fn open_position_equal_size_opposite_side() {
    let mut env = setup();

    open(&mut env, ALICE, Side::BUY, 600, 10);
    let action = open(&mut env, ALICE, Side::SELL, 600, 2);
    // the margin of the long goes back
    assert_eq!(action, push(ALICE, to_decimals(60)));

    let position = position(&env, ALICE);
    assert_eq!(position.size, 0);
    assert_eq!(position.margin, 0);
    assert_eq!(position.notional, 0);

    let state = env.vamm.query_state();
    assert_eq!(state.quote_asset_reserve, to_decimals(1_000));
    assert_eq!(state.base_asset_reserve, to_decimals(100));
}

#[test]
fn open_position_one_long_two_shorts() {
    let mut env = setup();

    open(&mut env, ALICE, Side::BUY, 600, 10);
    assert_eq!(open(&mut env, ALICE, Side::SELL, 100, 5), Action::Nothing);

    let reduced = position(&env, ALICE);
    assert_eq!(reduced.size, 33_333_333_333);
    assert_eq!(reduced.margin, to_decimals(60));
    assert_eq!(reduced.notional, to_decimals(500));
    assert_eq!(reduced.direction, Direction::AddToAmm);

    // worth 499.999999995 now: the request for 500 reverses, and what is
    // left over is too little for any margin
    assert_eq!(open(&mut env, ALICE, Side::SELL, 500, 10), push(ALICE, to_decimals(60)));

    let position = position(&env, ALICE);
    assert_eq!(position.size, 0);
    assert_eq!(position.margin, 0);
}

#[test]
fn open_position_short_and_two_longs() {
    let mut env = setup();

    open(&mut env, ALICE, Side::SELL, 200, 5);
    let first = position(&env, ALICE);
    assert_eq!(first.size, to_decimals(25));
    assert_eq!(first.margin, to_decimals(40));

    open(&mut env, ALICE, Side::BUY, 100, 5);
    let second = position(&env, ALICE);
    assert_eq!(second.size, 11_111_111_112);
    assert_eq!(second.margin, to_decimals(40));

    open(&mut env, ALICE, Side::BUY, 100, 10);
    let third = position(&env, ALICE);
    assert_eq!(third.size, 1);
    assert_eq!(third.margin, to_decimals(40));
    assert_eq!(third.notional, 0);
}

#[test]
fn open_position_short_long_short() {
    let mut env = setup();

    open(&mut env, ALICE, Side::SELL, 200, 10);
    // 450 against a short worth 200: 250 are left to open the long
    let action = open(&mut env, ALICE, Side::BUY, 450, 3);
    assert_eq!(action, pull(ALICE, 83_333_333_333));

    let reversed = position(&env, ALICE);
    assert_eq!(reversed.size, to_decimals(20));
    assert_eq!(reversed.margin, 83_333_333_333);
    assert_eq!(reversed.notional, to_decimals(250));
    assert_eq!(reversed.direction, Direction::AddToAmm);

    open(&mut env, ALICE, Side::SELL, 250, 10);
    let position = position(&env, ALICE);
    assert_eq!(position.size, 0);
    assert_eq!(position.margin, 0);
}

#[test]
fn open_position_long_short_long() {
    let mut env = setup();

    open(&mut env, ALICE, Side::BUY, 250, 10);
    open(&mut env, ALICE, Side::SELL, 450, 3);

    let reversed = position(&env, ALICE);
    assert_eq!(reversed.size, to_decimals(25));
    assert_eq!(reversed.margin, 66_666_666_666);
    assert_eq!(reversed.notional, to_decimals(200));
    assert_eq!(reversed.direction, Direction::RemoveFromAmm);

    open(&mut env, ALICE, Side::BUY, 200, 10);
    let position = position(&env, ALICE);
    assert_eq!(position.size, 0);
    assert_eq!(position.margin, 0);
}

#[test]
fn test_pnl_zero_no_others_trading() {
    let mut env = setup();

    open(&mut env, ALICE, Side::BUY, 250, 1);
    open(&mut env, ALICE, Side::BUY, 750, 1);

    let pnl = get_position_notional_unrealized_pnl(
        &env.vamm,
        &position(&env, ALICE),
        PnlCalcOption::SPOTPRICE,
    )
    .unwrap();
    assert_eq!(
        pnl,
        PositionUnrealizedPnlResponse {
            position_notional: to_decimals(1_000),
            unrealized_pnl: SignedDecimal {
                magnitude: 0,
                negative: false
            },
        }
    );
}

#[test]
fn unrealized_pnl_follows_the_direction() {
    let mut env = setup();

    // alice is short 100, then bob buys and the price rises against her
    open(&mut env, ALICE, Side::SELL, 100, 2);
    open(&mut env, BOB, Side::BUY, 60, 6);

    let short = get_position_notional_unrealized_pnl(
        &env.vamm,
        &position(&env, ALICE),
        PnlCalcOption::SPOTPRICE,
    )
    .unwrap();
    assert_eq!(short.position_notional, 114_626_865_681);
    assert_eq!(
        short.unrealized_pnl,
        SignedDecimal {
            magnitude: 14_626_865_681,
            negative: true
        }
    );

    // bob is long 60 and would get a little less back at once
    let long = get_position_notional_unrealized_pnl(
        &env.vamm,
        &position(&env, BOB),
        PnlCalcOption::SPOTPRICE,
    )
    .unwrap();
    assert_eq!(long.position_notional, 59_999_999_995);
    assert_eq!(
        long.unrealized_pnl,
        SignedDecimal {
            magnitude: 5,
            negative: true
        }
    );

    // the other options give no value
    let other = get_position_notional_unrealized_pnl(
        &env.vamm,
        &position(&env, BOB),
        PnlCalcOption::TWAP,
    )
    .unwrap();
    assert_eq!(other.position_notional, 0);
    assert_eq!(
        other.unrealized_pnl,
        SignedDecimal {
            magnitude: to_decimals(60),
            negative: true
        }
    );

    // an empty position has gained nothing
    let mut empty = position(&env, ALICE);
    empty.size = 0;
    let none =
        get_position_notional_unrealized_pnl(&env.vamm, &empty, PnlCalcOption::ORACLE).unwrap();
    assert_eq!(none.position_notional, 0);
    assert_eq!(none.unrealized_pnl.magnitude, 0);
}

#[test]
fn close_safe_position() {
    let mut env = setup();

    open(&mut env, ALICE, Side::SELL, 100, 2);
    assert_eq!(position(&env, ALICE).size, 11_111_111_112);

    open(&mut env, BOB, Side::BUY, 60, 6);
    let state = env.vamm.query_state();
    assert_eq!(state.quote_asset_reserve, to_decimals(960));
    assert_eq!(state.base_asset_reserve, 104_166_666_668);

    let action = close_position(
        &mut env.engine,
        &mut env.vamm,
        TIME,
        HEIGHT,
        VAMM.to_string(),
        ALICE.to_string(),
    )
    .unwrap();
    // margin 50, and buying back costs 14.626865681 more than was sold for
    assert_eq!(action, push(ALICE, 35_373_134_319));

    let position = position(&env, ALICE);
    assert_eq!(position.size, 0);
    assert_eq!(position.margin, 0);
    assert_eq!(position.notional, 0);
    assert_eq!(position.direction, Direction::RemoveFromAmm);

    let state = env.vamm.query_state();
    assert_eq!(state.quote_asset_reserve, 1_074_626_865_681);
    assert_eq!(state.base_asset_reserve, 93_055_555_556);
}

#[test]
fn close_position_over_maintenance_margin_ratio() {
    let mut env = setup();

    open(&mut env, ALICE, Side::BUY, 250, 10);
    assert_eq!(position(&env, ALICE).size, to_decimals(20));

    open_position(
        &mut env.engine,
        &mut env.vamm,
        TIME,
        HEIGHT,
        VAMM.to_string(),
        BOB.to_string(),
        Side::SELL,
        35_080_000_000,
        to_decimals(1),
    )
    .unwrap();

    let action = close_position(
        &mut env.engine,
        &mut env.vamm,
        TIME,
        HEIGHT,
        VAMM.to_string(),
        ALICE.to_string(),
    )
    .unwrap();
    // the long of 250 sells for 237.497925379: margin 25 less the loss
    assert_eq!(action, push(ALICE, 12_497_925_379));

    assert_eq!(position(&env, ALICE).size, 0);
    let state = env.vamm.query_state();
    assert_eq!(state.quote_asset_reserve, 977_422_074_621);
    assert_eq!(state.base_asset_reserve, 102_309_946_334);
}

#[test]
fn close_with_a_gain_pays_more_than_the_margin() {
    let mut env = setup();

    open(&mut env, ALICE, Side::BUY, 250, 10);
    open(&mut env, BOB, Side::BUY, 250, 10);
    // reserves (1500, 66.666666667); alice's 20 base sell for 346.153846152
    let action = close_position(
        &mut env.engine,
        &mut env.vamm,
        TIME,
        HEIGHT,
        VAMM.to_string(),
        ALICE.to_string(),
    )
    .unwrap();
    assert_eq!(action, push(ALICE, to_decimals(25) + 96_153_846_152));
}

#[test]
fn a_loss_beyond_the_margin_cannot_be_paid() {
    let mut env = setup();

    open(&mut env, ALICE, Side::SELL, 100, 20);
    open(&mut env, BOB, Side::BUY, 600, 10);
    let engine_before = env.engine.read_position(VAMM, ALICE);
    let state_before = env.vamm.query_state();
    let snapshots_before = env.vamm.read_reserve_snapshot_counter();

    assert_eq!(
        close_position(
            &mut env.engine,
            &mut env.vamm,
            TIME + 10,
            HEIGHT + 1,
            VAMM.to_string(),
            ALICE.to_string(),
        ),
        Err(ContractError::Overflow)
    );
    // nothing has moved
    assert_eq!(env.engine.read_position(VAMM, ALICE), engine_before);
    assert_eq!(env.engine.read_tmp_swap(), None);
    assert_eq!(env.vamm.query_state(), state_before);
    assert_eq!(env.vamm.read_reserve_snapshot_counter(), snapshots_before);
}

#[test]
fn requests_are_checked() {
    let mut env = setup();

    let mut request = |vamm: &str, amount: u128, leverage: u128, height: u64| {
        open_position(
            &mut env.engine,
            &mut env.vamm,
            TIME,
            height,
            vamm.to_string(),
            ALICE.to_string(),
            Side::BUY,
            amount,
            leverage,
        )
    };
    assert_eq!(
        request("stranger", to_decimals(60), to_decimals(10), HEIGHT),
        Err(ContractError::InvalidRequest)
    );
    assert_eq!(
        request(VAMM, to_decimals(60), 0, HEIGHT),
        Err(ContractError::InvalidRequest)
    );
    assert_eq!(
        request(VAMM, u128::MAX, 1, HEIGHT),
        Err(ContractError::Overflow)
    );
    assert_eq!(
        request(VAMM, to_decimals(60), to_decimals(10), HEIGHT - 1),
        Err(ContractError::InvalidRequest)
    );
    assert_eq!(env.engine.read_position(VAMM, ALICE), None);

    assert_eq!(
        close_position(
            &mut env.engine,
            &mut env.vamm,
            TIME,
            HEIGHT,
            VAMM.to_string(),
            ALICE.to_string(),
        ),
        Err(ContractError::InvalidRequest)
    );

    // a short larger than the pool's quote reserve
    assert_eq!(
        open_position(
            &mut env.engine,
            &mut env.vamm,
            TIME,
            HEIGHT,
            VAMM.to_string(),
            ALICE.to_string(),
            Side::SELL,
            to_decimals(1_000),
            to_decimals(1),
        ),
        Err(ContractError::InsufficientReserve)
    );
    assert_eq!(env.vamm.query_state().quote_asset_reserve, to_decimals(1_000));
}

#[test]
fn step_by_step_through_a_reversal() {
    let mut env = setup();
    open(&mut env, ALICE, Side::BUY, 250, 10);

    // the request: 450 short against a long worth 250
    let action = env
        .engine
        .open_position(
            &env.vamm,
            TIME,
            VAMM.to_string(),
            ALICE.to_string(),
            Side::SELL,
            to_decimals(1_350),
            to_decimals(3),
        )
        .unwrap();
    assert_eq!(
        action,
        Action::SwapOutput {
            vamm: VAMM.to_string(),
            direction: Direction::AddToAmm,
            base_asset_amount: to_decimals(20),
            kind: SwapKind::Reverse,
        }
    );
    let pending = env.engine.read_tmp_swap().unwrap();
    assert_eq!(pending.open_notional, to_decimals(450));
    assert_eq!(pending.kind, SwapKind::Reverse);
    assert_eq!(pending.side, Side::SELL);
    assert_eq!(pending.quote_asset_amount, to_decimals(1_350));
    assert_eq!(pending.leverage, to_decimals(3));

    // a result under the wrong tag finds no request
    assert_eq!(
        env.engine.increase_position_reply(TIME, 0, 0),
        Err(ContractError::NoPendingSwap)
    );
    assert_eq!(env.engine.reply(TIME, 9, 0, 0), Err(ContractError::InvalidRequest));

    let res = env
        .vamm
        .swap_output(Direction::AddToAmm, to_decimals(20), TIME, HEIGHT)
        .unwrap();
    assert_eq!(res.input, to_decimals(20));
    assert_eq!(res.output, to_decimals(250));

    let action = env.engine.reply(TIME + 1, 3, res.input, res.output).unwrap();
    assert_eq!(
        action,
        Action::SwapInput {
            vamm: VAMM.to_string(),
            direction: Direction::RemoveFromAmm,
            quote_asset_amount: to_decimals(200),
            kind: SwapKind::Increase,
        }
    );
    let cleared = position(&env, ALICE);
    assert_eq!(cleared.size, 0);
    assert_eq!(cleared.margin, 0);
    assert_eq!(cleared.notional, 0);
    assert_eq!(cleared.timestamp, TIME + 1);
    assert_eq!(cleared.direction, Direction::AddToAmm);
    let pending = env.engine.read_tmp_swap().unwrap();
    assert_eq!(pending.open_notional, to_decimals(200));
    assert_eq!(pending.kind, SwapKind::Increase);

    let res = env
        .vamm
        .swap_input(Direction::RemoveFromAmm, to_decimals(200), TIME, HEIGHT)
        .unwrap();
    let action = env
        .engine
        .increase_position_reply(TIME + 1, res.input, res.output)
        .unwrap();
    assert_eq!(action, pull(ALICE, 66_666_666_666));
    let reversed = position(&env, ALICE);
    assert_eq!(reversed.size, to_decimals(25));
    assert_eq!(reversed.notional, to_decimals(200));
    assert_eq!(reversed.margin, 66_666_666_666);
    assert_eq!(reversed.direction, Direction::RemoveFromAmm);
    assert_eq!(env.engine.read_tmp_swap(), None);

    // the request is used up
    assert_eq!(
        env.engine.increase_position_reply(TIME, 0, 0),
        Err(ContractError::NoPendingSwap)
    );
}

#[test]
fn step_by_step_through_a_decrease_and_a_close() {
    let mut env = setup();
    open(&mut env, ALICE, Side::BUY, 600, 10);

    let action = env
        .engine
        .open_position(
            &env.vamm,
            TIME,
            VAMM.to_string(),
            ALICE.to_string(),
            Side::SELL,
            to_decimals(500),
            to_decimals(5),
        )
        .unwrap();
    assert_eq!(
        action,
        Action::SwapInput {
            vamm: VAMM.to_string(),
            direction: Direction::RemoveFromAmm,
            quote_asset_amount: to_decimals(100),
            kind: SwapKind::Decrease,
        }
    );
    let res = env
        .vamm
        .swap_input(Direction::RemoveFromAmm, to_decimals(100), TIME, HEIGHT)
        .unwrap();
    assert_eq!(
        env.engine.decrease_position_reply(TIME, res.input, res.output),
        Ok(Action::Nothing)
    );
    assert_eq!(position(&env, ALICE).size, 33_333_333_333);

    let action = env
        .engine
        .close_position(VAMM.to_string(), ALICE.to_string())
        .unwrap();
    assert_eq!(
        action,
        Action::SwapOutput {
            vamm: VAMM.to_string(),
            direction: Direction::AddToAmm,
            base_asset_amount: 33_333_333_333,
            kind: SwapKind::Close,
        }
    );
    let pending = env.engine.read_tmp_swap().unwrap();
    assert_eq!(pending.side, Side::BUY);
    assert_eq!(pending.quote_asset_amount, 33_333_333_333);
    assert_eq!(pending.leverage, 0);
    assert_eq!(pending.open_notional, to_decimals(500));
    assert_eq!(pending.kind, SwapKind::Close);

    let res = env
        .vamm
        .swap_output(Direction::AddToAmm, 33_333_333_333, TIME, HEIGHT)
        .unwrap();
    assert_eq!(res.output, 499_999_999_995);
    let action = env
        .engine
        .close_position_reply(TIME, res.input, res.output)
        .unwrap();
    assert_eq!(action, push(ALICE, to_decimals(60) - 5));
    assert_eq!(position(&env, ALICE).size, 0);
    assert_eq!(env.engine.read_tmp_swap(), None);

    // a reduction larger than the position is refused
    open(&mut env, BOB, Side::BUY, 100, 1);
    env.engine
        .open_position(
            &env.vamm,
            TIME,
            VAMM.to_string(),
            BOB.to_string(),
            Side::SELL,
            to_decimals(50),
            to_decimals(1),
        )
        .unwrap();
    let before = position(&env, BOB);
    assert_eq!(
        env.engine.decrease_position_reply(TIME, 0, before.size + 1),
        Err(ContractError::Overflow)
    );
    assert_eq!(position(&env, BOB), before);
    assert!(env.engine.read_tmp_swap().is_some());
}

#[test]
fn the_ledger_keeps_one_position_for_each_trader_and_market() {
    let mut env = setup();
    open(&mut env, ALICE, Side::BUY, 250, 10);
    open(&mut env, BOB, Side::SELL, 100, 2);

    let alice = position(&env, ALICE);
    let bob = position(&env, BOB);
    assert_eq!(alice.direction, Direction::AddToAmm);
    assert_eq!(bob.direction, Direction::RemoveFromAmm);
    assert_eq!(env.engine.read_position(VAMM, "carol"), None);
    assert_eq!(env.engine.read_position("other", ALICE), None);

    let mut changed = alice.clone();
    changed.premium_fraction = 7;
    env.engine.store_position(changed.clone());
    assert_eq!(env.engine.read_position(VAMM, ALICE), Some(changed));
    assert_eq!(env.engine.read_position(VAMM, BOB), Some(bob));

    let fresh = env
        .engine
        .get_position(TIME + 5, &VAMM.to_string(), &"carol".to_string(), Side::SELL);
    assert_eq!(
        fresh,
        Position {
            vamm: VAMM.to_string(),
            trader: "carol".to_string(),
            direction: Direction::RemoveFromAmm,
            size: 0,
            margin: 0,
            notional: 0,
            premium_fraction: 0,
            liquidity_history_index: 0,
            timestamp: TIME + 5,
        }
    );
}

use margined_core::engine::{
    clear_position, direction_to_side, internal_increase_position, parse_swap, read_event,
    side_to_direction, Action, Attribute, Engine, Event, Position, Side, SwapKind,
};
use margined_core::error::ContractError;
use margined_core::vamm::Direction;

const TOKEN: &str = "token";
const OWNER: &str = "owner";

fn instantiate() -> Engine {
    Engine::new(
        OWNER.to_string(),
        TOKEN.to_string(),
        10,
        1_000,
        1_000,
        1_000,
        vec!["test".to_string()],
    )
    .unwrap()
}

#[test]
fn tests_test_instantiation() {
    let engine = instantiate();

    let config = engine.read_config();
    assert_eq!(config.owner, OWNER);
    assert_eq!(config.eligible_collateral, TOKEN);
    assert_eq!(config.decimals, 10_000_000_000);
    assert_eq!(config.initial_margin_ratio, 1_000);
    assert_eq!(config.maintenance_margin_ratio, 1_000);
    assert_eq!(config.liquidation_fee, 1_000);
    assert!(engine.read_vamm().is_vamm("test"));
    assert!(!engine.read_vamm().is_vamm("tes"));
    assert_eq!(engine.read_tmp_swap(), None);
}

#[test]
fn tests_test_update_config() {
    let mut engine = instantiate();

    // Update the config
    engine.update_config(OWNER, "addr0001".to_string()).unwrap();

    let config = engine.read_config();
    assert_eq!(config.owner, "addr0001");
    assert_eq!(config.eligible_collateral, TOKEN);

    // Update should fail
    let result = engine.update_config(OWNER, OWNER.to_string());
    assert_eq!(result, Err(ContractError::Unauthorized));
    assert_eq!(engine.read_config().owner, "addr0001");
}

#[test]
fn an_engine_needs_a_scale_that_fits() {
    let build = |decimals: u8| {
        Engine::new(
            OWNER.to_string(),
            TOKEN.to_string(),
            decimals,
            0,
            0,
            0,
            Vec::new(),
        )
        .map(|e| e.read_config().decimals)
    };
    assert_eq!(build(18), Ok(1_000_000_000_000_000_000));
    assert_eq!(build(39), Err(ContractError::Overflow));
}

#[test]
fn sides_and_directions() {
    assert_eq!(side_to_direction(Side::BUY), Direction::AddToAmm);
    assert_eq!(side_to_direction(Side::SELL), Direction::RemoveFromAmm);
    assert_eq!(direction_to_side(Direction::AddToAmm), Side::BUY);
    assert_eq!(direction_to_side(Direction::RemoveFromAmm), Side::SELL);
    assert_eq!(
        internal_increase_position("vamm".to_string(), Side::SELL, 5),
        Action::SwapInput {
            vamm: "vamm".to_string(),
            direction: Direction::RemoveFromAmm,
            quote_asset_amount: 5,
            kind: SwapKind::Increase,
        }
    );
}

#[test]
fn the_default_position_is_empty() {
    assert_eq!(
        Position::default(),
        Position {
            vamm: String::new(),
            trader: String::new(),
            direction: Direction::AddToAmm,
            size: 0,
            margin: 0,
            notional: 0,
            premium_fraction: 0,
            liquidity_history_index: 0,
            timestamp: 0,
        }
    );
}

#[test]
fn clearing_keeps_whose_position_it_is() {
    let position = Position {
        vamm: "vamm".to_string(),
        trader: "alice".to_string(),
        direction: Direction::RemoveFromAmm,
        size: 1,
        margin: 2,
        notional: 3,
        premium_fraction: 4,
        liquidity_history_index: 5,
        timestamp: 6,
    };
    assert_eq!(
        clear_position(99, position),
        Position {
            vamm: "vamm".to_string(),
            trader: "alice".to_string(),
            direction: Direction::RemoveFromAmm,
            size: 0,
            margin: 0,
            notional: 0,
            premium_fraction: 4,
            liquidity_history_index: 5,
            timestamp: 99,
        }
    );
}

fn attribute(key: &str, value: &str) -> Attribute {
    Attribute {
        key: key.to_string(),
        value: value.to_string(),
    }
}

fn event(ty: &str, attributes: Vec<Attribute>) -> Event {
    Event {
        ty: ty.to_string(),
        attributes,
    }
}

#[test]
fn swap_amounts_are_read_from_the_wasm_event() {
    let events = vec![
        event("execute", vec![attribute("input", "1")]),
        event(
            "wasm",
            vec![
                attribute("action", "swap"),
                attribute("input", "600"),
                attribute("output", "37.5"),
                attribute("output", "1"),
            ],
        ),
        event("wasm", vec![attribute("input", "2"), attribute("output", "3")]),
    ];
    assert_eq!(
        parse_swap(&events),
        Ok((600_000_000_000_000_000_000, 37_500_000_000_000_000_000))
    );
    assert_eq!(
        read_event("output", &events[1]),
        Ok(attribute("output", "37.5"))
    );
    assert_eq!(
        read_event("missing", &events[1]),
        Err(ContractError::InvalidRequest)
    );

    assert_eq!(parse_swap(&Vec::new()), Err(ContractError::InvalidRequest));
    assert_eq!(
        parse_swap(&vec![event("wasm", vec![attribute("input", "1")])]),
        Err(ContractError::InvalidRequest)
    );
    assert_eq!(
        parse_swap(&vec![event(
            "wasm",
            vec![attribute("input", "1"), attribute("output", "1.2.3")]
        )]),
        Err(ContractError::InvalidRequest)
    );
    assert_eq!(
        parse_swap(&vec![event(
            "wasm",
            vec![attribute("input", "x"), attribute("output", "1")]
        )]),
        Err(ContractError::InvalidRequest)
    );
}

use margined_core::error::ContractError;
use margined_core::vamm::{SignedDecimal, Vamm};

const START: u64 = 1_571_797_419;

fn new_vamm() -> Vamm {
    Vamm::new(
        "owner".to_string(),
        "owner".to_string(),
        "ETH".to_string(),
        "USD".to_string(),
        9,
        1_000_000_000_000,
        100_000_000_000,
        3_600,
        0,
        0,
        START,
        12_345,
    )
    .unwrap()
}

#[test]
fn test_settle_funding_delay_before_buffer_period_ends() {
    let mut vamm = new_vamm();
    let price: u128 = 500_000_000;

    let state = vamm.query_state();
    let mut expected_funding_time = START + 3_600;
    assert_eq!(state.next_funding_time, expected_funding_time);

    let now = START + 5_400;
    vamm.settle_funding("owner", now, price).unwrap();

    expected_funding_time = state.next_funding_time + 3_600;
    let state = vamm.query_state();
    assert_eq!(state.next_funding_time, expected_funding_time);
}

#[test]
fn test_force_error_caller_is_not_couterparty_or_owner() {
    let mut vamm = new_vamm();
    let price: u128 = 500_000_000;

    let err = vamm.settle_funding("alice", START, price).unwrap_err();
    assert_eq!(err, ContractError::Unauthorized);
}

#[test]
fn settle_funding_after_the_buffer_restarts_the_schedule() {
    let mut vamm = new_vamm();
    let scheduled = vamm.query_state().next_funding_time;

    let now = scheduled + 1_801;
    vamm.settle_funding("owner", now, 500_000_000).unwrap();

    assert_eq!(vamm.query_state().next_funding_time, scheduled + 1_801 + 3_600);
}

#[test]
fn settle_funding_opens_at_the_midpoint_of_the_period() {
    let mut vamm = new_vamm();
    let scheduled = vamm.query_state().next_funding_time;
    let before = vamm.query_state();

    assert_eq!(
        vamm.settle_funding("owner", scheduled - 1_801, 500_000_000),
        Err(ContractError::TooEarly)
    );
    assert_eq!(vamm.query_state(), before);

    vamm.settle_funding("owner", scheduled - 1_800, 500_000_000)
        .unwrap();
    assert_eq!(vamm.query_state().next_funding_time, scheduled + 3_600);

    // the next slot opens at its own midpoint
    assert_eq!(
        vamm.settle_funding("owner", scheduled + 1_799, 500_000_000),
        Err(ContractError::TooEarly)
    );
    vamm.settle_funding("owner", scheduled + 1_800, 500_000_000)
        .unwrap();
    assert_eq!(vamm.query_state().next_funding_time, scheduled + 7_200);
}

#[test]
fn funding_rate_is_the_premium_per_period() {
    // mark price 10, over a period of one hour
    let mut vamm = new_vamm();
    let scheduled = vamm.query_state().next_funding_time;

    // index 9.76: premium 0.24, a 24th of it per period
    let state = vamm.settle_funding("owner", scheduled, 9_760_000_000).unwrap();
    assert_eq!(
        state.funding_rate,
        SignedDecimal {
            magnitude: 10_000_000,
            negative: false
        }
    );
    assert_eq!(state, vamm.query_state());

    // index 10.48: the market trades below the index
    let state = vamm
        .settle_funding("owner", scheduled + 3_600, 10_480_000_000)
        .unwrap();
    assert_eq!(
        state.funding_rate,
        SignedDecimal {
            magnitude: 20_000_000,
            negative: true
        }
    );

    // no premium, no sign
    let state = vamm
        .settle_funding("owner", scheduled + 7_200, 10_000_000_000)
        .unwrap();
    assert_eq!(
        state.funding_rate,
        SignedDecimal {
            magnitude: 0,
            negative: false
        }
    );
}

//! A request carried through in one piece: the engine decides, the market
//! trades, the engine reconciles, and either all of it happens or none.
use crate::engine::{
    plan_close, plan_close_spec, reconcile, reconcile_spec, swap_action, swap_action_spec, Action,
    Engine, Position, Reconciled, Side, Swap,
};
use crate::error::ContractError;
use crate::vamm::{
    clock_runs_backwards, get_input_price_with_reserves, get_output_price_with_reserves,
    input_price_spec, lemma_reserve_after_range, moved_reserve, output_price_spec, priced_reserve,
    record_snapshot, Direction, State, Vamm,
};
use vstd::prelude::*;

verus! {

/// What a swap gives out and what it leaves of the reserves.
#[derive(Clone, Copy, Debug, PartialEq, Eq, Structural)]
pub struct Priced {
    pub output: u128,
    pub quote_asset_reserve: u128,
    pub base_asset_reserve: u128,
}

/// How a request ends: the trader's position, the movement of collateral
/// that is left to make, and the reserves of the market.
#[derive(Clone, Debug, PartialEq, Eq)]
pub struct Settled {
    pub position: Position,
    pub action: Action,
    pub quote_asset_reserve: u128,
    pub base_asset_reserve: u128,
}

/// What the swap that `action` asks for gives out and leaves of the
/// reserves `quote` and `base`. An action that is no swap is an invalid
/// request.
pub open spec fn swap_outcome_spec(action: Action, quote: u128, base: u128) -> Result<
    Priced,
    ContractError,
> {
    match action {
        Action::SwapInput { direction, quote_asset_amount, .. } => match input_price_spec(
            direction,
            quote_asset_amount as nat,
            quote as nat,
            base as nat,
        ) {
            Ok(price) => Ok(
                Priced {
                    output: price,
                    quote_asset_reserve: moved_reserve(direction, quote, quote_asset_amount)
                        as u128,
                    base_asset_reserve: priced_reserve(direction, base, price) as u128,
                },
            ),
            Err(e) => Err(e),
        },
        Action::SwapOutput { direction, base_asset_amount, .. } => match output_price_spec(
            direction,
            base_asset_amount as nat,
            quote as nat,
            base as nat,
        ) {
            Ok(price) => Ok(
                Priced {
                    output: price,
                    quote_asset_reserve: priced_reserve(direction, quote, price) as u128,
                    base_asset_reserve: moved_reserve(direction, base, base_asset_amount) as u128,
                },
            ),
            Err(e) => Err(e),
        },
        _ => Err(ContractError::InvalidRequest),
    }
}

/// How the request `swap` of a trader with the position `position` ends
/// against a pool of the reserves `quote` and `base`: the swap is priced and
/// reconciled, and where the reconciliation keeps the request in flight as
/// an extension, that second swap is priced on the reserves that the first
/// left and reconciled in turn.
pub open spec fn settle_spec(
    position: Position,
    swap: Swap,
    quote: u128,
    base: u128,
    decimals: u128,
    now: u64,
) -> Result<Settled, ContractError> {
    match swap_outcome_spec(swap_action_spec(swap, position), quote, base) {
        Err(e) => Err(e),
        Ok(first) => match reconcile_spec(position, swap, first.output, decimals, now) {
            Err(e) => Err(e),
            Ok(done) => match done.pending {
                None => Ok(
                    Settled {
                        position: done.position,
                        action: done.action,
                        quote_asset_reserve: first.quote_asset_reserve,
                        base_asset_reserve: first.base_asset_reserve,
                    },
                ),
                Some(next) => match swap_outcome_spec(
                    done.action,
                    first.quote_asset_reserve,
                    first.base_asset_reserve,
                ) {
                    Err(e) => Err(e),
                    Ok(second) => match reconcile_spec(
                        done.position,
                        next,
                        second.output,
                        decimals,
                        now,
                    ) {
                        Err(e) => Err(e),
                        Ok(last) => Ok(
                            Settled {
                                position: last.position,
                                action: last.action,
                                quote_asset_reserve: second.quote_asset_reserve,
                                base_asset_reserve: second.base_asset_reserve,
                            },
                        ),
                    },
                },
            },
        },
    }
}

/// What the swap that `action` asks for gives out and leaves of the
/// reserves, without trading. Both reserves stay positive.
pub fn swap_outcome(action: &Action, quote: u128, base: u128) -> (r: Result<Priced, ContractError>)
    ensures
        r == swap_outcome_spec(*action, quote, base),
        r matches Ok(p) ==> p.quote_asset_reserve > 0 && p.base_asset_reserve > 0,
{
    match action {
        Action::SwapInput { direction, quote_asset_amount, .. } => {
            let price: u128 = match get_input_price_with_reserves(
                *direction,
                *quote_asset_amount,
                quote,
                base,
            ) {
                Ok(p) => p,
                Err(e) => {
                    return Err(e);
                },
            };
            proof {
                lemma_reserve_after_range(
                    quote as nat,
                    base as nat,
                    moved_reserve(*direction, quote, *quote_asset_amount) as nat,
                );
            }
            match direction {
                Direction::AddToAmm => Ok(
                    Priced {
                        output: price,
                        quote_asset_reserve: quote + *quote_asset_amount,
                        base_asset_reserve: base - price,
                    },
                ),
                Direction::RemoveFromAmm => Ok(
                    Priced {
                        output: price,
                        quote_asset_reserve: quote - *quote_asset_amount,
                        base_asset_reserve: base + price,
                    },
                ),
            }
        },
        Action::SwapOutput { direction, base_asset_amount, .. } => {
            let price: u128 = match get_output_price_with_reserves(
                *direction,
                *base_asset_amount,
                quote,
                base,
            ) {
                Ok(p) => p,
                Err(e) => {
                    return Err(e);
                },
            };
            proof {
                lemma_reserve_after_range(
                    base as nat,
                    quote as nat,
                    moved_reserve(*direction, base, *base_asset_amount) as nat,
                );
            }
            match direction {
                Direction::AddToAmm => Ok(
                    Priced {
                        output: price,
                        quote_asset_reserve: quote - price,
                        base_asset_reserve: base + *base_asset_amount,
                    },
                ),
                Direction::RemoveFromAmm => Ok(
                    Priced {
                        output: price,
                        quote_asset_reserve: quote + price,
                        base_asset_reserve: base - *base_asset_amount,
                    },
                ),
            }
        },
        _ => Err(ContractError::InvalidRequest),
    }
}

/// How a request ends, without changing anything.
pub fn settle(position: Position, swap: &Swap, quote: u128, base: u128, decimals: u128, now: u64)
    -> (r: Result<Settled, ContractError>)
    ensures
        r == settle_spec(position, *swap, quote, base, decimals, now),
        r matches Ok(s) ==> s.quote_asset_reserve > 0 && s.base_asset_reserve > 0,
{
    let action = swap_action(swap, &position);
    let first = match swap_outcome(&action, quote, base) {
        Ok(p) => p,
        Err(e) => {
            return Err(e);
        },
    };
    let done = match reconcile(position, swap, first.output, decimals, now) {
        Ok(d) => d,
        Err(e) => {
            return Err(e);
        },
    };
    match done.pending {
        None => Ok(
            Settled {
                position: done.position,
                action: done.action,
                quote_asset_reserve: first.quote_asset_reserve,
                base_asset_reserve: first.base_asset_reserve,
            },
        ),
        Some(next) => {
            let second = match swap_outcome(
                &done.action,
                first.quote_asset_reserve,
                first.base_asset_reserve,
            ) {
                Ok(p) => p,
                Err(e) => {
                    return Err(e);
                },
            };
            match reconcile(done.position, &next, second.output, decimals, now) {
                Ok(last) => Ok(
                    Settled {
                        position: last.position,
                        action: last.action,
                        quote_asset_reserve: second.quote_asset_reserve,
                        base_asset_reserve: second.base_asset_reserve,
                    },
                ),
                Err(e) => Err(e),
            }
        },
    }
}

/// How a request to open exposure ends: as the engine plans it and
/// [`settle_spec`] carries it through, in a block that can follow the
/// market's history.
pub open spec fn open_position_spec(
    engine: &Engine,
    market: &Vamm,
    now: u64,
    block_height: u64,
    vamm_addr: String,
    trader: String,
    side: Side,
    quote_asset_amount: u128,
    leverage: u128,
) -> Result<Settled, ContractError> {
    match engine.open_position_spec(
        market,
        now,
        vamm_addr,
        trader,
        side,
        quote_asset_amount,
        leverage,
    ) {
        Err(e) => Err(e),
        Ok(swap) => if clock_runs_backwards(market.snapshots_spec(), now, block_height) {
            Err(ContractError::InvalidRequest)
        } else {
            settle_spec(
                engine.get_position_spec(now, vamm_addr, trader, side),
                swap,
                market.state_spec().quote_asset_reserve,
                market.state_spec().base_asset_reserve,
                engine.config_spec().decimals,
                now,
            )
        },
    }
}

/// How a request to close a position ends.
pub open spec fn close_position_spec(
    engine: &Engine,
    market: &Vamm,
    now: u64,
    block_height: u64,
    vamm_addr: String,
    trader: String,
) -> Result<Settled, ContractError> {
    match engine.position_spec(vamm_addr@, trader@) {
        None => Err(ContractError::InvalidRequest),
        Some(position) => if clock_runs_backwards(market.snapshots_spec(), now, block_height) {
            Err(ContractError::InvalidRequest)
        } else {
            settle_spec(
                position,
                plan_close_spec(position),
                market.state_spec().quote_asset_reserve,
                market.state_spec().base_asset_reserve,
                engine.config_spec().decimals,
                now,
            )
        },
    }
}

/// How engine and market stand after a request that ended as `settled`:
/// the reserves moved and recorded for the block, the trader's position
/// written, every other position as before, nothing in flight.
pub open spec fn settled_into(
    engine: &Engine,
    engine_before: &Engine,
    market: &Vamm,
    market_before: &Vamm,
    settled: Settled,
    now: u64,
    block_height: u64,
) -> bool {
    &&& engine.holds(
        engine_before,
        Reconciled { position: settled.position, pending: None, action: settled.action },
    )
    &&& market.config_spec() == market_before.config_spec()
    &&& market.state_spec() == (State {
        quote_asset_reserve: settled.quote_asset_reserve,
        base_asset_reserve: settled.base_asset_reserve,
        ..market_before.state_spec()
    })
    &&& market.snapshots_spec() == record_snapshot(
        market_before.snapshots_spec(),
        settled.quote_asset_reserve,
        settled.base_asset_reserve,
        now,
        block_height,
    )
}

/// Writes the end of a request into engine and market.
fn apply(
    engine: &mut Engine,
    market: &mut Vamm,
    settled: Settled,
    now: u64,
    block_height: u64,
) -> (r: Action)
    requires
        old(engine).wf(),
        old(market).wf(),
        settled.quote_asset_reserve > 0,
        settled.base_asset_reserve > 0,
        !clock_runs_backwards(old(market).snapshots_spec(), now, block_height),
    ensures
        final(engine).wf(),
        final(market).wf(),
        r == settled.action,
        settled_into(
            final(engine),
            old(engine),
            final(market),
            old(market),
            settled,
            now,
            block_height,
        ),
{
    market.move_reserves(
        settled.quote_asset_reserve,
        settled.base_asset_reserve,
        now,
        block_height,
    );
    engine.commit(
        Reconciled { position: settled.position, pending: None, action: settled.action },
    )
}

/// Opens exposure for `trader` in the market `market`, which is registered
/// with the engine under `vamm_addr`: the whole request in one step. The
/// swap is made, its result reconciled, and where the request reverses a
/// position and notional is left over, the second swap follows at once.
/// Returns the movement of collateral that is left to make. Where any step
/// fails, engine and market stay as they were.
pub fn open_position(
    engine: &mut Engine,
    market: &mut Vamm,
    now: u64,
    block_height: u64,
    vamm_addr: String,
    trader: String,
    side: Side,
    quote_asset_amount: u128,
    leverage: u128,
) -> (r: Result<Action, ContractError>)
    requires
        old(engine).wf(),
        old(market).wf(),
    ensures
        final(engine).wf(),
        final(market).wf(),
        match open_position_spec(
            old(engine),
            old(market),
            now,
            block_height,
            vamm_addr,
            trader,
            side,
            quote_asset_amount,
            leverage,
        ) {
            Err(e) => r == Err::<Action, ContractError>(e) && *final(engine) == *old(engine)
                && *final(market) == *old(market),
            Ok(settled) => r == Ok::<Action, ContractError>(settled.action) && settled_into(
                final(engine),
                old(engine),
                final(market),
                old(market),
                settled,
                now,
                block_height,
            ),
        },
{
    let swap = match engine.plan_open(
        market,
        now,
        &vamm_addr,
        &trader,
        side,
        quote_asset_amount,
        leverage,
    ) {
        Ok(s) => s,
        Err(e) => {
            return Err(e);
        },
    };
    if !market.accepts_block(now, block_height) {
        return Err(ContractError::InvalidRequest);
    }
    let position = engine.get_position(now, &vamm_addr, &trader, side);
    let state = market.query_state();
    let settled = match settle(
        position,
        &swap,
        state.quote_asset_reserve,
        state.base_asset_reserve,
        engine.read_config().decimals,
        now,
    ) {
        Ok(s) => s,
        Err(e) => {
            return Err(e);
        },
    };
    Ok(apply(engine, market, settled, now, block_height))
}

/// Closes the position of `trader` in the market `market`, which is
/// registered with the engine under `vamm_addr`: the whole request in one
/// step. Returns the movement of collateral that is left to make. Where any
/// step fails, engine and market stay as they were.
pub fn close_position(
    engine: &mut Engine,
    market: &mut Vamm,
    now: u64,
    block_height: u64,
    vamm_addr: String,
    trader: String,
) -> (r: Result<Action, ContractError>)
    requires
        old(engine).wf(),
        old(market).wf(),
    ensures
        final(engine).wf(),
        final(market).wf(),
        match close_position_spec(old(engine), old(market), now, block_height, vamm_addr, trader) {
            Err(e) => r == Err::<Action, ContractError>(e) && *final(engine) == *old(engine)
                && *final(market) == *old(market),
            Ok(settled) => r == Ok::<Action, ContractError>(settled.action) && settled_into(
                final(engine),
                old(engine),
                final(market),
                old(market),
                settled,
                now,
                block_height,
            ),
        },
{
    let position = match engine.read_position(vamm_addr.as_str(), trader.as_str()) {
        Some(p) => p,
        None => {
            return Err(ContractError::InvalidRequest);
        },
    };
    if !market.accepts_block(now, block_height) {
        return Err(ContractError::InvalidRequest);
    }
    let swap = plan_close(&position);
    let state = market.query_state();
    let settled = match settle(
        position,
        &swap,
        state.quote_asset_reserve,
        state.base_asset_reserve,
        engine.read_config().decimals,
        now,
    ) {
        Ok(s) => s,
        Err(e) => {
            return Err(e);
        },
    };
    Ok(apply(engine, market, settled, now, block_height))
}

/// A request on the opposite side of an open position whose notional is
/// the position's present value, or exceeds it by so little that the excess
/// divided by the leverage rounds to zero, flattens the position in one
/// step: the whole position is traded back to the market, the ledger shows
/// size, margin and notional at zero, and the old margin is on its way to
/// the trader.
pub proof fn lemma_open_opposite_flattens(
    engine: &Engine,
    market: &Vamm,
    now: u64,
    block_height: u64,
    position: Position,
    side: Side,
    quote_asset_amount: u128,
    leverage: u128,
    swap: Swap,
    value: u128,
)
    requires
        engine.position_spec(position.vamm@, position.trader@) == Some(position),
        position.size > 0,
        position.direction != crate::engine::side_to_direction_spec(side),
        engine.open_position_spec(
            market,
            now,
            position.vamm,
            position.trader,
            side,
            quote_asset_amount,
            leverage,
        ) == Ok::<Swap, ContractError>(swap),
        !clock_runs_backwards(market.snapshots_spec(), now, block_height),
        market.query_output_price_spec(position.direction, position.size) == Ok::<
            u128,
            ContractError,
        >(value),
        value <= swap.open_notional,
        crate::math::mul_div_spec(
            (swap.open_notional - value) as nat,
            engine.config_spec().decimals as nat,
            leverage as nat,
        ) == Some(0u128),
    ensures
        open_position_spec(
            engine,
            market,
            now,
            block_height,
            position.vamm,
            position.trader,
            side,
            quote_asset_amount,
            leverage,
        ) == Ok::<Settled, ContractError>(
            Settled {
                position: Position { size: 0, margin: 0, notional: 0, timestamp: now, ..position },
                action: Action::Transfer { recipient: position.trader, amount: position.margin },
                quote_asset_reserve: priced_reserve(
                    position.direction,
                    market.state_spec().quote_asset_reserve,
                    value,
                ) as u128,
                base_asset_reserve: moved_reserve(
                    position.direction,
                    market.state_spec().base_asset_reserve,
                    position.size,
                ) as u128,
            },
        ),
{
}

/// A request on the opposite side of an open position whose notional
/// exceeds the position's present value leaves, in one step, a position
/// that reflects the excess alone: its size is what the second swap
/// delivered for the excess, its notional is the excess and its margin the
/// excess divided by the leverage, which the trader owes. This holds where
/// that margin does not round to zero.
pub proof fn lemma_open_opposite_leaves_excess(
    engine: &Engine,
    market: &Vamm,
    now: u64,
    block_height: u64,
    position: Position,
    side: Side,
    quote_asset_amount: u128,
    leverage: u128,
    swap: Swap,
    value: u128,
    margin: u128,
    size: u128,
)
    requires
        engine.position_spec(position.vamm@, position.trader@) == Some(position),
        position.size > 0,
        position.direction != crate::engine::side_to_direction_spec(side),
        engine.open_position_spec(
            market,
            now,
            position.vamm,
            position.trader,
            side,
            quote_asset_amount,
            leverage,
        ) == Ok::<Swap, ContractError>(swap),
        !clock_runs_backwards(market.snapshots_spec(), now, block_height),
        market.query_output_price_spec(position.direction, position.size) == Ok::<
            u128,
            ContractError,
        >(value),
        value < swap.open_notional,
        crate::math::mul_div_spec(
            (swap.open_notional - value) as nat,
            engine.config_spec().decimals as nat,
            leverage as nat,
        ) == Some(margin),
        margin > 0,
        input_price_spec(
            crate::engine::side_to_direction_spec(side),
            (swap.open_notional - value) as nat,
            priced_reserve(
                position.direction,
                market.state_spec().quote_asset_reserve,
                value,
            ) as nat,
            moved_reserve(
                position.direction,
                market.state_spec().base_asset_reserve,
                position.size,
            ) as nat,
        ) == Ok::<u128, ContractError>(size),
    ensures
        ({
            let excess = (swap.open_notional - value) as u128;
            let direction = crate::engine::side_to_direction_spec(side);
            let quote_between = priced_reserve(
                position.direction,
                market.state_spec().quote_asset_reserve,
                value,
            ) as u128;
            let base_between = moved_reserve(
                position.direction,
                market.state_spec().base_asset_reserve,
                position.size,
            ) as u128;
            open_position_spec(
                engine,
                market,
                now,
                block_height,
                position.vamm,
                position.trader,
                side,
                quote_asset_amount,
                leverage,
            ) == Ok::<Settled, ContractError>(
                Settled {
                    position: Position {
                        size,
                        notional: excess,
                        margin,
                        direction,
                        timestamp: now,
                        ..position
                    },
                    action: Action::TransferFrom { owner: position.trader, amount: margin },
                    quote_asset_reserve: moved_reserve(direction, quote_between, excess) as u128,
                    base_asset_reserve: priced_reserve(direction, base_between, size) as u128,
                },
            )
        }),
{
    let quote = market.state_spec().quote_asset_reserve;
    let base = market.state_spec().base_asset_reserve;
    let decimals = engine.config_spec().decimals;
    let direction = crate::engine::side_to_direction_spec(side);
    let excess = (swap.open_notional - value) as u128;
    let base_between = moved_reserve(position.direction, base, position.size);
    lemma_reserve_after_range(base as nat, quote as nat, base_between as nat);
    let first = Priced {
        output: value,
        quote_asset_reserve: priced_reserve(position.direction, quote, value) as u128,
        base_asset_reserve: base_between as u128,
    };
    assert(swap.kind == crate::engine::SwapKind::Reverse);
    assert(swap_outcome_spec(swap_action_spec(swap, position), quote, base) == Ok::<
        Priced,
        ContractError,
    >(first));
    let next = Swap { open_notional: excess, kind: crate::engine::SwapKind::Increase, ..swap };
    let cleared = Position { size: 0, margin: 0, notional: 0, timestamp: now, ..position };
    let done = Reconciled {
        position: cleared,
        pending: Some(next),
        action: Action::SwapInput {
            vamm: swap.vamm,
            direction,
            quote_asset_amount: excess,
            kind: crate::engine::SwapKind::Increase,
        },
    };
    assert(reconcile_spec(position, swap, value, decimals, now) == Ok::<
        Reconciled,
        ContractError,
    >(done));
    lemma_reserve_after_range(
        first.quote_asset_reserve as nat,
        first.base_asset_reserve as nat,
        moved_reserve(direction, first.quote_asset_reserve, excess) as nat,
    );
    let second = Priced {
        output: size,
        quote_asset_reserve: moved_reserve(direction, first.quote_asset_reserve, excess) as u128,
        base_asset_reserve: priced_reserve(direction, first.base_asset_reserve, size) as u128,
    };
    assert(swap_outcome_spec(done.action, first.quote_asset_reserve, first.base_asset_reserve)
        == Ok::<Priced, ContractError>(second));
    assert(reconcile_spec(cleared, next, size, decimals, now) == Ok::<Reconciled, ContractError>(
        Reconciled {
            position: Position {
                size,
                notional: excess,
                margin,
                direction,
                timestamp: now,
                ..position
            },
            pending: None,
            action: Action::TransferFrom { owner: position.trader, amount: margin },
        },
    ));
}

/// Two changes of the reserves in one block leave the history as the second
/// change alone would have left it.
pub proof fn lemma_one_snapshot_for_a_block(
    history: Seq<crate::vamm::ReserveSnapshot>,
    first_quote: u128,
    first_base: u128,
    quote: u128,
    base: u128,
    now: u64,
    block_height: u64,
)
    requires
        history.len() > 0,
    ensures
        record_snapshot(
            record_snapshot(history, first_quote, first_base, now, block_height),
            quote,
            base,
            now,
            block_height,
        ) == record_snapshot(history, quote, base, now, block_height),
{
    let once = record_snapshot(history, first_quote, first_base, now, block_height);
    assert(once.len() > 0);
    assert(record_snapshot(once, quote, base, now, block_height) =~= record_snapshot(
        history,
        quote,
        base,
        now,
        block_height,
    ));
}

} // verus!

//! The margin engine: the ledger of positions and the state machine that
//! turns a trader's request into a swap and the swap's result into a
//! position.
use crate::error::ContractError;
use crate::math::{
    lemma_pow10_grows, mul_div, mul_div_spec, parse_decimal, parse_decimal_spec, pow10, pow10_spec,
};
use crate::vamm::{output_price_spec, Direction, SignedDecimal, Vamm};
use vstd::prelude::*;

verus! {

/// The side of a request: buying opens or extends a long position.
#[allow(non_camel_case_types)]
#[derive(Clone, Copy, Debug, PartialEq, Eq, Structural)]
pub enum Side {
    BUY,
    SELL,
}

/// From what price the value of a position is taken.
#[derive(Clone, Copy, Debug, PartialEq, Eq, Structural)]
pub enum PnlCalcOption {
    SPOTPRICE,
    TWAP,
    ORACLE,
}

/// What a swap in flight is for.
#[derive(Clone, Copy, Debug, PartialEq, Eq, Structural)]
pub enum SwapKind {
    Increase,
    Decrease,
    Reverse,
    Close,
}

/// Tag of a swap that extends a position.
pub const SWAP_INCREASE_REPLY_ID: u64 = 1;

/// Tag of a swap that reduces a position.
pub const SWAP_DECREASE_REPLY_ID: u64 = 2;

/// Tag of a swap that closes a position on the way to the opposite one.
pub const SWAP_REVERSE_REPLY_ID: u64 = 3;

/// Tag of a swap that closes a position.
pub const SWAP_CLOSE_REPLY_ID: u64 = 4;

/// The direction in which a request on `side` moves the quote asset.
pub open spec fn side_to_direction_spec(side: Side) -> Direction {
    match side {
        Side::BUY => Direction::AddToAmm,
        Side::SELL => Direction::RemoveFromAmm,
    }
}

/// The side whose requests move the quote asset in `direction`.
pub open spec fn direction_to_side_spec(direction: Direction) -> Side {
    match direction {
        Direction::AddToAmm => Side::BUY,
        Direction::RemoveFromAmm => Side::SELL,
    }
}

/// The direction in which a request on `side` moves the quote asset.
pub fn side_to_direction(side: Side) -> (r: Direction)
    ensures
        r == side_to_direction_spec(side),
{
    match side {
        Side::BUY => Direction::AddToAmm,
        Side::SELL => Direction::RemoveFromAmm,
    }
}

/// The side whose requests move the quote asset in `direction`.
pub fn direction_to_side(direction: Direction) -> (r: Side)
    ensures
        r == direction_to_side_spec(direction),
{
    match direction {
        Direction::AddToAmm => Side::BUY,
        Direction::RemoveFromAmm => Side::SELL,
    }
}

/// The static parameters of the engine.
#[derive(Clone, Debug, PartialEq, Eq)]
pub struct Config {
    pub owner: String,
    /// The token that margin is paid in.
    pub eligible_collateral: String,
    /// The mantissa of one whole unit.
    pub decimals: u128,
    pub initial_margin_ratio: u128,
    pub maintenance_margin_ratio: u128,
    pub liquidation_fee: u128,
}

/// The markets that the engine trades against.
#[derive(Clone, Debug, PartialEq, Eq)]
pub struct VammList {
    pub vamm: Vec<String>,
}

/// Whether `addr` is among `list`.
pub open spec fn is_listed(list: Seq<String>, addr: Seq<char>) -> bool {
    exists|i: int| 0 <= i < list.len() && (#[trigger] list[i])@ == addr
}

impl VammList {
    /// Whether `addr` is a registered market.
    pub fn is_vamm(&self, addr: &str) -> (r: bool)
        ensures
            r == is_listed(self.vamm@, addr@),
    {
        let mut i: usize = 0;
        while i < self.vamm.len()
            invariant
                i <= self.vamm.len(),
                forall|j: int| 0 <= j < i ==> (#[trigger] self.vamm@[j])@ != addr@,
            decreases self.vamm.len() - i,
        {
            if crate::text::str_eq(self.vamm[i].as_str(), addr) {
                return true;
            }
            i = i + 1;
        }
        false
    }
}

/// A trader's exposure to one market.
#[derive(Clone, Debug, PartialEq, Eq)]
pub struct Position {
    pub vamm: String,
    pub trader: String,
    pub direction: Direction,
    pub size: u128,
    pub margin: u128,
    pub notional: u128,
    pub premium_fraction: u128,
    pub liquidity_history_index: u128,
    pub timestamp: u64,
}

impl Default for Position {
    /// A position of nobody in no market: nothing, towards the pool, dated
    /// zero.
    fn default() -> (r: Position)
        ensures
            r.vamm@ == Seq::<char>::empty(),
            r.trader@ == Seq::<char>::empty(),
            r.direction == Direction::AddToAmm,
            r.size == 0,
            r.margin == 0,
            r.notional == 0,
            r.premium_fraction == 0,
            r.liquidity_history_index == 0,
            r.timestamp == 0,
    {
        Position {
            vamm: String::new(),
            trader: String::new(),
            direction: Direction::AddToAmm,
            size: 0,
            margin: 0,
            notional: 0,
            premium_fraction: 0,
            liquidity_history_index: 0,
            timestamp: 0,
        }
    }
}

impl Position {
    /// Whether this is the position of `trader` in the market `vamm`.
    pub open spec fn is_for(&self, vamm: Seq<char>, trader: Seq<char>) -> bool {
        self.vamm@ == vamm && self.trader@ == trader
    }

    /// A copy of the position.
    pub fn duplicate(&self) -> (r: Position)
        ensures
            r == *self,
    {
        Position {
            vamm: self.vamm.clone(),
            trader: self.trader.clone(),
            direction: self.direction,
            size: self.size,
            margin: self.margin,
            notional: self.notional,
            premium_fraction: self.premium_fraction,
            liquidity_history_index: self.liquidity_history_index,
            timestamp: self.timestamp,
        }
    }
}

/// The position that a trader holds before the first request: nothing, in
/// the direction of the request.
pub open spec fn default_position(vamm: String, trader: String, side: Side, now: u64) -> Position {
    Position {
        vamm,
        trader,
        direction: side_to_direction_spec(side),
        size: 0,
        margin: 0,
        notional: 0,
        premium_fraction: 0,
        liquidity_history_index: 0,
        timestamp: now,
    }
}

/// The position with size, margin and notional at zero and the clock at
/// `now`; market, trader and direction stay.
pub open spec fn clear_position_spec(now: u64, position: Position) -> Position {
    Position { size: 0, margin: 0, notional: 0, timestamp: now, ..position }
}

/// Resets the magnitudes of a position and keeps whose it is.
pub fn clear_position(now: u64, position: Position) -> (r: Position)
    ensures
        r == clear_position_spec(now, position),
{
    let mut position = position;
    position.size = 0;
    position.margin = 0;
    position.notional = 0;
    position.timestamp = now;
    position
}

/// A request whose swap is in flight.
#[derive(Clone, Debug, PartialEq, Eq)]
pub struct Swap {
    pub vamm: String,
    pub trader: String,
    pub side: Side,
    pub quote_asset_amount: u128,
    pub leverage: u128,
    pub open_notional: u128,
    /// What the swap is for, which decides how its result is reconciled.
    pub kind: SwapKind,
}

impl Swap {
    /// A copy of the request.
    pub fn duplicate(&self) -> (r: Swap)
        ensures
            r == *self,
    {
        Swap {
            vamm: self.vamm.clone(),
            trader: self.trader.clone(),
            side: self.side,
            quote_asset_amount: self.quote_asset_amount,
            leverage: self.leverage,
            open_notional: self.open_notional,
            kind: self.kind,
        }
    }
}

/// What the engine asks of its surroundings after a step: a swap on a
/// market, whose result comes back to [`Engine::reply`], or a movement of
/// collateral.
#[derive(Clone, Debug, PartialEq, Eq)]
pub enum Action {
    /// Trade `quote_asset_amount` on the market `vamm`.
    SwapInput { vamm: String, direction: Direction, quote_asset_amount: u128, kind: SwapKind },
    /// Trade `base_asset_amount` on the market `vamm`.
    SwapOutput { vamm: String, direction: Direction, base_asset_amount: u128, kind: SwapKind },
    /// Move `amount` of collateral from `owner` to the engine.
    TransferFrom { owner: String, amount: u128 },
    /// Move `amount` of collateral from the engine to `recipient`.
    Transfer { recipient: String, amount: u128 },
    /// Nothing to do.
    Nothing,
}

/// No two positions of a ledger belong to the same trader and market.
pub open spec fn ledger_wf(ps: Seq<Position>) -> bool {
    forall|i: int, j: int|
        0 <= i < j < ps.len() ==> !((#[trigger] ps[i]).is_for(
            (#[trigger] ps[j]).vamm@,
            ps[j].trader@,
        ))
}

/// The position of `trader` in the market `vamm`, if the ledger holds one.
pub open spec fn lookup(ps: Seq<Position>, vamm: Seq<char>, trader: Seq<char>) -> Option<
    Position,
> {
    if exists|i: int| 0 <= i < ps.len() && (#[trigger] ps[i]).is_for(vamm, trader) {
        Some(ps[choose|i: int| 0 <= i < ps.len() && (#[trigger] ps[i]).is_for(vamm, trader)])
    } else {
        None
    }
}

/// In a well-formed ledger the entry found at any index is the entry that
/// [`lookup`] gives.
pub proof fn lemma_lookup_at(ps: Seq<Position>, i: int)
    requires
        ledger_wf(ps),
        0 <= i < ps.len(),
    ensures
        lookup(ps, ps[i].vamm@, ps[i].trader@) == Some(ps[i]),
{
    let vamm = ps[i].vamm@;
    let trader = ps[i].trader@;
    assert(ps[i].is_for(vamm, trader));
    let j = choose|j: int| 0 <= j < ps.len() && (#[trigger] ps[j]).is_for(vamm, trader);
    if i < j {
        assert(!ps[i].is_for(ps[j].vamm@, ps[j].trader@));
    } else if j < i {
        assert(!ps[j].is_for(ps[i].vamm@, ps[i].trader@));
    }
}

/// Whether a request on `side` extends the position: the position is flat
/// or already runs that way.
pub open spec fn is_increase_spec(position: Position, side: Side) -> bool {
    position.size == 0 || position.direction == side_to_direction_spec(side)
}

/// The swap that a request in flight asks of the market. A request that
/// extends or reduces trades its notional on its own side; one that closes,
/// for good or on the way to the opposite position, trades the whole
/// position back in the position's direction.
pub open spec fn swap_action_spec(swap: Swap, position: Position) -> Action {
    match swap.kind {
        SwapKind::Increase | SwapKind::Decrease => Action::SwapInput {
            vamm: swap.vamm,
            direction: side_to_direction_spec(swap.side),
            quote_asset_amount: swap.open_notional,
            kind: swap.kind,
        },
        SwapKind::Reverse | SwapKind::Close => Action::SwapOutput {
            vamm: swap.vamm,
            direction: position.direction,
            base_asset_amount: position.size,
            kind: swap.kind,
        },
    }
}

/// The request that [`Engine::open_position`] puts in flight for a trader
/// whose position is `position`, against a pool of the reserves given. The
/// notional is the quote amount divided by the leverage. A request that
/// does not extend the position reduces it where the position is worth more
/// than the notional, and reverses it otherwise.
pub open spec fn plan_open_spec(
    position: Position,
    vamm: String,
    trader: String,
    side: Side,
    quote_asset_amount: u128,
    leverage: u128,
    decimals: u128,
    quote_asset_reserve: u128,
    base_asset_reserve: u128,
) -> Result<Swap, ContractError> {
    if leverage == 0 {
        Err(ContractError::InvalidRequest)
    } else {
        match mul_div_spec(quote_asset_amount as nat, decimals as nat, leverage as nat) {
            None => Err(ContractError::Overflow),
            Some(open_notional) => {
                let swap = Swap {
                    vamm,
                    trader,
                    side,
                    quote_asset_amount,
                    leverage,
                    open_notional,
                    kind: SwapKind::Increase,
                };
                if is_increase_spec(position, side) {
                    Ok(swap)
                } else {
                    match output_price_spec(
                        position.direction,
                        position.size as nat,
                        quote_asset_reserve as nat,
                        base_asset_reserve as nat,
                    ) {
                        Err(e) => Err(e),
                        Ok(current_notional) => if current_notional > open_notional {
                            Ok(Swap { kind: SwapKind::Decrease, ..swap })
                        } else {
                            Ok(Swap { kind: SwapKind::Reverse, ..swap })
                        },
                    }
                }
            },
        }
    }
}

/// The request that [`Engine::close_position`] puts in flight.
pub open spec fn plan_close_spec(position: Position) -> Swap {
    Swap {
        vamm: position.vamm,
        trader: position.trader,
        side: direction_to_side_spec(position.direction),
        quote_asset_amount: position.size,
        leverage: 0,
        open_notional: position.notional,
        kind: SwapKind::Close,
    }
}

/// What a reconciliation leaves behind: the position to write, the request
/// that stays in flight, and what to ask for next.
pub struct Reconciled {
    pub position: Position,
    pub pending: Option<Swap>,
    pub action: Action,
}

/// The result of a swap that extended a position: size grows by the
/// output, notional by the request's notional, the margin is the notional
/// divided by the leverage, and the trader owes that margin.
pub open spec fn increase_spec(position: Position, swap: Swap, output: u128, decimals: u128)
    -> Result<Reconciled, ContractError> {
    if swap.leverage == 0 {
        Err(ContractError::InvalidRequest)
    } else if position.size + output > u128::MAX || position.notional + swap.open_notional
        > u128::MAX {
        Err(ContractError::Overflow)
    } else {
        match mul_div_spec(
            (position.notional + swap.open_notional) as nat,
            decimals as nat,
            swap.leverage as nat,
        ) {
            None => Err(ContractError::Overflow),
            Some(margin) => Ok(
                Reconciled {
                    position: Position {
                        size: (position.size + output) as u128,
                        notional: (position.notional + swap.open_notional) as u128,
                        direction: side_to_direction_spec(swap.side),
                        margin,
                        ..position
                    },
                    pending: None,
                    action: Action::TransferFrom { owner: swap.trader, amount: margin },
                },
            ),
        }
    }
}

/// The result of a swap that reduced a position: size falls by the output,
/// notional by the request's notional, margin stays and no collateral moves.
pub open spec fn decrease_spec(position: Position, swap: Swap, output: u128) -> Result<
    Reconciled,
    ContractError,
> {
    if output > position.size || swap.open_notional > position.notional {
        Err(ContractError::Overflow)
    } else {
        Ok(
            Reconciled {
                position: Position {
                    size: (position.size - output) as u128,
                    notional: (position.notional - swap.open_notional) as u128,
                    ..position
                },
                pending: None,
                action: Action::Nothing,
            },
        )
    }
}

/// The part of a reversing request that closing the old position did not
/// use up: the distance between the request's notional and what the close
/// returned.
pub open spec fn unconsumed_notional(swap: Swap, output: u128) -> u128 {
    if swap.open_notional > output {
        (swap.open_notional - output) as u128
    } else {
        (output - swap.open_notional) as u128
    }
}

/// The result of the swap that closed a position on the way to the opposite
/// one. The position is cleared. Where the unconsumed notional divided by
/// the leverage rounds to zero, the old margin goes back to the trader and
/// nothing stays in flight; otherwise the request stays in flight as an
/// extension by the unconsumed notional.
pub open spec fn reverse_spec(
    position: Position,
    swap: Swap,
    output: u128,
    decimals: u128,
    now: u64,
) -> Result<Reconciled, ContractError> {
    let unconsumed = unconsumed_notional(swap, output);
    if swap.leverage == 0 {
        Err(ContractError::InvalidRequest)
    } else {
        match mul_div_spec(unconsumed as nat, decimals as nat, swap.leverage as nat) {
            None => Err(ContractError::Overflow),
            Some(margin) => if margin == 0 {
                Ok(
                    Reconciled {
                        position: clear_position_spec(now, position),
                        pending: None,
                        action: Action::Transfer {
                            recipient: swap.trader,
                            amount: position.margin,
                        },
                    },
                )
            } else {
                Ok(
                    Reconciled {
                        position: clear_position_spec(now, position),
                        pending: Some(
                            Swap { open_notional: unconsumed, kind: SwapKind::Increase, ..swap },
                        ),
                        action: Action::SwapInput {
                            vamm: swap.vamm,
                            direction: side_to_direction_spec(swap.side),
                            quote_asset_amount: unconsumed,
                            kind: SwapKind::Increase,
                        },
                    },
                )
            },
        }
    }
}

/// What a closed position pays back: the margin plus the gain or minus the
/// loss. A position that added quote to the pool gains what the close
/// returns above the notional; one that removed quote gains what the close
/// costs below the notional.
pub open spec fn margin_returned_spec(position: Position, swap: Swap, output: u128) -> int {
    match position.direction {
        Direction::AddToAmm => position.margin + output - swap.open_notional,
        Direction::RemoveFromAmm => position.margin + swap.open_notional - output,
    }
}

/// The result of the swap that closed a position: the position is cleared
/// and the trader receives the margin with the gain or loss.
pub open spec fn close_spec(position: Position, swap: Swap, output: u128, now: u64) -> Result<
    Reconciled,
    ContractError,
> {
    let margin_returned = margin_returned_spec(position, swap, output);
    if margin_returned < 0 || margin_returned > u128::MAX {
        Err(ContractError::Overflow)
    } else {
        Ok(
            Reconciled {
                position: clear_position_spec(now, position),
                pending: None,
                action: Action::Transfer {
                    recipient: swap.trader,
                    amount: margin_returned as u128,
                },
            },
        )
    }
}

/// The result of reconciling a swap of the kind given into `position`.
pub open spec fn reconcile_spec(
    position: Position,
    swap: Swap,
    output: u128,
    decimals: u128,
    now: u64,
) -> Result<Reconciled, ContractError> {
    match swap.kind {
        SwapKind::Increase => increase_spec(position, swap, output, decimals),
        SwapKind::Decrease => decrease_spec(position, swap, output),
        SwapKind::Reverse => reverse_spec(position, swap, output, decimals, now),
        SwapKind::Close => close_spec(position, swap, output, now),
    }
}

/// The kind of swap that a reply tag stands for.
pub open spec fn kind_of_reply_id(id: u64) -> Option<SwapKind> {
    if id == SWAP_INCREASE_REPLY_ID {
        Some(SwapKind::Increase)
    } else if id == SWAP_DECREASE_REPLY_ID {
        Some(SwapKind::Decrease)
    } else if id == SWAP_REVERSE_REPLY_ID {
        Some(SwapKind::Reverse)
    } else if id == SWAP_CLOSE_REPLY_ID {
        Some(SwapKind::Close)
    } else {
        None
    }
}

/// The value of a position and its gain or loss against the notional on
/// record.
#[derive(Clone, Copy, Debug, PartialEq, Eq, Structural)]
pub struct PositionUnrealizedPnlResponse {
    pub position_notional: u128,
    pub unrealized_pnl: SignedDecimal,
}

/// `a - b` as a signed number.
pub open spec fn signed_difference(a: u128, b: u128) -> SignedDecimal {
    if a >= b {
        SignedDecimal { magnitude: (a - b) as u128, negative: false }
    } else {
        SignedDecimal { magnitude: (b - a) as u128, negative: true }
    }
}

/// The value of a position and its unrealized gain or loss, against a pool
/// of the reserves given. An empty position is worth nothing and has gained
/// nothing. Otherwise the value at the spot price is the quote amount that
/// the whole position trades back for; the other options give no value. A
/// position that added quote to the pool has gained the value less the
/// notional on record, one that removed quote the notional less the value.
pub open spec fn unrealized_pnl_spec(
    position: Position,
    calc_option: PnlCalcOption,
    quote_asset_reserve: u128,
    base_asset_reserve: u128,
) -> Result<PositionUnrealizedPnlResponse, ContractError> {
    let priced = match calc_option {
        PnlCalcOption::SPOTPRICE => output_price_spec(
            position.direction,
            position.size as nat,
            quote_asset_reserve as nat,
            base_asset_reserve as nat,
        ),
        _ => Ok(0u128),
    };
    if position.size == 0 {
        Ok(
            PositionUnrealizedPnlResponse {
                position_notional: 0,
                unrealized_pnl: SignedDecimal { magnitude: 0, negative: false },
            },
        )
    } else {
        match priced {
            Err(e) => Err(e),
            Ok(position_notional) => Ok(
                PositionUnrealizedPnlResponse {
                    position_notional,
                    unrealized_pnl: if position.direction == Direction::RemoveFromAmm {
                        signed_difference(position.notional, position_notional)
                    } else {
                        signed_difference(position_notional, position.notional)
                    },
                },
            ),
        }
    }
}

/// `a - b` as a signed number.
fn signed_sub(a: u128, b: u128) -> (r: SignedDecimal)
    ensures
        r == signed_difference(a, b),
        r.value() == a - b,
{
    if a >= b {
        SignedDecimal { magnitude: a - b, negative: false }
    } else {
        SignedDecimal { magnitude: b - a, negative: true }
    }
}

/// The value of a position in the market `vamm` and its unrealized gain or
/// loss.
pub fn get_position_notional_unrealized_pnl(
    vamm: &Vamm,
    position: &Position,
    calc_option: PnlCalcOption,
) -> (r: Result<PositionUnrealizedPnlResponse, ContractError>)
    ensures
        r == unrealized_pnl_spec(
            *position,
            calc_option,
            vamm.state_spec().quote_asset_reserve,
            vamm.state_spec().base_asset_reserve,
        ),
{
    let mut position_notional: u128 = 0;
    let mut unrealized_pnl = SignedDecimal::zero();
    if position.size != 0 {
        match calc_option {
            PnlCalcOption::TWAP => {},
            PnlCalcOption::SPOTPRICE => {
                position_notional = match vamm.query_output_price(
                    position.direction,
                    position.size,
                ) {
                    Ok(v) => v,
                    Err(e) => {
                        return Err(e);
                    },
                };
            },
            PnlCalcOption::ORACLE => {},
        }
        if position.direction == Direction::RemoveFromAmm {
            unrealized_pnl = signed_sub(position.notional, position_notional);
        } else {
            unrealized_pnl = signed_sub(position_notional, position.notional);
        }
    }
    Ok(PositionUnrealizedPnlResponse { position_notional, unrealized_pnl })
}

/// Extending a position twice on the same side adds up: size and notional
/// after the second step are the sums of what both steps brought, and the
/// margin after each step is the whole notional so far divided by that
/// step's leverage.
pub proof fn lemma_increase_twice_accumulates(
    position: Position,
    first: Swap,
    first_output: u128,
    second: Swap,
    second_output: u128,
    decimals: u128,
)
    requires
        first.side == second.side,
        increase_spec(position, first, first_output, decimals) is Ok,
        increase_spec(
            increase_spec(position, first, first_output, decimals)->Ok_0.position,
            second,
            second_output,
            decimals,
        ) is Ok,
    ensures
        ({
            let once = increase_spec(position, first, first_output, decimals)->Ok_0.position;
            let twice = increase_spec(once, second, second_output, decimals)->Ok_0.position;
            &&& once.size == position.size + first_output
            &&& once.notional == position.notional + first.open_notional
            &&& Some(once.margin) == mul_div_spec(
                once.notional as nat,
                decimals as nat,
                first.leverage as nat,
            )
            &&& twice.size == position.size + first_output + second_output
            &&& twice.notional == position.notional + first.open_notional + second.open_notional
            &&& Some(twice.margin) == mul_div_spec(
                twice.notional as nat,
                decimals as nat,
                second.leverage as nat,
            )
            &&& twice.direction == side_to_direction_spec(first.side)
        }),
{
}

/// A request against an open position, on the opposite side, whose notional
/// is the position's present value (or exceeds it by so little that the
/// excess divided by the leverage rounds to zero) flattens the position.
/// The request is classed as a reversal, the swap trades the whole position
/// back, and the reconciliation leaves size, margin and notional at zero,
/// nothing in flight, and the old margin on its way to the trader.
pub proof fn lemma_equal_opposite_request_flattens(
    position: Position,
    market: Vamm,
    side: Side,
    quote_asset_amount: u128,
    leverage: u128,
    decimals: u128,
    now: u64,
    block_height: u64,
    swap: Swap,
    value: u128,
)
    requires
        position.size > 0,
        position.direction != side_to_direction_spec(side),
        plan_open_spec(
            position,
            position.vamm,
            position.trader,
            side,
            quote_asset_amount,
            leverage,
            decimals,
            market.state_spec().quote_asset_reserve,
            market.state_spec().base_asset_reserve,
        ) == Ok::<Swap, ContractError>(swap),
        market.query_output_price_spec(position.direction, position.size) == Ok::<
            u128,
            ContractError,
        >(value),
        value <= swap.open_notional,
        mul_div_spec((swap.open_notional - value) as nat, decimals as nat, leverage as nat)
            == Some(0u128),
        !crate::vamm::clock_runs_backwards(market.snapshots_spec(), now, block_height),
    ensures
        swap.kind == SwapKind::Reverse,
        swap_action_spec(swap, position) == (Action::SwapOutput {
            vamm: position.vamm,
            direction: position.direction,
            base_asset_amount: position.size,
            kind: SwapKind::Reverse,
        }),
        market.swap_output_spec(position.direction, position.size, now, block_height) == Ok::<
            crate::vamm::SwapResult,
            ContractError,
        >(crate::vamm::SwapResult { input: position.size, output: value }),
        reverse_spec(position, swap, value, decimals, now) == Ok::<Reconciled, ContractError>(
            Reconciled {
                position: Position { size: 0, margin: 0, notional: 0, timestamp: now, ..position },
                pending: None,
                action: Action::Transfer { recipient: position.trader, amount: position.margin },
            },
        ),
{
}

/// A request against an open position, on the opposite side, whose notional
/// exceeds the position's present value leaves a position that reflects the
/// excess alone. The reversal clears the old position and keeps the request
/// in flight as an extension by the unconsumed notional; once that
/// extension is reconciled, the size is what the second swap delivered, the
/// notional is the unconsumed notional and the margin is that notional
/// divided by the leverage. This holds where that margin does not round to
/// zero.
pub proof fn lemma_reverse_leaves_unconsumed_notional(
    position: Position,
    swap: Swap,
    value: u128,
    second_output: u128,
    decimals: u128,
    now: u64,
    margin: u128,
)
    requires
        swap.kind == SwapKind::Reverse,
        swap.leverage > 0,
        value < swap.open_notional,
        mul_div_spec(
            (swap.open_notional - value) as nat,
            decimals as nat,
            swap.leverage as nat,
        ) == Some(margin),
        margin > 0,
    ensures
        ({
            let unconsumed = (swap.open_notional - value) as u128;
            let next = Swap { open_notional: unconsumed, kind: SwapKind::Increase, ..swap };
            let cleared = clear_position_spec(now, position);
            &&& reverse_spec(position, swap, value, decimals, now) == Ok::<
                Reconciled,
                ContractError,
            >(
                Reconciled {
                    position: cleared,
                    pending: Some(next),
                    action: Action::SwapInput {
                        vamm: swap.vamm,
                        direction: side_to_direction_spec(swap.side),
                        quote_asset_amount: unconsumed,
                        kind: SwapKind::Increase,
                    },
                },
            )
            &&& increase_spec(cleared, next, second_output, decimals) == Ok::<
                Reconciled,
                ContractError,
            >(
                Reconciled {
                    position: Position {
                        size: second_output,
                        notional: unconsumed,
                        margin,
                        direction: side_to_direction_spec(swap.side),
                        timestamp: now,
                        ..position
                    },
                    pending: None,
                    action: Action::TransferFrom { owner: swap.trader, amount: margin },
                },
            )
        }),
{
}

/// The engine: parameters, registered markets, the ledger of positions and
/// the one request that may be in flight.
pub struct Engine {
    config: Config,
    vamm_list: VammList,
    positions: Vec<Position>,
    tmp_swap: Option<Swap>,
}

impl Engine {
    /// The engine's parameters.
    pub closed spec fn config_spec(&self) -> Config {
        self.config
    }

    /// The registered markets.
    pub closed spec fn vamm_list_spec(&self) -> Seq<String> {
        self.vamm_list.vamm@
    }

    /// The ledger, in no particular order.
    pub closed spec fn positions_spec(&self) -> Seq<Position> {
        self.positions@
    }

    /// The request in flight.
    pub closed spec fn tmp_swap_spec(&self) -> Option<Swap> {
        self.tmp_swap
    }

    /// The position of `trader` in the market `vamm`, if there is one.
    pub open spec fn position_spec(&self, vamm: Seq<char>, trader: Seq<char>) -> Option<
        Position,
    > {
        lookup(self.positions_spec(), vamm, trader)
    }

    /// What every engine built by this module satisfies: a positive scale
    /// and at most one position for each trader and market.
    pub open spec fn wf(&self) -> bool {
        &&& self.config_spec().decimals > 0
        &&& ledger_wf(self.positions_spec())
    }

    /// An engine with an empty ledger. `decimals` is the number of
    /// fractional digits of every amount.
    pub fn new(
        owner: String,
        eligible_collateral: String,
        decimals: u8,
        initial_margin_ratio: u128,
        maintenance_margin_ratio: u128,
        liquidation_fee: u128,
        vamm: Vec<String>,
    ) -> (r: Result<Engine, ContractError>)
        ensures
            r is Err <==> pow10_spec(decimals as nat) > u128::MAX,
            r matches Err(e) ==> e == ContractError::Overflow,
            r matches Ok(engine) ==> {
                &&& engine.wf()
                &&& engine.config_spec() == (Config {
                    owner,
                    eligible_collateral,
                    decimals: pow10_spec(decimals as nat) as u128,
                    initial_margin_ratio,
                    maintenance_margin_ratio,
                    liquidation_fee,
                })
                &&& engine.vamm_list_spec() == vamm@
                &&& engine.positions_spec() == Seq::<Position>::empty()
                &&& engine.tmp_swap_spec() is None
            },
    {
        let scale: u128 = match pow10(decimals) {
            Some(v) => v,
            None => {
                return Err(ContractError::Overflow);
            },
        };
        proof {
            lemma_pow10_grows(0, decimals as nat);
        }
        Ok(
            Engine {
                config: Config {
                    owner,
                    eligible_collateral,
                    decimals: scale,
                    initial_margin_ratio,
                    maintenance_margin_ratio,
                    liquidation_fee,
                },
                vamm_list: VammList { vamm },
                positions: Vec::new(),
                tmp_swap: None,
            },
        )
    }

    /// Puts an engine together from its parameters, its markets, its ledger
    /// and the request in flight, as they were read from storage. A scale of
    /// zero, or a ledger with two positions of one trader in one market, is
    /// an invalid request.
    pub fn from_parts(
        config: Config,
        vamm_list: VammList,
        positions: Vec<Position>,
        tmp_swap: Option<Swap>,
    ) -> (r: Result<Engine, ContractError>)
        ensures
            r is Ok <==> config.decimals > 0 && ledger_wf(positions@),
            r matches Err(e) ==> e == ContractError::InvalidRequest,
            r matches Ok(engine) ==> {
                &&& engine.wf()
                &&& engine.config_spec() == config
                &&& engine.vamm_list_spec() == vamm_list.vamm@
                &&& engine.positions_spec() == positions@
                &&& engine.tmp_swap_spec() == tmp_swap
            },
    {
        if config.decimals == 0 {
            return Err(ContractError::InvalidRequest);
        }
        let mut j: usize = 0;
        while j < positions.len()
            invariant
                j <= positions@.len(),
                forall|a: int, b: int|
                    0 <= a < b < j ==> !((#[trigger] positions@[a]).is_for(
                        (#[trigger] positions@[b]).vamm@,
                        positions@[b].trader@,
                    )),
            decreases positions@.len() - j,
        {
            let mut i: usize = 0;
            while i < j
                invariant
                    i <= j < positions@.len(),
                    forall|a: int|
                        0 <= a < i ==> !((#[trigger] positions@[a]).is_for(
                            positions@[j as int].vamm@,
                            positions@[j as int].trader@,
                        )),
                decreases j - i,
            {
                if crate::text::str_eq(positions[i].vamm.as_str(), positions[j].vamm.as_str())
                    && crate::text::str_eq(
                    positions[i].trader.as_str(),
                    positions[j].trader.as_str(),
                ) {
                    assert(positions@[i as int].is_for(
                        positions@[j as int].vamm@,
                        positions@[j as int].trader@,
                    ));
                    return Err(ContractError::InvalidRequest);
                }
                i = i + 1;
            }
            j = j + 1;
        }
        Ok(Engine { config, vamm_list, positions, tmp_swap })
    }

    /// The ledger, in no particular order.
    pub fn positions(&self) -> (r: &Vec<Position>)
        ensures
            r@ == self.positions_spec(),
    {
        &self.positions
    }

    /// Puts a request in flight, in place of any earlier one.
    pub fn store_tmp_swap(&mut self, swap: Swap)
        ensures
            final(self).tmp_swap_spec() == Some(swap),
            final(self).config_spec() == old(self).config_spec(),
            final(self).vamm_list_spec() == old(self).vamm_list_spec(),
            final(self).positions_spec() == old(self).positions_spec(),
    {
        self.tmp_swap = Some(swap);
    }

    /// Drops the request in flight.
    pub fn remove_tmp_swap(&mut self)
        ensures
            final(self).tmp_swap_spec() is None,
            final(self).config_spec() == old(self).config_spec(),
            final(self).vamm_list_spec() == old(self).vamm_list_spec(),
            final(self).positions_spec() == old(self).positions_spec(),
    {
        self.tmp_swap = None;
    }

    /// Registers `input` as the markets of the engine, in place of the
    /// markets so far.
    pub fn store_vamm(&mut self, input: Vec<String>)
        ensures
            final(self).vamm_list_spec() == input@,
            final(self).config_spec() == old(self).config_spec(),
            final(self).positions_spec() == old(self).positions_spec(),
            final(self).tmp_swap_spec() == old(self).tmp_swap_spec(),
    {
        self.vamm_list = VammList { vamm: input };
    }

    /// The engine's parameters.
    pub fn read_config(&self) -> (r: &Config)
        ensures
            *r == self.config_spec(),
    {
        &self.config
    }

    /// The registered markets.
    pub fn read_vamm(&self) -> (r: &VammList)
        ensures
            r.vamm@ == self.vamm_list_spec(),
    {
        &self.vamm_list
    }

    /// The request in flight, if any.
    pub fn read_tmp_swap(&self) -> (r: Option<Swap>)
        ensures
            r == self.tmp_swap_spec(),
    {
        match &self.tmp_swap {
            Some(swap) => Some(swap.duplicate()),
            None => None,
        }
    }

    /// Hands the ownership of the engine to `owner`. Only the present owner
    /// may do so.
    pub fn update_config(&mut self, sender: &str, owner: String) -> (r: Result<(), ContractError>)
        ensures
            r is Err <==> sender@ != old(self).config_spec().owner@,
            r matches Err(e) ==> e == ContractError::Unauthorized && *final(self) == *old(self),
            r is Ok ==> {
                &&& final(self).config_spec() == (Config { owner, ..old(self).config_spec() })
                &&& final(self).vamm_list_spec() == old(self).vamm_list_spec()
                &&& final(self).positions_spec() == old(self).positions_spec()
                &&& final(self).tmp_swap_spec() == old(self).tmp_swap_spec()
            },
    {
        if !crate::text::str_eq(sender, self.config.owner.as_str()) {
            return Err(ContractError::Unauthorized);
        }
        self.config.owner = owner;
        Ok(())
    }

    /// Where in the ledger the position of `trader` in `vamm` stands.
    fn find_position(&self, vamm: &str, trader: &str) -> (r: Option<usize>)
        ensures
            match r {
                Some(i) => i < self.positions_spec().len()
                    && self.positions_spec()[i as int].is_for(vamm@, trader@),
                None => forall|j: int|
                    0 <= j < self.positions_spec().len() ==> !(
                    #[trigger] self.positions_spec()[j]).is_for(vamm@, trader@),
            },
    {
        let mut i: usize = 0;
        while i < self.positions.len()
            invariant
                i <= self.positions.len(),
                forall|j: int|
                    0 <= j < i ==> !(#[trigger] self.positions@[j]).is_for(vamm@, trader@),
            decreases self.positions.len() - i,
        {
            if crate::text::str_eq(self.positions[i].vamm.as_str(), vamm) && crate::text::str_eq(
                self.positions[i].trader.as_str(),
                trader,
            ) {
                return Some(i);
            }
            i = i + 1;
        }
        None
    }

    /// The position of `trader` in the market `vamm`, if there is one.
    pub fn read_position(&self, vamm: &str, trader: &str) -> (r: Option<Position>)
        requires
            self.wf(),
        ensures
            r == self.position_spec(vamm@, trader@),
    {
        match self.find_position(vamm, trader) {
            Some(i) => {
                proof {
                    lemma_lookup_at(self.positions@, i as int);
                }
                Some(self.positions[i].duplicate())
            },
            None => None,
        }
    }

    /// Writes a position into the ledger, in place of the one that the same
    /// trader held in the same market, if any.
    pub fn store_position(&mut self, position: Position)
        requires
            old(self).wf(),
        ensures
            final(self).wf(),
            final(self).config_spec() == old(self).config_spec(),
            final(self).vamm_list_spec() == old(self).vamm_list_spec(),
            final(self).tmp_swap_spec() == old(self).tmp_swap_spec(),
            final(self).position_spec(position.vamm@, position.trader@) == Some(position),
            forall|vamm: Seq<char>, trader: Seq<char>|
                !position.is_for(vamm, trader) ==> #[trigger] final(self).position_spec(
                    vamm,
                    trader,
                ) == old(self).position_spec(vamm, trader),
    {
        let ghost before = self.positions@;
        let found = self.find_position(position.vamm.as_str(), position.trader.as_str());
        match found {
            Some(i) => {
                self.positions.set(i, position);
            },
            None => {
                self.positions.push(position);
            },
        }
        proof {
            let after = self.positions@;
            let at: int = match found {
                Some(i) => i as int,
                None => before.len() as int,
            };
            assert(after[at] == position);
            assert forall|j: int| 0 <= j < after.len() && j != at implies #[trigger] after[j]
                == before[j] && !after[j].is_for(position.vamm@, position.trader@) by {
                if found is Some {
                    let i = found->0 as int;
                    if j < i {
                        assert(!before[j].is_for(before[i].vamm@, before[i].trader@));
                    } else {
                        assert(!before[i].is_for(before[j].vamm@, before[j].trader@));
                    }
                }
            }
            assert(ledger_wf(after)) by {
                assert forall|i: int, j: int| 0 <= i < j < after.len() implies !(
                #[trigger] after[i]).is_for((#[trigger] after[j]).vamm@, after[j].trader@) by {
                    if i != at && j != at {
                        assert(!before[i].is_for(before[j].vamm@, before[j].trader@));
                    }
                }
            }
            lemma_lookup_at(after, at);
            assert forall|vamm: Seq<char>, trader: Seq<char>|
                !position.is_for(vamm, trader) implies lookup(after, vamm, trader) == lookup(
                before,
                vamm,
                trader,
            ) by {
                if exists|i: int|
                    0 <= i < before.len() && (#[trigger] before[i]).is_for(vamm, trader) {
                    let i = choose|i: int|
                        0 <= i < before.len() && (#[trigger] before[i]).is_for(vamm, trader);
                    assert(i != at);
                    assert(after[i] == before[i]);
                    lemma_lookup_at(after, i);
                    lemma_lookup_at(before, i);
                } else {
                    assert forall|i: int| 0 <= i < after.len() implies !(
                    #[trigger] after[i]).is_for(vamm, trader) by {
                        if i != at {
                            assert(after[i] == before[i]);
                        }
                    }
                }
            }
        }
    }

    /// What [`Engine::get_position`] returns.
    pub open spec fn get_position_spec(
        &self,
        now: u64,
        vamm: String,
        trader: String,
        side: Side,
    ) -> Position {
        match self.position_spec(vamm@, trader@) {
            Some(p) => p,
            None => default_position(vamm, trader, side, now),
        }
    }

    /// The position of `trader` in the market `vamm`; where the ledger has
    /// none, an empty one in the direction of `side`, dated `now`.
    pub fn get_position(&self, now: u64, vamm: &String, trader: &String, side: Side) -> (r:
        Position)
        requires
            self.wf(),
        ensures
            r == self.get_position_spec(now, *vamm, *trader, side),
    {
        let mut position = Position::default();
        // so if the ledger has none then it is new
        if let Some(current_position) = self.read_position(vamm.as_str(), trader.as_str()) {
            position = current_position;
        } else {
            position.vamm = vamm.clone();
            position.trader = trader.clone();
            position.direction = side_to_direction(side);
            position.timestamp = now;
        }
        position
    }

    /// What [`Engine::open_position`] puts in flight.
    pub open spec fn open_position_spec(
        &self,
        vamm: &Vamm,
        now: u64,
        vamm_addr: String,
        trader: String,
        side: Side,
        quote_asset_amount: u128,
        leverage: u128,
    ) -> Result<Swap, ContractError> {
        if !is_listed(self.vamm_list_spec(), vamm_addr@) {
            Err(ContractError::InvalidRequest)
        } else {
            plan_open_spec(
                self.get_position_spec(now, vamm_addr, trader, side),
                vamm_addr,
                trader,
                side,
                quote_asset_amount,
                leverage,
                self.config_spec().decimals,
                vamm.state_spec().quote_asset_reserve,
                vamm.state_spec().base_asset_reserve,
            )
        }
    }

    /// How the engine stands after a request that was put in flight as
    /// `swap` for a trader whose position is `position`: nothing but the
    /// request in flight has changed, and `action` is the swap to make.
    pub open spec fn in_flight(
        &self,
        before: &Engine,
        swap: Swap,
        position: Position,
        action: Action,
    ) -> bool {
        &&& action == swap_action_spec(swap, position)
        &&& self.tmp_swap_spec() == Some(swap)
        &&& self.config_spec() == before.config_spec()
        &&& self.vamm_list_spec() == before.vamm_list_spec()
        &&& self.positions_spec() == before.positions_spec()
    }

    /// How the engine stands after [`Engine::open_position`] returned `r`:
    /// unchanged where the request was refused, and with the request in
    /// flight otherwise.
    pub open spec fn opened(
        &self,
        before: &Engine,
        vamm: &Vamm,
        now: u64,
        vamm_addr: String,
        trader: String,
        side: Side,
        quote_asset_amount: u128,
        leverage: u128,
        r: Result<Action, ContractError>,
    ) -> bool {
        match before.open_position_spec(
            vamm,
            now,
            vamm_addr,
            trader,
            side,
            quote_asset_amount,
            leverage,
        ) {
            Err(e) => r == Err::<Action, ContractError>(e) && *self == *before,
            Ok(swap) => r matches Ok(action) && self.in_flight(
                before,
                swap,
                before.get_position_spec(now, vamm_addr, trader, side),
                action,
            ),
        }
    }

    /// How the engine stands after [`Engine::close_position`] returned `r`:
    /// unchanged where the trader has no position in the market, and with
    /// the closing request in flight otherwise.
    pub open spec fn closed(
        &self,
        before: &Engine,
        vamm_addr: String,
        trader: String,
        r: Result<Action, ContractError>,
    ) -> bool {
        match before.position_spec(vamm_addr@, trader@) {
            None => r == Err::<Action, ContractError>(ContractError::InvalidRequest) && *self
                == *before,
            Some(position) => r matches Ok(action) && self.in_flight(
                before,
                plan_close_spec(position),
                position,
                action,
            ),
        }
    }

    /// Decides what a request to open exposure asks of the market, without
    /// changing anything.
    pub fn plan_open(
        &self,
        vamm: &Vamm,
        now: u64,
        vamm_addr: &String,
        trader: &String,
        side: Side,
        quote_asset_amount: u128,
        leverage: u128,
    ) -> (r: Result<Swap, ContractError>)
        requires
            self.wf(),
        ensures
            r == self.open_position_spec(
                vamm,
                now,
                *vamm_addr,
                *trader,
                side,
                quote_asset_amount,
                leverage,
            ),
    {
        if !self.vamm_list.is_vamm(vamm_addr.as_str()) {
            return Err(ContractError::InvalidRequest);
        }
        if leverage == 0 {
            return Err(ContractError::InvalidRequest);
        }
        let decimals: u128 = self.config.decimals;
        let open_notional: u128 = match mul_div(quote_asset_amount, decimals, leverage) {
            Some(v) => v,
            None => {
                return Err(ContractError::Overflow);
            },
        };
        let position = self.get_position(now, vamm_addr, trader, side);
        let is_increase: bool = position.size == 0 || position.direction == side_to_direction(
            side,
        );
        let kind: SwapKind;
        if is_increase {
            kind = SwapKind::Increase;
        } else {
            kind = match open_reverse_position(vamm, &position, open_notional) {
                Ok(k) => k,
                Err(e) => {
                    return Err(e);
                },
            };
        }
        Ok(
            Swap {
                vamm: vamm_addr.clone(),
                trader: trader.clone(),
                side,
                quote_asset_amount,
                leverage,
                open_notional,
                kind,
            },
        )
    }

    /// Takes a request to open exposure of `quote_asset_amount` at
    /// `leverage` on `side`, in the market `vamm` that is registered under
    /// `vamm_addr`. It decides whether the request extends, reduces or
    /// reverses the trader's position, puts the request in flight in place
    /// of any earlier one, and returns the swap to make.
    pub fn open_position(
        &mut self,
        vamm: &Vamm,
        now: u64,
        vamm_addr: String,
        trader: String,
        side: Side,
        quote_asset_amount: u128,
        leverage: u128,
    ) -> (r: Result<Action, ContractError>)
        requires
            old(self).wf(),
        ensures
            final(self).wf(),
            final(self).opened(
                old(self),
                vamm,
                now,
                vamm_addr,
                trader,
                side,
                quote_asset_amount,
                leverage,
                r,
            ),
    {
        let swap = match self.plan_open(
            vamm,
            now,
            &vamm_addr,
            &trader,
            side,
            quote_asset_amount,
            leverage,
        ) {
            Ok(s) => s,
            Err(e) => {
                return Err(e);
            },
        };
        let position = self.get_position(now, &vamm_addr, &trader, side);
        let action = swap_action(&swap, &position);
        self.tmp_swap = Some(swap);
        Ok(action)
    }

    /// Takes a request to close the position of `trader` in the market
    /// registered under `vamm_addr`: puts it in flight and returns the swap
    /// that trades the whole position back. There must be such a position.
    pub fn close_position(&mut self, vamm_addr: String, trader: String) -> (r: Result<
        Action,
        ContractError,
    >)
        requires
            old(self).wf(),
        ensures
            final(self).wf(),
            final(self).closed(old(self), vamm_addr, trader, r),
    {
        let position = match self.read_position(vamm_addr.as_str(), trader.as_str()) {
            Some(p) => p,
            None => {
                return Err(ContractError::InvalidRequest);
            },
        };
        let swap = plan_close(&position);
        let action = swap_action(&swap, &position);
        self.tmp_swap = Some(swap);
        Ok(action)
    }

    /// What reconciling a swap result of the kind given does: fails where
    /// no request of that kind is in flight, and otherwise follows
    /// [`reconcile_spec`] on the position of the request's trader.
    pub open spec fn reply_spec(&self, now: u64, kind: SwapKind, output: u128) -> Result<
        Reconciled,
        ContractError,
    > {
        match self.tmp_swap_spec() {
            None => Err(ContractError::NoPendingSwap),
            Some(swap) => if swap.kind != kind {
                Err(ContractError::NoPendingSwap)
            } else {
                reconcile_spec(
                    self.get_position_spec(now, swap.vamm, swap.trader, swap.side),
                    swap,
                    output,
                    self.config_spec().decimals,
                    now,
                )
            },
        }
    }

    /// How the engine stands once `done` has been written into the engine
    /// `before`: the position written for the request's trader, every other
    /// position as before, and the request that stays in flight.
    pub open spec fn holds(&self, before: &Engine, done: Reconciled) -> bool {
        &&& self.tmp_swap_spec() == done.pending
        &&& self.config_spec() == before.config_spec()
        &&& self.vamm_list_spec() == before.vamm_list_spec()
        &&& self.position_spec(done.position.vamm@, done.position.trader@) == Some(done.position)
        &&& forall|vamm: Seq<char>, trader: Seq<char>|
            !done.position.is_for(vamm, trader) ==> #[trigger] self.position_spec(vamm, trader)
                == before.position_spec(vamm, trader)
    }

    /// How the engine stands after a reconciliation that gave `outcome`:
    /// unchanged on an error, and as [`Engine::holds`] says otherwise.
    pub open spec fn reconciled(
        &self,
        before: &Engine,
        outcome: Result<Reconciled, ContractError>,
        r: Result<Action, ContractError>,
    ) -> bool {
        match outcome {
            Err(e) => r == Err::<Action, ContractError>(e) && *self == *before,
            Ok(done) => r == Ok::<Action, ContractError>(done.action) && self.holds(before, done),
        }
    }

    /// The request in flight, if it is of the kind given.
    fn pending_of_kind(&self, kind: SwapKind) -> (r: Result<Swap, ContractError>)
        ensures
            r == (match self.tmp_swap_spec() {
                None => Err::<Swap, ContractError>(ContractError::NoPendingSwap),
                Some(swap) => if swap.kind != kind {
                    Err::<Swap, ContractError>(ContractError::NoPendingSwap)
                } else {
                    Ok::<Swap, ContractError>(swap)
                },
            }),
    {
        match &self.tmp_swap {
            None => Err(ContractError::NoPendingSwap),
            Some(swap) => if swap.kind != kind {
                Err(ContractError::NoPendingSwap)
            } else {
                Ok(swap.duplicate())
            },
        }
    }

    /// Writes the outcome of a reconciliation into the engine.
    pub(crate) fn commit(&mut self, done: Reconciled) -> (r: Action)
        requires
            old(self).wf(),
        ensures
            final(self).wf(),
            r == done.action,
            final(self).holds(old(self), done),
    {
        self.tmp_swap = done.pending;
        self.store_position(done.position);
        done.action
    }

    /// Reconciles the result of a swap of the kind given.
    fn reconcile_pending(&mut self, now: u64, kind: SwapKind, output: u128) -> (r: Result<
        Action,
        ContractError,
    >)
        requires
            old(self).wf(),
        ensures
            final(self).wf(),
            final(self).reconciled(old(self), old(self).reply_spec(now, kind, output), r),
    {
        let swap = match self.pending_of_kind(kind) {
            Ok(s) => s,
            Err(e) => {
                return Err(e);
            },
        };
        let position = self.get_position(now, &swap.vamm, &swap.trader, swap.side);
        match reconcile(position, &swap, output, self.config.decimals, now) {
            Ok(done) => Ok(self.commit(done)),
            Err(e) => Err(e),
        }
    }

    /// Reconciles the result of a swap that extended a position.
    pub fn increase_position_reply(&mut self, now: u64, input: u128, output: u128) -> (r: Result<
        Action,
        ContractError,
    >)
        requires
            old(self).wf(),
        ensures
            final(self).wf(),
            final(self).reconciled(
                old(self),
                old(self).reply_spec(now, SwapKind::Increase, output),
                r,
            ),
    {
        self.reconcile_pending(now, SwapKind::Increase, output)
    }

    /// Reconciles the result of a swap that reduced a position.
    pub fn decrease_position_reply(&mut self, now: u64, input: u128, output: u128) -> (r: Result<
        Action,
        ContractError,
    >)
        requires
            old(self).wf(),
        ensures
            final(self).wf(),
            final(self).reconciled(
                old(self),
                old(self).reply_spec(now, SwapKind::Decrease, output),
                r,
            ),
    {
        self.reconcile_pending(now, SwapKind::Decrease, output)
    }

    /// Reconciles the result of the swap that closed a position on the way
    /// to the opposite one.
    pub fn reverse_position_reply(&mut self, now: u64, input: u128, output: u128) -> (r: Result<
        Action,
        ContractError,
    >)
        requires
            old(self).wf(),
        ensures
            final(self).wf(),
            final(self).reconciled(
                old(self),
                old(self).reply_spec(now, SwapKind::Reverse, output),
                r,
            ),
    {
        self.reconcile_pending(now, SwapKind::Reverse, output)
    }

    /// Reconciles the result of the swap that closed a position.
    pub fn close_position_reply(&mut self, now: u64, input: u128, output: u128) -> (r: Result<
        Action,
        ContractError,
    >)
        requires
            old(self).wf(),
        ensures
            final(self).wf(),
            final(self).reconciled(
                old(self),
                old(self).reply_spec(now, SwapKind::Close, output),
                r,
            ),
    {
        self.reconcile_pending(now, SwapKind::Close, output)
    }

    /// The one entry point for swap results: reconciles the result of the
    /// swap tagged `id` into the ledger. A tag that names no kind of swap is
    /// an invalid request.
    pub fn reply(&mut self, now: u64, id: u64, input: u128, output: u128) -> (r: Result<
        Action,
        ContractError,
    >)
        requires
            old(self).wf(),
        ensures
            final(self).wf(),
            match kind_of_reply_id(id) {
                None => r == Err::<Action, ContractError>(ContractError::InvalidRequest)
                    && *final(self) == *old(self),
                Some(kind) => final(self).reconciled(
                    old(self),
                    old(self).reply_spec(now, kind, output),
                    r,
                ),
            },
    {
        if id == SWAP_INCREASE_REPLY_ID {
            self.increase_position_reply(now, input, output)
        } else if id == SWAP_DECREASE_REPLY_ID {
            self.decrease_position_reply(now, input, output)
        } else if id == SWAP_REVERSE_REPLY_ID {
            self.reverse_position_reply(now, input, output)
        } else if id == SWAP_CLOSE_REPLY_ID {
            self.close_position_reply(now, input, output)
        } else {
            Err(ContractError::InvalidRequest)
        }
    }
}

/// What a request of `open_notional` against `position`, on the other side,
/// is for: a reduction where the position is worth more in the market
/// `vamm` than the request asks for, a reversal otherwise.
fn open_reverse_position(vamm: &Vamm, position: &Position, open_notional: u128) -> (r: Result<
    SwapKind,
    ContractError,
>)
    ensures
        r == (match vamm.query_output_price_spec(position.direction, position.size) {
            Err(e) => Err::<SwapKind, ContractError>(e),
            Ok(current_notional) => if current_notional > open_notional {
                Ok::<SwapKind, ContractError>(SwapKind::Decrease)
            } else {
                Ok::<SwapKind, ContractError>(SwapKind::Reverse)
            },
        }),
{
    let current_notional: u128 = match vamm.query_output_price(position.direction, position.size) {
        Ok(v) => v,
        Err(e) => {
            return Err(e);
        },
    };
    // if the position is worth more than the request, the request only
    // takes a part of it away
    if current_notional > open_notional {
        Ok(SwapKind::Decrease)
    } else {
        Ok(SwapKind::Reverse)
    }
}

/// The request that closes `position`.
pub fn plan_close(position: &Position) -> (r: Swap)
    ensures
        r == plan_close_spec(*position),
{
    Swap {
        vamm: position.vamm.clone(),
        trader: position.trader.clone(),
        side: direction_to_side(position.direction),
        quote_asset_amount: position.size,
        leverage: 0,
        open_notional: position.notional,
        kind: SwapKind::Close,
    }
}

/// The swap that a request in flight asks of the market.
pub fn swap_action(swap: &Swap, position: &Position) -> (r: Action)
    ensures
        r == swap_action_spec(*swap, *position),
{
    match swap.kind {
        SwapKind::Increase => internal_increase_position(
            swap.vamm.clone(),
            swap.side,
            swap.open_notional,
        ),
        SwapKind::Decrease => swap_input(
            swap.vamm.clone(),
            swap.side,
            swap.open_notional,
            SwapKind::Decrease,
        ),
        SwapKind::Reverse => swap_output(
            swap.vamm.clone(),
            position.direction,
            position.size,
            SwapKind::Reverse,
        ),
        SwapKind::Close => swap_output(
            swap.vamm.clone(),
            position.direction,
            position.size,
            SwapKind::Close,
        ),
    }
}

/// The tag under which the result of a swap of the kind given comes back.
pub fn reply_id(kind: SwapKind) -> (r: u64)
    ensures
        kind_of_reply_id(r) == Some(kind),
{
    match kind {
        SwapKind::Increase => SWAP_INCREASE_REPLY_ID,
        SwapKind::Decrease => SWAP_DECREASE_REPLY_ID,
        SwapKind::Reverse => SWAP_REVERSE_REPLY_ID,
        SwapKind::Close => SWAP_CLOSE_REPLY_ID,
    }
}

/// The outcome of a swap that extended `position`.
pub fn reconcile_increase(position: Position, swap: &Swap, output: u128, decimals: u128) -> (r:
    Result<Reconciled, ContractError>)
    ensures
        r == increase_spec(position, *swap, output, decimals),
{
    if swap.leverage == 0 {
        return Err(ContractError::InvalidRequest);
    }
    let mut position = position;
    let size: u128 = match position.size.checked_add(output) {
        Some(v) => v,
        None => {
            return Err(ContractError::Overflow);
        },
    };
    let notional: u128 = match position.notional.checked_add(swap.open_notional) {
        Some(v) => v,
        None => {
            return Err(ContractError::Overflow);
        },
    };
    let margin: u128 = match mul_div(notional, decimals, swap.leverage) {
        Some(v) => v,
        None => {
            return Err(ContractError::Overflow);
        },
    };
    position.size = size;
    position.notional = notional;
    position.direction = side_to_direction(swap.side);
    position.margin = margin;
    Ok(
        Reconciled {
            position,
            pending: None,
            action: execute_transfer_from(swap.trader.clone(), margin),
        },
    )
}

/// The outcome of a swap that reduced `position`.
pub fn reconcile_decrease(position: Position, swap: &Swap, output: u128) -> (r: Result<
    Reconciled,
    ContractError,
>)
    ensures
        r == decrease_spec(position, *swap, output),
{
    if output > position.size || swap.open_notional > position.notional {
        return Err(ContractError::Overflow);
    }
    let mut position = position;
    position.size = position.size - output;
    position.notional = position.notional - swap.open_notional;
    Ok(Reconciled { position, pending: None, action: Action::Nothing })
}

/// The outcome of the swap that closed `position` on the way to the
/// opposite one.
pub fn reconcile_reverse(position: Position, swap: &Swap, output: u128, decimals: u128, now: u64)
    -> (r: Result<Reconciled, ContractError>)
    ensures
        r == reverse_spec(position, *swap, output, decimals, now),
{
    if swap.leverage == 0 {
        return Err(ContractError::InvalidRequest);
    }
    let margin_amount: u128 = position.margin;
    let open_notional: u128 = if swap.open_notional > output {
        swap.open_notional - output
    } else {
        output - swap.open_notional
    };
    let margin: u128 = match mul_div(open_notional, decimals, swap.leverage) {
        Some(v) => v,
        None => {
            return Err(ContractError::Overflow);
        },
    };
    let position = clear_position(now, position);
    if margin == 0 {
        Ok(
            Reconciled {
                position,
                pending: None,
                action: execute_transfer(swap.trader.clone(), margin_amount),
            },
        )
    } else {
        let mut next = swap.duplicate();
        next.open_notional = open_notional;
        next.kind = SwapKind::Increase;
        Ok(
            Reconciled {
                position,
                pending: Some(next),
                action: internal_increase_position(swap.vamm.clone(), swap.side, open_notional),
            },
        )
    }
}

/// The outcome of the swap that closed `position`.
pub fn reconcile_close(position: Position, swap: &Swap, output: u128, now: u64) -> (r: Result<
    Reconciled,
    ContractError,
>)
    ensures
        r == close_spec(position, *swap, output, now),
{
    let margin_returned: u128 = match position.direction {
        Direction::AddToAmm => {
            if output >= swap.open_notional {
                match position.margin.checked_add(output - swap.open_notional) {
                    Some(v) => v,
                    None => {
                        return Err(ContractError::Overflow);
                    },
                }
            } else if swap.open_notional - output > position.margin {
                return Err(ContractError::Overflow);
            } else {
                position.margin - (swap.open_notional - output)
            }
        },
        Direction::RemoveFromAmm => {
            if swap.open_notional >= output {
                match position.margin.checked_add(swap.open_notional - output) {
                    Some(v) => v,
                    None => {
                        return Err(ContractError::Overflow);
                    },
                }
            } else if output - swap.open_notional > position.margin {
                return Err(ContractError::Overflow);
            } else {
                position.margin - (output - swap.open_notional)
            }
        },
    };
    let position = clear_position(now, position);
    Ok(
        Reconciled {
            position,
            pending: None,
            action: execute_transfer(swap.trader.clone(), margin_returned),
        },
    )
}

/// The outcome of a swap, by the kind of the request that asked for it.
pub fn reconcile(position: Position, swap: &Swap, output: u128, decimals: u128, now: u64) -> (r:
    Result<Reconciled, ContractError>)
    ensures
        r == reconcile_spec(position, *swap, output, decimals, now),
{
    match swap.kind {
        SwapKind::Increase => reconcile_increase(position, swap, output, decimals),
        SwapKind::Decrease => reconcile_decrease(position, swap, output),
        SwapKind::Reverse => reconcile_reverse(position, swap, output, decimals, now),
        SwapKind::Close => reconcile_close(position, swap, output, now),
    }
}

/// The swap that extends a position on `side` by `open_notional`.
pub fn internal_increase_position(vamm: String, side: Side, open_notional: u128) -> (r: Action)
    ensures
        r == (Action::SwapInput {
            vamm,
            direction: side_to_direction_spec(side),
            quote_asset_amount: open_notional,
            kind: SwapKind::Increase,
        }),
{
    swap_input(vamm, side, open_notional, SwapKind::Increase)
}

/// The swap of a quote amount on `side`.
fn swap_input(vamm: String, side: Side, open_notional: u128, kind: SwapKind) -> (r: Action)
    ensures
        r == (Action::SwapInput {
            vamm,
            direction: side_to_direction_spec(side),
            quote_asset_amount: open_notional,
            kind,
        }),
{
    Action::SwapInput {
        vamm,
        direction: side_to_direction(side),
        quote_asset_amount: open_notional,
        kind,
    }
}

/// The swap of a base amount in `direction`.
fn swap_output(vamm: String, direction: Direction, base_asset_amount: u128, kind: SwapKind) -> (r:
    Action)
    ensures
        r == (Action::SwapOutput { vamm, direction, base_asset_amount, kind }),
{
    Action::SwapOutput { vamm, direction, base_asset_amount, kind }
}

/// The movement of `amount` of collateral from `owner` to the engine.
fn execute_transfer_from(owner: String, amount: u128) -> (r: Action)
    ensures
        r == (Action::TransferFrom { owner, amount }),
{
    Action::TransferFrom { owner, amount }
}

/// The movement of `amount` of collateral from the engine to `receiver`.
fn execute_transfer(receiver: String, amount: u128) -> (r: Action)
    ensures
        r == (Action::Transfer { recipient: receiver, amount }),
{
    Action::Transfer { recipient: receiver, amount }
}

/// A key and its value in an event.
#[derive(Clone, Debug, PartialEq, Eq)]
pub struct Attribute {
    pub key: String,
    pub value: String,
}

/// What a market reports of a swap it has made.
#[derive(Clone, Debug, PartialEq, Eq)]
pub struct Event {
    pub ty: String,
    pub attributes: Vec<Attribute>,
}

/// The first attribute with the key given, from the place `from` on.
pub open spec fn first_attribute(attributes: Seq<Attribute>, key: Seq<char>, from: int) -> Option<
    Attribute,
>
    decreases attributes.len() - from,
{
    if from < 0 || from >= attributes.len() {
        None
    } else if attributes[from].key@ == key {
        Some(attributes[from])
    } else {
        first_attribute(attributes, key, from + 1)
    }
}

/// The first event of the type given, from the place `from` on.
pub open spec fn first_event(events: Seq<Event>, ty: Seq<char>, from: int) -> Option<Event>
    decreases events.len() - from,
{
    if from < 0 || from >= events.len() {
        None
    } else if events[from].ty@ == ty {
        Some(events[from])
    } else {
        first_event(events, ty, from + 1)
    }
}

/// The first attribute of `event` with the key given; without one the
/// request is invalid.
pub fn read_event(key: &str, event: &Event) -> (r: Result<Attribute, ContractError>)
    ensures
        r == (match first_attribute(event.attributes@, key@, 0) {
            Some(a) => Ok::<Attribute, ContractError>(a),
            None => Err::<Attribute, ContractError>(ContractError::InvalidRequest),
        }),
{
    let mut i: usize = 0;
    while i < event.attributes.len()
        invariant
            i <= event.attributes.len(),
            first_attribute(event.attributes@, key@, 0) == first_attribute(
                event.attributes@,
                key@,
                i as int,
            ),
        decreases event.attributes.len() - i,
    {
        if crate::text::str_eq(event.attributes[i].key.as_str(), key) {
            return Ok(
                Attribute {
                    key: event.attributes[i].key.clone(),
                    value: event.attributes[i].value.clone(),
                },
            );
        }
        i = i + 1;
    }
    Err(ContractError::InvalidRequest)
}

/// The amount in the first attribute of `event` with the key given.
pub open spec fn amount_attribute(event: Event, key: Seq<char>) -> Option<u128> {
    match first_attribute(event.attributes@, key, 0) {
        Some(a) => parse_decimal_spec(a.value@),
        None => None,
    }
}

/// What [`parse_swap`] returns.
pub open spec fn parse_swap_spec(events: Seq<Event>) -> Result<(u128, u128), ContractError> {
    match first_event(events, "wasm"@, 0) {
        None => Err(ContractError::InvalidRequest),
        Some(wasm) => match (amount_attribute(wasm, "input"@), amount_attribute(wasm, "output"@)) {
            (Some(input), Some(output)) => Ok((input, output)),
            _ => Err(ContractError::InvalidRequest),
        },
    }
}

/// The amounts that went into a swap and came out of it, read from the
/// events of the market's response: the attributes `input` and `output` of
/// the first event of type `wasm`, each a decimal number with up to 18
/// fractional digits.
pub fn parse_swap(events: &Vec<Event>) -> (r: Result<(u128, u128), ContractError>)
    ensures
        r == parse_swap_spec(events@),
{
    let mut i: usize = 0;
    while i < events.len()
        invariant
            i <= events.len(),
            first_event(events@, "wasm"@, 0) == first_event(events@, "wasm"@, i as int),
        decreases events.len() - i,
    {
        if crate::text::str_eq(events[i].ty.as_str(), "wasm") {
            let wasm = &events[i];
            let input: u128 = match read_event("input", wasm) {
                Ok(a) => match parse_decimal(a.value.as_str()) {
                    Some(v) => v,
                    None => {
                        return Err(ContractError::InvalidRequest);
                    },
                },
                Err(e) => {
                    return Err(e);
                },
            };
            let output: u128 = match read_event("output", wasm) {
                Ok(a) => match parse_decimal(a.value.as_str()) {
                    Some(v) => v,
                    None => {
                        return Err(ContractError::InvalidRequest);
                    },
                },
                Err(e) => {
                    return Err(e);
                },
            };
            return Ok((input, output));
        }
        i = i + 1;
    }
    Err(ContractError::InvalidRequest)
}

/// The parameters that an engine is set up with.
#[derive(Clone, Debug, PartialEq, Eq)]
pub struct InstantiateMsg {
    pub decimals: u8,
    pub eligible_collateral: String,
    pub initial_margin_ratio: u128,
    pub maintenance_margin_ratio: u128,
    pub liquidation_fee: u128,
    pub vamm: Vec<String>,
}

/// What a deposit of collateral can ask for.
#[derive(Clone, Debug, PartialEq, Eq)]
pub enum Cw20HookMsg {
    OpenPosition { vamm: String, side: Side, leverage: u128 },
}

/// A deposit of `amount` whole tokens by `sender`, with its request. The
/// request is `None` where it could not be decoded.
#[derive(Clone, Debug, PartialEq, Eq)]
pub struct Cw20ReceiveMsg {
    pub sender: String,
    pub amount: u128,
    pub msg: Option<Cw20HookMsg>,
}

/// What the engine can be told to do.
#[derive(Clone, Debug, PartialEq, Eq)]
pub enum ExecuteMsg {
    Receive(Cw20ReceiveMsg),
    UpdateConfig { owner: String },
    OpenPosition { vamm: String, side: Side, quote_asset_amount: u128, leverage: u128 },
    ClosePosition { vamm: String },
}

/// What the engine can be asked.
#[derive(Clone, Debug, PartialEq, Eq)]
pub enum QueryMsg {
    Config {  },
    Position { vamm: String, trader: String },
    UnrealizedPnl { vamm: String, trader: String },
}

/// The owner and the collateral of an engine.
#[derive(Clone, Debug, PartialEq, Eq)]
pub struct ConfigResponse {
    pub owner: String,
    pub eligible_collateral: String,
}

/// What the engine answers.
#[derive(Clone, Debug, PartialEq, Eq)]
pub enum QueryResponse {
    Config(ConfigResponse),
    Position(Position),
    UnrealizedPnl(PositionUnrealizedPnlResponse),
}

/// Sets up an engine owned by `sender`.
pub fn instantiate(sender: String, msg: InstantiateMsg) -> (r: Result<Engine, ContractError>)
    ensures
        r is Err <==> pow10_spec(msg.decimals as nat) > u128::MAX,
        r matches Err(e) ==> e == ContractError::Overflow,
        r matches Ok(engine) ==> {
            &&& engine.wf()
            &&& engine.config_spec() == (Config {
                owner: sender,
                eligible_collateral: msg.eligible_collateral,
                decimals: pow10_spec(msg.decimals as nat) as u128,
                initial_margin_ratio: msg.initial_margin_ratio,
                maintenance_margin_ratio: msg.maintenance_margin_ratio,
                liquidation_fee: msg.liquidation_fee,
            })
            &&& engine.vamm_list_spec() == msg.vamm@
            &&& engine.positions_spec() == Seq::<Position>::empty()
            &&& engine.tmp_swap_spec() is None
        },
{
    Engine::new(
        sender,
        msg.eligible_collateral,
        msg.decimals,
        msg.initial_margin_ratio,
        msg.maintenance_margin_ratio,
        msg.liquidation_fee,
        msg.vamm,
    )
}

/// A deposit that was accepted as a request to open exposure.
#[derive(Clone, Debug, PartialEq, Eq)]
pub struct Deposit {
    pub vamm: String,
    pub trader: String,
    pub side: Side,
    pub quote_asset_amount: u128,
    pub leverage: u128,
}

/// What [`accept_deposit`] returns. A deposit is accepted from the
/// collateral token alone, needs a request that could be read, and an
/// amount of whole tokens that has a mantissa. The depositor is the trader
/// and the amount the quote amount of the request.
pub open spec fn accept_deposit_spec(engine: &Engine, sender: Seq<char>, cw20_msg: Cw20ReceiveMsg)
    -> Result<Deposit, ContractError> {
    if sender != engine.config_spec().eligible_collateral@ {
        Err(ContractError::Unauthorized)
    } else {
        match cw20_msg.msg {
            None => Err(ContractError::InvalidRequest),
            Some(Cw20HookMsg::OpenPosition { vamm, side, leverage }) => if cw20_msg.amount
                * engine.config_spec().decimals > u128::MAX {
                Err(ContractError::Overflow)
            } else {
                Ok(
                    Deposit {
                        vamm,
                        trader: cw20_msg.sender,
                        side,
                        quote_asset_amount: (cw20_msg.amount
                            * engine.config_spec().decimals) as u128,
                        leverage,
                    },
                )
            },
        }
    }
}

/// Checks a deposit of collateral and reads the request out of it.
pub fn accept_deposit(engine: &Engine, sender: &str, cw20_msg: Cw20ReceiveMsg) -> (r: Result<
    Deposit,
    ContractError,
>)
    ensures
        r == accept_deposit_spec(engine, sender@, cw20_msg),
{
    if !crate::text::str_eq(sender, engine.read_config().eligible_collateral.as_str()) {
        return Err(ContractError::Unauthorized);
    }
    match cw20_msg.msg {
        Some(Cw20HookMsg::OpenPosition { vamm, side, leverage }) => {
            let quote_asset_amount: u128 = match cw20_msg.amount.checked_mul(
                engine.read_config().decimals,
            ) {
                Some(v) => v,
                None => {
                    return Err(ContractError::Overflow);
                },
            };
            Ok(Deposit { vamm, trader: cw20_msg.sender, side, quote_asset_amount, leverage })
        },
        None => Err(ContractError::InvalidRequest),
    }
}

/// How the engine stands after a deposit that [`receive_cw20`] answered
/// with `r`: unchanged where the deposit was not accepted, and otherwise as
/// after the request that the deposit carries.
pub open spec fn received(
    engine: &Engine,
    before: &Engine,
    vamm: &Vamm,
    now: u64,
    sender: Seq<char>,
    cw20_msg: Cw20ReceiveMsg,
    r: Result<Action, ContractError>,
) -> bool {
    match accept_deposit_spec(before, sender, cw20_msg) {
        Err(e) => r == Err::<Action, ContractError>(e) && *engine == *before,
        Ok(deposit) => engine.opened(
            before,
            vamm,
            now,
            deposit.vamm,
            deposit.trader,
            deposit.side,
            deposit.quote_asset_amount,
            deposit.leverage,
            r,
        ),
    }
}

/// Takes a deposit of collateral that asks to open exposure in the market
/// `vamm`.
pub fn receive_cw20(
    engine: &mut Engine,
    vamm: &Vamm,
    now: u64,
    sender: &str,
    cw20_msg: Cw20ReceiveMsg,
) -> (r: Result<Action, ContractError>)
    requires
        old(engine).wf(),
    ensures
        final(engine).wf(),
        received(final(engine), old(engine), vamm, now, sender@, cw20_msg, r),
{
    let deposit = match accept_deposit(engine, sender, cw20_msg) {
        Ok(d) => d,
        Err(e) => {
            return Err(e);
        },
    };
    engine.open_position(
        vamm,
        now,
        deposit.vamm,
        deposit.trader,
        deposit.side,
        deposit.quote_asset_amount,
        deposit.leverage,
    )
}

/// Does what `msg` tells the engine, on behalf of `sender`. A request to
/// open or close a position is the sender's own; the market `vamm` is the
/// one that the message names. A change of owner leaves nothing to do.
pub fn execute(engine: &mut Engine, vamm: &Vamm, now: u64, sender: String, msg: ExecuteMsg) -> (r:
    Result<Action, ContractError>)
    requires
        old(engine).wf(),
    ensures
        final(engine).wf(),
        match msg {
            ExecuteMsg::Receive(cw20_msg) => received(
                final(engine),
                old(engine),
                vamm,
                now,
                sender@,
                cw20_msg,
                r,
            ),
            ExecuteMsg::UpdateConfig { owner } => if sender@ != old(engine).config_spec().owner@ {
                r == Err::<Action, ContractError>(ContractError::Unauthorized) && *final(engine)
                    == *old(engine)
            } else {
                &&& r == Ok::<Action, ContractError>(Action::Nothing)
                &&& final(engine).config_spec() == (Config { owner, ..old(engine).config_spec() })
                &&& final(engine).vamm_list_spec() == old(engine).vamm_list_spec()
                &&& final(engine).positions_spec() == old(engine).positions_spec()
                &&& final(engine).tmp_swap_spec() == old(engine).tmp_swap_spec()
            },
            ExecuteMsg::OpenPosition {
                vamm: vamm_addr,
                side,
                quote_asset_amount,
                leverage,
            } => final(engine).opened(
                old(engine),
                vamm,
                now,
                vamm_addr,
                sender,
                side,
                quote_asset_amount,
                leverage,
                r,
            ),
            ExecuteMsg::ClosePosition { vamm: vamm_addr } => final(engine).closed(
                old(engine),
                vamm_addr,
                sender,
                r,
            ),
        },
{
    match msg {
        ExecuteMsg::Receive(cw20_msg) => receive_cw20(engine, vamm, now, sender.as_str(), cw20_msg),
        ExecuteMsg::UpdateConfig { owner } => match engine.update_config(sender.as_str(), owner) {
            Ok(()) => Ok(Action::Nothing),
            Err(e) => Err(e),
        },
        ExecuteMsg::OpenPosition { vamm: vamm_addr, side, quote_asset_amount, leverage } => {
            engine.open_position(vamm, now, vamm_addr, sender, side, quote_asset_amount, leverage)
        },
        ExecuteMsg::ClosePosition { vamm: vamm_addr } => engine.close_position(vamm_addr, sender),
    }
}

/// What [`query`] answers.
pub open spec fn query_spec(engine: &Engine, vamm: &Vamm, msg: QueryMsg) -> Result<
    QueryResponse,
    ContractError,
> {
    match msg {
        QueryMsg::Config {  } => Ok(
            QueryResponse::Config(
                ConfigResponse {
                    owner: engine.config_spec().owner,
                    eligible_collateral: engine.config_spec().eligible_collateral,
                },
            ),
        ),
        QueryMsg::Position { vamm: vamm_addr, trader } => match engine.position_spec(
            vamm_addr@,
            trader@,
        ) {
            Some(p) => Ok(QueryResponse::Position(p)),
            None => Err(ContractError::InvalidRequest),
        },
        QueryMsg::UnrealizedPnl { vamm: vamm_addr, trader } => match engine.position_spec(
            vamm_addr@,
            trader@,
        ) {
            Some(p) => match unrealized_pnl_spec(
                p,
                PnlCalcOption::SPOTPRICE,
                vamm.state_spec().quote_asset_reserve,
                vamm.state_spec().base_asset_reserve,
            ) {
                Ok(pnl) => Ok(QueryResponse::UnrealizedPnl(pnl)),
                Err(e) => Err(e),
            },
            None => Err(ContractError::InvalidRequest),
        },
    }
}

/// Answers a question: the engine's owner and collateral, a trader's
/// position, or the value of a position at the spot price of `vamm` with
/// its unrealized gain or loss. Asking for a position that does not exist
/// is an invalid request.
pub fn query(engine: &Engine, vamm: &Vamm, msg: QueryMsg) -> (r: Result<
    QueryResponse,
    ContractError,
>)
    requires
        engine.wf(),
    ensures
        r == query_spec(engine, vamm, msg),
{
    match msg {
        QueryMsg::Config {  } => Ok(
            QueryResponse::Config(
                ConfigResponse {
                    owner: engine.read_config().owner.clone(),
                    eligible_collateral: engine.read_config().eligible_collateral.clone(),
                },
            ),
        ),
        QueryMsg::Position { vamm: vamm_addr, trader } => match engine.read_position(
            vamm_addr.as_str(),
            trader.as_str(),
        ) {
            Some(p) => Ok(QueryResponse::Position(p)),
            None => Err(ContractError::InvalidRequest),
        },
        QueryMsg::UnrealizedPnl { vamm: vamm_addr, trader } => match engine.read_position(
            vamm_addr.as_str(),
            trader.as_str(),
        ) {
            Some(p) => match get_position_notional_unrealized_pnl(
                vamm,
                &p,
                PnlCalcOption::SPOTPRICE,
            ) {
                Ok(pnl) => Ok(QueryResponse::UnrealizedPnl(pnl)),
                Err(e) => Err(e),
            },
            None => Err(ContractError::InvalidRequest),
        },
    }
}

} // verus!

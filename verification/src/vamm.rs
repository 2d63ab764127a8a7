//! The virtual market maker: a constant-product pool of two reserves that
//! exists for pricing only.
use crate::error::ContractError;
use crate::math::{
    div_ceil_spec, lemma_pow10_grows, mul_div, mul_div_ceil, mul_div_ceil_spec, mul_div_spec, pow10,
    pow10_spec, sqrt_floor, sqrt_of_product,
};
use crate::text::str_eq;
use vstd::prelude::*;

verus! {

/// Which way an asset moves in a swap. In a swap that names a quote amount
/// it says whether the quote asset enters the pool or leaves it; in a swap
/// that names a base amount it says the same of the base asset.
#[derive(Clone, Copy, Debug, PartialEq, Eq, Structural)]
pub enum Direction {
    AddToAmm,
    RemoveFromAmm,
}

/// The reserve of one asset once the other asset's reserve has become
/// `moved_after`, for a pool that held `quote` and `base`: the least amount
/// that keeps the product of the reserves from falling. It is the quotient
/// `quote * base / moved_after`, plus one unit exactly when that division
/// leaves a remainder.
pub open spec fn reserve_after(quote: nat, base: nat, moved_after: nat) -> nat
    recommends
        moved_after > 0,
{
    div_ceil_spec(quote * base, moved_after)
}

/// The base amount that a swap of `quote_asset_amount` delivers (quote
/// enters the pool) or costs (quote leaves the pool).
pub open spec fn input_price_spec(
    direction: Direction,
    quote_asset_amount: nat,
    quote: nat,
    base: nat,
) -> Result<u128, ContractError> {
    if quote == 0 || base == 0 {
        Err(ContractError::InvalidRequest)
    } else {
        match direction {
            Direction::AddToAmm => if quote + quote_asset_amount > u128::MAX {
                Err(ContractError::Overflow)
            } else {
                Ok((base - reserve_after(quote, base, quote + quote_asset_amount)) as u128)
            },
            Direction::RemoveFromAmm => if quote_asset_amount >= quote {
                Err(ContractError::InsufficientReserve)
            } else if reserve_after(quote, base, (quote - quote_asset_amount) as nat)
                > u128::MAX {
                Err(ContractError::Overflow)
            } else {
                Ok(
                    (reserve_after(quote, base, (quote - quote_asset_amount) as nat)
                        - base) as u128,
                )
            },
        }
    }
}

/// The quote amount that a swap of `base_asset_amount` delivers (base enters
/// the pool) or costs (base leaves the pool): the same equation with the two
/// reserves in each other's place.
pub open spec fn output_price_spec(
    direction: Direction,
    base_asset_amount: nat,
    quote: nat,
    base: nat,
) -> Result<u128, ContractError> {
    input_price_spec(direction, base_asset_amount, base, quote)
}

/// Rounding up gives the least multiple of `c` that reaches `x`.
pub proof fn lemma_div_ceil_bounds(x: nat, c: nat)
    requires
        c > 0,
    ensures
        div_ceil_spec(x, c) * c >= x,
        div_ceil_spec(x, c) * c < x + c,
{
    vstd::arithmetic::div_mod::lemma_fundamental_div_mod(x as int, c as int);
    let q: nat = x / c;
    assert(q * c == c * q) by (nonlinear_arith);
    assert((q + 1) * c == c * q + c) by (nonlinear_arith);
}

/// A quotient rounded up is at most `y` when the dividend is at most `y * c`.
pub proof fn lemma_div_ceil_at_most(x: nat, c: nat, y: nat)
    requires
        c > 0,
        x <= y * c,
    ensures
        div_ceil_spec(x, c) <= y,
{
    lemma_div_ceil_bounds(x, c);
    let m: nat = div_ceil_spec(x, c);
    if m > y {
        assert(m * c >= y * c + c) by (nonlinear_arith)
            requires
                m >= y + 1,
        ;
    }
}

/// A quotient rounded up is at least `y` when the dividend is at least `y * c`.
pub proof fn lemma_div_ceil_at_least(x: nat, c: nat, y: nat)
    requires
        c > 0,
        x >= y * c,
    ensures
        div_ceil_spec(x, c) >= y,
{
    lemma_div_ceil_bounds(x, c);
    let m: nat = div_ceil_spec(x, c);
    if m < y {
        assert(m * c + c <= y * c) by (nonlinear_arith)
            requires
                m + 1 <= y,
        ;
    }
}

/// What a swap leaves of the other reserve lies between one unit and the
/// old reserve when the moved reserve grows, and at or above the old reserve
/// when it shrinks.
pub proof fn lemma_reserve_after_range(quote: nat, base: nat, moved_after: nat)
    requires
        quote > 0,
        base > 0,
        moved_after > 0,
    ensures
        reserve_after(quote, base, moved_after) >= 1,
        moved_after >= quote ==> reserve_after(quote, base, moved_after) <= base,
        moved_after <= quote ==> reserve_after(quote, base, moved_after) >= base,
{
    assert(quote * base >= 1) by (nonlinear_arith)
        requires
            quote >= 1,
            base >= 1,
    ;
    assert(1 * moved_after == moved_after) by (nonlinear_arith);
    lemma_div_ceil_bounds(quote * base, moved_after);
    if reserve_after(quote, base, moved_after) == 0 {
        assert(0 * moved_after == 0) by (nonlinear_arith);
    }
    if moved_after >= quote {
        assert(quote * base <= base * moved_after) by (nonlinear_arith)
            requires
                moved_after >= quote,
        ;
        lemma_div_ceil_at_most(quote * base, moved_after, base);
    }
    if moved_after <= quote {
        assert(quote * base >= base * moved_after) by (nonlinear_arith)
            requires
                moved_after <= quote,
        ;
        lemma_div_ceil_at_least(quote * base, moved_after, base);
    }
}

/// The base amount for a given quote amount, from the reserves given.
pub fn get_input_price_with_reserves(
    direction: Direction,
    quote_asset_amount: u128,
    quote_asset_reserve: u128,
    base_asset_reserve: u128,
) -> (r: Result<u128, ContractError>)
    ensures
        r == input_price_spec(
            direction,
            quote_asset_amount as nat,
            quote_asset_reserve as nat,
            base_asset_reserve as nat,
        ),
{
    if quote_asset_reserve == 0 || base_asset_reserve == 0 {
        return Err(ContractError::InvalidRequest);
    }
    match direction {
        Direction::AddToAmm => {
            let quote_after: u128 = match quote_asset_reserve.checked_add(quote_asset_amount) {
                Some(v) => v,
                None => {
                    return Err(ContractError::Overflow);
                },
            };
            proof {
                lemma_reserve_after_range(
                    quote_asset_reserve as nat,
                    base_asset_reserve as nat,
                    quote_after as nat,
                );
            }
            match mul_div_ceil(quote_asset_reserve, base_asset_reserve, quote_after) {
                Some(base_after) => Ok(base_asset_reserve - base_after),
                None => Err(ContractError::Overflow),
            }
        },
        Direction::RemoveFromAmm => {
            if quote_asset_amount >= quote_asset_reserve {
                return Err(ContractError::InsufficientReserve);
            }
            let quote_after: u128 = quote_asset_reserve - quote_asset_amount;
            proof {
                lemma_reserve_after_range(
                    quote_asset_reserve as nat,
                    base_asset_reserve as nat,
                    quote_after as nat,
                );
            }
            match mul_div_ceil(quote_asset_reserve, base_asset_reserve, quote_after) {
                Some(base_after) => Ok(base_after - base_asset_reserve),
                None => Err(ContractError::Overflow),
            }
        },
    }
}

/// The quote amount for a given base amount, from the reserves given.
pub fn get_output_price_with_reserves(
    direction: Direction,
    base_asset_amount: u128,
    quote_asset_reserve: u128,
    base_asset_reserve: u128,
) -> (r: Result<u128, ContractError>)
    ensures
        r == output_price_spec(
            direction,
            base_asset_amount as nat,
            quote_asset_reserve as nat,
            base_asset_reserve as nat,
        ),
{
    get_input_price_with_reserves(
        direction,
        base_asset_amount,
        base_asset_reserve,
        quote_asset_reserve,
    )
}

/// A fixed-point number with a sign. Zero is written without the sign.
#[derive(Clone, Copy, Debug, PartialEq, Eq, Structural)]
pub struct SignedDecimal {
    pub magnitude: u128,
    pub negative: bool,
}

impl SignedDecimal {
    /// The number as an integer mantissa.
    pub open spec fn value(&self) -> int {
        if self.negative {
            -(self.magnitude as int)
        } else {
            self.magnitude as int
        }
    }

    /// Zero.
    pub fn zero() -> (r: SignedDecimal)
        ensures
            r == (SignedDecimal { magnitude: 0, negative: false }),
    {
        SignedDecimal { magnitude: 0, negative: false }
    }
}

/// The static parameters of a market.
#[derive(Clone, Debug, PartialEq, Eq)]
pub struct Config {
    pub owner: String,
    /// The only caller that may settle funding.
    pub margin_engine: String,
    pub quote_asset: String,
    pub base_asset: String,
    /// The mantissa of one whole unit.
    pub decimals: u128,
    pub toll_ratio: u128,
    pub spread_ratio: u128,
}

/// The reserves and the funding schedule of a market.
#[derive(Clone, Copy, Debug, PartialEq, Eq, Structural)]
pub struct State {
    pub quote_asset_reserve: u128,
    pub base_asset_reserve: u128,
    pub funding_rate: SignedDecimal,
    /// Seconds between two scheduled settlements.
    pub funding_period: u64,
    /// When the next settlement is scheduled, in seconds.
    pub next_funding_time: u64,
}

/// The reserves as they stood from `timestamp` on.
#[derive(Clone, Copy, Debug, PartialEq, Eq, Structural)]
pub struct ReserveSnapshot {
    pub quote_asset_reserve: u128,
    pub base_asset_reserve: u128,
    pub timestamp: u64,
    pub block_height: u64,
}

impl Default for ReserveSnapshot {
    /// Empty reserves at the start of time.
    fn default() -> (r: ReserveSnapshot)
        ensures
            r == (ReserveSnapshot {
                quote_asset_reserve: 0,
                base_asset_reserve: 0,
                timestamp: 0,
                block_height: 0,
            }),
    {
        ReserveSnapshot {
            quote_asset_reserve: 0,
            base_asset_reserve: 0,
            timestamp: 0,
            block_height: 0,
        }
    }
}

/// What a swap took in and gave out. For a swap that names a quote amount,
/// `input` is that amount and `output` the base amount; for a swap that
/// names a base amount it is the other way round.
#[derive(Clone, Copy, Debug, PartialEq, Eq, Structural)]
pub struct SwapResult {
    pub input: u128,
    pub output: u128,
}

/// The snapshot history is never empty, holds positive reserves only, and
/// runs forward: block heights rise strictly, timestamps never fall.
pub open spec fn snapshots_wf(s: Seq<ReserveSnapshot>) -> bool {
    &&& s.len() > 0
    &&& forall|i: int|
        0 <= i < s.len() ==> (#[trigger] s[i]).quote_asset_reserve > 0 && s[i].base_asset_reserve
            > 0
    &&& forall|i: int, j: int|
        0 <= i < j < s.len() ==> (#[trigger] s[i]).timestamp <= (#[trigger] s[j]).timestamp
            && s[i].block_height < s[j].block_height
}

/// The block named by `block_height` and `now` cannot follow the history:
/// its height lies before the latest snapshot's, or it is a later block
/// with an earlier clock.
pub open spec fn clock_runs_backwards(s: Seq<ReserveSnapshot>, now: u64, block_height: u64) -> bool
    recommends
        s.len() > 0,
{
    block_height < s.last().block_height || (block_height > s.last().block_height && now
        < s.last().timestamp)
}

/// The history after the reserves became `quote` and `base` in the block
/// given. A block has one snapshot: a further change in the same block
/// replaces the reserves of the latest snapshot and keeps its timestamp; a
/// change in a later block appends.
pub open spec fn record_snapshot(
    s: Seq<ReserveSnapshot>,
    quote: u128,
    base: u128,
    now: u64,
    block_height: u64,
) -> Seq<ReserveSnapshot>
    recommends
        s.len() > 0,
{
    if s.last().block_height == block_height {
        s.update(
            s.len() - 1,
            ReserveSnapshot {
                quote_asset_reserve: quote,
                base_asset_reserve: base,
                timestamp: s.last().timestamp,
                block_height,
            },
        )
    } else {
        s.push(
            ReserveSnapshot {
                quote_asset_reserve: quote,
                base_asset_reserve: base,
                timestamp: now,
                block_height,
            },
        )
    }
}

/// The quote reserve after a swap of `amount` quote in `direction`.
pub open spec fn moved_reserve(direction: Direction, reserve: u128, amount: u128) -> int {
    match direction {
        Direction::AddToAmm => reserve + amount,
        Direction::RemoveFromAmm => reserve - amount,
    }
}

/// The reserve of the other asset after a swap in `direction` whose price
/// was `price`.
pub open spec fn priced_reserve(direction: Direction, reserve: u128, price: u128) -> int {
    match direction {
        Direction::AddToAmm => reserve - price,
        Direction::RemoveFromAmm => reserve + price,
    }
}

/// Adding whole multiples of the divisor to the dividend adds as many units
/// to the quotient rounded up.
pub proof fn lemma_div_ceil_shift(x: nat, k: nat, c: nat)
    requires
        c > 0,
    ensures
        div_ceil_spec(x + k * c, c) == k + div_ceil_spec(x, c),
{
    vstd::arithmetic::div_mod::lemma_hoist_over_denominator(x as int, k as int, c);
    vstd::arithmetic::div_mod::lemma_mod_multiples_vanish(k as int, x as int, c as int);
    assert(c * k == k * c) by (nonlinear_arith);
}

/// A quotient rounded up is at most one exactly when the dividend is at
/// most the divisor.
pub proof fn lemma_div_ceil_at_most_one(x: nat, c: nat)
    requires
        c > 0,
    ensures
        div_ceil_spec(x, c) <= 1 <==> x <= c,
{
    assert(1 * c == c) by (nonlinear_arith);
    if x <= c {
        lemma_div_ceil_at_most(x, c, 1);
    } else {
        lemma_div_ceil_bounds(x, c);
        let m: nat = div_ceil_spec(x, c);
        if m <= 1 {
            assert(m * c <= c) by (nonlinear_arith)
                requires
                    m <= 1,
                    c > 0,
            ;
        }
    }
}

/// By how much the product of the reserves exceeds the product before the
/// swap, once the quote reserve has become `quote_after` and the base
/// reserve has been rounded up.
pub open spec fn rounding_surplus(quote: nat, base: nat, quote_after: nat) -> int {
    reserve_after(quote, base, quote_after) * quote_after - quote * base
}

/// The rounding rule of a swap. The base reserve after the swap is the
/// quotient of the product of the reserves by the new quote reserve when
/// that division is exact, and one unit more when it is not.
pub proof fn lemma_price_rounding(
    direction: Direction,
    amount: u128,
    quote: u128,
    base: u128,
    price: u128,
)
    requires
        input_price_spec(direction, amount as nat, quote as nat, base as nat) == Ok::<
            u128,
            ContractError,
        >(price),
    ensures
        ({
            let quote_after = moved_reserve(direction, quote, amount);
            let base_after = priced_reserve(direction, base, price);
            let product = quote as nat * base as nat;
            &&& quote_after > 0
            &&& product % (quote_after as nat) == 0 ==> base_after == product / (quote_after as nat)
            &&& product % (quote_after as nat) != 0 ==> base_after == product / (quote_after as nat)
                + 1
        }),
{
    lemma_reserve_after_range(
        quote as nat,
        base as nat,
        moved_reserve(direction, quote, amount) as nat,
    );
}

/// A swap and the swap back. After a swap of `amount` quote that moved
/// `price` base, the quote amount for `price` base in the same direction is
/// `amount` less the rounding loss where quote entered the pool, and
/// `amount` plus the rounding loss where quote left it (unless the quote
/// reserve would then pass the maximum). The loss is the surplus that
/// rounding added to the product of the reserves, divided by the base
/// reserve before the swap and rounded up.
pub proof fn lemma_swap_round_trip(
    direction: Direction,
    amount: u128,
    quote: u128,
    base: u128,
    price: u128,
)
    requires
        input_price_spec(direction, amount as nat, quote as nat, base as nat) == Ok::<
            u128,
            ContractError,
        >(price),
    ensures
        ({
            let quote_after = moved_reserve(direction, quote, amount) as nat;
            let base_after = priced_reserve(direction, base, price) as nat;
            let surplus = rounding_surplus(quote as nat, base as nat, quote_after);
            let loss = div_ceil_spec(surplus as nat, base as nat);
            &&& 0 <= surplus < quote_after
            &&& surplus == quote_after * base_after - quote * base
            &&& output_price_spec(direction, price as nat, quote_after, base_after) == (
            match direction {
                Direction::AddToAmm => Ok::<u128, ContractError>((amount - loss) as u128),
                Direction::RemoveFromAmm => if quote + loss > u128::MAX {
                    Err::<u128, ContractError>(ContractError::Overflow)
                } else {
                    Ok::<u128, ContractError>((amount + loss) as u128)
                },
            })
            &&& direction == Direction::AddToAmm ==> loss <= amount
        }),
{
    let q: nat = quote as nat;
    let b: nat = base as nat;
    let q2: nat = moved_reserve(direction, quote, amount) as nat;
    lemma_reserve_after_range(q, b, q2);
    let b2: nat = reserve_after(q, b, q2);
    assert(b2 == priced_reserve(direction, base, price));
    lemma_div_ceil_bounds(q * b, q2);
    let r: nat = (b2 * q2 - q * b) as nat;
    assert(b2 * q2 == q2 * b2) by (nonlinear_arith);
    assert(b2 * q2 == r + q * b);
    lemma_div_ceil_shift(r, q, b);
    assert(reserve_after(b2, q2, b) == q + div_ceil_spec(r, b));
    lemma_reserve_after_range(b2, q2, b);
    assert(rounding_surplus(q, b, q2) == r);
    let loss: nat = div_ceil_spec(r, b);
    match direction {
        Direction::AddToAmm => {
            assert(b2 + price == b);
            assert(q2 == q + amount);
            assert(input_price_spec(direction, price as nat, b2, q2) == Ok::<u128, ContractError>(
                (q2 - reserve_after(b2, q2, b)) as u128,
            ));
        },
        Direction::RemoveFromAmm => {
            assert(b2 - price == b);
            assert(q2 == q - amount);
            assert(price < b2);
        },
    }
}

/// Swapping there and back recovers the amount within one unit exactly when
/// the surplus that rounding added to the product of the reserves is no
/// more than the base reserve before the swap. That is so whenever the
/// quote reserve after the swap is no larger than that base reserve. The
/// swap back always has a price where quote entered the pool.
pub proof fn lemma_round_trip_within_one_unit(
    direction: Direction,
    amount: u128,
    quote: u128,
    base: u128,
    price: u128,
)
    requires
        input_price_spec(direction, amount as nat, quote as nat, base as nat) == Ok::<
            u128,
            ContractError,
        >(price),
    ensures
        ({
            let quote_after = moved_reserve(direction, quote, amount) as nat;
            let base_after = priced_reserve(direction, base, price) as nat;
            let back = output_price_spec(direction, price as nat, quote_after, base_after);
            &&& back matches Ok(recovered) ==> ((amount - 1 <= recovered <= amount + 1) <==> (
            rounding_surplus(quote as nat, base as nat, quote_after) <= base))
            &&& direction == Direction::AddToAmm ==> back is Ok
            &&& quote_after <= base ==> rounding_surplus(quote as nat, base as nat, quote_after)
                <= base
        }),
{
    lemma_swap_round_trip(direction, amount, quote, base, price);
    let quote_after = moved_reserve(direction, quote, amount) as nat;
    let surplus = rounding_surplus(quote as nat, base as nat, quote_after);
    lemma_div_ceil_at_most_one(surplus as nat, base as nat);
}

/// A swap keeps the product of the reserves but for rounding: the product
/// does not fall, and it rises by less than the reserve that the swap moved,
/// `moved_after`, as it stands after the swap. So the priced reserve is
/// within one unit of the exact quotient.
pub open spec fn product_kept(before: State, after: State, moved_after: u128) -> bool {
    let k = before.quote_asset_reserve as nat * before.base_asset_reserve as nat;
    let k_after = after.quote_asset_reserve as nat * after.base_asset_reserve as nat;
    k <= k_after < k + moved_after
}

/// The price of one base unit in quote units, as a mantissa rounded down.
pub open spec fn spot_price_spec(quote: u128, base: u128, decimals: u128) -> Result<
    u128,
    ContractError,
> {
    match mul_div_spec(quote as nat, decimals as nat, base as nat) {
        Some(p) => Ok(p),
        None => Err(ContractError::Overflow),
    }
}

/// The price of one base unit at a snapshot, as a mantissa rounded down.
pub open spec fn snapshot_price(s: ReserveSnapshot, decimals: u128) -> nat {
    (s.quote_asset_reserve as nat * decimals as nat) / (s.base_asset_reserve as nat)
}

/// For how many seconds of the window from `start` to `now` the snapshot at
/// `i` was the one in force. A snapshot is in force from its own timestamp
/// to the next snapshot's, the latest one to `now`; the earliest one counts
/// as in force since before the window began.
pub open spec fn active_seconds(s: Seq<ReserveSnapshot>, i: int, start: int, now: int) -> nat
    recommends
        0 <= i < s.len(),
{
    let from: int = if i == 0 || s[i].timestamp < start {
        start
    } else {
        s[i].timestamp as int
    };
    let to: int = if i == s.len() - 1 {
        now
    } else {
        s[i + 1].timestamp as int
    };
    if to > from {
        (to - from) as nat
    } else {
        0
    }
}

/// The sum, over the snapshots from `first` on, of price times seconds in
/// force.
pub open spec fn weighted_prices(
    s: Seq<ReserveSnapshot>,
    decimals: u128,
    first: int,
    start: int,
    now: int,
) -> nat
    decreases s.len() - first,
{
    if first < 0 || first >= s.len() {
        0
    } else {
        snapshot_price(s[first], decimals) * active_seconds(s, first, start, now)
            + weighted_prices(s, decimals, first + 1, start, now)
    }
}

/// Half the funding period: how long before and after the scheduled time a
/// settlement still counts for that slot.
pub open spec fn funding_buffer(funding_period: u64) -> u64 {
    funding_period / 2
}

/// Seconds in a day.
pub open spec fn day() -> nat {
    86_400
}

/// The sum of the weighted prices from a later snapshot on is part of the
/// sum from an earlier one on.
pub proof fn lemma_weighted_prices_grow(
    s: Seq<ReserveSnapshot>,
    decimals: u128,
    first: int,
    later: int,
    start: int,
    now: int,
)
    requires
        0 <= first <= later,
    ensures
        weighted_prices(s, decimals, first, start, now) >= weighted_prices(
            s,
            decimals,
            later,
            start,
            now,
        ),
    decreases later - first,
{
    if first < later && first < s.len() {
        lemma_weighted_prices_grow(s, decimals, first + 1, later, start, now);
    }
}

/// Snapshots that were replaced before the window began add nothing.
pub proof fn lemma_weighted_prices_before_window(
    s: Seq<ReserveSnapshot>,
    decimals: u128,
    first: int,
    reached: int,
    start: int,
    now: int,
)
    requires
        snapshots_wf(s),
        0 <= first <= reached < s.len(),
        s[reached].timestamp <= start,
    ensures
        weighted_prices(s, decimals, first, start, now) == weighted_prices(
            s,
            decimals,
            reached,
            start,
            now,
        ),
    decreases reached - first,
{
    if first < reached {
        lemma_weighted_prices_before_window(s, decimals, first + 1, reached, start, now);
        assert(s[first + 1].timestamp <= s[reached].timestamp) by {
            if first + 1 < reached {
                assert(s[first + 1].timestamp <= s[reached].timestamp);
            }
        }
        assert(active_seconds(s, first, start, now) == 0);
        assert(snapshot_price(s[first], decimals) * 0 == 0) by (nonlinear_arith);
    }
}

/// A pool whose quote reserve is its base reserve times a price, rounded
/// up, trades at that price, provided that it holds at least one whole unit
/// of base.
pub proof fn lemma_spot_price_after_rebase(
    base: u128,
    index_price: u128,
    decimals: u128,
    quote: u128,
)
    requires
        decimals > 0,
        base >= decimals,
        mul_div_ceil_spec(base as nat, index_price as nat, decimals as nat) == Some(quote),
    ensures
        spot_price_spec(quote, base, decimals) == Ok::<u128, ContractError>(index_price),
{
    let nb: nat = base as nat;
    let p: nat = index_price as nat;
    let d: nat = decimals as nat;
    let nq: nat = quote as nat;
    lemma_div_ceil_bounds(nb * p, d);
    assert(nq * d >= nb * p);
    assert(nq * d < nb * p + d);
    let rest: int = nq * d - p * nb;
    assert(nb * p == p * nb) by (nonlinear_arith);
    assert(nq * d == p * nb + rest);
    vstd::arithmetic::div_mod::lemma_fundamental_div_mod_converse(
        (nq * d) as int,
        nb as int,
        p as int,
        rest,
    );
    assert((nq * d) / nb == p);
}

/// How far a rebase to the price `index_price` may move the product of the
/// reserves: it rises by less than the new base reserve, and what it loses,
/// scaled by `decimals`, stays below the price times the sum of the old
/// base reserve, twice the new one and one.
pub open spec fn product_nearly_kept(
    before: State,
    after: State,
    index_price: u128,
    decimals: u128,
) -> bool {
    let k = before.quote_asset_reserve as nat * before.base_asset_reserve as nat;
    let k_after = after.quote_asset_reserve as nat * after.base_asset_reserve as nat;
    &&& k_after < k + after.base_asset_reserve
    &&& k * decimals < k_after * decimals + index_price * (before.base_asset_reserve + 2
        * after.base_asset_reserve + 1)
}

/// The product of the reserves that a rebase leaves, from the three
/// roundings that a rebase makes: the quotient of the quote reserve by the
/// price, the square root, and the new quote reserve.
pub proof fn lemma_rebase_product(q: nat, b: nat, p: nat, d: nat, ratio: nat, nb: nat, nq: nat)
    requires
        d > 0,
        p > 0,
        b > 0,
        nb > 0,
        ratio * p <= q * d < ratio * p + p,
        nb * nb <= ratio * b < (nb + 1) * (nb + 1),
        nb * p <= nq * d < nb * p + d,
    ensures
        nq * nb < q * b + nb,
        (q * b) * d < (nq * nb) * d + p * (b + 2 * nb + 1),
{
    assert((nq * nb) * d < (q * b) * d + nb * d) by {
        assert((nq * d) * nb < (nb * p + d) * nb) by (nonlinear_arith)
            requires
                nq * d < nb * p + d,
                nb > 0,
        ;
        assert((nb * p + d) * nb == (nb * nb) * p + nb * d) by (nonlinear_arith);
        assert((nb * nb) * p <= (ratio * b) * p) by (nonlinear_arith)
            requires
                nb * nb <= ratio * b,
        ;
        assert((ratio * b) * p == (ratio * p) * b) by (nonlinear_arith);
        assert((ratio * p) * b <= (q * d) * b) by (nonlinear_arith)
            requires
                ratio * p <= q * d,
        ;
        assert((q * d) * b == (q * b) * d) by (nonlinear_arith);
        assert((nq * d) * nb == (nq * nb) * d) by (nonlinear_arith);
    }
    assert(nq * nb < q * b + nb) by (nonlinear_arith)
        requires
            (nq * nb) * d < (q * b) * d + nb * d,
            d > 0,
    ;
    assert((q * b) * d < (nq * nb) * d + p * (b + 2 * nb + 1)) by {
        assert((q * b) * d == (q * d) * b) by (nonlinear_arith);
        assert((q * d) * b < (ratio * p + p) * b) by (nonlinear_arith)
            requires
                q * d < ratio * p + p,
                b > 0,
        ;
        assert((ratio * p + p) * b == (ratio * b) * p + p * b) by (nonlinear_arith);
        assert((ratio * b) * p < ((nb + 1) * (nb + 1)) * p) by (nonlinear_arith)
            requires
                ratio * b < (nb + 1) * (nb + 1),
                p > 0,
        ;
        assert(((nb + 1) * (nb + 1)) * p == (nb * nb) * p + (2 * nb + 1) * p) by (nonlinear_arith);
        assert((nb * nb) * p == (nb * p) * nb) by (nonlinear_arith);
        assert((nb * p) * nb <= (nq * d) * nb) by (nonlinear_arith)
            requires
                nb * p <= nq * d,
        ;
        assert((nq * d) * nb == (nq * nb) * d) by (nonlinear_arith);
        assert(p * (b + 2 * nb + 1) == p * b + (2 * nb + 1) * p) by (nonlinear_arith);
    }
}

/// A market: its parameters, its reserves and the history of its reserves.
pub struct Vamm {
    config: Config,
    state: State,
    snapshots: Vec<ReserveSnapshot>,
}

impl Vamm {
    /// The market's parameters.
    pub closed spec fn config_spec(&self) -> Config {
        self.config
    }

    /// The market's reserves and funding schedule.
    pub closed spec fn state_spec(&self) -> State {
        self.state
    }

    /// The history of the reserves, oldest first.
    pub closed spec fn snapshots_spec(&self) -> Seq<ReserveSnapshot> {
        self.snapshots@
    }

    /// What every market built by this module satisfies: a positive scale,
    /// a positive funding period, positive reserves, a well-formed history
    /// whose latest snapshot shows the current reserves.
    pub open spec fn wf(&self) -> bool {
        &&& self.config_spec().decimals > 0
        &&& self.state_spec().funding_period > 0
        &&& self.state_spec().quote_asset_reserve > 0
        &&& self.state_spec().base_asset_reserve > 0
        &&& snapshots_wf(self.snapshots_spec())
        &&& self.snapshots_spec().last().quote_asset_reserve
            == self.state_spec().quote_asset_reserve
        &&& self.snapshots_spec().last().base_asset_reserve
            == self.state_spec().base_asset_reserve
    }

    /// Opens a market in the block given. `decimals` is the number of
    /// fractional digits of every amount. Both reserves and the funding
    /// period must be positive. The first settlement is scheduled one
    /// funding period from now.
    pub fn new(
        owner: String,
        margin_engine: String,
        quote_asset: String,
        base_asset: String,
        decimals: u8,
        quote_asset_reserve: u128,
        base_asset_reserve: u128,
        funding_period: u64,
        toll_ratio: u128,
        spread_ratio: u128,
        now: u64,
        block_height: u64,
    ) -> (r: Result<Vamm, ContractError>)
        ensures
            r is Err <==> (quote_asset_reserve == 0 || base_asset_reserve == 0 || funding_period
                == 0 || pow10_spec(decimals as nat) > u128::MAX || now + funding_period
                > u64::MAX),
            r matches Err(e) ==> e == (if quote_asset_reserve == 0 || base_asset_reserve == 0
                || funding_period == 0 {
                ContractError::InvalidRequest
            } else {
                ContractError::Overflow
            }),
            r matches Ok(v) ==> {
                &&& v.wf()
                &&& v.config_spec() == (Config {
                    owner,
                    margin_engine,
                    quote_asset,
                    base_asset,
                    decimals: pow10_spec(decimals as nat) as u128,
                    toll_ratio,
                    spread_ratio,
                })
                &&& v.state_spec() == (State {
                    quote_asset_reserve,
                    base_asset_reserve,
                    funding_rate: SignedDecimal { magnitude: 0, negative: false },
                    funding_period,
                    next_funding_time: (now + funding_period) as u64,
                })
                &&& v.snapshots_spec() == seq![
                    ReserveSnapshot {
                        quote_asset_reserve,
                        base_asset_reserve,
                        timestamp: now,
                        block_height,
                    },
                ]
            },
    {
        if quote_asset_reserve == 0 || base_asset_reserve == 0 || funding_period == 0 {
            return Err(ContractError::InvalidRequest);
        }
        let scale: u128 = match pow10(decimals) {
            Some(v) => v,
            None => {
                return Err(ContractError::Overflow);
            },
        };
        proof {
            lemma_pow10_grows(0, decimals as nat);
        }
        let next_funding_time: u64 = match now.checked_add(funding_period) {
            Some(v) => v,
            None => {
                return Err(ContractError::Overflow);
            },
        };
        let mut snapshots: Vec<ReserveSnapshot> = Vec::new();
        snapshots.push(
            ReserveSnapshot {
                quote_asset_reserve,
                base_asset_reserve,
                timestamp: now,
                block_height,
            },
        );
        let v = Vamm {
            config: Config {
                owner,
                margin_engine,
                quote_asset,
                base_asset,
                decimals: scale,
                toll_ratio,
                spread_ratio,
            },
            state: State {
                quote_asset_reserve,
                base_asset_reserve,
                funding_rate: SignedDecimal::zero(),
                funding_period,
                next_funding_time,
            },
            snapshots,
        };
        assert(v.snapshots_spec() =~= seq![
            ReserveSnapshot {
                quote_asset_reserve,
                base_asset_reserve,
                timestamp: now,
                block_height,
            },
        ]);
        Ok(v)
    }

    /// Whether parts make up a market: what [`Vamm::wf`] asks of them.
    pub open spec fn parts_wf(
        config: Config,
        state: State,
        snapshots: Seq<ReserveSnapshot>,
    ) -> bool {
        &&& config.decimals > 0
        &&& state.funding_period > 0
        &&& state.quote_asset_reserve > 0
        &&& state.base_asset_reserve > 0
        &&& snapshots_wf(snapshots)
        &&& snapshots.last().quote_asset_reserve == state.quote_asset_reserve
        &&& snapshots.last().base_asset_reserve == state.base_asset_reserve
    }

    /// Puts a market together from its parameters, its state and its
    /// history, as they were read from storage. Parts that do not fit
    /// together are an invalid request.
    pub fn from_parts(config: Config, state: State, snapshots: Vec<ReserveSnapshot>) -> (r: Result<
        Vamm,
        ContractError,
    >)
        ensures
            r is Ok <==> Self::parts_wf(config, state, snapshots@),
            r matches Err(e) ==> e == ContractError::InvalidRequest,
            r matches Ok(v) ==> {
                &&& v.wf()
                &&& v.config_spec() == config
                &&& v.state_spec() == state
                &&& v.snapshots_spec() == snapshots@
            },
    {
        if config.decimals == 0 || state.funding_period == 0 || state.quote_asset_reserve == 0
            || state.base_asset_reserve == 0 || snapshots.len() == 0 {
            return Err(ContractError::InvalidRequest);
        }
        let mut i: usize = 0;
        while i < snapshots.len()
            invariant
                i <= snapshots@.len(),
                forall|k: int|
                    0 <= k < i ==> (#[trigger] snapshots@[k]).quote_asset_reserve > 0
                        && snapshots@[k].base_asset_reserve > 0,
                forall|k: int, j: int|
                    0 <= k < j < i ==> (#[trigger] snapshots@[k]).timestamp <= (
                    #[trigger] snapshots@[j]).timestamp && snapshots@[k].block_height
                        < snapshots@[j].block_height,
            decreases snapshots@.len() - i,
        {
            let here: ReserveSnapshot = snapshots[i];
            if here.quote_asset_reserve == 0 || here.base_asset_reserve == 0 {
                return Err(ContractError::InvalidRequest);
            }
            if i > 0 {
                let before: ReserveSnapshot = snapshots[i - 1];
                if before.timestamp > here.timestamp || before.block_height >= here.block_height {
                    return Err(ContractError::InvalidRequest);
                }
                assert forall|k: int| 0 <= k < i implies (#[trigger] snapshots@[k]).timestamp
                    <= here.timestamp && snapshots@[k].block_height < here.block_height by {
                    if k < i - 1 {
                        assert(snapshots@[k].timestamp <= snapshots@[i - 1].timestamp);
                    }
                }
            }
            i = i + 1;
        }
        let last: ReserveSnapshot = snapshots[snapshots.len() - 1];
        if last.quote_asset_reserve != state.quote_asset_reserve || last.base_asset_reserve
            != state.base_asset_reserve {
            return Err(ContractError::InvalidRequest);
        }
        Ok(Vamm { config, state, snapshots })
    }

    /// The market's reserves and funding schedule.
    pub fn query_state(&self) -> (r: State)
        ensures
            r == self.state_spec(),
    {
        self.state
    }

    /// The market's parameters.
    pub fn query_config(&self) -> (r: &Config)
        ensures
            *r == self.config_spec(),
    {
        &self.config
    }

    /// Changes the owner, the toll ratio and the spread ratio, each where a
    /// new value is given. Only the present owner may do so.
    pub fn update_config(
        &mut self,
        sender: &str,
        owner: Option<String>,
        toll_ratio: Option<u128>,
        spread_ratio: Option<u128>,
    ) -> (r: Result<(), ContractError>)
        ensures
            r is Err <==> sender@ != old(self).config_spec().owner@,
            r matches Err(e) ==> e == ContractError::Unauthorized && *final(self) == *old(self),
            r is Ok ==> {
                &&& final(self).config_spec() == (Config {
                    owner: match owner {
                        Some(o) => o,
                        None => old(self).config_spec().owner,
                    },
                    toll_ratio: match toll_ratio {
                        Some(t) => t,
                        None => old(self).config_spec().toll_ratio,
                    },
                    spread_ratio: match spread_ratio {
                        Some(t) => t,
                        None => old(self).config_spec().spread_ratio,
                    },
                    ..old(self).config_spec()
                })
                &&& final(self).state_spec() == old(self).state_spec()
                &&& final(self).snapshots_spec() == old(self).snapshots_spec()
            },
    {
        if !str_eq(sender, self.config.owner.as_str()) {
            return Err(ContractError::Unauthorized);
        }
        if let Some(o) = owner {
            self.config.owner = o;
        }
        if let Some(t) = toll_ratio {
            self.config.toll_ratio = t;
        }
        if let Some(t) = spread_ratio {
            self.config.spread_ratio = t;
        }
        Ok(())
    }

    /// How many snapshots the history holds.
    pub fn read_reserve_snapshot_counter(&self) -> (r: usize)
        ensures
            r == self.snapshots_spec().len(),
    {
        self.snapshots.len()
    }

    /// The snapshot at a place in the history, counted from one as the
    /// counter counts; `None` outside the history.
    pub fn read_reserve_snapshot(&self, height: usize) -> (r: Option<ReserveSnapshot>)
        ensures
            r == (if 1 <= height <= self.snapshots_spec().len() {
                Some(self.snapshots_spec()[height - 1])
            } else {
                None
            }),
    {
        if height >= 1 && height <= self.snapshots.len() {
            Some(self.snapshots[height - 1])
        } else {
            None
        }
    }

    /// Records the current reserves in the history for the block given.
    fn store_reserve_snapshot(&mut self, now: u64, block_height: u64)
        requires
            snapshots_wf(old(self).snapshots_spec()),
            old(self).state_spec().quote_asset_reserve > 0,
            old(self).state_spec().base_asset_reserve > 0,
            !clock_runs_backwards(old(self).snapshots_spec(), now, block_height),
        ensures
            final(self).config_spec() == old(self).config_spec(),
            final(self).state_spec() == old(self).state_spec(),
            final(self).snapshots_spec() == record_snapshot(
                old(self).snapshots_spec(),
                old(self).state_spec().quote_asset_reserve,
                old(self).state_spec().base_asset_reserve,
                now,
                block_height,
            ),
            snapshots_wf(final(self).snapshots_spec()),
    {
        let last: usize = self.snapshots.len() - 1;
        let latest: ReserveSnapshot = self.snapshots[last];
        if latest.block_height == block_height {
            self.snapshots.set(
                last,
                ReserveSnapshot {
                    quote_asset_reserve: self.state.quote_asset_reserve,
                    base_asset_reserve: self.state.base_asset_reserve,
                    timestamp: latest.timestamp,
                    block_height,
                },
            );
        } else {
            self.snapshots.push(
                ReserveSnapshot {
                    quote_asset_reserve: self.state.quote_asset_reserve,
                    base_asset_reserve: self.state.base_asset_reserve,
                    timestamp: now,
                    block_height,
                },
            );
        }
    }

    /// Whether a change in the block given can follow the history: the
    /// block is the latest one, or a later one whose clock has not fallen
    /// back.
    pub fn accepts_block(&self, now: u64, block_height: u64) -> (r: bool)
        requires
            self.wf(),
        ensures
            r == !clock_runs_backwards(self.snapshots_spec(), now, block_height),
    {
        let latest: ReserveSnapshot = self.snapshots[self.snapshots.len() - 1];
        !(block_height < latest.block_height || (block_height > latest.block_height && now
            < latest.timestamp))
    }

    /// Sets the reserves to what a trade has left of them and records them
    /// in the history for the block given.
    pub(crate) fn move_reserves(&mut self, quote: u128, base: u128, now: u64, block_height: u64)
        requires
            old(self).wf(),
            quote > 0,
            base > 0,
            !clock_runs_backwards(old(self).snapshots_spec(), now, block_height),
        ensures
            final(self).wf(),
            final(self).config_spec() == old(self).config_spec(),
            final(self).state_spec() == (State {
                quote_asset_reserve: quote,
                base_asset_reserve: base,
                ..old(self).state_spec()
            }),
            final(self).snapshots_spec() == record_snapshot(
                old(self).snapshots_spec(),
                quote,
                base,
                now,
                block_height,
            ),
    {
        self.state.quote_asset_reserve = quote;
        self.state.base_asset_reserve = base;
        self.store_reserve_snapshot(now, block_height);
    }

    /// The price of one base unit in quote units at the current reserves.
    pub fn spot_price(&self) -> (r: Result<u128, ContractError>)
        ensures
            r == spot_price_spec(
                self.state_spec().quote_asset_reserve,
                self.state_spec().base_asset_reserve,
                self.config_spec().decimals,
            ),
    {
        match mul_div(
            self.state.quote_asset_reserve,
            self.config.decimals,
            self.state.base_asset_reserve,
        ) {
            Some(p) => Ok(p),
            None => Err(ContractError::Overflow),
        }
    }

    /// What [`Vamm::query_output_price`] returns.
    pub open spec fn query_output_price_spec(&self, direction: Direction, base_asset_amount: u128)
        -> Result<u128, ContractError> {
        output_price_spec(
            direction,
            base_asset_amount as nat,
            self.state_spec().quote_asset_reserve as nat,
            self.state_spec().base_asset_reserve as nat,
        )
    }

    /// The base amount that `quote_asset_amount` buys or costs at the
    /// current reserves, without trading.
    pub fn query_input_price(&self, direction: Direction, quote_asset_amount: u128) -> (r: Result<
        u128,
        ContractError,
    >)
        ensures
            r == input_price_spec(
                direction,
                quote_asset_amount as nat,
                self.state_spec().quote_asset_reserve as nat,
                self.state_spec().base_asset_reserve as nat,
            ),
    {
        get_input_price_with_reserves(
            direction,
            quote_asset_amount,
            self.state.quote_asset_reserve,
            self.state.base_asset_reserve,
        )
    }

    /// The quote amount that `base_asset_amount` buys or costs at the
    /// current reserves, without trading.
    pub fn query_output_price(&self, direction: Direction, base_asset_amount: u128) -> (r: Result<
        u128,
        ContractError,
    >)
        ensures
            r == self.query_output_price_spec(direction, base_asset_amount),
    {
        get_output_price_with_reserves(
            direction,
            base_asset_amount,
            self.state.quote_asset_reserve,
            self.state.base_asset_reserve,
        )
    }

    /// What [`Vamm::swap_input`] returns.
    pub open spec fn swap_input_spec(
        &self,
        direction: Direction,
        quote_asset_amount: u128,
        now: u64,
        block_height: u64,
    ) -> Result<SwapResult, ContractError> {
        if clock_runs_backwards(self.snapshots_spec(), now, block_height) {
            Err(ContractError::InvalidRequest)
        } else {
            match input_price_spec(
                direction,
                quote_asset_amount as nat,
                self.state_spec().quote_asset_reserve as nat,
                self.state_spec().base_asset_reserve as nat,
            ) {
                Ok(base) => Ok(SwapResult { input: quote_asset_amount, output: base }),
                Err(e) => Err(e),
            }
        }
    }

    /// What [`Vamm::swap_output`] returns.
    pub open spec fn swap_output_spec(
        &self,
        direction: Direction,
        base_asset_amount: u128,
        now: u64,
        block_height: u64,
    ) -> Result<SwapResult, ContractError> {
        if clock_runs_backwards(self.snapshots_spec(), now, block_height) {
            Err(ContractError::InvalidRequest)
        } else {
            match output_price_spec(
                direction,
                base_asset_amount as nat,
                self.state_spec().quote_asset_reserve as nat,
                self.state_spec().base_asset_reserve as nat,
            ) {
                Ok(quote) => Ok(SwapResult { input: base_asset_amount, output: quote }),
                Err(e) => Err(e),
            }
        }
    }

    /// Trades `quote_asset_amount` of the quote asset into or out of the
    /// pool, in the block given. The quote reserve moves by that amount, the
    /// base reserve by the price, and the history records the new reserves.
    pub fn swap_input(
        &mut self,
        direction: Direction,
        quote_asset_amount: u128,
        now: u64,
        block_height: u64,
    ) -> (r: Result<SwapResult, ContractError>)
        requires
            old(self).wf(),
        ensures
            final(self).wf(),
            r == old(self).swap_input_spec(direction, quote_asset_amount, now, block_height),
            r is Err ==> *final(self) == *old(self),
            r matches Ok(res) ==> {
                &&& final(self).config_spec() == old(self).config_spec()
                &&& final(self).state_spec() == (State {
                    quote_asset_reserve: moved_reserve(
                        direction,
                        old(self).state_spec().quote_asset_reserve,
                        quote_asset_amount,
                    ) as u128,
                    base_asset_reserve: priced_reserve(
                        direction,
                        old(self).state_spec().base_asset_reserve,
                        res.output,
                    ) as u128,
                    ..old(self).state_spec()
                })
                &&& final(self).snapshots_spec() == record_snapshot(
                    old(self).snapshots_spec(),
                    final(self).state_spec().quote_asset_reserve,
                    final(self).state_spec().base_asset_reserve,
                    now,
                    block_height,
                )
                &&& product_kept(
                    old(self).state_spec(),
                    final(self).state_spec(),
                    final(self).state_spec().quote_asset_reserve,
                )
            },
    {
        if !self.accepts_block(now, block_height) {
            return Err(ContractError::InvalidRequest);
        }
        let quote: u128 = self.state.quote_asset_reserve;
        let base: u128 = self.state.base_asset_reserve;
        let price: u128 = match get_input_price_with_reserves(
            direction,
            quote_asset_amount,
            quote,
            base,
        ) {
            Ok(p) => p,
            Err(e) => {
                return Err(e);
            },
        };
        proof {
            let quote_after = moved_reserve(direction, quote, quote_asset_amount) as nat;
            lemma_reserve_after_range(quote as nat, base as nat, quote_after);
            lemma_div_ceil_bounds(quote as nat * base as nat, quote_after);
            assert(reserve_after(quote as nat, base as nat, quote_after) * quote_after
                == quote_after * reserve_after(quote as nat, base as nat, quote_after))
                by (nonlinear_arith);
        }
        match direction {
            Direction::AddToAmm => {
                self.move_reserves(quote + quote_asset_amount, base - price, now, block_height);
            },
            Direction::RemoveFromAmm => {
                self.move_reserves(quote - quote_asset_amount, base + price, now, block_height);
            },
        }
        Ok(SwapResult { input: quote_asset_amount, output: price })
    }

    /// Trades `base_asset_amount` of the base asset into or out of the
    /// pool, in the block given. The base reserve moves by that amount, the
    /// quote reserve by the price, and the history records the new reserves.
    pub fn swap_output(
        &mut self,
        direction: Direction,
        base_asset_amount: u128,
        now: u64,
        block_height: u64,
    ) -> (r: Result<SwapResult, ContractError>)
        requires
            old(self).wf(),
        ensures
            final(self).wf(),
            r == old(self).swap_output_spec(direction, base_asset_amount, now, block_height),
            r is Err ==> *final(self) == *old(self),
            r matches Ok(res) ==> {
                &&& final(self).config_spec() == old(self).config_spec()
                &&& final(self).state_spec() == (State {
                    quote_asset_reserve: priced_reserve(
                        direction,
                        old(self).state_spec().quote_asset_reserve,
                        res.output,
                    ) as u128,
                    base_asset_reserve: moved_reserve(
                        direction,
                        old(self).state_spec().base_asset_reserve,
                        base_asset_amount,
                    ) as u128,
                    ..old(self).state_spec()
                })
                &&& final(self).snapshots_spec() == record_snapshot(
                    old(self).snapshots_spec(),
                    final(self).state_spec().quote_asset_reserve,
                    final(self).state_spec().base_asset_reserve,
                    now,
                    block_height,
                )
                &&& product_kept(
                    old(self).state_spec(),
                    final(self).state_spec(),
                    final(self).state_spec().base_asset_reserve,
                )
            },
    {
        if !self.accepts_block(now, block_height) {
            return Err(ContractError::InvalidRequest);
        }
        let quote: u128 = self.state.quote_asset_reserve;
        let base: u128 = self.state.base_asset_reserve;
        let price: u128 = match get_output_price_with_reserves(
            direction,
            base_asset_amount,
            quote,
            base,
        ) {
            Ok(p) => p,
            Err(e) => {
                return Err(e);
            },
        };
        proof {
            let base_after = moved_reserve(direction, base, base_asset_amount) as nat;
            lemma_reserve_after_range(base as nat, quote as nat, base_after);
            lemma_div_ceil_bounds(base as nat * quote as nat, base_after);
            assert(base as nat * quote as nat == quote as nat * base as nat) by (nonlinear_arith);
        }
        match direction {
            Direction::AddToAmm => {
                self.move_reserves(quote - price, base + base_asset_amount, now, block_height);
            },
            Direction::RemoveFromAmm => {
                self.move_reserves(quote + price, base - base_asset_amount, now, block_height);
            },
        }
        Ok(SwapResult { input: base_asset_amount, output: price })
    }
    /// What [`Vamm::twap_price`] returns.
    pub open spec fn twap_price_spec(&self, interval: u64, now: u64) -> Result<
        u128,
        ContractError,
    > {
        let total = weighted_prices(
            self.snapshots_spec(),
            self.config_spec().decimals,
            0,
            now - interval,
            now as int,
        );
        if interval == 0 {
            spot_price_spec(
                self.state_spec().quote_asset_reserve,
                self.state_spec().base_asset_reserve,
                self.config_spec().decimals,
            )
        } else if now < self.snapshots_spec().last().timestamp {
            Err(ContractError::InvalidRequest)
        } else if total > u128::MAX {
            Err(ContractError::Overflow)
        } else {
            Ok((total / (interval as nat)) as u128)
        }
    }

    /// The average price over the `interval` seconds that end at `now`,
    /// each snapshot's price weighted by the time it was in force. An
    /// interval of zero gives the spot price.
    pub fn twap_price(&self, interval: u64, now: u64) -> (r: Result<u128, ContractError>)
        requires
            self.wf(),
        ensures
            r == self.twap_price_spec(interval, now),
            interval == 0 ==> r == spot_price_spec(
                self.state_spec().quote_asset_reserve,
                self.state_spec().base_asset_reserve,
                self.config_spec().decimals,
            ),
    {
        if interval == 0 {
            return self.spot_price();
        }
        let len: usize = self.snapshots.len();
        if now < self.snapshots[len - 1].timestamp {
            return Err(ContractError::InvalidRequest);
        }
        let ghost s = self.snapshots@;
        let ghost start: int = now - interval;
        let decimals: u128 = self.config.decimals;
        let mut acc: u128 = 0;
        let mut i: usize = len;
        while i > 0
            invariant
                self.wf(),
                s == self.snapshots@,
                len == s.len(),
                decimals == self.config.decimals,
                start == now - interval,
                interval > 0,
                now >= s.last().timestamp,
                0 <= i <= len,
                acc == weighted_prices(s, decimals, i as int, start, now as int),
            decreases i,
        {
            i = i - 1;
            let snapshot: ReserveSnapshot = self.snapshots[i];
            let to: u64 = if i == len - 1 {
                now
            } else {
                self.snapshots[i + 1].timestamp
            };
            assert(snapshot.timestamp <= to <= now) by {
                if i < len - 1 {
                    assert(s[i as int].timestamp <= s[i + 1].timestamp);
                    if i + 1 < len - 1 {
                        assert(s[i + 1].timestamp <= s[len - 1].timestamp);
                    }
                }
            }
            let before_window: bool = (snapshot.timestamp as u128) + (interval as u128) <= (
            now as u128);
            let seconds: u128 = if i == 0 || before_window {
                let end: u128 = (to as u128) + (interval as u128);
                if end > now as u128 {
                    end - (now as u128)
                } else {
                    0
                }
            } else {
                (to - snapshot.timestamp) as u128
            };
            assert(seconds == active_seconds(s, i as int, start, now as int));
            let ghost rest: nat = weighted_prices(s, decimals, i + 1, start, now as int);
            let ghost price_here: nat = snapshot_price(s[i as int], decimals);
            assert(weighted_prices(s, decimals, i as int, start, now as int) == price_here
                * seconds as nat + rest);
            proof {
                lemma_weighted_prices_grow(s, decimals, 0, i as int, start, now as int);
            }
            if seconds > 0 {
                let price: u128 = match mul_div(
                    snapshot.quote_asset_reserve,
                    decimals,
                    snapshot.base_asset_reserve,
                ) {
                    Some(p) => p,
                    None => {
                        assert(price_here * seconds as nat >= price_here) by (nonlinear_arith)
                            requires
                                seconds >= 1,
                        ;
                        return Err(ContractError::Overflow);
                    },
                };
                let term: u128 = match price.checked_mul(seconds) {
                    Some(t) => t,
                    None => {
                        return Err(ContractError::Overflow);
                    },
                };
                acc = match acc.checked_add(term) {
                    Some(a) => a,
                    None => {
                        return Err(ContractError::Overflow);
                    },
                };
            } else {
                assert(price_here * 0 == 0) by (nonlinear_arith);
            }
            if i > 0 && before_window {
                proof {
                    lemma_weighted_prices_before_window(
                        s,
                        decimals,
                        0,
                        i as int,
                        start,
                        now as int,
                    );
                }
                return Ok(acc / (interval as u128));
            }
        }
        Ok(acc / (interval as u128))
    }

    /// What [`Vamm::settle_funding`] returns.
    pub open spec fn settle_funding_spec(&self, sender: Seq<char>, now: u64, index_twap: u128)
        -> Result<State, ContractError> {
        let state = self.state_spec();
        let buffer = funding_buffer(state.funding_period);
        if sender != self.config_spec().margin_engine@ {
            Err(ContractError::Unauthorized)
        } else if now + buffer < state.next_funding_time {
            Err(ContractError::TooEarly)
        } else {
            match self.twap_price_spec(state.funding_period, now) {
                Err(e) => Err(e),
                Ok(mark_twap) => {
                    let premium: nat = if mark_twap >= index_twap {
                        (mark_twap - index_twap) as nat
                    } else {
                        (index_twap - mark_twap) as nat
                    };
                    let next: int = if now <= state.next_funding_time + buffer {
                        state.next_funding_time + state.funding_period
                    } else {
                        now + state.funding_period
                    };
                    match mul_div_spec(premium, state.funding_period as nat, day()) {
                        None => Err(ContractError::Overflow),
                        Some(rate) => if next > u64::MAX {
                            Err(ContractError::Overflow)
                        } else {
                            Ok(
                                State {
                                    funding_rate: SignedDecimal {
                                        magnitude: rate,
                                        negative: rate != 0 && mark_twap < index_twap,
                                    },
                                    next_funding_time: next as u64,
                                    ..state
                                },
                            )
                        },
                    }
                },
            }
        }
    }

    /// Settles funding at `now`. Only the margin engine may ask, and not
    /// before the midpoint of the running period. The funding rate becomes
    /// the premium of the market's own average price over the index average
    /// price `index_twap`, divided by the number of funding periods in a
    /// day; both averages span one funding period. A settlement that comes
    /// no later than half a period after the scheduled time keeps the
    /// schedule: the next one is due one period after the scheduled time. A
    /// later settlement restarts the schedule from `now`.
    pub fn settle_funding(&mut self, sender: &str, now: u64, index_twap: u128) -> (r: Result<
        State,
        ContractError,
    >)
        requires
            old(self).wf(),
        ensures
            final(self).wf(),
            r == old(self).settle_funding_spec(sender@, now, index_twap),
            r is Err ==> *final(self) == *old(self),
            r matches Ok(state) ==> {
                &&& final(self).state_spec() == state
                &&& final(self).config_spec() == old(self).config_spec()
                &&& final(self).snapshots_spec() == old(self).snapshots_spec()
                &&& state.next_funding_time > old(self).state_spec().next_funding_time
            },
    {
        if !str_eq(sender, self.config.margin_engine.as_str()) {
            return Err(ContractError::Unauthorized);
        }
        let period: u64 = self.state.funding_period;
        let scheduled: u64 = self.state.next_funding_time;
        let buffer: u64 = period / 2;
        if (now as u128) + (buffer as u128) < scheduled as u128 {
            return Err(ContractError::TooEarly);
        }
        let mark_twap: u128 = match self.twap_price(period, now) {
            Ok(p) => p,
            Err(e) => {
                return Err(e);
            },
        };
        let premium: u128 = if mark_twap >= index_twap {
            mark_twap - index_twap
        } else {
            index_twap - mark_twap
        };
        let rate: u128 = match mul_div(premium, period as u128, 86_400) {
            Some(v) => v,
            None => {
                return Err(ContractError::Overflow);
            },
        };
        let anchor: u64 = if (now as u128) <= (scheduled as u128) + (buffer as u128) {
            scheduled
        } else {
            now
        };
        let next: u64 = match anchor.checked_add(period) {
            Some(v) => v,
            None => {
                return Err(ContractError::Overflow);
            },
        };
        self.state.funding_rate = SignedDecimal {
            magnitude: rate,
            negative: rate != 0 && mark_twap < index_twap,
        };
        self.state.next_funding_time = next;
        Ok(self.state)
    }

    /// What [`Vamm::rebase_vamm`] returns: the state whose base reserve is
    /// the square root, rounded down, of the present product of the reserves
    /// divided by the index price, and whose quote reserve is that base
    /// reserve times the index price, rounded up.
    pub open spec fn rebase_spec(
        &self,
        sender: Seq<char>,
        index_price: u128,
        now: u64,
        block_height: u64,
    ) -> Result<State, ContractError> {
        let state = self.state_spec();
        let decimals = self.config_spec().decimals;
        if sender != self.config_spec().owner@ {
            Err(ContractError::Unauthorized)
        } else if index_price == 0 || clock_runs_backwards(
            self.snapshots_spec(),
            now,
            block_height,
        ) {
            Err(ContractError::InvalidRequest)
        } else {
            match mul_div_spec(
                state.quote_asset_reserve as nat,
                decimals as nat,
                index_price as nat,
            ) {
                None => Err(ContractError::Overflow),
                Some(ratio) => {
                    let base = sqrt_floor(ratio as nat * state.base_asset_reserve as nat);
                    if base == 0 {
                        Err(ContractError::InvalidRequest)
                    } else {
                        match mul_div_ceil_spec(base, index_price as nat, decimals as nat) {
                            None => Err(ContractError::Overflow),
                            Some(quote) => Ok(
                                State {
                                    quote_asset_reserve: quote,
                                    base_asset_reserve: base as u128,
                                    ..state
                                },
                            ),
                        }
                    }
                },
            }
        }
    }

    /// Moves the reserves so that the market trades at `index_price` while
    /// the product of the reserves stays where it is, as far as whole units
    /// of the mantissa allow: [`product_nearly_kept`] says how far. Only the
    /// owner may do so. The new reserves are recorded in the history for the
    /// block given.
    pub fn rebase_vamm(
        &mut self,
        sender: &str,
        index_price: u128,
        now: u64,
        block_height: u64,
    ) -> (r: Result<State, ContractError>)
        requires
            old(self).wf(),
        ensures
            final(self).wf(),
            r == old(self).rebase_spec(sender@, index_price, now, block_height),
            r is Err ==> *final(self) == *old(self),
            r matches Ok(state) ==> {
                &&& final(self).state_spec() == state
                &&& final(self).config_spec() == old(self).config_spec()
                &&& final(self).snapshots_spec() == record_snapshot(
                    old(self).snapshots_spec(),
                    state.quote_asset_reserve,
                    state.base_asset_reserve,
                    now,
                    block_height,
                )
                &&& product_nearly_kept(
                    old(self).state_spec(),
                    state,
                    index_price,
                    old(self).config_spec().decimals,
                )
                &&& state.base_asset_reserve >= old(self).config_spec().decimals
                    ==> spot_price_spec(
                    state.quote_asset_reserve,
                    state.base_asset_reserve,
                    old(self).config_spec().decimals,
                ) == Ok::<u128, ContractError>(index_price)
            },
    {
        if !str_eq(sender, self.config.owner.as_str()) {
            return Err(ContractError::Unauthorized);
        }
        if index_price == 0 || !self.accepts_block(now, block_height) {
            return Err(ContractError::InvalidRequest);
        }
        let decimals: u128 = self.config.decimals;
        let ratio: u128 = match mul_div(self.state.quote_asset_reserve, decimals, index_price) {
            Some(v) => v,
            None => {
                return Err(ContractError::Overflow);
            },
        };
        let base: u128 = sqrt_of_product(ratio, self.state.base_asset_reserve);
        if base == 0 {
            return Err(ContractError::InvalidRequest);
        }
        let quote: u128 = match mul_div_ceil(base, index_price, decimals) {
            Some(v) => v,
            None => {
                return Err(ContractError::Overflow);
            },
        };
        proof {
            lemma_div_ceil_bounds(base as nat * index_price as nat, decimals as nat);
            assert(base as nat * index_price as nat >= 1) by (nonlinear_arith)
                requires
                    base >= 1,
                    index_price >= 1,
            ;
            if quote == 0 {
                assert(0 * decimals as nat == 0) by (nonlinear_arith);
            }
            if base >= decimals {
                lemma_spot_price_after_rebase(base, index_price, decimals, quote);
            }
            let q: nat = self.state.quote_asset_reserve as nat;
            let b: nat = self.state.base_asset_reserve as nat;
            vstd::arithmetic::div_mod::lemma_fundamental_div_mod(
                (q * decimals as nat) as int,
                index_price as int,
            );
            vstd::arithmetic::div_mod::lemma_mod_bound(
                (q * decimals as nat) as int,
                index_price as int,
            );
            assert(index_price as nat * ratio as nat == ratio as nat * index_price as nat)
                by (nonlinear_arith);
            lemma_rebase_product(
                q,
                b,
                index_price as nat,
                decimals as nat,
                ratio as nat,
                base as nat,
                quote as nat,
            );
        }
        self.move_reserves(quote, base, now, block_height);
        Ok(self.state)
    }
}

} // verus!
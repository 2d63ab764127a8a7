//! The price feed: the index prices that the owner reports, one series for
//! each key, and the latest, earlier and time-weighted average price of a
//! series.
use crate::error::ContractError;
use crate::text::str_eq;
use vstd::prelude::*;

verus! {

/// The static parameters of the feed.
#[derive(Clone, Debug, PartialEq, Eq)]
pub struct Config {
    pub owner: String,
}

/// A reported price. Rounds are numbered from one within their series.
#[derive(Clone, Copy, Debug, PartialEq, Eq, Structural)]
pub struct PriceData {
    pub round_id: u128,
    pub price: u128,
    pub timestamp: u64,
}

/// The prices reported under one key, oldest first.
pub struct Series {
    pub key: String,
    pub prices: Vec<PriceData>,
}

/// A series is never empty, numbers its rounds from one, and runs forward
/// in time.
pub open spec fn prices_wf(p: Seq<PriceData>) -> bool {
    &&& p.len() > 0
    &&& forall|i: int| 0 <= i < p.len() ==> (#[trigger] p[i]).round_id == i + 1
    &&& forall|i: int, j: int|
        0 <= i < j < p.len() ==> (#[trigger] p[i]).timestamp <= (#[trigger] p[j]).timestamp
}

/// Every series is well formed and no two series share a key.
pub open spec fn feeds_wf(feeds: Seq<Series>) -> bool {
    &&& forall|i: int| 0 <= i < feeds.len() ==> prices_wf((#[trigger] feeds[i]).prices@)
    &&& forall|i: int, j: int|
        0 <= i < j < feeds.len() ==> (#[trigger] feeds[i]).key@ != (#[trigger] feeds[j]).key@
}

/// The prices reported under `key`, oldest first; none where the key is
/// unknown.
pub open spec fn series_of(feeds: Seq<Series>, key: Seq<char>) -> Seq<PriceData> {
    if exists|i: int| 0 <= i < feeds.len() && (#[trigger] feeds[i]).key@ == key {
        feeds[choose|i: int| 0 <= i < feeds.len() && (#[trigger] feeds[i]).key@ == key].prices@
    } else {
        Seq::empty()
    }
}

/// In a well-formed feed the series found at any index is the series that
/// [`series_of`] gives for its key.
pub proof fn lemma_series_at(feeds: Seq<Series>, i: int)
    requires
        feeds_wf(feeds),
        0 <= i < feeds.len(),
    ensures
        series_of(feeds, feeds[i].key@) == feeds[i].prices@,
{
    let key = feeds[i].key@;
    let j = choose|j: int| 0 <= j < feeds.len() && (#[trigger] feeds[j]).key@ == key;
    if i < j {
        assert(feeds[i].key@ != feeds[j].key@);
    } else if j < i {
        assert(feeds[j].key@ != feeds[i].key@);
    }
}

/// The rounds that a report of `prices` at `timestamps` adds to a series
/// that holds `held` rounds already.
pub open spec fn new_rounds(held: nat, prices: Seq<u128>, timestamps: Seq<u64>) -> Seq<PriceData>
    recommends
        prices.len() == timestamps.len(),
{
    Seq::new(
        prices.len(),
        |i: int|
            PriceData {
                round_id: (held + i + 1) as u128,
                price: prices[i],
                timestamp: timestamps[i],
            },
    )
}

/// Whether timestamps never fall along the sequence.
pub open spec fn runs_forward(timestamps: Seq<u64>) -> bool {
    forall|i: int, j: int|
        0 <= i < j < timestamps.len() ==> (#[trigger] timestamps[i]) <= (#[trigger] timestamps[j])
}

/// Whether a report at `timestamps` can follow the series `held`.
pub open spec fn can_follow(held: Seq<PriceData>, timestamps: Seq<u64>) -> bool {
    &&& runs_forward(timestamps)
    &&& held.len() > 0 && timestamps.len() > 0 ==> held.last().timestamp <= timestamps[0]
}

/// For how many seconds of the window from `start` to `now` the price at
/// `i` was the latest one.
pub open spec fn price_seconds(p: Seq<PriceData>, i: int, start: int, now: int) -> nat
    recommends
        0 <= i < p.len(),
{
    let from: int = if p[i].timestamp < start {
        start
    } else {
        p[i].timestamp as int
    };
    let to: int = if i == p.len() - 1 {
        now
    } else {
        p[i + 1].timestamp as int
    };
    if to > from {
        (to - from) as nat
    } else {
        0
    }
}

/// The sum, over the prices from `first` on, of price times seconds as the
/// latest price.
pub open spec fn weighted_feed_prices(p: Seq<PriceData>, first: int, start: int, now: int) -> nat
    decreases p.len() - first,
{
    if first < 0 || first >= p.len() {
        0
    } else {
        p[first].price as nat * price_seconds(p, first, start, now) + weighted_feed_prices(
            p,
            first + 1,
            start,
            now,
        )
    }
}

/// Where the averaging window of a series starts: `interval` seconds before
/// `now`, but not before the first price.
pub open spec fn window_start(p: Seq<PriceData>, interval: u64, now: u64) -> int
    recommends
        p.len() > 0,
{
    if now - interval > p[0].timestamp {
        now - interval
    } else {
        p[0].timestamp as int
    }
}

/// The average price of a series over the `interval` seconds that end at
/// `now`, each price weighted by the time for which it was the latest. A
/// window that reaches back beyond the first price is cut at the first
/// price; of a window without any length, the latest price is taken.
pub open spec fn twap_of(p: Seq<PriceData>, interval: u64, now: u64) -> Result<
    u128,
    ContractError,
> {
    if interval == 0 || p.len() == 0 || now < p.last().timestamp {
        Err(ContractError::InvalidRequest)
    } else {
        let start = window_start(p, interval, now);
        let total = weighted_feed_prices(p, 0, start, now as int);
        if start == now {
            Ok(p.last().price)
        } else if total > u128::MAX {
            Err(ContractError::Overflow)
        } else {
            Ok((total / ((now - start) as nat)) as u128)
        }
    }
}

/// The sum of the weighted prices from a later price on is part of the sum
/// from an earlier one on.
pub proof fn lemma_weighted_feed_prices_grow(
    p: Seq<PriceData>,
    first: int,
    later: int,
    start: int,
    now: int,
)
    requires
        0 <= first <= later,
    ensures
        weighted_feed_prices(p, first, start, now) >= weighted_feed_prices(p, later, start, now),
    decreases later - first,
{
    if first < later && first < p.len() {
        lemma_weighted_feed_prices_grow(p, first + 1, later, start, now);
    }
}

/// Prices that were replaced before the window began add nothing.
pub proof fn lemma_weighted_feed_prices_before_window(
    p: Seq<PriceData>,
    first: int,
    reached: int,
    start: int,
    now: int,
)
    requires
        prices_wf(p),
        0 <= first <= reached < p.len(),
        p[reached].timestamp <= start,
    ensures
        weighted_feed_prices(p, first, start, now) == weighted_feed_prices(p, reached, start, now),
    decreases reached - first,
{
    if first < reached {
        lemma_weighted_feed_prices_before_window(p, first + 1, reached, start, now);
        assert(p[first + 1].timestamp <= p[reached].timestamp) by {
            if first + 1 < reached {
                assert(p[first + 1].timestamp <= p[reached].timestamp);
            }
        }
        assert(price_seconds(p, first, start, now) == 0);
        assert(p[first].price as nat * 0 == 0) by (nonlinear_arith);
    }
}

/// The feed: its owner and the series reported so far.
pub struct PriceFeed {
    config: Config,
    feeds: Vec<Series>,
}

impl PriceFeed {
    /// The feed's parameters.
    pub closed spec fn config_spec(&self) -> Config {
        self.config
    }

    /// The series, in no particular order.
    pub closed spec fn feeds_spec(&self) -> Seq<Series> {
        self.feeds@
    }

    /// The prices reported under `key`, oldest first.
    pub open spec fn prices_spec(&self, key: Seq<char>) -> Seq<PriceData> {
        series_of(self.feeds_spec(), key)
    }

    /// What every feed built by this module satisfies.
    pub open spec fn wf(&self) -> bool {
        feeds_wf(self.feeds_spec())
    }

    /// A feed without prices, owned by `owner`.
    pub fn new(owner: String) -> (r: PriceFeed)
        ensures
            r.wf(),
            r.config_spec() == (Config { owner }),
            r.feeds_spec() == Seq::<Series>::empty(),
    {
        PriceFeed { config: Config { owner }, feeds: Vec::new() }
    }

    /// Puts a feed together from its parameters and its series, as they
    /// were read from storage. Series that are not well formed, or two
    /// series under one key, are an invalid request.
    pub fn from_parts(config: Config, feeds: Vec<Series>) -> (r: Result<PriceFeed, ContractError>)
        ensures
            r is Ok <==> feeds_wf(feeds@),
            r matches Err(e) ==> e == ContractError::InvalidRequest,
            r matches Ok(feed) ==> {
                &&& feed.wf()
                &&& feed.config_spec() == config
                &&& feed.feeds_spec() == feeds@
            },
    {
        let mut j: usize = 0;
        while j < feeds.len()
            invariant
                j <= feeds@.len(),
                forall|a: int| 0 <= a < j ==> prices_wf((#[trigger] feeds@[a]).prices@),
                forall|a: int, b: int|
                    0 <= a < b < j ==> (#[trigger] feeds@[a]).key@ != (#[trigger] feeds@[b]).key@,
            decreases feeds@.len() - j,
        {
            let prices = &feeds[j].prices;
            if prices.len() == 0 {
                return Err(ContractError::InvalidRequest);
            }
            let mut k: usize = 0;
            while k < prices.len()
                invariant
                    j < feeds@.len(),
                    prices@ == feeds@[j as int].prices@,
                    k <= prices@.len(),
                    prices@.len() > 0,
                    forall|a: int| 0 <= a < k ==> (#[trigger] prices@[a]).round_id == a + 1,
                    forall|a: int, b: int|
                        0 <= a < b < k ==> (#[trigger] prices@[a]).timestamp <= (
                        #[trigger] prices@[b]).timestamp,
                decreases prices@.len() - k,
            {
                let here: PriceData = prices[k];
                if here.round_id != (k as u128) + 1 {
                    return Err(ContractError::InvalidRequest);
                }
                if k > 0 {
                    if prices[k - 1].timestamp > here.timestamp {
                        assert(!prices_wf(prices@)) by {
                            assert(prices@[k - 1].timestamp > prices@[k as int].timestamp);
                        }
                        return Err(ContractError::InvalidRequest);
                    }
                    assert forall|a: int| 0 <= a < k implies (#[trigger] prices@[a]).timestamp
                        <= here.timestamp by {
                        if a < k - 1 {
                            assert(prices@[a].timestamp <= prices@[k - 1].timestamp);
                        }
                    }
                }
                k = k + 1;
            }
            let mut i: usize = 0;
            while i < j
                invariant
                    i <= j < feeds@.len(),
                    forall|a: int|
                        0 <= a < i ==> (#[trigger] feeds@[a]).key@ != feeds@[j as int].key@,
                decreases j - i,
            {
                if str_eq(feeds[i].key.as_str(), feeds[j].key.as_str()) {
                    return Err(ContractError::InvalidRequest);
                }
                i = i + 1;
            }
            j = j + 1;
        }
        Ok(PriceFeed { config, feeds })
    }

    /// The series, in no particular order.
    pub fn feeds(&self) -> (r: &Vec<Series>)
        ensures
            r@ == self.feeds_spec(),
    {
        &self.feeds
    }

    /// The feed's parameters.
    pub fn query_config(&self) -> (r: &Config)
        ensures
            *r == self.config_spec(),
    {
        &self.config
    }

    /// Hands the feed to a new owner, where one is given. Only the present
    /// owner may ask.
    pub fn update_config(&mut self, sender: &str, owner: Option<String>) -> (r: Result<
        (),
        ContractError,
    >)
        ensures
            r is Err <==> sender@ != old(self).config_spec().owner@,
            r matches Err(e) ==> e == ContractError::Unauthorized && *final(self) == *old(self),
            r is Ok ==> {
                &&& final(self).config_spec() == (Config {
                    owner: match owner {
                        Some(o) => o,
                        None => old(self).config_spec().owner,
                    },
                })
                &&& final(self).feeds_spec() == old(self).feeds_spec()
            },
    {
        if !str_eq(sender, self.config.owner.as_str()) {
            return Err(ContractError::Unauthorized);
        }
        if let Some(o) = owner {
            self.config.owner = o;
        }
        Ok(())
    }

    /// Where the series of `key` stands.
    fn find_series(&self, key: &str) -> (r: Option<usize>)
        ensures
            match r {
                Some(i) => i < self.feeds_spec().len() && self.feeds_spec()[i as int].key@ == key@,
                None => forall|j: int|
                    0 <= j < self.feeds_spec().len() ==> (#[trigger] self.feeds_spec()[j]).key@
                        != key@,
            },
    {
        let mut i: usize = 0;
        while i < self.feeds.len()
            invariant
                i <= self.feeds.len(),
                forall|j: int| 0 <= j < i ==> (#[trigger] self.feeds@[j]).key@ != key@,
            decreases self.feeds.len() - i,
        {
            if str_eq(self.feeds[i].key.as_str(), key) {
                return Some(i);
            }
            i = i + 1;
        }
        None
    }

    /// Adds one round to the series of `key`, which the caller has checked
    /// to run forward.
    fn store_price_data(&mut self, key: &String, price: u128, timestamp: u64)
        requires
            old(self).wf(),
            old(self).prices_spec(key@).len() > 0 ==> old(self).prices_spec(key@).last().timestamp
                <= timestamp,
        ensures
            final(self).wf(),
            final(self).config_spec() == old(self).config_spec(),
            final(self).prices_spec(key@) == old(self).prices_spec(key@).push(
                PriceData {
                    round_id: (old(self).prices_spec(key@).len() + 1) as u128,
                    price,
                    timestamp,
                },
            ),
            forall|other: Seq<char>|
                other != key@ ==> #[trigger] final(self).prices_spec(other) == old(
                    self,
                ).prices_spec(other),
    {
        let ghost before = self.feeds@;
        let found = self.find_series(key.as_str());
        let at: usize = match found {
            Some(i) => i,
            None => {
                self.feeds.push(Series { key: key.clone(), prices: Vec::new() });
                self.feeds.len() - 1
            },
        };
        proof {
            if found is Some {
                lemma_series_at(before, at as int);
            }
        }
        let ghost held = self.feeds@[at as int].prices@;
        assert(held == series_of(before, key@));
        let round_id: u128 = (self.feeds[at].prices.len() as u128) + 1;
        let data = PriceData { round_id, price, timestamp };
        self.feeds[at].prices.push(data);
        proof {
            let after = self.feeds@;
            assert(after[at as int].prices@ == held.push(data));
            assert(after[at as int].key@ == key@);
            assert forall|j: int| 0 <= j < after.len() && j != at implies (#[trigger] after[j]).key@
                != key@ && (j < before.len() && after[j] == before[j]) by {}
            assert(prices_wf(held.push(data))) by {
                let grown = held.push(data);
                assert forall|i: int, j: int| 0 <= i < j < grown.len() implies (
                #[trigger] grown[i]).timestamp <= (#[trigger] grown[j]).timestamp by {
                    if j == held.len() {
                        if i < held.len() - 1 {
                            assert(held[i].timestamp <= held[held.len() - 1].timestamp);
                        }
                    } else {
                        assert(held[i].timestamp <= held[j].timestamp);
                    }
                }
            }
            assert(feeds_wf(after)) by {
                assert forall|i: int| 0 <= i < after.len() implies prices_wf(
                    (#[trigger] after[i]).prices@,
                ) by {
                    if i != at {
                        assert(after[i] == before[i]);
                    }
                }
                assert forall|i: int, j: int| 0 <= i < j < after.len() implies (
                #[trigger] after[i]).key@ != (#[trigger] after[j]).key@ by {
                    if i != at && j != at {
                        assert(before[i].key@ != before[j].key@);
                    }
                }
            }
            lemma_series_at(after, at as int);
            assert forall|other: Seq<char>| other != key@ implies series_of(after, other)
                == series_of(before, other) by {
                if exists|i: int| 0 <= i < before.len() && (#[trigger] before[i]).key@ == other {
                    let i = choose|i: int|
                        0 <= i < before.len() && (#[trigger] before[i]).key@ == other;
                    assert(i != at);
                    assert(after[i] == before[i]);
                    lemma_series_at(after, i);
                } else {
                    assert forall|i: int| 0 <= i < after.len() implies (#[trigger] after[i]).key@
                        != other by {
                        if i != at {
                            assert(after[i] == before[i]);
                        }
                    }
                }
            }
        }
    }

    /// How the feed stands after a report of `prices` at `timestamps` under
    /// `key` that returned `r`. A report from anyone but the owner, or with
    /// prices and timestamps that differ in number, is refused as
    /// unauthorized; one whose timestamps fall is invalid; a refused report
    /// changes nothing. An accepted report adds its rounds to the series of
    /// `key` and leaves every other series alone.
    pub open spec fn reported(
        &self,
        before: &PriceFeed,
        sender: Seq<char>,
        key: Seq<char>,
        prices: Seq<u128>,
        timestamps: Seq<u64>,
        r: Result<(), ContractError>,
    ) -> bool {
        if sender != before.config_spec().owner@ || prices.len() != timestamps.len() {
            r == Err::<(), ContractError>(ContractError::Unauthorized) && *self == *before
        } else if !can_follow(before.prices_spec(key), timestamps) {
            r == Err::<(), ContractError>(ContractError::InvalidRequest) && *self == *before
        } else {
            &&& r is Ok
            &&& self.config_spec() == before.config_spec()
            &&& self.prices_spec(key) == before.prices_spec(key) + new_rounds(
                before.prices_spec(key).len(),
                prices,
                timestamps,
            )
            &&& forall|other: Seq<char>|
                other != key ==> #[trigger] self.prices_spec(other) == before.prices_spec(other)
        }
    }

    /// Reports a price under `key`. Only the owner may report, and no price
    /// may be dated before the one it follows.
    pub fn append_price(&mut self, sender: &str, key: String, price: u128, timestamp: u64) -> (r:
        Result<(), ContractError>)
        requires
            old(self).wf(),
        ensures
            final(self).wf(),
            final(self).reported(
                old(self),
                sender@,
                key@,
                Seq::empty().push(price),
                Seq::empty().push(timestamp),
                r,
            ),
    {
        if !str_eq(sender, self.config.owner.as_str()) {
            return Err(ContractError::Unauthorized);
        }
        let ghost held = self.prices_spec(key@);
        match self.latest(key.as_str()) {
            Some(last) => {
                if timestamp < last.timestamp {
                    assert(!can_follow(held, seq![timestamp])) by {
                        assert(seq![timestamp][0] == timestamp);
                    }
                    return Err(ContractError::InvalidRequest);
                }
            },
            None => {},
        }
        assert(can_follow(held, seq![timestamp])) by {
            assert(seq![timestamp][0] == timestamp);
        }
        self.store_price_data(&key, price, timestamp);
        assert(held.push(
            PriceData { round_id: (held.len() + 1) as u128, price, timestamp },
        ) =~= held + new_rounds(held.len(), seq![price], seq![timestamp]));
        Ok(())
    }

    /// Reports several prices under `key`, oldest first. Only the owner may
    /// report. A report whose prices and timestamps differ in number is
    /// refused like one from a stranger; one whose timestamps fall, among
    /// themselves or against the series, is invalid. A refused report adds
    /// nothing.
    pub fn append_multiple_price(
        &mut self,
        sender: &str,
        key: String,
        prices: Vec<u128>,
        timestamps: Vec<u64>,
    ) -> (r: Result<(), ContractError>)
        requires
            old(self).wf(),
        ensures
            final(self).wf(),
            final(self).reported(old(self), sender@, key@, prices@, timestamps@, r),
    {
        if !str_eq(sender, self.config.owner.as_str()) {
            return Err(ContractError::Unauthorized);
        }
        if prices.len() != timestamps.len() {
            return Err(ContractError::Unauthorized);
        }
        let ghost held = self.prices_spec(key@);
        let mut floor: u64 = match self.latest(key.as_str()) {
            Some(last) => last.timestamp,
            None => 0,
        };
        let ghost first_floor = floor;
        let mut k: usize = 0;
        while k < timestamps.len()
            invariant
                *self == *old(self),
                self.wf(),
                sender@ == self.config_spec().owner@,
                prices@.len() == timestamps@.len(),
                held == self.prices_spec(key@),
                held.len() > 0 ==> first_floor == held.last().timestamp,
                held.len() == 0 ==> first_floor == 0,
                k <= timestamps@.len(),
                forall|i: int, j: int|
                    0 <= i < j < k ==> (#[trigger] timestamps@[i]) <= (#[trigger] timestamps@[j]),
                forall|i: int| 0 <= i < k ==> first_floor <= #[trigger] timestamps@[i],
                k == 0 ==> floor == first_floor,
                k > 0 ==> floor == timestamps@[k - 1],
            decreases timestamps@.len() - k,
        {
            if timestamps[k] < floor {
                assert(!can_follow(held, timestamps@)) by {
                    if k > 0 {
                        assert(timestamps@[k - 1] > timestamps@[k as int]);
                    } else {
                        assert(held.last().timestamp > timestamps@[0]);
                    }
                }
                return Err(ContractError::InvalidRequest);
            }
            floor = timestamps[k];
            k = k + 1;
        }
        assert(can_follow(held, timestamps@)) by {
            if held.len() > 0 && timestamps@.len() > 0 {
                assert(first_floor <= timestamps@[0]);
            }
        }
        let mut index: usize = 0;
        while index < prices.len()
            invariant
                index <= prices@.len(),
                prices@.len() == timestamps@.len(),
                self.wf(),
                runs_forward(timestamps@),
                held.len() > 0 && timestamps@.len() > 0 ==> held.last().timestamp <= timestamps@[0],
                self.config_spec() == old(self).config_spec(),
                held == old(self).prices_spec(key@),
                self.prices_spec(key@) == held + new_rounds(
                    held.len(),
                    prices@.subrange(0, index as int),
                    timestamps@.subrange(0, index as int),
                ),
                forall|other: Seq<char>|
                    other != key@ ==> #[trigger] self.prices_spec(other) == old(self).prices_spec(
                        other,
                    ),
            decreases prices@.len() - index,
        {
            let ghost so_far = self.prices_spec(key@);
            let ghost mid = *self;
            proof {
                if so_far.len() > 0 {
                    if index == 0 {
                        assert(so_far =~= held);
                    } else {
                        assert(so_far.last().timestamp == timestamps@[index - 1]);
                        assert(timestamps@[index - 1] <= timestamps@[index as int]);
                    }
                }
            }
            self.store_price_data(&key, prices[index], timestamps[index]);
            proof {
                assert(self.prices_spec(key@) =~= held + new_rounds(
                    held.len(),
                    prices@.subrange(0, index + 1),
                    timestamps@.subrange(0, index + 1),
                ));
                assert forall|other: Seq<char>| other != key@ implies #[trigger] self.prices_spec(
                    other,
                ) == old(self).prices_spec(other) by {
                    assert(mid.prices_spec(other) == old(self).prices_spec(other));
                }
            }
            index = index + 1;
        }
        assert(prices@.subrange(0, prices@.len() as int) =~= prices@);
        assert(timestamps@.subrange(0, timestamps@.len() as int) =~= timestamps@);
        Ok(())
    }

    /// The latest price under `key`, if there is one.
    fn latest(&self, key: &str) -> (r: Option<PriceData>)
        requires
            self.wf(),
        ensures
            r == (if self.prices_spec(key@).len() == 0 {
                None
            } else {
                Some(self.prices_spec(key@).last())
            }),
    {
        match self.find_series(key) {
            Some(i) => {
                proof {
                    lemma_series_at(self.feeds@, i as int);
                }
                let prices = &self.feeds[i].prices;
                Some(prices[prices.len() - 1])
            },
            None => None,
        }
    }

    /// The latest price under `key`; asking for a key without prices is
    /// invalid.
    pub fn query_get_price(&self, key: &str) -> (r: Result<PriceData, ContractError>)
        requires
            self.wf(),
        ensures
            r == (if self.prices_spec(key@).len() == 0 {
                Err::<PriceData, ContractError>(ContractError::InvalidRequest)
            } else {
                Ok::<PriceData, ContractError>(self.prices_spec(key@).last())
            }),
    {
        match self.latest(key) {
            Some(p) => Ok(p),
            None => Err(ContractError::InvalidRequest),
        }
    }

    /// The price under `key` that lies `num_round_back` rounds before the
    /// latest; asking for more rounds back than the series holds before its
    /// latest is invalid.
    pub fn query_get_previous_price(&self, key: &str, num_round_back: u128) -> (r: Result<
        PriceData,
        ContractError,
    >)
        requires
            self.wf(),
        ensures
            r == (if num_round_back >= self.prices_spec(key@).len() {
                Err::<PriceData, ContractError>(ContractError::InvalidRequest)
            } else {
                Ok::<PriceData, ContractError>(
                    self.prices_spec(key@)[self.prices_spec(key@).len() - 1 - num_round_back],
                )
            }),
    {
        match self.find_series(key) {
            Some(i) => {
                proof {
                    lemma_series_at(self.feeds@, i as int);
                }
                let prices = &self.feeds[i].prices;
                if num_round_back >= prices.len() as u128 {
                    return Err(ContractError::InvalidRequest);
                }
                Ok(prices[prices.len() - 1 - (num_round_back as usize)])
            },
            None => Err(ContractError::InvalidRequest),
        }
    }

    /// The time-weighted average price under `key` over the `interval`
    /// seconds that end at `now`.
    pub fn query_get_twap_price(&self, key: &str, interval: u64, now: u64) -> (r: Result<
        u128,
        ContractError,
    >)
        requires
            self.wf(),
        ensures
            r == twap_of(self.prices_spec(key@), interval, now),
    {
        if interval == 0 {
            return Err(ContractError::InvalidRequest);
        }
        let at: usize = match self.find_series(key) {
            Some(i) => i,
            None => {
                return Err(ContractError::InvalidRequest);
            },
        };
        proof {
            lemma_series_at(self.feeds@, at as int);
        }
        let prices = &self.feeds[at].prices;
        let ghost p = prices@;
        let len: usize = prices.len();
        if now < prices[len - 1].timestamp {
            return Err(ContractError::InvalidRequest);
        }
        assert(p[0].timestamp <= p[len - 1].timestamp) by {
            if len > 1 {
                assert(p[0].timestamp <= p[len - 1].timestamp);
            }
        }
        let start: u64 = if (prices[0].timestamp as u128) + (interval as u128) >= now as u128 {
            prices[0].timestamp
        } else {
            now - interval
        };
        assert(start == window_start(p, interval, now));
        if start == now {
            return Ok(prices[len - 1].price);
        }
        let mut acc: u128 = 0;
        let mut i: usize = len;
        while i > 0
            invariant
                prices_wf(p),
                p == prices@,
                p == self.prices_spec(key@),
                len == p.len(),
                interval > 0,
                start == window_start(p, interval, now),
                start < now,
                now >= p.last().timestamp,
                0 <= i <= len,
                acc == weighted_feed_prices(p, i as int, start as int, now as int),
            decreases i,
        {
            i = i - 1;
            let record: PriceData = prices[i];
            let to: u64 = if i == len - 1 {
                now
            } else {
                prices[i + 1].timestamp
            };
            assert(record.timestamp <= to <= now) by {
                if i < len - 1 {
                    assert(p[i as int].timestamp <= p[i + 1].timestamp);
                    if i + 1 < len - 1 {
                        assert(p[i + 1].timestamp <= p[len - 1].timestamp);
                    }
                }
            }
            let from: u64 = if record.timestamp < start {
                start
            } else {
                record.timestamp
            };
            let seconds: u64 = if to > from {
                to - from
            } else {
                0
            };
            assert(seconds == price_seconds(p, i as int, start as int, now as int));
            assert(weighted_feed_prices(p, i as int, start as int, now as int) == p[i as int].price
                as nat * seconds as nat + weighted_feed_prices(
                p,
                i + 1,
                start as int,
                now as int,
            ));
            proof {
                lemma_weighted_feed_prices_grow(p, 0, i as int, start as int, now as int);
            }
            let term: u128 = match record.price.checked_mul(seconds as u128) {
                Some(t) => t,
                None => {
                    return Err(ContractError::Overflow);
                },
            };
            acc = match acc.checked_add(term) {
                Some(a) => a,
                None => {
                    return Err(ContractError::Overflow);
                },
            };
            if i > 0 && record.timestamp <= start {
                proof {
                    lemma_weighted_feed_prices_before_window(
                        p,
                        0,
                        i as int,
                        start as int,
                        now as int,
                    );
                }
                return Ok(acc / ((now - start) as u128));
            }
        }
        Ok(acc / ((now - start) as u128))
    }
}

/// What the feed can be told to do.
#[derive(Clone, Debug, PartialEq, Eq)]
pub enum ExecuteMsg {
    AppendPrice { key: String, price: u128, timestamp: u64 },
    AppendMultiplePrice { key: String, prices: Vec<u128>, timestamps: Vec<u64> },
    UpdateConfig { owner: Option<String> },
}

/// What the feed can be asked.
#[derive(Clone, Debug, PartialEq, Eq)]
pub enum QueryMsg {
    Config {  },
    GetPrice { key: String },
    GetPreviousPrice { key: String, num_round_back: u128 },
    GetTwapPrice { key: String, interval: u64 },
}

/// What the feed answers.
#[derive(Clone, Debug, PartialEq, Eq)]
pub enum QueryResponse {
    Config(Config),
    Price(PriceData),
    TwapPrice(u128),
}

/// Sets up a feed owned by `sender`.
pub fn instantiate(sender: String) -> (r: PriceFeed)
    ensures
        r.wf(),
        r.config_spec() == (Config { owner: sender }),
        r.feeds_spec() == Seq::<Series>::empty(),
{
    PriceFeed::new(sender)
}

/// Does what `msg` tells the feed, on behalf of `sender`.
pub fn execute(feed: &mut PriceFeed, sender: &str, msg: ExecuteMsg) -> (r: Result<
    (),
    ContractError,
>)
    requires
        old(feed).wf(),
    ensures
        final(feed).wf(),
        match msg {
            ExecuteMsg::AppendPrice { key, price, timestamp } => final(feed).reported(
                old(feed),
                sender@,
                key@,
                Seq::empty().push(price),
                Seq::empty().push(timestamp),
                r,
            ),
            ExecuteMsg::AppendMultiplePrice { key, prices, timestamps } => final(feed).reported(
                old(feed),
                sender@,
                key@,
                prices@,
                timestamps@,
                r,
            ),
            ExecuteMsg::UpdateConfig { owner } => if sender@ != old(feed).config_spec().owner@ {
                r == Err::<(), ContractError>(ContractError::Unauthorized) && *final(feed) == *old(
                    feed,
                )
            } else {
                &&& r is Ok
                &&& final(feed).config_spec() == (Config {
                    owner: match owner {
                        Some(o) => o,
                        None => old(feed).config_spec().owner,
                    },
                })
                &&& final(feed).feeds_spec() == old(feed).feeds_spec()
            },
        },
{
    match msg {
        ExecuteMsg::AppendPrice { key, price, timestamp } => feed.append_price(
            sender,
            key,
            price,
            timestamp,
        ),
        ExecuteMsg::AppendMultiplePrice { key, prices, timestamps } => feed.append_multiple_price(
            sender,
            key,
            prices,
            timestamps,
        ),
        ExecuteMsg::UpdateConfig { owner } => feed.update_config(sender, owner),
    }
}

/// What [`query`] answers.
pub open spec fn query_spec(feed: &PriceFeed, now: u64, msg: QueryMsg) -> Result<
    QueryResponse,
    ContractError,
> {
    match msg {
        QueryMsg::Config {  } => Ok(QueryResponse::Config(feed.config_spec())),
        QueryMsg::GetPrice { key } => if feed.prices_spec(key@).len() == 0 {
            Err(ContractError::InvalidRequest)
        } else {
            Ok(QueryResponse::Price(feed.prices_spec(key@).last()))
        },
        QueryMsg::GetPreviousPrice { key, num_round_back } => if num_round_back
            >= feed.prices_spec(key@).len() {
            Err(ContractError::InvalidRequest)
        } else {
            Ok(
                QueryResponse::Price(
                    feed.prices_spec(key@)[feed.prices_spec(key@).len() - 1 - num_round_back],
                ),
            )
        },
        QueryMsg::GetTwapPrice { key, interval } => match twap_of(
            feed.prices_spec(key@),
            interval,
            now,
        ) {
            Ok(p) => Ok(QueryResponse::TwapPrice(p)),
            Err(e) => Err(e),
        },
    }
}

/// Answers a question at the time `now`.
pub fn query(feed: &PriceFeed, now: u64, msg: QueryMsg) -> (r: Result<QueryResponse, ContractError>)
    requires
        feed.wf(),
    ensures
        r == query_spec(feed, now, msg),
{
    match msg {
        QueryMsg::Config {  } => Ok(
            QueryResponse::Config(Config { owner: feed.query_config().owner.clone() }),
        ),
        QueryMsg::GetPrice { key } => match feed.query_get_price(key.as_str()) {
            Ok(p) => Ok(QueryResponse::Price(p)),
            Err(e) => Err(e),
        },
        QueryMsg::GetPreviousPrice { key, num_round_back } => match feed.query_get_previous_price(
            key.as_str(),
            num_round_back,
        ) {
            Ok(p) => Ok(QueryResponse::Price(p)),
            Err(e) => Err(e),
        },
        QueryMsg::GetTwapPrice { key, interval } => match feed.query_get_twap_price(
            key.as_str(),
            interval,
            now,
        ) {
            Ok(p) => Ok(QueryResponse::TwapPrice(p)),
            Err(e) => Err(e),
        },
    }
}

} // verus!

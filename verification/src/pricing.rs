//! The price series and the scheduling queries over it: the active price,
//! whether a refresh is due, and how long to sleep until the next one.

use crate::clock;
use crate::points::{
    sort_by_start, sort_points, sorted_by_start, PricePoint,
};
use vstd::prelude::*;

verus! {

/// Milliseconds in one day.
pub const DAY_MS: i64 = 86_400_000;

/// How the active price is rendered by a front end.
#[derive(Clone, Copy, PartialEq, Eq, Structural, Debug)]
pub enum OutputFormat {
    Quiet,
    Json,
    JsonPretty,
    Csv,
    Plain,
}

/// The price in force at some instant, or nothing when the series does not
/// cover that instant. Fields mirror [`PricePoint`].
#[derive(Clone, Copy, PartialEq, Eq, Structural, Debug)]
pub struct ActivePrice {
    pub price_micro: Option<i64>,
    pub starts_at_ms: Option<i64>,
}

impl ActivePrice {
    /// The empty answer: no price is in force.
    pub fn new() -> (r: Self)
        ensures
            r.price_micro is None,
            r.starts_at_ms is None,
    {
        Self { price_micro: None, starts_at_ms: None }
    }

    /// The answer naming `price_point` as the price in force.
    pub fn new_from_price_point(price_point: &PricePoint) -> (r: Self)
        ensures
            r.price_micro == Some(price_point.total_micro),
            r.starts_at_ms == Some(price_point.starts_at_ms),
    {
        Self {
            price_micro: Some(price_point.total_micro),
            starts_at_ms: Some(price_point.starts_at_ms),
        }
    }
}

impl Default for ActivePrice {
    fn default() -> (r: Self)
        ensures
            r.price_micro is None,
            r.starts_at_ms is None,
    {
        ActivePrice::new()
    }
}

/// An ordered series of price points.
#[derive(Debug)]
pub struct PricePoints(Vec<PricePoint>);

impl Clone for PricePoints {
    /// A detached snapshot holding the same records.
    fn clone(&self) -> (r: Self)
        ensures
            r@ == self@,
    {
        let n = self.0.len();
        let mut copy: Vec<PricePoint> = Vec::new();
        let mut i: usize = 0;
        while i < n
            invariant
                n == self.0@.len(),
                i <= n,
                copy@ == self.0@.subrange(0, i as int),
            decreases n - i,
        {
            copy.push(self.0[i]);
            proof {
                assert(copy@ =~= self.0@.subrange(0, i + 1));
            }
            i = i + 1;
        }
        proof {
            assert(copy@ =~= self.0@);
        }
        PricePoints(copy)
    }
}

impl View for PricePoints {
    type V = Seq<PricePoint>;

    closed spec fn view(&self) -> Seq<PricePoint> {
        self.0@
    }
}

/// Some record starts strictly before `t`.
pub open spec fn spec_has_before(s: Seq<PricePoint>, t: int) -> bool {
    exists|i: int| 0 <= i < s.len() && s[i].starts_at_ms < t
}

/// Some record starts strictly after `t`.
pub open spec fn spec_has_after(s: Seq<PricePoint>, t: int) -> bool {
    exists|i: int| 0 <= i < s.len() && s[i].starts_at_ms > t
}

/// `t` lies strictly inside the covered span: records start on both sides of
/// it, neither side merely touching.
pub open spec fn spec_has_prices_for(s: Seq<PricePoint>, t: int) -> bool {
    spec_has_before(s, t) && spec_has_after(s, t)
}

/// The start of the chronologically last record; the recency of the series.
pub open spec fn spec_latest(s: Seq<PricePoint>) -> Option<i64> {
    if s.len() == 0 {
        None
    } else {
        Some(s.last().starts_at_ms)
    }
}

/// Strictly fresher data: `a` is newer than `b` when `a` has a last record
/// and `b` either has none or has an older one. Ties are not newer.
pub open spec fn spec_newer_than(a: Seq<PricePoint>, b: Seq<PricePoint>) -> bool {
    a.len() > 0 && (b.len() == 0 || b.last().starts_at_ms < a.last().starts_at_ms)
}

/// The first position `i` at or after `from` whose record is in force at
/// `now`: it has begun, and the following record has not.
pub open spec fn spec_active_index_from(s: Seq<PricePoint>, now: int, from: int) -> Option<int>
    decreases s.len() - from,
{
    if from < 0 || from + 1 >= s.len() {
        None
    } else if s[from].starts_at_ms <= now && now < s[from + 1].starts_at_ms {
        Some(from)
    } else {
        spec_active_index_from(s, now, from + 1)
    }
}

pub open spec fn spec_active_index(s: Seq<PricePoint>, now: int) -> Option<int> {
    spec_active_index_from(s, now, 0)
}

/// The record in force at `now`, if the series covers `now`. The last record
/// alone never qualifies: nothing bounds its end.
pub open spec fn spec_active_price(s: Seq<PricePoint>, now: int) -> Option<PricePoint> {
    match spec_active_index(s, now) {
        Some(i) => Some(s[i]),
        None => None,
    }
}

pub open spec fn spec_get_active_price(s: Seq<PricePoint>, now: int) -> ActivePrice {
    match spec_active_price(s, now) {
        Some(p) => ActivePrice {
            price_micro: Some(p.total_micro),
            starts_at_ms: Some(p.starts_at_ms),
        },
        None => ActivePrice { price_micro: None, starts_at_ms: None },
    }
}

/// The first position at or after `from` whose record starts strictly after
/// `now`.
pub open spec fn spec_first_future_from(s: Seq<PricePoint>, now: int, from: int) -> Option<int>
    decreases s.len() - from,
{
    if from < 0 || from >= s.len() {
        None
    } else if s[from].starts_at_ms > now {
        Some(from)
    } else {
        spec_first_future_from(s, now, from + 1)
    }
}

pub open spec fn spec_first_future(s: Seq<PricePoint>, now: int) -> Option<int> {
    spec_first_future_from(s, now, 0)
}

/// An integer squeezed into `u64`: negative becomes zero, too large becomes
/// `u64::MAX`.
pub open spec fn clamp_to_u64(x: int) -> u64 {
    if x < 0 {
        0u64
    } else if x > u64::MAX {
        u64::MAX
    } else {
        x as u64
    }
}

/// `i64` addition that stops at the ends of the range instead of wrapping.
pub open spec fn sat_add_i64(a: int, b: int) -> int {
    if a + b > i64::MAX {
        i64::MAX as int
    } else if a + b < i64::MIN {
        i64::MIN as int
    } else {
        a + b
    }
}

/// How long to sleep until the next record comes into force: the gap to the
/// first future start, plus one millisecond so the wait never ends early.
pub open spec fn spec_duration_to_next_active(s: Seq<PricePoint>, now: int) -> Option<u64> {
    match spec_first_future(s, now) {
        Some(i) => Some(clamp_to_u64(s[i].starts_at_ms - now + 1)),
        None => None,
    }
}

/// Whether a refresh is due: always when today's coverage is missing;
/// otherwise only when tomorrow's coverage is missing and the local clock has
/// reached the provider's daily publication time.
pub open spec fn spec_should_fetch(
    s: Seq<PricePoint>,
    update: crate::schedule::UpdateTime,
    now: int,
    local_tod_s: int,
) -> bool {
    if !spec_has_prices_for(s, now) {
        true
    } else if !spec_has_prices_for(s, sat_add_i64(now, DAY_MS as int)) && local_tod_s
        >= update.hour * 3600 + update.minute * 60 {
        true
    } else {
        false
    }
}

/// The base sleep before the next refresh: zero when today's coverage is
/// missing or the publication time has passed with tomorrow still uncovered;
/// otherwise the gap to the next publication instant, never negative.
pub open spec fn spec_duration_to_new_price_list(
    s: Seq<PricePoint>,
    now: int,
    today_update: int,
    tomorrow_update: int,
) -> u64 {
    if !spec_has_prices_for(s, now) {
        0u64
    } else if spec_has_prices_for(s, sat_add_i64(now, DAY_MS as int)) {
        clamp_to_u64(tomorrow_update - now)
    } else if now > today_update {
        0u64
    } else {
        clamp_to_u64(today_update - now)
    }
}

impl PricePoints {
    /// A series with no records at all.
    pub fn new() -> (r: Self)
        ensures
            r@ == Seq::<PricePoint>::empty(),
    {
        PricePoints(Vec::new())
    }

    /// The series holding exactly `prices`, put into chronological order by
    /// the stable sort.
    pub fn from_prices(prices: Vec<PricePoint>) -> (r: Self)
        ensures
            r@ == sort_by_start(prices@),
            sorted_by_start(r@),
            r@.to_multiset() == prices@.to_multiset(),
    {
        proof {
            crate::points::lemma_sort_ensures(prices@);
        }
        PricePoints(sort_points(prices))
    }

    /// One refreshed snapshot: the provider's sets for today and for
    /// tomorrow, concatenated and sorted into the chronological series used
    /// by every other operation.
    pub fn merge_from(today: Vec<PricePoint>, tomorrow: Vec<PricePoint>) -> (r: Self)
        ensures
            r@ == sort_by_start(today@ + tomorrow@),
            sorted_by_start(r@),
            r@.to_multiset() == (today@ + tomorrow@).to_multiset(),
    {
        let mut all = today;
        let ghost today_view = all@;
        let mut rest = tomorrow;
        all.append(&mut rest);
        proof {
            assert(all@ == today_view + tomorrow@);
        }
        Self::from_prices(all)
    }

    pub fn len(&self) -> (r: usize)
        ensures
            r == self@.len(),
    {
        self.0.len()
    }

    pub fn is_empty(&self) -> (r: bool)
        ensures
            r == (self@.len() == 0),
    {
        self.0.len() == 0
    }

    pub fn get(&self, index: usize) -> (r: Option<PricePoint>)
        ensures
            index < self@.len() ==> r == Some(self@[index as int]),
            index >= self@.len() ==> r is None,
    {
        if index < self.0.len() {
            Some(self.0[index])
        } else {
            None
        }
    }

    pub fn last(&self) -> (r: Option<PricePoint>)
        ensures
            self@.len() > 0 ==> r == Some(self@.last()),
            self@.len() == 0 ==> r is None,
    {
        if self.0.len() > 0 {
            Some(self.0[self.0.len() - 1])
        } else {
            None
        }
    }

    /// The start of the last record, the series' recency.
    pub fn latest_price_date(&self) -> (r: Option<i64>)
        ensures
            r == spec_latest(self@),
    {
        if self.0.len() > 0 {
            Some(self.0[self.0.len() - 1].starts_at_ms)
        } else {
            None
        }
    }

    /// Strict recency comparison; ties are not newer.
    pub fn has_more_recent_prices(&self, other: &Self) -> (r: bool)
        ensures
            r == spec_newer_than(self@, other@),
    {
        if self.0.len() == 0 {
            false
        } else if other.0.len() == 0 {
            true
        } else {
            other.0[other.0.len() - 1].starts_at_ms < self.0[self.0.len() - 1].starts_at_ms
        }
    }

    /// Whether `date_ms` lies strictly inside the covered span.
    pub fn has_prices_for_date(&self, date_ms: i64) -> (r: bool)
        ensures
            r == spec_has_prices_for(self@, date_ms as int),
    {
        let n = self.0.len();
        let mut before = false;
        let mut after = false;
        let mut i: usize = 0;
        while i < n
            invariant
                n == self@.len(),
                i <= n,
                before == exists|k: int| 0 <= k < i && self@[k].starts_at_ms < date_ms,
                after == exists|k: int| 0 <= k < i && self@[k].starts_at_ms > date_ms,
            decreases n - i,
        {
            if self.0[i].starts_at_ms < date_ms {
                before = true;
            }
            if self.0[i].starts_at_ms > date_ms {
                after = true;
            }
            i = i + 1;
        }
        before && after
    }

    /// The record in force at `now_ms`, found by the linear scan over
    /// adjacent pairs.
    pub fn active_price_at(&self, now_ms: i64) -> (r: Option<PricePoint>)
        ensures
            r == spec_active_price(self@, now_ms as int),
    {
        let n = self.0.len();
        let mut i: usize = 0;
        while n > 0 && i < n - 1
            invariant
                n == self@.len(),
                i <= n,
                spec_active_index(self@, now_ms as int) == spec_active_index_from(
                    self@,
                    now_ms as int,
                    i as int,
                ),
            decreases n - i,
        {
            if self.0[i].starts_at_ms <= now_ms && now_ms < self.0[i + 1].starts_at_ms {
                return Some(self.0[i]);
            }
            i = i + 1;
        }
        None
    }

    /// How long to sleep until the next record comes into force, or nothing
    /// when no record lies in the future.
    pub fn duration_to_next_active_price_at(&self, now_ms: i64) -> (r: Option<u64>)
        ensures
            r == spec_duration_to_next_active(self@, now_ms as int),
    {
        let n = self.0.len();
        let mut i: usize = 0;
        while i < n
            invariant
                n == self@.len(),
                i <= n,
                spec_first_future(self@, now_ms as int) == spec_first_future_from(
                    self@,
                    now_ms as int,
                    i as int,
                ),
            decreases n - i,
        {
            if self.0[i].starts_at_ms > now_ms {
                let gap: i128 = self.0[i].starts_at_ms as i128 - now_ms as i128 + 1;
                if gap > u64::MAX as i128 {
                    return Some(u64::MAX);
                }
                return Some(gap as u64);
            }
            i = i + 1;
        }
        None
    }

    /// The refresh gate on given readings of the clock.
    pub fn should_fetch_prices_at(
        &self,
        update_time: &crate::schedule::UpdateTime,
        now_ms: i64,
        local_tod_s: u32,
    ) -> (r: bool)
        ensures
            r == spec_should_fetch(self@, *update_time, now_ms as int, local_tod_s as int),
    {
        if !self.has_prices_for_date(now_ms) {
            return true;
        }
        let tomorrow_ms = match now_ms.checked_add(DAY_MS) {
            Some(t) => t,
            None => i64::MAX,
        };
        if !self.has_prices_for_date(tomorrow_ms) {
            let update_s: u32 = update_time.hour as u32 * 3600 + update_time.minute as u32 * 60;
            if local_tod_s >= update_s {
                return true;
            }
        }
        false
    }

    /// The base sleep before the next refresh, on given readings of the
    /// clock and of the two publication instants.
    pub fn duration_to_new_price_list_at(
        &self,
        now_ms: i64,
        today_update_ms: i64,
        tomorrow_update_ms: i64,
    ) -> (r: u64)
        ensures
            r == spec_duration_to_new_price_list(
                self@,
                now_ms as int,
                today_update_ms as int,
                tomorrow_update_ms as int,
            ),
    {
        if !self.has_prices_for_date(now_ms) {
            return 0;
        }
        let tomorrow_ms = match now_ms.checked_add(DAY_MS) {
            Some(t) => t,
            None => i64::MAX,
        };
        if self.has_prices_for_date(tomorrow_ms) {
            return clamp_sub_to_u64(tomorrow_update_ms, now_ms);
        }
        if now_ms > today_update_ms {
            return 0;
        }
        clamp_sub_to_u64(today_update_ms, now_ms)
    }

    /// The refresh gate against the real clock.
    pub fn should_fetch_prices(&self, update_time: &crate::schedule::UpdateTime) -> (r: bool)
        ensures
            exists|now: i64, tod: u32|
                tod < 86400 && r == spec_should_fetch(self@, *update_time, now as int, tod as int),
    {
        let (now_ms, local_tod_s) = clock::local_clock_now();
        let r = self.should_fetch_prices_at(update_time, now_ms, local_tod_s);
        proof {
            assert(local_tod_s < 86400 && r == spec_should_fetch(
                self@,
                *update_time,
                now_ms as int,
                local_tod_s as int,
            ));
        }
        r
    }

    /// The base sleep before the next refresh, against the real clock. When
    /// the local time zone leaves a publication instant without a single
    /// interpretation, the worker is told to wake at once and decide again.
    pub fn duration_to_new_price_list(&self, update_time: &crate::schedule::UpdateTime) -> (r:
        u64)
        ensures
            r == 0 || exists|now: i64, today_up: i64, tomorrow_up: i64|
                r == spec_duration_to_new_price_list(
                    self@,
                    now as int,
                    today_up as int,
                    tomorrow_up as int,
                ),
    {
        let (now_ms, _) = clock::local_clock_now();
        match clock::local_update_instants(update_time.hour, update_time.minute) {
            Some((today_up, tomorrow_up)) => {
                let r = self.duration_to_new_price_list_at(now_ms, today_up, tomorrow_up);
                proof {
                    assert(r == spec_duration_to_new_price_list(
                        self@,
                        now_ms as int,
                        today_up as int,
                        tomorrow_up as int,
                    ));
                }
                r
            },
            None => 0,
        }
    }

    /// How long to sleep until the next record comes into force, against the
    /// real clock.
    pub fn duration_to_next_active_price(&self) -> (r: Option<u64>)
        ensures
            exists|now: i64| r == spec_duration_to_next_active(self@, now as int),
    {
        let (now_ms, _) = clock::local_clock_now();
        let r = self.duration_to_next_active_price_at(now_ms);
        proof {
            assert(r == spec_duration_to_next_active(self@, now_ms as int));
        }
        r
    }

    /// Whether the series covers the present instant.
    pub fn has_today_prices(&self) -> (r: bool)
        ensures
            exists|now: i64| r == spec_has_prices_for(self@, now as int),
    {
        let (now_ms, _) = clock::local_clock_now();
        let r = self.has_prices_for_date(now_ms);
        proof {
            assert(r == spec_has_prices_for(self@, now_ms as int));
        }
        r
    }

    /// Whether the series covers the instant one day ahead of the present.
    pub fn has_tomorrows_prices(&self) -> (r: bool)
        ensures
            exists|now: i64| r == spec_has_prices_for(self@, sat_add_i64(now as int, DAY_MS as int)),
    {
        let (now_ms, _) = clock::local_clock_now();
        let tomorrow_ms = match now_ms.checked_add(DAY_MS) {
            Some(t) => t,
            None => i64::MAX,
        };
        let r = self.has_prices_for_date(tomorrow_ms);
        proof {
            assert(r == spec_has_prices_for(self@, sat_add_i64(now_ms as int, DAY_MS as int)));
        }
        r
    }

    /// Replaces this series with `new_prices` exactly when the candidate is
    /// strictly newer; otherwise leaves it untouched. The decision step of a
    /// refresh cycle, between the fetch and the write to storage.
    pub fn adopt_if_newer(&mut self, new_prices: PricePoints) -> (r: bool)
        ensures
            r == spec_newer_than(new_prices@, old(self)@),
            r ==> final(self)@ == new_prices@,
            !r ==> final(self)@ == old(self)@,
    {
        if new_prices.has_more_recent_prices(self) {
            *self = new_prices;
            true
        } else {
            false
        }
    }

    /// The price in force now, or the empty answer when the series does not
    /// cover the present instant.
    pub fn get_active_price(&self) -> (r: ActivePrice)
        ensures
            exists|now: i64| r == spec_get_active_price(self@, now as int),
    {
        let (now_ms, _) = clock::local_clock_now();
        let r = match self.active_price_at(now_ms) {
            Some(p) => ActivePrice::new_from_price_point(&p),
            None => ActivePrice::new(),
        };
        proof {
            assert(r == spec_get_active_price(self@, now_ms as int));
        }
        r
    }
}

/// `max(0, a - b)` squeezed into `u64`.
fn clamp_sub_to_u64(a: i64, b: i64) -> (r: u64)
    ensures
        r == clamp_to_u64(a - b),
{
    let wide: i128 = a as i128 - b as i128;
    if wide < 0 {
        0
    } else if wide > u64::MAX as i128 {
        u64::MAX
    } else {
        wide as u64
    }
}

/// The record that `spec_active_price` names really is the one in force: it
/// has begun by `now` and its successor has not; and outside the covered
/// span — before the first record, or once the last record's own start has
/// been reached — there is no active price.
pub proof fn lemma_active_price_is_active(s: Seq<PricePoint>, now: int)
    requires
        sorted_by_start(s),
    ensures
        spec_active_index(s, now) matches Some(i) ==> 0 <= i && i + 1 < s.len()
            && s[i].starts_at_ms <= now && now < s[i + 1].starts_at_ms
            && spec_active_price(s, now) == Some(s[i]),
        s.len() > 0 && now < s[0].starts_at_ms ==> spec_active_price(s, now) is None,
        s.len() > 0 && now >= s.last().starts_at_ms ==> spec_active_price(s, now) is None,
{
    lemma_active_index_from_properties(s, now, 0);
}

proof fn lemma_active_index_from_properties(s: Seq<PricePoint>, now: int, from: int)
    requires
        sorted_by_start(s),
        0 <= from,
    ensures
        spec_active_index_from(s, now, from) matches Some(i) ==> from <= i && i + 1 < s.len()
            && s[i].starts_at_ms <= now && now < s[i + 1].starts_at_ms,
        from < s.len() && now < s[from].starts_at_ms ==> spec_active_index_from(s, now, from)
            is None,
        s.len() > 0 && now >= s.last().starts_at_ms ==> spec_active_index_from(s, now, from)
            is None,
    decreases s.len() - from,
{
    if from + 1 >= s.len() {
    } else {
        lemma_active_index_from_properties(s, now, from + 1);
    }
}

/// Inside the covered span there always is an active price: if some record
/// has begun by `now` and some later record has not, the scan finds a pair.
pub proof fn lemma_active_price_exists(s: Seq<PricePoint>, now: int)
    requires
        sorted_by_start(s),
        s.len() > 0,
        s[0].starts_at_ms <= now,
        now < s.last().starts_at_ms,
    ensures
        spec_active_price(s, now) is Some,
{
    lemma_active_index_from_exists(s, now, 0);
}

proof fn lemma_active_index_from_exists(s: Seq<PricePoint>, now: int, from: int)
    requires
        sorted_by_start(s),
        0 <= from < s.len(),
        s[from].starts_at_ms <= now,
        now < s.last().starts_at_ms,
    ensures
        spec_active_index_from(s, now, from) is Some,
    decreases s.len() - from,
{
    if from + 1 >= s.len() {
        assert(false);
    } else if s[from].starts_at_ms <= now && now < s[from + 1].starts_at_ms {
    } else {
        assert(s[from + 1].starts_at_ms <= now);
        lemma_active_index_from_exists(s, now, from + 1);
    }
}

/// Recency comparison is a strict order: a series is never newer than
/// itself, two series of equal recency are mutually not newer, and newer is
/// asymmetric — so once a candidate has been installed, offering the same or
/// an older series again can never displace it.
pub proof fn lemma_newer_than_strict(a: Seq<PricePoint>, b: Seq<PricePoint>)
    ensures
        !spec_newer_than(a, a),
        spec_latest(a) == spec_latest(b) ==> !spec_newer_than(a, b) && !spec_newer_than(b, a),
        spec_newer_than(a, b) ==> !spec_newer_than(b, a),
{
}

} // verus!

use std::time::{SystemTime, UNIX_EPOCH};
use tibprice::points::PricePoint;
use tibprice::pricing::PricePoints;

fn now_ms() -> i64 {
    SystemTime::now()
        .duration_since(UNIX_EPOCH)
        .expect("clock before the epoch")
        .as_millis() as i64
}

const HOUR_MS: i64 = 3_600_000;
const DAY_MS: i64 = 86_400_000;

fn point(total_micro: i64, starts_at_ms: i64) -> PricePoint {
    PricePoint { total_micro, starts_at_ms }
}

#[test]
fn test_price_points_new() {
    let price_points = PricePoints::new();
    assert!(price_points.is_empty());
}

#[test]
fn test_price_points_has_today_prices() {
    let now = now_ms();

    // Add a price point for yesterday
    let yesterday = now - DAY_MS;
    let yesterday_price = point(1_000_000, yesterday);

    // Add a price point for tomorrow
    let tomorrow = now + DAY_MS;
    let tomorrow_price = point(2_000_000, tomorrow);

    // Create a new PricePoints with these prices
    let prices = vec![yesterday_price, tomorrow_price];
    let price_points = PricePoints::from_prices(prices);

    assert!(price_points.has_today_prices());
}

#[test]
fn test_price_points_has_tomorrows_prices() {
    let now = now_ms();

    // Add a price point for today
    let today_price = point(1_000_000, now);

    // Add a price point for day after tomorrow
    let day_after_tomorrow = now + 2 * DAY_MS;
    let day_after_tomorrow_price = point(2_000_000, day_after_tomorrow);

    // Create a new PricePoints with these prices
    let prices = vec![today_price, day_after_tomorrow_price];
    let price_points = PricePoints::from_prices(prices);

    assert!(price_points.has_tomorrows_prices());
}

#[test]
fn test_price_points_get_current_price() {
    let now = now_ms();

    // Add a price point for current hour
    let current_price = point(1_000_000, now);

    // Add a price point for next hour
    let next_hour = now + HOUR_MS;
    let next_price = point(2_000_000, next_hour);

    // Create a new PricePoints with these prices
    let prices = vec![current_price, next_price];
    let price_points = PricePoints::from_prices(prices);

    let current = price_points.get_active_price();
    assert_eq!(current.price_micro, Some(current_price.total_micro));
    assert_eq!(current.starts_at_ms, Some(current_price.starts_at_ms));
}

#[test]
fn active_price_picks_the_bounding_pair() {
    let base: i64 = 1_700_000_000_000;
    let prices = vec![
        point(10_000_000, base),
        point(20_000_000, base + HOUR_MS),
        point(30_000_000, base + 2 * HOUR_MS),
    ];
    let series = PricePoints::from_prices(prices);

    // In the middle of the second hour the second point is in force.
    let mid = series.active_price_at(base + HOUR_MS + 1).unwrap();
    assert_eq!(mid.total_micro, 20_000_000);
    assert_eq!(mid.starts_at_ms, base + HOUR_MS);

    // Exactly at a start the new point takes over.
    let at_start = series.active_price_at(base + HOUR_MS).unwrap();
    assert_eq!(at_start.total_micro, 20_000_000);

    // Before the first point nothing is active.
    assert!(series.active_price_at(base - 1).is_none());

    // From the last point's own start on, nothing bounds its end.
    assert!(series.active_price_at(base + 2 * HOUR_MS).is_none());
    assert!(series.active_price_at(base + 3 * HOUR_MS).is_none());
}

#[test]
fn empty_series_has_no_active_price() {
    let series = PricePoints::new();
    assert!(series.active_price_at(1_700_000_000_000).is_none());
}

#[test]
fn from_prices_sorts_and_keeps_every_record() {
    let base: i64 = 1_700_000_000_000;
    let prices = vec![
        point(3_000_000, base + 2 * HOUR_MS),
        point(1_000_000, base),
        point(2_000_000, base + HOUR_MS),
    ];
    let series = PricePoints::from_prices(prices);
    assert_eq!(series.len(), 3);
    assert_eq!(series.get(0).unwrap().starts_at_ms, base);
    assert_eq!(series.get(1).unwrap().starts_at_ms, base + HOUR_MS);
    assert_eq!(series.get(2).unwrap().starts_at_ms, base + 2 * HOUR_MS);
    assert_eq!(series.get(0).unwrap().total_micro, 1_000_000);
    assert_eq!(series.get(1).unwrap().total_micro, 2_000_000);
    assert_eq!(series.get(2).unwrap().total_micro, 3_000_000);
}

#[test]
fn sorting_is_stable_for_equal_starts() {
    let base: i64 = 1_700_000_000_000;
    let prices = vec![
        point(111, base + HOUR_MS),
        point(222, base),
        point(333, base + HOUR_MS),
    ];
    let series = PricePoints::from_prices(prices);
    // The two records sharing a start keep the order they were given in.
    assert_eq!(series.get(0).unwrap().total_micro, 222);
    assert_eq!(series.get(1).unwrap().total_micro, 111);
    assert_eq!(series.get(2).unwrap().total_micro, 333);
}

#[test]
fn sorting_a_sorted_series_changes_nothing() {
    let base: i64 = 1_700_000_000_000;
    let prices = vec![
        point(1_230_000, base),
        point(4_560_000, base + HOUR_MS),
        point(7_890_000, base + 2 * HOUR_MS),
    ];
    let again = PricePoints::from_prices(prices.clone());
    let reloaded = PricePoints::from_prices(prices);
    assert_eq!(again.len(), reloaded.len());
    for i in 0..again.len() {
        assert_eq!(again.get(i), reloaded.get(i));
    }
    assert_eq!(again.get(0).unwrap().total_micro, 1_230_000);
    assert_eq!(again.get(2).unwrap().starts_at_ms, base + 2 * HOUR_MS);
}

#[test]
fn merge_from_concatenates_and_sorts() {
    let base: i64 = 1_700_000_000_000;
    let today = vec![point(2, base + HOUR_MS), point(1, base)];
    let tomorrow = vec![point(4, base + DAY_MS + HOUR_MS), point(3, base + DAY_MS)];
    let series = PricePoints::merge_from(today, tomorrow);
    assert_eq!(series.len(), 4);
    assert_eq!(series.get(0).unwrap().total_micro, 1);
    assert_eq!(series.get(1).unwrap().total_micro, 2);
    assert_eq!(series.get(2).unwrap().total_micro, 3);
    assert_eq!(series.get(3).unwrap().total_micro, 4);
}

#[test]
fn recency_comparison_is_strict() {
    let base: i64 = 1_700_000_000_000;
    let a = PricePoints::from_prices(vec![point(1, base), point(2, base + HOUR_MS)]);
    let same_recency = PricePoints::from_prices(vec![point(9, base + HOUR_MS)]);
    let newer = PricePoints::from_prices(vec![point(1, base + 2 * HOUR_MS)]);
    let empty = PricePoints::new();

    // Never newer than itself.
    assert!(!a.has_more_recent_prices(&a));
    // Equal recency: mutually not newer.
    assert!(!a.has_more_recent_prices(&same_recency));
    assert!(!same_recency.has_more_recent_prices(&a));
    // Strictly later last start wins; anything beats the empty series.
    assert!(newer.has_more_recent_prices(&a));
    assert!(!a.has_more_recent_prices(&newer));
    assert!(a.has_more_recent_prices(&empty));
    assert!(!empty.has_more_recent_prices(&a));
    assert!(!empty.has_more_recent_prices(&empty));
}

#[test]
fn adopt_if_newer_replaces_only_with_strictly_newer() {
    let base: i64 = 1_700_000_000_000;
    let mut held = PricePoints::from_prices(vec![point(1, base)]);

    let older = PricePoints::new();
    assert!(!held.adopt_if_newer(older));
    assert_eq!(held.latest_price_date(), Some(base));

    let tie = PricePoints::from_prices(vec![point(7, base)]);
    assert!(!held.adopt_if_newer(tie));
    assert_eq!(held.latest_price_date(), Some(base));
    assert_eq!(held.last().unwrap().total_micro, 1);

    let newer = PricePoints::from_prices(vec![point(9, base + HOUR_MS)]);
    assert!(held.adopt_if_newer(newer));
    assert_eq!(held.latest_price_date(), Some(base + HOUR_MS));
}

#[test]
fn next_active_change_of_empty_series_is_none() {
    let series = PricePoints::new();
    assert_eq!(series.duration_to_next_active_price_at(1_700_000_000_000), None);
}

#[test]
fn next_active_change_rounds_up_past_the_gap() {
    let now: i64 = 1_700_000_000_000;
    let series = PricePoints::from_prices(vec![point(1, now + 5_000)]);
    // One future point: the wait is one millisecond beyond the exact gap.
    assert_eq!(series.duration_to_next_active_price_at(now), Some(5_001));
    // A point already in force is no future change.
    let past = PricePoints::from_prices(vec![point(1, now - 5_000)]);
    assert_eq!(past.duration_to_next_active_price_at(now), None);
}

#[test]
fn coverage_needs_points_strictly_on_both_sides() {
    let t: i64 = 1_700_000_000_000;
    let straddling = PricePoints::from_prices(vec![point(1, t - 1), point(2, t + 1)]);
    assert!(straddling.has_prices_for_date(t));

    let touching = PricePoints::from_prices(vec![point(1, t - 1), point(2, t)]);
    assert!(!touching.has_prices_for_date(t));

    let one_sided = PricePoints::from_prices(vec![point(1, t - 2), point(2, t - 1)]);
    assert!(!one_sided.has_prices_for_date(t));
}

#[test]
fn stale_series_fetches_at_once_even_before_update_time() {
    // The series has points for yesterday and (the start of) today, all in
    // the past: today's span is not covered, so a refresh is due at once,
    // whatever the wall clock shows.
    let now: i64 = 1_700_000_000_000;
    let update = PricePoints::parse_update_time("13:00").unwrap();
    let series =
        PricePoints::from_prices(vec![point(1, now - 20 * HOUR_MS), point(2, now - 10 * HOUR_MS)]);

    // 10:00 local, before the 13:00 publication time.
    let local_tod_s = 10 * 3600;
    assert!(series.should_fetch_prices_at(&update, now, local_tod_s));

    let today_update = now + 3 * HOUR_MS;
    let tomorrow_update = now + 27 * HOUR_MS;
    assert_eq!(series.duration_to_new_price_list_at(now, today_update, tomorrow_update), 0);
}

#[test]
fn full_coverage_waits_for_tomorrows_publication() {
    // The series covers today and tomorrow; at 14:00 local with a 13:00
    // publication time the next fetch is tomorrow's publication, 23 hours
    // away.
    let now: i64 = 1_700_000_000_000;
    let series =
        PricePoints::from_prices(vec![point(1, now - HOUR_MS), point(2, now + 30 * HOUR_MS)]);

    let update = PricePoints::parse_update_time("13:00").unwrap();
    let local_tod_s = 14 * 3600;
    assert!(!series.should_fetch_prices_at(&update, now, local_tod_s));

    let today_update = now - HOUR_MS;
    let tomorrow_update = now + 23 * HOUR_MS;
    assert_eq!(
        series.duration_to_new_price_list_at(now, today_update, tomorrow_update),
        23 * HOUR_MS as u64
    );
}

#[test]
fn today_covered_tomorrow_missing_past_update_time() {
    let now: i64 = 1_700_000_000_000;
    let update = PricePoints::parse_update_time("13:00").unwrap();
    // Coverage for now, none for now + one day.
    let series = PricePoints::from_prices(vec![point(1, now - HOUR_MS), point(2, now + HOUR_MS)]);

    // Before the publication time: nothing to do yet.
    assert!(!series.should_fetch_prices_at(&update, now, 12 * 3600));
    // At or past it: fetch.
    assert!(series.should_fetch_prices_at(&update, now, 13 * 3600));
    assert!(series.should_fetch_prices_at(&update, now, 15 * 3600));

    // Past the update instant the base sleep is zero; before it, the gap.
    let today_update_past = now - HOUR_MS;
    let tomorrow_update_past = now + 23 * HOUR_MS;
    assert_eq!(series.duration_to_new_price_list_at(now, today_update_past, tomorrow_update_past), 0);

    let today_update_ahead = now + 2 * HOUR_MS;
    let tomorrow_update_ahead = now + 26 * HOUR_MS;
    assert_eq!(
        series.duration_to_new_price_list_at(now, today_update_ahead, tomorrow_update_ahead),
        2 * HOUR_MS as u64
    );
}

#[test]
fn clocked_queries_agree_with_a_live_series() {
    // Against the real clock: a series straddling both today and tomorrow
    // reports coverage, no immediate fetch before publication can be told
    // apart here, and the sleep to the next publication is under two days.
    let now = now_ms();
    let series =
        PricePoints::from_prices(vec![point(1, now - HOUR_MS), point(2, now + 30 * HOUR_MS)]);
    assert!(series.has_today_prices());
    assert!(series.has_tomorrows_prices());
    let update = PricePoints::parse_update_time("13:00").unwrap();
    let sleep = series.duration_to_new_price_list(&update);
    assert!(sleep <= 48 * HOUR_MS as u64);
    let change = series.duration_to_next_active_price();
    assert!(change.is_some());
    assert!(change.unwrap() <= 30 * HOUR_MS as u64 + 1);
}

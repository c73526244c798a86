use std::collections::VecDeque;

use dnsglobe::address::parse_ip;
use dnsglobe::app::{fmt_secs, probe_targets, App, SortMode, ViewMode, AUTO_FLAT_WIDTH};
use dnsglobe::clock::{Duration, Instant};
use dnsglobe::dns::{parse_ecs, QueryOutcome, QueryResult};
use dnsglobe::globe::{GlobeView, TRANSITION};
use dnsglobe::history::HISTORY_CAP;
use dnsglobe::keys::Action;
use dnsglobe::records::{RecordType, RECORD_TYPES};
use dnsglobe::resolvers;
use dnsglobe::rows::{Observation, RowState, TtlVerdict};
use dnsglobe::sites::{Degrees, Site, SiteProbe};

const NOW: Instant = Instant { nanos: 1_000_000_000 };

fn secs(n: u64) -> Duration {
    Duration::from_secs(n)
}

fn millis(n: u64) -> Duration {
    Duration::from_millis(n)
}

fn app(domain: &str) -> App {
    App::new(domain.to_string(), resolvers::defaults(), NOW)
}

fn done(result: QueryResult, elapsed: Duration, ecs_honored: Option<bool>) -> RowState {
    RowState::Done { result, elapsed, at: NOW, ecs_honored }
}

fn records(values: &[&str], min_ttl: u32) -> QueryResult {
    QueryResult::Records { values: values.iter().map(|v| v.to_string()).collect(), min_ttl }
}

fn app_with_answers(answers: &[&[&str]]) -> App {
    let mut app = app("example.com");
    app.rows = answers.iter().map(|values| done(records(values, 60), millis(10), None)).collect();
    app
}

/// How far the change has come, eased, as it is drawn.
fn t(view: &GlobeView, now: Instant) -> f64 {
    let p = view.progress(now) as f64 / TRANSITION as f64;
    p * p * (3.0 - 2.0 * p)
}

#[test]
fn round_robin_subsets_form_one_group() {
    // Different 2-IP subsets of one pool, chained by shared members.
    let app = app_with_answers(&[&["a", "b"], &["b", "c"], &["c", "d"], &["a", "d"]]);
    let s = app.summary();
    assert_eq!(s.groups, 1);
    assert_eq!(s.agree, 4);
    assert!(s.majority_rows.iter().all(|&m| m));
    assert_eq!(s.majority_values, vec!["a", "b", "c", "d"]);
}

#[test]
fn disjoint_answer_is_flagged_as_minority() {
    let app = app_with_answers(&[&["new"], &["new"], &["old"]]);
    let s = app.summary();
    assert_eq!(s.groups, 2);
    assert_eq!(s.agree, 2);
    assert_eq!(s.majority_rows, vec![true, true, false]);
}

#[test]
fn full_agreement_means_agree_equals_responding() {
    // The watch-mode stop condition: agree == responding.
    let answers = vec![&["x"] as &[&str]; resolvers::defaults().len()];
    let app = app_with_answers(&answers);
    let s = app.summary();
    assert_eq!(s.responding, resolvers::defaults().len());
    assert_eq!(s.agree, s.responding);
}

#[test]
fn unreachable_resolvers_do_not_block_full_propagation() {
    // With one error row, the rest agreeing still counts as 100%.
    let mut app = app_with_answers(&vec![&["x"] as &[&str]; resolvers::defaults().len() - 1]);
    app.rows.push(done(QueryResult::Error("refused".into()), secs(3), None));
    let s = app.summary();
    assert_eq!(s.groups, 1);
    assert_eq!(s.errors, 1);
    assert_eq!(s.responding, resolvers::defaults().len() - 1);
    assert_eq!(s.agree, s.responding);
}

#[test]
fn location_sort_groups_locations_and_keeps_curated_order_within() {
    let mut app = app_with_answers(&vec![&["x"] as &[&str]; resolvers::defaults().len()]);
    app.sort = SortMode::Location;
    let summary = app.summary();
    let order = app.display_order(&summary, NOW);
    let list = resolvers::defaults();
    let locations: Vec<&str> = order.iter().map(|&i| list[i].location.as_str()).collect();
    assert!(locations.windows(2).all(|w| w[0] <= w[1]));
    // Stable sort: within one location, curated order is preserved.
    let us: Vec<usize> = order.iter().copied().filter(|&i| list[i].location == "US").collect();
    assert!(us.len() > 1);
    assert!(us.windows(2).all(|w| w[0] < w[1]));
}

#[test]
fn status_sort_puts_problems_first_and_time_sort_fastest_first() {
    let mut app = app_with_answers(&[&["new"], &["new"], &["old"]]);
    app.rows.push(done(QueryResult::Error("timeout".into()), secs(3), None));
    app.sort = SortMode::Status;
    let summary = app.summary();
    // Row 2 differs from the majority, row 3 errored; both sort ahead of
    // the agreeing rows.
    assert_eq!(app.display_order(&summary, NOW), vec![2, 3, 0, 1]);

    app.sort = SortMode::Time;
    let order = app.display_order(&summary, NOW);
    // Equal 10ms answers keep their order; the 3s error row is last.
    assert_eq!(order, vec![0, 1, 2, 3]);
}

/// A `now` so far ahead that observations can be placed before it.
fn future_now() -> Instant {
    NOW.saturating_add(secs(100_000))
}

fn obs(values: &[&str], min_ttl: u32, now: Instant, ago: u64) -> Observation {
    Observation {
        values: values.iter().map(|v| v.to_string()).collect(),
        min_ttl,
        at: Instant { nanos: now.nanos - secs(ago).nanos },
    }
}

#[test]
fn word_left_jumps_to_label_starts() {
    let mut app = app("api.example.com");
    app.cursor = app.domain.len();
    let stops: Vec<usize> = std::iter::from_fn(|| {
        app.move_cursor_word_left();
        Some(app.cursor)
    })
    .take(4)
    .collect();
    // "api.example.com": label starts at 12 ("com"), 4 ("example"),
    // 0 ("api"), then stays put.
    assert_eq!(stops, vec![12, 4, 0, 0]);
}

#[test]
fn word_right_jumps_to_label_ends() {
    let mut app = app("api.example.com");
    app.cursor = 0;
    let stops: Vec<usize> = std::iter::from_fn(|| {
        app.move_cursor_word_right();
        Some(app.cursor)
    })
    .take(4)
    .collect();
    assert_eq!(stops, vec![3, 11, 15, 15]);
}

#[test]
fn word_motion_skips_consecutive_dots() {
    let mut app = app("a..b");
    app.cursor = 4;
    app.move_cursor_word_left();
    assert_eq!(app.cursor, 3); // start of "b"
    app.move_cursor_word_left();
    assert_eq!(app.cursor, 0); // past both dots to start of "a"
    app.move_cursor_word_right();
    assert_eq!(app.cursor, 1); // end of "a"
    app.move_cursor_word_right();
    assert_eq!(app.cursor, 4); // past both dots to end of "b"
}

#[test]
fn auto_view_picks_globe_below_the_width_threshold() {
    let app = app("example.com");
    assert!(app.desired_globe(AUTO_FLAT_WIDTH - 1));
    assert!(!app.desired_globe(AUTO_FLAT_WIDTH));
}

#[test]
fn forced_views_ignore_the_width() {
    let mut app = app("example.com");
    app.view_mode = ViewMode::Globe;
    assert!(app.desired_globe(500));
    app.view_mode = ViewMode::Flat;
    assert!(!app.desired_globe(100));
}

#[test]
fn first_sync_snaps_then_resizes_animate() {
    let mut app = app("example.com");
    // Launching in a narrow terminal starts on the globe instantly.
    app.sync_view(120, NOW);
    assert!((t(&app.globe, NOW) - 1.0).abs() < 1e-9);
    // Widening past the threshold animates back toward the flat map:
    // target flips but the morph has barely moved yet.
    app.sync_view(300, NOW);
    assert!(!app.globe.target());
    assert!(t(&app.globe, NOW.saturating_add(millis(1))) > 0.9);
}

#[test]
fn manual_toggle_pins_the_view_against_resizes() {
    let mut app = app("example.com");
    app.sync_view(300, NOW); // auto, wide: flat map
    assert!(!app.globe.target());
    app.toggle_globe(NOW);
    assert_eq!(app.view_mode, ViewMode::Globe);
    // Still globe after re-syncing at a width auto would call flat.
    app.sync_view(300, NOW);
    assert!(app.globe.target());
    app.toggle_globe(NOW);
    assert_eq!(app.view_mode, ViewMode::Flat);
    app.sync_view(120, NOW);
    assert!(!app.globe.target());
}

#[test]
fn fmt_secs_is_compact_two_units() {
    assert_eq!(fmt_secs(42), "42s");
    assert_eq!(fmt_secs(250), "4m10s");
    assert_eq!(fmt_secs(3600), "1h00m");
    assert_eq!(fmt_secs(86_399), "23h59m");
    assert_eq!(fmt_secs(90_000), "1d1h");
}

#[test]
fn verdict_needs_at_least_two_observations() {
    let mut app = app("example.com");
    let now = future_now();
    app.history[0] = VecDeque::from([obs(&["old"], 60, now, 500)]);
    assert_eq!(app.ttl_verdict(0, now), None);
}

#[test]
fn same_answer_past_reported_ttl_is_a_stale_cache() {
    let mut app = app("example.com");
    let now = future_now();
    // First seen 120s ago with a 60s TTL: deadline (60s + grace) passed,
    // TTL never rose, answer unchanged: the cache is ignoring its TTL.
    app.history[0] = VecDeque::from([obs(&["old"], 60, now, 120), obs(&["old"], 60, now, 10)]);
    assert_eq!(app.ttl_verdict(0, now), Some(TtlVerdict::PastTtl));
}

#[test]
fn same_answer_within_ttl_is_no_verdict() {
    let mut app = app("example.com");
    let now = future_now();
    app.history[0] = VecDeque::from([obs(&["old"], 300, now, 60), obs(&["old"], 300, now, 10)]);
    assert_eq!(app.ttl_verdict(0, now), None);
}

#[test]
fn ttl_rising_with_same_answer_means_upstream_lag() {
    let mut app = app("example.com");
    let now = future_now();
    // TTL jumped 60 to 300: the resolver refetched and the authority
    // handed the old data back.
    app.history[0] = VecDeque::from([obs(&["old"], 60, now, 100), obs(&["old"], 300, now, 40)]);
    assert_eq!(app.ttl_verdict(0, now), Some(TtlVerdict::Upstream));
}

#[test]
fn answer_change_resets_the_streak() {
    let mut app = app("example.com");
    let now = future_now();
    // Old answer lingered way past TTL, but the current answer is one
    // fresh sample: no verdict against the new streak.
    app.history[0] = VecDeque::from([
        obs(&["old"], 60, now, 500),
        obs(&["old"], 60, now, 400),
        obs(&["new"], 60, now, 10),
    ]);
    assert_eq!(app.ttl_verdict(0, now), None);
}

#[test]
fn history_is_a_bounded_fifo() {
    let mut app = app("example.com");
    for i in 0..(HISTORY_CAP + 5) {
        app.apply(
            QueryOutcome {
                resolver_index: 0,
                generation: 0,
                result: QueryResult::Records { values: vec![format!("v{i}")], min_ttl: 60 },
                elapsed: millis(10),
                ecs_honored: None,
            },
            NOW,
        );
    }
    assert_eq!(app.history[0].len(), HISTORY_CAP);
    // Oldest entries were dropped first.
    assert_eq!(app.history[0].front().unwrap().values, vec!["v5"]);
}

#[test]
fn requery_skips_agreeing_rows_until_their_ttl_expires() {
    let mut app = app_with_answers(&[&["new"], &["new"], &["old"]]);
    app.queried = Some(("example.com".into(), RecordType::A, None));
    // Majority rows are fresh (60s TTL): only the differing row re-polls.
    let round = app.begin_requery(NOW).unwrap();
    assert_eq!(round.indices, vec![2]);
    assert!(matches!(app.rows[2], RowState::Pending));
    assert!(matches!(app.rows[0], RowState::Done { .. }));
}

#[test]
fn requery_repolls_agreeing_rows_once_expired_and_all_errors() {
    let mut app = app_with_answers(&[&["new"], &["new"], &["old"]]);
    // Row 0's cache entry has expired (TTL 0): even though it agrees,
    // its answer can now legally change, so it re-polls.
    if let RowState::Done { result: QueryResult::Records { min_ttl, .. }, .. } = &mut app.rows[0] {
        *min_ttl = 0;
    }
    app.rows.push(done(QueryResult::Error("timeout".into()), secs(3), None));
    app.queried = Some(("example.com".into(), RecordType::A, None));
    let round = app.begin_requery(NOW).unwrap();
    assert_eq!(round.indices, vec![0, 2, 3]);
}

#[test]
fn estimated_ttl_is_max_over_majority_rows_only() {
    let mut app = app_with_answers(&[&["x"], &["x"], &["y"]]);
    let ttls = [300u32, 3600, 999_999];
    for (row, ttl) in app.rows.iter_mut().zip(ttls) {
        if let RowState::Done { result: QueryResult::Records { min_ttl, .. }, .. } = row {
            *min_ttl = ttl;
        }
    }
    let summary = app.summary();
    // The differing row's huge TTL must not leak into the estimate.
    assert_eq!(app.estimated_ttl(&summary), Some(3600));
}

#[test]
fn stale_expiry_bound_covers_only_differing_rows() {
    let app = app_with_answers(&[&["new"], &["new"], &["old"]]);
    let summary = app.summary();
    let bound = app.stale_expiry_bound(&summary, NOW.saturating_add(millis(5))).unwrap();
    // The differing row was just answered with a 60s TTL.
    assert!(bound.nanos <= secs(60).nanos);
    assert!(bound.nanos > secs(50).nanos);

    // Full agreement: nothing stale, no bound.
    let app = app_with_answers(&[&["x"], &["x"]]);
    let summary = app.summary();
    assert_eq!(app.stale_expiry_bound(&summary, NOW), None);
}

#[test]
fn servfail_counts_as_responding_and_blocks_full_propagation() {
    // A resolver stuck on a delegation whose nameservers were deleted
    // answers SERVFAIL: that's "not propagated here", not noise.
    let mut app = app_with_answers(&[&["x"], &["x"]]);
    app.rows.push(done(QueryResult::ServFail, millis(20), None));
    let s = app.summary();
    assert_eq!(s.servfail, 1);
    assert_eq!(s.errors, 0);
    assert_eq!(s.responding, 3);
    assert_eq!(s.agree, 2);
    assert!(s.agree < s.responding);
}

#[test]
fn status_sort_ranks_servfail_between_no_records_and_errors() {
    let mut app = app_with_answers(&[&["x"]]);
    for result in [
        QueryResult::Error("timeout".into()),
        QueryResult::ServFail,
        QueryResult::NoRecords("NXDOMAIN".into()),
    ] {
        app.rows.push(done(result, millis(20), None));
    }
    app.sort = SortMode::Status;
    let summary = app.summary();
    assert_eq!(app.display_order(&summary, NOW), vec![3, 2, 1, 0]);
}

#[test]
fn ecs_cycling_steps_through_subnets_and_off() {
    let mut app = app("example.com");
    // No list configured: cycling is inert and ECS stays off.
    app.cycle_ecs();
    assert_eq!(app.active_ecs(), None);

    let list =
        vec![parse_ecs("203.0.113.0/24").unwrap(), parse_ecs("198.51.100.0/24").unwrap()];
    app.set_ecs_list(list.clone());
    // Selection starts on the first subnet, then cycles through the rest,
    // off, and around.
    assert_eq!(app.active_ecs(), Some(list[0]));
    app.cycle_ecs();
    assert_eq!(app.active_ecs(), Some(list[1]));
    app.cycle_ecs();
    assert_eq!(app.active_ecs(), None);
    app.cycle_ecs();
    assert_eq!(app.active_ecs(), Some(list[0]));
}

#[test]
fn requery_keeps_the_queried_rounds_subnet_despite_cycling() {
    let subnet = parse_ecs("203.0.113.0/24").unwrap();
    let mut app = app("example.com");
    app.set_ecs_list(vec![subnet]);
    let round = app.begin_query().unwrap();
    assert_eq!(round.ecs, Some(subnet));

    // A poll between cycling and the requery stays on the queried round's
    // subnet.
    app.cycle_ecs();
    assert_eq!(app.active_ecs(), None);
    let round = app.begin_requery(NOW).unwrap();
    assert_eq!(round.ecs, Some(subnet));
    // A fresh query picks up the new selection.
    let round = app.begin_query().unwrap();
    assert_eq!(round.ecs, None);
}

#[test]
fn ctrl_n_requeries_the_queried_domain_with_the_new_subnet() {
    let list =
        vec![parse_ecs("203.0.113.0/24").unwrap(), parse_ecs("198.51.100.0/24").unwrap()];
    let mut app = app("example.com");
    app.set_ecs_list(list.clone());

    // Before any query there's nothing to refresh: cycling alone.
    app.cycle_ecs();
    assert!(app.begin_reselect().is_none());
    app.cycle_ecs(); // back around: off
    app.cycle_ecs(); // first subnet again
    assert_eq!(app.active_ecs(), Some(list[0]));

    let first = app.begin_query().unwrap();
    // Cycle, then a fresh full round on the queried domain, even while the
    // input field is mid-edit.
    app.insert_char('x');
    app.cycle_ecs();
    let round = app.begin_reselect().unwrap();
    assert_eq!(round.domain, "example.com");
    assert_eq!(round.ecs, Some(list[1]));
    assert!(round.generation > first.generation);
    assert_eq!(round.indices.len(), resolvers::defaults().len());
    // The new round is what re-polls now follow.
    assert_eq!(app.queried.as_ref().unwrap().2, Some(list[1]));
}

#[test]
fn tab_requeries_with_the_new_record_type() {
    let mut app = app("example.com");
    // Nothing queried yet: cycling the type refreshes nothing.
    app.cycle_record_type(true);
    assert!(app.begin_reselect().is_none());

    app.begin_query().unwrap();
    app.insert_char('x'); // mid-edit input must not leak into the round
    app.cycle_record_type(true);
    let round = app.begin_reselect().unwrap();
    assert_eq!(round.domain, "example.com");
    assert_eq!(round.rtype, RECORD_TYPES[2]); // A, AAAA, CNAME
    // Re-polls follow the new type.
    assert_eq!(app.queried.as_ref().unwrap().1, RECORD_TYPES[2]);
}

#[test]
fn ecs_blind_answers_are_excluded_from_propagation() {
    // Two resolvers honored the subnet and agree; one ignored ECS and shows
    // its own vantage point's answer. That row must not block 100%.
    let mut app = app_with_answers(&[&["geo"], &["geo"]]);
    for row in &mut app.rows {
        if let RowState::Done { ecs_honored, .. } = row {
            *ecs_honored = Some(true);
        }
    }
    app.rows.push(done(records(&["other"], 60), millis(10), Some(false)));
    app.rows.push(done(QueryResult::NoRecords("NXDomain".into()), millis(10), Some(false)));
    let s = app.summary();
    assert_eq!(s.ecs_blind, 2);
    assert_eq!(s.ok, 2);
    assert_eq!(s.no_records, 0);
    assert_eq!(s.groups, 1);
    assert_eq!(s.responding, 2);
    assert_eq!(s.agree, s.responding); // watch mode can complete
    assert_eq!(s.majority_rows, vec![true, true, false, false]);
}

#[test]
fn nxdomain_counts_as_responding_and_blocks_full_propagation() {
    // "No such record" is a real propagation signal: that resolver
    // responded, and its view disagrees, so agree < responding.
    let mut app = app_with_answers(&[&["x"], &["x"]]);
    app.rows.push(done(QueryResult::NoRecords("NXDOMAIN".into()), millis(20), None));
    let s = app.summary();
    assert_eq!(s.responding, 3);
    assert_eq!(s.agree, 2);
    assert!(s.agree < s.responding);
}

// ---------------------------------------------------------------- the watch

fn outcome(index: usize, generation: u64, result: QueryResult) -> QueryOutcome {
    QueryOutcome {
        resolver_index: index,
        generation,
        result,
        elapsed: millis(10),
        ecs_honored: None,
    }
}

fn small_app() -> App {
    let mut list = resolvers::defaults();
    list.truncate(2);
    App::new("example.com".to_string(), list, NOW)
}

#[test]
fn watch_stops_once_the_record_has_propagated() {
    let mut app = small_app();
    let round = app.start_query().unwrap();
    assert_eq!(round.indices, vec![0, 1]);
    assert!(app.auto_refresh);
    app.apply(outcome(0, round.generation, records(&["a"], 60)), NOW);
    app.settle(NOW);
    assert!(app.auto_refresh); // still in flight
    assert_eq!(app.next_poll, None);
    app.apply(outcome(1, round.generation, records(&["a"], 60)), NOW);
    app.settle(NOW);
    assert!(!app.auto_refresh);
    assert_eq!(app.next_poll, None);
}

#[test]
fn watch_plans_the_next_poll_while_answers_differ() {
    let mut app = small_app();
    let round = app.start_query().unwrap();
    app.apply(outcome(0, round.generation, records(&["new"], 60)), NOW);
    app.apply(outcome(1, round.generation, records(&["old"], 60)), NOW);
    app.settle(NOW);
    let due = NOW.saturating_add(secs(30));
    assert_eq!(app.next_poll, Some(due));
    // Before it is due nothing happens.
    assert!(app.tick(NOW).is_none());
    let poll = app.tick(due).unwrap();
    assert_eq!(poll.indices, vec![1]);
    assert_eq!(app.next_poll, None);
    // Now a query is under way: the mark turns.
    let frame = app.spinner_frame;
    assert!(app.tick(due).is_none());
    assert_eq!(app.spinner_frame, frame + 1);
}

#[test]
fn watch_can_be_turned_off_and_on() {
    let mut app = small_app();
    // Nothing asked yet: nothing to watch.
    assert!(app.toggle_watch(NOW).is_none());
    assert!(!app.auto_refresh);
    let round = app.start_query().unwrap();
    assert!(app.toggle_watch(NOW).is_none()); // off
    assert!(!app.auto_refresh);
    assert!(app.toggle_watch(NOW).is_none()); // on, but a query is under way
    assert!(app.auto_refresh);
    app.apply(outcome(0, round.generation, records(&["new"], 60)), NOW);
    app.apply(outcome(1, round.generation, records(&["old"], 60)), NOW);
    assert!(app.toggle_watch(NOW).is_none()); // off
    let poll = app.toggle_watch(NOW).unwrap(); // on, and polls at once
    assert_eq!(poll.indices, vec![1]);
    assert!(poll.generation > round.generation);
}

#[test]
fn results_of_an_earlier_round_are_dropped() {
    let mut app = small_app();
    let first = app.begin_query().unwrap();
    let second = app.begin_query().unwrap();
    app.apply(outcome(0, first.generation, records(&["a"], 60)), NOW);
    assert!(matches!(app.rows[0], RowState::Pending));
    assert_eq!(app.history[0].len(), 0);
    app.apply(outcome(0, second.generation, records(&["a"], 60)), NOW);
    assert!(matches!(app.rows[0], RowState::Done { .. }));
    assert_eq!(app.history[0].len(), 1);
    // A new round forgets what it saw.
    app.begin_query().unwrap();
    assert_eq!(app.history[0].len(), 0);
}

#[test]
fn results_from_before_a_poll_are_dropped() {
    let mut app = small_app();
    let round = app.start_query().unwrap();
    app.apply(outcome(0, round.generation, records(&["new"], 60)), NOW);
    app.apply(outcome(1, round.generation, records(&["old"], 60)), NOW);
    let poll = app.poll_query(NOW).unwrap();
    assert_eq!(poll.indices, vec![1]);
    app.apply(outcome(1, round.generation, records(&["late"], 60)), NOW);
    assert!(matches!(app.rows[1], RowState::Pending));
    assert_eq!(app.history[1].len(), 1);
    app.apply(outcome(1, poll.generation, records(&["new"], 60)), NOW);
    assert!(matches!(app.rows[1], RowState::Done { .. }));
    assert_eq!(app.history[1].len(), 2);
}

#[test]
fn queries_need_a_name() {
    let mut app = App::new(" \t. ".to_string(), resolvers::defaults(), NOW);
    assert!(app.begin_query().is_none());
    assert_eq!(app.generation, 0);
    let mut app = App::new("  example.com.. ".to_string(), resolvers::defaults(), NOW);
    assert_eq!(app.begin_query().unwrap().domain, "example.com");
    assert!(app.begin_requery(NOW).is_some());
}

#[test]
fn answer_sort_groups_answers_and_puts_answerless_rows_last() {
    let mut app = app_with_answers(&[&["b"], &["a", "z"], &["a"]]);
    app.rows.push(RowState::Idle);
    app.rows.push(done(records(&["a"], 60), millis(5), None));
    app.sort = SortMode::Answer;
    let summary = app.summary();
    assert_eq!(app.display_order(&summary, NOW), vec![2, 4, 1, 0, 3]);
    app.sort = SortMode::Resolver;
    assert_eq!(app.display_order(&summary, NOW), vec![0, 1, 2, 3, 4]);
    app.sort = SortMode::Time;
    assert_eq!(app.display_order(&summary, NOW), vec![4, 0, 1, 2, 3]);
}

#[test]
fn status_sort_puts_misbehaving_caches_first() {
    let mut app = app_with_answers(&[&["new"], &["new"], &["old"], &["older"]]);
    let now = future_now();
    app.history[3] =
        VecDeque::from([obs(&["older"], 60, now, 500), obs(&["older"], 60, now, 10)]);
    app.sort = SortMode::Status;
    let summary = app.summary();
    assert_eq!(app.display_order(&summary, now), vec![3, 2, 0, 1]);
    // While a query is under way every answer counts as agreement.
    app.rows.push(RowState::Pending);
    let summary = app.summary();
    assert_eq!(app.display_order(&summary, now), vec![0, 1, 2, 3, 4]);
}

#[test]
fn sort_labels_follow_the_cycle() {
    let mut mode = SortMode::default();
    let mut seen = Vec::new();
    for _ in 0..5 {
        seen.push(mode.label());
        mode = mode.next();
    }
    assert_eq!(seen, vec!["resolver", "location", "time", "status", "answer"]);
    assert_eq!(mode, SortMode::default());
}

#[test]
fn record_types_cycle_both_ways() {
    let mut app = app("example.com");
    app.cycle_record_type(false);
    assert_eq!(app.record_type(), RecordType::SOA);
    app.cycle_record_type(true);
    assert_eq!(app.record_type(), RecordType::A);
    app.select_record_type(RecordType::TXT);
    assert_eq!(app.record_type(), RecordType::TXT);
}

#[test]
fn remaining_ttl_counts_down_to_zero() {
    let row = done(records(&["a"], 60), millis(10), None);
    let left = |s: u64| row.remaining_ttl(NOW.saturating_add(secs(s))).unwrap().as_secs();
    assert_eq!(left(0), 60);
    assert_eq!(left(45), 15);
    assert_eq!(left(61), 0);
    assert!(RowState::Pending.remaining_ttl(NOW).is_none());
    assert!(done(QueryResult::ServFail, millis(1), None).remaining_ttl(NOW).is_none());
}

#[test]
fn sites_replace_location_and_position() {
    let mut app = app("example.com");
    assert_eq!(app.effective_location(0), "Anycast");
    assert_eq!(app.effective_coords(0), Some((Degrees::Tenths(374), Degrees::Tenths(-1221))));
    app.set_site(parse_ip("8.8.8.8").unwrap(), Site::from_code("yul"));
    assert_eq!(app.effective_location(0), "YUL");
    assert_eq!(app.effective_coords(0), Some((Degrees::Tenths(455), Degrees::Tenths(-737))));
    assert_eq!(app.effective_location(1), "Anycast");
    // A site that is no airport keeps the configured position.
    app.set_site(parse_ip("8.8.8.8").unwrap(), Site::from_code("toronto"));
    assert_eq!(app.effective_location(0), "TORONTO");
    assert_eq!(app.effective_coords(0), Some((Degrees::Tenths(374), Degrees::Tenths(-1221))));
}

#[test]
fn backspace_undoes_an_insertion() {
    let mut app = app("example.com");
    app.cursor = 7;
    app.insert_char('s');
    assert_eq!(app.domain, "examples.com");
    assert_eq!(app.cursor, 8);
    app.backspace();
    assert_eq!(app.domain, "example.com");
    assert_eq!(app.cursor, 7);
    app.delete();
    assert_eq!(app.domain, "examplecom");
    app.cursor = app.domain.len();
    app.delete(); // nothing behind the cursor
    assert_eq!(app.domain, "examplecom");
    app.cursor = 0;
    app.backspace(); // nothing before it
    assert_eq!(app.domain, "examplecom");
    app.move_cursor_left();
    assert_eq!(app.cursor, 0);
    app.clear_domain();
    assert_eq!(app.domain, "");
    app.move_cursor_right();
    assert_eq!(app.cursor, 0);
}

#[test]
fn lines_outside_ascii_can_be_edited_where_the_cursor_cuts_no_character() {
    let mut app = app("é.de");
    assert_eq!(app.cursor, 5);
    app.backspace();
    assert_eq!(app.domain, "é.d");
    app.cursor = 1;
    assert!(!app.can_perform(Action::Insert('x')));
    assert!(!app.can_perform(Action::Delete));
    app.cursor = 2;
    assert!(!app.can_perform(Action::Backspace));
    assert!(app.can_perform(Action::Delete));
    app.cursor = 9;
    assert!(!app.can_perform(Action::WordLeft));
    // A cursor behind the end stays where it is.
    assert!(app.can_perform(Action::WordRight));
    app.move_cursor_word_right();
    assert_eq!(app.cursor, 9);
    assert!(app.can_perform(Action::Query));
    app.cursor = 2;
    app.insert_char('x');
    assert_eq!(app.domain, "éx.d");
    assert_eq!(app.cursor, 3);
}

#[test]
fn probe_targets_name_the_resolvers_that_tell_their_site() {
    let targets = probe_targets(&resolvers::defaults());
    let found: Vec<(usize, SiteProbe)> = targets.iter().map(|t| (t.index, t.probe)).collect();
    assert_eq!(
        found,
        vec![
            (0, SiteProbe::Google),
            (1, SiteProbe::Cloudflare),
            (2, SiteProbe::Quad9),
            (3, SiteProbe::OpenDns),
            (4, SiteProbe::ChIdServer),
            (8, SiteProbe::ChIdServer),
        ]
    );
}

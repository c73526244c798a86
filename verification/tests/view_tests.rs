use std::collections::VecDeque;

use dnsglobe::address::parse_ip;
use dnsglobe::app::App;
use dnsglobe::clock::{Duration, Instant};
use dnsglobe::dns::{parse_ecs, QueryResult};
use dnsglobe::panels::{
    footer_lines, form_area, form_lines, gauge, header_lines, info_lines, info_rows, is_complete,
    map_columns, screen_rows, shows_map, ttl_advisory, Area, Gauge, ResolverForm,
};
use dnsglobe::records::RecordType;
use dnsglobe::resolvers;
use dnsglobe::resolvers::Resolver;
use dnsglobe::rows::{Observation, RowState};
use dnsglobe::runs::Run;
use dnsglobe::sites::Site;
use dnsglobe::table::{cells, clamp_scroll, dot_look, table_view};
use dnsglobe::theme::{Color, Look, Theme};

const NOW: Instant = Instant { nanos: 1_000_000_000_000 };

fn later(secs: u64) -> Instant {
    NOW.saturating_add(Duration::from_secs(secs))
}

fn resolver(name: &str, location: &str, ip: &str) -> Resolver {
    Resolver {
        name: name.into(),
        location: location.into(),
        ip: parse_ip(ip).unwrap(),
        coords: None,
        probe: None,
    }
}

/// A run of five resolvers.
fn app() -> App {
    let list = vec![
        resolver("One", "US", "192.0.2.1"),
        resolver("Two", "CH", "192.0.2.2"),
        resolver("Three", "JP", "192.0.2.3"),
        resolver("Four", "BR", "2001:db8::4"),
        resolver("Five", "", "192.0.2.5"),
    ];
    App::new("example.com".into(), list, NOW)
}

fn done(result: QueryResult, millis: u64, ecs_honored: Option<bool>) -> RowState {
    RowState::Done { result, elapsed: Duration::from_millis(millis), at: NOW, ecs_honored }
}

fn records(values: &[&str], min_ttl: u32) -> QueryResult {
    QueryResult::Records { values: values.iter().map(|v| v.to_string()).collect(), min_ttl }
}

fn texts(line: &[Run]) -> Vec<&str> {
    line.iter().map(|r| r.text.as_str()).collect()
}

fn joined(line: &[Run]) -> String {
    line.iter().map(|r| r.text.as_str()).collect()
}

/// Rows that agree, differ, find nothing, fail, and err.
fn settled() -> App {
    let mut app = app();
    app.queried = Some(("example.com".into(), RecordType::A, None));
    app.rows = vec![
        done(records(&["192.0.2.80", "192.0.2.81"], 300), 12, None),
        done(records(&["192.0.2.99"], 60), 399, None),
        done(QueryResult::NoRecords("Non-Existent Domain".into()), 100, None),
        done(QueryResult::ServFail, 400, None),
        done(QueryResult::Error("timeout".into()), 3000, None),
    ];
    app
}

#[test]
fn info_rows_track_what_the_info_box_will_show() {
    let mut app = App::new("example.com".into(), resolvers::defaults(), NOW);
    let mut summary = app.summary();

    // Nothing queried yet: just borders + legend.
    assert_eq!(info_rows(&app, &summary, false), 4);

    // Mid-round: the note to wait needs two rows.
    app.begin_query().unwrap();
    assert_eq!(info_rows(&app, &summary, false), 6);

    // Settled round: blank + heading + one row per majority value.
    app.rows = vec![RowState::Idle; app.rows.len()];
    summary.majority_values = vec!["192.0.2.1".into(), "192.0.2.2".into()];
    assert_eq!(info_rows(&app, &summary, true), 8);

    // Capped so a many-valued record doesn't crush the globe.
    summary.majority_values = vec!["v".into(); 30];
    assert_eq!(info_rows(&app, &summary, true), 26);
}

// ---------------------------------------------------------------- the table

#[test]
fn cells_of_a_settled_round() {
    let app = settled();
    let tally = app.summary();
    let th = Theme::default();
    assert!(is_complete(&app, &tally));
    let row = |i: usize| cells(&app, &tally, true, later(10), &th, i);
    assert_eq!(
        texts(&row(0)),
        vec!["One", "US", "192.0.2.1", "12ms", "300", "4m50s", "✓ OK", "192.0.2.80, 192.0.2.81"]
    );
    assert_eq!(row(0)[3].look, Look::of(th.agree));
    assert_eq!(row(0)[6].look, Look::of(th.agree).bold());
    assert_eq!(row(0)[7].look, Look::new());
    assert_eq!(row(0)[5].look, th.muted.style());
    assert_eq!(
        texts(&row(1)),
        vec!["Two", "CH", "192.0.2.2", "399ms", "60", "50s", "≠ DIFFERS", "192.0.2.99"]
    );
    assert_eq!(row(1)[3].look, Look::of(th.pending));
    assert_eq!(row(1)[5].look, Look::of(th.differ).bold());
    assert_eq!(row(1)[7].look, Look::of(th.differ));
    assert_eq!(
        texts(&row(2)),
        vec!["Three", "JP", "192.0.2.3", "100ms", "", "", "∅ NONE", "Non-Existent Domain"]
    );
    assert_eq!(
        texts(&row(3)),
        vec![
            "Four",
            "BR",
            "2001:db8::4",
            "400ms",
            "",
            "",
            "✗ SERVFAIL",
            "can't resolve — broken delegation or DNSSEC?"
        ]
    );
    assert_eq!(row(3)[3].look, Look::of(th.error));
    assert_eq!(texts(&row(4))[3..], ["3000ms", "", "", "✗ ERR", "timeout"]);
    assert_eq!(row(4)[7].look, Look::of(th.error).italic());
    // Once the TTL has run out.
    let old = cells(&app, &tally, true, later(300), &th, 0);
    assert_eq!(old[5].text, "expired");
    assert_eq!(old[5].look, th.muted.style().italic());
}

#[test]
fn nothing_differs_until_the_round_settles() {
    let app = settled();
    let tally = app.summary();
    let th = Theme::default();
    let row = cells(&app, &tally, false, NOW, &th, 1);
    assert_eq!(row[6].text, "✓ OK");
    assert_eq!(dot_look(&app, &tally, false, NOW, &th, 1), Look::of(th.agree).bold());
    assert_eq!(dot_look(&app, &tally, true, NOW, &th, 1), Look::of(th.differ).bold());
    assert_eq!(dot_look(&app, &tally, true, NOW, &th, 3), Look::of(th.error).bold());
}

#[test]
fn waiting_rows_and_rows_without_the_subnet() {
    let mut app = app();
    let th = Theme::default();
    app.spinner_frame = 11;
    app.rows[0] = RowState::Pending;
    app.rows[1] = done(records(&["192.0.2.99"], 60), 5, Some(false));
    app.rows[2] = done(QueryResult::NoRecords("gone".into()), 5, Some(false));
    app.sites[0] = Some(Site::from_code("yul"));
    let tally = app.summary();
    let row = |i: usize| cells(&app, &tally, true, NOW, &th, i);
    assert_eq!(texts(&row(0))[1..], ["→YUL", "192.0.2.1", "…", "", "", "⠙ query", ""]);
    assert_eq!(row(0)[1].look, Look::of(th.accent));
    assert_eq!(texts(&row(1))[6..], ["◌ NO ECS", "192.0.2.99"]);
    assert_eq!(row(1)[7].look, Look::new());
    assert_eq!(texts(&row(2))[6..], ["◌ NO ECS", "gone"]);
    assert_eq!(row(2)[7].look, th.muted.style());
    assert_eq!(texts(&row(3))[3..], ["—", "", "", "idle", ""]);
    assert_eq!(dot_look(&app, &tally, true, NOW, &th, 0), Look::of(th.pending).bold());
    assert_eq!(dot_look(&app, &tally, true, NOW, &th, 1), th.muted.style().bold());
    assert_eq!(dot_look(&app, &tally, true, NOW, &th, 3), th.muted.style().bold());
}

#[test]
fn verdicts_show_in_the_table_and_on_the_map() {
    let mut app = settled();
    let th = Theme::default();
    let seen = |min_ttl: u32, ago: u64| Observation {
        values: vec!["192.0.2.99".into()],
        min_ttl,
        at: Instant { nanos: NOW.nanos - Duration::from_secs(ago).nanos },
    };
    app.history[1] = VecDeque::from([seen(60, 500), seen(60, 0)]);
    let tally = app.summary();
    let row = cells(&app, &tally, true, NOW, &th, 1);
    assert_eq!(row[6].text, "! PAST TTL");
    assert_eq!(row[7].look, Look::of(th.stale));
    assert_eq!(dot_look(&app, &tally, true, NOW, &th, 1), Look::of(th.stale).bold());
    app.history[1] = VecDeque::from([seen(20, 500), seen(60, 0)]);
    let row = cells(&app, &tally, true, NOW, &th, 1);
    assert_eq!(row[6].text, "↻ UPSTREAM");
    assert_eq!(dot_look(&app, &tally, true, NOW, &th, 1), Look::of(th.upstream).bold());
}

#[test]
fn table_follows_the_sort_and_the_selection() {
    let mut app = settled();
    app.sort = dnsglobe::app::SortMode::Time;
    let tally = app.summary();
    let view = table_view(&app, &tally, true, NOW, &Theme::default(), Some(1));
    let names: Vec<&str> = view.rows.iter().map(|r| r[0].text.as_str()).collect();
    assert_eq!(names, vec!["One", "Three", "Two", "Four", "Five"]);
    assert_eq!(view.selected, Some(2));
    assert_eq!(view.caption, " sort: time (Ctrl+S) · 5 resolvers (↑/↓ select) ");
    let view = table_view(&app, &tally, true, NOW, &Theme::default(), None);
    assert_eq!(view.selected, None);
    assert_eq!(clamp_scroll(9, 34, 23), 9);
    assert_eq!(clamp_scroll(20, 34, 23), 14);
    assert_eq!(clamp_scroll(5, 4, 23), 0);
    assert_eq!(clamp_scroll(99, 34, 0), 34);
}

// ---------------------------------------------------------------- the panels

#[test]
fn header_shows_input_types_and_subnet() {
    let mut app = app();
    let th = Theme::default();
    app.cursor = 7;
    let lines = header_lines(&app, &th);
    assert_eq!(lines.len(), 2);
    assert_eq!(texts(&lines[0]), vec![" Domain: ", "example", "▏", ".com"]);
    assert_eq!(joined(&lines[1]), " Type:    A   AAAA   CNAME   MX   NS   TXT   SOA  ");
    assert_eq!(lines[1][1].look.bg, Some(th.accent));
    assert_eq!(lines[1][1].look.fg, Some(Color::Black));
    assert_eq!(lines[1][3].look, th.muted.style());
    app.set_ecs_list(vec![parse_ecs("10.0.0.0/8").unwrap(), parse_ecs("::/0").unwrap()]);
    app.cycle_ecs();
    let lines = header_lines(&app, &th);
    assert_eq!(texts(&lines[2]), vec![" ECS:    ", " ::/0 ", " 2/2"]);
    app.cycle_ecs();
    assert_eq!(texts(&header_lines(&app, &th)[2]), vec![" ECS:    ", " off "]);
    // A cursor behind the end stands at the end.
    app.cursor = 99;
    assert_eq!(texts(&header_lines(&app, &th)[0])[1..], ["example.com", "▏", ""]);
}

#[test]
fn gauge_tells_the_state_of_the_round() {
    let mut app = app();
    let th = Theme::default();
    let tally = app.summary();
    match gauge(&app, &tally, 0, NOW, &th) {
        Gauge::Hint(run) => assert_eq!(run.text, "  type a domain and press Enter"),
        other => panic!("expected a hint, got {other:?}"),
    }
    app.start_query().unwrap();
    app.spinner_frame = 2;
    match gauge(&app, &app.summary(), 0, NOW, &th) {
        Gauge::Bar { part, whole, color, label } => {
            assert_eq!((part, whole, color), (0, 5, th.accent));
            assert_eq!(label, "⠹ checking… 0/5 ");
        }
        other => panic!("expected a bar, got {other:?}"),
    }
    let mut app = settled();
    let label = |app: &App, percent: u64| match gauge(app, &app.summary(), percent, NOW, &th) {
        Gauge::Bar { part, whole, color, label } => (part, whole, color, label),
        other => panic!("expected a bar, got {other:?}"),
    };
    assert_eq!(
        label(&app, 25),
        (
            1,
            4,
            th.error,
            " propagation 1/4 (25%) · 1 servfail · 1 unreachable · old answers expire in ≤ 1m00s \
             · watch off (Ctrl+R resumes) "
                .to_string()
        )
    );
    app.next_poll = Some(later(29));
    assert!(label(&app, 25).3.ends_with(" · next poll in 29s (Ctrl+R stops) "));
    app.rows.truncate(1);
    assert_eq!(
        label(&app, 100),
        (1, 1, th.agree, " propagation 1/1 (100%) · complete ".to_string())
    );
    // Half is middling, nobody counts as none of one.
    app.rows.push(done(QueryResult::ServFail, 1, None));
    assert_eq!(label(&app, 50).2, th.pending);
    app.rows = vec![done(QueryResult::Error("x".into()), 1, None)];
    assert_eq!((label(&app, 0).0, label(&app, 0).1), (0, 1));
}

#[test]
fn footer_counts_and_advises() {
    let mut app = app();
    let th = Theme::default();
    let lines = footer_lines(&app, &app.summary(), &None, &th);
    assert_eq!(lines.len(), 2);
    assert!(lines[0].is_empty());
    assert!(lines[1][0].text.contains("Tab record type · ↑/↓ select"));
    let subnet = parse_ecs("10.0.0.0/8").unwrap();
    app.set_ecs_list(vec![subnet]);
    app.queried = Some(("example.com".into(), RecordType::MX, Some(subnet)));
    app.rows[0] = done(records(&["a"], 1), 1, Some(false));
    let lines = footer_lines(&app, &app.summary(), &Some("hm".to_string()), &th);
    assert_eq!(lines.len(), 3);
    assert_eq!(texts(&lines[0]), vec![" ℹ ", "hm"]);
    assert_eq!(
        joined(&lines[1]),
        " example.com MX ecs 10.0.0.0/8: 0 ok · 0 none · 0 servfail · 0 err · 0 answer group(s) · \
         1 no-ecs"
    );
    assert!(lines[2][0].text.contains("Tab record type · Ctrl+N ecs · ↑/↓ select"));
}

#[test]
fn advice_comes_with_full_agreement_and_a_long_ttl() {
    let mut app = app();
    app.rows = vec![done(records(&["a"], 7200), 1, None), done(records(&["a"], 60), 1, None)];
    let tally = app.summary();
    assert_eq!(
        ttl_advisory(&app, &tally, true).unwrap(),
        "TTL ≈ 2h00m — planning a record change? Lower the TTL first, then wait one old-TTL \
         period before switching."
    );
    assert!(ttl_advisory(&app, &tally, false).is_none());
    app.rows[0] = done(records(&["a"], 3599), 1, None);
    assert!(ttl_advisory(&app, &app.summary(), true).is_none());
    app.rows[0] = done(records(&["b"], 7200), 1, None);
    assert!(ttl_advisory(&app, &app.summary(), true).is_none());
}

#[test]
fn info_box_shows_legend_and_majority() {
    let mut app = settled();
    let th = Theme::default();
    let tally = app.summary();
    let lines = info_lines(&app, &tally, true, &th);
    assert_eq!(
        joined(&lines[0]),
        "● agrees  ● differs  ● past-ttl  ● upstream  ● error  ● pending"
    );
    assert!(lines[1].is_empty());
    assert_eq!(lines[2][0].text, "Majority answer (1/5 resolvers):");
    assert_eq!(joined(&lines[3]), "  • 192.0.2.80");
    assert_eq!(joined(&lines[4]), "  • 192.0.2.81");
    assert_eq!(lines.len() + 3, usize::from(info_rows(&app, &tally, true)));
    app.set_ecs_list(vec![parse_ecs("10.0.0.0/8").unwrap()]);
    app.rows[0] = RowState::Pending;
    let lines = info_lines(&app, &app.summary(), false, &th);
    assert!(joined(&lines[0]).ends_with("  ● no-ecs"));
    assert_eq!(lines[2][0].text, "waiting for all resolvers…");
    assert_eq!(lines.len(), 3);
}

#[test]
fn screen_is_divided_by_what_there_is_to_show() {
    assert_eq!((screen_rows(false, false).header, screen_rows(false, false).footer), (4, 2));
    assert_eq!((screen_rows(true, true).header, screen_rows(true, true).footer), (5, 3));
    assert!(shows_map(131, true) && !shows_map(130, true));
    assert!(shows_map(157, false) && !shows_map(156, false));
    assert_eq!(map_columns(190), 87);
    assert_eq!(map_columns(90), 0);
}

#[test]
fn dialog_is_centered_and_marks_its_focus() {
    let screen = Area { x: 2, y: 1, width: 100, height: 41 };
    let area = form_area(5, screen);
    assert_eq!(area, Area { x: 29, y: 16, width: 46, height: 11 });
    let small = Area { x: 0, y: 0, width: 10, height: 4 };
    assert_eq!(form_area(5, small), small);

    let th = Theme::default();
    let labels = vec!["name".to_string(), "address".to_string()];
    let mut form = ResolverForm {
        fields: vec!["Corp".into(), "10.0.0.53".into()],
        focus: 1,
        cursor: 2,
        error: None,
    };
    let lines = form_lines(&labels, &form, &th);
    assert_eq!(texts(&lines[0]), vec![" name      ", "Corp"]);
    assert_eq!(texts(&lines[1]), vec![" address   ", "10", "▏", ".0.0.53"]);
    assert!(lines[2].is_empty());
    assert_eq!(lines[3][0].text, " location and lat/lon are optional");
    assert_eq!(lines[5][0].text, " Enter add · Tab/↑/↓ field · Esc cancel");
    form.error = Some("bad".into());
    let lines = form_lines(&labels, &form, &th);
    assert_eq!(lines[3][0].text, " bad");
    assert_eq!(lines[3][0].look, Look::of(th.error));
}

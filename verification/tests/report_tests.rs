use dnsglobe::address::parse_ip;
use dnsglobe::app::App;
use dnsglobe::clock::{Duration, Instant};
use dnsglobe::dns::{parse_ecs, QueryResult};
use dnsglobe::records::RecordType;
use dnsglobe::report::{convergence_heading, convergence_line, round_lines, selections};
use dnsglobe::resolvers::Resolver;
use dnsglobe::rows::RowState;
use dnsglobe::sites::Site;

const NOW: Instant = Instant { nanos: 7 };

fn app(rows: Vec<RowState>) -> App {
    let list = (0..rows.len())
        .map(|i| Resolver {
            name: format!("Resolver {i}"),
            location: "US".into(),
            ip: parse_ip("192.0.2.1").unwrap(),
            coords: None,
            probe: None,
        })
        .collect();
    let mut app = App::new("example.com".into(), list, NOW);
    app.queried = Some(("example.com".into(), RecordType::A, None));
    app.rows = rows;
    app
}

fn done(result: QueryResult, millis: u64, ecs_honored: Option<bool>) -> RowState {
    RowState::Done { result, elapsed: Duration::from_millis(millis), at: NOW, ecs_honored }
}

fn records(values: &[&str], min_ttl: u32) -> QueryResult {
    QueryResult::Records { values: values.iter().map(|v| v.to_string()).collect(), min_ttl }
}

#[test]
fn report_has_a_line_for_each_row() {
    let mut app = app(vec![
        done(records(&["a", "b"], 300), 12, None),
        done(records(&["b"], 60), 1234, None),
        done(records(&["z"], 60), 5, None),
        done(QueryResult::NoRecords("Non-Existent Domain".into()), 5, None),
        done(QueryResult::ServFail, 5, None),
        done(QueryResult::Error("timeout".into()), 123456, None),
        RowState::Idle,
    ]);
    app.sites[1] = Some(Site::from_code("yul"));
    let lines = round_lines(&app, &app.summary(), false);
    assert_eq!(
        lines,
        vec![
            "example.com A",
            "",
            "Resolver 0             US       192.0.2.1        OK         12ms  ttl=300     a, b",
            "Resolver 1             →YUL     192.0.2.1        OK       1234ms  ttl=60      b",
            "Resolver 2             US       192.0.2.1        DIFFERS     5ms  ttl=60      z",
            "Resolver 3             US       192.0.2.1        NONE        5ms  Non-Existent Domain",
            "Resolver 4             US       192.0.2.1        FAIL        5ms  SERVFAIL (can't \
             resolve — broken delegation or DNSSEC?)",
            "Resolver 5             US       192.0.2.1        ERR     123456ms  timeout",
            "Resolver 6             US       192.0.2.1        ??",
            "",
            "3 of 5 responding · 1 servfail · 1 unreachable · 2 answer group(s)",
            "propagation (2/5 responding): a, b",
        ]
    );
}

#[test]
fn report_of_a_subnet_names_it_and_marks_who_ignored_it() {
    let subnet = parse_ecs("10.0.0.0/8").unwrap();
    let mut app = app(vec![
        done(records(&["a"], 60), 12, Some(false)),
        done(QueryResult::NoRecords("gone".into()), 5, Some(false)),
    ]);
    app.queried = Some(("example.com".into(), RecordType::TXT, Some(subnet)));
    let tally = app.summary();
    let lines = round_lines(&app, &tally, true);
    assert_eq!(lines[0], "example.com TXT · ecs 10.0.0.0/8");
    assert!(lines[2].contains("NO-ECS     12ms  ttl=60      a"));
    assert!(lines[3].contains("NO-ECS      5ms  gone"));
    assert_eq!(
        lines[5..],
        ["0 of 0 responding · 0 servfail · 0 unreachable · 0 answer group(s) · 2 no-ecs"]
    );
    assert_eq!(convergence_line(&subnet, &tally), "  10.0.0.0/8           no agreement");
}

#[test]
fn report_notes_a_long_ttl_once() {
    let app = app(vec![done(records(&["a"], 86_400), 12, None)]);
    let tally = app.summary();
    let note = "note: TTL ≈ 1d0h — planning a record change? lower the TTL first, then wait one \
                old-TTL period before switching.";
    assert_eq!(round_lines(&app, &tally, false).last().unwrap(), note);
    assert!(!round_lines(&app, &tally, true).iter().any(|line| line == note));
    let subnet = parse_ecs("2001:db8::/56").unwrap();
    assert_eq!(convergence_line(&subnet, &tally), "  2001:db8::/56         1/1 → a");
    assert_eq!(
        convergence_heading("example.com", RecordType::AAAA),
        "ecs convergence for example.com AAAA:"
    );
}

#[test]
fn every_subnet_gets_a_round() {
    assert_eq!(selections(0), vec![None]);
    assert_eq!(selections(3), vec![Some(0), Some(1), Some(2)]);
}

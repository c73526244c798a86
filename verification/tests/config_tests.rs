use dnsglobe::address::{parse_ip, IpAddr};
use dnsglobe::app::ViewMode;
use dnsglobe::config::{
    build_theme, chosen_subnets, chosen_view, ecs_list, place, resolver_list, settings, Config,
    Entry, Place, Settings, ThemeTable,
};
use dnsglobe::dns::{fmt_ecs, parse_ecs};
use dnsglobe::resolvers;
use dnsglobe::sites::Degrees;
use dnsglobe::theme::{Color, Muted, Theme};

fn bits(n: f64) -> Option<Degrees> {
    Some(Degrees::Binary(n.to_bits()))
}

fn entry(name: &str, ip: &str, location: &str, lat: Option<Degrees>, lon: Option<Degrees>) -> Entry {
    Entry { name: name.into(), ip: ip.into(), location: location.into(), lat, lon }
}

fn table() -> ThemeTable {
    ThemeTable {
        accent: None,
        agree: None,
        differ: None,
        error: None,
        pending: None,
        stale: None,
        upstream: None,
        muted: None,
        coastline: None,
        grid: None,
    }
}

fn config() -> Config {
    Config { replace: false, view: None, ecs: Vec::new(), theme: table(), resolvers: Vec::new() }
}

#[test]
fn no_config_keeps_builtin_list() {
    let list = resolver_list(false, &Vec::new()).ok().unwrap();
    assert_eq!(list.len(), resolvers::defaults().len());
}

#[test]
fn added_resolvers_extend_the_builtin_list() {
    let list = resolver_list(
        false,
        &vec![
            entry("Corp DNS", "10.0.0.53", "HQ", bits(40.7), bits(-74.0)),
            entry("No map", "2606:4700:4700::1111", "", None, None),
        ],
    )
    .ok()
    .unwrap();
    assert_eq!(list.len(), resolvers::defaults().len() + 2);
    let corp = &list[list.len() - 2];
    assert_eq!(corp.name, "Corp DNS");
    assert_eq!(corp.location, "HQ");
    assert_eq!(corp.ip, parse_ip("10.0.0.53").unwrap());
    assert_eq!(
        corp.coords,
        Some((Degrees::Binary(40.7f64.to_bits()), Degrees::Binary((-74.0f64).to_bits())))
    );
    // IPv6 works; omitted location/coords stay empty/off-map.
    let no_map = &list[list.len() - 1];
    assert!(matches!(no_map.ip, IpAddr::V6(_)));
    assert_eq!(no_map.location, "");
    assert_eq!(no_map.coords, None);
}

#[test]
fn replace_swaps_out_the_builtin_list() {
    let list =
        resolver_list(true, &vec![entry("Only me", "192.0.2.1", "", None, None)]).ok().unwrap();
    assert_eq!(list.len(), 1);
    assert_eq!(list[0].name, "Only me");
}

#[test]
fn replace_with_no_resolvers_is_an_error() {
    let err = resolver_list(true, &Vec::new()).err().unwrap();
    assert!(err.message().contains("at least one"));
}

#[test]
fn invalid_ip_is_an_error() {
    let err =
        resolver_list(false, &vec![entry("Bad", "not-an-ip", "", None, None)]).err().unwrap();
    assert!(err.message().contains("invalid IP address"));
    assert_eq!(
        err.chain,
        vec!["resolver \"Bad\": invalid IP address \"not-an-ip\"", "invalid IP address syntax"]
    );
}

#[test]
fn lat_without_lon_is_an_error() {
    let err = resolver_list(
        false,
        &vec![entry("Half a coordinate", "192.0.2.1", "", bits(12.0), None)],
    )
    .err()
    .unwrap();
    assert!(err.message().contains("given together"));
}

#[test]
fn out_of_range_coords_are_an_error() {
    let err = resolver_list(
        false,
        &vec![entry("Off the globe", "192.0.2.1", "", bits(91.0), bits(0.0))],
    )
    .err()
    .unwrap();
    assert!(err.message().contains("-90..=90"));
}

#[test]
fn coordinate_limits_are_those_of_the_numbers() {
    let fits = |lat: f64, lon: f64| {
        resolver_list(false, &vec![entry("x", "192.0.2.1", "", bits(lat), bits(lon))]).is_ok()
    };
    assert!(fits(90.0, 180.0));
    assert!(fits(-90.0, -180.0));
    assert!(fits(0.0, -0.0));
    assert!(!fits(90.00000000000001, 0.0));
    assert!(!fits(0.0, -180.00000000000003));
    assert!(!fits(f64::NAN, 0.0));
    assert!(!fits(0.0, f64::INFINITY));
    assert!(!fits(f64::NEG_INFINITY, 0.0));
    for (n, ok) in [(900, true), (-900, true), (901, false), (-901, false)] {
        let lat = Some(Degrees::Tenths(n));
        let lon = Some(Degrees::Tenths(0));
        let list = resolver_list(false, &vec![entry("x", "192.0.2.1", "", lat, lon)]);
        assert_eq!(list.is_ok(), ok);
    }
}

#[test]
fn missing_or_empty_theme_keeps_the_defaults() {
    assert_eq!(build_theme(&table()).ok().unwrap(), Theme::default());
}

#[test]
fn theme_overrides_only_the_given_roles() {
    let theme = build_theme(&ThemeTable {
        accent: Some("#ff8700".into()),
        muted: Some("darkgray".into()),
        ..table()
    })
    .ok()
    .unwrap();
    assert_eq!(theme.accent, Color::Rgb(0xff, 0x87, 0x00));
    assert_eq!(theme.muted, Muted::Color(Color::DarkGray));
    assert_eq!(theme.agree, Theme::default().agree);
}

#[test]
fn bad_theme_color_errors_with_the_key_name() {
    let err =
        build_theme(&ThemeTable { stale: Some("ornage".into()), ..table() }).err().unwrap();
    let chain = err.message();
    assert!(chain.contains("theme.stale"), "{chain}");
    assert!(chain.contains("\"ornage\""), "{chain}");
}

#[test]
fn each_role_is_set_by_its_key() {
    let theme = build_theme(&ThemeTable {
        accent: Some("0".into()),
        agree: Some("1".into()),
        differ: Some("2".into()),
        error: Some("3".into()),
        pending: Some("4".into()),
        stale: Some("5".into()),
        upstream: Some("6".into()),
        muted: Some("7".into()),
        coastline: Some("8".into()),
        grid: Some("9".into()),
    })
    .ok()
    .unwrap();
    assert_eq!(
        theme,
        Theme {
            accent: Color::Indexed(0),
            agree: Color::Indexed(1),
            differ: Color::Indexed(2),
            error: Color::Indexed(3),
            pending: Color::Indexed(4),
            stale: Color::Indexed(5),
            upstream: Color::Indexed(6),
            muted: Muted::Color(Color::Indexed(7)),
            coastline: Color::Indexed(8),
            grid: Color::Indexed(9),
        }
    );
    // The first bad role is the one reported, and `muted` comes last.
    let err = build_theme(&ThemeTable {
        muted: Some("nope".into()),
        grid: Some("nope".into()),
        ..table()
    })
    .err()
    .unwrap();
    assert_eq!(err.chain[0], "theme.grid");
    let err = build_theme(&ThemeTable { muted: Some("nope".into()), ..table() }).err().unwrap();
    assert_eq!(err.chain[0], "theme.muted");
}

#[test]
fn ecs_entries_parse_with_bare_ips_getting_full_prefixes() {
    let subnets =
        ecs_list(&vec!["203.0.113.77/24".to_string(), "2001:db8::1".to_string()]).ok().unwrap();
    // Host bits zeroed, bare address gets a full-length prefix.
    assert_eq!(fmt_ecs(&subnets[0]), "203.0.113.0/24");
    assert_eq!(fmt_ecs(&subnets[1]), "2001:db8::1/128");
}

#[test]
fn bad_ecs_entry_errors_with_the_entry_text() {
    let err = ecs_list(&vec!["10.0.0.0/33".to_string()]).err().unwrap();
    assert!(err.message().contains("10.0.0.0/33"), "{}", err.message());
    assert_eq!(
        err.chain,
        vec!["ecs entry \"10.0.0.0/33\": prefix /33 too long for 10.0.0.0 (max /32)"]
    );
}

#[test]
fn colors_are_checked_before_subnets_and_subnets_before_resolvers() {
    let bad = || Config {
        ecs: vec!["x".into()],
        theme: ThemeTable { accent: Some("x".into()), ..table() },
        resolvers: vec![entry("x", "x", "", None, None)],
        ..config()
    };
    assert_eq!(settings(&bad()).err().unwrap().chain[0], "theme.accent");
    let without_color = Config { theme: table(), ..bad() };
    assert!(settings(&without_color).err().unwrap().chain[0].starts_with("ecs entry"));
    let without_subnet = Config { theme: table(), ecs: Vec::new(), ..bad() };
    assert!(settings(&without_subnet).err().unwrap().chain[0].starts_with("resolver"));
}

#[test]
fn empty_configuration_comes_to_the_defaults() {
    let found = settings(&config()).ok().unwrap();
    let wanted = Settings::defaults();
    assert_eq!(found.resolvers.len(), wanted.resolvers.len());
    assert_eq!(found.theme, wanted.theme);
    assert_eq!(found.view, None);
    assert!(found.ecs.is_empty());
}

#[test]
fn command_line_wins_over_the_configuration() {
    let (map, globe) = (Some(ViewMode::Flat), Some(ViewMode::Globe));
    assert_eq!(chosen_view(map, globe), ViewMode::Flat);
    assert_eq!(chosen_view(None, globe), ViewMode::Globe);
    assert_eq!(chosen_view(None, None), ViewMode::Auto);
    let a = parse_ecs("10.0.0.0/8").unwrap();
    let b = parse_ecs("11.0.0.0/8").unwrap();
    assert_eq!(chosen_subnets(vec![a], vec![b]), vec![a]);
    assert_eq!(chosen_subnets(vec![], vec![b]), vec![b]);
}

#[test]
fn configuration_is_looked_for_in_order() {
    assert_eq!(place(true, true, false, true), Place::Named);
    assert_eq!(place(false, true, false, true), Place::Desktop);
    assert_eq!(place(false, true, true, true), Place::Home);
    assert_eq!(place(false, false, false, true), Place::Home);
    assert_eq!(place(false, true, true, false), Place::Nowhere);
    assert!(!Place::Named.may_be_missing());
    assert!(Place::Home.may_be_missing());
}

#[test]
fn builtin_ips_parse_and_are_unique() {
    let defaults = resolvers::defaults();
    let mut ips: Vec<u32> = defaults
        .iter()
        .map(|r| match r.ip {
            IpAddr::V4(n) => n,
            IpAddr::V6(_) => panic!("the built-in list is IPv4"),
        })
        .collect();
    ips.sort();
    ips.dedup();
    assert_eq!(ips.len(), defaults.len());
    assert_eq!(defaults[0].name, "Google Public DNS");
    assert_eq!(defaults[0].ip, parse_ip("8.8.8.8").unwrap());
    assert_eq!(defaults[33].name, "UOL");
    assert_eq!(defaults[33].ip, parse_ip("200.221.11.100").unwrap());
}

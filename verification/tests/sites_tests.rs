use dnsglobe::address::{parse_ip, IpAddr};
use dnsglobe::sites::{
    airport_coords, cidr_contains, parse_cidr, parse_cloudflare, parse_freeform, parse_google,
    parse_opendns, parse_quad9, site_of, Degrees, ProbeQuery, Site, SiteProbe, AIRPORTS,
};

fn strings(items: &[&str]) -> Vec<String> {
    items.iter().map(|s| s.to_string()).collect()
}

fn degrees(d: Degrees) -> f64 {
    match d {
        Degrees::Tenths(t) => f64::from(t) / 10.0,
        Degrees::Binary(bits) => f64::from_bits(bits),
    }
}

fn ip(text: &str) -> IpAddr {
    parse_ip(text).unwrap()
}

#[test]
fn airports_are_sorted_unique_and_in_range() {
    for pair in AIRPORTS.windows(2) {
        assert!(pair[0].0 < pair[1].0, "{} out of order", pair[1].0);
    }
    for &(code, lat, lon) in &AIRPORTS {
        let lat = degrees(Degrees::Tenths(lat));
        let lon = degrees(Degrees::Tenths(lon));
        assert_eq!(code.len(), 3);
        assert!(code.chars().all(|c| c.is_ascii_uppercase()));
        assert!((-90.0..=90.0).contains(&lat), "{code} lat");
        assert!((-180.0..=180.0).contains(&lon), "{code} lon");
    }
}

#[test]
fn quad9_pop_name_yields_iata() {
    let site = parse_quad9(&strings(&["res120.qyul1.on.quad9.net"])).unwrap();
    assert_eq!(site.code, "YUL");
    assert!(site.coords.is_some());
    // Older PCH-hosted form.
    let site = parse_quad9(&strings(&["res100.qzrh2.rrdns.pch.net"])).unwrap();
    assert_eq!(site.code, "ZRH");
    assert!(parse_quad9(&strings(&["unexpected"])).is_none());
}

#[test]
fn cloudflare_colo_yields_iata() {
    let site = parse_cloudflare(&strings(&["yul01"])).unwrap();
    assert_eq!(site.code, "YUL");
    assert_eq!(site.coords.map(|(a, b)| (degrees(a), degrees(b))), Some((45.5, -73.7)));
    assert!(parse_cloudflare(&strings(&["not-a-colo"])).is_none());
}

#[test]
fn opendns_server_line_yields_iata() {
    let answer =
        strings(&["server r3.yyz", "flags 22040030 0 70 4001800000000000", "originid 0"]);
    let site = parse_opendns(&answer).unwrap();
    assert_eq!(site.code, "YYZ");
    assert!(site.coords.is_some());
    assert!(parse_opendns(&strings(&["flags 0"])).is_none());
}

#[test]
fn google_longest_prefix_wins() {
    let myaddr = strings(&["edns0-client-subnet 203.0.113.0/24", "34.64.1.9"]);
    let locations =
        strings(&["34.64.0.0/16 xxx ", "34.64.1.0/24 icn ", "74.114.28.64/26 bkk "]);
    let site = parse_google(&myaddr, &locations).unwrap();
    assert_eq!(site.code, "ICN");
    assert!(site.coords.is_some());
}

#[test]
fn google_matches_ipv6_prefixes() {
    let myaddr = strings(&["2404:6800:4008:c06::1"]);
    let locations = strings(&["2404:6800:4008::/48 tpe ", "192.0.2.0/24 xxx "]);
    let site = parse_google(&myaddr, &locations).unwrap();
    assert_eq!(site.code, "TPE");
}

#[test]
fn google_without_match_is_none() {
    let myaddr = strings(&["198.51.100.7"]);
    let locations = strings(&["34.64.1.0/24 icn "]);
    assert!(parse_google(&myaddr, &locations).is_none());
}

#[test]
fn freeform_extracts_a_site_token() {
    let site =
        parse_freeform(&strings(&["CleanBrowsing v1.6a - dns-edge-canada-toronto3"])).unwrap();
    assert_eq!(site.code, "TORONTO");
    assert!(site.coords.is_none());

    let site = parse_freeform(&strings(&["rcrsv4.cator1.ultradns"])).unwrap();
    assert_eq!(site.code, "CATOR");

    assert!(parse_freeform(&strings(&[""])).is_none());
}

#[test]
fn cidr_matching_handles_edge_lengths() {
    let (net, len) = parse_cidr("0.0.0.0/0").unwrap();
    assert!(cidr_contains(net, len, ip("203.0.113.9")));
    let (net, len) = parse_cidr("203.0.113.9/32").unwrap();
    assert!(cidr_contains(net, len, ip("203.0.113.9")));
    assert!(!cidr_contains(net, len, ip("203.0.113.8")));
    // A v4 prefix must not swallow v6 addresses.
    let (net, len) = parse_cidr("0.0.0.0/0").unwrap();
    assert!(!cidr_contains(net, len, ip("2001:db8::1")));
    assert!(parse_cidr("34.64.0.0/33").is_none());
}

// ---------------------------------------------------------------- more

#[test]
fn cidr_edge_cases() {
    assert_eq!(parse_cidr("::/0"), Some((0, 0)));
    assert!(cidr_contains(0, 0, ip("ffff::1")));
    assert!(cidr_contains(1, 128, ip("::1")));
    assert!(!cidr_contains(1, 128, ip("::2")));
    assert_eq!(parse_cidr("1.2.3.4"), None);
    assert_eq!(parse_cidr("1.2.3/8"), None);
    assert_eq!(parse_cidr("1.2.3.4/x"), None);
    assert_eq!(parse_cidr("::1/129"), None);
}

#[test]
fn empty_answers_name_no_site() {
    let none: Vec<String> = Vec::new();
    assert!(parse_quad9(&none).is_none());
    assert!(parse_cloudflare(&none).is_none());
    assert!(parse_opendns(&none).is_none());
    assert!(parse_freeform(&none).is_none());
    assert!(parse_google(&none, &none).is_none());
}

#[test]
fn codes_that_are_no_airport_code_are_passed_over() {
    // Four letters, or digits in the middle.
    assert!(parse_quad9(&strings(&["res.qyulx1.net"])).is_none());
    assert!(parse_cloudflare(&strings(&["yulx01"])).is_none());
    assert!(parse_cloudflare(&strings(&["yu1l"])).is_none());
    assert!(parse_opendns(&strings(&["server r3.yyz1"])).is_none());
    // White space around an answer is none of it.
    assert_eq!(parse_cloudflare(&strings(&[" yul01\n"])).unwrap().code, "YUL");
    assert_eq!(parse_opendns(&strings(&["x", "server  m1.ams "])).unwrap().code, "AMS");
}

#[test]
fn google_takes_the_first_of_equal_prefixes_and_skips_bad_entries() {
    let myaddr = strings(&["34.64.1.9"]);
    let locations = strings(&[
        "nonsense",
        "34.64.1.0/24",
        "34.64.1.0/99 bad",
        "34.64.1.0/24 aaa",
        "34.64.1.0/24 bbb",
        "34.64.0.0/16 ccc",
    ]);
    assert_eq!(parse_google(&myaddr, &locations).unwrap().code, "AAA");
}

#[test]
fn codes_are_upper_case_and_short() {
    assert_eq!(Site::from_code("abcdefghij").code, "ABCDEFG");
    // A letter that has two in upper case.
    assert_eq!(Site::from_code("straße").code, "STRASSE");
    assert_eq!(Site::from_code("ßßßßßßß").code, "SSSSSSS");
    assert_eq!(airport_coords("yul"), None);
    assert!(airport_coords("YUL").is_some());
    assert_eq!(
        airport_coords("ABJ"),
        Some((Degrees::Tenths(53), Degrees::Tenths(-39)))
    );
    assert_eq!(
        airport_coords("ZRH"),
        Some((Degrees::Tenths(475), Degrees::Tenths(86)))
    );
}

#[test]
fn probes_ask_and_read_their_own_way() {
    let none: Vec<String> = Vec::new();
    assert!(matches!(
        SiteProbe::Quad9.first_query(),
        ProbeQuery::Text("id.server.on.quad9.net")
    ));
    assert!(matches!(SiteProbe::Cloudflare.first_query(), ProbeQuery::Chaos("id.server")));
    assert!(matches!(
        SiteProbe::Google.second_query(),
        Some(ProbeQuery::Text("locations.publicdns.goog"))
    ));
    assert!(SiteProbe::OpenDns.second_query().is_none());
    let code = |probe, first: &[&str], second: &Vec<String>| {
        site_of(probe, &strings(first), second).unwrap().code
    };
    assert_eq!(code(SiteProbe::Quad9, &["res1.qams1.x"], &none), "AMS");
    assert_eq!(code(SiteProbe::Cloudflare, &["fra07"], &none), "FRA");
    assert_eq!(code(SiteProbe::OpenDns, &["server r1.lhr"], &none), "LHR");
    assert_eq!(code(SiteProbe::ChIdServer, &["edge.oslo4"], &none), "OSLO");
    assert_eq!(
        code(SiteProbe::Google, &["1.2.3.4"], &strings(&["1.2.0.0/16 cdg"])),
        "CDG"
    );
}

use std::str::FromStr;

use hickory_resolver::proto::op::{Edns, Message as Wire, OpCode, ResponseCode};
use hickory_resolver::proto::rr::rdata::opt::{EdnsCode, EdnsOption};
use hickory_resolver::proto::rr::rdata::{A, CNAME, TXT};
use hickory_resolver::proto::rr::{DNSClass, Name, RData};

use dnsglobe::address::{ip_string, parse_ip, IpAddr};
use dnsglobe::clock::{Duration, Instant};
use dnsglobe::dns::{fmt_ecs, parse_ecs, short_error, ClientSubnet, QueryResult};
use dnsglobe::message::{
    chaos_answers, chaos_message, classify_ecs_response, classify_lookup, datagram_arrival,
    ecs_message, frame, frame_length, fuller_reply, stream_reply, time_left, Arrival,
    LookupOutcome, Message,
};
use dnsglobe::records::{parse_record_type, Record, RecordType};

#[test]
fn maps_timeout_and_refused_messages() {
    assert_eq!(short_error("request timed out".into()), "timeout");
    assert_eq!(short_error("Connection REFUSED by peer".into()), "refused");
}

#[test]
fn short_messages_pass_through() {
    assert_eq!(short_error("proto error".into()), "proto error");
}

#[test]
fn parse_ecs_accepts_cidrs_and_bare_addresses() {
    let subnet = parse_ecs("203.0.113.0/24").unwrap();
    assert_eq!(fmt_ecs(&subnet), "203.0.113.0/24");
    assert_eq!(subnet.scope_prefix(), 0);
    // Bare address: full-length prefix.
    assert_eq!(fmt_ecs(&parse_ecs("198.51.100.7").unwrap()), "198.51.100.7/32");
    assert_eq!(fmt_ecs(&parse_ecs("2001:db8::1").unwrap()), "2001:db8::1/128");
    assert_eq!(fmt_ecs(&parse_ecs("2001:db8::/56").unwrap()), "2001:db8::/56");
}

#[test]
fn parse_ecs_zeroes_host_bits() {
    // Bits beyond the source prefix must be zero.
    assert_eq!(fmt_ecs(&parse_ecs("203.0.113.77/24").unwrap()), "203.0.113.0/24");
    assert_eq!(fmt_ecs(&parse_ecs("10.255.255.255/20").unwrap()), "10.255.240.0/20");
    assert_eq!(fmt_ecs(&parse_ecs("192.0.2.1/0").unwrap()), "0.0.0.0/0");
    assert_eq!(
        fmt_ecs(&parse_ecs("2001:db8:ffff:ffff::1/56").unwrap()),
        "2001:db8:ffff:ff00::/56"
    );
}

#[test]
fn parse_ecs_rejects_garbage() {
    assert!(parse_ecs("not-an-ip").unwrap_err().contains("IP address"));
    assert!(parse_ecs("10.0.0.0/33").unwrap_err().contains("too long"));
    assert!(parse_ecs("2001:db8::/129").unwrap_err().contains("too long"));
    assert!(parse_ecs("10.0.0.0/x").unwrap_err().contains("prefix length"));
    assert!(parse_ecs("").unwrap_err().contains("IP address"));
}

#[test]
fn parse_ecs_says_exactly_what_is_wrong() {
    assert_eq!(parse_ecs("no\"pe").unwrap_err(), "invalid IP address \"no\\\"pe\"");
    assert_eq!(parse_ecs("10.0.0.0/x").unwrap_err(), "invalid prefix length \"x\"");
    assert_eq!(
        parse_ecs("10.0.0.7/33").unwrap_err(),
        "prefix /33 too long for 10.0.0.7 (max /32)"
    );
    assert_eq!(
        parse_ecs("2001:db8::/129").unwrap_err(),
        "prefix /129 too long for 2001:db8:: (max /128)"
    );
    // The length is looked at before the address, and takes a plus sign.
    assert_eq!(parse_ecs("nope/256").unwrap_err(), "invalid prefix length \"256\"");
    assert_eq!(fmt_ecs(&parse_ecs("10.1.2.3/+8").unwrap()), "10.0.0.0/8");
    assert_eq!(parse_ecs("10.1.2.3/+").unwrap_err(), "invalid prefix length \"+\"");
    assert_eq!(parse_ecs("10.1.2.3/").unwrap_err(), "invalid prefix length \"\"");
    assert_eq!(parse_ecs("1.2.3.4/8/8").unwrap_err(), "invalid prefix length \"8/8\"");
}

#[test]
fn messages_quote_plain_text_as_it_is() {
    let plain: String =
        (' '..='~').filter(|c| !matches!(c, '"' | '\'' | '\\' | '/')).collect();
    assert_eq!(parse_ecs(&plain).unwrap_err(), format!("invalid IP address \"{plain}\""));
    let slash = format!("{plain}/");
    assert_eq!(
        parse_ecs(&format!("10.0.0.0/{slash}")).unwrap_err(),
        format!("invalid prefix length \"{slash}\"")
    );
}

#[test]
fn subnets_read_back_from_their_text() {
    for text in ["0.0.0.0/0", "10.0.0.0/8", "255.255.255.255/32", "::/0", "::1/128", "fe80::/10"] {
        let subnet = parse_ecs(text).unwrap();
        assert_eq!(fmt_ecs(&subnet), text);
        assert_eq!(parse_ecs(&fmt_ecs(&subnet)).unwrap(), subnet);
    }
    assert_eq!(
        parse_ecs("128.0.0.1/1").unwrap(),
        ClientSubnet { addr: IpAddr::V4(0x8000_0000), source_prefix: 1, scope_prefix: 0 }
    );
}

#[test]
fn addresses_read_back_from_their_text() {
    assert_eq!(parse_ip("192.0.2.1"), Some(IpAddr::V4(0xc000_0201)));
    assert_eq!(ip_string(IpAddr::V4(0xc000_0201)), "192.0.2.1");
    assert_eq!(parse_ip("::ffff:1.2.3.4"), Some(IpAddr::V6(0xffff_0102_0304)));
    assert_eq!(ip_string(IpAddr::V6(1)), "::1");
    for bad in ["", "1.2.3", "1.2.3.256", "01.2.3.4", " 1.2.3.4", "1.2.3.4 ", "1.2.3.4.5", ":"] {
        assert_eq!(parse_ip(bad), None, "{bad}");
    }
}

#[test]
fn ecs_message_carries_the_subnet_option() {
    let subnet = parse_ecs("203.0.113.0/24").unwrap();
    let request = ecs_message("example.com", RecordType::A, subnet).unwrap();
    let message = Wire::from_vec(&request.bytes).unwrap();
    assert!(message.metadata.recursion_desired);
    assert_eq!(message.metadata.id, request.id);
    assert_eq!(message.queries.len(), 1);
    assert_eq!(message.queries[0].name(), &Name::from_str("example.com.").unwrap());
    let edns = message.edns.as_ref().unwrap();
    assert_eq!(edns.max_payload(), 1232);
    let wanted = hickory_resolver::proto::rr::rdata::opt::ClientSubnet::new(
        "203.0.113.0".parse().unwrap(),
        24,
        0,
    );
    assert_eq!(edns.option(EdnsCode::Subnet), Some(&EdnsOption::Subnet(wanted)));
}

#[test]
fn names_that_are_none_are_reported() {
    let subnet = parse_ecs("2001:db8::/56").unwrap();
    let long = "x".repeat(70);
    let error = ecs_message(&long, RecordType::AAAA, subnet).unwrap_err();
    assert!(matches!(error, QueryResult::Error(e) if e == "invalid name"));
    assert!(chaos_message(&long).is_none());
    assert!(ecs_message("example.com", RecordType::AAAA, subnet).is_ok());
}

#[test]
fn subnets_that_cannot_be_encoded_are_reported() {
    let subnet = ClientSubnet { addr: IpAddr::V4(0), source_prefix: 40, scope_prefix: 0 };
    let error = ecs_message("example.com", RecordType::A, subnet).unwrap_err();
    assert!(matches!(error, QueryResult::Error(e) if e.len() <= 48 && e != "invalid name"));
}

/// A response as classify sees it.
fn response(code: ResponseCode, answers: Vec<Record>, echo: bool) -> Message {
    Message {
        id: 0,
        truncated: false,
        code: code.into(),
        options: if echo { Some(vec![8]) } else { None },
        answers,
    }
}

fn a_record(ip: &str, ttl: u32) -> Record {
    Record {
        rtype: 1,
        ttl,
        data: A::from_str(ip).unwrap().to_string(),
        txt: Vec::new(),
    }
}

#[test]
fn ecs_echo_detection_only_applies_to_real_answers() {
    let (result, honored) = classify_ecs_response(
        &response(ResponseCode::NoError, vec![a_record("192.0.2.1", 60)], true),
        RecordType::A,
    );
    assert!(matches!(result, QueryResult::Records { .. }));
    assert_eq!(honored, Some(true));

    // No echo: the resolver ignored ECS.
    let (_, honored) = classify_ecs_response(
        &response(ResponseCode::NoError, vec![a_record("192.0.2.1", 60)], false),
        RecordType::A,
    );
    assert_eq!(honored, Some(false));

    let (result, honored) =
        classify_ecs_response(&response(ResponseCode::NXDomain, vec![], false), RecordType::A);
    assert!(matches!(result, QueryResult::NoRecords(_)));
    assert_eq!(honored, Some(false));

    // Errors carry no echo verdict.
    let (result, honored) =
        classify_ecs_response(&response(ResponseCode::Refused, vec![], false), RecordType::A);
    assert!(matches!(result, QueryResult::Error(_)));
    assert_eq!(honored, None);
    let (result, honored) =
        classify_ecs_response(&response(ResponseCode::ServFail, vec![], false), RecordType::A);
    assert!(matches!(result, QueryResult::ServFail));
    assert_eq!(honored, None);
}

#[test]
fn ecs_classification_matches_the_resolver_path() {
    // An empty answer without an error, like the lookup path.
    let (result, _) =
        classify_ecs_response(&response(ResponseCode::NoError, vec![], true), RecordType::A);
    assert!(matches!(result, QueryResult::NoRecords(code) if code == "empty answer"));

    // Min TTL across records, values sorted and deduped.
    let answers =
        vec![a_record("192.0.2.9", 300), a_record("192.0.2.1", 60), a_record("192.0.2.9", 300)];
    let (result, _) =
        classify_ecs_response(&response(ResponseCode::NoError, answers, true), RecordType::A);
    match result {
        QueryResult::Records { values, min_ttl } => {
            assert_eq!(values, vec!["192.0.2.1", "192.0.2.9"]);
            assert_eq!(min_ttl, 60);
        }
        other => panic!("expected records, got {other:?}"),
    }
}

#[test]
fn truncation_respects_char_boundaries() {
    // A multi-byte char straddling the 48-byte cut.
    let message = format!("{}éxxxx", "x".repeat(47));
    assert_eq!(short_error(message), "x".repeat(47));

    let long_ascii = "e".repeat(80);
    assert_eq!(short_error(long_ascii), "e".repeat(48));
}

// ---------------------------------------------------------------- bytes

fn wire(id: u16, code: ResponseCode, truncated: bool, echo: bool) -> Wire {
    let mut message = Wire::response(id, OpCode::Query);
    message.metadata.response_code = code;
    message.metadata.truncation = truncated;
    if echo {
        let mut edns = Edns::new();
        edns.options_mut().insert(EdnsOption::Subnet(
            hickory_resolver::proto::rr::rdata::opt::ClientSubnet::new(
                "203.0.113.0".parse().unwrap(),
                24,
                0,
            ),
        ));
        message.edns = Some(edns);
    }
    message
}

fn record(ttl: u32, data: RData) -> hickory_resolver::proto::rr::Record {
    hickory_resolver::proto::rr::Record::from_rdata(
        Name::from_str("example.com.").unwrap(),
        ttl,
        data,
    )
}

#[test]
fn replies_are_read_from_bytes() {
    let mut message = wire(7, ResponseCode::NoError, false, true);
    message.answers = vec![
        record(300, RData::CNAME(CNAME(Name::from_str("www.example.net.").unwrap()))),
        record(60, RData::A(A::from_str("192.0.2.1").unwrap())),
    ];
    let bytes = message.to_vec().unwrap();
    let reply = match datagram_arrival(&bytes, 7) {
        Arrival::Reply(reply) => reply,
        other => panic!("expected a reply, got {other:?}"),
    };
    let (result, honored) = classify_ecs_response(&reply, RecordType::A);
    assert_eq!(honored, Some(true));
    match result {
        QueryResult::Records { values, min_ttl } => {
            // Another type than the one asked for is named.
            assert_eq!(values, vec!["192.0.2.1", "CNAME www.example.net."]);
            assert_eq!(min_ttl, 60);
        }
        other => panic!("expected records, got {other:?}"),
    }
}

#[test]
fn strays_and_truncated_replies_are_told_apart() {
    let bytes = wire(7, ResponseCode::NoError, true, false).to_vec().unwrap();
    assert!(matches!(datagram_arrival(&bytes, 8), Arrival::Stray));
    assert!(matches!(datagram_arrival(&[1, 2, 3], 7), Arrival::Stray));
    let cut = match datagram_arrival(&bytes, 7) {
        Arrival::Truncated(reply) => reply,
        other => panic!("expected a truncated reply, got {other:?}"),
    };
    let full = wire(7, ResponseCode::NXDomain, false, false).to_vec().unwrap();
    assert!(stream_reply(&full, 8).is_none());
    assert!(stream_reply(&[], 7).is_none());
    let full = stream_reply(&full, 7);
    assert_eq!(full.as_ref().unwrap().code, 3);
    assert_eq!(fuller_reply(cut.clone(), full).code, 3);
    assert_eq!(fuller_reply(cut, None).code, 0);
}

#[test]
fn response_codes_are_written_out() {
    for (code, text) in [
        (ResponseCode::NXDomain, "Non-Existent Domain"),
        (ResponseCode::NotImp, "Not Implemented"),
        (ResponseCode::FormErr, "Form Error"),
    ] {
        let bytes = wire(1, code, false, false).to_vec().unwrap();
        let reply = stream_reply(&bytes, 1).unwrap();
        let (result, _) = classify_ecs_response(&reply, RecordType::A);
        match result {
            QueryResult::NoRecords(reason) | QueryResult::Error(reason) => {
                assert_eq!(reason, text);
            }
            other => panic!("expected a reason, got {other:?}"),
        }
    }
}

#[test]
fn lookups_are_classified_by_how_they_end() {
    let result = |outcome| classify_lookup(outcome, RecordType::A);
    assert!(matches!(result(LookupOutcome::TimedOut), QueryResult::Error(e) if e == "timeout"));
    assert!(matches!(result(LookupOutcome::Code(5)), QueryResult::Error(e) if e == "refused"));
    assert!(matches!(result(LookupOutcome::Code(2)), QueryResult::ServFail));
    assert!(
        matches!(result(LookupOutcome::Code(4)), QueryResult::Error(e) if e == "Not Implemented")
    );
    assert!(
        matches!(result(LookupOutcome::NoRecords(0)), QueryResult::NoRecords(c) if c == "No Error")
    );
    assert!(matches!(
        result(LookupOutcome::Failed("io error: timed out".into())),
        QueryResult::Error(e) if e == "timeout"
    ));
    assert!(matches!(
        result(LookupOutcome::Answers(vec![a_record("192.0.2.1", 9)])),
        QueryResult::Records { min_ttl: 9, .. }
    ));
}

#[test]
fn both_paths_give_the_same_result() {
    for code in [0u16, 2, 3, 4, 5] {
        let reply = Message {
            id: 1,
            truncated: false,
            code,
            options: None,
            answers: vec![a_record("192.0.2.1", 60)],
        };
        let (raw, _) = classify_ecs_response(&reply, RecordType::A);
        let looked = classify_lookup(
            match code {
                0 => LookupOutcome::Answers(reply.answers.clone()),
                3 => LookupOutcome::NoRecords(3),
                _ => LookupOutcome::Code(code),
            },
            RecordType::A,
        );
        assert_eq!(format!("{raw:?}"), format!("{looked:?}"));
    }
}

#[test]
fn chaos_queries_and_answers() {
    let request = chaos_message("id.server").unwrap();
    let message = Wire::from_vec(&request.bytes).unwrap();
    assert_eq!(message.metadata.id, request.id);
    assert!(!message.metadata.recursion_desired);
    assert_eq!(message.queries[0].query_class(), DNSClass::CH);
    assert!(message.edns.is_none());

    let mut answer = wire(request.id, ResponseCode::NoError, false, false);
    answer.answers = vec![
        record(0, RData::TXT(TXT::from_bytes(vec![b"yul01", b"two"]))),
        record(0, RData::A(A::from_str("192.0.2.1").unwrap())),
        record(0, RData::TXT(TXT::from_bytes(vec![b"\xff!"]))),
    ];
    let bytes = answer.to_vec().unwrap();
    assert_eq!(
        chaos_answers(&bytes, request.id),
        Some(vec!["yul01".to_string(), "two".to_string(), "\u{fffd}!".to_string()])
    );
    assert_eq!(chaos_answers(&bytes, request.id.wrapping_add(1)), None);
    assert_eq!(chaos_answers(&[0], request.id), None);
    let empty = wire(3, ResponseCode::NoError, false, false).to_vec().unwrap();
    assert_eq!(chaos_answers(&empty, 3), None);
}

#[test]
fn frames_carry_their_length() {
    let request = vec![9u8; 300];
    let framed = frame(&request).unwrap();
    assert_eq!(framed[..2], [1, 44]);
    assert_eq!(frame_length(framed[0], framed[1]), 300);
    assert_eq!(framed[2..], request[..]);
    assert!(frame(&vec![0u8; 65_535]).is_some());
    assert!(frame(&vec![0u8; 65_536]).is_none());
}

#[test]
fn waiting_ends_at_the_deadline() {
    let deadline = Instant { nanos: 100 };
    assert_eq!(time_left(deadline, Instant { nanos: 30 }), Some(Duration { nanos: 70 }));
    assert_eq!(time_left(deadline, deadline), Some(Duration { nanos: 0 }));
    assert_eq!(time_left(deadline, Instant { nanos: 101 }), None);
}

#[test]
fn record_types_are_read_in_any_case() {
    assert_eq!(parse_record_type("a"), Ok(RecordType::A));
    assert_eq!(parse_record_type("Aaaa"), Ok(RecordType::AAAA));
    assert_eq!(parse_record_type("TXT"), Ok(RecordType::TXT));
    assert_eq!(parse_record_type("soa"), Ok(RecordType::SOA));
    let unsupported =
        "unsupported record type (expected one of A, AAAA, CNAME, MX, NS, TXT, SOA)";
    // A type that exists, but is not offered; and none at all.
    assert_eq!(parse_record_type("SRV").unwrap_err(), unsupported);
    assert_eq!(parse_record_type("").unwrap_err(), unsupported);
}

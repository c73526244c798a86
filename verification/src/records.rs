//! Record types, and the records of an answer.
use vstd::prelude::*;

use crate::dns;
use crate::dns::QueryResult;
use crate::order;
use crate::text;

verus! {

// ---------------------------------------------------------------- record types

/// The record types that can be asked for.
#[derive(Clone, Copy, PartialEq, Eq, Structural, Debug)]
pub enum RecordType {
    A,
    AAAA,
    CNAME,
    MX,
    NS,
    TXT,
    SOA,
}

/// The record types in the order in which they are offered.
pub const RECORD_TYPES: [RecordType; 7] = [
    RecordType::A,
    RecordType::AAAA,
    RecordType::CNAME,
    RecordType::MX,
    RecordType::NS,
    RecordType::TXT,
    RecordType::SOA,
];

impl RecordType {
    /// The name of the type.
    pub open spec fn label(self) -> Seq<char> {
        match self {
            RecordType::A => "A"@,
            RecordType::AAAA => "AAAA"@,
            RecordType::CNAME => "CNAME"@,
            RecordType::MX => "MX"@,
            RecordType::NS => "NS"@,
            RecordType::TXT => "TXT"@,
            RecordType::SOA => "SOA"@,
        }
    }

    /// The number of the type in a DNS message.
    pub open spec fn number(self) -> u16 {
        match self {
            RecordType::A => 1,
            RecordType::AAAA => 28,
            RecordType::CNAME => 5,
            RecordType::MX => 15,
            RecordType::NS => 2,
            RecordType::TXT => 16,
            RecordType::SOA => 6,
        }
    }

    /// The name of the type.
    pub fn name(self) -> (out: &'static str)
        ensures
            out@ == self.label(),
    {
        match self {
            RecordType::A => "A",
            RecordType::AAAA => "AAAA",
            RecordType::CNAME => "CNAME",
            RecordType::MX => "MX",
            RecordType::NS => "NS",
            RecordType::TXT => "TXT",
            RecordType::SOA => "SOA",
        }
    }

    /// The number of the type in a DNS message.
    pub fn code(self) -> (out: u16)
        ensures
            out == self.number(),
    {
        match self {
            RecordType::A => 1,
            RecordType::AAAA => 28,
            RecordType::CNAME => 5,
            RecordType::MX => 15,
            RecordType::NS => 2,
            RecordType::TXT => 16,
            RecordType::SOA => 6,
        }
    }
}

/// Where a type stands in the offered order.
pub open spec fn type_index(rtype: RecordType) -> int {
    match rtype {
        RecordType::A => 0,
        RecordType::AAAA => 1,
        RecordType::CNAME => 2,
        RecordType::MX => 3,
        RecordType::NS => 4,
        RecordType::TXT => 5,
        RecordType::SOA => 6,
    }
}

/// Every type is offered, at its index.
pub proof fn every_type_is_offered(rtype: RecordType)
    ensures
        0 <= type_index(rtype) < 7,
        RECORD_TYPES@[type_index(rtype)] == rtype,
{
}

/// Where a type stands in the offered order.
pub fn index_of_type(rtype: RecordType) -> (out: usize)
    ensures
        out == type_index(rtype),
        out < RECORD_TYPES@.len(),
        RECORD_TYPES@[out as int] == rtype,
{
    match rtype {
        RecordType::A => 0,
        RecordType::AAAA => 1,
        RecordType::CNAME => 2,
        RecordType::MX => 3,
        RecordType::NS => 4,
        RecordType::TXT => 5,
        RecordType::SOA => 6,
    }
}

/// `RecordType::from_str` of `hickory_proto`, and the number of the type that
/// it found. Each offered type is found by its name, in upper case, and by
/// nothing else.
#[verifier::external_body]
fn type_number(s: &str) -> (out: Option<u16>)
    ensures
        forall|t: RecordType| out == Some(#[trigger] t.number()) <==> s@ == t.label(),
{
    s.parse::<hickory_resolver::proto::rr::RecordType>().ok().map(|t| t.into())
}

/// The names of the offered types, up to the `n`-th.
pub open spec fn type_names(n: nat) -> Seq<Seq<char>> {
    Seq::new(n, |i: int| RECORD_TYPES@[i].label())
}

/// What is said of a text that names no offered type.
pub open spec fn unsupported_type() -> Seq<char> {
    "unsupported record type (expected one of "@ + text::joined(type_names(7), ", "@) + ")"@
}

/// The names of the offered types.
fn type_list() -> (out: Vec<String>)
    ensures
        text::texts(out@) == type_names(7),
{
    let mut out: Vec<String> = Vec::new();
    let mut i: usize = 0;
    while i < 7
        invariant
            i <= 7,
            text::texts(out@) == type_names(i as nat),
        decreases 7 - i,
    {
        let ghost before = out@;
        out.push(RECORD_TYPES[i].name().to_owned());
        assert(text::texts(out@) =~= text::texts(before).push(RECORD_TYPES@[i as int].label()));
        assert(text::texts(out@) =~= type_names((i + 1) as nat));
        i += 1;
    }
    out
}

/// Reads the name of an offered type, in any case.
pub fn parse_record_type(s: &str) -> (out: Result<RecordType, String>)
    ensures
        match out {
            Ok(rtype) => text::upper_text(s@) == rtype.label(),
            Err(message) => message@ == unsupported_type() && forall|t: RecordType|
                text::upper_text(s@) != #[trigger] t.label(),
        },
{
    let upper = text::uppercase(s);
    let found = type_number(upper.as_str());
    let mut i: usize = 0;
    while i < 7
        invariant
            i <= 7,
            upper@ == text::upper_text(s@),
            forall|t: RecordType| found == Some(#[trigger] t.number()) <==> upper@ == t.label(),
            forall|k: int| 0 <= k < i ==> upper@ != (#[trigger] RECORD_TYPES@[k]).label(),
        decreases 7 - i,
    {
        let rtype = RECORD_TYPES[i];
        if found == Some(rtype.code()) {
            return Ok(rtype);
        }
        assert(upper@ != rtype.label());
        i += 1;
    }
    proof {
        assert forall|t: RecordType| text::upper_text(s@) != #[trigger] t.label() by {
            every_type_is_offered(t);
        }
    }
    Err(
        "unsupported record type (expected one of ".to_owned().concat(
            text::joined_string(&type_list(), ", ").as_str(),
        ).concat(")"),
    )
}

// ---------------------------------------------------------------- records

/// The name of a type, offered or not, by its number.
pub uninterp spec fn type_text(number: u16) -> Seq<char>;

/// The `Display` form of `RecordType` of `hickory_proto`. The result depends on
/// the number alone; an offered type has its own name.
#[verifier::external_body]
fn type_string(number: u16) -> (out: String)
    ensures
        out@ == type_text(number),
        forall|t: RecordType| number == #[trigger] t.number() ==> out@ == t.label(),
{
    Into::<hickory_resolver::proto::rr::RecordType>::into(number).to_string()
}

/// One record of an answer section.
#[derive(Debug, Clone)]
pub struct Record {
    /// The number of the record's type.
    pub rtype: u16,
    pub ttl: u32,
    /// The record's value, as text.
    pub data: String,
    /// The character strings of a TXT record; none of any other.
    pub txt: Vec<Vec<u8>>,
}

/// What a record holds.
#[verifier::ext_equal]
pub struct RecordView {
    pub rtype: u16,
    pub ttl: u32,
    pub data: Seq<char>,
    pub txt: Seq<Seq<u8>>,
}

impl View for Record {
    type V = RecordView;

    open spec fn view(&self) -> RecordView {
        RecordView {
            rtype: self.rtype,
            ttl: self.ttl,
            data: self.data@,
            txt: self.txt@.map_values(|s: Vec<u8>| s@),
        }
    }
}

/// What the records of a list hold.
pub open spec fn records(list: Seq<Record>) -> Seq<RecordView> {
    list.map_values(|r: Record| r@)
}

/// How a record is shown: its value, with the type in front where that is not
/// the one asked for, so that answers stay comparable across resolvers.
pub open spec fn shown(record: RecordView, rtype: RecordType) -> Seq<char> {
    if record.rtype == rtype.number() {
        record.data
    } else {
        type_text(record.rtype) + " "@ + record.data
    }
}

/// Is `value` what one of the records is shown as?
pub open spec fn shows(answers: Seq<RecordView>, rtype: RecordType, value: Seq<char>) -> bool {
    exists|i: int| 0 <= i < answers.len() && #[trigger] shown(answers[i], rtype) == value
}

/// The smallest TTL among the records.
pub open spec fn least_ttl(answers: Seq<RecordView>) -> u32
    decreases answers.len(),
{
    if answers.len() == 0 {
        u32::MAX
    } else if answers.last().ttl < least_ttl(answers.drop_last()) {
        answers.last().ttl
    } else {
        least_ttl(answers.drop_last())
    }
}

/// Is `result` what an answer section stands for? Its values, in order and
/// none twice, with the smallest TTL; or that there is nothing.
pub open spec fn collected(
    answers: Seq<RecordView>,
    rtype: RecordType,
    result: dns::ResultView,
) -> bool {
    match result {
        dns::ResultView::Records { values, min_ttl } => {
            &&& answers.len() > 0
            &&& order::ascending(values)
            &&& forall|v: Seq<char>| #[trigger] values.contains(v) <==> shows(answers, rtype, v)
            &&& min_ttl == least_ttl(answers)
        },
        dns::ResultView::NoRecords(reason) => answers.len() == 0 && reason == "empty answer"@,
        _ => false,
    }
}

/// The order in which records arrive, and how often, makes no difference to
/// what an answer section stands for.
pub proof fn collected_once(
    answers: Seq<RecordView>,
    rtype: RecordType,
    a: dns::ResultView,
    b: dns::ResultView,
)
    requires
        collected(answers, rtype, a),
        collected(answers, rtype, b),
    ensures
        a == b,
{
    if let (
        dns::ResultView::Records { values: x, .. },
        dns::ResultView::Records { values: y, .. },
    ) = (a, b) {
        order::ascending_unique(x, y);
    }
}

/// How a record is shown.
fn shown_string(record: &Record, rtype: RecordType) -> (out: String)
    ensures
        out@ == shown(record@, rtype),
{
    if record.rtype == rtype.code() {
        record.data.clone()
    } else {
        type_string(record.rtype).concat(" ").concat(record.data.as_str())
    }
}

/// Turns an answer section into a result.
pub fn collect_answers(answers: &Vec<Record>, rtype: RecordType) -> (out: QueryResult)
    ensures
        collected(records(answers@), rtype, out@),
{
    let ghost views = records(answers@);
    let mut values: Vec<String> = Vec::new();
    let mut min_ttl: u32 = u32::MAX;
    let mut i: usize = 0;
    assert(views.take(0) =~= Seq::<RecordView>::empty());
    while i < answers.len()
        invariant
            i <= answers@.len(),
            views == records(answers@),
            order::ascending(text::texts(values@)),
            forall|v: Seq<char>| #[trigger]
                text::texts(values@).contains(v) <==> shows(views.take(i as int), rtype, v),
            min_ttl == least_ttl(views.take(i as int)),
            i > 0 <==> values@.len() > 0,
        decreases answers@.len() - i,
    {
        let ghost before = text::texts(values@);
        let ghost seen = views.take(i as int);
        let ghost more = views.take(i + 1);
        let record = &answers[i];
        proof {
            assert(more.drop_last() =~= seen);
            assert(more.last() == record@);
        }
        if record.ttl < min_ttl {
            min_ttl = record.ttl;
        }
        let value = shown_string(record, rtype);
        order::insert_ascending(&mut values, &value);
        proof {
            assert forall|v: Seq<char>| #[trigger]
                text::texts(values@).contains(v) <==> shows(more, rtype, v) by {
                if shows(seen, rtype, v) {
                    let k = choose|k: int|
                        0 <= k < seen.len() && #[trigger] shown(seen[k], rtype) == v;
                    assert(shown(more[k], rtype) == v);
                }
                if v == value@ {
                    assert(shown(more[i as int], rtype) == v);
                }
                if shows(more, rtype, v) {
                    let k = choose|k: int|
                        0 <= k < more.len() && #[trigger] shown(more[k], rtype) == v;
                    if k < i {
                        assert(shown(seen[k], rtype) == v);
                    }
                }
            }
            assert(text::texts(values@).contains(value@));
            assert(values@.len() > 0);
        }
        i += 1;
    }
    assert(views.take(i as int) =~= views);
    if values.len() == 0 {
        QueryResult::NoRecords("empty answer".to_owned())
    } else {
        QueryResult::Records { values, min_ttl }
    }
}

// ---------------------------------------------------------------- laws

/// The types have the numbers and names that the DNS registry gives them.
pub proof fn types_are_those_of_the_registry()
    ensures
        RecordType::A.number() == 1,
        RecordType::NS.number() == 2,
        RecordType::CNAME.number() == 5,
        RecordType::SOA.number() == 6,
        RecordType::MX.number() == 15,
        RecordType::TXT.number() == 16,
        RecordType::AAAA.number() == 28,
        RecordType::A.label() == "A"@,
        RecordType::NS.label() == "NS"@,
        RecordType::CNAME.label() == "CNAME"@,
        RecordType::SOA.label() == "SOA"@,
        RecordType::MX.label() == "MX"@,
        RecordType::TXT.label() == "TXT"@,
        RecordType::AAAA.label() == "AAAA"@,
{
}

/// No two types have the same number, name or place in the offered order.
pub proof fn types_are_told_apart(a: RecordType, b: RecordType)
    requires
        a != b,
    ensures
        a.number() != b.number(),
        a.label() != b.label(),
        type_index(a) != type_index(b),
{
    reveal_strlit("A");
    reveal_strlit("AAAA");
    reveal_strlit("CNAME");
    reveal_strlit("MX");
    reveal_strlit("NS");
    reveal_strlit("TXT");
    reveal_strlit("SOA");
    assert("A"@.len() == 1 && "AAAA"@.len() == 4 && "CNAME"@.len() == 5);
    assert("MX"@[0] == 'M' && "NS"@[0] == 'N' && "TXT"@[0] == 'T' && "SOA"@[0] == 'S');
    assert("MX"@.len() == 2 && "NS"@.len() == 2 && "TXT"@.len() == 3 && "SOA"@.len() == 3);
}

/// The types are offered in this order.
pub proof fn types_are_offered_in_order()
    ensures
        RECORD_TYPES@ == seq![
            RecordType::A,
            RecordType::AAAA,
            RecordType::CNAME,
            RecordType::MX,
            RecordType::NS,
            RecordType::TXT,
            RecordType::SOA,
        ],
        unsupported_type()
            == "unsupported record type (expected one of "@ + "A"@ + ", "@ + "AAAA"@ + ", "@
            + "CNAME"@ + ", "@ + "MX"@ + ", "@ + "NS"@ + ", "@ + "TXT"@ + ", "@ + "SOA"@ + ")"@,
{
    let sep = ", "@;
    assert(RECORD_TYPES@ =~= seq![
        RecordType::A,
        RecordType::AAAA,
        RecordType::CNAME,
        RecordType::MX,
        RecordType::NS,
        RecordType::TXT,
        RecordType::SOA,
    ]);
    reveal_with_fuel(text::joined, 8);
    assert(type_names(7).drop_last() =~= type_names(6));
    assert(type_names(6).drop_last() =~= type_names(5));
    assert(type_names(5).drop_last() =~= type_names(4));
    assert(type_names(4).drop_last() =~= type_names(3));
    assert(type_names(3).drop_last() =~= type_names(2));
    assert(type_names(2).drop_last() =~= type_names(1));
    assert(text::joined(type_names(1), sep) =~= "A"@);
    assert(unsupported_type() =~= "unsupported record type (expected one of "@ + "A"@ + ", "@
        + "AAAA"@ + ", "@ + "CNAME"@ + ", "@ + "MX"@ + ", "@ + "NS"@ + ", "@ + "TXT"@ + ", "@
        + "SOA"@ + ")"@);
}

/// The smallest TTL is no larger than any, and is one of them.
proof fn least_ttl_is_least(answers: Seq<RecordView>)
    requires
        answers.len() > 0,
    ensures
        forall|i: int| 0 <= i < answers.len() ==> least_ttl(answers) <= (#[trigger] answers[i]).ttl,
        exists|i: int| 0 <= i < answers.len() && (#[trigger] answers[i]).ttl == least_ttl(answers),
    decreases answers.len(),
{
    let front = answers.drop_last();
    let last = answers.len() - 1;
    if front.len() > 0 {
        least_ttl_is_least(front);
        assert forall|i: int| 0 <= i < answers.len() implies least_ttl(answers) <= (
        #[trigger] answers[i]).ttl by {
            if i < last {
                assert(answers[i] == front[i]);
            }
        }
        if answers.last().ttl < least_ttl(front) {
            assert(answers[last].ttl == least_ttl(answers));
        } else {
            let i = choose|i: int| 0 <= i < front.len() && (#[trigger] front[i]).ttl == least_ttl(
                front,
            );
            assert(answers[i].ttl == least_ttl(answers));
        }
    } else {
        assert(least_ttl(front) == u32::MAX);
        assert(answers[last].ttl == least_ttl(answers));
    }
}

/// An answer section that is not empty comes to records, with a TTL that is no
/// larger than that of any record and is that of one of them; an empty one comes
/// to none.
pub proof fn sections_come_to_their_records(
    answers: Seq<Record>,
    rtype: RecordType,
    result: QueryResult,
)
    requires
        collected(records(answers), rtype, result@),
    ensures
        answers.len() > 0 <==> result is Records,
        answers.len() == 0 <==> result is NoRecords,
        result is NoRecords ==> result->NoRecords_0@ == "empty answer"@,
        result is Records ==> forall|i: int|
            0 <= i < answers.len() ==> result->min_ttl <= (#[trigger] answers[i]).ttl,
        result is Records ==> exists|i: int|
            0 <= i < answers.len() && result->min_ttl == (#[trigger] answers[i]).ttl,
{
    let views = records(answers);
    if result is Records {
        least_ttl_is_least(views);
        assert forall|i: int| 0 <= i < answers.len() implies result->min_ttl <= (
        #[trigger] answers[i]).ttl by {
            assert(views[i].ttl == answers[i].ttl);
        }
        let i = choose|i: int| 0 <= i < views.len() && (#[trigger] views[i]).ttl == least_ttl(views);
        assert(answers[i].ttl == result->min_ttl);
    }
}

/// The value that a record stands for, when records of the type numbered `asked`
/// were asked for.
pub open spec fn stands_for(record: Record, asked: u16, value: Seq<char>) -> bool {
    if record.rtype == asked {
        value == record.data@
    } else {
        value == type_text(record.rtype) + " "@ + record.data@
    }
}

/// Every record of a section is among the values, and every value is that of a
/// record; no value is there twice, and they are in order.
pub proof fn values_are_those_of_the_records(
    answers: Seq<Record>,
    rtype: RecordType,
    result: QueryResult,
    value: Seq<char>,
)
    requires
        collected(records(answers), rtype, result@),
        result is Records,
    ensures
        (exists|k: int|
            0 <= k < result->Records_values@.len() && (#[trigger] result->Records_values@[k])@ == value)
            <==> exists|i: int|
            0 <= i < answers.len() && stands_for(#[trigger] answers[i], rtype.number(), value),
        forall|j: int, k: int|
            0 <= j < k < result->Records_values@.len() ==> order::text_lt(
                (#[trigger] result->Records_values@[j])@,
                (#[trigger] result->Records_values@[k])@,
            ),
{
    let list = result->Records_values@;
    let values = text::texts(list);
    let views = records(answers);
    if exists|k: int| 0 <= k < list.len() && (#[trigger] list[k])@ == value {
        let k = choose|k: int| 0 <= k < list.len() && (#[trigger] list[k])@ == value;
        assert(values[k] == value);
        assert(values.contains(value));
        let i = choose|i: int| 0 <= i < views.len() && #[trigger] shown(views[i], rtype) == value;
        assert(views[i] == answers[i]@);
        assert(stands_for(answers[i], rtype.number(), value));
    }
    if exists|i: int|
        0 <= i < answers.len() && stands_for(#[trigger] answers[i], rtype.number(), value) {
        let i = choose|i: int|
            0 <= i < answers.len() && stands_for(#[trigger] answers[i], rtype.number(), value);
        assert(views[i] == answers[i]@);
        assert(shown(views[i], rtype) == value);
        assert(values.contains(value));
        let k = choose|k: int| 0 <= k < values.len() && values[k] == value;
        assert(list[k]@ == value);
    }
    assert forall|j: int, k: int| 0 <= j < k < list.len() implies order::text_lt(
        (#[trigger] list[j])@,
        (#[trigger] list[k])@,
    ) by {
        assert(order::text_lt(values[j], values[k]));
    }
}

/// The types are called by their names in the registry.
pub proof fn types_have_their_names()
    ensures
        RecordType::A.label() == "A"@,
        RecordType::AAAA.label() == "AAAA"@,
        RecordType::CNAME.label() == "CNAME"@,
        RecordType::MX.label() == "MX"@,
        RecordType::NS.label() == "NS"@,
        RecordType::TXT.label() == "TXT"@,
        RecordType::SOA.label() == "SOA"@,
{
}

/// What is said of another name lists all seven types, in the order in which they
/// are offered.
pub proof fn the_offered_types_are_listed()
    ensures
        type_names(7).len() == 7,
        forall|i: int| 0 <= i < 7 ==> #[trigger] type_names(7)[i] == RECORD_TYPES@[i].label(),
        unsupported_type() == "unsupported record type (expected one of "@ + text::joined(
            type_names(7),
            ", "@,
        ) + ")"@,
{
}

} // verus!

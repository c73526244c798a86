//! DNS messages on the wire: requests to send, replies to judge.
use hickory_resolver::proto::op;
use hickory_resolver::proto::rr;
use hickory_resolver::proto::rr::rdata::{opt, A, AAAA};

use vstd::prelude::*;

use crate::address::IpAddr;
use crate::clock::{Duration, Instant};
use crate::dns;
use crate::dns::{ClientSubnet, QueryResult};
use crate::records;
use crate::records::{Record, RecordType};
use crate::text;

verus! {

/// UDP payload size advertised with a client subnet.
pub const EDNS_PAYLOAD: u16 = 1232;

/// The number of the EDNS option that carries a client subnet.
pub const SUBNET_OPTION: u16 = 8;

/// The number of the CHAOS class.
pub const CHAOS_CLASS: u16 = 3;

// ---------------------------------------------------------------- replies

/// What a DNS message says, as far as it is read here.
#[derive(Debug, Clone)]
pub struct Message {
    pub id: u16,
    pub truncated: bool,
    /// The number of the response code.
    pub code: u16,
    /// The numbers of the EDNS options, if the message has an EDNS record.
    pub options: Option<Vec<u16>>,
    pub answers: Vec<Record>,
}

/// What a message holds.
#[verifier::ext_equal]
pub struct MessageView {
    pub id: u16,
    pub truncated: bool,
    pub code: u16,
    pub options: Option<Seq<u16>>,
    pub answers: Seq<records::RecordView>,
}

impl View for Message {
    type V = MessageView;

    open spec fn view(&self) -> MessageView {
        MessageView {
            id: self.id,
            truncated: self.truncated,
            code: self.code,
            options: match self.options {
                Some(list) => Some(list@),
                None => None,
            },
            answers: records::records(self.answers@),
        }
    }
}

/// What an optional message holds.
pub open spec fn message_view(message: Option<Message>) -> Option<MessageView> {
    match message {
        Some(m) => Some(m@),
        None => None,
    }
}

/// The message that a row of bytes encodes, if it encodes one.
pub uninterp spec fn decoded(bytes: Seq<u8>) -> Option<MessageView>;

/// `Message::from_vec` of `hickory_proto`, and of what it found the id, the
/// truncation flag, the response code, the EDNS options and the answers. The
/// result depends on the bytes alone.
#[verifier::external_body]
fn decode(bytes: &[u8]) -> (out: Option<Message>)
    ensures
        message_view(out) == decoded(bytes@),
{
    let m = op::Message::from_vec(bytes).ok()?;
    let answers = m.answers.iter().map(|r| Record {
        rtype: r.record_type().into(),
        ttl: r.ttl,
        data: r.data.to_string(),
        txt: match &r.data {
            rr::RData::TXT(t) => t.txt_data.iter().map(|s| s.to_vec()).collect(),
            _ => Vec::new()
        }
    }).collect();
    let options = m.edns.map(|e| e.options().options.iter().map(|o| o.0.into()).collect());
    let head = m.metadata;
    Some(Message { id: head.id, truncated: head.truncation, code: head.response_code.into(), options, answers })
}

/// How a response code is written.
pub uninterp spec fn code_text(code: u16) -> Seq<char>;

/// The `Display` form of `ResponseCode` of `hickory_proto`. The result depends
/// on the code alone.
#[verifier::external_body]
fn code_string(code: u16) -> (out: String)
    ensures
        out@ == code_text(code),
{
    Into::<op::ResponseCode>::into(code).to_string()
}

/// What becomes of a datagram that arrives while a reply is awaited.
#[derive(Debug, Clone)]
pub enum Arrival {
    /// Not a message, or not a reply to this request: keep listening.
    Stray,
    /// The reply.
    Reply(Message),
    /// The reply, cut short: the full one takes a stream.
    Truncated(Message),
}

/// Is `out` what becomes of a message that arrives while a reply to the
/// request `id` is awaited?
pub open spec fn arrives(message: Option<MessageView>, id: u16, out: Arrival) -> bool {
    match out {
        Arrival::Stray => message is None || message->0.id != id,
        Arrival::Reply(m) => message == Some(m@) && m.id == id && !m.truncated,
        Arrival::Truncated(m) => message == Some(m@) && m.id == id && m.truncated,
    }
}

/// What becomes of a message that arrives while a reply to the request `id`
/// is awaited. One with a different id is a stray or a forgery: it is passed
/// over rather than failing the query.
pub fn arrival(message: Option<Message>, id: u16) -> (out: Arrival)
    ensures
        arrives(message_view(message), id, out),
{
    match message {
        None => Arrival::Stray,
        Some(m) => {
            if m.id != id {
                Arrival::Stray
            } else if m.truncated {
                Arrival::Truncated(m)
            } else {
                Arrival::Reply(m)
            }
        },
    }
}

/// What becomes of a datagram that arrives while a reply to the request `id`
/// is awaited.
pub fn datagram_arrival(bytes: &[u8], id: u16) -> (out: Arrival)
    ensures
        arrives(decoded(bytes@), id, out),
{
    arrival(decode(bytes), id)
}

/// Is `out` the message, if it replies to the request `id`?
pub open spec fn replies(message: Option<MessageView>, id: u16, out: Option<Message>) -> bool {
    match out {
        Some(m) => message == Some(m@) && m.id == id,
        None => message is None || message->0.id != id,
    }
}

/// The message, if it replies to the request `id`.
pub fn matching_reply(message: Option<Message>, id: u16) -> (out: Option<Message>)
    ensures
        replies(message_view(message), id, out),
{
    match message {
        Some(m) => if m.id == id {
            Some(m)
        } else {
            None
        },
        None => None,
    }
}

/// The message that came over a stream, if it replies to the request `id`.
pub fn stream_reply(bytes: &[u8], id: u16) -> (out: Option<Message>)
    ensures
        replies(decoded(bytes@), id, out),
{
    matching_reply(decode(bytes), id)
}

/// The reply to use when the first one was cut short: the one that came over a
/// stream, or else the first one, which is better than nothing.
pub fn fuller_reply(truncated: Message, full: Option<Message>) -> (out: Message)
    ensures
        out == match full {
            Some(m) => m,
            None => truncated,
        },
{
    match full {
        Some(m) => m,
        None => truncated,
    }
}

/// Does the message carry the client subnet option?
pub open spec fn echoes_subnet(message: MessageView) -> bool {
    message.options matches Some(list) && list.contains(SUBNET_OPTION)
}

/// Is `out` what a reply to a request with a client subnet says? Beside the
/// result, whether the resolver used the subnet, which it shows by echoing it.
/// Only a real answer can.
pub open spec fn classified(
    response: MessageView,
    rtype: RecordType,
    out: (dns::ResultView, Option<bool>),
) -> bool {
    let honored = echoes_subnet(response);
    if response.code == 0 {
        records::collected(response.answers, rtype, out.0) && out.1 == Some(honored)
    } else if response.code == 3 {
        out == (dns::ResultView::NoRecords(code_text(3)), Some(honored))
    } else if response.code == 5 {
        out == (dns::ResultView::Error("refused"@), None::<bool>)
    } else if response.code == 2 {
        out == (dns::ResultView::ServFail, None::<bool>)
    } else {
        out == (dns::ResultView::Error(code_text(response.code)), None::<bool>)
    }
}

/// Does the list hold `n`?
fn lists(list: &Vec<u16>, n: u16) -> (out: bool)
    ensures
        out == list@.contains(n),
{
    let mut i: usize = 0;
    while i < list.len()
        invariant
            i <= list@.len(),
            forall|k: int| 0 <= k < i ==> list@[k] != n,
        decreases list@.len() - i,
    {
        if list[i] == n {
            assert(list@.contains(list@[i as int]));
            return true;
        }
        i += 1;
    }
    false
}

/// What a reply to a request with a client subnet says.
pub fn classify_ecs_response(response: &Message, rtype: RecordType) -> (out: (
    QueryResult,
    Option<bool>,
))
    ensures
        classified(response@, rtype, (out.0@, out.1)),
{
    let honored = match &response.options {
        Some(list) => lists(list, SUBNET_OPTION),
        None => false,
    };
    if response.code == 0 {
        (records::collect_answers(&response.answers, rtype), Some(honored))
    } else if response.code == 3 {
        (QueryResult::NoRecords(code_string(3)), Some(honored))
    } else if response.code == 5 {
        (QueryResult::Error("refused".to_owned()), None)
    } else if response.code == 2 {
        (QueryResult::ServFail, None)
    } else {
        (QueryResult::Error(code_string(response.code)), None)
    }
}

// ---------------------------------------------------------------- lookups

/// How a lookup through the resolver library ended.
#[derive(Debug, Clone)]
pub enum LookupOutcome {
    /// No answer in time.
    TimedOut,
    /// The server answered with an error code.
    Code(u16),
    /// The server answered that there is nothing, with this code.
    NoRecords(u16),
    /// Anything else that went wrong, in words.
    Failed(String),
    /// The records of the answer.
    Answers(Vec<Record>),
}

/// Is `result` what the end of a lookup stands for? A refusal is a policy about
/// us as a client and no statement about the record; SERVFAIL is one.
pub open spec fn looked_up(
    outcome: LookupOutcome,
    rtype: RecordType,
    result: dns::ResultView,
) -> bool {
    match outcome {
        LookupOutcome::TimedOut => result == dns::ResultView::Error("timeout"@),
        LookupOutcome::Code(code) => if code == 5 {
            result == dns::ResultView::Error("refused"@)
        } else if code == 2 {
            result == dns::ResultView::ServFail
        } else {
            result == dns::ResultView::Error(code_text(code))
        },
        LookupOutcome::NoRecords(code) => result == dns::ResultView::NoRecords(code_text(code)),
        LookupOutcome::Failed(message) => result == dns::ResultView::Error(
            dns::short_message(message@),
        ),
        LookupOutcome::Answers(list) => records::collected(
            records::records(list@),
            rtype,
            result,
        ),
    }
}

/// What the end of a lookup stands for.
pub fn classify_lookup(outcome: LookupOutcome, rtype: RecordType) -> (out: QueryResult)
    ensures
        looked_up(outcome, rtype, out@),
{
    match outcome {
        LookupOutcome::TimedOut => QueryResult::Error("timeout".to_owned()),
        LookupOutcome::Code(code) => if code == 5 {
            QueryResult::Error("refused".to_owned())
        } else if code == 2 {
            QueryResult::ServFail
        } else {
            QueryResult::Error(code_string(code))
        },
        LookupOutcome::NoRecords(code) => QueryResult::NoRecords(code_string(code)),
        LookupOutcome::Failed(message) => QueryResult::Error(dns::short_error(message)),
        LookupOutcome::Answers(list) => records::collect_answers(&list, rtype),
    }
}

/// A reply over the raw path and a lookup through the resolver library that
/// bring the same code or the same records stand for the same result.
pub proof fn both_paths_classify_alike(
    response: Message,
    rtype: RecordType,
    raw: (dns::ResultView, Option<bool>),
    looked: dns::ResultView,
)
    requires
        classified(response@, rtype, raw),
        looked_up(
            if response.code == 0 {
                LookupOutcome::Answers(response.answers)
            } else if response.code == 3 {
                LookupOutcome::NoRecords(response.code)
            } else {
                LookupOutcome::Code(response.code)
            },
            rtype,
            looked,
        ),
    ensures
        raw.0 == looked,
{
    if response.code == 0 {
        records::collected_once(response@.answers, rtype, raw.0, looked);
    }
}

// ---------------------------------------------------------------- text answers

/// The text that a row of bytes stands for, with a replacement for whatever is
/// not UTF-8.
pub uninterp spec fn lossy_text(bytes: Seq<u8>) -> Seq<char>;

/// `String::from_utf8_lossy`. The result depends on the bytes alone; of valid
/// UTF-8 it is the text that the bytes encode.
#[verifier::external_body]
fn lossy_string(bytes: &[u8]) -> (out: String)
    ensures
        out@ == lossy_text(bytes@),
        vstd::utf8::valid_utf8(bytes@) ==> out@ == vstd::utf8::decode_utf8(bytes@),
{
    String::from_utf8_lossy(bytes).into_owned()
}

/// The character strings of all records, one after the other.
pub open spec fn all_strings(answers: Seq<records::RecordView>) -> Seq<Seq<char>>
    decreases answers.len(),
{
    if answers.len() == 0 {
        Seq::empty()
    } else {
        all_strings(answers.drop_last()) + answers.last().txt.map_values(
            |s: Seq<u8>| lossy_text(s),
        )
    }
}

/// Is `out` the character strings of all records? There have to be some.
pub open spec fn strings_of(answers: Seq<records::RecordView>, out: Option<Vec<String>>) -> bool {
    match out {
        Some(list) => list@.len() > 0 && text::texts(list@) == all_strings(answers),
        None => all_strings(answers).len() == 0,
    }
}

/// The character strings of all TXT records, each by itself; joining them
/// would destroy their structure.
pub fn txt_answers(answers: &Vec<Record>) -> (out: Option<Vec<String>>)
    ensures
        strings_of(records::records(answers@), out),
{
    let ghost views = records::records(answers@);
    let mut out: Vec<String> = Vec::new();
    let mut i: usize = 0;
    assert(views.take(0) =~= Seq::<records::RecordView>::empty());
    assert(text::texts(out@) =~= Seq::<Seq<char>>::empty());
    while i < answers.len()
        invariant
            i <= answers@.len(),
            views == records::records(answers@),
            text::texts(out@) == all_strings(views.take(i as int)),
        decreases answers@.len() - i,
    {
        let txt = &answers[i].txt;
        let ghost before = text::texts(out@);
        let ghost strings = views[i as int].txt.map_values(|s: Seq<u8>| lossy_text(s));
        let mut j: usize = 0;
        assert(before + strings.take(0) =~= before);
        while j < txt.len()
            invariant
                j <= txt@.len(),
                strings.len() == txt@.len(),
                forall|k: int| 0 <= k < txt@.len() ==> strings[k] == lossy_text(#[trigger] txt@[k]@),
                text::texts(out@) == before + strings.take(j as int),
            decreases txt@.len() - j,
        {
            let ghost listed = out@;
            out.push(lossy_string(txt[j].as_slice()));
            assert(strings[j as int] == lossy_text(txt@[j as int]@));
            assert(text::texts(out@) =~= text::texts(listed).push(strings[j as int]));
            assert(text::texts(out@) =~= before + strings.take(j + 1));
            j += 1;
        }
        proof {
            assert(strings.take(j as int) =~= strings);
            assert(views.take(i + 1).drop_last() =~= views.take(i as int));
            assert(views.take(i + 1).last() == views[i as int]);
        }
        i += 1;
    }
    assert(views.take(i as int) =~= views);
    assert(text::texts(out@).len() == out@.len());
    if out.len() == 0 {
        None
    } else {
        Some(out)
    }
}

/// Is `out` the character strings of a message that answers the request `id`?
pub open spec fn answers_text(
    message: Option<MessageView>,
    id: u16,
    out: Option<Vec<String>>,
) -> bool {
    if message is Some && message->0.id == id {
        strings_of(message->0.answers, out)
    } else {
        out is None
    }
}

/// The character strings of a message that answers the request `id`.
pub fn text_answers(message: Option<Message>, id: u16) -> (out: Option<Vec<String>>)
    ensures
        answers_text(message_view(message), id, out),
{
    match message {
        Some(m) => if m.id == id {
            txt_answers(&m.answers)
        } else {
            None
        },
        None => None,
    }
}

/// The character strings of a datagram that answers the request `id`.
pub fn chaos_answers(bytes: &[u8], id: u16) -> (out: Option<Vec<String>>)
    ensures
        answers_text(decoded(bytes@), id, out),
{
    text_answers(decode(bytes), id)
}

// ---------------------------------------------------------------- requests

/// A request to send.
#[derive(Debug, Clone)]
pub struct Request {
    pub id: u16,
    pub bytes: Vec<u8>,
}

/// The bytes of a request with a client subnet; or nothing, for a name that is
/// none; or what went wrong, in words.
pub uninterp spec fn subnet_request_bytes(
    id: u16,
    recursion: bool,
    domain: Seq<char>,
    rtype: u16,
    payload: u16,
    subnet: ClientSubnet,
) -> Result<Seq<u8>, Option<Seq<char>>>;

/// The bytes of a plain request of some class; or nothing, for a name that is
/// none; or what went wrong, in words.
pub uninterp spec fn plain_request_bytes(
    id: u16,
    recursion: bool,
    name: Seq<char>,
    rtype: u16,
    class: u16,
) -> Result<Seq<u8>, Option<Seq<char>>>;

/// What an encoding holds.
pub open spec fn encoding_view(r: Result<Vec<u8>, Option<String>>) -> Result<
    Seq<u8>,
    Option<Seq<char>>,
> {
    match r {
        Ok(bytes) => Ok(bytes@),
        Err(Some(message)) => Err(Some(message@)),
        Err(None) => Err(None),
    }
}

/// `Message::to_vec` of `hickory_proto`, on a query with this id, this
/// recursion flag, one question for the name that `Name::from_str_relaxed`
/// reads, and an EDNS record with this payload size and this client subnet.
/// The result depends on these alone. A name that cannot be read gives no
/// message of what went wrong; an encoding that fails does.
#[verifier::external_body]
fn encode_subnet_request(id: u16, recursion: bool, domain: &str, rtype: u16, payload: u16, subnet: ClientSubnet) -> (out: Result<Vec<u8>, Option<String>>)
    ensures
        encoding_view(out) == subnet_request_bytes(id, recursion, domain@, rtype, payload, subnet),
{
    let name = rr::Name::from_str_relaxed(domain).map_err(|_| None)?;
    let mut m = op::Message::query();
    m.metadata.id = id;
    m.metadata.recursion_desired = recursion;
    m.add_query(op::Query::query(name, rtype.into()));
    let addr = match subnet.addr {
        IpAddr::V4(n) => A(n.into()).0.into(),
        IpAddr::V6(n) => AAAA(n.into()).0.into(),
    };
    let option = opt::ClientSubnet::new(addr, subnet.source_prefix, subnet.scope_prefix);
    m.edns.insert(op::Edns::new()).set_max_payload(payload).options_mut().insert(opt::EdnsOption::Subnet(option));
    m.to_vec().map_err(|e| Some(e.to_string()))
}

/// `Message::to_vec` of `hickory_proto`, on a query with this id, this
/// recursion flag, and one question of this class for the name that
/// `Name::from_str` reads. The result depends on these alone. A name that
/// cannot be read gives no message of what went wrong; an encoding that fails
/// does.
#[verifier::external_body]
fn encode_plain_request(id: u16, recursion: bool, name: &str, rtype: u16, class: u16) -> (out: Result<Vec<u8>, Option<String>>)
    ensures
        encoding_view(out) == plain_request_bytes(id, recursion, name@, rtype, class),
{
    let name = name.parse().map_err(|_| None)?;
    let mut query = op::Query::query(name, rtype.into());
    query.set_query_class(class.into());
    let mut m = op::Message::query();
    m.metadata.id = id;
    m.metadata.recursion_desired = recursion;
    m.add_query(query);
    m.to_vec().map_err(|e| Some(e.to_string()))
}

/// `Message::query` of `hickory_proto`, for the random id that it draws.
/// Nothing is promised of the id.
#[verifier::external_body]
fn fresh_id() -> (out: u16) {
    op::Message::query().metadata.id
}

/// Is `out` what an encoded request with a client subnet comes to?
pub open spec fn requested(
    encoding: Result<Seq<u8>, Option<Seq<char>>>,
    out: Result<Vec<u8>, QueryResult>,
) -> bool {
    match encoding {
        Ok(bytes) => out matches Ok(b) && b@ == bytes,
        Err(None) => out matches Err(e) && e@ == dns::ResultView::Error("invalid name"@),
        Err(Some(message)) => out matches Err(e) && e@ == dns::ResultView::Error(
            dns::short_message(message),
        ),
    }
}

/// What an encoded request with a client subnet comes to: the bytes, or the
/// result to report in place of an answer.
pub fn request_or_error(encoding: Result<Vec<u8>, Option<String>>) -> (out: Result<
    Vec<u8>,
    QueryResult,
>)
    ensures
        requested(encoding_view(encoding), out),
{
    match encoding {
        Ok(bytes) => Ok(bytes),
        Err(None) => Err(QueryResult::Error("invalid name".to_owned())),
        Err(Some(message)) => Err(QueryResult::Error(dns::short_error(message))),
    }
}

/// The bytes of a recursive request with a client subnet.
pub fn ecs_message_with_id(
    id: u16,
    domain: &str,
    rtype: RecordType,
    subnet: ClientSubnet,
) -> (out: Result<Vec<u8>, QueryResult>)
    ensures
        requested(
            subnet_request_bytes(id, true, domain@, rtype.number(), EDNS_PAYLOAD, subnet),
            out,
        ),
{
    request_or_error(
        encode_subnet_request(id, true, domain, rtype.code(), EDNS_PAYLOAD, subnet),
    )
}

/// A recursive request with a client subnet, under a fresh id.
pub fn ecs_message(domain: &str, rtype: RecordType, subnet: ClientSubnet) -> (out: Result<
    Request,
    QueryResult,
>)
    ensures
        match out {
            Ok(request) => subnet_request_bytes(
                request.id,
                true,
                domain@,
                rtype.number(),
                EDNS_PAYLOAD,
                subnet,
            ) == Ok::<Seq<u8>, Option<Seq<char>>>(request.bytes@),
            Err(e) => exists|id: u16|
                requested(
                    #[trigger] subnet_request_bytes(
                        id,
                        true,
                        domain@,
                        rtype.number(),
                        EDNS_PAYLOAD,
                        subnet,
                    ),
                    Err(e),
                ),
        },
{
    let id = fresh_id();
    match ecs_message_with_id(id, domain, rtype, subnet) {
        Ok(bytes) => Ok(Request { id, bytes }),
        Err(e) => Err(e),
    }
}

/// The bytes of a request for TXT records of the CHAOS class, without recursion.
pub fn chaos_message_with_id(id: u16, name: &str) -> (out: Option<Vec<u8>>)
    ensures
        match out {
            Some(bytes) => plain_request_bytes(
                id,
                false,
                name@,
                RecordType::TXT.number(),
                CHAOS_CLASS,
            ) == Ok::<Seq<u8>, Option<Seq<char>>>(bytes@),
            None => plain_request_bytes(
                id,
                false,
                name@,
                RecordType::TXT.number(),
                CHAOS_CLASS,
            ) is Err,
        },
{
    match encode_plain_request(id, false, name, RecordType::TXT.code(), CHAOS_CLASS) {
        Ok(bytes) => Some(bytes),
        Err(_) => None,
    }
}

/// A request for TXT records of the CHAOS class, under a fresh id.
pub fn chaos_message(name: &str) -> (out: Option<Request>)
    ensures
        match out {
            Some(request) => plain_request_bytes(
                request.id,
                false,
                name@,
                RecordType::TXT.number(),
                CHAOS_CLASS,
            ) == Ok::<Seq<u8>, Option<Seq<char>>>(request.bytes@),
            None => exists|id: u16|
                (#[trigger] plain_request_bytes(
                    id,
                    false,
                    name@,
                    RecordType::TXT.number(),
                    CHAOS_CLASS,
                )) is Err,
        },
{
    let id = fresh_id();
    match chaos_message_with_id(id, name) {
        Some(bytes) => Some(Request { id, bytes }),
        None => None,
    }
}

// ---------------------------------------------------------------- waiting

/// How long a reply may take, in seconds.
pub const QUERY_TIMEOUT: u64 = 3;

/// How long is left to wait for a reply; nothing once the deadline has passed.
pub fn time_left(deadline: Instant, now: Instant) -> (out: Option<Duration>)
    ensures
        match out {
            Some(left) => now.nanos <= deadline.nanos && left.nanos == deadline.nanos - now.nanos,
            None => now.nanos > deadline.nanos,
        },
{
    if now.nanos > deadline.nanos {
        None
    } else {
        Some(deadline.saturating_duration_since(now))
    }
}

// ---------------------------------------------------------------- streams

/// A request as it goes over a stream: its length in two bytes, then itself.
pub open spec fn framed(request: Seq<u8>) -> Seq<u8> {
    seq![(request.len() / 256) as u8, (request.len() % 256) as u8] + request
}

/// A request as it goes over a stream; none that is too long for one.
pub fn frame(request: &Vec<u8>) -> (out: Option<Vec<u8>>)
    ensures
        out is Some <==> request@.len() <= u16::MAX,
        out is Some ==> out->0@ == framed(request@),
{
    let len = request.len();
    if len > 0xffff {
        return None;
    }
    let mut out: Vec<u8> = Vec::new();
    out.push((len / 256) as u8);
    out.push((len % 256) as u8);
    let mut i: usize = 0;
    while i < len
        invariant
            i <= len == request@.len() <= 0xffff,
            out@ == seq![(len / 256) as u8, (len % 256) as u8] + request@.take(i as int),
        decreases len - i,
    {
        out.push(request[i]);
        assert(out@ =~= seq![(len / 256) as u8, (len % 256) as u8] + request@.take(i + 1));
        i += 1;
    }
    assert(request@.take(i as int) =~= request@);
    Some(out)
}

/// The length that the two bytes in front of a message give.
pub fn frame_length(high: u8, low: u8) -> (out: usize)
    ensures
        out == high * 256 + low,
{
    high as usize * 256 + low as usize
}

/// What goes into a frame comes out of it: the two bytes in front give the
/// length of the rest, and the rest is the request.
pub proof fn frame_round_trip(request: Seq<u8>)
    requires
        request.len() <= u16::MAX,
    ensures
        framed(request)[0] * 256 + framed(request)[1] == request.len(),
        framed(request).skip(2) == request,
{
    assert(framed(request).skip(2) =~= request);
}

// ---------------------------------------------------------------- laws

/// The numbers on the wire: the client subnet option, the CHAOS class, and the
/// payload size that is advertised.
pub proof fn numbers_are_those_of_the_registry()
    ensures
        SUBNET_OPTION == 8,
        CHAOS_CLASS == 3,
        EDNS_PAYLOAD == 1232,
{
}

/// Does the message carry an EDNS option with this number?
pub open spec fn carries_option(message: Message, number: u16) -> bool {
    message.options is Some && exists|i: int|
        0 <= i < message.options->0@.len() && #[trigger] message.options->0@[i] == number
}

/// A reply without error comes to its records, NXDOMAIN to none, REFUSED and any
/// other code to an error and SERVFAIL to itself. Whether the subnet was used is
/// said of the first two alone, and is whether the option came back.
pub proof fn replies_are_classified_by_their_code(
    response: Message,
    rtype: RecordType,
    result: QueryResult,
    honored: Option<bool>,
)
    requires
        classified(response@, rtype, (result@, honored)),
    ensures
        response.code == 0 ==> records::collected(
            records::records(response.answers@),
            rtype,
            result@,
        ) && (result is Records || result is NoRecords),
        response.code == 3 ==> result is NoRecords && result->NoRecords_0@ == code_text(3),
        response.code == 2 ==> result is ServFail,
        response.code == 5 ==> result is Error && result->Error_0@ == "refused"@,
        response.code != 0 && response.code != 2 && response.code != 3 && response.code != 5
            ==> result is Error && result->Error_0@ == code_text(response.code),
        response.code == 0 || response.code == 3 ==> honored == Some(carries_option(response, 8)),
        response.code != 0 && response.code != 3 ==> honored is None,
{
    if let Some(list) = response.options {
        if list@.contains(8) {
            let i = choose|i: int| 0 <= i < list@.len() && list@[i] == 8;
            assert(response.options->0@[i] == 8);
        }
        if carries_option(response, 8) {
            let i = choose|i: int|
                0 <= i < response.options->0@.len() && #[trigger] response.options->0@[i] == 8;
            assert(list@[i] == 8);
        }
    }
}

/// A lookup that found records comes to them, one that found nothing to none of
/// whatever code, SERVFAIL to itself, and everything else to an error.
pub proof fn lookups_are_classified_by_their_end(
    outcome: LookupOutcome,
    rtype: RecordType,
    result: QueryResult,
)
    requires
        looked_up(outcome, rtype, result@),
    ensures
        outcome is TimedOut ==> result is Error && result->Error_0@ == "timeout"@,
        outcome matches LookupOutcome::Code(code) ==> {
            &&& code == 2 ==> result is ServFail
            &&& code == 5 ==> result is Error && result->Error_0@ == "refused"@
            &&& code != 2 && code != 5 ==> result is Error && result->Error_0@ == code_text(code)
        },
        outcome matches LookupOutcome::NoRecords(code) ==> result is NoRecords
            && result->NoRecords_0@ == code_text(code),
        outcome matches LookupOutcome::Failed(message) ==> result is Error && result->Error_0@
            == dns::short_message(message@),
        outcome matches LookupOutcome::Answers(list) ==> records::collected(
            records::records(list@),
            rtype,
            result@,
        ) && (result is Records || result is NoRecords),
{
}

/// What a message says is what it holds.
pub proof fn messages_say_what_they_hold(m: Message)
    ensures
        m@.id == m.id,
        m@.truncated == m.truncated,
        m@.code == m.code,
        m@.options is Some <==> m.options is Some,
        m.options is Some ==> m@.options->0 == m.options->0@,
        m@.answers.len() == m.answers@.len(),
        forall|i: int|
            0 <= i < m.answers@.len() ==> {
                &&& (#[trigger] m@.answers[i]).ttl == m.answers@[i].ttl
                &&& m@.answers[i].rtype == m.answers@[i].rtype
                &&& m@.answers[i].data == m.answers@[i].data@
                &&& m@.answers[i].txt.len() == m.answers@[i].txt@.len()
            },
{
}

/// What arrives is passed over exactly when it is no message or has another id;
/// a message with the id is kept as it is, and its flag says whether it was cut
/// short. The same messages are taken from a stream.
pub proof fn only_replies_with_the_id_are_taken(
    message: Option<MessageView>,
    id: u16,
    arrived: Arrival,
    taken: Option<Message>,
)
    requires
        arrives(message, id, arrived),
        replies(message, id, taken),
    ensures
        message is None ==> arrived is Stray && taken is None,
        message is Some && message->0.id != id ==> arrived is Stray && taken is None,
        message is Some && message->0.id == id ==> taken is Some && taken->0@ == message->0,
        message is Some && message->0.id == id && message->0.truncated ==> arrived is Truncated
            && arrived->Truncated_0@ == message->0,
        message is Some && message->0.id == id && !message->0.truncated ==> arrived is Reply
            && arrived->Reply_0@ == message->0,
{
}

/// The strings of two sections are those of the one, then those of the other.
pub proof fn strings_are_listed_section_by_section(
    a: Seq<records::RecordView>,
    b: Seq<records::RecordView>,
)
    ensures
        all_strings(a + b) == all_strings(a) + all_strings(b),
        all_strings(Seq::empty()).len() == 0,
    decreases b.len(),
{
    if b.len() == 0 {
        assert(a + b =~= a);
        assert(all_strings(a) + all_strings(b) =~= all_strings(a));
    } else {
        strings_are_listed_section_by_section(a, b.drop_last());
        assert((a + b).drop_last() =~= a + b.drop_last());
        assert((a + b).last() == b.last());
        assert(all_strings(a + b) =~= all_strings(a) + all_strings(b));
    }
}

/// The strings of one record are its character strings, each by itself.
pub proof fn strings_of_a_record_stay_apart(record: records::RecordView)
    ensures
        all_strings(seq![record]).len() == record.txt.len(),
        forall|i: int|
            0 <= i < record.txt.len() ==> #[trigger] all_strings(seq![record])[i] == lossy_text(
                record.txt[i],
            ),
{
    reveal_with_fuel(all_strings, 2);
    let one = seq![record];
    assert(one.drop_last() =~= Seq::empty());
    assert(one.last() == record);
    assert(all_strings(one) =~= record.txt.map_values(|s: Seq<u8>| lossy_text(s)));
}

/// Strings are handed on exactly when there are any, and from a message only
/// when it has the id.
pub proof fn strings_come_from_replies_with_the_id(
    message: Option<MessageView>,
    id: u16,
    out: Option<Vec<String>>,
)
    requires
        answers_text(message, id, out),
    ensures
        out is Some <==> message is Some && message->0.id == id && all_strings(
            message->0.answers,
        ).len() > 0,
        out is Some ==> text::texts(out->0@) == all_strings(message->0.answers),
{
    if let Some(list) = out {
        assert(text::texts(list@).len() == list@.len());
    }
}

/// A request that could be encoded is sent as encoded; a name that is none and
/// any other failure are reported as errors.
pub proof fn requests_are_sent_or_reported(
    encoding: Result<Seq<u8>, Option<Seq<char>>>,
    out: Result<Vec<u8>, QueryResult>,
)
    requires
        requested(encoding, out),
    ensures
        out is Ok <==> encoding is Ok,
        out is Ok ==> out->Ok_0@ == encoding->Ok_0,
        out is Err ==> out->Err_0 is Error,
        encoding == Err::<Seq<u8>, Option<Seq<char>>>(None) ==> out->Err_0->Error_0@
            == "invalid name"@,
        encoding is Err && encoding->Err_0 is Some ==> out->Err_0->Error_0@ == dns::short_message(
            encoding->Err_0->0,
        ),
{
}

/// Strings are handed on exactly when there are any, all of them in order.
pub proof fn strings_are_handed_on_if_there_are_any(
    answers: Seq<records::RecordView>,
    out: Option<Vec<String>>,
)
    requires
        strings_of(answers, out),
    ensures
        out is Some <==> all_strings(answers).len() > 0,
        out is Some ==> out->0@.len() == all_strings(answers).len(),
        out is Some ==> forall|i: int|
            0 <= i < out->0@.len() ==> (#[trigger] out->0@[i])@ == all_strings(answers)[i],
{
    if let Some(list) = out {
        assert(text::texts(list@).len() == list@.len());
        assert forall|i: int| 0 <= i < list@.len() implies (#[trigger] list@[i])@ == all_strings(
            answers,
        )[i] by {
            assert(text::texts(list@)[i] == list@[i]@);
        }
    }
}

/// What an encoding says is what it holds.
pub proof fn encodings_say_what_they_hold(r: Result<Vec<u8>, Option<String>>)
    ensures
        r is Ok <==> encoding_view(r) is Ok,
        r is Ok ==> encoding_view(r)->Ok_0 == r->Ok_0@,
        r is Err && r->Err_0 is None ==> encoding_view(r)->Err_0 is None,
        r is Err && r->Err_0 is Some ==> encoding_view(r)->Err_0 == Some(r->Err_0->0@),
{
}

/// A reply may take three seconds.
pub proof fn replies_may_take_three_seconds()
    ensures
        QUERY_TIMEOUT == 3,
{
}

/// What may be a message says what it holds, if it is one.
pub proof fn what_is_no_message_says_nothing(message: Option<Message>)
    ensures
        message is None <==> message_view(message) is None,
        message is Some ==> message_view(message) == Some(message->0@),
{
}

/// A record of a message has the character strings that it holds.
pub proof fn records_keep_their_strings(m: Message, i: int, j: int)
    requires
        0 <= i < m.answers@.len(),
        0 <= j < m.answers@[i].txt@.len(),
    ensures
        m@.answers[i].txt[j] == m.answers@[i].txt@[j]@,
{
}

} // verus!

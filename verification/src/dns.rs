//! What a resolver answers, and how answers are classified.
use vstd::prelude::*;

use crate::address;
use crate::address::IpAddr;
use crate::clock::Duration;
use crate::input;
use crate::scan;
use crate::text;

verus! {

/// What one resolver had to say about a record.
#[derive(Debug, Clone)]
pub enum QueryResult {
    /// Record values, as text, and the smallest TTL among them.
    Records { values: Vec<String>, min_ttl: u32 },
    /// The server answered that the record does not exist. This is a real
    /// propagation signal: the server's view is "nothing there".
    NoRecords(String),
    /// SERVFAIL: the resolver tried to resolve the name and could not. A
    /// statement about the domain, so it counts as a response.
    ServFail,
    /// No usable answer: timeout, network error, or a refusal to serve us.
    /// Says nothing about propagation.
    Error(String),
}

/// What a result says.
#[verifier::ext_equal]
pub enum ResultView {
    Records { values: Seq<Seq<char>>, min_ttl: u32 },
    NoRecords(Seq<char>),
    ServFail,
    Error(Seq<char>),
}

impl View for QueryResult {
    type V = ResultView;

    open spec fn view(&self) -> ResultView {
        match self {
            QueryResult::Records { values, min_ttl } => ResultView::Records {
                values: text::texts(values@),
                min_ttl: *min_ttl,
            },
            QueryResult::NoRecords(reason) => ResultView::NoRecords(reason@),
            QueryResult::ServFail => ResultView::ServFail,
            QueryResult::Error(reason) => ResultView::Error(reason@),
        }
    }
}

/// The result of one query, addressed to the row that asked for it.
#[derive(Debug)]
pub struct QueryOutcome {
    pub resolver_index: usize,
    pub generation: u64,
    pub result: QueryResult,
    pub elapsed: Duration,
    /// Set only when the query carried a client subnet and the resolver gave
    /// a real answer: did the response echo the subnet?
    pub ecs_honored: Option<bool>,
}

// ---------------------------------------------------------------- errors

/// The room that a message of some other library gets, in bytes.
pub const ERROR_ROOM: usize = 48;

/// What is shown of an error message: a word for the two common causes, else
/// the beginning of the message.
pub open spec fn short_message(message: Seq<char>) -> Seq<char> {
    let lower = message.map_values(|c: char| text::lower_char(c));
    if scan::occurs(lower, "timed out"@) || scan::occurs(lower, "timeout"@) {
        "timeout"@
    } else if scan::occurs(lower, "refused"@) {
        "refused"@
    } else {
        text::fitting(message, ERROR_ROOM as nat)
    }
}

/// What is shown of an error message.
pub fn short_error(message: String) -> (out: String)
    ensures
        out@ == short_message(message@),
{
    let lower = text::lowercase(message.as_str());
    if scan::contains(&lower, "timed out") || scan::contains(&lower, "timeout") {
        return "timeout".to_owned();
    }
    if scan::contains(&lower, "refused") {
        return "refused".to_owned();
    }
    text::fitting_string(message.as_str(), ERROR_ROOM)
}

/// What is shown of an error message is never longer than the room for it, and
/// is the beginning of the message, cut between characters, unless it is one of
/// the two words. It is cut only where the next character would not fit.
pub proof fn short_messages_fit(message: Seq<char>)
    ensures
        input::byte_len(short_message(message)) <= ERROR_ROOM,
        ({
            let shown = short_message(message);
            ||| shown == "timeout"@
            ||| shown == "refused"@
            ||| {
                &&& shown.len() <= message.len()
                &&& shown == message.take(shown.len() as int)
                &&& shown.len() < message.len() ==> input::byte_len(
                    message.take(shown.len() as int + 1),
                ) > ERROR_ROOM
            }
        }),
{
    reveal_strlit("timeout");
    reveal_strlit("refused");
    fitting_fits(message, ERROR_ROOM as nat);
    fits_seven("timeout"@);
    fits_seven("refused"@);
}

/// Seven characters of one byte each take seven bytes.
proof fn fits_seven(s: Seq<char>)
    requires
        s.len() == 7,
        forall|i: int| 0 <= i < 7 ==> #[trigger] s[i] <= '\u{7f}',
    ensures
        input::byte_len(s) == 7,
{
    reveal_with_fuel(input::byte_len, 8);
    let (a, b, c) = (s.skip(1), s.skip(1).skip(1), s.skip(1).skip(1).skip(1));
    let (d, e, f) = (c.skip(1), c.skip(1).skip(1), c.skip(1).skip(1).skip(1));
    assert(a[0] == s[1] && b[0] == s[2] && c[0] == s[3] && d[0] == s[4] && e[0] == s[5] && f[0]
        == s[6]);
    assert(f.skip(1).len() == 0);
}

/// The longest beginning that fits fits, and nothing longer does.
proof fn fitting_fits(s: Seq<char>, room: nat)
    ensures
        input::byte_len(text::fitting(s, room)) <= room,
        text::fitting(s, room).len() <= s.len(),
        text::fitting(s, room) == s.take(text::fitting(s, room).len() as int),
        text::fitting(s, room).len() < s.len() ==> input::byte_len(
            s.take(text::fitting(s, room).len() as int + 1),
        ) > room,
    decreases s.len(),
{
    let shown = text::fitting(s, room);
    if s.len() == 0 || text::char_width(s[0]) > room {
        assert(shown =~= s.take(0));
        if s.len() > 0 {
            assert(s.take(1).skip(1).len() == 0);
            assert(input::byte_len(s.take(1)) == text::char_width(s[0]) + input::byte_len(
                s.take(1).skip(1),
            ));
        }
    } else {
        let left = (room - text::char_width(s[0])) as nat;
        let rest = text::fitting(s.skip(1), left);
        fitting_fits(s.skip(1), left);
        assert(shown.skip(1) =~= rest);
        assert(shown =~= s.take(shown.len() as int));
        if shown.len() < s.len() {
            assert(s.take(shown.len() as int + 1).skip(1) =~= s.skip(1).take(rest.len() as int + 1));
        }
    }
}

// ---------------------------------------------------------------- client subnets

/// A client subnet, as the EDNS option of that name carries it.
#[derive(Clone, Copy, PartialEq, Eq, Structural, Debug)]
pub struct ClientSubnet {
    pub addr: IpAddr,
    pub source_prefix: u8,
    pub scope_prefix: u8,
}

/// The subnet that an address and a prefix length stand for; without a length
/// the address alone. Says what is wrong with a length that the address does
/// not have.
pub open spec fn subnet_at(addr: IpAddr, prefix: Option<u8>) -> Result<ClientSubnet, Seq<char>> {
    let max = address::width(addr);
    let len = match prefix {
        Some(len) => len,
        None => max,
    };
    if len > max {
        Err(
            "prefix /"@ + text::decimal(len as nat) + " too long for "@ + address::ip_text(addr)
                + " (max /"@ + text::decimal(max as nat) + ")"@,
        )
    } else {
        Ok(
            ClientSubnet {
                addr: address::network(addr, len),
                source_prefix: len,
                scope_prefix: 0,
            },
        )
    }
}

/// The subnet that a text stands for: an address, alone or with a slash and a
/// prefix length behind it. Says what is wrong with any other text.
pub open spec fn ecs_of(s: Seq<char>) -> Result<ClientSubnet, Seq<char>> {
    match scan::split_once(s, '/') {
        Some((addr, prefix)) => match scan::byte_of(prefix) {
            Some(len) => match address::ip_of(addr) {
                Some(ip) => subnet_at(ip, Some(len)),
                None => Err("invalid IP address "@ + text::quoted_text(addr)),
            },
            None => Err("invalid prefix length "@ + text::quoted_text(prefix)),
        },
        None => match address::ip_of(s) {
            Some(ip) => subnet_at(ip, None),
            None => Err("invalid IP address "@ + text::quoted_text(s)),
        },
    }
}

/// A subnet in the form that a text gives it: only zeros behind the prefix,
/// and no scope.
pub open spec fn is_plain(subnet: ClientSubnet) -> bool {
    &&& subnet.source_prefix <= address::width(subnet.addr)
    &&& address::network(subnet.addr, subnet.source_prefix) == subnet.addr
    &&& subnet.scope_prefix == 0
}

/// A subnet as text.
pub open spec fn ecs_text(subnet: ClientSubnet) -> Seq<char> {
    address::ip_text(subnet.addr) + "/"@ + text::decimal(subnet.source_prefix as nat)
}

impl ClientSubnet {
    pub fn addr(&self) -> (out: IpAddr)
        ensures
            out == self.addr,
    {
        self.addr
    }

    pub fn source_prefix(&self) -> (out: u8)
        ensures
            out == self.source_prefix,
    {
        self.source_prefix
    }

    pub fn scope_prefix(&self) -> (out: u8)
        ensures
            out == self.scope_prefix,
    {
        self.scope_prefix
    }

    /// The subnet that an address and a prefix length stand for. Bits behind
    /// the prefix are cleared, as the option requires.
    pub fn at(addr: IpAddr, prefix: Option<u8>) -> (out: Result<ClientSubnet, String>)
        ensures
            out matches Ok(subnet) ==> subnet_at(addr, prefix) == Ok::<ClientSubnet, Seq<char>>(
                subnet,
            ),
            out matches Err(message) ==> subnet_at(addr, prefix) == Err::<ClientSubnet, Seq<char>>(
                message@,
            ),
    {
        let max = address::width_of(addr);
        let len = match prefix {
            Some(len) => len,
            None => max,
        };
        if len > max {
            return Err(
                "prefix /".to_owned().concat(text::decimal_string(len as u64).as_str()).concat(
                    " too long for ",
                ).concat(address::ip_string(addr).as_str()).concat(" (max /").concat(
                    text::decimal_string(max as u64).as_str(),
                ).concat(")"),
            );
        }
        Ok(
            ClientSubnet {
                addr: address::network_of(addr, len),
                source_prefix: len,
                scope_prefix: 0,
            },
        )
    }
}

/// Reads a client subnet: `203.0.113.0/24`, `2001:db8::/56`, or a bare address.
pub fn parse_ecs(s: &str) -> (out: Result<ClientSubnet, String>)
    ensures
        out matches Ok(subnet) ==> ecs_of(s@) == Ok::<ClientSubnet, Seq<char>>(subnet),
        out matches Err(message) ==> ecs_of(s@) == Err::<ClientSubnet, Seq<char>>(message@),
{
    let (addr, prefix) = match scan::halves(s, '/') {
        Some((addr, prefix)) => match scan::parse_byte(prefix.as_str()) {
            Some(len) => (addr, Some(len)),
            None => {
                return Err(
                    "invalid prefix length ".to_owned().concat(
                        text::quoted(prefix.as_str()).as_str(),
                    ),
                );
            },
        },
        None => (s.to_owned(), None),
    };
    match address::parse_ip(addr.as_str()) {
        Some(ip) => ClientSubnet::at(ip, prefix),
        None => Err(
            "invalid IP address ".to_owned().concat(text::quoted(addr.as_str()).as_str()),
        ),
    }
}

/// A subnet as text.
pub fn fmt_ecs(subnet: &ClientSubnet) -> (out: String)
    ensures
        out@ == ecs_text(*subnet),
        is_plain(*subnet) ==> ecs_of(out@) == Ok::<ClientSubnet, Seq<char>>(*subnet),
{
    let addr = address::ip_string(subnet.addr);
    let prefix = text::decimal_string(subnet.source_prefix as u64);
    let out = addr.clone().concat("/").concat(prefix.as_str());
    proof {
        reveal_strlit("/");
        let k = addr@.len() as int;
        assert forall|i: int| 0 <= i < k implies !scan::Class::Only('/').holds(#[trigger] out@[i]) by {
            assert(addr@[i] == out@[i]);
            assert(addr@.contains(addr@[i]));
        }
        assert(out@[k] == '/');
        scan::first_of_is(out@, scan::Class::Only('/'), k);
        assert(out@.take(k) =~= addr@);
        assert(out@.skip(k + 1) =~= prefix@);
        scan::byte_of_decimal(subnet.source_prefix);
    }
    out
}

/// What reading a subnet gives is in plain form: no host bits, no scope.
pub proof fn parsed_subnets_are_plain(s: Seq<char>)
    requires
        ecs_of(s) is Ok,
    ensures
        is_plain(ecs_of(s)->Ok_0),
{
    let (addr, prefix) = match scan::split_once(s, '/') {
        Some((addr, prefix)) => (address::ip_of(addr)->0, scan::byte_of(prefix)->0),
        None => (address::ip_of(s)->0, address::width(address::ip_of(s)->0)),
    };
    address::network_idempotent(addr, prefix);
}

// ---------------------------------------------------------------- laws

/// Does `word` stand in `message` at `i`, in upper or lower case?
pub open spec fn mentioned_at(message: Seq<char>, word: Seq<char>, i: int) -> bool {
    &&& 0 <= i <= message.len() - word.len()
    &&& forall|k: int| 0 <= k < word.len() ==> text::lower_char(message[i + k]) == #[trigger] word[k]
}

/// Does `word` stand anywhere in `message`, in upper or lower case?
pub open spec fn mentions(message: Seq<char>, word: Seq<char>) -> bool {
    exists|i: int| mentioned_at(message, word, i)
}

/// A word occurs in the lower-case message exactly when the message mentions it.
pub proof fn mentions_occurs(message: Seq<char>, word: Seq<char>)
    ensures
        scan::occurs(message.map_values(|c: char| text::lower_char(c)), word) <==> mentions(
            message,
            word,
        ),
{
    let lower = message.map_values(|c: char| text::lower_char(c));
    if scan::occurs(lower, word) {
        let i = scan::occurring_parts_are_there(lower, word);
        assert(mentioned_at(message, word, i)) by {
            assert forall|k: int| 0 <= k < word.len() implies text::lower_char(message[i + k])
                == #[trigger] word[k] by {
                assert(lower[i + k] == word[k]);
            }
        }
    }
    if mentions(message, word) {
        let i = choose|i: int| mentioned_at(message, word, i);
        assert(lower.subrange(i, i + word.len()) =~= word) by {
            assert forall|k: int| 0 <= k < word.len() implies lower.subrange(i, i + word.len())[k]
                == #[trigger] word[k] by {
                assert(text::lower_char(message[i + k]) == word[k]);
            }
        }
        assert(scan::stands_at(lower, word, i));
    }
}

/// A message that mentions a timeout is shown as one, another that mentions a
/// refusal as that, and of any other as much is shown as is encoded in 48 bytes,
/// cut between characters.
pub proof fn errors_are_shown_by_what_they_mention(message: Seq<char>)
    ensures
        ({
            let shown = short_message(message);
            if mentions(message, "timed out"@) || mentions(message, "timeout"@) {
                shown == "timeout"@
            } else if mentions(message, "refused"@) {
                shown == "refused"@
            } else {
                &&& shown.len() <= message.len()
                &&& shown == message.take(shown.len() as int)
                &&& vstd::utf8::encode_utf8(shown).len() <= 48
                &&& shown.len() < message.len() ==> vstd::utf8::encode_utf8(
                    message.take(shown.len() as int + 1),
                ).len() > 48
            }
        }),
{
    mentions_occurs(message, "timed out"@);
    mentions_occurs(message, "timeout"@);
    mentions_occurs(message, "refused"@);
    fitting_fits(message, 48);
    let shown = text::fitting(message, 48);
    input::bytes_len(shown);
    if shown.len() < message.len() {
        input::bytes_len(message.take(shown.len() as int + 1));
    }
}

/// An address and a prefix length with a slash between them are a subnet of
/// that length, with no scope and no bits behind the prefix, unless the length
/// is more than the 32 or 128 bits of the family; an address alone is a subnet
/// of full length.
pub proof fn subnets_are_read_with_their_length(
    addr: Seq<char>,
    ip: IpAddr,
    digits: Seq<char>,
    len: u8,
)
    requires
        !addr.contains('/'),
        address::ip_of(addr) == Some(ip),
        scan::byte_of(digits) == Some(len),
    ensures
        ({
            let max: u8 = if ip is V4 {
                32
            } else {
                128
            };
            let read = ecs_of(addr + seq!['/'] + digits);
            let bare = ecs_of(addr);
            &&& len <= max ==> read == Ok::<ClientSubnet, Seq<char>>(
                ClientSubnet {
                    addr: address::network(ip, len),
                    source_prefix: len,
                    scope_prefix: 0,
                },
            )
            &&& len > max ==> read == Err::<ClientSubnet, Seq<char>>(
                "prefix /"@ + text::decimal(len as nat) + " too long for "@ + address::ip_text(ip)
                    + " (max /"@ + text::decimal(max as nat) + ")"@,
            )
            &&& bare == Ok::<ClientSubnet, Seq<char>>(
                ClientSubnet { addr: ip, source_prefix: max, scope_prefix: 0 },
            )
        }),
{
    scan::splitting_once_finds_the_first(addr, '/', digits);
    address::network_of_full_prefix(ip);
}

/// What is no subnet is refused, with what is wrong quoted: the length first,
/// then the address.
pub proof fn other_texts_are_no_subnets(addr: Seq<char>, digits: Seq<char>)
    requires
        !addr.contains('/'),
    ensures
        scan::byte_of(digits) is None ==> ecs_of(addr + seq!['/'] + digits) == Err::<
            ClientSubnet,
            Seq<char>,
        >("invalid prefix length "@ + text::quoted_text(digits)),
        scan::byte_of(digits) is Some && address::ip_of(addr) is None ==> ecs_of(
            addr + seq!['/'] + digits,
        ) == Err::<ClientSubnet, Seq<char>>("invalid IP address "@ + text::quoted_text(addr)),
        address::ip_of(addr) is None ==> ecs_of(addr) == Err::<ClientSubnet, Seq<char>>(
            "invalid IP address "@ + text::quoted_text(addr),
        ),
{
    scan::splitting_once_finds_the_first(addr, '/', digits);
}

/// A subnet is written as its address, a slash and its length.
pub proof fn subnets_are_written_with_their_length(subnet: ClientSubnet)
    ensures
        ecs_text(subnet) == address::ip_text(subnet.addr) + seq!['/'] + text::decimal(
            subnet.source_prefix as nat,
        ),
        address::ip_text(subnet.addr) == match subnet.addr {
            IpAddr::V4(n) => address::ipv4_text(n),
            IpAddr::V6(n) => address::ipv6_text(n),
        },
{
    reveal_strlit("/");
    assert("/"@ =~= seq!['/']);
}

/// What a result says is what it holds.
pub proof fn results_say_what_they_hold(result: QueryResult)
    ensures
        match result {
            QueryResult::Records { values, min_ttl } => {
                &&& result@ is Records
                &&& result@->min_ttl == min_ttl
                &&& result@->values.len() == values@.len()
                &&& forall|i: int|
                    0 <= i < values@.len() ==> #[trigger] result@->values[i] == values@[i]@
            },
            QueryResult::NoRecords(reason) => result@ == ResultView::NoRecords(reason@),
            QueryResult::ServFail => result@ == ResultView::ServFail,
            QueryResult::Error(reason) => result@ == ResultView::Error(reason@),
        },
{
}

} // verus!

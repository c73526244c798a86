//! Anycast site discovery: which of a resolver's sites answered.
//!
//! Large anycast networks answer an identification query with a text that
//! names the site, usually by the IATA code of the nearest airport.
use vstd::prelude::*;

use crate::address;
use crate::address::IpAddr;
use crate::dns;
use crate::scan;
use crate::scan::Class;
use crate::text;

verus! {

/// An angle in degrees.
#[derive(Clone, Copy, PartialEq, Eq, Structural, Debug)]
pub enum Degrees {
    /// So many tenths of a degree.
    Tenths(i32),
    /// The bits of a number in the binary64 format.
    Binary(u64),
}

/// Which identification query a resolver understands.
#[derive(Debug, Clone, Copy, PartialEq, Eq, Structural)]
pub enum SiteProbe {
    /// `IN TXT id.server.on.quad9.net` gives `res120.qyul1.on.quad9.net`: the
    /// label that starts with `q` names the site.
    Quad9,
    /// `CH TXT id.server` gives `yul01`: the leading letters name the site.
    Cloudflare,
    /// `IN TXT o-o.myaddr.l.google.com` gives the egress address, and
    /// `IN TXT locations.publicdns.goog` maps address prefixes to sites.
    Google,
    /// `IN TXT debug.opendns.com` has a line `server r3.yyz`: the last label
    /// names the site.
    OpenDns,
    /// `CH TXT id.server` with a text of any form.
    ChIdServer,
}

/// A query that identifies a site.
#[derive(Debug, Clone, Copy)]
pub enum ProbeQuery {
    /// TXT records of the Internet class.
    Text(&'static str),
    /// TXT records of the CHAOS class.
    Chaos(&'static str),
}

impl SiteProbe {
    /// The query to send first.
    pub fn first_query(self) -> (out: ProbeQuery)
        ensures
            out == match self {
                SiteProbe::Quad9 => ProbeQuery::Text("id.server.on.quad9.net"),
                SiteProbe::Cloudflare => ProbeQuery::Chaos("id.server"),
                SiteProbe::Google => ProbeQuery::Text("o-o.myaddr.l.google.com"),
                SiteProbe::OpenDns => ProbeQuery::Text("debug.opendns.com"),
                SiteProbe::ChIdServer => ProbeQuery::Chaos("id.server"),
            },
    {
        match self {
            SiteProbe::Quad9 => ProbeQuery::Text("id.server.on.quad9.net"),
            SiteProbe::Cloudflare => ProbeQuery::Chaos("id.server"),
            SiteProbe::Google => ProbeQuery::Text("o-o.myaddr.l.google.com"),
            SiteProbe::OpenDns => ProbeQuery::Text("debug.opendns.com"),
            SiteProbe::ChIdServer => ProbeQuery::Chaos("id.server"),
        }
    }

    /// The query to send second, if one is needed.
    pub fn second_query(self) -> (out: Option<ProbeQuery>)
        ensures
            out == match self {
                SiteProbe::Google => Some(ProbeQuery::Text("locations.publicdns.goog")),
                _ => None,
            },
    {
        match self {
            SiteProbe::Google => Some(ProbeQuery::Text("locations.publicdns.goog")),
            _ => None,
        }
    }
}

/// A discovered site.
#[derive(Debug, Clone)]
pub struct Site {
    /// Short display code, in upper case, at most 7 characters.
    pub code: String,
    /// Map position, latitude first, when the code is that of a known airport.
    pub coords: Option<(Degrees, Degrees)>,
}

/// The longest code that is shown.
pub const CODE_LIMIT: usize = 7;

/// The first characters of `s`, as many as a code may have.
pub open spec fn clipped(s: Seq<char>) -> Seq<char> {
    if s.len() <= CODE_LIMIT {
        s
    } else {
        s.take(CODE_LIMIT as int)
    }
}

/// The display code of a site that a resolver names `name`.
pub open spec fn site_code(name: Seq<char>) -> Seq<char> {
    clipped(text::upper_text(clipped(name)))
}

/// Is `coords` where the first airport of this code is? None when there is none.
pub open spec fn located(code: Seq<char>, coords: Option<(Degrees, Degrees)>) -> bool {
    match coords {
        Some(at) => exists|i: int|
            {
                &&& 0 <= i < AIRPORTS@.len()
                &&& (#[trigger] AIRPORTS@[i]).0@ == code
                &&& at == (Degrees::Tenths(AIRPORTS@[i].1), Degrees::Tenths(AIRPORTS@[i].2))
                &&& forall|j: int| 0 <= j < i ==> (#[trigger] AIRPORTS@[j]).0@ != code
            },
        None => forall|i: int| 0 <= i < AIRPORTS@.len() ==> (#[trigger] AIRPORTS@[i]).0@ != code,
    }
}

/// Is `out` the site that a resolver named `name`?
pub open spec fn names_site(name: Option<Seq<char>>, out: Option<Site>) -> bool {
    match out {
        Some(site) => name is Some && site.code@ == site_code(name->0) && located(
            site.code@,
            site.coords,
        ),
        None => name is None,
    }
}

/// The first characters of `s`, as many as a code may have.
fn clip(s: &str) -> (out: String)
    ensures
        out@ == clipped(s@),
        out@.len() <= CODE_LIMIT,
{
    let list = text::chars_of(s);
    let end: usize = if list.len() <= CODE_LIMIT {
        list.len()
    } else {
        CODE_LIMIT
    };
    let out = text::string_of(&list, 0, end);
    assert(out@ =~= clipped(s@));
    out
}

/// Where the airport of this code is.
pub fn airport_coords(code: &str) -> (out: Option<(Degrees, Degrees)>)
    ensures
        located(code@, out),
{
    let mut i: usize = 0;
    while i < AIRPORTS.len()
        invariant
            i <= AIRPORTS@.len(),
            forall|k: int| 0 <= k < i ==> (#[trigger] AIRPORTS@[k]).0@ != code@,
        decreases AIRPORTS@.len() - i,
    {
        let airport = AIRPORTS[i];
        if text::same(airport.0, code) {
            assert(AIRPORTS@[i as int].0@ == code@);
            return Some((Degrees::Tenths(airport.1), Degrees::Tenths(airport.2)));
        }
        i += 1;
    }
    None
}

impl Site {
    /// The site that a resolver names `name`.
    pub fn from_code(name: &str) -> (out: Site)
        ensures
            out.code@ == site_code(name@),
            out.code@.len() <= CODE_LIMIT,
            located(out.code@, out.coords),
    {
        let upper = text::uppercase(clip(name).as_str());
        let code = clip(upper.as_str());
        let coords = airport_coords(code.as_str());
        Site { code, coords }
    }
}

/// The site of a name that was found.
fn site_from(name: &Vec<char>) -> (out: Option<Site>)
    ensures
        names_site(Some(name@), out),
{
    Some(Site::from_code(text::whole_string(name).as_str()))
}

// ---------------------------------------------------------------- Quad9

/// Does a label of the answer name the site? A `q`, then letters and digits,
/// at least three.
pub open spec fn is_pop(label: Seq<char>) -> bool {
    label.len() >= 4 && label[0] == 'q' && scan::all_of(label.skip(1), Class::Alphanumeric)
}

/// The first label that names the site.
pub open spec fn first_pop(labels: Seq<Seq<char>>) -> Option<Seq<char>>
    decreases labels.len(),
{
    if labels.len() == 0 {
        None
    } else if is_pop(labels[0]) {
        Some(labels[0])
    } else {
        first_pop(labels.drop_first())
    }
}

/// The airport code in a Quad9 answer: the label that names the site, without
/// the `q` and the node number, if three characters are left.
pub open spec fn quad9_name(strings: Seq<Seq<char>>) -> Option<Seq<char>> {
    if strings.len() == 0 {
        None
    } else {
        match first_pop(scan::pieces(strings[0], Class::Only('.'))) {
            Some(label) => {
                let name = scan::trim_end(label.skip(1), Class::Digit);
                if name.len() == 3 {
                    Some(name)
                } else {
                    None
                }
            },
            None => None,
        }
    }
}

/// Reads a Quad9 answer.
pub fn parse_quad9(strings: &Vec<String>) -> (out: Option<Site>)
    ensures
        names_site(quad9_name(text::texts(strings@)), out),
{
    if strings.len() == 0 {
        return None;
    }
    let labels = scan::split(&text::chars_of(strings[0].as_str()), Class::Only('.'));
    let ghost views = labels@.map_values(|v: Vec<char>| v@);
    let mut i: usize = 0;
    assert(views.skip(0) =~= views);
    while i < labels.len()
        invariant
            i <= labels@.len(),
            views == labels@.map_values(|v: Vec<char>| v@),
            first_pop(views) == first_pop(views.skip(i as int)),
            strings@.len() > 0,
            views == scan::pieces(text::texts(strings@)[0], Class::Only('.')),
        decreases labels@.len() - i,
    {
        let label = &labels[i];
        assert(views.skip(i as int)[0] == label@);
        assert(views.skip(i as int).drop_first() =~= views.skip(i + 1));
        if label.len() >= 4 && label[0] == 'q' {
            let rest = scan::slice_of(label, 1, label.len());
            assert(rest@ =~= label@.skip(1));
            if scan::all_in(&rest, Class::Alphanumeric) {
                let name = scan::without_end(&rest, Class::Digit);
                return if name.len() == 3 {
                    site_from(&name)
                } else {
                    None
                };
            }
        }
        i += 1;
    }
    None
}

// ---------------------------------------------------------------- Cloudflare

/// The airport code in a Cloudflare answer: the letters in front of the node
/// number, if there are three.
pub open spec fn cloudflare_name(strings: Seq<Seq<char>>) -> Option<Seq<char>> {
    if strings.len() == 0 {
        None
    } else {
        let answer = scan::trim(strings[0]);
        let n = leading_letters(answer);
        if scan::all_of(answer, Class::Alphanumeric) && n == 3 {
            Some(answer.take(n as int))
        } else {
            None
        }
    }
}

/// How many letters `s` begins with.
pub open spec fn leading_letters(s: Seq<char>) -> nat
    decreases s.len(),
{
    if s.len() > 0 && scan::is_letter(s[0]) {
        1 + leading_letters(s.drop_first())
    } else {
        0
    }
}

/// Reads a Cloudflare answer.
pub fn parse_cloudflare(strings: &Vec<String>) -> (out: Option<Site>)
    ensures
        names_site(cloudflare_name(text::texts(strings@)), out),
{
    if strings.len() == 0 {
        return None;
    }
    let answer = scan::trimmed(strings[0].as_str());
    assert(answer@ == scan::trim(text::texts(strings@)[0]));
    if !scan::all_in(&answer, Class::Alphanumeric) {
        return None;
    }
    let mut n: usize = 0;
    assert(answer@.skip(0) =~= answer@);
    while n < answer.len() && Class::Letter.has(answer[n])
        invariant
            n <= answer@.len(),
            leading_letters(answer@) == n + leading_letters(answer@.skip(n as int)),
        decreases answer@.len() - n,
    {
        assert(answer@.skip(n as int).drop_first() =~= answer@.skip(n + 1));
        n += 1;
    }
    if n != 3 {
        return None;
    }
    let name = scan::slice_of(&answer, 0, n);
    assert(name@ =~= answer@.take(3));
    site_from(&name)
}

// ---------------------------------------------------------------- OpenDNS

/// What follows `server ` in the first string that begins with it.
pub open spec fn server_line(strings: Seq<Seq<char>>) -> Option<Seq<char>>
    decreases strings.len(),
{
    if strings.len() == 0 {
        None
    } else if scan::begins(strings[0], "server "@) {
        Some(strings[0].skip("server "@.len() as int))
    } else {
        server_line(strings.drop_first())
    }
}

/// The airport code in an OpenDNS answer: the last label of the server line,
/// if it is three letters.
pub open spec fn opendns_name(strings: Seq<Seq<char>>) -> Option<Seq<char>> {
    match server_line(strings) {
        Some(line) => {
            let name = scan::pieces(scan::trim(line), Class::Only('.')).last();
            if name.len() == 3 && scan::all_of(name, Class::Letter) {
                Some(name)
            } else {
                None
            }
        },
        None => None,
    }
}

/// Reads an OpenDNS answer.
pub fn parse_opendns(strings: &Vec<String>) -> (out: Option<Site>)
    ensures
        names_site(opendns_name(text::texts(strings@)), out),
{
    let ghost views = text::texts(strings@);
    let mut i: usize = 0;
    assert(views.skip(0) =~= views);
    while i < strings.len()
        invariant
            i <= strings@.len(),
            views == text::texts(strings@),
            server_line(views) == server_line(views.skip(i as int)),
        decreases strings@.len() - i,
    {
        assert(views.skip(i as int)[0] == strings@[i as int]@);
        assert(views.skip(i as int).drop_first() =~= views.skip(i + 1));
        if let Some(line) = scan::strip_prefix(&text::chars_of(strings[i].as_str()), "server ") {
            let line = text::whole_string(&line);
            let labels = scan::split(&scan::trimmed(line.as_str()), Class::Only('.'));
            let name = &labels[labels.len() - 1];
            assert(name@ == labels@.map_values(|v: Vec<char>| v@).last());
            return if name.len() == 3 && scan::all_in(name, Class::Letter) {
                site_from(name)
            } else {
                None
            };
        }
        i += 1;
    }
    None
}

// ---------------------------------------------------------------- Google

/// An address prefix as its first 128 bits and how many of them count.
pub open spec fn cidr_of(s: Seq<char>) -> Option<(u128, u8)> {
    match scan::split_once(s, '/') {
        Some((addr, len)) => match (address::ip_of(addr), scan::byte_of(len)) {
            (Some(ip), Some(len)) => if len <= address::width(ip) {
                Some((address::mapped(ip), (len + (128 - address::width(ip))) as u8))
            } else {
                None
            },
            _ => None,
        },
        None => None,
    }
}

/// Reads an address prefix, `a.b.c.d/len` or `x::/len`. IPv4 has a range of
/// its own in the IPv6 space, so that one comparison covers both.
pub fn parse_cidr(s: &str) -> (out: Option<(u128, u8)>)
    ensures
        out == cidr_of(s@),
{
    match scan::halves(s, '/') {
        Some((addr, len)) => match (address::parse_ip(addr.as_str()), scan::parse_byte(
            len.as_str(),
        )) {
            (Some(ip), Some(len)) => {
                let (bits, max) = address::ip_bits(ip);
                if len <= max {
                    Some((bits, len + (128 - max)))
                } else {
                    None
                }
            },
            _ => None,
        },
        None => None,
    }
}

/// Does `ip` lie in the network of `net`, of whose bits `len` count?
pub fn cidr_contains(net: u128, len: u8, ip: IpAddr) -> (out: bool)
    requires
        len <= 128,
    ensures
        out == address::same_prefix(address::mapped(ip), net, len),
{
    let (bits, _) = address::ip_bits(ip);
    address::shares_prefix(bits, net, len)
}

/// A prefix of IPv4 addresses holds no IPv6 address but those that stand for
/// an IPv4 address.
pub proof fn ipv4_prefixes_hold_no_other_ipv6(net: u32, len: u8, ip: u128)
    requires
        len <= 32,
        ip / 0x1_0000_0000 != 0xffff,
    ensures
        !address::same_prefix(
            address::mapped(IpAddr::V6(ip)),
            address::mapped(IpAddr::V4(net)),
            (len + 96) as u8,
        ),
{
    let low = (32 - len) as nat;
    let p = vstd::arithmetic::power2::pow2(low) as int;
    let q = vstd::arithmetic::power2::pow2(len as nat) as int;
    let a = ip as int;
    let b = address::mapped(IpAddr::V4(net)) as int;
    vstd::arithmetic::power2::lemma_pow2_pos(low);
    vstd::arithmetic::power2::lemma_pow2_pos(len as nat);
    vstd::arithmetic::power2::lemma_pow2_adds(low, len as nat);
    vstd::arithmetic::power2::lemma2_to64();
    assert(p * q == 0x1_0000_0000);
    vstd::arithmetic::div_mod::lemma_div_denominator(a, p, q);
    vstd::arithmetic::div_mod::lemma_div_denominator(b, p, q);
    if a / p * p == b / p * p {
        assert(a / p == b / p) by (nonlinear_arith)
            requires
                a / p * p == b / p * p,
                p > 0,
        ;
    }
}

/// The network of an entry `<prefix> <code>`, if it is one.
pub open spec fn entry_net(entry: Seq<char>) -> Option<(u128, u8)> {
    if scan::words(entry).len() >= 2 {
        cidr_of(scan::words(entry)[0])
    } else {
        None
    }
}

/// Does the entry's network hold `ip`?
pub open spec fn covers(entry: Seq<char>, ip: IpAddr) -> bool {
    entry_net(entry) matches Some((net, len)) && address::same_prefix(
        address::mapped(ip),
        net,
        len,
    )
}

/// How many bits of the entry's network count.
pub open spec fn entry_len(entry: Seq<char>) -> u8 {
    match entry_net(entry) {
        Some((_, len)) => len,
        None => 0,
    }
}

/// Is entry `i` the one to go by for `ip`? Of the networks that hold it the
/// narrowest, and the first of these.
pub open spec fn closest(entries: Seq<Seq<char>>, ip: IpAddr, i: int) -> bool {
    &&& 0 <= i < entries.len()
    &&& covers(entries[i], ip)
    &&& forall|j: int|
        0 <= j < entries.len() && #[trigger] covers(entries[j], ip) ==> entry_len(entries[j])
            <= entry_len(entries[i]) && (j < i ==> entry_len(entries[j]) < entry_len(entries[i]))
}

/// The first string that is an IP address, white space aside.
pub open spec fn first_ip(strings: Seq<Seq<char>>) -> Option<IpAddr>
    decreases strings.len(),
{
    if strings.len() == 0 {
        None
    } else {
        match address::ip_of(scan::trim(strings[0])) {
            Some(ip) => Some(ip),
            None => first_ip(strings.drop_first()),
        }
    }
}

/// Is `out` the site of the entry to go by?
pub open spec fn google_site(
    myaddr: Seq<Seq<char>>,
    locations: Seq<Seq<char>>,
    out: Option<Site>,
) -> bool {
    match first_ip(myaddr) {
        Some(ip) => match out {
            Some(_) => exists|i: int| #[trigger]
                closest(locations, ip, i) && names_site(Some(scan::words(locations[i])[1]), out),
            None => forall|i: int|
                0 <= i < locations.len() ==> !#[trigger] covers(locations[i], ip),
        },
        None => out is None,
    }
}

/// The entry to go by is unique.
pub proof fn closest_unique(entries: Seq<Seq<char>>, ip: IpAddr, i: int, j: int)
    requires
        closest(entries, ip, i),
        closest(entries, ip, j),
    ensures
        i == j,
{
    assert(covers(entries[i], ip) && covers(entries[j], ip));
}

/// The egress address among the strings.
fn find_ip(strings: &Vec<String>) -> (out: Option<IpAddr>)
    ensures
        out == first_ip(text::texts(strings@)),
{
    let ghost views = text::texts(strings@);
    let mut i: usize = 0;
    assert(views.skip(0) =~= views);
    while i < strings.len()
        invariant
            i <= strings@.len(),
            views == text::texts(strings@),
            first_ip(views) == first_ip(views.skip(i as int)),
        decreases strings@.len() - i,
    {
        assert(views.skip(i as int)[0] == strings@[i as int]@);
        assert(views.skip(i as int).drop_first() =~= views.skip(i + 1));
        let word = text::whole_string(&scan::trimmed(strings[i].as_str()));
        if let Some(ip) = address::parse_ip(word.as_str()) {
            return Some(ip);
        }
        i += 1;
    }
    None
}

/// Reads the two Google answers: the egress address, and the list that maps
/// address prefixes to sites. The narrowest prefix wins.
pub fn parse_google(myaddr: &Vec<String>, locations: &Vec<String>) -> (out: Option<Site>)
    ensures
        google_site(text::texts(myaddr@), text::texts(locations@), out),
{
    let egress = match find_ip(myaddr) {
        Some(ip) => ip,
        None => {
            return None;
        },
    };
    let ghost views = text::texts(locations@);
    let mut best: Option<(u8, String)> = None;
    let ghost mut at: int = 0;
    let mut i: usize = 0;
    while i < locations.len()
        invariant
            i <= locations@.len(),
            views == text::texts(locations@),
            match best {
                Some((len, code)) => {
                    &&& 0 <= at < i
                    &&& closest(views.take(i as int), egress, at)
                    &&& len == entry_len(views[at])
                    &&& code@ == scan::words(views[at])[1]
                },
                None => forall|k: int| 0 <= k < i ==> !#[trigger] covers(views[k], egress),
            },
        decreases locations@.len() - i,
    {
        assert(views[i as int] == locations@[i as int]@);
        let ghost seen = views.take(i as int);
        let ghost more = views.take(i + 1);
        let mut hit: Option<(u8, String)> = None;
        if let Some((prefix, code)) = scan::first_two_words(locations[i].as_str()) {
            if let Some((net, len)) = parse_cidr(prefix.as_str()) {
                if cidr_contains(net, len, egress) {
                    hit = Some((len, code));
                }
            }
        }
        assert(hit is Some <==> covers(views[i as int], egress));
        if let Some((len, code)) = hit {
            let longer = match &best {
                Some((l, _)) => len > *l,
                None => true,
            };
            if longer {
                proof {
                    assert forall|j: int|
                        0 <= j < more.len() && #[trigger] covers(more[j], egress) implies entry_len(
                        more[j],
                    ) <= entry_len(more[i as int]) && (j < i ==> entry_len(more[j]) < entry_len(
                        more[i as int],
                    )) by {
                        if j < i {
                            assert(more[j] == seen[j] && covers(seen[j], egress));
                            assert(covers(views[j], egress));
                        }
                    }
                    at = i as int;
                }
                best = Some((len, code));
            } else {
                proof {
                    assert forall|j: int|
                        0 <= j < more.len() && #[trigger] covers(more[j], egress) implies entry_len(
                        more[j],
                    ) <= entry_len(more[at]) && (j < at ==> entry_len(more[j]) < entry_len(
                        more[at],
                    )) by {
                        if j < i {
                            assert(more[j] == seen[j] && covers(seen[j], egress));
                        }
                    }
                    assert(more[at] == seen[at]);
                }
            }
        } else {
            proof {
                if best is Some {
                    assert(more[at] == seen[at]);
                    assert forall|j: int|
                        0 <= j < more.len() && #[trigger] covers(more[j], egress) implies entry_len(
                        more[j],
                    ) <= entry_len(more[at]) && (j < at ==> entry_len(more[j]) < entry_len(
                        more[at],
                    )) by {
                        if j < i {
                            assert(more[j] == seen[j] && covers(seen[j], egress));
                        }
                    }
                }
            }
        }
        i += 1;
    }
    assert(views.take(i as int) =~= views);
    match best {
        Some((_, code)) => {
            let site = Site::from_code(code.as_str());
            assert(closest(views, egress, at));
            Some(site)
        },
        None => None,
    }
}

// ---------------------------------------------------------------- any form

/// Does a word name a site? Letters only, of a length that fits a place, and
/// not the name of a product.
pub open spec fn is_place(word: Seq<char>) -> bool {
    &&& 3 <= word.len() <= 12
    &&& scan::all_of(word, Class::Letter)
    &&& !scan::occurs(word.map_values(|c: char| text::lower_char(c)), "dns"@)
}

/// The last piece that names a site, without the digits at its end.
pub open spec fn last_place(pieces: Seq<Seq<char>>) -> Option<Seq<char>>
    decreases pieces.len(),
{
    if pieces.len() == 0 {
        None
    } else {
        let word = scan::trim_end(pieces.last(), Class::Digit);
        if is_place(word) {
            Some(word)
        } else {
            last_place(pieces.drop_last())
        }
    }
}

/// The site named in an answer of any form: the last word that can be one,
/// behind the last ` - ` if there is one.
pub open spec fn freeform_name(strings: Seq<Seq<char>>) -> Option<Seq<char>> {
    if strings.len() == 0 {
        None
    } else {
        last_place(
            scan::pieces(scan::tail_after(scan::trim(strings[0]), " - "@), Class::Separator),
        )
    }
}

/// Does a word name a site?
fn place(word: &Vec<char>) -> (out: bool)
    ensures
        out == is_place(word@),
{
    if word.len() < 3 || word.len() > 12 || !scan::all_in(word, Class::Letter) {
        return false;
    }
    let lower = text::lowercase(text::whole_string(word).as_str());
    !scan::contains(&lower, "dns")
}

/// Reads an answer of any form.
pub fn parse_freeform(strings: &Vec<String>) -> (out: Option<Site>)
    ensures
        names_site(freeform_name(text::texts(strings@)), out),
{
    if strings.len() == 0 {
        return None;
    }
    let answer = scan::trimmed(strings[0].as_str());
    assert(answer@ == scan::trim(text::texts(strings@)[0]));
    let tail = scan::after_last(&answer, " - ");
    let tokens = scan::split(&tail, Class::Separator);
    let ghost views = tokens@.map_values(|v: Vec<char>| v@);
    let mut n: usize = tokens.len();
    assert(views.take(n as int) =~= views);
    while n > 0
        invariant
            n <= tokens@.len(),
            views == tokens@.map_values(|v: Vec<char>| v@),
            last_place(views) == last_place(views.take(n as int)),
            strings@.len() > 0,
            last_place(views) == freeform_name(text::texts(strings@)),
        decreases n,
    {
        assert(views.take(n as int).last() == tokens@[n - 1]@);
        assert(views.take(n as int).drop_last() =~= views.take(n - 1));
        let word = scan::without_end(&tokens[n - 1], Class::Digit);
        if place(&word) {
            return site_from(&word);
        }
        n -= 1;
    }
    None
}

// ---------------------------------------------------------------- probing

/// Is `out` the site that the answers to a probe name?
pub open spec fn probed(
    probe: SiteProbe,
    first: Seq<Seq<char>>,
    second: Seq<Seq<char>>,
    out: Option<Site>,
) -> bool {
    match probe {
        SiteProbe::Quad9 => names_site(quad9_name(first), out),
        SiteProbe::Cloudflare => names_site(cloudflare_name(first), out),
        SiteProbe::Google => google_site(first, second, out),
        SiteProbe::OpenDns => names_site(opendns_name(first), out),
        SiteProbe::ChIdServer => names_site(freeform_name(first), out),
    }
}

/// The site that the answers to a probe name. The second answer counts only
/// where the probe has a second query.
pub fn site_of(probe: SiteProbe, first: &Vec<String>, second: &Vec<String>) -> (out: Option<Site>)
    ensures
        probed(probe, text::texts(first@), text::texts(second@), out),
{
    match probe {
        SiteProbe::Quad9 => parse_quad9(first),
        SiteProbe::Cloudflare => parse_cloudflare(first),
        SiteProbe::Google => parse_google(first, second),
        SiteProbe::OpenDns => parse_opendns(first),
        SiteProbe::ChIdServer => parse_freeform(first),
    }
}

/// Airports near which the probed networks have sites: IATA code, latitude and
/// longitude in tenths of a degree. In the order of the codes.
pub const AIRPORTS: [(&'static str, i32, i32); 244] = [
    ("ABJ", 53, -39),
    ("ACC", 56, -2),
    ("ADD", 90, 388),
    ("ADL", -349, 1385),
    ("AKL", -370, 1748),
    ("ALA", 434, 770),
    ("ALG", 367, 32),
    ("AMD", 231, 726),
    ("AMM", 317, 360),
    ("AMS", 523, 48),
    ("ANC", 612, -1500),
    ("ARN", 597, 179),
    ("ATH", 379, 239),
    ("ATL", 336, -844),
    ("AUH", 244, 547),
    ("AUS", 302, -977),
    ("BAH", 263, 506),
    ("BCN", 413, 21),
    ("BEG", 448, 203),
    ("BEL", -14, -485),
    ("BER", 524, 135),
    ("BEY", 338, 355),
    ("BGI", 131, -595),
    ("BGW", 333, 442),
    ("BKK", 137, 1007),
    ("BLR", 132, 777),
    ("BNA", 361, -867),
    ("BNE", -274, 1531),
    ("BOD", 448, -7),
    ("BOG", 47, -741),
    ("BOM", 191, 729),
    ("BOS", 424, -710),
    ("BRU", 509, 45),
    ("BSB", -159, -479),
    ("BUD", 474, 193),
    ("BUF", 429, -787),
    ("CAI", 301, 314),
    ("CAN", 234, 1133),
    ("CBR", -353, 1492),
    ("CCU", 227, 884),
    ("CDG", 490, 25),
    ("CEB", 103, 1240),
    ("CGK", -61, 1067),
    ("CHC", -435, 1725),
    ("CKG", 297, 1066),
    ("CLE", 414, -818),
    ("CLT", 352, -809),
    ("CMB", 72, 799),
    ("CMH", 400, -830),
    ("CMN", 334, -76),
    ("CNX", 188, 990),
    ("COK", 102, 764),
    ("COR", -313, -642),
    ("CPH", 556, 126),
    ("CPT", -340, 186),
    ("CTS", 428, 1417),
    ("CTU", 306, 1040),
    ("CUR", 122, -690),
    ("CWB", -255, -492),
    ("DAC", 238, 904),
    ("DAR", -69, 392),
    ("DEL", 286, 771),
    ("DEN", 399, -1047),
    ("DFW", 329, -970),
    ("DKR", 147, -174),
    ("DLA", 40, 97),
    ("DMM", 265, 498),
    ("DOH", 253, 516),
    ("DPS", -87, 1152),
    ("DTW", 422, -834),
    ("DUB", 534, -63),
    ("DUR", -296, 311),
    ("DUS", 513, 68),
    ("DXB", 253, 554),
    ("EBB", 0, 324),
    ("EDI", 559, -34),
    ("EVN", 401, 444),
    ("EWR", 407, -742),
    ("EZE", -348, -585),
    ("FCO", 418, 122),
    ("FOR", -38, -385),
    ("FRA", 500, 86),
    ("FUK", 336, 1305),
    ("GDL", 205, -1033),
    ("GIG", -228, -432),
    ("GOT", 577, 123),
    ("GRU", -234, -465),
    ("GUA", 146, -905),
    ("GUM", 135, 1448),
    ("GVA", 462, 61),
    ("GYD", 405, 501),
    ("GYE", -22, -799),
    ("HAM", 536, 100),
    ("HAN", 212, 1058),
    ("HEL", 603, 249),
    ("HGH", 302, 1204),
    ("HKG", 223, 1139),
    ("HND", 356, 1398),
    ("HNL", 213, -1579),
    ("HRE", -179, 311),
    ("HYD", 172, 784),
    ("IAD", 390, -775),
    ("IAH", 300, -953),
    ("ICN", 375, 1264),
    ("IND", 397, -863),
    ("ISB", 336, 731),
    ("IST", 410, 288),
    ("JAX", 305, -817),
    ("JED", 217, 392),
    ("JFK", 406, -738),
    ("JIB", 115, 432),
    ("JNB", -261, 282),
    ("KBP", 503, 309),
    ("KEF", 640, -226),
    ("KGL", -20, 301),
    ("KHH", 226, 1203),
    ("KHI", 249, 672),
    ("KIN", 180, -768),
    ("KIV", 469, 289),
    ("KIX", 344, 1352),
    ("KTM", 277, 854),
    ("KUL", 27, 1017),
    ("KWI", 292, 480),
    ("LAD", -89, 132),
    ("LAS", 361, -1152),
    ("LAX", 339, -1184),
    ("LED", 598, 303),
    ("LHE", 315, 744),
    ("LHR", 515, -5),
    ("LIM", -120, -771),
    ("LIS", 388, -91),
    ("LOS", 66, 33),
    ("LPA", 279, -154),
    ("LPB", -165, -682),
    ("LUN", -153, 285),
    ("LUX", 496, 62),
    ("LYS", 457, 51),
    ("MAA", 130, 802),
    ("MAD", 405, -36),
    ("MAN", 534, -23),
    ("MAO", -30, -600),
    ("MBA", -40, 396),
    ("MCI", 393, -947),
    ("MCO", 284, -813),
    ("MCT", 236, 583),
    ("MDE", 62, -756),
    ("MEL", -377, 1448),
    ("MEM", 350, -900),
    ("MEX", 194, -991),
    ("MFM", 221, 1136),
    ("MIA", 258, -803),
    ("MNL", 145, 1210),
    ("MPM", -259, 326),
    ("MRS", 434, 52),
    ("MRU", -204, 577),
    ("MSP", 449, -932),
    ("MSY", 300, -903),
    ("MTY", 258, -1001),
    ("MUC", 484, 118),
    ("MVD", -348, -560),
    ("MXP", 456, 87),
    ("NBO", -13, 369),
    ("NOU", -220, 1662),
    ("NRT", 358, 1404),
    ("OKA", 262, 1276),
    ("OKC", 354, -976),
    ("OMA", 413, -959),
    ("ORD", 420, -879),
    ("OSL", 602, 111),
    ("OTP", 446, 261),
    ("PDX", 456, -1226),
    ("PER", -319, 1160),
    ("PHL", 399, -752),
    ("PHX", 334, -1120),
    ("PIT", 405, -802),
    ("PMO", 382, 131),
    ("PNH", 115, 1049),
    ("POA", -300, -512),
    ("POM", -94, 1472),
    ("POS", 106, -614),
    ("PPT", -176, -1496),
    ("PRG", 501, 143),
    ("PTY", 91, -794),
    ("PVG", 311, 1218),
    ("QRO", 206, -1004),
    ("RDU", 359, -788),
    ("REC", -81, -349),
    ("RGN", 169, 961),
    ("RIC", 375, -773),
    ("RIX", 569, 240),
    ("RUH", 250, 467),
    ("SAN", 327, -1172),
    ("SAT", 295, -985),
    ("SCL", -334, -708),
    ("SDQ", 184, -697),
    ("SEA", 474, -1223),
    ("SFO", 376, -1224),
    ("SGN", 108, 1067),
    ("SIN", 14, 1040),
    ("SJC", 374, -1219),
    ("SJO", 100, -842),
    ("SJU", 184, -660),
    ("SKG", 405, 230),
    ("SKP", 420, 216),
    ("SLC", 408, -1120),
    ("SMF", 387, -1216),
    ("SOF", 427, 234),
    ("SSA", -129, -383),
    ("STL", 387, -904),
    ("STR", 487, 92),
    ("SUB", -74, 1128),
    ("SUV", -180, 1784),
    ("SYD", -339, 1512),
    ("SZX", 226, 1138),
    ("TAS", 413, 693),
    ("TBS", 417, 450),
    ("TGU", 141, -872),
    ("TIA", 414, 197),
    ("TLH", 304, -844),
    ("TLL", 594, 248),
    ("TLV", 320, 349),
    ("TNR", -188, 475),
    ("TPA", 280, -825),
    ("TPE", 251, 1212),
    ("TSN", 391, 1173),
    ("TUN", 369, 102),
    ("UIO", -1, -784),
    ("ULN", 478, 1068),
    ("VIE", 481, 166),
    ("VNO", 546, 253),
    ("VTE", 180, 1026),
    ("WAW", 522, 210),
    ("WLG", -413, 1748),
    ("WUH", 308, 1142),
    ("XIY", 344, 1088),
    ("YHZ", 449, -635),
    ("YOW", 453, -757),
    ("YUL", 455, -737),
    ("YVR", 492, -1232),
    ("YWG", 499, -972),
    ("YYC", 511, -1140),
    ("YYZ", 437, -796),
    ("ZAG", 457, 161),
    ("ZRH", 475, 86),
];

// ---------------------------------------------------------------- laws

/// A site is called by what it is named, in upper case: seven characters at most,
/// of the first seven of the name.
pub proof fn codes_are_short_and_in_upper_case(name: Seq<char>)
    ensures
        site_code(name).len() <= 7,
        name.len() <= 7 && text::upper_text(name).len() <= 7 ==> site_code(name)
            == text::upper_text(name),
        name.len() > 7 ==> site_code(name) == site_code(name.take(7)),
        name.len() <= 7 && text::upper_text(name).len() > 7 ==> site_code(name)
            == text::upper_text(name).take(7),
{
    assert(name.len() > 7 ==> clipped(name.take(7)) =~= name.take(7));
}

/// A site is where the first airport of its code is, and nowhere without one.
pub proof fn sites_are_where_their_airport_is(
    code: Seq<char>,
    coords: Option<(Degrees, Degrees)>,
    i: int,
)
    requires
        located(code, coords),
        0 <= i < AIRPORTS@.len(),
        AIRPORTS@[i].0@ == code,
        forall|j: int| 0 <= j < i ==> (#[trigger] AIRPORTS@[j]).0@ != code,
    ensures
        coords == Some((Degrees::Tenths(AIRPORTS@[i].1), Degrees::Tenths(AIRPORTS@[i].2))),
{
    if let Some(at) = coords {
        let k = choose|k: int|
            {
                &&& 0 <= k < AIRPORTS@.len()
                &&& (#[trigger] AIRPORTS@[k]).0@ == code
                &&& at == (Degrees::Tenths(AIRPORTS@[k].1), Degrees::Tenths(AIRPORTS@[k].2))
                &&& forall|j: int| 0 <= j < k ==> (#[trigger] AIRPORTS@[j]).0@ != code
            };
        assert(AIRPORTS@[k].0@ == code && AIRPORTS@[i].0@ == code);
        assert(i == k);
    }
}

/// Each probe names a site by the answers that it asks for: a name gives a site
/// of its code, and no name gives none.
pub proof fn probes_read_their_own_answers(
    probe: SiteProbe,
    first: Seq<Seq<char>>,
    second: Seq<Seq<char>>,
    out: Option<Site>,
)
    requires
        probed(probe, first, second, out),
        probe != SiteProbe::Google,
    ensures
        ({
            let name = match probe {
                SiteProbe::Quad9 => quad9_name(first),
                SiteProbe::Cloudflare => cloudflare_name(first),
                SiteProbe::OpenDns => opendns_name(first),
                _ => freeform_name(first),
            };
            &&& out is Some <==> name is Some
            &&& out is Some ==> out->0.code@ == site_code(name->0) && located(
                out->0.code@,
                out->0.coords,
            )
        }),
{
}

/// Is `label` a `q` and three or more letters and digits?
pub open spec fn names_a_pop(label: Seq<char>) -> bool {
    &&& label.len() >= 4
    &&& label[0] == 'q'
    &&& forall|i: int| 1 <= i < label.len() ==> Class::Alphanumeric.holds(#[trigger] label[i])
}

/// Both ways to say it agree.
proof fn pops_agree(label: Seq<char>)
    ensures
        names_a_pop(label) == is_pop(label),
{
    if names_a_pop(label) {
        assert forall|i: int| 0 <= i < label.skip(1).len() implies Class::Alphanumeric.holds(
            #[trigger] label.skip(1)[i],
        ) by {
            assert(label.skip(1)[i] == label[i + 1]);
        }
    }
    if is_pop(label) {
        assert forall|i: int| 1 <= i < label.len() implies Class::Alphanumeric.holds(
            #[trigger] label[i],
        ) by {
            assert(label.skip(1)[i - 1] == label[i]);
        }
    }
}

/// The first label of that form is found.
proof fn first_pop_is(labels: Seq<Seq<char>>, k: int)
    requires
        0 <= k <= labels.len(),
        forall|i: int| 0 <= i < k ==> !names_a_pop(#[trigger] labels[i]),
        k < labels.len() ==> names_a_pop(labels[k]),
    ensures
        k < labels.len() ==> first_pop(labels) == Some(labels[k]),
        k == labels.len() ==> first_pop(labels) is None,
    decreases k,
{
    if labels.len() > 0 {
        pops_agree(labels[0]);
        if k > 0 {
            let rest = labels.drop_first();
            assert forall|i: int| 0 <= i < k - 1 implies !names_a_pop(#[trigger] rest[i]) by {
                assert(rest[i] == labels[i + 1]);
            }
            assert(k < labels.len() ==> rest[k - 1] == labels[k]);
            first_pop_is(rest, k - 1);
        }
    }
}

/// Of a host name the first label that is a `q`, three letters and a number names
/// the site by the letters; where the first label that begins so has more or
/// fewer of them, and where none does, no site is named.
pub proof fn the_first_pop_names_the_site(strings: Seq<Seq<char>>, k: int)
    requires
        strings.len() > 0,
        0 <= k <= scan::pieces(strings[0], Class::Only('.')).len(),
        forall|i: int|
            0 <= i < k ==> !names_a_pop(#[trigger] scan::pieces(strings[0], Class::Only('.'))[i]),
        k < scan::pieces(strings[0], Class::Only('.')).len() ==> names_a_pop(
            scan::pieces(strings[0], Class::Only('.'))[k],
        ),
    ensures
        ({
            let labels = scan::pieces(strings[0], Class::Only('.'));
            let label = labels[k];
            &&& k == labels.len() ==> quad9_name(strings) is None
            &&& k < labels.len() && !Class::Digit.holds(label[3]) && (forall|i: int|
                4 <= i < label.len() ==> Class::Digit.holds(#[trigger] label[i])) ==> quad9_name(
                strings,
            ) == Some(label.subrange(1, 4))
            &&& k < labels.len() && (Class::Digit.holds(label[3]) && (forall|i: int|
                4 <= i < label.len() ==> Class::Digit.holds(#[trigger] label[i])) || exists|i: int|
                4 <= i < label.len() && !Class::Digit.holds(#[trigger] label[i])) ==> quad9_name(
                strings,
            ) is None
        }),
{
    let labels = scan::pieces(strings[0], Class::Only('.'));
    first_pop_is(labels, k);
    if k < labels.len() {
        let label = labels[k];
        let rest = label.skip(1);
        let name = scan::trim_end(rest, Class::Digit);
        scan::trimming_the_end_takes_the_class_off(rest, Class::Digit);
        assert forall|i: int| 1 <= i < label.len() implies #[trigger] label[i] == rest[i - 1] by {}
        if name.len() > 0 {
            assert(name.last() == rest[name.len() - 1]);
            assert(rest[name.len() - 1] == label[name.len() as int]);
        }
        if name.len() < 3 {
            assert(Class::Digit.holds(rest[2]));
            assert(label[3] == rest[2]);
            assert forall|i: int| 4 <= i < label.len() implies Class::Digit.holds(
                #[trigger] label[i],
            ) by {
                assert(rest[i - 1] == label[i]);
            }
        }
        if name.len() == 3 {
            assert(name =~= label.subrange(1, 4));
            assert forall|i: int| 4 <= i < label.len() implies Class::Digit.holds(
                #[trigger] label[i],
            ) by {
                assert(rest[i - 1] == label[i]);
            }
        }
    }
}

/// So many letters lead a text.
proof fn leading_letters_are(letters: Seq<char>, rest: Seq<char>)
    requires
        forall|i: int| 0 <= i < letters.len() ==> Class::Letter.holds(#[trigger] letters[i]),
        rest.len() > 0 ==> !Class::Letter.holds(rest[0]),
    ensures
        leading_letters(letters + rest) == letters.len(),
    decreases letters.len(),
{
    let s = letters + rest;
    if letters.len() == 0 {
        assert(s =~= rest);
    } else {
        assert(s[0] == letters[0]);
        let fewer = letters.drop_first();
        assert forall|i: int| 0 <= i < fewer.len() implies Class::Letter.holds(
            #[trigger] fewer[i],
        ) by {
            assert(fewer[i] == letters[i + 1]);
        }
        leading_letters_are(fewer, rest);
        assert(s.drop_first() =~= fewer + rest);
    }
}

/// A text of letters and digits names a site by its first letters, where there
/// are three of them; another text names none.
pub proof fn three_leading_letters_name_the_site(
    strings: Seq<Seq<char>>,
    letters: Seq<char>,
    rest: Seq<char>,
)
    requires
        strings.len() > 0,
        scan::trim(strings[0]) == letters + rest,
        forall|i: int| 0 <= i < letters.len() ==> Class::Letter.holds(#[trigger] letters[i]),
        rest.len() > 0 ==> !Class::Letter.holds(rest[0]),
    ensures
        letters.len() == 3 && (forall|i: int|
            0 <= i < rest.len() ==> Class::Alphanumeric.holds(#[trigger] rest[i]))
            ==> cloudflare_name(strings) == Some(letters),
        letters.len() != 3 ==> cloudflare_name(strings) is None,
        (exists|i: int| 0 <= i < rest.len() && !Class::Alphanumeric.holds(#[trigger] rest[i]))
            ==> cloudflare_name(strings) is None,
{
    let s = letters + rest;
    leading_letters_are(letters, rest);
    assert(s.take(letters.len() as int) =~= letters);
    if forall|i: int| 0 <= i < rest.len() ==> Class::Alphanumeric.holds(#[trigger] rest[i]) {
        assert forall|i: int| 0 <= i < s.len() implies Class::Alphanumeric.holds(
            #[trigger] s[i],
        ) by {
            if i < letters.len() {
                assert(s[i] == letters[i]);
            } else {
                assert(s[i] == rest[i - letters.len()]);
            }
        }
    } else {
        let i = choose|i: int|
            0 <= i < rest.len() && !Class::Alphanumeric.holds(#[trigger] rest[i]);
        assert(s[letters.len() + i] == rest[i]);
    }
}

/// The first line of that form is found.
proof fn server_line_is(strings: Seq<Seq<char>>, k: int)
    requires
        0 <= k <= strings.len(),
        forall|i: int|
            0 <= i < k ==> !("server "@.is_prefix_of(#[trigger] strings[i])),
        k < strings.len() ==> "server "@.is_prefix_of(strings[k]),
    ensures
        k < strings.len() ==> server_line(strings) == Some(
            strings[k].skip("server "@.len() as int),
        ),
        k == strings.len() ==> server_line(strings) is None,
    decreases k,
{
    if strings.len() > 0 {
        let p = "server "@;
        if scan::begins(strings[0], p) {
            assert(p =~= strings[0].subrange(0, p.len() as int));
            assert(p.is_prefix_of(strings[0]));
        }
        if p.is_prefix_of(strings[0]) {
            assert(strings[0].subrange(0, 0 + p.len() as int) =~= p);
        }
        if k > 0 {
            let rest = strings.drop_first();
            assert forall|i: int| 0 <= i < k - 1 implies !(p.is_prefix_of(
                #[trigger] rest[i],
            )) by {
                assert(rest[i] == strings[i + 1]);
            }
            assert(k < strings.len() ==> rest[k - 1] == strings[k]);
            server_line_is(rest, k - 1);
        }
    }
}

/// Of several lines the first that begins with `server ` names the site, by the
/// last label behind it, where that is three letters; without one no site is
/// named.
pub proof fn the_first_server_line_names_the_site(strings: Seq<Seq<char>>, k: int)
    requires
        0 <= k <= strings.len(),
        forall|i: int|
            0 <= i < k ==> !("server "@.is_prefix_of(#[trigger] strings[i])),
        k < strings.len() ==> "server "@.is_prefix_of(strings[k]),
    ensures
        k == strings.len() ==> opendns_name(strings) is None,
        k < strings.len() ==> {
            let label = scan::pieces(scan::trim(strings[k].skip(7)), Class::Only('.')).last();
            if label.len() == 3 && Class::Letter.holds(label[0]) && Class::Letter.holds(label[1])
                && Class::Letter.holds(label[2]) {
                opendns_name(strings) == Some(label)
            } else {
                opendns_name(strings) is None
            }
        },
{
    reveal_strlit("server ");
    server_line_is(strings, k);
}

/// Is `word` three to twelve letters, without `dns` among them in any case?
pub open spec fn names_a_place(word: Seq<char>) -> bool {
    &&& 3 <= word.len() <= 12
    &&& forall|i: int| 0 <= i < word.len() ==> Class::Letter.holds(#[trigger] word[i])
    &&& !dns::mentions(word, "dns"@)
}

/// The last piece of that form is found.
proof fn last_place_is(pieces: Seq<Seq<char>>, k: int)
    requires
        -1 <= k < pieces.len(),
        forall|i: int|
            k < i < pieces.len() ==> !names_a_place(
                scan::trim_end(#[trigger] pieces[i], Class::Digit),
            ),
        k >= 0 ==> names_a_place(scan::trim_end(pieces[k], Class::Digit)),
    ensures
        k >= 0 ==> last_place(pieces) == Some(scan::trim_end(pieces[k], Class::Digit)),
        k < 0 ==> last_place(pieces) is None,
    decreases pieces.len(),
{
    if pieces.len() > 0 {
        let n = pieces.len() - 1;
        let word = scan::trim_end(pieces[n], Class::Digit);
        dns::mentions_occurs(word, "dns"@);
        if k < n {
            let front = pieces.drop_last();
            assert forall|i: int| k < i < front.len() implies !names_a_place(
                scan::trim_end(#[trigger] front[i], Class::Digit),
            ) by {
                assert(front[i] == pieces[i]);
            }
            last_place_is(front, k);
        }
    }
}

/// A text of any form names a site by the last of its words that can be a place,
/// without the digits behind it; only what follows the last ` - ` counts.
pub proof fn the_last_place_names_the_site(strings: Seq<Seq<char>>, k: int)
    requires
        strings.len() > 0,
        -1 <= k < scan::pieces(
            scan::tail_after(scan::trim(strings[0]), " - "@),
            Class::Separator,
        ).len(),
        forall|i: int|
            k < i < scan::pieces(
                scan::tail_after(scan::trim(strings[0]), " - "@),
                Class::Separator,
            ).len() ==> !names_a_place(
                scan::trim_end(
                    #[trigger] scan::pieces(
                        scan::tail_after(scan::trim(strings[0]), " - "@),
                        Class::Separator,
                    )[i],
                    Class::Digit,
                ),
            ),
        k >= 0 ==> names_a_place(
            scan::trim_end(
                scan::pieces(
                    scan::tail_after(scan::trim(strings[0]), " - "@),
                    Class::Separator,
                )[k],
                Class::Digit,
            ),
        ),
    ensures
        k < 0 ==> freeform_name(strings) is None,
        k >= 0 ==> freeform_name(strings) == Some(
            scan::trim_end(
                scan::pieces(
                    scan::tail_after(scan::trim(strings[0]), " - "@),
                    Class::Separator,
                )[k],
                Class::Digit,
            ),
        ),
{
    last_place_is(
        scan::pieces(scan::tail_after(scan::trim(strings[0]), " - "@), Class::Separator),
        k,
    );
}

/// Without a text no site is named.
pub proof fn silence_names_no_site()
    ensures
        quad9_name(Seq::empty()) is None,
        cloudflare_name(Seq::empty()) is None,
        opendns_name(Seq::empty()) is None,
        freeform_name(Seq::empty()) is None,
        first_ip(Seq::empty()) is None,
{
}

/// An entry covers the addresses that share its network's prefix, and its length
/// counts in the space that both families share. An entry without a second word
/// covers nothing.
pub proof fn entries_cover_their_prefix(
    entry: Seq<char>,
    addr: Seq<char>,
    net: IpAddr,
    digits: Seq<char>,
    len: u8,
    ip: IpAddr,
)
    requires
        scan::words(entry).len() > 0,
        scan::words(entry)[0] == addr + seq!['/'] + digits,
        !addr.contains('/'),
        address::ip_of(addr) == Some(net),
        scan::byte_of(digits) == Some(len),
    ensures
        scan::words(entry).len() == 1 ==> !covers(entry, ip),
        scan::words(entry).len() >= 2 && net is V4 && len <= 32 ==> covers(entry, ip)
            == address::same_prefix(address::mapped(ip), address::mapped(net), (len + 96) as u8)
            && entry_len(entry) == len + 96,
        scan::words(entry).len() >= 2 && net is V6 && len <= 128 ==> covers(entry, ip)
            == address::same_prefix(address::mapped(ip), address::mapped(net), len) && entry_len(
            entry,
        ) == len,
        net is V4 && len > 32 || len > 128 ==> !covers(entry, ip),
{
    scan::splitting_once_finds_the_first(addr, '/', digits);
}

/// The first text that is an address is taken.
proof fn first_ip_is(strings: Seq<Seq<char>>, k: int)
    requires
        0 <= k <= strings.len(),
        forall|i: int|
            0 <= i < k ==> address::ip_of(scan::trim(#[trigger] strings[i])) is None,
        k < strings.len() ==> address::ip_of(scan::trim(strings[k])) is Some,
    ensures
        k < strings.len() ==> first_ip(strings) == address::ip_of(scan::trim(strings[k])),
        k == strings.len() ==> first_ip(strings) is None,
    decreases k,
{
    if k > 0 {
        let rest = strings.drop_first();
        assert forall|i: int| 0 <= i < k - 1 implies address::ip_of(
            scan::trim(#[trigger] rest[i]),
        ) is None by {
            assert(rest[i] == strings[i + 1]);
        }
        assert(k < strings.len() ==> rest[k - 1] == strings[k]);
        assert(address::ip_of(scan::trim(strings[0])) is None);
        first_ip_is(rest, k - 1);
    }
}

/// An address is at the site of the entry that covers it with the longest prefix,
/// the first of several; where none covers it, and without an address, it is at
/// none.
pub proof fn addresses_are_at_the_closest_entry(
    myaddr: Seq<Seq<char>>,
    locations: Seq<Seq<char>>,
    out: Option<Site>,
    k: int,
    i: int,
)
    requires
        google_site(myaddr, locations, out),
        0 <= k <= myaddr.len(),
        forall|j: int| 0 <= j < k ==> address::ip_of(scan::trim(#[trigger] myaddr[j])) is None,
        k < myaddr.len() ==> address::ip_of(scan::trim(myaddr[k])) is Some,
    ensures
        k == myaddr.len() ==> out is None,
        ({
            let ip = address::ip_of(scan::trim(myaddr[k]))->0;
            &&& k < myaddr.len() && (forall|j: int|
                0 <= j < locations.len() ==> !covers(#[trigger] locations[j], ip)) ==> out is None
            &&& k < myaddr.len() && 0 <= i < locations.len() && covers(locations[i], ip) && (forall|
                j: int,
            |
                0 <= j < locations.len() && covers(#[trigger] locations[j], ip) ==> entry_len(
                    locations[j],
                ) < entry_len(locations[i]) || entry_len(locations[j]) == entry_len(locations[i])
                    && i <= j) ==> {
                &&& out is Some
                &&& out->0.code@ == site_code(scan::words(locations[i])[1])
                &&& located(out->0.code@, out->0.coords)
            }
        }),
{
    first_ip_is(myaddr, k);
    if k < myaddr.len() {
        let ip = address::ip_of(scan::trim(myaddr[k]))->0;
        if out is Some {
            let c = choose|c: int| #[trigger]
                closest(locations, ip, c) && names_site(Some(scan::words(locations[c])[1]), out);
            assert(covers(locations[c], ip));
            if 0 <= i < locations.len() && covers(locations[i], ip) && (forall|j: int|
                0 <= j < locations.len() && covers(#[trigger] locations[j], ip) ==> entry_len(
                    locations[j],
                ) < entry_len(locations[i]) || entry_len(locations[j]) == entry_len(locations[i])
                    && i <= j) {
                assert(c == i);
            }
        }
    }
}

/// A code of no airport is nowhere, and only such a code is.
pub proof fn other_codes_are_nowhere(code: Seq<char>, coords: Option<(Degrees, Degrees)>)
    requires
        located(code, coords),
    ensures
        coords is None <==> forall|i: int|
            0 <= i < AIRPORTS@.len() ==> (#[trigger] AIRPORTS@[i]).0@ != code,
{
}

/// An entry whose first word has no slash covers nothing, nor does one whose
/// address or length is none.
pub proof fn other_entries_cover_nothing(
    entry: Seq<char>,
    addr: Seq<char>,
    digits: Seq<char>,
    ip: IpAddr,
)
    requires
        scan::words(entry).len() > 0,
        !addr.contains('/'),
    ensures
        scan::words(entry)[0] == addr ==> !covers(entry, ip),
        scan::words(entry)[0] == addr + seq!['/'] + digits && (address::ip_of(addr) is None
            || scan::byte_of(digits) is None) ==> !covers(entry, ip),
{
    scan::splitting_once_finds_the_first(addr, '/', digits);
}

} // verus!

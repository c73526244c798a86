//! The resolvers to ask.
use vstd::prelude::*;

use crate::address::IpAddr;
use crate::sites::{Degrees, SiteProbe};

verus! {

/// A resolver to ask, built in or from the user's configuration.
#[derive(Debug, Clone)]
pub struct Resolver {
    pub name: String,
    pub location: String,
    pub ip: IpAddr,
    /// Map position, latitude first; without one the resolver stays off the map.
    pub coords: Option<(Degrees, Degrees)>,
    /// How to ask this resolver which of its sites answered, if it tells.
    pub probe: Option<SiteProbe>,
}

/// The address with these four bytes.
pub open spec fn quad(bytes: (u8, u8, u8, u8)) -> IpAddr {
    IpAddr::V4((bytes.0 * 0x100_0000 + bytes.1 * 0x1_0000 + bytes.2 * 0x100 + bytes.3) as u32)
}

/// The probe that tells the site of the `i`-th built-in resolver, if one does.
pub open spec fn builtin_probe(i: int) -> Option<SiteProbe> {
    if i == 0 {
        Some(SiteProbe::Google)
    } else if i == 1 {
        Some(SiteProbe::Cloudflare)
    } else if i == 2 {
        Some(SiteProbe::Quad9)
    } else if i == 3 {
        Some(SiteProbe::OpenDns)
    } else if i == 4 || i == 8 {
        Some(SiteProbe::ChIdServer)
    } else {
        None
    }
}

/// The probe that tells the site of the `i`-th built-in resolver, if one does.
fn probe_of(i: usize) -> (out: Option<SiteProbe>)
    ensures
        out == builtin_probe(i as int),
{
    match i {
        0 => Some(SiteProbe::Google),
        1 => Some(SiteProbe::Cloudflare),
        2 => Some(SiteProbe::Quad9),
        3 => Some(SiteProbe::OpenDns),
        4 => Some(SiteProbe::ChIdServer),
        8 => Some(SiteProbe::ChIdServer),
        _ => None,
    }
}

/// Is `out` the `i`-th built-in resolver?
pub open spec fn is_builtin(out: Resolver, i: int) -> bool {
    &&& out.name@ == BUILTIN@[i].0@
    &&& out.location@ == BUILTIN@[i].1@
    &&& out.ip == quad(BUILTIN@[i].2)
    &&& out.coords == Some((Degrees::Tenths(BUILTIN@[i].3), Degrees::Tenths(BUILTIN@[i].4)))
    &&& out.probe == builtin_probe(i)
}

/// Is `list` the built-in resolvers?
pub open spec fn are_builtin(list: Seq<Resolver>) -> bool {
    list.len() == BUILTIN@.len() && forall|i: int|
        0 <= i < list.len() ==> is_builtin(#[trigger] list[i], i)
}

/// The built-in resolvers.
pub fn defaults() -> (out: Vec<Resolver>)
    ensures
        are_builtin(out@),
{
    let mut out: Vec<Resolver> = Vec::new();
    let mut i: usize = 0;
    while i < BUILTIN.len()
        invariant
            i <= BUILTIN@.len(),
            out@.len() == i,
            forall|k: int| 0 <= k < i ==> is_builtin(#[trigger] out@[k], k),
        decreases BUILTIN@.len() - i,
    {
        let (name, location, bytes, lat, lon) = BUILTIN[i];
        let n: u32 = bytes.0 as u32 * 0x100_0000 + bytes.1 as u32 * 0x1_0000 + bytes.2 as u32
            * 0x100 + bytes.3 as u32;
        out.push(
            Resolver {
                name: name.to_owned(),
                location: location.to_owned(),
                ip: IpAddr::V4(n),
                coords: Some((Degrees::Tenths(lat), Degrees::Tenths(lon))),
                probe: probe_of(i),
            },
        );
        i += 1;
    }
    out
}

/// Public resolvers spread across regions: name, location, address, latitude
/// and longitude in tenths of a degree. Of an anycast network the location is
/// the operator's home region, and the position is only indicative.
pub const BUILTIN: [(
    &'static str,
    &'static str,
    (u8, u8, u8, u8),
    i32,
    i32,
); 34] = [
    ("Google Public DNS", "Anycast", (8, 8, 8, 8), 374, -1221),
    ("Cloudflare", "Anycast", (1, 1, 1, 1), 378, -1224),
    ("Quad9", "CH/Any", (9, 9, 9, 9), 474, 85),
    ("OpenDNS (Cisco)", "US/Any", (208, 67, 222, 222), 339, -1182),
    ("CleanBrowsing", "Anycast", (185, 228, 168, 9), 334, -1120),
    ("Level3", "US", (4, 2, 2, 2), 397, -1050),
    ("Lumen (Qwest)", "US", (205, 171, 3, 66), 404, -1040),
    ("Hurricane Electric", "US", (74, 82, 42, 42), 376, -1220),
    ("Neustar UltraDNS", "US/Any", (64, 6, 64, 6), 390, -775),
    ("Comodo Secure DNS", "US", (8, 26, 56, 26), 409, -742),
    ("FortiGuard", "US/Any", (208, 91, 112, 53), 373, -1219),
    ("CIRA Canadian Shield", "CA", (149, 112, 121, 10), 454, -757),
    ("ControlD", "CA/Any", (76, 76, 2, 0), 437, -794),
    ("DNS4EU", "EU/Any", (86, 54, 11, 100), 501, 144),
    ("CZ.NIC ODVR", "CZ", (193, 17, 47, 1), 499, 153),
    ("AdGuard DNS", "EU/Any", (94, 140, 14, 14), 347, 330),
    ("Gcore DNS", "LU/Any", (95, 85, 95, 85), 496, 61),
    ("DNS.SB", "DE/Any", (185, 222, 222, 222), 501, 87),
    ("SafeDNS", "RU", (195, 46, 39, 39), 558, 376),
    ("Yandex DNS", "RU", (77, 88, 8, 8), 556, 379),
    ("Comss.one", "RU", (83, 220, 169, 155), 563, 381),
    ("Bezeq Intl", "IL", (192, 115, 106, 10), 321, 348),
    ("114DNS", "CN", (114, 114, 114, 114), 321, 1188),
    ("AliDNS", "CN", (223, 5, 5, 5), 303, 1202),
    ("DNSPod (Tencent)", "CN", (119, 29, 29, 29), 225, 1141),
    ("Baidu DNS", "CN", (180, 76, 76, 76), 399, 1164),
    ("CNNIC sDNS", "CN", (1, 2, 4, 8), 405, 1169),
    ("360 Secure DNS", "CN", (101, 226, 4, 6), 312, 1215),
    ("KT (Kornet)", "KR", (168, 126, 63, 1), 376, 1270),
    ("LG U+", "KR", (164, 124, 101, 2), 365, 1279),
    ("HiNet (Chunghwa)", "TW", (168, 95, 1, 1), 250, 1216),
    ("Telstra", "AU", (139, 130, 4, 4), -339, 1512),
    ("SafeSurfer", "NZ", (104, 197, 28, 121), -368, 1748),
    ("UOL", "BR", (200, 221, 11, 100), -235, -466),
];

// ---------------------------------------------------------------- laws

/// The bytes of an address stand in order, the first in front.
pub proof fn bytes_stand_in_order(a: u8, b: u8, c: u8, d: u8)
    ensures
        quad((a, b, c, d)) is V4,
        ({
            let n = quad((a, b, c, d))->V4_0;
            &&& n / 0x100_0000 == a
            &&& n / 0x1_0000 % 0x100 == b
            &&& n / 0x100 % 0x100 == c
            &&& n % 0x100 == d
        }),
{
}

/// The networks that tell their site are asked in the way that they answer.
pub proof fn networks_are_probed_in_their_own_way(list: Seq<Resolver>)
    requires
        are_builtin(list),
    ensures
        list.len() == 34,
        list[0].name@ == "Google Public DNS"@ && list[0].probe == Some(SiteProbe::Google),
        list[1].name@ == "Cloudflare"@ && list[1].probe == Some(SiteProbe::Cloudflare),
        list[2].name@ == "Quad9"@ && list[2].probe == Some(SiteProbe::Quad9),
        list[3].name@ == "OpenDNS (Cisco)"@ && list[3].probe == Some(SiteProbe::OpenDns),
        list[4].name@ == "CleanBrowsing"@ && list[4].probe == Some(SiteProbe::ChIdServer),
        list[8].name@ == "Neustar UltraDNS"@ && list[8].probe == Some(SiteProbe::ChIdServer),
        forall|i: int|
            5 <= i < 34 && i != 8 ==> (#[trigger] list[i]).probe is None,
        forall|i: int| 0 <= i < 34 ==> (#[trigger] list[i]).coords is Some,
{
    assert(is_builtin(list[0], 0));
    assert(is_builtin(list[1], 1));
    assert(is_builtin(list[2], 2));
    assert(is_builtin(list[3], 3));
    assert(is_builtin(list[4], 4));
    assert(is_builtin(list[8], 8));
}

} // verus!

//! The optional configuration: resolvers to add to the built-in list or to
//! replace it with, client subnets, the map panel, and colors.
use vstd::prelude::*;

use crate::address;
use crate::app::ViewMode;
use crate::dns;
use crate::dns::ClientSubnet;
use crate::resolvers;
use crate::resolvers::Resolver;
use crate::sites::Degrees;
use crate::text;
use crate::theme;
use crate::theme::{Color, Muted, Theme};

verus! {

/// A configuration, as written.
#[derive(Debug)]
pub struct Config {
    /// Do the resolvers replace the built-in list, instead of extending it?
    pub replace: bool,
    /// The preferred map panel.
    pub view: Option<ViewMode>,
    /// Client subnets to ask with.
    pub ecs: Vec<String>,
    pub theme: ThemeTable,
    pub resolvers: Vec<Entry>,
}

/// Colors, as written. A role without one keeps its default.
#[derive(Debug)]
pub struct ThemeTable {
    pub accent: Option<String>,
    pub agree: Option<String>,
    pub differ: Option<String>,
    pub error: Option<String>,
    pub pending: Option<String>,
    pub stale: Option<String>,
    pub upstream: Option<String>,
    pub muted: Option<String>,
    pub coastline: Option<String>,
    pub grid: Option<String>,
}

/// A resolver, as written.
#[derive(Debug)]
pub struct Entry {
    pub name: String,
    pub ip: String,
    pub location: String,
    /// Map position: both or neither.
    pub lat: Option<Degrees>,
    pub lon: Option<Degrees>,
}

/// What a configuration comes to.
pub struct Settings {
    pub resolvers: Vec<Resolver>,
    pub view: Option<ViewMode>,
    pub ecs: Vec<ClientSubnet>,
    pub theme: Theme,
}

/// What is wrong with a configuration: from the outermost circumstance in.
pub struct ConfigError {
    pub chain: Vec<String>,
}

impl View for ConfigError {
    type V = Seq<Seq<char>>;

    open spec fn view(&self) -> Seq<Seq<char>> {
        text::texts(self.chain@)
    }
}

impl ConfigError {
    /// An error without further circumstances.
    fn plain(message: String) -> (out: ConfigError)
        ensures
            out@ == seq![message@],
    {
        let mut chain: Vec<String> = Vec::new();
        chain.push(message);
        let out = ConfigError { chain };
        assert(out@ =~= seq![message@]);
        out
    }

    /// An error with its cause.
    fn caused(message: String, cause: String) -> (out: ConfigError)
        ensures
            out@ == seq![message@, cause@],
    {
        let mut chain: Vec<String> = Vec::new();
        chain.push(message);
        chain.push(cause);
        let out = ConfigError { chain };
        assert(out@ =~= seq![message@, cause@]);
        out
    }

    /// The error in one line.
    pub fn message(&self) -> (out: String)
        ensures
            out@ == text::joined(self@, ": "@),
    {
        text::joined_string(&self.chain, ": ")
    }
}

impl Settings {
    /// What no configuration comes to.
    pub fn defaults() -> (out: Settings)
        ensures
            resolvers::are_builtin(out.resolvers@),
            out.view is None,
            out.ecs@.len() == 0,
            out.theme == theme::default_theme(),
    {
        Settings {
            resolvers: resolvers::defaults(),
            view: None,
            ecs: Vec::new(),
            theme: Theme::default(),
        }
    }
}

// ---------------------------------------------------------------- where it is

/// Where a configuration is looked for.
#[derive(Debug, Clone, Copy, PartialEq, Eq, Structural)]
pub enum Place {
    /// The file that the user named. It has to exist.
    Named,
    /// Below the directory that the desktop names.
    Desktop,
    /// Below the home directory.
    Home,
    /// Nowhere: there is no such directory.
    Nowhere,
}

/// Where the configuration is looked for: in the file that was named, else in
/// the desktop's directory if that is set and not empty, else at home.
pub fn place(named: bool, desktop: bool, desktop_empty: bool, home: bool) -> (out: Place)
    ensures
        out == if named {
            Place::Named
        } else if desktop && !desktop_empty {
            Place::Desktop
        } else if home {
            Place::Home
        } else {
            Place::Nowhere
        },
{
    if named {
        Place::Named
    } else if desktop && !desktop_empty {
        Place::Desktop
    } else if home {
        Place::Home
    } else {
        Place::Nowhere
    }
}

impl Place {
    /// Does a missing file just mean the built-in settings?
    pub fn may_be_missing(self) -> (out: bool)
        ensures
            out == (self != Place::Named),
    {
        self != Place::Named
    }
}

// ---------------------------------------------------------------- client subnets

/// What is said of a subnet that is none.
pub open spec fn bad_subnet(entry: Seq<char>) -> Seq<char> {
    "ecs entry "@ + text::quoted_text(entry) + ": "@ + dns::ecs_of(entry)->Err_0
}

/// Is `out` the subnets of a list, or what is said of the first that is none?
pub open spec fn subnets_of(
    entries: Seq<Seq<char>>,
    out: Result<Vec<ClientSubnet>, ConfigError>,
) -> bool {
    match out {
        Ok(list) => {
            &&& list@.len() == entries.len()
            &&& forall|i: int|
                0 <= i < entries.len() ==> dns::ecs_of(#[trigger] entries[i]) == Ok::<
                    ClientSubnet,
                    Seq<char>,
                >(list@[i])
        },
        Err(e) => exists|i: int|
            {
                &&& 0 <= i < entries.len()
                &&& dns::ecs_of(#[trigger] entries[i]) is Err
                &&& forall|j: int| 0 <= j < i ==> dns::ecs_of(#[trigger] entries[j]) is Ok
                &&& e@ == seq![bad_subnet(entries[i])]
            },
    }
}

/// Reads a list of client subnets.
pub fn ecs_list(entries: &Vec<String>) -> (out: Result<Vec<ClientSubnet>, ConfigError>)
    ensures
        subnets_of(text::texts(entries@), out),
{
    let ghost views = text::texts(entries@);
    let mut list: Vec<ClientSubnet> = Vec::new();
    let mut i: usize = 0;
    while i < entries.len()
        invariant
            i <= entries@.len(),
            views == text::texts(entries@),
            list@.len() == i,
            forall|k: int|
                0 <= k < i ==> dns::ecs_of(#[trigger] views[k]) == Ok::<ClientSubnet, Seq<char>>(
                    list@[k],
                ),
        decreases entries@.len() - i,
    {
        let entry = entries[i].as_str();
        assert(views[i as int] == entry@);
        match dns::parse_ecs(entry) {
            Ok(subnet) => {
                list.push(subnet);
            },
            Err(message) => {
                return Err(
                    ConfigError::plain(
                        "ecs entry ".to_owned().concat(text::quoted(entry).as_str()).concat(
                            ": ",
                        ).concat(message.as_str()),
                    ),
                );
            },
        }
        i += 1;
    }
    Ok(list)
}

// ---------------------------------------------------------------- colors

/// The keys of the color roles, in the order in which they are read.
pub const ROLES: [&'static str; 9] = [
    "accent",
    "agree",
    "differ",
    "error",
    "pending",
    "stale",
    "upstream",
    "coastline",
    "grid",
];

/// The text that a role was given, if any.
pub open spec fn given(value: Option<String>) -> Option<Seq<char>> {
    match value {
        Some(s) => Some(s@),
        None => None,
    }
}

/// The text that the `i`-th role was given, if any.
pub open spec fn role_given(table: ThemeTable, i: int) -> Option<Seq<char>> {
    given(
        if i == 0 {
            table.accent
        } else if i == 1 {
            table.agree
        } else if i == 2 {
            table.differ
        } else if i == 3 {
            table.error
        } else if i == 4 {
            table.pending
        } else if i == 5 {
            table.stale
        } else if i == 6 {
            table.upstream
        } else if i == 7 {
            table.coastline
        } else {
            table.grid
        },
    )
}

/// The color of the `i`-th role.
pub open spec fn role_color(colors: Theme, i: int) -> Color {
    if i == 0 {
        colors.accent
    } else if i == 1 {
        colors.agree
    } else if i == 2 {
        colors.differ
    } else if i == 3 {
        colors.error
    } else if i == 4 {
        colors.pending
    } else if i == 5 {
        colors.stale
    } else if i == 6 {
        colors.upstream
    } else if i == 7 {
        colors.coastline
    } else {
        colors.grid
    }
}

/// Was the `i`-th role given a text that names no color?
pub open spec fn role_is_bad(table: ThemeTable, i: int) -> bool {
    role_given(table, i) matches Some(s) && theme::color_of(s) is None
}

/// Was `muted` given a text that names no way to de-emphasize?
pub open spec fn muted_is_bad(table: ThemeTable) -> bool {
    given(table.muted) matches Some(s) && s != "faint"@ && s != "dim"@ && theme::color_of(s) is None
}

/// Is `out` the theme of a table of colors, or what is said of the first bad one?
pub open spec fn themed(table: ThemeTable, out: Result<Theme, ConfigError>) -> bool {
    match out {
        Ok(colors) => {
            &&& forall|i: int|
                0 <= i < 9 ==> match role_given(table, i) {
                    Some(s) => theme::color_of(s) == Some(#[trigger] role_color(colors, i)),
                    None => role_color(colors, i) == role_color(theme::default_theme(), i),
                }
            &&& match given(table.muted) {
                Some(s) => if s == "faint"@ || s == "dim"@ {
                    colors.muted == Muted::Faint
                } else {
                    colors.muted is Color && theme::color_of(s) == Some(colors.muted->Color_0)
                },
                None => colors.muted == Muted::Faint,
            }
        },
        Err(e) => {
            ||| exists|i: int|
                {
                    &&& 0 <= i < 9
                    &&& #[trigger] role_is_bad(table, i)
                    &&& forall|j: int| 0 <= j < i ==> !#[trigger] role_is_bad(table, j)
                    &&& e@ == seq![
                        "theme."@ + ROLES@[i]@,
                        theme::unrecognized(role_given(table, i)->0),
                    ]
                }
            ||| {
                &&& forall|j: int| 0 <= j < 9 ==> !#[trigger] role_is_bad(table, j)
                &&& muted_is_bad(table)
                &&& e@ == seq!["theme.muted"@, theme::unrecognized(given(table.muted)->0)]
            }
        },
    }
}

/// The text that the `i`-th role was given, if any.
fn role_text(table: &ThemeTable, i: usize) -> (out: &Option<String>)
    requires
        i < 9,
    ensures
        given(*out) == role_given(*table, i as int),
{
    match i {
        0 => &table.accent,
        1 => &table.agree,
        2 => &table.differ,
        3 => &table.error,
        4 => &table.pending,
        5 => &table.stale,
        6 => &table.upstream,
        7 => &table.coastline,
        _ => &table.grid,
    }
}

/// The default color of the `i`-th role.
fn default_role(i: usize) -> (out: Color)
    requires
        i < 9,
    ensures
        out == role_color(theme::default_theme(), i as int),
{
    let colors = Theme::default();
    match i {
        0 => colors.accent,
        1 => colors.agree,
        2 => colors.differ,
        3 => colors.error,
        4 => colors.pending,
        5 => colors.stale,
        6 => colors.upstream,
        7 => colors.coastline,
        _ => colors.grid,
    }
}

/// Lays a table of colors over the defaults.
pub fn build_theme(table: &ThemeTable) -> (out: Result<Theme, ConfigError>)
    ensures
        themed(*table, out),
{
    let mut colors: Vec<Color> = Vec::new();
    let mut i: usize = 0;
    while i < 9
        invariant
            i <= 9,
            colors@.len() == i,
            forall|k: int|
                0 <= k < i ==> match role_given(*table, k) {
                    Some(s) => theme::color_of(s) == Some(#[trigger] colors@[k]),
                    None => colors@[k] == role_color(theme::default_theme(), k),
                },
            forall|k: int| 0 <= k < i ==> !#[trigger] role_is_bad(*table, k),
        decreases 9 - i,
    {
        let color = match role_text(table, i) {
            Some(s) => match theme::parse_color(s.as_str()) {
                Ok(color) => color,
                Err(message) => {
                    assert(role_is_bad(*table, i as int));
                    return Err(
                        ConfigError::caused("theme.".to_owned().concat(ROLES[i]), message),
                    );
                },
            },
            None => default_role(i),
        };
        colors.push(color);
        i += 1;
    }
    let muted = match &table.muted {
        Some(s) => match theme::parse_muted(s.as_str()) {
            Ok(muted) => muted,
            Err(message) => {
                return Err(ConfigError::caused("theme.muted".to_owned(), message));
            },
        },
        None => Muted::Faint,
    };
    let out = Theme {
        accent: colors[0],
        agree: colors[1],
        differ: colors[2],
        error: colors[3],
        pending: colors[4],
        stale: colors[5],
        upstream: colors[6],
        muted,
        coastline: colors[7],
        grid: colors[8],
    };
    assert forall|k: int| 0 <= k < 9 implies match role_given(*table, k) {
        Some(s) => theme::color_of(s) == Some(#[trigger] role_color(out, k)),
        None => role_color(out, k) == role_color(theme::default_theme(), k),
    } by {
        assert(role_color(out, k) == colors@[k]);
    }
    Ok(out)
}

// ---------------------------------------------------------------- resolvers

/// The magnitude bits of the binary64 numbers 90 and 180.
pub const BITS_OF_90: u64 = 0x4056_8000_0000_0000;

pub const BITS_OF_180: u64 = 0x4066_8000_0000_0000;

/// Does an angle lie between minus and plus `tenths`, whose magnitude has
/// these bits? Numbers in the binary64 format are ordered as their magnitude
/// bits are; what is not a number has larger ones.
pub open spec fn within(angle: Degrees, tenths: int, bits: u64) -> bool {
    match angle {
        Degrees::Tenths(t) => -tenths <= t <= tenths,
        Degrees::Binary(b) => b % 0x8000_0000_0000_0000 <= bits,
    }
}

/// Is this a latitude and a longitude?
pub open spec fn on_the_globe(lat: Degrees, lon: Degrees) -> bool {
    within(lat, 900, BITS_OF_90) && within(lon, 1800, BITS_OF_180)
}

/// What is wrong with an entry, if anything is.
pub open spec fn entry_error(entry: Entry) -> Option<Seq<Seq<char>>> {
    let who = "resolver "@ + text::quoted_text(entry.name@);
    if address::ip_of(entry.ip@) is None {
        Some(
            seq![
                who + ": invalid IP address "@ + text::quoted_text(entry.ip@),
                "invalid IP address syntax"@,
            ],
        )
    } else {
        match (entry.lat, entry.lon) {
            (Some(lat), Some(lon)) => if on_the_globe(lat, lon) {
                None
            } else {
                Some(seq![who + ": lat must be in -90..=90 and lon in -180..=180"@])
            },
            (None, None) => None,
            _ => Some(seq![who + ": lat and lon must be given together"@]),
        }
    }
}

/// Is `out` the resolver of an entry?
pub open spec fn is_configured(out: Resolver, entry: Entry) -> bool {
    &&& out.name@ == entry.name@
    &&& out.location@ == entry.location@
    &&& address::ip_of(entry.ip@) == Some(out.ip)
    &&& out.coords == match (entry.lat, entry.lon) {
        (Some(lat), Some(lon)) => Some((lat, lon)),
        _ => None,
    }
    &&& out.probe is None
}

/// Is `out` the list of resolvers of a configuration, or what is said of the
/// first bad entry, or of a list without any?
pub open spec fn listed(
    replace: bool,
    entries: Seq<Entry>,
    out: Result<Vec<Resolver>, ConfigError>,
) -> bool {
    let kept = if replace {
        0
    } else {
        resolvers::BUILTIN@.len()
    };
    match out {
        Ok(list) => {
            &&& list@.len() == kept + entries.len()
            &&& list@.len() > 0
            &&& replace || resolvers::are_builtin(list@.take(kept as int))
            &&& forall|i: int| 0 <= i < entries.len() ==> entry_error(#[trigger] entries[i]) is None
            &&& forall|i: int|
                0 <= i < entries.len() ==> is_configured(list@[kept + i], #[trigger] entries[i])
        },
        Err(e) => {
            ||| exists|i: int|
                {
                    &&& 0 <= i < entries.len()
                    &&& entry_error(#[trigger] entries[i]) == Some(e@)
                    &&& forall|j: int|
                        0 <= j < i ==> entry_error(#[trigger] entries[j]) is None
                }
            ||| {
                &&& replace
                &&& entries.len() == 0
                &&& e@ == seq!["`replace = true` needs at least one [[resolvers]] entry"@]
            }
        },
    }
}

/// Does an angle lie between minus and plus `tenths`?
fn lies_within(angle: Degrees, tenths: i32, bits: u64) -> (out: bool)
    requires
        0 <= tenths <= 1800,
    ensures
        out == within(angle, tenths as int, bits),
{
    match angle {
        Degrees::Tenths(t) => -tenths <= t && t <= tenths,
        Degrees::Binary(b) => b % 0x8000_0000_0000_0000 <= bits,
    }
}

/// Checks an entry.
fn check_entry(entry: &Entry) -> (out: Result<Resolver, ConfigError>)
    ensures
        match out {
            Ok(resolver) => entry_error(*entry) is None && is_configured(resolver, *entry),
            Err(e) => entry_error(*entry) == Some(e@),
        },
{
    let who = "resolver ".to_owned().concat(text::quoted(entry.name.as_str()).as_str());
    let ip = match address::parse_ip(entry.ip.as_str()) {
        Some(ip) => ip,
        None => {
            return Err(
                ConfigError::caused(
                    who.concat(": invalid IP address ").concat(
                        text::quoted(entry.ip.as_str()).as_str(),
                    ),
                    "invalid IP address syntax".to_owned(),
                ),
            );
        },
    };
    let coords = match (entry.lat, entry.lon) {
        (Some(lat), Some(lon)) => {
            if !lies_within(lat, 900, BITS_OF_90) || !lies_within(lon, 1800, BITS_OF_180) {
                return Err(
                    ConfigError::plain(
                        who.concat(": lat must be in -90..=90 and lon in -180..=180"),
                    ),
                );
            }
            Some((lat, lon))
        },
        (None, None) => None,
        _ => {
            return Err(
                ConfigError::plain(who.concat(": lat and lon must be given together")),
            );
        },
    };
    Ok(
        Resolver {
            name: entry.name.clone(),
            location: entry.location.clone(),
            ip,
            coords,
            probe: None,
        },
    )
}

/// Checks the entries and adds them to the built-in list, or puts them in its
/// place.
pub fn resolver_list(replace: bool, entries: &Vec<Entry>) -> (out: Result<
    Vec<Resolver>,
    ConfigError,
>)
    ensures
        listed(replace, entries@, out),
{
    let mut list: Vec<Resolver> = if replace {
        Vec::new()
    } else {
        resolvers::defaults()
    };
    let ghost kept = list@;
    assert(list@.take(kept.len() as int) =~= kept);
    let mut i: usize = 0;
    while i < entries.len()
        invariant
            i <= entries@.len(),
            list@.len() == kept.len() + i,
            kept.len() == if replace {
                0
            } else {
                resolvers::BUILTIN@.len()
            },
            replace || resolvers::are_builtin(kept),
            list@.take(kept.len() as int) == kept,
            forall|k: int| 0 <= k < i ==> entry_error(#[trigger] entries@[k]) is None,
            forall|k: int|
                0 <= k < i ==> is_configured(list@[kept.len() + k], #[trigger] entries@[k]),
        decreases entries@.len() - i,
    {
        match check_entry(&entries[i]) {
            Ok(resolver) => {
                let ghost before = list@;
                list.push(resolver);
                assert(list@.take(kept.len() as int) =~= before.take(kept.len() as int));
            },
            Err(e) => {
                assert(entry_error(entries@[i as int]) == Some(e@));
                return Err(e);
            },
        }
        i += 1;
    }
    if list.len() == 0 {
        return Err(
            ConfigError::plain(
                "`replace = true` needs at least one [[resolvers]] entry".to_owned(),
            ),
        );
    }
    Ok(list)
}

/// Does every color role have a color?
pub open spec fn colors_are_good(table: ThemeTable) -> bool {
    (forall|i: int| 0 <= i < 9 ==> !#[trigger] role_is_bad(table, i)) && !muted_is_bad(table)
}

/// Is every entry a client subnet?
pub open spec fn subnets_are_good(entries: Seq<Seq<char>>) -> bool {
    forall|i: int| 0 <= i < entries.len() ==> dns::ecs_of(#[trigger] entries[i]) is Ok
}

/// Is `out` what a configuration comes to, or what is said of the first part
/// of it that is wrong? Colors are looked at first, then subnets, then
/// resolvers.
pub open spec fn settled(config: Config, out: Result<Settings, ConfigError>) -> bool {
    match out {
        Ok(s) => {
            &&& themed(config.theme, Ok(s.theme))
            &&& subnets_of(text::texts(config.ecs@), Ok(s.ecs))
            &&& listed(config.replace, config.resolvers@, Ok(s.resolvers))
            &&& s.view == config.view
        },
        Err(e) => {
            ||| themed(config.theme, Err(e))
            ||| colors_are_good(config.theme) && subnets_of(text::texts(config.ecs@), Err(e))
            ||| colors_are_good(config.theme) && subnets_are_good(text::texts(config.ecs@))
                && listed(config.replace, config.resolvers@, Err(e))
        },
    }
}

/// What a configuration comes to.
pub fn settings(config: &Config) -> (out: Result<Settings, ConfigError>)
    ensures
        settled(*config, out),
{
    let colors = match build_theme(&config.theme) {
        Ok(colors) => colors,
        Err(e) => {
            return Err(e);
        },
    };
    assert(colors_are_good(config.theme)) by {
        assert forall|i: int| 0 <= i < 9 implies !#[trigger] role_is_bad(config.theme, i) by {
            assert(role_given(config.theme, i) matches Some(s) ==> theme::color_of(s) == Some(
                role_color(colors, i),
            ));
        }
    }
    let ecs = match ecs_list(&config.ecs) {
        Ok(ecs) => ecs,
        Err(e) => {
            return Err(e);
        },
    };
    match resolver_list(config.replace, &config.resolvers) {
        Ok(resolvers) => Ok(Settings { resolvers, view: config.view, ecs, theme: colors }),
        Err(e) => Err(e),
    }
}

/// The map panel to show: what was asked for on the command line, else what
/// the configuration prefers, else the automatic choice.
pub fn chosen_view(asked: Option<ViewMode>, configured: Option<ViewMode>) -> (out: ViewMode)
    ensures
        out == match (asked, configured) {
            (Some(view), _) => view,
            (None, Some(view)) => view,
            (None, None) => ViewMode::Auto,
        },
{
    match asked {
        Some(view) => view,
        None => match configured {
            Some(view) => view,
            None => ViewMode::default(),
        },
    }
}

/// The client subnets to ask with: those of the command line, if there are
/// any, else those of the configuration.
pub fn chosen_subnets(asked: Vec<ClientSubnet>, configured: Vec<ClientSubnet>) -> (out: Vec<
    ClientSubnet,
>)
    ensures
        out == if asked@.len() == 0 {
            configured
        } else {
            asked
        },
{
    if asked.len() == 0 {
        configured
    } else {
        asked
    }
}

/// A configuration that sets nothing comes to the built-in settings.
pub proof fn empty_configuration_changes_nothing(config: Config, out: Result<Settings, ConfigError>)
    requires
        settled(config, out),
        !config.replace,
        config.view is None,
        config.ecs@.len() == 0,
        config.resolvers@.len() == 0,
        forall|i: int| 0 <= i < 9 ==> #[trigger] role_given(config.theme, i) is None,
        given(config.theme.muted) is None,
    ensures
        out matches Ok(s) && {
            &&& resolvers::are_builtin(s.resolvers@)
            &&& s.view is None
            &&& s.ecs@.len() == 0
            &&& s.theme == theme::default_theme()
        },
{
    assert forall|i: int| 0 <= i < 9 implies !#[trigger] role_is_bad(config.theme, i) by {
        assert(role_given(config.theme, i) is None);
    }
    if let Ok(s) = out {
        assert(s.resolvers@.take(resolvers::BUILTIN@.len() as int) =~= s.resolvers@);
        assert(forall|i: int| 0 <= i < 9 ==> #[trigger] role_given(config.theme, i) is None);
        let d = theme::default_theme();
        let t = s.theme;
        assert(role_color(t, 0) == role_color(d, 0) && role_color(t, 1) == role_color(d, 1)
            && role_color(t, 2) == role_color(d, 2) && role_color(t, 3) == role_color(d, 3)
            && role_color(t, 4) == role_color(d, 4) && role_color(t, 5) == role_color(d, 5)
            && role_color(t, 6) == role_color(d, 6) && role_color(t, 7) == role_color(d, 7)
            && role_color(t, 8) == role_color(d, 8));
    }
}

// ---------------------------------------------------------------- laws of the settings

/// Is there a color that is none?
pub open spec fn is_no_color(value: Option<String>) -> bool {
    value is Some && theme::color_of(value->0@) is None
}

/// Is `color` the one that is written, or the default where none is?
pub open spec fn takes(color: Color, value: Option<String>, fallback: Color) -> bool {
    if value is Some {
        theme::color_of(value->0@) == Some(color)
    } else {
        color == fallback
    }
}

/// Each role has the color that is written for it, or its default.
pub proof fn colors_go_where_they_are_written(table: ThemeTable, colors: Theme)
    requires
        themed(table, Ok(colors)),
    ensures
        takes(colors.accent, table.accent, Color::LightCyan),
        takes(colors.agree, table.agree, Color::LightGreen),
        takes(colors.differ, table.differ, Color::LightMagenta),
        takes(colors.error, table.error, Color::LightRed),
        takes(colors.pending, table.pending, Color::LightYellow),
        takes(colors.stale, table.stale, Color::Indexed(208)),
        takes(colors.upstream, table.upstream, Color::LightBlue),
        takes(colors.coastline, table.coastline, Color::Gray),
        takes(colors.grid, table.grid, Color::Indexed(244)),
        table.muted is None ==> colors.muted is Faint,
        table.muted is Some && (table.muted->0@ == "faint"@ || table.muted->0@ == "dim"@)
            ==> colors.muted is Faint,
        table.muted is Some && table.muted->0@ != "faint"@ && table.muted->0@ != "dim"@
            ==> theme::color_of(table.muted->0@) is Some && colors.muted == Muted::Color(
            theme::color_of(table.muted->0@)->0,
        ),
{
    let d = theme::default_theme();
    assert(role_color(colors, 0) == colors.accent && role_color(d, 0) == d.accent);
    assert(role_color(colors, 1) == colors.agree && role_color(d, 1) == d.agree);
    assert(role_color(colors, 2) == colors.differ && role_color(d, 2) == d.differ);
    assert(role_color(colors, 3) == colors.error && role_color(d, 3) == d.error);
    assert(role_color(colors, 4) == colors.pending && role_color(d, 4) == d.pending);
    assert(role_color(colors, 5) == colors.stale && role_color(d, 5) == d.stale);
    assert(role_color(colors, 6) == colors.upstream && role_color(d, 6) == d.upstream);
    assert(role_color(colors, 7) == colors.coastline && role_color(d, 7) == d.coastline);
    assert(role_color(colors, 8) == colors.grid && role_color(d, 8) == d.grid);
}

/// Colors are refused exactly when one of them is none.
pub proof fn only_bad_colors_are_refused(table: ThemeTable, out: Result<Theme, ConfigError>)
    requires
        themed(table, out),
    ensures
        out is Err <==> (is_no_color(table.accent) || is_no_color(table.agree) || is_no_color(
            table.differ,
        ) || is_no_color(table.error) || is_no_color(table.pending) || is_no_color(table.stale)
            || is_no_color(table.upstream) || is_no_color(table.coastline) || is_no_color(table.grid)
            || is_no_color(table.muted) && table.muted->0@ != "faint"@ && table.muted->0@
            != "dim"@),
{
    if let Ok(colors) = out {
        colors_go_where_they_are_written(table, colors);
    } else {
        assert(role_is_bad(table, 0) == is_no_color(table.accent));
        assert(role_is_bad(table, 1) == is_no_color(table.agree));
        assert(role_is_bad(table, 2) == is_no_color(table.differ));
        assert(role_is_bad(table, 3) == is_no_color(table.error));
        assert(role_is_bad(table, 4) == is_no_color(table.pending));
        assert(role_is_bad(table, 5) == is_no_color(table.stale));
        assert(role_is_bad(table, 6) == is_no_color(table.upstream));
        assert(role_is_bad(table, 7) == is_no_color(table.coastline));
        assert(role_is_bad(table, 8) == is_no_color(table.grid));
    }
}

/// The first color that is none is named by its role.
pub proof fn the_first_bad_color_is_named(table: ThemeTable, e: ConfigError)
    requires
        themed(table, Err(e)),
    ensures
        is_no_color(table.accent) ==> e@ == seq![
            "theme."@ + "accent"@,
            theme::unrecognized(table.accent->0@),
        ],
        !is_no_color(table.accent) && is_no_color(table.agree) ==> e@ == seq![
            "theme."@ + "agree"@,
            theme::unrecognized(table.agree->0@),
        ],
        !is_no_color(table.accent) && !is_no_color(table.agree) && is_no_color(table.differ)
            ==> e@ == seq!["theme."@ + "differ"@, theme::unrecognized(table.differ->0@)],
        !is_no_color(table.accent) && !is_no_color(table.agree) && !is_no_color(table.differ)
            && is_no_color(table.error) ==> e@ == seq![
            "theme."@ + "error"@,
            theme::unrecognized(table.error->0@),
        ],
        !is_no_color(table.accent) && !is_no_color(table.agree) && !is_no_color(table.differ)
            && !is_no_color(table.error) && is_no_color(table.pending) ==> e@ == seq![
            "theme."@ + "pending"@,
            theme::unrecognized(table.pending->0@),
        ],
        !is_no_color(table.accent) && !is_no_color(table.agree) && !is_no_color(table.differ)
            && !is_no_color(table.error) && !is_no_color(table.pending) && is_no_color(table.stale)
            ==> e@ == seq!["theme."@ + "stale"@, theme::unrecognized(table.stale->0@)],
        !is_no_color(table.accent) && !is_no_color(table.agree) && !is_no_color(table.differ)
            && !is_no_color(table.error) && !is_no_color(table.pending) && !is_no_color(table.stale)
            && is_no_color(table.upstream) ==> e@ == seq![
            "theme."@ + "upstream"@,
            theme::unrecognized(table.upstream->0@),
        ],
        !is_no_color(table.accent) && !is_no_color(table.agree) && !is_no_color(table.differ)
            && !is_no_color(table.error) && !is_no_color(table.pending) && !is_no_color(table.stale)
            && !is_no_color(table.upstream) && is_no_color(table.coastline) ==> e@ == seq![
            "theme."@ + "coastline"@,
            theme::unrecognized(table.coastline->0@),
        ],
        !is_no_color(table.accent) && !is_no_color(table.agree) && !is_no_color(table.differ)
            && !is_no_color(table.error) && !is_no_color(table.pending) && !is_no_color(table.stale)
            && !is_no_color(table.upstream) && !is_no_color(table.coastline) && is_no_color(
            table.grid,
        ) ==> e@ == seq!["theme."@ + "grid"@, theme::unrecognized(table.grid->0@)],
{
    assert(role_is_bad(table, 0) == is_no_color(table.accent));
    assert(role_is_bad(table, 1) == is_no_color(table.agree));
    assert(role_is_bad(table, 2) == is_no_color(table.differ));
    assert(role_is_bad(table, 3) == is_no_color(table.error));
    assert(role_is_bad(table, 4) == is_no_color(table.pending));
    assert(role_is_bad(table, 5) == is_no_color(table.stale));
    assert(role_is_bad(table, 6) == is_no_color(table.upstream));
    assert(role_is_bad(table, 7) == is_no_color(table.coastline));
    assert(role_is_bad(table, 8) == is_no_color(table.grid));
}

/// Does the angle lie within a quarter turn, in tenths of a degree or in binary?
pub open spec fn is_latitude(angle: Degrees) -> bool {
    match angle {
        Degrees::Tenths(t) => -900 <= t <= 900,
        Degrees::Binary(b) => b % 0x8000_0000_0000_0000 <= 0x4056_8000_0000_0000,
    }
}

/// Does the angle lie within a half turn, in tenths of a degree or in binary?
pub open spec fn is_longitude(angle: Degrees) -> bool {
    match angle {
        Degrees::Tenths(t) => -1800 <= t <= 1800,
        Degrees::Binary(b) => b % 0x8000_0000_0000_0000 <= 0x4066_8000_0000_0000,
    }
}

/// A resolver is taken exactly when its address is one and its position is whole
/// and on the globe, or missing; what is wrong first is said.
pub proof fn entries_need_an_address_and_a_whole_position(entry: Entry)
    ensures
        entry_error(entry) is None <==> address::ip_of(entry.ip@) is Some && (entry.lat is None
            && entry.lon is None || entry.lat is Some && entry.lon is Some && is_latitude(
            entry.lat->0,
        ) && is_longitude(entry.lon->0)),
        address::ip_of(entry.ip@) is None ==> entry_error(entry) == Some(
            seq![
                "resolver "@ + text::quoted_text(entry.name@) + ": invalid IP address "@
                    + text::quoted_text(entry.ip@),
                "invalid IP address syntax"@,
            ],
        ),
        address::ip_of(entry.ip@) is Some && (entry.lat is Some) != (entry.lon is Some)
            ==> entry_error(entry) == Some(
            seq![
                "resolver "@ + text::quoted_text(entry.name@)
                    + ": lat and lon must be given together"@,
            ],
        ),
        address::ip_of(entry.ip@) is Some && entry.lat is Some && entry.lon is Some && !(
        is_latitude(entry.lat->0) && is_longitude(entry.lon->0)) ==> entry_error(entry) == Some(
            seq![
                "resolver "@ + text::quoted_text(entry.name@)
                    + ": lat must be in -90..=90 and lon in -180..=180"@,
            ],
        ),
{
}

/// The resolvers are the built-in ones, unless they are replaced, and behind them
/// those that are written, in order, each with its own name, place, address and
/// position and without a probe.
pub proof fn resolvers_are_added_behind_the_builtin(
    replace: bool,
    entries: Seq<Entry>,
    list: Vec<Resolver>,
    i: int,
)
    requires
        listed(replace, entries, Ok(list)),
        0 <= i < entries.len(),
    ensures
        ({
            let kept: int = if replace {
                0
            } else {
                34
            };
            let one = list@[kept + i];
            &&& list@.len() == kept + entries.len()
            &&& one.name@ == entries[i].name@
            &&& one.location@ == entries[i].location@
            &&& address::ip_of(entries[i].ip@) == Some(one.ip)
            &&& one.probe is None
            &&& entries[i].lat is Some ==> one.coords == Some(
                (entries[i].lat->0, entries[i].lon->0),
            )
            &&& entries[i].lat is None ==> one.coords is None
            &&& !replace ==> resolvers::are_builtin(list@.take(34))
        }),
{
    assert(entry_error(entries[i]) is None);
    assert(is_configured(list@[if replace {
        0
    } else {
        34int
    } + i], entries[i]));
}

/// Resolvers are refused exactly when one is wrong, or when none is left.
pub proof fn only_bad_resolvers_are_refused(
    replace: bool,
    entries: Seq<Entry>,
    out: Result<Vec<Resolver>, ConfigError>,
)
    requires
        listed(replace, entries, out),
    ensures
        out is Err <==> (exists|i: int|
            0 <= i < entries.len() && entry_error(#[trigger] entries[i]) is Some) || replace
            && entries.len() == 0,
{
}

/// Subnets are refused exactly when one is none, and the first that is none is
/// quoted with the reason.
pub proof fn only_bad_subnets_are_refused(
    entries: Seq<Seq<char>>,
    out: Result<Vec<ClientSubnet>, ConfigError>,
    k: int,
)
    requires
        subnets_of(entries, out),
        0 <= k <= entries.len(),
        forall|i: int| 0 <= i < k ==> dns::ecs_of(#[trigger] entries[i]) is Ok,
        k < entries.len() ==> dns::ecs_of(entries[k]) is Err,
    ensures
        k == entries.len() ==> out is Ok && out->Ok_0@.len() == k,
        k == entries.len() ==> forall|i: int|
            0 <= i < k ==> out->Ok_0@[i] == dns::ecs_of(#[trigger] entries[i])->Ok_0,
        k < entries.len() ==> out is Err && out->Err_0@ == seq![
            "ecs entry "@ + text::quoted_text(entries[k]) + ": "@ + dns::ecs_of(entries[k])->Err_0,
        ],
{
    if out is Ok && k < entries.len() {
        assert(dns::ecs_of(entries[k]) is Ok);
    }
}

/// A configuration is taken exactly when its colors, its subnets and its
/// resolvers are, and says of each what they say; the view is taken as it is.
pub proof fn good_configurations_are_taken(config: Config, out: Result<Settings, ConfigError>)
    requires
        settled(config, out),
    ensures
        out is Ok <==> colors_are_good(config.theme) && (forall|i: int|
            0 <= i < config.ecs@.len() ==> dns::ecs_of((#[trigger] config.ecs@[i])@) is Ok) && (
        forall|i: int|
            0 <= i < config.resolvers@.len() ==> entry_error(#[trigger] config.resolvers@[i])
                is None) && !(config.replace && config.resolvers@.len() == 0),
        out is Ok ==> out->Ok_0.view == config.view && themed(config.theme, Ok(out->Ok_0.theme))
            && listed(config.replace, config.resolvers@, Ok(out->Ok_0.resolvers)) && out->Ok_0.ecs@.len()
            == config.ecs@.len(),
{
    let entries = text::texts(config.ecs@);
    assert forall|i: int| 0 <= i < entries.len() implies #[trigger] entries[i]
        == config.ecs@[i]@ by {}
    match out {
        Ok(s) => {
            assert forall|i: int| 0 <= i < 9 implies !#[trigger] role_is_bad(config.theme, i) by {
                assert(role_given(config.theme, i) is Some ==> theme::color_of(
                    role_given(config.theme, i)->0,
                ) == Some(role_color(s.theme, i)));
            }
            assert forall|i: int| 0 <= i < config.ecs@.len() implies dns::ecs_of(
                (#[trigger] config.ecs@[i])@,
            ) is Ok by {
                assert(dns::ecs_of(entries[i]) is Ok);
            }
        },
        Err(e) => {
            if colors_are_good(config.theme) && subnets_of(entries, Err(e)) {
                let i = choose|i: int|
                    {
                        &&& 0 <= i < entries.len()
                        &&& dns::ecs_of(#[trigger] entries[i]) is Err
                        &&& forall|j: int| 0 <= j < i ==> dns::ecs_of(#[trigger] entries[j]) is Ok
                        &&& e@ == seq![bad_subnet(entries[i])]
                    };
                assert(dns::ecs_of(config.ecs@[i]@) is Err);
            }
        },
    }
}

/// With every other color good, a muted color that is none is named.
pub proof fn a_bad_muted_color_is_named_last(table: ThemeTable, e: ConfigError)
    requires
        themed(table, Err(e)),
        !is_no_color(table.accent) && !is_no_color(table.agree) && !is_no_color(table.differ),
        !is_no_color(table.error) && !is_no_color(table.pending) && !is_no_color(table.stale),
        !is_no_color(table.upstream) && !is_no_color(table.coastline) && !is_no_color(table.grid),
    ensures
        table.muted is Some,
        e@ == seq!["theme.muted"@, theme::unrecognized(table.muted->0@)],
{
    assert forall|i: int| 0 <= i < 9 implies !#[trigger] role_is_bad(table, i) by {}
}

/// The first resolver that is wrong is the one that is reported.
pub proof fn the_first_bad_resolver_is_reported(
    replace: bool,
    entries: Seq<Entry>,
    e: ConfigError,
    k: int,
)
    requires
        listed(replace, entries, Err(e)),
        0 <= k <= entries.len(),
        forall|i: int| 0 <= i < k ==> entry_error(#[trigger] entries[i]) is None,
        k < entries.len() ==> entry_error(entries[k]) is Some,
    ensures
        k < entries.len() ==> entry_error(entries[k]) == Some(e@),
        k == entries.len() ==> entries.len() == 0 && e@ == seq![
            "`replace = true` needs at least one [[resolvers]] entry"@,
        ],
{
}

/// Of what is wrong the colors are reported first, then the subnets, then the
/// resolvers.
pub proof fn errors_are_reported_in_order(config: Config, e: ConfigError)
    requires
        settled(config, Err(e)),
    ensures
        !colors_are_good(config.theme) ==> themed(config.theme, Err(e)),
        colors_are_good(config.theme) && !subnets_are_good(text::texts(config.ecs@))
            ==> subnets_of(text::texts(config.ecs@), Err(e)),
        colors_are_good(config.theme) && subnets_are_good(text::texts(config.ecs@)) ==> listed(
            config.replace,
            config.resolvers@,
            Err(e),
        ),
{
}

} // verus!

//! The state of a run: what is asked, what came back, and what is shown.
use std::collections::VecDeque;

use vstd::prelude::*;

use crate::address::IpAddr;
use crate::clock;
use crate::clock::{Duration, Instant};
use crate::dns::{ClientSubnet, QueryOutcome, QueryResult};
use crate::globe;
use crate::globe::GlobeView;
use crate::grouping;
use crate::history;
use crate::history::POLL_INTERVAL;
use crate::input;
use crate::records;
use crate::records::{RecordType, RECORD_TYPES};
use crate::resolvers::Resolver;
use crate::rows;
use crate::rows::{Observation, RowState, TtlVerdict};
use crate::scan;
use crate::sites::{Degrees, Site, SiteProbe};
use crate::summary;
use crate::summary::Summary;
use crate::text;

verus! {

/// A TTL from which on it is worth lowering before a planned change, in seconds.
pub const ADVISORY_TTL: u32 = 3600;

/// The frames of the turning mark.
pub const SPINNER: [char; 10] = ['⠋', '⠙', '⠹', '⠸', '⠼', '⠴', '⠦', '⠧', '⠇', '⠏'];

/// From this body width on, the automatic view is the flat map. The globe is
/// about square, so it stays useful on narrow terminals.
pub const AUTO_FLAT_WIDTH: u16 = 190;

/// Which map panel to show.
#[derive(Debug, Clone, Copy, PartialEq, Eq, Structural)]
pub enum ViewMode {
    /// The globe on narrow terminals, the flat map on wide ones.
    Auto,
    /// Always the flat map.
    Flat,
    /// Always the globe.
    Globe,
}

impl Default for ViewMode {
    fn default() -> (out: ViewMode)
        ensures
            out == ViewMode::Auto,
    {
        ViewMode::Auto
    }
}

/// The order of the table. Equal rows keep the order of the resolver list.
#[derive(Debug, Clone, Copy, PartialEq, Eq, Structural)]
pub enum SortMode {
    Resolver,
    Location,
    Time,
    Status,
    Answer,
}

impl Default for SortMode {
    fn default() -> (out: SortMode)
        ensures
            out == SortMode::Resolver,
    {
        SortMode::Resolver
    }
}

impl SortMode {
    /// The name of the order.
    pub open spec fn title(self) -> Seq<char> {
        match self {
            SortMode::Resolver => "resolver"@,
            SortMode::Location => "location"@,
            SortMode::Time => "time"@,
            SortMode::Status => "status"@,
            SortMode::Answer => "answer"@,
        }
    }

    /// The order that comes after this one.
    pub open spec fn following(self) -> SortMode {
        match self {
            SortMode::Resolver => SortMode::Location,
            SortMode::Location => SortMode::Time,
            SortMode::Time => SortMode::Status,
            SortMode::Status => SortMode::Answer,
            SortMode::Answer => SortMode::Resolver,
        }
    }

    /// The name of the order.
    pub fn label(self) -> (out: &'static str)
        ensures
            out@ == self.title(),
    {
        match self {
            SortMode::Resolver => "resolver",
            SortMode::Location => "location",
            SortMode::Time => "time",
            SortMode::Status => "status",
            SortMode::Answer => "answer",
        }
    }

    /// The order that comes after this one.
    pub fn next(self) -> (out: SortMode)
        ensures
            out == self.following(),
    {
        match self {
            SortMode::Resolver => SortMode::Location,
            SortMode::Location => SortMode::Time,
            SortMode::Time => SortMode::Status,
            SortMode::Status => SortMode::Answer,
            SortMode::Answer => SortMode::Resolver,
        }
    }
}

/// Stepping through the orders visits all five and comes back.
pub proof fn sort_modes_cycle(mode: SortMode)
    ensures
        mode.following().following().following().following().following() == mode,
        mode.following() != mode,
        mode.following().following() != mode,
{
}

/// One round of queries, to be sent.
#[derive(Debug, Clone)]
pub struct Round {
    pub domain: String,
    pub rtype: RecordType,
    pub ecs: Option<ClientSubnet>,
    pub generation: u64,
    /// The resolvers to ask.
    pub indices: Vec<usize>,
}

/// The state of a run.
pub struct App {
    /// The input line.
    pub domain: String,
    /// The cursor in the input line, in bytes.
    pub cursor: usize,
    /// The selected record type.
    pub rtype_idx: usize,
    /// The resolvers to ask.
    pub resolvers: Vec<Resolver>,
    /// One row for each resolver.
    pub rows: Vec<RowState>,
    /// The number of the current round; results of another are stale.
    pub generation: u64,
    pub spinner_frame: usize,
    pub should_quit: bool,
    /// What the current round asks.
    pub queried: Option<(String, RecordType, Option<ClientSubnet>)>,
    /// The client subnets to choose from.
    pub ecs_list: Vec<ClientSubnet>,
    /// The chosen client subnet; none of them, for plain queries.
    pub ecs_sel: Option<usize>,
    /// How far the table is scrolled.
    pub scroll: usize,
    /// Is the table polled until propagation is complete?
    pub auto_refresh: bool,
    /// When the next poll is due.
    pub next_poll: Option<Instant>,
    pub sort: SortMode,
    pub globe: GlobeView,
    pub view_mode: ViewMode,
    /// Has the view been set once? The first time it jumps.
    pub view_synced: bool,
    /// For each resolver, the site that answers us, where it is known.
    pub sites: Vec<Option<Site>>,
    /// For each resolver, its answers over the polls of one watch.
    pub history: Vec<VecDeque<Observation>>,
}

// ---------------------------------------------------------------- the state

impl App {
    /// The lists belong to the same resolvers, and the selections exist.
    pub open spec fn wf(self) -> bool {
        &&& self.rows@.len() <= self.resolvers@.len()
        &&& self.sites@.len() == self.resolvers@.len()
        &&& self.history@.len() == self.resolvers@.len()
        &&& self.rtype_idx < RECORD_TYPES@.len()
        &&& self.ecs_sel matches Some(i) ==> i < self.ecs_list@.len()
        &&& forall|i: int|
            0 <= i < self.history@.len() ==> (#[trigger] self.history@[i])@.len()
                <= history::HISTORY_CAP
    }

    /// The client subnet that the next query carries.
    pub open spec fn subnet(self) -> Option<ClientSubnet> {
        match self.ecs_sel {
            Some(i) => Some(self.ecs_list@[i as int]),
            None => None,
        }
    }

    /// Is any query under way?
    pub open spec fn busy(self) -> bool {
        exists|i: int| 0 <= i < self.rows@.len() && #[trigger] self.rows@[i] is Pending
    }

    /// Where the answers of a resolver come from.
    pub open spec fn location(self, i: int) -> Seq<char> {
        match self.sites@[i] {
            Some(site) => site.code@,
            None => self.resolvers@[i].location@,
        }
    }

    /// A run that has asked nothing yet.
    pub fn new(domain: String, resolvers: Vec<Resolver>, now: Instant) -> (out: App)
        ensures
            out.wf(),
            out.domain == domain,
            out.cursor == input::byte_len(domain@),
            out.rtype_idx == 0,
            out.resolvers == resolvers,
            out.rows@ == Seq::new(resolvers@.len(), |i: int| RowState::Idle),
            out.generation == 0,
            out.spinner_frame == 0,
            !out.should_quit,
            out.queried is None,
            out.ecs_list@.len() == 0,
            out.ecs_sel is None,
            out.scroll == 0,
            !out.auto_refresh,
            out.next_poll is None,
            out.sort == SortMode::Resolver,
            out.globe@ == (globe::GlobeState {
                on: false,
                origin: 0,
                toggled_at: None,
                epoch: now,
            }),
            out.view_mode == ViewMode::Auto,
            !out.view_synced,
            forall|i: int| 0 <= i < out.sites@.len() ==> #[trigger] out.sites@[i] is None,
            forall|i: int|
                0 <= i < out.history@.len() ==> (#[trigger] out.history@[i])@.len() == 0,
    {
        let n = resolvers.len();
        let mut sites: Vec<Option<Site>> = Vec::new();
        let mut i: usize = 0;
        while i < n
            invariant
                i <= n,
                sites@.len() == i,
                forall|k: int| 0 <= k < i ==> #[trigger] sites@[k] is None,
            decreases n - i,
        {
            sites.push(None);
            i += 1;
        }
        App {
            cursor: input::length(domain.as_str()),
            domain,
            rtype_idx: 0,
            rows: fresh_rows(n, false),
            generation: 0,
            spinner_frame: 0,
            should_quit: false,
            queried: None,
            ecs_list: Vec::new(),
            ecs_sel: None,
            scroll: 0,
            auto_refresh: false,
            next_poll: None,
            sort: SortMode::Resolver,
            globe: GlobeView::new(now),
            view_mode: ViewMode::Auto,
            view_synced: false,
            sites,
            history: fresh_history(n),
            resolvers,
        }
    }

    /// Where the answers of a resolver come from: the discovered site when it
    /// is known, else the configured location.
    pub fn effective_location(&self, index: usize) -> (out: &str)
        requires
            index < self.sites@.len(),
            index < self.resolvers@.len(),
        ensures
            out@ == self.location(index as int),
    {
        match &self.sites[index] {
            Some(site) => site.code.as_str(),
            None => self.resolvers[index].location.as_str(),
        }
    }

    /// The map position of a resolver: that of the discovered site when it is
    /// known, else the configured one.
    pub fn effective_coords(&self, index: usize) -> (out: Option<(Degrees, Degrees)>)
        requires
            index < self.sites@.len(),
            index < self.resolvers@.len(),
        ensures
            out == match self.sites@[index as int] {
                Some(site) => match site.coords {
                    Some(at) => Some(at),
                    None => self.resolvers@[index as int].coords,
                },
                None => self.resolvers@[index as int].coords,
            },
    {
        match &self.sites[index] {
            Some(site) => match site.coords {
                Some(at) => Some(at),
                None => self.resolvers[index].coords,
            },
            None => self.resolvers[index].coords,
        }
    }

    /// The selected record type.
    pub fn record_type(&self) -> (out: RecordType)
        requires
            self.rtype_idx < RECORD_TYPES@.len(),
        ensures
            out == RECORD_TYPES@[self.rtype_idx as int],
    {
        RECORD_TYPES[self.rtype_idx]
    }

    /// Is any query under way?
    pub fn in_flight(&self) -> (out: bool)
        ensures
            out == self.busy(),
    {
        let mut i: usize = 0;
        while i < self.rows.len()
            invariant
                i <= self.rows@.len(),
                forall|k: int| 0 <= k < i ==> !(#[trigger] self.rows@[k] is Pending),
            decreases self.rows@.len() - i,
        {
            if matches!(self.rows[i], RowState::Pending) {
                assert(self.rows@[i as int] is Pending);
                return true;
            }
            i += 1;
        }
        false
    }

    /// The tally of the table.
    pub fn summary(&self) -> (out: Summary)
        ensures
            summary::describes(out, self.rows@),
    {
        summary::summarize(&self.rows)
    }

    /// Notes the site that answers for every resolver with this address.
    pub fn set_site(&mut self, ip: IpAddr, site: Site)
        requires
            old(self).wf(),
        ensures
            final(self).wf(),
            *final(self) == (App { sites: final(self).sites, ..*old(self) }),
            forall|i: int|
                0 <= i < old(self).sites@.len() ==> if old(self).resolvers@[i].ip == ip {
                    &&& #[trigger] final(self).sites@[i] matches Some(found)
                    &&& found.code@ == site.code@
                    &&& found.coords == site.coords
                } else {
                    final(self).sites@[i] == old(self).sites@[i]
                },
    {
        let mut i: usize = 0;
        let n = self.resolvers.len();
        while i < n
            invariant
                i <= n,
                n == self.resolvers@.len(),
                self.wf(),
                *self == (App { sites: self.sites, ..*old(self) }),
                self.sites@.len() == old(self).sites@.len(),
                forall|k: int|
                    0 <= k < self.sites@.len() ==> if k < i && old(self).resolvers@[k].ip == ip {
                        &&& #[trigger] self.sites@[k] matches Some(found)
                        &&& found.code@ == site.code@
                        &&& found.coords == site.coords
                    } else {
                        self.sites@[k] == old(self).sites@[k]
                    },
            decreases n - i,
        {
            if self.resolvers[i].ip == ip {
                self.sites.set(i, Some(Site { code: site.code.clone(), coords: site.coords }));
            }
            i += 1;
        }
    }
}

/// A resolver to probe for its site.
#[derive(Debug, Clone, Copy, PartialEq, Eq, Structural)]
pub struct ProbeTarget {
    pub index: usize,
    pub probe: SiteProbe,
    pub ip: IpAddr,
}

/// The resolvers among the first `n` that tell their site.
pub open spec fn probed_below(list: Seq<Resolver>, n: nat) -> Seq<ProbeTarget>
    decreases n,
{
    if n == 0 {
        Seq::empty()
    } else {
        let before = probed_below(list, (n - 1) as nat);
        match list[n - 1].probe {
            Some(probe) => before.push(
                ProbeTarget { index: (n - 1) as usize, probe, ip: list[n - 1].ip },
            ),
            None => before,
        }
    }
}

/// The resolvers that tell their site.
pub fn probe_targets(list: &Vec<Resolver>) -> (out: Vec<ProbeTarget>)
    ensures
        out@ == probed_below(list@, list@.len()),
{
    let mut out: Vec<ProbeTarget> = Vec::new();
    let mut i: usize = 0;
    while i < list.len()
        invariant
            i <= list@.len(),
            out@ == probed_below(list@, i as nat),
        decreases list@.len() - i,
    {
        if let Some(probe) = list[i].probe {
            out.push(ProbeTarget { index: i, probe, ip: list[i].ip });
        }
        i += 1;
    }
    out
}

/// Rows that wait, or rows that have nothing to wait for.
fn fresh_rows(n: usize, pending: bool) -> (out: Vec<RowState>)
    ensures
        out@ == Seq::new(
            n as nat,
            |i: int|
                if pending {
                    RowState::Pending
                } else {
                    RowState::Idle
                },
        ),
{
    let mut out: Vec<RowState> = Vec::new();
    let mut i: usize = 0;
    while i < n
        invariant
            i <= n,
            out@.len() == i,
            forall|k: int|
                0 <= k < i ==> #[trigger] out@[k] == if pending {
                    RowState::Pending
                } else {
                    RowState::Idle
                },
        decreases n - i,
    {
        out.push(
            if pending {
                RowState::Pending
            } else {
                RowState::Idle
            },
        );
        i += 1;
    }
    out
}

/// Histories without observations.
fn fresh_history(n: usize) -> (out: Vec<VecDeque<Observation>>)
    ensures
        out@.len() == n,
        forall|i: int| 0 <= i < n ==> (#[trigger] out@[i])@.len() == 0,
{
    let mut out: Vec<VecDeque<Observation>> = Vec::new();
    let mut i: usize = 0;
    while i < n
        invariant
            i <= n,
            out@.len() == i,
            forall|k: int| 0 <= k < i ==> (#[trigger] out@[k])@.len() == 0,
        decreases n - i,
    {
        out.push(VecDeque::new());
        i += 1;
    }
    out
}

// ---------------------------------------------------------------- the input line

impl App {
    /// Puts a character in at the cursor.
    pub fn insert_char(&mut self, c: char)
        requires
            input::index_at(old(self).domain@, old(self).cursor as nat) is Some,
            old(self).cursor < usize::MAX,
        ensures
            *final(self) == (App {
                domain: final(self).domain,
                cursor: (old(self).cursor + 1) as usize,
                ..*old(self)
            }),
            final(self).domain@ == old(self).domain@.insert(
                input::index_at(old(self).domain@, old(self).cursor as nat)->0 as int,
                c,
            ),
    {
        self.domain = input::inserted(self.domain.as_str(), self.cursor, c);
        self.cursor = self.cursor + 1;
    }

    /// Takes the character before the cursor out.
    pub fn backspace(&mut self)
        requires
            old(self).cursor > 0 ==> {
                &&& input::index_at(old(self).domain@, (old(self).cursor - 1) as nat) is Some
                &&& old(self).cursor <= input::byte_len(old(self).domain@)
            },
        ensures
            if old(self).cursor > 0 {
                &&& *final(self) == (App {
                    domain: final(self).domain,
                    cursor: (old(self).cursor - 1) as usize,
                    ..*old(self)
                })
                &&& final(self).domain@ == old(self).domain@.remove(
                    input::index_at(old(self).domain@, (old(self).cursor - 1) as nat)->0 as int,
                )
            } else {
                *final(self) == *old(self)
            },
    {
        if self.cursor > 0 {
            self.cursor = self.cursor - 1;
            self.domain = input::removed(self.domain.as_str(), self.cursor);
        }
    }

    /// Takes the character behind the cursor out.
    pub fn delete(&mut self)
        requires
            old(self).cursor < input::byte_len(old(self).domain@) ==> input::index_at(
                old(self).domain@,
                old(self).cursor as nat,
            ) is Some,
        ensures
            if old(self).cursor < input::byte_len(old(self).domain@) {
                &&& *final(self) == (App { domain: final(self).domain, ..*old(self) })
                &&& final(self).domain@ == old(self).domain@.remove(
                    input::index_at(old(self).domain@, old(self).cursor as nat)->0 as int,
                )
            } else {
                *final(self) == *old(self)
            },
    {
        if self.cursor < input::length(self.domain.as_str()) {
            self.domain = input::removed(self.domain.as_str(), self.cursor);
        }
    }

    /// Moves the cursor left by one.
    pub fn move_cursor_left(&mut self)
        ensures
            *final(self) == (App {
                cursor: if old(self).cursor > 0 {
                    (old(self).cursor - 1) as usize
                } else {
                    0
                },
                ..*old(self)
            }),
    {
        if self.cursor > 0 {
            self.cursor = self.cursor - 1;
        }
    }

    /// Moves the cursor right by one, up to the end.
    pub fn move_cursor_right(&mut self)
        ensures
            *final(self) == (App { cursor: final(self).cursor, ..*old(self) }),
            final(self).cursor == if old(self).cursor + 1 <= input::byte_len(old(self).domain@) {
                old(self).cursor + 1
            } else {
                input::byte_len(old(self).domain@) as int
            },
    {
        let end = input::length(self.domain.as_str());
        self.cursor = if self.cursor < end {
            self.cursor + 1
        } else {
            end
        };
    }

    /// Moves the cursor to the start of its label, or of the one before when
    /// it stands at a boundary.
    pub fn move_cursor_word_left(&mut self)
        requires
            old(self).cursor <= input::byte_len(old(self).domain@),
        ensures
            *final(self) == (App { cursor: final(self).cursor, ..*old(self) }),
            final(self).cursor == input::word_start(
                input::bytes(old(self).domain@),
                old(self).cursor as int,
            ),
    {
        self.cursor = input::word_left(self.domain.as_str(), self.cursor);
    }

    /// Moves the cursor to the end of its label, or of the next one when it
    /// stands at a boundary. One behind the end of the line stays there.
    pub fn move_cursor_word_right(&mut self)
        ensures
            *final(self) == (App { cursor: final(self).cursor, ..*old(self) }),
            final(self).cursor == input::word_end(
                input::bytes(old(self).domain@),
                old(self).cursor as int,
            ),
    {
        self.cursor = input::word_right(self.domain.as_str(), self.cursor);
    }

    /// Moves the cursor to the start of the line.
    pub fn cursor_home(&mut self)
        ensures
            *final(self) == (App { cursor: 0, ..*old(self) }),
    {
        self.cursor = 0;
    }

    /// Moves the cursor to the end of the line.
    pub fn cursor_end(&mut self)
        ensures
            *final(self) == (App { cursor: final(self).cursor, ..*old(self) }),
            final(self).cursor == input::byte_len(old(self).domain@),
    {
        self.cursor = input::length(self.domain.as_str());
    }

    /// Empties the line.
    pub fn clear_domain(&mut self)
        ensures
            *final(self) == (App { domain: final(self).domain, cursor: 0, ..*old(self) }),
            final(self).domain@ == Seq::<char>::empty(),
    {
        self.domain = String::new();
        self.cursor = 0;
    }
}

// ---------------------------------------------------------------- the view

impl App {
    /// Does this width call for the globe?
    pub open spec fn wants_globe(self, body_width: u16) -> bool {
        match self.view_mode {
            ViewMode::Globe => true,
            ViewMode::Flat => false,
            ViewMode::Auto => body_width < AUTO_FLAT_WIDTH,
        }
    }

    /// Does this width call for the globe?
    pub fn desired_globe(&self, body_width: u16) -> (out: bool)
        ensures
            out == self.wants_globe(body_width),
    {
        match self.view_mode {
            ViewMode::Globe => true,
            ViewMode::Flat => false,
            ViewMode::Auto => body_width < AUTO_FLAT_WIDTH,
        }
    }

    /// Heads for the view that this width calls for. The first time it jumps
    /// there.
    pub fn sync_view(&mut self, body_width: u16, now: Instant)
        ensures
            *final(self) == (App {
                globe: final(self).globe,
                view_synced: true,
                ..*old(self)
            }),
            final(self).globe@ == if old(self).view_synced {
                globe::steered(old(self).globe@, old(self).wants_globe(body_width), now)
            } else {
                globe::snapped(old(self).globe@, old(self).wants_globe(body_width))
            },
    {
        let want = self.desired_globe(body_width);
        if self.view_synced {
            self.globe.set_target(want, now);
        } else {
            self.globe.snap(want);
            self.view_synced = true;
        }
    }

    /// Turns the view around and pins it: a choice by hand should not be
    /// overridden by the next resize.
    pub fn toggle_globe(&mut self, now: Instant)
        ensures
            *final(self) == (App {
                view_mode: if old(self).globe@.on {
                    ViewMode::Flat
                } else {
                    ViewMode::Globe
                },
                globe: final(self).globe,
                ..*old(self)
            }),
            final(self).globe@ == globe::toggled(old(self).globe@, now),
            forall|width: u16| #[trigger] final(self).wants_globe(width) == final(self).globe@.on,
    {
        self.view_mode = if self.globe.target() {
            ViewMode::Flat
        } else {
            ViewMode::Globe
        };
        self.globe.set_target(self.view_mode == ViewMode::Globe, now);
    }
}

// ---------------------------------------------------------------- selections

impl App {
    /// Selects the next record type, or the one before.
    pub fn cycle_record_type(&mut self, forward: bool)
        requires
            old(self).rtype_idx < RECORD_TYPES@.len(),
        ensures
            *final(self) == (App { rtype_idx: final(self).rtype_idx, ..*old(self) }),
            final(self).rtype_idx == next_type(old(self).rtype_idx as int, forward),
    {
        let n: usize = RECORD_TYPES.len();
        self.rtype_idx = if forward {
            (self.rtype_idx + 1) % n
        } else {
            (self.rtype_idx + n - 1) % n
        };
    }

    /// Selects this record type.
    pub fn select_record_type(&mut self, rtype: RecordType)
        ensures
            *final(self) == (App { rtype_idx: final(self).rtype_idx, ..*old(self) }),
            final(self).rtype_idx < RECORD_TYPES@.len(),
            RECORD_TYPES@[final(self).rtype_idx as int] == rtype,
    {
        self.rtype_idx = records::index_of_type(rtype);
    }

    /// Sets the client subnets to choose from. The first is selected: who
    /// gives subnets wants to ask with them.
    pub fn set_ecs_list(&mut self, list: Vec<ClientSubnet>)
        ensures
            *final(self) == (App {
                ecs_list: list,
                ecs_sel: if list@.len() == 0 {
                    None
                } else {
                    Some(0)
                },
                ..*old(self)
            }),
    {
        self.ecs_sel = if list.len() == 0 {
            None
        } else {
            Some(0)
        };
        self.ecs_list = list;
    }

    /// The client subnet that the next query carries.
    pub fn active_ecs(&self) -> (out: Option<ClientSubnet>)
        requires
            self.ecs_sel matches Some(i) ==> i < self.ecs_list@.len(),
        ensures
            out == self.subnet(),
    {
        match self.ecs_sel {
            Some(i) => Some(self.ecs_list[i]),
            None => None,
        }
    }

    /// Selects the next client subnet; behind the last one comes none.
    pub fn cycle_ecs(&mut self)
        requires
            old(self).ecs_sel matches Some(i) ==> i < old(self).ecs_list@.len(),
        ensures
            *final(self) == (App {
                ecs_sel: next_subnet(old(self).ecs_sel, old(self).ecs_list@.len()),
                ..*old(self)
            }),
    {
        let n = self.ecs_list.len();
        if n == 0 {
            return ;
        }
        self.ecs_sel = match self.ecs_sel {
            Some(i) => if i < n - 1 {
                Some(i + 1)
            } else {
                None
            },
            None => Some(0),
        };
    }
}

/// The selection behind `sel` among `n` subnets and none.
pub open spec fn next_subnet(sel: Option<usize>, n: nat) -> Option<usize> {
    match sel {
        Some(i) => if i + 1 < n {
            Some((i + 1) as usize)
        } else {
            None
        },
        None => if n > 0 {
            Some(0)
        } else {
            None
        },
    }
}

/// The record type that a selection steps to.
pub open spec fn next_type(idx: int, forward: bool) -> int {
    if forward {
        (idx + 1) % 7
    } else {
        (idx + 6) % 7
    }
}

/// A step forward and a step back cancel out.
pub proof fn type_steps_cancel(idx: int, forward: bool)
    requires
        0 <= idx < 7,
    ensures
        next_type(next_type(idx, forward), !forward) == idx,
        0 <= next_type(idx, forward) < 7,
{
}

/// The `k`-th selection from none on.
pub open spec fn subnet_after(k: nat, n: nat) -> Option<usize>
    decreases k,
{
    if k == 0 {
        None
    } else {
        next_subnet(subnet_after((k - 1) as nat, n), n)
    }
}

/// Stepping through the subnets visits each once, in order, then none, and
/// starts over.
pub proof fn subnet_steps_visit_all(n: nat, k: nat)
    requires
        0 < k <= n,
        n <= usize::MAX,
    ensures
        subnet_after(k, n) == Some((k - 1) as usize),
        subnet_after(n + 1, n) == None::<usize>,
{
    subnet_reaches(n, k);
    subnet_reaches(n, n);
    assert(subnet_after(n + 1, n) == next_subnet(subnet_after(n, n), n));
}

/// The `k`-th selection is the `k`-th subnet.
proof fn subnet_reaches(n: nat, k: nat)
    requires
        0 < k <= n,
        n <= usize::MAX,
    ensures
        subnet_after(k, n) == Some((k - 1) as usize),
    decreases k,
{
    let before = subnet_after((k - 1) as nat, n);
    assert(subnet_after(k, n) == next_subnet(before, n));
    if k > 1 {
        subnet_reaches(n, (k - 1) as nat);
    }
}

// ---------------------------------------------------------------- rounds

/// The name that an input line stands for.
pub open spec fn query_name(s: Seq<char>) -> Seq<char> {
    scan::trim_end(scan::trim(s), scan::Class::Only('.'))
}

/// Must row `i` be asked again? An answer of the majority cannot have changed
/// while its TTL runs; everything else can.
pub open spec fn is_due(list: Seq<RowState>, now: Instant, i: int) -> bool {
    !(grouping::in_majority(grouping::answers(list), i) && rows::has_records(list[i])
        && rows::ttl_left(list[i], now) > 0)
}

/// The rows below `n` that must be asked again.
pub open spec fn due_rows(list: Seq<RowState>, now: Instant, n: nat) -> Seq<usize>
    decreases n,
{
    if n == 0 {
        Seq::empty()
    } else if is_due(list, now, n - 1) {
        due_rows(list, now, (n - 1) as nat).push((n - 1) as usize)
    } else {
        due_rows(list, now, (n - 1) as nat)
    }
}

/// Is `round` a round that asks every resolver of `app` for this?
pub open spec fn asks_all(
    round: Round,
    app: App,
    domain: Seq<char>,
    rtype: RecordType,
    ecs: Option<ClientSubnet>,
) -> bool {
    &&& round.domain@ == domain
    &&& round.rtype == rtype
    &&& round.ecs == ecs
    &&& round.generation == app.generation
    &&& round.indices@ == Seq::new(app.resolvers@.len(), |i: int| i as usize)
}

/// Is `now` the state `before` with a fresh round armed for this?
pub open spec fn armed(
    now: App,
    before: App,
    domain: Seq<char>,
    rtype: RecordType,
    ecs: Option<ClientSubnet>,
) -> bool {
    &&& now == (App {
        generation: (before.generation + 1) as u64,
        rows: now.rows,
        history: now.history,
        queried: now.queried,
        auto_refresh: now.auto_refresh,
        next_poll: now.next_poll,
        ..before
    })
    &&& now.rows@ == Seq::new(before.resolvers@.len(), |i: int| RowState::Pending)
    &&& now.history@.len() == before.resolvers@.len()
    &&& forall|i: int| 0 <= i < now.history@.len() ==> (#[trigger] now.history@[i])@.len() == 0
    &&& now.queried matches Some((d, t, e))
    &&& d@ == domain
    &&& t == rtype
    &&& e == ecs
}

impl App {
    /// Resets every row and arms a round of all resolvers. The histories go
    /// too: answers to another question cannot be compared.
    fn arm_round(&mut self, domain: String, rtype: RecordType) -> (out: Round)
        requires
            old(self).wf(),
            old(self).generation < u64::MAX,
        ensures
            final(self).wf(),
            armed(*final(self), *old(self), domain@, rtype, old(self).subnet()),
            final(self).auto_refresh == old(self).auto_refresh,
            final(self).next_poll == old(self).next_poll,
            asks_all(out, *final(self), domain@, rtype, old(self).subnet()),
    {
        let n = self.resolvers.len();
        self.generation = self.generation + 1;
        self.rows = fresh_rows(n, true);
        assert(self.rows@ =~= Seq::new(n as nat, |i: int| RowState::Pending));
        self.history = fresh_history(n);
        let ecs = self.active_ecs();
        self.queried = Some((domain.clone(), rtype, ecs));
        let mut indices: Vec<usize> = Vec::new();
        let mut i: usize = 0;
        while i < n
            invariant
                i <= n,
                indices@ == Seq::new(i as nat, |k: int| k as usize),
            decreases n - i,
        {
            indices.push(i);
            assert(indices@ =~= Seq::new((i + 1) as nat, |k: int| k as usize));
            i += 1;
        }
        Round { domain, rtype, ecs, generation: self.generation, indices }
    }

    /// Arms a round for the input line. None when the line names nothing.
    pub fn begin_query(&mut self) -> (out: Option<Round>)
        requires
            old(self).wf(),
            old(self).generation < u64::MAX,
        ensures
            final(self).wf(),
            match out {
                Some(round) => {
                    let name = query_name(old(self).domain@);
                    let rtype = RECORD_TYPES@[old(self).rtype_idx as int];
                    &&& name.len() > 0
                    &&& armed(*final(self), *old(self), name, rtype, old(self).subnet())
                    &&& final(self).auto_refresh == old(self).auto_refresh
                    &&& final(self).next_poll == old(self).next_poll
                    &&& asks_all(round, *final(self), name, rtype, old(self).subnet())
                },
                None => query_name(old(self).domain@).len() == 0 && *final(self) == *old(self),
            },
    {
        let trimmed = scan::trimmed(self.domain.as_str());
        let name = scan::without_end(&trimmed, scan::Class::Only('.'));
        if name.len() == 0 {
            return None;
        }
        let rtype = self.record_type();
        Some(self.arm_round(text::whole_string(&name), rtype))
    }

    /// Arms a fresh round for the name asked for last, with the current
    /// selections. None before the first query.
    pub fn begin_reselect(&mut self) -> (out: Option<Round>)
        requires
            old(self).wf(),
            old(self).generation < u64::MAX,
        ensures
            final(self).wf(),
            match out {
                Some(round) => {
                    let rtype = RECORD_TYPES@[old(self).rtype_idx as int];
                    &&& old(self).queried matches Some((d, _, _))
                    &&& armed(*final(self), *old(self), d@, rtype, old(self).subnet())
                    &&& final(self).auto_refresh == old(self).auto_refresh
                    &&& final(self).next_poll == old(self).next_poll
                    &&& asks_all(round, *final(self), d@, rtype, old(self).subnet())
                },
                None => old(self).queried is None && *final(self) == *old(self),
            },
    {
        let domain = match &self.queried {
            Some((domain, _, _)) => domain.clone(),
            None => {
                return None;
            },
        };
        let rtype = self.record_type();
        Some(self.arm_round(domain, rtype))
    }

    /// Arms a poll of what was asked for last, of the rows that must be asked
    /// again. It stays with the client subnet of that round: answers for
    /// different subnets cannot be compared. None when nothing was asked, or
    /// no row is due.
    pub fn begin_requery(&mut self, now: Instant) -> (out: Option<Round>)
        requires
            old(self).wf(),
            old(self).generation < u64::MAX,
        ensures
            final(self).wf(),
            repolled(*final(self), *old(self), now, out),
            out is Some ==> final(self).next_poll == old(self).next_poll,
    {
        let (domain, rtype, ecs) = match &self.queried {
            Some((domain, rtype, ecs)) => (domain.clone(), *rtype, *ecs),
            None => {
                return None;
            },
        };
        let tally = self.summary();
        let n = self.rows.len();
        let mut indices: Vec<usize> = Vec::new();
        let mut i: usize = 0;
        while i < n
            invariant
                i <= n,
                n == self.rows@.len(),
                *self == *old(self),
                summary::describes(tally, self.rows@),
                indices@ == due_rows(self.rows@, now, i as nat),
            decreases n - i,
        {
            let fresh = match self.rows[i].remaining_ttl(now) {
                Some(left) => !left.is_zero(),
                None => false,
            };
            if !(tally.majority_rows[i] && fresh) {
                indices.push(i);
            }
            i += 1;
        }
        if indices.len() == 0 {
            return None;
        }
        self.generation = self.generation + 1;
        let mut j: usize = 0;
        proof {
            due_rows_listed(old(self).rows@, now, n as nat);
        }
        while j < indices.len()
            invariant
                j <= indices@.len(),
                n == old(self).rows@.len(),
                indices@ == due_rows(old(self).rows@, now, n as nat),
                forall|k: int| 0 <= k < indices@.len() ==> (#[trigger] indices@[k]) < n,
                *self == (App {
                    generation: (old(self).generation + 1) as u64,
                    rows: self.rows,
                    ..*old(self)
                }),
                self.rows@.len() == n,
                forall|i: int|
                    0 <= i < n ==> #[trigger] self.rows@[i] == if indices@.take(
                        j as int,
                    ).contains(i as usize) {
                        RowState::Pending
                    } else {
                        old(self).rows@[i]
                    },
            decreases indices@.len() - j,
        {
            let ghost before = indices@.take(j as int);
            let ghost after = indices@.take(j + 1);
            let ghost held = self.rows@;
            let at = indices[j];
            self.rows.set(at, RowState::Pending);
            proof {
                assert(after =~= before.push(at));
                assert forall|i: int| 0 <= i < n implies #[trigger] self.rows@[i] == if after.contains(
                    i as usize,
                ) {
                    RowState::Pending
                } else {
                    old(self).rows@[i]
                } by {
                    if before.contains(i as usize) {
                        let k = choose|k: int| 0 <= k < before.len() && before[k] == i as usize;
                        assert(after[k] == i as usize);
                    }
                    if i == at {
                        assert(after[j as int] == i as usize);
                    }
                    if after.contains(i as usize) && i != at {
                        let k = choose|k: int| 0 <= k < after.len() && after[k] == i as usize;
                        assert(before[k] == i as usize);
                    }
                    assert(i != at ==> self.rows@[i] == held[i]);
                }
            }
            j += 1;
        }
        proof {
            assert(indices@.take(j as int) =~= indices@);
            assert forall|i: int| 0 <= i < n implies #[trigger] self.rows@[i] == if is_due(
                old(self).rows@,
                now,
                i,
            ) {
                RowState::Pending
            } else {
                old(self).rows@[i]
            } by {
                due_rows_complete(old(self).rows@, now, n as nat, i);
            }
        }
        Some(Round { domain, rtype, ecs, generation: self.generation, indices })
    }
}

/// Is `now` the state `before` after a poll was armed, and `out` the poll?
pub open spec fn repolled(now: App, before: App, at: Instant, out: Option<Round>) -> bool {
    let due = due_rows(before.rows@, at, before.rows@.len());
    match out {
        Some(round) => {
            &&& before.queried matches Some((d, t, e))
            &&& round.domain@ == d@
            &&& round.rtype == t
            &&& round.ecs == e
            &&& round.generation == now.generation
            &&& round.indices@ == due
            &&& due.len() > 0
            &&& now == (App {
                generation: (before.generation + 1) as u64,
                rows: now.rows,
                next_poll: now.next_poll,
                ..before
            })
            &&& now.rows@.len() == before.rows@.len()
            &&& forall|i: int|
                0 <= i < now.rows@.len() ==> #[trigger] now.rows@[i] == if is_due(
                    before.rows@,
                    at,
                    i,
                ) {
                    RowState::Pending
                } else {
                    before.rows@[i]
                }
        },
        None => (before.queried is None || due.len() == 0) && now == before,
    }
}

/// The rows that must be asked again are rows of the table, in order.
pub proof fn due_rows_listed(list: Seq<RowState>, now: Instant, n: nat)
    requires
        n <= list.len(),
        list.len() <= usize::MAX,
    ensures
        forall|k: int|
            0 <= k < due_rows(list, now, n).len() ==> (#[trigger] due_rows(list, now, n)[k]) < n
                && is_due(list, now, due_rows(list, now, n)[k] as int),
        forall|j: int, k: int|
            0 <= j < k < due_rows(list, now, n).len() ==> (#[trigger] due_rows(list, now, n)[j])
                < #[trigger] due_rows(list, now, n)[k],
    decreases n,
{
    if n > 0 {
        let shorter = due_rows(list, now, (n - 1) as nat);
        let longer = due_rows(list, now, n);
        due_rows_listed(list, now, (n - 1) as nat);
        assert forall|k: int| 0 <= k < longer.len() implies (#[trigger] longer[k]) < n && is_due(
            list,
            now,
            longer[k] as int,
        ) by {
            if k < shorter.len() {
                assert(longer[k] == shorter[k]);
            }
        }
        assert forall|j: int, k: int| 0 <= j < k < longer.len() implies (#[trigger] longer[j])
            < #[trigger] longer[k] by {
            assert(longer[j] == shorter[j]);
            if k < shorter.len() {
                assert(longer[k] == shorter[k]);
            }
        }
    }
}

/// A row is listed exactly when it must be asked again.
pub proof fn due_rows_complete(list: Seq<RowState>, now: Instant, n: nat, i: int)
    requires
        0 <= i < n <= list.len(),
        list.len() <= usize::MAX,
    ensures
        due_rows(list, now, n).contains(i as usize) <==> is_due(list, now, i),
    decreases n,
{
    let shorter = due_rows(list, now, (n - 1) as nat);
    let longer = due_rows(list, now, n);
    due_rows_listed(list, now, (n - 1) as nat);
    if i == n - 1 {
        if is_due(list, now, i) {
            assert(longer[longer.len() - 1] == i as usize);
        } else if longer.contains(i as usize) {
            let k = choose|k: int| 0 <= k < longer.len() && longer[k] == i as usize;
            assert(shorter[k] < n - 1);
        }
    } else {
        due_rows_complete(list, now, (n - 1) as nat, i);
        if shorter.contains(i as usize) {
            let k = choose|k: int| 0 <= k < shorter.len() && shorter[k] == i as usize;
            assert(longer[k] == i as usize);
        }
        if longer.contains(i as usize) {
            let k = choose|k: int| 0 <= k < longer.len() && longer[k] == i as usize;
            assert(shorter[k] == i as usize);
        }
    }
}

/// A row that disagrees with the majority, or has no records, is always asked
/// again; so is one whose TTL has run out.
pub proof fn only_fresh_agreeing_rows_are_skipped(list: Seq<RowState>, now: Instant, i: int)
    requires
        0 <= i < list.len(),
        !grouping::in_majority(grouping::answers(list), i) || !rows::has_records(list[i])
            || rows::ttl_left(list[i], now) == 0,
    ensures
        is_due(list, now, i),
{
}

// ---------------------------------------------------------------- results

/// Is `now` the state `before` after the result `outcome` came in at `at`?
pub open spec fn applied(now: App, before: App, outcome: QueryOutcome, at: Instant) -> bool {
    if outcome.generation != before.generation {
        now == before
    } else {
        let i = outcome.resolver_index as int;
        &&& now == (App { rows: now.rows, history: now.history, ..before })
        &&& now.rows@ == before.rows@.update(
            i,
            RowState::Done {
                result: outcome.result,
                elapsed: outcome.elapsed,
                at,
                ecs_honored: outcome.ecs_honored,
            },
        )
        &&& now.history@ == before.history@.update(i, now.history@[i])
        &&& match outcome.result {
            QueryResult::Records { values, min_ttl } => {
                let kept = now.history@[i]@;
                &&& kept.len() > 0
                &&& kept == history::remembered(before.history@[i]@, kept.last())
                &&& text::texts(kept.last().values@) == text::texts(values@)
                &&& kept.last().min_ttl == min_ttl
                &&& kept.last().at == at
            },
            _ => now.history@[i] == before.history@[i],
        }
    }
}

/// Is `now` the state `before` with a new round armed, a fresh one or a poll?
pub open spec fn rearmed(now: App, before: App) -> bool {
    ||| exists|domain: Seq<char>, rtype: RecordType, ecs: Option<ClientSubnet>| #[trigger]
        armed(now, before, domain, rtype, ecs)
    ||| exists|at: Instant, round: Round| #[trigger] repolled(now, before, at, Some(round))
}

/// Once a new round is armed, be it a fresh one or a poll, the results of all
/// earlier ones change nothing.
pub proof fn superseded_results_change_nothing(
    before: App,
    mid: App,
    after: App,
    outcome: QueryOutcome,
    at: Instant,
)
    requires
        before.generation < u64::MAX,
        rearmed(mid, before),
        outcome.generation <= before.generation,
        applied(after, mid, outcome, at),
    ensures
        after == mid,
{
}

impl App {
    /// Takes a result in. One of another round is stale and changes nothing.
    pub fn apply(&mut self, outcome: QueryOutcome, now: Instant)
        requires
            old(self).wf(),
            outcome.generation == old(self).generation ==> outcome.resolver_index
                < old(self).rows@.len(),
        ensures
            final(self).wf(),
            applied(*final(self), *old(self), outcome, now),
    {
        if outcome.generation != self.generation {
            return ;
        }
        let i = outcome.resolver_index;
        if let QueryResult::Records { values, min_ttl } = &outcome.result {
            let seen = Observation { values: text::copy_list(values), min_ttl: *min_ttl, at: now };
            history::remember(&mut self.history[i], seen);
            assert(self.history@[i as int]@.last() == seen);
        }
        assert(self.history@ =~= old(self).history@.update(i as int, self.history@[i as int]));
        self.rows.set(
            i,
            RowState::Done {
                result: outcome.result,
                elapsed: outcome.elapsed,
                at: now,
                ecs_honored: outcome.ecs_honored,
            },
        );
    }

    /// What the answers of a resolver say of its cache. Meant for rows that
    /// disagree with the majority: in others the same is normal operation.
    pub fn ttl_verdict(&self, index: usize, now: Instant) -> (out: Option<TtlVerdict>)
        requires
            index < self.history@.len(),
        ensures
            out == history::verdict(self.history@[index as int]@, now),
    {
        history::judge(&self.history[index], now)
    }
}

/// Is row `i` one of the rows marked with `marked` that hold records?
pub open spec fn marked_records(list: Seq<RowState>, marks: Seq<bool>, marked: bool, i: int) -> bool {
    0 <= i < list.len() && marks[i] == marked && rows::has_records(list[i])
}

/// Is `out` the largest TTL of the rows in the majority?
pub open spec fn largest_ttl(list: Seq<RowState>, marks: Seq<bool>, out: Option<u32>) -> bool {
    match out {
        Some(most) => {
            &&& exists|i: int| #[trigger]
                marked_records(list, marks, true, i) && rows::reported_ttl(list[i]) == most
            &&& forall|i: int| #[trigger]
                marked_records(list, marks, true, i) ==> rows::reported_ttl(list[i]) <= most
        },
        None => forall|i: int| !#[trigger] marked_records(list, marks, true, i),
    }
}

/// Is `out` the longest time left among the rows outside the majority?
pub open spec fn longest_left(
    list: Seq<RowState>,
    marks: Seq<bool>,
    now: Instant,
    out: Option<Duration>,
) -> bool {
    match out {
        Some(most) => {
            &&& exists|i: int| #[trigger]
                marked_records(list, marks, false, i) && rows::ttl_left(list[i], now) == most.nanos
            &&& forall|i: int| #[trigger]
                marked_records(list, marks, false, i) ==> rows::ttl_left(list[i], now)
                    <= most.nanos
        },
        None => forall|i: int| !#[trigger] marked_records(list, marks, false, i),
    }
}

impl App {
    /// The TTL that the record is likely set to: the largest that a row of the
    /// majority reports. A resolver that has just fetched it reports nearly all
    /// of it.
    pub fn estimated_ttl(&self, tally: &Summary) -> (out: Option<u32>)
        requires
            tally.majority_rows@.len() >= self.rows@.len(),
        ensures
            largest_ttl(self.rows@, tally.majority_rows@, out),
    {
        let ghost marks = tally.majority_rows@;
        let mut most: Option<u32> = None;
        let ghost mut at: int = 0;
        let mut i: usize = 0;
        while i < self.rows.len()
            invariant
                i <= self.rows@.len(),
                marks == tally.majority_rows@,
                marks.len() >= self.rows@.len(),
                match most {
                    Some(m) => {
                        &&& 0 <= at < i
                        &&& marked_records(self.rows@, marks, true, at)
                        &&& rows::reported_ttl(self.rows@[at]) == m
                        &&& forall|k: int|
                            k < i && #[trigger] marked_records(self.rows@, marks, true, k)
                                ==> rows::reported_ttl(self.rows@[k]) <= m
                    },
                    None => forall|k: int|
                        k < i ==> !#[trigger] marked_records(self.rows@, marks, true, k),
                },
            decreases self.rows@.len() - i,
        {
            if tally.majority_rows[i] {
                if let RowState::Done { result: QueryResult::Records { min_ttl, .. }, .. } =
                    &self.rows[i] {
                    let more = match most {
                        Some(m) => *min_ttl > m,
                        None => true,
                    };
                    if more {
                        most = Some(*min_ttl);
                        proof {
                            at = i as int;
                        }
                    }
                }
            }
            i += 1;
        }
        most
    }

    /// How long it can take until every cache outside the majority must have
    /// fetched the record anew. None when nothing differs.
    pub fn stale_expiry_bound(&self, tally: &Summary, now: Instant) -> (out: Option<Duration>)
        requires
            tally.majority_rows@.len() >= self.rows@.len(),
        ensures
            longest_left(self.rows@, tally.majority_rows@, now, out),
    {
        let ghost marks = tally.majority_rows@;
        let mut most: Option<Duration> = None;
        let ghost mut at: int = 0;
        let mut i: usize = 0;
        while i < self.rows.len()
            invariant
                i <= self.rows@.len(),
                marks == tally.majority_rows@,
                marks.len() >= self.rows@.len(),
                match most {
                    Some(m) => {
                        &&& 0 <= at < i
                        &&& marked_records(self.rows@, marks, false, at)
                        &&& rows::ttl_left(self.rows@[at], now) == m.nanos
                        &&& forall|k: int|
                            k < i && #[trigger] marked_records(self.rows@, marks, false, k)
                                ==> rows::ttl_left(self.rows@[k], now) <= m.nanos
                    },
                    None => forall|k: int|
                        k < i ==> !#[trigger] marked_records(self.rows@, marks, false, k),
                },
            decreases self.rows@.len() - i,
        {
            if !tally.majority_rows[i] {
                if let Some(left) = self.rows[i].remaining_ttl(now) {
                    let more = match most {
                        Some(m) => left.nanos > m.nanos,
                        None => true,
                    };
                    if more {
                        most = Some(left);
                        proof {
                            at = i as int;
                        }
                    }
                }
            }
            i += 1;
        }
        most
    }
}

// ---------------------------------------------------------------- the watch

/// Is `now` the state `before` after a round for the input line was armed and
/// the watch turned on, and `out` the round?
pub open spec fn started(now: App, before: App, out: Option<Round>) -> bool {
    let name = query_name(before.domain@);
    let rtype = RECORD_TYPES@[before.rtype_idx as int];
    match out {
        Some(round) => {
            &&& name.len() > 0
            &&& armed(now, before, name, rtype, before.subnet())
            &&& now.auto_refresh
            &&& now.next_poll is None
            &&& asks_all(round, now, name, rtype, before.subnet())
        },
        None => name.len() == 0 && now == before,
    }
}

/// Is `now` the state `before` after a round for the name asked for last was
/// armed with the current selections, and `out` the round?
pub open spec fn reselected(now: App, before: App, out: Option<Round>) -> bool {
    let rtype = RECORD_TYPES@[before.rtype_idx as int];
    match out {
        Some(round) => {
            &&& before.queried matches Some((d, _, _))
            &&& armed(now, before, d@, rtype, before.subnet())
            &&& now.auto_refresh == before.auto_refresh
            &&& now.next_poll is None
            &&& asks_all(round, now, d@, rtype, before.subnet())
        },
        None => before.queried is None && now == before,
    }
}

/// Is `now` the state `before` after the watch was turned on or off, and `out`
/// the poll that came of it?
pub open spec fn watch_toggled(now: App, before: App, at: Instant, out: Option<Round>) -> bool {
    if before.auto_refresh || before.next_poll is Some {
        &&& out is None
        &&& now == (App { auto_refresh: false, next_poll: None, ..before })
    } else if before.queried is None {
        &&& out is None
        &&& now == before
    } else if before.busy() {
        &&& out is None
        &&& now == (App { auto_refresh: true, ..before })
    } else {
        &&& repolled(now, App { auto_refresh: true, ..before }, at, out)
        &&& now.next_poll is None
    }
}

impl App {
    /// Arms a round for the input line and turns the watch on.
    pub fn start_query(&mut self) -> (out: Option<Round>)
        requires
            old(self).wf(),
            old(self).generation < u64::MAX,
        ensures
            final(self).wf(),
            started(*final(self), *old(self), out),
    {
        match self.begin_query() {
            Some(round) => {
                self.auto_refresh = true;
                self.next_poll = None;
                Some(round)
            },
            None => None,
        }
    }

    /// Arms a fresh round for the name asked for last, with the current
    /// selections.
    pub fn requery_selection(&mut self) -> (out: Option<Round>)
        requires
            old(self).wf(),
            old(self).generation < u64::MAX,
        ensures
            final(self).wf(),
            reselected(*final(self), *old(self), out),
    {
        match self.begin_reselect() {
            Some(round) => {
                self.next_poll = None;
                Some(round)
            },
            None => None,
        }
    }

    /// Arms a poll of what was asked for last.
    pub fn poll_query(&mut self, now: Instant) -> (out: Option<Round>)
        requires
            old(self).wf(),
            old(self).generation < u64::MAX,
        ensures
            final(self).wf(),
            repolled(*final(self), *old(self), now, out),
            out is Some ==> final(self).next_poll is None,
    {
        match self.begin_requery(now) {
            Some(round) => {
                self.next_poll = None;
                Some(round)
            },
            None => None,
        }
    }

    /// Turns the watch off if it is on or a poll is due; else, once something
    /// was asked, turns it on and polls at once unless queries are under way.
    pub fn toggle_watch(&mut self, now: Instant) -> (out: Option<Round>)
        requires
            old(self).wf(),
            old(self).generation < u64::MAX,
        ensures
            final(self).wf(),
            watch_toggled(*final(self), *old(self), now, out),
    {
        if self.auto_refresh || self.next_poll.is_some() {
            self.auto_refresh = false;
            self.next_poll = None;
            None
        } else if self.queried.is_some() {
            self.auto_refresh = true;
            if !self.in_flight() {
                self.poll_query(now)
            } else {
                None
            }
        } else {
            None
        }
    }

    /// What to do when results have come in: once the round is complete, stop
    /// watching if the record has propagated, else plan the next poll.
    pub fn settle(&mut self, now: Instant)
        requires
            old(self).wf(),
        ensures
            final(self).wf(),
            if old(self).busy() {
                *final(self) == *old(self)
            } else if summary::propagated(old(self).rows@) {
                *final(self) == (App { auto_refresh: false, next_poll: None, ..*old(self) })
            } else if old(self).auto_refresh {
                &&& *final(self) == (App { next_poll: final(self).next_poll, ..*old(self) })
                &&& final(self).next_poll is Some
                &&& final(self).next_poll->0.nanos == poll_after(now)
            } else {
                *final(self) == *old(self)
            },
            *final(self) == (App {
                auto_refresh: final(self).auto_refresh,
                next_poll: final(self).next_poll,
                ..*old(self)
            }),
            old(self).auto_refresh && !final(self).auto_refresh ==> summary::propagated(
                old(self).rows@,
            ),
            !old(self).auto_refresh ==> !final(self).auto_refresh,
            old(self).auto_refresh && final(self).auto_refresh && !old(self).busy() && now.nanos
                + 30_000_000_000 <= u64::MAX ==> final(self).next_poll == Some(
                Instant { nanos: (now.nanos + 30_000_000_000) as u64 },
            ),
    {
        if self.in_flight() {
            return ;
        }
        let tally = self.summary();
        proof {
            summary::complete_means_one_group(tally, self.rows@);
        }
        if tally.responding > 0 && tally.agree == tally.responding {
            self.auto_refresh = false;
            self.next_poll = None;
        } else if self.auto_refresh {
            self.next_poll = Some(now.saturating_add(Duration::from_secs(POLL_INTERVAL)));
        }
    }

    /// What to do at each tick of the clock: turn the mark while queries are
    /// under way, else poll when a poll is due.
    pub fn tick(&mut self, now: Instant) -> (out: Option<Round>)
        requires
            old(self).wf(),
            old(self).generation < u64::MAX,
        ensures
            final(self).wf(),
            if old(self).busy() {
                &&& out is None
                &&& *final(self) == (App {
                    spinner_frame: if old(self).spinner_frame == usize::MAX {
                        0
                    } else {
                        (old(self).spinner_frame + 1) as usize
                    },
                    ..*old(self)
                })
            } else if old(self).next_poll is Some && now.nanos >= old(self).next_poll->0.nanos {
                &&& repolled(*final(self), *old(self), now, out)
                &&& out is Some ==> final(self).next_poll is None
            } else {
                &&& out is None
                &&& *final(self) == *old(self)
            },
    {
        if self.in_flight() {
            self.spinner_frame = self.spinner_frame.wrapping_add(1);
            return None;
        }
        match self.next_poll {
            Some(at) => if now.nanos >= at.nanos {
                self.poll_query(now)
            } else {
                None
            },
            None => None,
        }
    }
}

/// When the poll after `now` is due.
pub open spec fn poll_after(now: Instant) -> int {
    let span = POLL_INTERVAL * clock::NANOS_PER_SEC;
    if now.nanos + span <= u64::MAX {
        now.nanos + span
    } else {
        u64::MAX as int
    }
}

// ---------------------------------------------------------------- durations

/// A span of seconds in words: `42s`, `4m10s`, `23h59m`, `2d3h`. Two units at
/// most keep it within a narrow column.
pub open spec fn span_text(total: nat) -> Seq<char> {
    let days = total / 86400;
    let hours = (total % 86400) / 3600;
    let mins = (total % 3600) / 60;
    let secs = total % 60;
    if days > 0 {
        text::decimal(days) + "d"@ + text::decimal(hours) + "h"@
    } else if hours > 0 {
        text::decimal(hours) + "h"@ + text::two_digits(mins) + "m"@
    } else if mins > 0 {
        text::decimal(mins) + "m"@ + text::two_digits(secs) + "s"@
    } else {
        text::decimal(secs) + "s"@
    }
}

/// A span of seconds in words.
pub fn fmt_secs(total: u64) -> (out: String)
    ensures
        out@ == span_text(total as nat),
{
    let days: u64 = total / 86400;
    let hours: u64 = (total % 86400) / 3600;
    let mins: u64 = (total % 3600) / 60;
    let secs: u64 = total % 60;
    if days > 0 {
        text::decimal_string(days).concat("d").concat(text::decimal_string(hours).as_str()).concat(
            "h",
        )
    } else if hours > 0 {
        text::decimal_string(hours).concat("h").concat(
            text::two_digits_string(mins).as_str(),
        ).concat("m")
    } else if mins > 0 {
        text::decimal_string(mins).concat("m").concat(
            text::two_digits_string(secs).as_str(),
        ).concat("s")
    } else {
        text::decimal_string(secs).concat("s")
    }
}

// ---------------------------------------------------------------- laws

/// Is row `i` marked in the tally as one of the majority, with records whose
/// reported TTL has not run out at `at`?
pub open spec fn cannot_have_changed(before: App, tally: Summary, at: Instant, i: int) -> bool {
    &&& tally.majority_rows@[i]
    &&& before.rows@[i] is Done
    &&& before.rows@[i]->result is Records
    &&& at.nanos < before.rows@[i]->at.nanos + before.rows@[i]->result->min_ttl * 1_000_000_000
    &&& before.rows@[i]->result->min_ttl > 0
}

/// A poll asks again exactly the rows whose answer can have changed. A row of the
/// majority with any time left is not among them and stays as it is; every other
/// row is among them and waits.
pub proof fn polls_ask_what_can_have_changed(
    now: App,
    before: App,
    at: Instant,
    round: Round,
    tally: Summary,
    i: int,
)
    requires
        repolled(now, before, at, Some(round)),
        summary::describes(tally, before.rows@),
        before.rows@.len() <= usize::MAX,
        0 <= i < before.rows@.len(),
    ensures
        now.rows@.len() == before.rows@.len(),
        cannot_have_changed(before, tally, at, i) ==> !round.indices@.contains(i as usize)
            && now.rows@[i] == before.rows@[i],
        !cannot_have_changed(before, tally, at, i) ==> round.indices@.contains(i as usize)
            && now.rows@[i] is Pending,
{
    due_rows_complete(before.rows@, at, before.rows@.len(), i);
    assert(tally.majority_rows@[i] == grouping::in_majority(grouping::answers(before.rows@), i));
    assert(now.rows@[i] == if is_due(before.rows@, at, i) {
        RowState::Pending
    } else {
        before.rows@[i]
    });
}

/// A row with records that is in the majority and has time left is not due,
/// however much is left; every other row is.
pub proof fn fresh_agreeing_rows_are_skipped(list: Seq<RowState>, now: Instant, i: int)
    ensures
        grouping::in_majority(grouping::answers(list), i) && rows::has_records(list[i])
            && rows::ttl_left(list[i], now) > 0 <==> !is_due(list, now, i),
{
}

/// A poll asks rows of the table, each once, in order, and for what was asked
/// last; it is a new round, and changes nothing but the rows that it asks and
/// when the next poll is.
pub proof fn polls_repeat_the_last_question(now: App, before: App, at: Instant, round: Round)
    requires
        repolled(now, before, at, Some(round)),
        before.rows@.len() <= usize::MAX,
        before.generation < u64::MAX,
    ensures
        before.queried is Some,
        round.domain@ == (before.queried->0).0@,
        round.rtype == (before.queried->0).1,
        round.ecs == (before.queried->0).2,
        round.generation == before.generation + 1,
        now.generation == before.generation + 1,
        now.queried == before.queried,
        now.history == before.history,
        now.resolvers == before.resolvers,
        now.sites == before.sites,
        now.auto_refresh == before.auto_refresh,
        round.indices@.len() > 0,
        forall|j: int, k: int|
            0 <= j < k < round.indices@.len() ==> (#[trigger] round.indices@[j])
                < #[trigger] round.indices@[k],
        forall|k: int|
            0 <= k < round.indices@.len() ==> (#[trigger] round.indices@[k]) < before.rows@.len(),
{
    due_rows_listed(before.rows@, at, before.rows@.len());
}

/// A poll is armed as soon as something was asked and some row can have changed.
pub proof fn polls_happen_when_something_is_due(
    now: App,
    before: App,
    at: Instant,
    out: Option<Round>,
    i: int,
)
    requires
        repolled(now, before, at, out),
        before.queried is Some,
        before.rows@.len() <= usize::MAX,
        0 <= i < before.rows@.len(),
        !(before.rows@[i] is Done && before.rows@[i]->result is Records)
            || before.rows@[i]->at.nanos + before.rows@[i]->result->min_ttl * 1_000_000_000
            <= at.nanos,
    ensures
        out is Some,
{
    due_rows_complete(before.rows@, at, before.rows@.len(), i);
}

/// A fresh round asks every resolver once, in order; every row waits, and nothing
/// is remembered of earlier answers.
pub proof fn fresh_rounds_ask_everyone(
    now: App,
    before: App,
    domain: Seq<char>,
    rtype: RecordType,
    ecs: Option<ClientSubnet>,
    round: Round,
    i: int,
)
    requires
        armed(now, before, domain, rtype, ecs),
        asks_all(round, now, domain, rtype, ecs),
        before.generation < u64::MAX,
        before.resolvers@.len() <= usize::MAX,
        0 <= i < before.resolvers@.len(),
    ensures
        round.domain@ == domain && round.rtype == rtype && round.ecs == ecs,
        round.generation == before.generation + 1 && now.generation == before.generation + 1,
        round.indices@.len() == before.resolvers@.len(),
        round.indices@[i] == i,
        now.rows@.len() == before.resolvers@.len(),
        now.rows@[i] is Pending,
        now.history@.len() == before.resolvers@.len(),
        now.history@[i]@.len() == 0,
        now.queried is Some && (now.queried->0).0@ == domain && (now.queried->0).1 == rtype
            && (now.queried->0).2 == ecs,
        now.domain == before.domain && now.cursor == before.cursor,
        now.resolvers == before.resolvers && now.sites == before.sites,
        now.ecs_list == before.ecs_list && now.ecs_sel == before.ecs_sel && now.rtype_idx
            == before.rtype_idx,
        now.busy(),
{
    assert(now.rows@[i] is Pending);
}

/// A query asks for the line without white space around it and dots behind it,
/// with the selected type and subnet, and turns the watch on; a line that names
/// nothing asks nothing.
pub proof fn queries_ask_for_the_line(
    now: App,
    before: App,
    out: Option<Round>,
    space: Seq<char>,
    name: Seq<char>,
    dots: Seq<char>,
    behind: Seq<char>,
)
    requires
        started(now, before, out),
        before.domain@ == space + (name + dots) + behind,
        forall|i: int| 0 <= i < space.len() ==> scan::Class::Space.holds(#[trigger] space[i]),
        forall|i: int| 0 <= i < behind.len() ==> scan::Class::Space.holds(#[trigger] behind[i]),
        forall|i: int| 0 <= i < dots.len() ==> #[trigger] dots[i] == '.',
        name.len() > 0 ==> !scan::Class::Space.holds(name[0]) && !scan::Class::Space.holds(
            name.last(),
        ) && name.last() != '.',
    ensures
        out is Some <==> name.len() > 0,
        out is None ==> now == before,
        out is Some ==> {
            &&& out->0.domain@ == name
            &&& out->0.rtype == RECORD_TYPES@[before.rtype_idx as int]
            &&& out->0.ecs == before.subnet()
            &&& now.auto_refresh
            &&& now.next_poll is None
        },
{
    let s = name + dots;
    let class = scan::Class::Only('.');
    if s.len() > 0 {
        if name.len() > 0 {
            assert(s[0] == name[0]);
        } else {
            assert(s[0] == dots[0]);
        }
        if dots.len() > 0 {
            assert(s.last() == dots[dots.len() - 1]);
        } else {
            assert(s.last() == name.last());
        }
    }
    scan::trimming_finds_the_text_within(space, s, behind);
    scan::trimming_the_end_takes_the_class_off(s, class);
    let t = scan::trim_end(s, class);
    if t.len() < name.len() {
        assert(class.holds(s[name.len() - 1]));
        assert(s[name.len() - 1] == name.last());
    }
    if t.len() > name.len() {
        assert(t.last() == s[t.len() - 1]);
        assert(s[t.len() - 1] == dots[t.len() - 1 - name.len()]);
    }
    assert(t =~= name);
}

/// Changing a selection asks the last name again, with the selected type and
/// subnet, and leaves the watch as it is; before the first query it asks nothing.
pub proof fn selections_ask_again(now: App, before: App, out: Option<Round>)
    requires
        reselected(now, before, out),
    ensures
        out is Some <==> before.queried is Some,
        out is None ==> now == before,
        out is Some ==> {
            &&& out->0.domain@ == (before.queried->0).0@
            &&& out->0.rtype == RECORD_TYPES@[before.rtype_idx as int]
            &&& out->0.ecs == before.subnet()
            &&& now.auto_refresh == before.auto_refresh
            &&& now.next_poll is None
        },
{
}

/// The subnet of the next query is the selected one of the list.
pub proof fn the_selected_subnet_is_asked_with(state: App)
    ensures
        state.ecs_sel is None ==> state.subnet() is None,
        state.ecs_sel is Some ==> state.subnet() == Some(
            state.ecs_list@[state.ecs_sel->0 as int],
        ),
{
}

/// A watch that is on, or a poll that is planned, is turned off; otherwise,
/// once something was asked, the watch is turned on, and polls at once unless a
/// query is under way.
pub proof fn the_watch_is_turned_off_and_on(now: App, before: App, at: Instant, out: Option<Round>)
    requires
        watch_toggled(now, before, at, out),
    ensures
        before.auto_refresh || before.next_poll is Some ==> !now.auto_refresh && now.next_poll is None
            && out is None && now.rows == before.rows && now.generation == before.generation,
        !before.auto_refresh && before.next_poll is None && before.queried is None ==> now == before
            && out is None,
        !before.auto_refresh && before.next_poll is None && before.queried is Some
            ==> now.auto_refresh && now.next_poll is None,
        !before.auto_refresh && before.next_poll is None && before.queried is Some && before.busy()
            ==> out is None && now.rows == before.rows,
        !before.auto_refresh && before.next_poll is None && before.queried is Some
            && !before.busy() ==> repolled(now, App { auto_refresh: true, ..before }, at, out),
{
}

/// Queries are under way exactly when some row waits.
pub proof fn rounds_last_while_a_row_waits(state: App)
    ensures
        state.busy() <==> exists|i: int|
            0 <= i < state.rows@.len() && #[trigger] state.rows@[i] is Pending,
{
}

/// The next poll is 30 seconds away.
pub proof fn polls_are_thirty_seconds_apart(now: Instant)
    requires
        now.nanos + 30_000_000_000 <= u64::MAX,
    ensures
        poll_after(now) == now.nanos + 30_000_000_000,
{
}

/// A result of the current round is put into its row, with the time at which it
/// came; no other row changes. Record values are remembered behind the earlier
/// answers of that resolver, and nothing else is.
pub proof fn results_go_into_their_row(
    now: App,
    before: App,
    outcome: QueryOutcome,
    at: Instant,
    j: int,
)
    requires
        applied(now, before, outcome, at),
        outcome.generation == before.generation,
        outcome.resolver_index < before.rows@.len(),
        before.rows@.len() <= before.history@.len(),
        0 <= j < before.rows@.len(),
        before.history@[j]@.len() <= 32,
    ensures
        now.rows@.len() == before.rows@.len(),
        now.history@.len() == before.history@.len(),
        j == outcome.resolver_index ==> now.rows@[j] == (RowState::Done {
            result: outcome.result,
            elapsed: outcome.elapsed,
            at,
            ecs_honored: outcome.ecs_honored,
        }),
        j != outcome.resolver_index ==> now.rows@[j] == before.rows@[j] && now.history@[j]
            == before.history@[j],
        !(outcome.result is Records) ==> now.history@[j] == before.history@[j],
        j == outcome.resolver_index && outcome.result is Records ==> {
            let (kept, had) = (now.history@[j]@, before.history@[j]@);
            &&& kept.len() == if had.len() < 32 {
                had.len() + 1
            } else {
                32
            }
            &&& text::texts(kept.last().values@) == text::texts(outcome.result->values@)
            &&& kept.last().min_ttl == outcome.result->min_ttl
            &&& kept.last().at == at
            &&& forall|back: int|
                1 <= back < kept.len() ==> kept[kept.len() - 1 - back] == #[trigger] had[had.len()
                    - back]
        },
        now.generation == before.generation && now.queried == before.queried && now.resolvers
            == before.resolvers && now.auto_refresh == before.auto_refresh && now.next_poll
            == before.next_poll,
{
    if j == outcome.resolver_index && outcome.result is Records {
        history::the_last_answers_are_kept(before.history@[j]@, now.history@[j]@.last());
    }
}

/// The estimate is the largest TTL of the marked rows with records; there is none
/// exactly when no marked row has records.
pub proof fn the_estimate_is_the_largest_ttl(
    list: Seq<RowState>,
    marks: Seq<bool>,
    out: Option<u32>,
    i: int,
)
    requires
        largest_ttl(list, marks, out),
        0 <= i < list.len(),
        marks[i],
        list[i] is Done,
        list[i]->result is Records,
    ensures
        out is Some,
        list[i]->result->min_ttl <= out->0,
        exists|k: int|
            0 <= k < list.len() && marks[k] && list[k] is Done && (#[trigger] list[k])->result
                is Records && list[k]->result->min_ttl == out->0,
{
    assert(marked_records(list, marks, true, i));
    let k = choose|k: int| #[trigger]
        marked_records(list, marks, true, k) && rows::reported_ttl(list[k]) == out->0;
    assert(list[k]->result is Records);
}

/// Without a marked row that has records there is no estimate, and without an
/// unmarked one there is no old answer to expire.
pub proof fn nothing_to_go_by_gives_nothing(
    list: Seq<RowState>,
    marks: Seq<bool>,
    now: Instant,
    estimate: Option<u32>,
    bound: Option<Duration>,
)
    requires
        largest_ttl(list, marks, estimate),
        longest_left(list, marks, now, bound),
    ensures
        (forall|i: int|
            0 <= i < list.len() && marks[i] ==> !((#[trigger] list[i]) is Done && list[i]->result
                is Records)) ==> estimate is None,
        (forall|i: int|
            0 <= i < list.len() && !marks[i] ==> !((#[trigger] list[i]) is Done && list[i]->result
                is Records)) ==> bound is None,
{
}

/// The bound is the longest time that a row with records outside the majority
/// has left.
pub proof fn the_bound_is_the_longest_time_left(
    list: Seq<RowState>,
    marks: Seq<bool>,
    now: Instant,
    out: Option<Duration>,
    i: int,
)
    requires
        longest_left(list, marks, now, out),
        0 <= i < list.len(),
        !marks[i],
        list[i] is Done,
        list[i]->result is Records,
        list[i]->at.nanos <= now.nanos,
    ensures
        out is Some,
        list[i]->at.nanos + list[i]->result->min_ttl * 1_000_000_000 <= now.nanos + out->0.nanos,
        exists|k: int|
            0 <= k < list.len() && !marks[k] && (#[trigger] list[k]) is Done && list[k]->result
                is Records && rows::ttl_left(list[k], now) == out->0.nanos,
{
    assert(marked_records(list, marks, false, i));
    let k = choose|k: int| #[trigger]
        marked_records(list, marks, false, k) && rows::ttl_left(list[k], now) == out->0.nanos;
    assert(list[k]->result is Records);
}

/// The automatic view is the globe below 190 columns and the flat map from there
/// on; a chosen view is shown at any width.
pub proof fn views_follow_choice_and_width(state: App, width: u16)
    ensures
        state.view_mode == ViewMode::Globe ==> state.wants_globe(width),
        state.view_mode == ViewMode::Flat ==> !state.wants_globe(width),
        state.view_mode == ViewMode::Auto ==> state.wants_globe(width) == (width < 190),
{
}

/// A step forward goes to the next type, and from the last to the first.
pub proof fn types_step_one_by_one(idx: int)
    requires
        0 <= idx < 7,
    ensures
        next_type(idx, true) == if idx < 6 {
            idx + 1
        } else {
            0
        },
        next_type(idx, false) == if idx > 0 {
            idx - 1
        } else {
            6
        },
{
}

/// A step goes to the next subnet, from the last to none, and from none to the
/// first.
pub proof fn subnets_step_one_by_one(i: usize, n: nat)
    requires
        i < n <= usize::MAX,
    ensures
        next_subnet(Some(i), n) == if i + 1 < n {
            Some((i + 1) as usize)
        } else {
            None
        },
        next_subnet(None, n) == Some(0usize),
        next_subnet(None, 0) is None,
{
}

/// The orders come one after the other, and have these names.
pub proof fn sort_modes_come_in_order()
    ensures
        SortMode::Resolver.following() == SortMode::Location,
        SortMode::Location.following() == SortMode::Time,
        SortMode::Time.following() == SortMode::Status,
        SortMode::Status.following() == SortMode::Answer,
        SortMode::Answer.following() == SortMode::Resolver,
        SortMode::Resolver.title() == "resolver"@,
        SortMode::Location.title() == "location"@,
        SortMode::Time.title() == "time"@,
        SortMode::Status.title() == "status"@,
        SortMode::Answer.title() == "answer"@,
{
}

/// The resolvers that are probed are those with a probe, each once, in order,
/// with their own probe and address.
pub proof fn resolvers_with_a_probe_are_probed(list: Seq<Resolver>, n: nat)
    requires
        n <= list.len() <= usize::MAX,
    ensures
        forall|k: int|
            0 <= k < probed_below(list, n).len() ==> {
                let target = #[trigger] probed_below(list, n)[k];
                &&& target.index < n
                &&& list[target.index as int].probe == Some(target.probe)
                &&& list[target.index as int].ip == target.ip
            },
        forall|j: int, k: int|
            0 <= j < k < probed_below(list, n).len() ==> (#[trigger] probed_below(list, n)[j]).index
                < (#[trigger] probed_below(list, n)[k]).index,
        forall|i: int|
            0 <= i < n && (#[trigger] list[i]).probe is Some ==> exists|k: int|
                0 <= k < probed_below(list, n).len() && (#[trigger] probed_below(list, n)[k]).index
                    == i,
    decreases n,
{
    if n > 0 {
        let front = probed_below(list, (n - 1) as nat);
        let all = probed_below(list, n);
        resolvers_with_a_probe_are_probed(list, (n - 1) as nat);
        assert forall|i: int| 0 <= i < n && (#[trigger] list[i]).probe is Some implies exists|k: int|
            0 <= k < all.len() && (#[trigger] all[k]).index == i by {
            if i < n - 1 {
                let k = choose|k: int| 0 <= k < front.len() && (#[trigger] front[k]).index == i;
                assert(all[k].index == i);
            } else {
                assert(all[all.len() - 1].index == i);
            }
        }
        assert forall|k: int| 0 <= k < all.len() implies {
            let target = #[trigger] all[k];
            &&& target.index < n
            &&& list[target.index as int].probe == Some(target.probe)
            &&& list[target.index as int].ip == target.ip
        } by {
            if k < front.len() {
                assert(all[k] == front[k]);
            }
        }
        assert forall|j: int, k: int| 0 <= j < k < all.len() implies (#[trigger] all[j]).index < (
        #[trigger] all[k]).index by {
            assert(all[j] == front[j]);
            if k < front.len() {
                assert(all[k] == front[k]);
            }
        }
    }
}

/// A span is written in its two largest units, the smaller of them with two
/// digits below an hour or a day.
pub proof fn spans_are_written_in_two_units(d: nat, h: nat, m: nat, s: nat)
    requires
        h < 24,
        m < 60,
        s < 60,
    ensures
        ({
            let words = span_text(86400 * d + 3600 * h + 60 * m + s);
            &&& d > 0 ==> words == text::decimal(d) + "d"@ + text::decimal(h) + "h"@
            &&& d == 0 && h > 0 ==> words == text::decimal(h) + "h"@ + text::two_digits(m) + "m"@
            &&& d == 0 && h == 0 && m > 0 ==> words == text::decimal(m) + "m"@ + text::two_digits(s)
                + "s"@
            &&& d == 0 && h == 0 && m == 0 ==> words == text::decimal(s) + "s"@
        }),
{
}

/// A poll is passed over exactly when nothing was asked, or when no answer can
/// have changed; then everything stays as it is.
pub proof fn polls_are_passed_over_when_nothing_can_have_changed(
    now: App,
    before: App,
    at: Instant,
    out: Option<Round>,
    tally: Summary,
)
    requires
        repolled(now, before, at, out),
        summary::describes(tally, before.rows@),
        before.rows@.len() <= usize::MAX,
    ensures
        out is None <==> before.queried is None || forall|i: int|
            0 <= i < before.rows@.len() ==> #[trigger] cannot_have_changed(before, tally, at, i),
        out is None ==> now == before,
{
    let n = before.rows@.len();
    let due = due_rows(before.rows@, at, n);
    due_rows_listed(before.rows@, at, n);
    assert forall|i: int| 0 <= i < n implies #[trigger] cannot_have_changed(before, tally, at, i)
        == !is_due(before.rows@, at, i) by {
        assert(tally.majority_rows@[i] == grouping::in_majority(
            grouping::answers(before.rows@),
            i,
        ));
    }
    if out is None && before.queried is Some {
        assert forall|i: int| 0 <= i < n implies #[trigger] cannot_have_changed(
            before,
            tally,
            at,
            i,
        ) by {
            due_rows_complete(before.rows@, at, n, i);
        }
    }
    if let Some(round) = out {
        let i = due[0] as int;
        due_rows_complete(before.rows@, at, n, i);
        assert(due.contains(i as usize));
        assert(!cannot_have_changed(before, tally, at, i));
    }
}

/// The place of a resolver is that of the site that answers, once it is known.
pub proof fn places_are_those_of_the_site(state: App, i: int)
    ensures
        state.sites@[i] is Some ==> state.location(i) == state.sites@[i]->0.code@,
        state.sites@[i] is None ==> state.location(i) == state.resolvers@[i].location@,
{
}

/// A query arms a fresh round for the name in the line, and a selection one for
/// the name asked for last.
pub proof fn queries_and_selections_arm_fresh_rounds(now: App, before: App, round: Round)
    ensures
        started(now, before, Some(round)) ==> armed(
            now,
            before,
            round.domain@,
            RECORD_TYPES@[before.rtype_idx as int],
            before.subnet(),
        ) && asks_all(
            round,
            now,
            round.domain@,
            RECORD_TYPES@[before.rtype_idx as int],
            before.subnet(),
        ),
        reselected(now, before, Some(round)) ==> armed(
            now,
            before,
            (before.queried->0).0@,
            RECORD_TYPES@[before.rtype_idx as int],
            before.subnet(),
        ) && asks_all(
            round,
            now,
            (before.queried->0).0@,
            RECORD_TYPES@[before.rtype_idx as int],
            before.subnet(),
        ),
{
}

/// A fresh round changes the rows, what is remembered, the question and the watch,
/// and nothing else; a poll changes the rows and when the next one is; a result
/// changes the rows and what is remembered.
pub proof fn rounds_and_results_leave_the_rest(
    now: App,
    before: App,
    domain: Seq<char>,
    rtype: RecordType,
    ecs: Option<ClientSubnet>,
    round: Round,
    outcome: QueryOutcome,
    at: Instant,
)
    ensures
        armed(now, before, domain, rtype, ecs) ==> now == (App {
            generation: now.generation,
            rows: now.rows,
            history: now.history,
            queried: now.queried,
            auto_refresh: now.auto_refresh,
            next_poll: now.next_poll,
            ..before
        }),
        repolled(now, before, at, Some(round)) ==> now == (App {
            generation: now.generation,
            rows: now.rows,
            next_poll: now.next_poll,
            ..before
        }),
        applied(now, before, outcome, at) ==> now == (App {
            rows: now.rows,
            history: now.history,
            ..before
        }),
        applied(now, before, outcome, at) && outcome.generation != before.generation ==> now
            == before,
{
}

/// Turning the watch off or on changes the watch alone, but for the poll that
/// comes at once.
pub proof fn turning_the_watch_leaves_the_rest(
    now: App,
    before: App,
    at: Instant,
    out: Option<Round>,
)
    requires
        watch_toggled(now, before, at, out),
    ensures
        before.auto_refresh || before.next_poll is Some ==> now == (App {
            auto_refresh: false,
            next_poll: None,
            ..before
        }),
        !before.auto_refresh && before.next_poll is None && before.queried is Some && before.busy()
            ==> now == (App { auto_refresh: true, ..before }),
        out is None ==> now.rows == before.rows && now.generation == before.generation,
        now.queried == before.queried && now.history == before.history && now.resolvers
            == before.resolvers,
{
}

} // verus!

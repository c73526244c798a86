//! What stands around the table: header, gauge, footer, info box, dialog.
use vstd::prelude::*;

use crate::app;
use crate::app::{App, ADVISORY_TTL};
use crate::clock;
use crate::clock::{Instant, NANOS_PER_SEC};
use crate::dns;
use crate::input;
use crate::records::RECORD_TYPES;
use crate::runs;
use crate::runs::{Run, RunView};
use crate::summary::Summary;
use crate::table;
use crate::text;
use crate::theme;
use crate::theme::{Color, Look, Theme};

verus! {

/// The columns that the table needs.
pub const TABLE_WIDTH: u16 = 103;

/// From this body width on, there is room for the flat map.
pub const MIN_WIDTH_FOR_MAP: u16 = 157;

/// From this body width on, there is room for the globe.
pub const MIN_WIDTH_FOR_GLOBE: u16 = 131;

// ---------------------------------------------------------------- the layout

/// How the screen is divided.
#[derive(Debug, Clone, Copy, PartialEq, Eq, Structural)]
pub struct Rows {
    pub header: u16,
    pub footer: u16,
}

/// How many rows the header and the footer take. The header has one more when
/// there are client subnets, the footer when there is advice.
pub fn screen_rows(subnets: bool, advice: bool) -> (out: Rows)
    ensures
        out.header == if subnets {
            5
        } else {
            4int
        },
        out.footer == if advice {
            3
        } else {
            2int
        },
{
    Rows {
        header: if subnets {
            5
        } else {
            4
        },
        footer: if advice {
            3
        } else {
            2
        },
    }
}

/// Is there room for the map panel?
pub fn shows_map(body_width: u16, globe: bool) -> (out: bool)
    ensures
        out == (body_width >= if globe {
            MIN_WIDTH_FOR_GLOBE
        } else {
            MIN_WIDTH_FOR_MAP
        }),
        body_width >= 157 ==> out,
        body_width < 131 ==> !out,
        131 <= body_width < 157 ==> out == globe,
{
    body_width >= if globe {
        MIN_WIDTH_FOR_GLOBE
    } else {
        MIN_WIDTH_FOR_MAP
    }
}

/// The columns that are left for the map panel.
pub fn map_columns(body_width: u16) -> (out: u16)
    ensures
        out == clock::minus(body_width as int, TABLE_WIDTH as int),
        body_width >= 103 ==> out + 103 == body_width,
        body_width <= 103 ==> out == 0,
{
    if body_width > TABLE_WIDTH {
        body_width - TABLE_WIDTH
    } else {
        0
    }
}

/// Has the round settled? Comparing answers earlier would make rows flap.
pub fn is_complete(state: &App, tally: &Summary) -> (out: bool)
    ensures
        out == (tally.done > 0 && !state.busy()),
{
    tally.done > 0 && !state.in_flight()
}

/// How many rows the info box below the map takes: borders and legend, and the
/// majority's answer, or a note to wait. Of an answer of many values no more
/// than twenty count, so that it does not crush the globe.
pub open spec fn info_height(state: App, tally: Summary, complete: bool) -> int {
    let values = tally.majority_values@.len() as int;
    if complete && values > 0 {
        6 + if values < 20 {
            values
        } else {
            20
        }
    } else if state.queried is Some && state.busy() {
        6
    } else {
        4
    }
}

/// How many rows the info box below the map takes.
pub fn info_rows(state: &App, tally: &Summary, complete: bool) -> (out: u16)
    ensures
        out == info_height(*state, *tally, complete),
{
    let values = tally.majority_values.len();
    if complete && values > 0 {
        6 + if values < 20 {
            values as u16
        } else {
            20
        }
    } else if state.queried.is_some() && state.in_flight() {
        6
    } else {
        4
    }
}

// ---------------------------------------------------------------- advice

/// Is the TTL so long that lowering it before a change is worth saying? Said
/// once the record has propagated: in the middle of a change it comes too late.
pub open spec fn long_ttl(tally: Summary, estimate: Option<u32>) -> Option<u32> {
    if tally.responding > 0 && tally.agree == tally.responding && estimate is Some && estimate->0
        >= ADVISORY_TTL {
        estimate
    } else {
        None
    }
}

/// The advice to lower a TTL.
pub open spec fn advice_text(ttl: u32) -> Seq<char> {
    "TTL ≈ "@ + app::span_text(ttl as nat)
        + " — planning a record change? Lower the TTL first, then wait one old-TTL period before switching."@
}

/// The long TTL to speak of, if there is one.
pub fn long_ttl_of(state: &App, tally: &Summary) -> (out: Option<u32>)
    requires
        tally.majority_rows@.len() >= state.rows@.len(),
    ensures
        exists|estimate: Option<u32>| #[trigger]
            app::largest_ttl(state.rows@, tally.majority_rows@, estimate) && out == long_ttl(
                *tally,
                estimate,
            ),
{
    let estimate = state.estimated_ttl(tally);
    assert(app::largest_ttl(state.rows@, tally.majority_rows@, estimate));
    if tally.responding > 0 && tally.agree == tally.responding {
        match estimate {
            Some(ttl) => if ttl >= ADVISORY_TTL {
                Some(ttl)
            } else {
                None
            },
            None => None,
        }
    } else {
        None
    }
}

/// The advice of the footer, if there is any.
pub fn ttl_advisory(state: &App, tally: &Summary, complete: bool) -> (out: Option<String>)
    requires
        tally.majority_rows@.len() >= state.rows@.len(),
    ensures
        exists|estimate: Option<u32>|
            {
                &&& #[trigger] app::largest_ttl(state.rows@, tally.majority_rows@, estimate)
                &&& match out {
                    Some(advice) => complete && long_ttl(*tally, estimate) is Some && advice@
                        == advice_text(long_ttl(*tally, estimate)->0),
                    None => !complete || long_ttl(*tally, estimate) is None,
                }
            },
{
    let found = long_ttl_of(state, tally);
    let ghost estimate = choose|estimate: Option<u32>| #[trigger]
        app::largest_ttl(state.rows@, tally.majority_rows@, estimate) && found == long_ttl(
            *tally,
            estimate,
        );
    assert(app::largest_ttl(state.rows@, tally.majority_rows@, estimate));
    match found {
        Some(ttl) => if complete {
            Some(
                "TTL ≈ ".to_owned().concat(app::fmt_secs(ttl as u64).as_str()).concat(
                    " — planning a record change? Lower the TTL first, then wait one old-TTL period before switching.",
                ),
            )
        } else {
            None
        },
        None => None,
    }
}

// ---------------------------------------------------------------- the header

/// How the selected one of several choices looks.
pub open spec fn chosen(th: Theme) -> Look {
    Look { fg: Some(Color::Black), bg: Some(th.accent), ..theme::bold(theme::plain()) }
}

/// How the selected one of several choices looks.
fn chosen_look(th: &Theme) -> (out: Look)
    ensures
        out == chosen(*th),
{
    Look { fg: Some(Color::Black), bg: Some(th.accent), bold: true, italic: false, dim: false }
}

/// The line with the input, and the cursor in it.
pub open spec fn input_line(line: Seq<char>, split: int, th: Theme) -> Seq<RunView> {
    seq![
        runs::run(" Domain: "@, th.muted.look()),
        runs::run(line.take(split), theme::bold(theme::plain())),
        runs::run("▏"@, theme::colored(th.accent)),
        runs::run(line.skip(split), theme::bold(theme::plain())),
    ]
}

/// The line with the record types, up to the `n`-th.
pub open spec fn types_line(selected: int, th: Theme, n: nat) -> Seq<RunView>
    decreases n,
{
    if n == 0 {
        seq![runs::run(" Type:   "@, th.muted.look())]
    } else {
        types_line(selected, th, (n - 1) as nat) + seq![
            runs::run(
                " "@ + RECORD_TYPES@[n - 1].label() + " "@,
                if n - 1 == selected {
                    chosen(th)
                } else {
                    th.muted.look()
                },
            ),
            runs::raw(" "@),
        ]
    }
}

/// The line with the client subnet.
pub open spec fn subnet_line(state: App, th: Theme) -> Seq<RunView> {
    let label = runs::run(" ECS:    "@, th.muted.look());
    match state.ecs_sel {
        Some(i) => {
            let shown = runs::run(
                " "@ + dns::ecs_text(state.ecs_list@[i as int]) + " "@,
                chosen(th),
            );
            if state.ecs_list@.len() > 1 {
                seq![
                    label,
                    shown,
                    runs::run(
                        " "@ + text::decimal((i + 1) as nat) + "/"@ + text::decimal(
                            state.ecs_list@.len(),
                        ),
                        th.muted.look(),
                    ),
                ]
            } else {
                seq![label, shown]
            }
        },
        None => seq![label, runs::run(" off "@, th.muted.look())],
    }
}

/// Where the header splits the input line: at the cursor, or at the end when
/// that comes first.
pub open spec fn header_split(state: App) -> nat {
    let end = input::byte_len(state.domain@);
    if state.cursor < end {
        state.cursor as nat
    } else {
        end
    }
}

/// The lines of the header: the input, the record types, and, where there are
/// any to choose from, the client subnet.
pub open spec fn header_text(state: App, th: Theme) -> Seq<Seq<RunView>> {
    let split = input::index_at(state.domain@, header_split(state))->0 as int;
    let always = seq![
        input_line(state.domain@, split, th),
        types_line(state.rtype_idx as int, th, 7),
    ];
    if state.ecs_list@.len() == 0 {
        always
    } else {
        always.push(subnet_line(state, th))
    }
}

/// The line with the record types.
fn type_runs(selected: usize, th: &Theme) -> (out: Vec<Run>)
    ensures
        runs::runs(out@) == types_line(selected as int, *th, 7),
{
    let mut out = runs::line_of(Run::new(" Type:   ", th.muted.style()));
    let mut n: usize = 0;
    while n < 7
        invariant
            n <= 7,
            runs::runs(out@) == types_line(selected as int, *th, n as nat),
        decreases 7 - n,
    {
        let ghost before = runs::runs(out@);
        let label = " ".to_owned().concat(RECORD_TYPES[n].name()).concat(" ");
        let look = if n == selected {
            chosen_look(th)
        } else {
            th.muted.style()
        };
        runs::add_run(&mut out, Run::new(label.as_str(), look));
        runs::add_run(&mut out, Run::raw(" "));
        assert(runs::runs(out@) =~= types_line(selected as int, *th, (n + 1) as nat));
        n += 1;
    }
    out
}

/// The line with the client subnet.
fn subnet_runs(state: &App, th: &Theme) -> (out: Vec<Run>)
    requires
        state.ecs_sel matches Some(i) ==> i < state.ecs_list@.len(),
    ensures
        runs::runs(out@) == subnet_line(*state, *th),
{
    let mut out = runs::line_of(Run::new(" ECS:    ", th.muted.style()));
    match state.ecs_sel {
        Some(i) => {
            let subnet = dns::fmt_ecs(&state.ecs_list[i]);
            runs::add_run(
                &mut out,
                Run::new(
                    " ".to_owned().concat(subnet.as_str()).concat(" ").as_str(),
                    chosen_look(th),
                ),
            );
            let n = state.ecs_list.len();
            if n > 1 {
                let which = " ".to_owned().concat(
                    text::decimal_string((i + 1) as u64).as_str(),
                ).concat("/").concat(text::decimal_string(n as u64).as_str());
                runs::add_run(&mut out, Run::new(which.as_str(), th.muted.style()));
            }
        },
        None => {
            runs::add_run(&mut out, Run::new(" off ", th.muted.style()));
        },
    }
    assert(runs::runs(out@) =~= subnet_line(*state, *th));
    out
}

/// The lines of the header.
pub fn header_lines(state: &App, th: &Theme) -> (out: Vec<Vec<Run>>)
    requires
        state.wf(),
        input::index_at(state.domain@, header_split(*state)) is Some,
    ensures
        runs::lines(out@) == header_text(*state, *th),
{
    let end = input::length(state.domain.as_str());
    let at = if state.cursor < end {
        state.cursor
    } else {
        end
    };
    let (before, after) = input::split_at(state.domain.as_str(), at);
    let ghost split = input::index_at(state.domain@, header_split(*state))->0 as int;
    let mut first = runs::line_of(Run::new(" Domain: ", th.muted.style()));
    runs::add_run(&mut first, Run::new(before.as_str(), Look::new().bold()));
    runs::add_run(&mut first, Run::new("▏", Look::of(th.accent)));
    runs::add_run(&mut first, Run::new(after.as_str(), Look::new().bold()));
    assert(runs::runs(first@) =~= input_line(state.domain@, split, *th));
    let mut out: Vec<Vec<Run>> = Vec::new();
    runs::add_line(&mut out, first);
    runs::add_line(&mut out, type_runs(state.rtype_idx, th));
    if state.ecs_list.len() > 0 {
        runs::add_line(&mut out, subnet_runs(state, th));
    }
    assert(runs::lines(out@) =~= header_text(*state, *th));
    out
}

// ---------------------------------------------------------------- the gauge

/// The gauge.
#[derive(Debug, Clone)]
pub enum Gauge {
    /// Nothing was asked yet.
    Hint(Run),
    /// A bar, filled `part` out of `whole`.
    Bar { part: usize, whole: usize, color: Color, label: String },
}

/// The color of a bar: by how many of those who responded agree.
pub open spec fn agreement_color(agree: int, responding: int, th: Theme) -> Color {
    if 10 * agree >= 9 * responding {
        th.agree
    } else if 2 * agree >= responding {
        th.pending
    } else {
        th.error
    }
}

/// A part of a label that is only there when something was counted.
pub open spec fn note(n: nat, what: Seq<char>) -> Seq<char> {
    if n > 0 {
        " · "@ + text::decimal(n) + what
    } else {
        Seq::empty()
    }
}

/// How long old answers can survive, when some do.
pub open spec fn survival_note(tally: Summary, bound: Option<clock::Duration>) -> Seq<char> {
    if tally.agree < tally.responding && bound is Some {
        " · old answers expire in ≤ "@ + app::span_text((bound->0.nanos / NANOS_PER_SEC) as nat)
    } else {
        Seq::empty()
    }
}

/// What the watch does.
pub open spec fn watch_note(tally: Summary, next_poll: Option<Instant>, now: Instant) -> Seq<char> {
    if tally.responding > 0 && tally.agree == tally.responding {
        " · complete "@
    } else {
        match next_poll {
            Some(at) => " · next poll in "@ + text::decimal(
                (clock::minus(at.nanos as int, now.nanos as int) / (NANOS_PER_SEC as int)) as nat,
            ) + "s (Ctrl+R stops) "@,
            None => " · watch off (Ctrl+R resumes) "@,
        }
    }
}

/// The label of the gauge once a round has settled. `percent` is the rounded
/// share of those who agree.
pub open spec fn settled_label(
    tally: Summary,
    percent: u64,
    bound: Option<clock::Duration>,
    next_poll: Option<Instant>,
    now: Instant,
) -> Seq<char> {
    " propagation "@ + text::decimal(tally.agree as nat) + "/"@ + text::decimal(
        tally.responding as nat,
    ) + " ("@ + text::decimal(percent as nat) + "%)"@ + note(tally.servfail as nat, " servfail"@)
        + note(tally.errors as nat, " unreachable"@) + note(tally.ecs_blind as nat, " no-ecs"@)
        + survival_note(tally, bound) + watch_note(tally, next_poll, now)
}

/// The larger of a number and one.
pub open spec fn at_least_one(n: usize) -> usize {
    if n > 1 {
        n
    } else {
        1
    }
}

/// Is `out` the gauge? `bound` is how long old answers can survive.
pub open spec fn gauged(
    state: App,
    tally: Summary,
    percent: u64,
    bound: Option<clock::Duration>,
    now: Instant,
    th: Theme,
    out: Gauge,
) -> bool {
    if state.queried is None {
        out matches Gauge::Hint(r) && r@ == runs::run(
            "  type a domain and press Enter"@,
            theme::italic(th.muted.look()),
        )
    } else if state.busy() {
        &&& out matches Gauge::Bar { part, whole, color, label }
        &&& part == tally.done
        &&& whole == state.resolvers@.len()
        &&& color == th.accent
        &&& label@ == table::spinner(state.spinner_frame) + " checking… "@ + text::decimal(
            tally.done as nat,
        ) + "/"@ + text::decimal(state.resolvers@.len()) + " "@
    } else {
        &&& out matches Gauge::Bar { part, whole, color, label }
        &&& part == tally.agree
        &&& whole == at_least_one(tally.responding)
        &&& color == agreement_color(
            tally.agree as int,
            at_least_one(tally.responding) as int,
            th,
        )
        &&& label@ == settled_label(tally, percent, bound, state.next_poll, now)
    }
}

/// A part of a label that is only there when something was counted.
fn note_string(n: usize, what: &str) -> (out: String)
    ensures
        out@ == note(n as nat, what@),
{
    if n > 0 {
        " · ".to_owned().concat(text::decimal_string(n as u64).as_str()).concat(what)
    } else {
        let out = String::new();
        assert(out@ =~= Seq::<char>::empty());
        out
    }
}

/// The color of a bar.
fn bar_color(agree: usize, responding: usize, th: &Theme) -> (out: Color)
    ensures
        out == agreement_color(agree as int, responding as int, *th),
{
    if 10 * agree as u128 >= 9 * responding as u128 {
        th.agree
    } else if 2 * agree as u128 >= responding as u128 {
        th.pending
    } else {
        th.error
    }
}

/// What the watch does.
fn watch_string(tally: &Summary, next_poll: Option<Instant>, now: Instant) -> (out: String)
    ensures
        out@ == watch_note(*tally, next_poll, now),
{
    if tally.responding > 0 && tally.agree == tally.responding {
        " · complete ".to_owned()
    } else {
        match next_poll {
            Some(at) => " · next poll in ".to_owned().concat(
                text::decimal_string(at.saturating_duration_since(now).as_secs()).as_str(),
            ).concat("s (Ctrl+R stops) "),
            None => " · watch off (Ctrl+R resumes) ".to_owned(),
        }
    }
}

/// The gauge. `percent` is the rounded share of those who responded that agree.
pub fn gauge(state: &App, tally: &Summary, percent: u64, now: Instant, th: &Theme) -> (out: Gauge)
    requires
        tally.majority_rows@.len() >= state.rows@.len(),
    ensures
        exists|bound: Option<clock::Duration>| #[trigger]
            app::longest_left(state.rows@, tally.majority_rows@, now, bound) && gauged(
                *state,
                *tally,
                percent,
                bound,
                now,
                *th,
                out,
            ),
{
    let bound = state.stale_expiry_bound(tally, now);
    assert(app::longest_left(state.rows@, tally.majority_rows@, now, bound));
    if state.queried.is_none() {
        return Gauge::Hint(Run::new("  type a domain and press Enter", th.muted.style().italic()));
    }
    let total = state.resolvers.len();
    if state.in_flight() {
        let label = table::spinner_string(state.spinner_frame).concat(" checking… ").concat(
            text::decimal_string(tally.done as u64).as_str(),
        ).concat("/").concat(text::decimal_string(total as u64).as_str()).concat(" ");
        return Gauge::Bar { part: tally.done, whole: total, color: th.accent, label };
    }
    let whole = if tally.responding > 1 {
        tally.responding
    } else {
        1
    };
    let survival = match bound {
        Some(left) => if tally.agree < tally.responding {
            " · old answers expire in ≤ ".to_owned().concat(
                app::fmt_secs(left.as_secs()).as_str(),
            )
        } else {
            String::new()
        },
        None => String::new(),
    };
    assert(survival@ =~= survival_note(*tally, bound));
    let label = " propagation ".to_owned().concat(
        text::decimal_string(tally.agree as u64).as_str(),
    ).concat("/").concat(text::decimal_string(tally.responding as u64).as_str()).concat(
        " (",
    ).concat(text::decimal_string(percent).as_str()).concat("%)").concat(
        note_string(tally.servfail, " servfail").as_str(),
    ).concat(note_string(tally.errors, " unreachable").as_str()).concat(
        note_string(tally.ecs_blind, " no-ecs").as_str(),
    ).concat(survival.as_str()).concat(watch_string(tally, state.next_poll, now).as_str());
    Gauge::Bar { part: tally.agree, whole, color: bar_color(tally.agree, whole, th), label }
}

// ---------------------------------------------------------------- the footer

/// What was asked: name, type, and the subnet of the round. Changing the
/// selection does not ask again by itself, so the table may show another
/// subnet than the header.
pub open spec fn asked_text(domain: Seq<char>, rtype: Seq<char>, ecs: Option<dns::ClientSubnet>) -> Seq<
    char,
> {
    " "@ + domain + " "@ + rtype + match ecs {
        Some(subnet) => " ecs "@ + dns::ecs_text(subnet),
        None => Seq::empty(),
    } + ": "@
}

/// The line with the counts of the round.
pub open spec fn status_line(state: App, tally: Summary, th: Theme) -> Seq<RunView> {
    match state.queried {
        Some((domain, rtype, ecs)) => {
            let dot = runs::raw(" · "@);
            let counts = seq![
                runs::run(
                    asked_text(domain@, rtype.label(), ecs),
                    theme::bold(theme::plain()),
                ),
                runs::run(runs::counted(tally.ok as nat, " ok"@), theme::colored(th.agree)),
                dot,
                runs::run(
                    runs::counted(tally.no_records as nat, " none"@),
                    theme::colored(th.error),
                ),
                dot,
                runs::run(
                    runs::counted(tally.servfail as nat, " servfail"@),
                    theme::colored(th.error),
                ),
                dot,
                runs::run(runs::counted(tally.errors as nat, " err"@), theme::colored(th.error)),
                dot,
                runs::run(
                    runs::counted(tally.groups as nat, " answer group(s)"@),
                    if tally.groups > 1 {
                        theme::colored(th.differ)
                    } else {
                        th.muted.look()
                    },
                ),
            ];
            if tally.ecs_blind > 0 {
                counts + seq![
                    dot,
                    runs::run(
                        runs::counted(tally.ecs_blind as nat, " no-ecs"@),
                        th.muted.look(),
                    ),
                ]
            } else {
                counts
            }
        },
        None => Seq::empty(),
    }
}

/// The line with the keys.
pub open spec fn keys_text(subnets: bool) -> Seq<char> {
    " type to edit · ←/→ move cursor (⌥/Ctrl word, ⌘/Home/End ends) · Enter query+watch · Ctrl+R watch on/off · Ctrl+S sort · Ctrl+O globe/map · Tab record type"@
        + if subnets {
        " · Ctrl+N ecs"@
    } else {
        Seq::empty()
    } + " · ↑/↓ select · + add resolver · Ctrl+X remove · Esc quit"@
}

/// The lines of the footer: the advice if there is any, the counts, the keys.
pub open spec fn footer_text(
    state: App,
    tally: Summary,
    advice: Option<Seq<char>>,
    th: Theme,
) -> Seq<Seq<RunView>> {
    let always = seq![
        status_line(state, tally, th),
        seq![runs::run(keys_text(state.ecs_list@.len() > 0), th.muted.look())],
    ];
    match advice {
        Some(words) => seq![
            seq![
                runs::run(" ℹ "@, theme::colored(th.accent)),
                runs::run(words, theme::italic(th.muted.look())),
            ],
        ] + always,
        None => always,
    }
}

/// What was asked.
fn asked_string(domain: &str, rtype: &str, ecs: &Option<dns::ClientSubnet>) -> (out: String)
    ensures
        out@ == asked_text(domain@, rtype@, *ecs),
{
    let subnet = match ecs {
        Some(subnet) => " ecs ".to_owned().concat(dns::fmt_ecs(subnet).as_str()),
        None => String::new(),
    };
    assert(subnet@ =~= match *ecs {
        Some(subnet) => " ecs "@ + dns::ecs_text(subnet),
        None => Seq::empty(),
    });
    " ".to_owned().concat(domain).concat(" ").concat(rtype).concat(subnet.as_str()).concat(": ")
}

/// The line with the counts of the round.
fn status_runs(state: &App, tally: &Summary, th: &Theme) -> (out: Vec<Run>)
    ensures
        runs::runs(out@) == status_line(*state, *tally, *th),
{
    let mut out = runs::empty_line();
    if let Some((domain, rtype, ecs)) = &state.queried {
        runs::add_run(
            &mut out,
            Run::new(
                asked_string(domain.as_str(), rtype.name(), ecs).as_str(),
                Look::new().bold(),
            ),
        );
        runs::add_run(
            &mut out,
            Run::new(runs::count_of(tally.ok, " ok").as_str(), Look::of(th.agree)),
        );
        runs::add_run(&mut out, Run::raw(" · "));
        runs::add_run(
            &mut out,
            Run::new(runs::count_of(tally.no_records, " none").as_str(), Look::of(th.error)),
        );
        runs::add_run(&mut out, Run::raw(" · "));
        runs::add_run(
            &mut out,
            Run::new(runs::count_of(tally.servfail, " servfail").as_str(), Look::of(th.error)),
        );
        runs::add_run(&mut out, Run::raw(" · "));
        runs::add_run(
            &mut out,
            Run::new(runs::count_of(tally.errors, " err").as_str(), Look::of(th.error)),
        );
        runs::add_run(&mut out, Run::raw(" · "));
        let look = if tally.groups > 1 {
            Look::of(th.differ)
        } else {
            th.muted.style()
        };
        runs::add_run(
            &mut out,
            Run::new(runs::count_of(tally.groups, " answer group(s)").as_str(), look),
        );
        if tally.ecs_blind > 0 {
            runs::add_run(&mut out, Run::raw(" · "));
            runs::add_run(
                &mut out,
                Run::new(
                    runs::count_of(tally.ecs_blind, " no-ecs").as_str(),
                    th.muted.style(),
                ),
            );
        }
    }
    assert(runs::runs(out@) =~= status_line(*state, *tally, *th));
    out
}

/// The text of an optional string.
pub open spec fn words_of(s: Option<String>) -> Option<Seq<char>> {
    match s {
        Some(words) => Some(words@),
        None => None,
    }
}

/// The lines of the footer.
pub fn footer_lines(state: &App, tally: &Summary, advice: &Option<String>, th: &Theme) -> (out: Vec<
    Vec<Run>,
>)
    ensures
        runs::lines(out@) == footer_text(*state, *tally, words_of(*advice), *th),
{
    let mut out: Vec<Vec<Run>> = Vec::new();
    if let Some(words) = advice {
        let mut line = runs::line_of(Run::new(" ℹ ", Look::of(th.accent)));
        runs::add_run(&mut line, Run::new(words.as_str(), th.muted.style().italic()));
        assert(runs::runs(line@) =~= seq![
            runs::run(" ℹ "@, theme::colored(th.accent)),
            runs::run(words@, theme::italic(th.muted.look())),
        ]);
        runs::add_line(&mut out, line);
    }
    runs::add_line(&mut out, status_runs(state, tally, th));
    let hint = if state.ecs_list.len() == 0 {
        String::new()
    } else {
        " · Ctrl+N ecs".to_owned()
    };
    assert(hint@ =~= if state.ecs_list@.len() > 0 {
        " · Ctrl+N ecs"@
    } else {
        Seq::empty()
    });
    let keys =
        " type to edit · ←/→ move cursor (⌥/Ctrl word, ⌘/Home/End ends) · Enter query+watch · Ctrl+R watch on/off · Ctrl+S sort · Ctrl+O globe/map · Tab record type".to_owned().concat(
        hint.as_str(),
    ).concat(" · ↑/↓ select · + add resolver · Ctrl+X remove · Esc quit");
    runs::add_line(&mut out, runs::line_of(Run::new(keys.as_str(), th.muted.style())));
    assert(runs::lines(out@) =~= footer_text(*state, *tally, words_of(*advice), *th));
    out
}

// ---------------------------------------------------------------- the info box

/// What the colors of the dots mean.
pub open spec fn legend(subnets: bool, th: Theme) -> Seq<RunView> {
    let always = seq![
        runs::run("● agrees  "@, theme::colored(th.agree)),
        runs::run("● differs  "@, theme::colored(th.differ)),
        runs::run("● past-ttl  "@, theme::colored(th.stale)),
        runs::run("● upstream  "@, theme::colored(th.upstream)),
        runs::run("● error  "@, theme::colored(th.error)),
        runs::run("● pending"@, theme::colored(th.pending)),
    ];
    if subnets {
        always.push(runs::run("  ● no-ecs"@, th.muted.look()))
    } else {
        always
    }
}

/// A line for each of the first `n` values of the majority's answer.
pub open spec fn value_lines(values: Seq<Seq<char>>, th: Theme, n: nat) -> Seq<Seq<RunView>>
    decreases n,
{
    if n == 0 {
        Seq::empty()
    } else {
        value_lines(values, th, (n - 1) as nat).push(
            seq![runs::run("  • "@, th.muted.look()), runs::raw(values[n - 1])],
        )
    }
}

/// The lines of the info box below the map: the legend, and the majority's
/// answer in full, or a note to wait.
pub open spec fn info_text(state: App, tally: Summary, complete: bool, th: Theme) -> Seq<
    Seq<RunView>,
> {
    let values = text::texts(tally.majority_values@);
    let first = seq![legend(state.ecs_list@.len() > 0, th)];
    if complete && values.len() > 0 {
        first + seq![
            Seq::empty(),
            seq![
                runs::run(
                    "Majority answer ("@ + text::decimal(tally.agree as nat) + "/"@ + text::decimal(
                        state.resolvers@.len(),
                    ) + " resolvers):"@,
                    theme::bold(theme::colored(th.accent)),
                ),
            ],
        ] + value_lines(values, th, values.len())
    } else if state.queried is Some && state.busy() {
        first + seq![
            Seq::empty(),
            seq![runs::run("waiting for all resolvers…"@, theme::italic(th.muted.look()))],
        ]
    } else {
        first
    }
}

/// What the colors of the dots mean.
fn legend_runs(subnets: bool, th: &Theme) -> (out: Vec<Run>)
    ensures
        runs::runs(out@) == legend(subnets, *th),
{
    let mut out = runs::line_of(Run::new("● agrees  ", Look::of(th.agree)));
    runs::add_run(&mut out, Run::new("● differs  ", Look::of(th.differ)));
    runs::add_run(&mut out, Run::new("● past-ttl  ", Look::of(th.stale)));
    runs::add_run(&mut out, Run::new("● upstream  ", Look::of(th.upstream)));
    runs::add_run(&mut out, Run::new("● error  ", Look::of(th.error)));
    runs::add_run(&mut out, Run::new("● pending", Look::of(th.pending)));
    if subnets {
        runs::add_run(&mut out, Run::new("  ● no-ecs", th.muted.style()));
    }
    assert(runs::runs(out@) =~= legend(subnets, *th));
    out
}

/// The lines of the info box below the map.
pub fn info_lines(state: &App, tally: &Summary, complete: bool, th: &Theme) -> (out: Vec<Vec<Run>>)
    ensures
        runs::lines(out@) == info_text(*state, *tally, complete, *th),
{
    let ghost values = text::texts(tally.majority_values@);
    let mut out: Vec<Vec<Run>> = Vec::new();
    runs::add_line(&mut out, legend_runs(state.ecs_list.len() > 0, th));
    let ghost first = runs::lines(out@);
    assert(first =~= seq![legend(state.ecs_list@.len() > 0, *th)]);
    if complete && tally.majority_values.len() > 0 {
        runs::add_line(&mut out, runs::empty_line());
        let heading = "Majority answer (".to_owned().concat(
            text::decimal_string(tally.agree as u64).as_str(),
        ).concat("/").concat(text::decimal_string(state.resolvers.len() as u64).as_str()).concat(
            " resolvers):",
        );
        runs::add_line(
            &mut out,
            runs::line_of(Run::new(heading.as_str(), Look::of(th.accent).bold())),
        );
        let ghost above = runs::lines(out@);
        let mut n: usize = 0;
        assert(above + value_lines(values, *th, 0) =~= above);
        while n < tally.majority_values.len()
            invariant
                n <= tally.majority_values@.len(),
                values == text::texts(tally.majority_values@),
                runs::lines(out@) == above + value_lines(values, *th, n as nat),
            decreases tally.majority_values@.len() - n,
        {
            let ghost before = runs::lines(out@);
            let mut line = runs::line_of(Run::new("  • ", th.muted.style()));
            runs::add_run(&mut line, Run::raw(tally.majority_values[n].as_str()));
            assert(runs::runs(line@) =~= seq![
                runs::run("  • "@, th.muted.look()),
                runs::raw(values[n as int]),
            ]);
            runs::add_line(&mut out, line);
            assert(runs::lines(out@) =~= above + value_lines(values, *th, (n + 1) as nat));
            n += 1;
        }
    } else if state.queried.is_some() && state.in_flight() {
        runs::add_line(&mut out, runs::empty_line());
        runs::add_line(
            &mut out,
            runs::line_of(Run::new("waiting for all resolvers…", th.muted.style().italic())),
        );
    }
    assert(runs::lines(out@) =~= info_text(*state, *tally, complete, *th));
    out
}

/// The rows that are kept for the info box are the lines that it shows, with
/// its two borders and one line into which the legend may wrap, as long as the
/// answer has no more than twenty values.
pub proof fn info_rows_fit(state: App, tally: Summary, complete: bool, th: Theme)
    requires
        tally.majority_values@.len() <= 20,
    ensures
        info_height(state, tally, complete) == info_text(state, tally, complete, th).len() + 3,
{
    value_lines_len(text::texts(tally.majority_values@), th, tally.majority_values@.len());
}

/// There is a line for each value.
proof fn value_lines_len(values: Seq<Seq<char>>, th: Theme, n: nat)
    ensures
        value_lines(values, th, n).len() == n,
    decreases n,
{
    if n > 0 {
        value_lines_len(values, th, (n - 1) as nat);
    }
}

// ---------------------------------------------------------------- the dialog

/// The dialog that adds a resolver.
#[derive(Debug, Clone)]
pub struct ResolverForm {
    /// What each field holds.
    pub fields: Vec<String>,
    /// The field that takes input.
    pub focus: usize,
    /// The cursor in that field, in bytes.
    pub cursor: usize,
    /// What was wrong when it was last submitted.
    pub error: Option<String>,
}

/// A part of the screen.
#[derive(Debug, Clone, Copy, PartialEq, Eq, Structural)]
pub struct Area {
    pub x: u16,
    pub y: u16,
    pub width: u16,
    pub height: u16,
}

/// The smaller of two numbers.
pub open spec fn smaller(a: int, b: int) -> int {
    if a < b {
        a
    } else {
        b
    }
}

/// Where a dialog with this many fields is drawn: in the middle, with room for
/// the fields, an error, a hint, and what separates them.
pub fn form_area(fields: u16, area: Area) -> (out: Area)
    requires
        fields <= u16::MAX - 6,
        area.x + area.width <= u16::MAX,
        area.y + area.height <= u16::MAX,
    ensures
        out.height == smaller(fields + 6, area.height as int),
        out.width == smaller(46, area.width as int),
        out.x == area.x + (area.width - out.width) / 2,
        out.y == area.y + (area.height - out.height) / 2,
{
    let height = if fields + 6 < area.height {
        fields + 6
    } else {
        area.height
    };
    let width = if 46 < area.width {
        46
    } else {
        area.width
    };
    Area {
        x: area.x + (area.width - width) / 2,
        y: area.y + (area.height - height) / 2,
        width,
        height,
    }
}

/// A dialog lies within the part of the screen that it is drawn over, with the
/// same space on both sides, or one column or row more behind it.
pub proof fn dialog_is_centered(area: Area, out: Area)
    requires
        out.width <= area.width,
        out.height <= area.height,
        out.x == area.x + (area.width - out.width) / 2,
        out.y == area.y + (area.height - out.height) / 2,
    ensures
        area.x <= out.x && out.x + out.width <= area.x + area.width,
        area.y <= out.y && out.y + out.height <= area.y + area.height,
        0 <= (area.x + area.width - out.x - out.width) - (out.x - area.x) <= 1,
        0 <= (area.y + area.height - out.y - out.height) - (out.y - area.y) <= 1,
{
}

/// Where the focused field is split: at the cursor, or at its end when that
/// comes first.
pub open spec fn field_split(value: Seq<char>, cursor: usize) -> nat {
    if cursor < input::byte_len(value) {
        cursor as nat
    } else {
        input::byte_len(value)
    }
}

/// The line of a field.
pub open spec fn field_line(
    label: Seq<char>,
    value: Seq<char>,
    focused: bool,
    cursor: usize,
    th: Theme,
) -> Seq<RunView> {
    let title = " "@ + text::pad_right(label, 9) + " "@;
    if focused {
        let split = input::index_at(value, field_split(value, cursor))->0 as int;
        seq![
            runs::run(title, theme::bold(theme::colored(th.accent))),
            runs::run(value.take(split), theme::bold(theme::plain())),
            runs::run("▏"@, theme::colored(th.accent)),
            runs::run(value.skip(split), theme::bold(theme::plain())),
        ]
    } else {
        seq![runs::run(title, th.muted.look()), runs::raw(value)]
    }
}

/// The lines of the first `n` fields.
pub open spec fn field_lines(
    labels: Seq<Seq<char>>,
    form: ResolverForm,
    th: Theme,
    n: nat,
) -> Seq<Seq<RunView>>
    decreases n,
{
    if n == 0 {
        Seq::empty()
    } else {
        field_lines(labels, form, th, (n - 1) as nat).push(
            field_line(
                labels[n - 1],
                form.fields@[n - 1]@,
                n - 1 == form.focus,
                form.cursor,
                th,
            ),
        )
    }
}

/// The lines of the dialog: the fields, then the error or which fields may stay
/// empty, then the keys.
pub open spec fn form_text(labels: Seq<Seq<char>>, form: ResolverForm, th: Theme) -> Seq<
    Seq<RunView>,
> {
    field_lines(labels, form, th, labels.len()) + seq![
        Seq::empty(),
        seq![
            match form.error {
                Some(error) => runs::run(" "@ + error@, theme::colored(th.error)),
                None => runs::run(
                    " location and lat/lon are optional"@,
                    theme::italic(th.muted.look()),
                ),
            },
        ],
        Seq::empty(),
        seq![runs::run(" Enter add · Tab/↑/↓ field · Esc cancel"@, th.muted.look())],
    ]
}

/// The line of a field.
fn field_runs(label: &str, value: &str, focused: bool, cursor: usize, th: &Theme) -> (out: Vec<Run>)
    requires
        focused ==> input::index_at(value@, field_split(value@, cursor)) is Some,
    ensures
        runs::runs(out@) == field_line(label@, value@, focused, cursor, *th),
{
    let title = " ".to_owned().concat(text::pad_right_string(label, 9).as_str()).concat(" ");
    if focused {
        let end = input::length(value);
        let at = if cursor < end {
            cursor
        } else {
            end
        };
        let (before, after) = input::split_at(value, at);
        let mut out = runs::line_of(Run::new(title.as_str(), Look::of(th.accent).bold()));
        runs::add_run(&mut out, Run::new(before.as_str(), Look::new().bold()));
        runs::add_run(&mut out, Run::new("▏", Look::of(th.accent)));
        runs::add_run(&mut out, Run::new(after.as_str(), Look::new().bold()));
        assert(runs::runs(out@) =~= field_line(label@, value@, focused, cursor, *th));
        out
    } else {
        let mut out = runs::line_of(Run::new(title.as_str(), th.muted.style()));
        runs::add_run(&mut out, Run::raw(value));
        assert(runs::runs(out@) =~= field_line(label@, value@, focused, cursor, *th));
        out
    }
}

/// The lines of the dialog.
pub fn form_lines(labels: &Vec<String>, form: &ResolverForm, th: &Theme) -> (out: Vec<Vec<Run>>)
    requires
        form.fields@.len() >= labels@.len(),
        form.focus < labels@.len() ==> input::index_at(
            form.fields@[form.focus as int]@,
            field_split(form.fields@[form.focus as int]@, form.cursor),
        ) is Some,
    ensures
        runs::lines(out@) == form_text(text::texts(labels@), *form, *th),
{
    let ghost titles = text::texts(labels@);
    let mut out: Vec<Vec<Run>> = Vec::new();
    let mut n: usize = 0;
    assert(runs::lines(out@) =~= field_lines(titles, *form, *th, 0));
    while n < labels.len()
        invariant
            n <= labels@.len(),
            titles == text::texts(labels@),
            form.fields@.len() >= labels@.len(),
            form.focus < labels@.len() ==> input::index_at(
                form.fields@[form.focus as int]@,
                field_split(form.fields@[form.focus as int]@, form.cursor),
            ) is Some,
            runs::lines(out@) == field_lines(titles, *form, *th, n as nat),
        decreases labels@.len() - n,
    {
        assert(titles[n as int] == labels@[n as int]@);
        let line = field_runs(
            labels[n].as_str(),
            form.fields[n].as_str(),
            n == form.focus,
            form.cursor,
            th,
        );
        runs::add_line(&mut out, line);
        n += 1;
    }
    let ghost fields = runs::lines(out@);
    runs::add_line(&mut out, runs::empty_line());
    let message = match &form.error {
        Some(error) => Run::new(
            " ".to_owned().concat(error.as_str()).as_str(),
            Look::of(th.error),
        ),
        None => Run::new(" location and lat/lon are optional", th.muted.style().italic()),
    };
    runs::add_line(&mut out, runs::line_of(message));
    runs::add_line(&mut out, runs::empty_line());
    runs::add_line(
        &mut out,
        runs::line_of(Run::new(" Enter add · Tab/↑/↓ field · Esc cancel", th.muted.style())),
    );
    assert(runs::lines(out@) =~= form_text(titles, *form, *th));
    out
}

// ---------------------------------------------------------------- laws of the panels

/// The info box has four rows; six while answers are awaited; and six more than
/// the values of the majority answer once all are in, of twenty values at most.
pub proof fn info_rows_follow_the_answer(state: App, tally: Summary, complete: bool)
    ensures
        complete && 0 < tally.majority_values@.len() <= 20 ==> info_height(state, tally, complete)
            == 6 + tally.majority_values@.len(),
        complete && tally.majority_values@.len() > 20 ==> info_height(state, tally, complete) == 26,
        (!complete || tally.majority_values@.len() == 0) && state.queried is Some && state.busy()
            ==> info_height(state, tally, complete) == 6,
        (!complete || tally.majority_values@.len() == 0) && !(state.queried is Some && state.busy())
            ==> info_height(state, tally, complete) == 4,
{
}

/// Advice on the TTL is given exactly when all that respond agree on an answer
/// whose TTL is an hour or more.
pub proof fn long_ttls_are_advised_on(tally: Summary, estimate: Option<u32>)
    ensures
        long_ttl(tally, estimate) is Some <==> tally.responding > 0 && tally.agree
            == tally.responding && estimate is Some && estimate->0 >= 3600,
        long_ttl(tally, estimate) is Some ==> long_ttl(tally, estimate) == estimate,
{
}

/// The bar has the color of agreement from nine tenths on, that of pending from a
/// half on, and that of an error below.
pub proof fn bars_are_colored_by_their_share(agree: int, responding: int, th: Theme)
    requires
        0 <= agree <= responding,
        responding > 0,
    ensures
        100 * agree >= 90 * responding ==> agreement_color(agree, responding, th) == th.agree,
        100 * agree < 90 * responding && 100 * agree >= 50 * responding ==> agreement_color(
            agree,
            responding,
            th,
        ) == th.pending,
        100 * agree < 50 * responding ==> agreement_color(agree, responding, th) == th.error,
{
}

/// The header shows the whole line with the cursor in it: in front of it as many
/// bytes as the cursor counts, or the whole line.
pub proof fn the_cursor_is_shown_in_the_line(state: App, th: Theme)
    requires
        input::index_at(state.domain@, header_split(state)) is Some,
    ensures
        ({
            let shown = header_text(state, th)[0];
            &&& shown.len() == 4
            &&& shown[0].text == " Domain: "@
            &&& shown[1].text + shown[3].text == state.domain@
            &&& shown[2].text == "▏"@
            &&& state.cursor < vstd::utf8::encode_utf8(state.domain@).len()
                ==> vstd::utf8::encode_utf8(shown[1].text).len() == state.cursor
            &&& state.cursor >= vstd::utf8::encode_utf8(state.domain@).len() ==> shown[3].text.len()
                == 0
        }),
{
    let line = state.domain@;
    let split = input::index_at(line, header_split(state))->0 as int;
    input::bytes_len(line);
    input::index_at_bounds(line, header_split(state));
    input::positions_are_where_characters_end(line, header_split(state));
    input::positions_count_encoded_bytes(line, split);
    assert(line.take(split) + line.skip(split) =~= line);
    input::positions_count_encoded_bytes(line, line.len() as int);
}

/// The types stand in the order in which they are offered, and the selected one
/// alone stands out.
pub proof fn the_selected_type_stands_out(selected: int, th: Theme, n: nat)
    ensures
        types_line(selected, th, n).len() == 1 + 2 * n,
        types_line(selected, th, n)[0].text == " Type:   "@,
        forall|k: int|
            0 <= k < n ==> (#[trigger] types_line(selected, th, n)[1 + 2 * k]).text == " "@
                + RECORD_TYPES@[k].label() + " "@,
        forall|k: int|
            0 <= k < n ==> (#[trigger] types_line(selected, th, n)[1 + 2 * k]).look == if k
                == selected {
                Look {
                    fg: Some(Color::Black),
                    bg: Some(th.accent),
                    bold: true,
                    italic: false,
                    dim: false,
                }
            } else {
                th.muted.look()
            },
        forall|k: int|
            0 <= k < n ==> #[trigger] types_line(selected, th, n)[2 + 2 * k] == runs::raw(" "@),
    decreases n,
{
    if n > 0 {
        let front = types_line(selected, th, (n - 1) as nat);
        the_selected_type_stands_out(selected, th, (n - 1) as nat);
        let all = types_line(selected, th, n);
        assert forall|k: int| 0 <= k < n - 1 implies #[trigger] all[1 + 2 * k] == front[1 + 2
            * k] by {}
        assert forall|k: int| 0 <= k < n - 1 implies #[trigger] all[2 + 2 * k] == front[2 + 2
            * k] by {}
    }
}

/// The header has a line for the subnet exactly when there are any, and it shows
/// the selected one, with its place among several, or that none is used.
pub proof fn the_selected_subnet_is_shown(state: App, th: Theme)
    ensures
        state.ecs_list@.len() == 0 ==> header_text(state, th).len() == 2,
        state.ecs_list@.len() > 0 ==> header_text(state, th).len() == 3 && header_text(
            state,
            th,
        )[2] == subnet_line(state, th),
        header_text(state, th)[1] == types_line(state.rtype_idx as int, th, 7),
        state.ecs_sel is None ==> subnet_line(state, th).len() == 2 && subnet_line(
            state,
            th,
        )[1].text == " off "@,
        state.ecs_sel is Some ==> subnet_line(state, th)[1].text == " "@ + dns::ecs_text(
            state.ecs_list@[state.ecs_sel->0 as int],
        ) + " "@,
        state.ecs_sel is Some && state.ecs_list@.len() == 1 ==> subnet_line(state, th).len() == 2,
        state.ecs_sel is Some && state.ecs_list@.len() > 1 ==> subnet_line(state, th).len() == 3
            && subnet_line(state, th)[2].text == " "@ + text::decimal(
            (state.ecs_sel->0 + 1) as nat,
        ) + "/"@ + text::decimal(state.ecs_list@.len()),
        subnet_line(state, th)[0].text == " ECS:    "@,
{
}

/// Before the first query the bar is a hint; while queries are under way it shows
/// how many are done of all resolvers; then how many agree of those that respond.
pub proof fn the_bar_shows_how_far_it_is(
    state: App,
    tally: Summary,
    percent: u64,
    bound: Option<clock::Duration>,
    now: Instant,
    th: Theme,
    out: Gauge,
)
    requires
        gauged(state, tally, percent, bound, now, th, out),
    ensures
        state.queried is None <==> out is Hint,
        state.queried is Some && state.busy() ==> out->part == tally.done && out->whole
            == state.resolvers@.len() && out->color == th.accent,
        state.queried is Some && !state.busy() ==> out->part == tally.agree && out->whole >= 1 && (
        tally.responding >= 1 ==> out->whole == tally.responding) && (tally.responding == 0
            ==> out->whole == 1),
{
}

/// Failures, errors and answers without the subnet are named only where there are
/// any.
pub proof fn only_what_occurs_is_noted(n: nat, what: Seq<char>)
    ensures
        n == 0 ==> note(n, what).len() == 0,
        n > 0 ==> note(n, what) == " · "@ + text::decimal(n) + what,
{
}

/// While not all agree, the time until old answers have expired is given in whole
/// seconds, and that until the next poll; once all agree neither is.
pub proof fn waiting_times_are_given_until_all_agree(
    tally: Summary,
    bound: Option<clock::Duration>,
    next_poll: Option<Instant>,
    now: Instant,
)
    requires
        tally.agree <= tally.responding,
    ensures
        tally.agree == tally.responding ==> survival_note(tally, bound).len() == 0,
        bound is None ==> survival_note(tally, bound).len() == 0,
        tally.agree < tally.responding && bound is Some ==> survival_note(tally, bound)
            == " · old answers expire in ≤ "@ + app::span_text(
            (bound->0.nanos / 1_000_000_000) as nat,
        ),
        tally.agree == tally.responding && tally.responding > 0 ==> watch_note(
            tally,
            next_poll,
            now,
        ) == " · complete "@,
        !(tally.agree == tally.responding && tally.responding > 0) && next_poll is None
            ==> watch_note(tally, next_poll, now) == " · watch off (Ctrl+R resumes) "@,
        !(tally.agree == tally.responding && tally.responding > 0) && next_poll is Some
            && next_poll->0.nanos >= now.nanos ==> watch_note(tally, next_poll, now)
            == " · next poll in "@ + text::decimal(
            ((next_poll->0.nanos - now.nanos) / 1_000_000_000) as nat,
        ) + "s (Ctrl+R stops) "@,
        !(tally.agree == tally.responding && tally.responding > 0) && next_poll is Some
            && next_poll->0.nanos < now.nanos ==> watch_note(tally, next_poll, now)
            == " · next poll in "@ + text::decimal(0) + "s (Ctrl+R stops) "@,
{
}

/// The label of a bar at rest gives the agreement, the share, what failed, and the
/// waiting times, in that order.
pub proof fn labels_give_agreement_then_failures(
    tally: Summary,
    percent: u64,
    bound: Option<clock::Duration>,
    next_poll: Option<Instant>,
    now: Instant,
)
    ensures
        ({
            let head = " propagation "@ + text::decimal(tally.agree as nat) + "/"@ + text::decimal(
                tally.responding as nat,
            ) + " ("@ + text::decimal(percent as nat) + "%)"@;
            let label = settled_label(tally, percent, bound, next_poll, now);
            let end = survival_note(tally, bound) + watch_note(tally, next_poll, now);
            &&& tally.servfail == 0 && tally.errors == 0 && tally.ecs_blind == 0 ==> label =~= head
                + end
            &&& tally.servfail > 0 && tally.errors == 0 && tally.ecs_blind == 0 ==> label =~= head
                + (" · "@ + text::decimal(tally.servfail as nat) + " servfail"@) + end
            &&& tally.servfail == 0 && tally.errors > 0 && tally.ecs_blind == 0 ==> label =~= head
                + (" · "@ + text::decimal(tally.errors as nat) + " unreachable"@) + end
            &&& tally.servfail == 0 && tally.errors == 0 && tally.ecs_blind > 0 ==> label =~= head
                + (" · "@ + text::decimal(tally.ecs_blind as nat) + " no-ecs"@) + end
        }),
{
}

/// The status line counts what came of the last question, each count in front of
/// its own name; before it there is none.
pub proof fn the_status_line_counts_what_came(state: App, tally: Summary, th: Theme)
    ensures
        state.queried is None ==> status_line(state, tally, th).len() == 0,
        state.queried is Some ==> {
            let line = status_line(state, tally, th);
            &&& line.len() == if tally.ecs_blind > 0 {
                12int
            } else {
                10int
            }
            &&& line[1].text == text::decimal(tally.ok as nat) + " ok"@
            &&& line[3].text == text::decimal(tally.no_records as nat) + " none"@
            &&& line[5].text == text::decimal(tally.servfail as nat) + " servfail"@
            &&& line[7].text == text::decimal(tally.errors as nat) + " err"@
            &&& line[9].text == text::decimal(tally.groups as nat) + " answer group(s)"@
            &&& line[9].look == if tally.groups > 1 {
                theme::colored(th.differ)
            } else {
                th.muted.look()
            }
            &&& tally.ecs_blind > 0 ==> line[11].text == text::decimal(tally.ecs_blind as nat)
                + " no-ecs"@
            &&& line[1].look == theme::colored(th.agree)
            &&& line[3].look == theme::colored(th.error)
        },
        state.queried is Some && (state.queried->0).2 is None ==> status_line(
            state,
            tally,
            th,
        )[0].text =~= " "@ + (state.queried->0).0@ + " "@ + (state.queried->0).1.label() + ": "@,
        state.queried is Some && (state.queried->0).2 is Some ==> status_line(
            state,
            tally,
            th,
        )[0].text =~= " "@ + (state.queried->0).0@ + " "@ + (state.queried->0).1.label() + " ecs "@
            + dns::ecs_text((state.queried->0).2->0) + ": "@,
{
}

/// The footer ends with the status line and the keys; advice stands above them.
pub proof fn advice_stands_above_the_status(
    state: App,
    tally: Summary,
    words: Seq<char>,
    th: Theme,
)
    ensures
        ({
            let plain = footer_text(state, tally, None, th);
            let advised = footer_text(state, tally, Some(words), th);
            &&& plain.len() == 2
            &&& advised.len() == 3
            &&& plain[0] == status_line(state, tally, th) && advised[1] == plain[0]
            &&& plain[1].len() == 1 && plain[1][0].text == keys_text(state.ecs_list@.len() > 0)
            &&& advised[2] == plain[1]
            &&& advised[0][0].text == " ℹ "@
            &&& advised[0][1].text == words
        }),
{
}

/// The legend gives each status its color, and answers without the subnet only
/// where subnets are used.
pub proof fn the_legend_gives_each_status_its_color(th: Theme)
    ensures
        legend(false, th).len() == 6,
        legend(true, th).len() == 7,
        forall|i: int|
            0 <= i < 6 ==> #[trigger] legend(true, th)[i] == legend(false, th)[i],
        legend(false, th)[0] == runs::run("● agrees  "@, theme::colored(th.agree)),
        legend(false, th)[1] == runs::run("● differs  "@, theme::colored(th.differ)),
        legend(false, th)[2] == runs::run("● past-ttl  "@, theme::colored(th.stale)),
        legend(false, th)[3] == runs::run("● upstream  "@, theme::colored(th.upstream)),
        legend(false, th)[4] == runs::run("● error  "@, theme::colored(th.error)),
        legend(false, th)[5] == runs::run("● pending"@, theme::colored(th.pending)),
        legend(true, th)[6] == runs::run("  ● no-ecs"@, th.muted.look()),
{
}

/// Every value has a line of its own, in order.
proof fn value_lines_are(values: Seq<Seq<char>>, th: Theme, n: nat)
    requires
        n <= values.len(),
    ensures
        value_lines(values, th, n).len() == n,
        forall|i: int|
            0 <= i < n ==> (#[trigger] value_lines(values, th, n)[i]).len() == 2 && value_lines(
                values,
                th,
                n,
            )[i][1].text == values[i],
    decreases n,
{
    if n > 0 {
        value_lines_are(values, th, (n - 1) as nat);
    }
}

/// The info box shows the legend, and below it, once all have answered, the
/// majority answer, a value on each line; until then that answers are awaited.
pub proof fn the_info_box_shows_the_majority(state: App, tally: Summary, complete: bool, th: Theme)
    ensures
        ({
            let lines = info_text(state, tally, complete, th);
            let values = tally.majority_values@;
            &&& lines[0] == legend(state.ecs_list@.len() > 0, th)
            &&& complete && values.len() > 0 ==> {
                &&& lines.len() == 3 + values.len()
                &&& lines[1].len() == 0
                &&& lines[2].len() == 1
                &&& lines[2][0].text == "Majority answer ("@ + text::decimal(tally.agree as nat)
                    + "/"@ + text::decimal(state.resolvers@.len()) + " resolvers):"@
                &&& forall|i: int|
                    0 <= i < values.len() ==> (#[trigger] lines[3 + i]).len() == 2 && lines[3
                        + i][1].text == values[i]@
            }
            &&& !(complete && values.len() > 0) && state.queried is Some && state.busy()
                ==> lines.len() == 3 && lines[2][0].text == "waiting for all resolvers…"@
            &&& !(complete && values.len() > 0) && !(state.queried is Some && state.busy())
                ==> lines.len() == 1
        }),
{
    let values = text::texts(tally.majority_values@);
    value_lines_are(values, th, values.len());
    let lines = info_text(state, tally, complete, th);
    if complete && values.len() > 0 {
        let shown = value_lines(values, th, values.len());
        assert forall|i: int| 0 <= i < values.len() implies (#[trigger] lines[3 + i]).len() == 2
            && lines[3 + i][1].text == tally.majority_values@[i]@ by {
            assert(lines[3 + i] == shown[i]);
            assert(values[i] == tally.majority_values@[i]@);
        }
    }
}

/// Advice gives the TTL and what to do about it.
pub proof fn advice_gives_the_ttl(ttl: u32)
    ensures
        advice_text(ttl) == "TTL ≈ "@ + app::span_text(ttl as nat)
            + " — planning a record change? Lower the TTL first, then wait one old-TTL period before switching."@,
{
}

/// The key for the subnet is named only where there are any.
pub proof fn only_keys_that_do_something_are_named()
    ensures
        ({
            let head =
                " type to edit · ←/→ move cursor (⌥/Ctrl word, ⌘/Home/End ends) · Enter query+watch · Ctrl+R watch on/off · Ctrl+S sort · Ctrl+O globe/map · Tab record type"@;
            let tail = " · ↑/↓ select · + add resolver · Ctrl+X remove · Esc quit"@;
            &&& keys_text(false) =~= head + tail
            &&& keys_text(true) =~= head + " · Ctrl+N ecs"@ + tail
        }),
{
}

/// A field shows its label and all of its text; in the focused one the cursor
/// stands between its beginning and the rest.
pub proof fn fields_show_their_text(
    label: Seq<char>,
    value: Seq<char>,
    focused: bool,
    cursor: usize,
    th: Theme,
)
    requires
        input::index_at(value, field_split(value, cursor)) is Some,
    ensures
        ({
            let line = field_line(label, value, focused, cursor, th);
            &&& line[0].text == " "@ + text::pad_right(label, 9) + " "@
            &&& !focused ==> line.len() == 2 && line[1].text == value
            &&& focused ==> line.len() == 4 && line[1].text + line[3].text == value && line[2].text
                == "▏"@
            &&& focused && cursor < vstd::utf8::encode_utf8(value).len()
                ==> vstd::utf8::encode_utf8(line[1].text).len() == cursor
            &&& focused && cursor >= vstd::utf8::encode_utf8(value).len() ==> line[3].text.len()
                == 0
        }),
{
    let split = input::index_at(value, field_split(value, cursor))->0 as int;
    input::bytes_len(value);
    input::index_at_bounds(value, field_split(value, cursor));
    input::positions_are_where_characters_end(value, field_split(value, cursor));
    input::positions_count_encoded_bytes(value, split);
    assert(value.take(split) + value.skip(split) =~= value);
    input::positions_count_encoded_bytes(value, value.len() as int);
}

/// The fields stand one below the other, the focused one alone with the cursor.
proof fn field_lines_are(labels: Seq<Seq<char>>, form: ResolverForm, th: Theme, n: nat)
    ensures
        field_lines(labels, form, th, n).len() == n,
        forall|i: int|
            0 <= i < n ==> #[trigger] field_lines(labels, form, th, n)[i] == field_line(
                labels[i],
                form.fields@[i]@,
                i == form.focus,
                form.cursor,
                th,
            ),
    decreases n,
{
    if n > 0 {
        field_lines_are(labels, form, th, (n - 1) as nat);
    }
}

/// The dialog shows its fields in order, what was wrong or a hint, and its keys.
pub proof fn the_dialog_shows_its_fields(labels: Seq<Seq<char>>, form: ResolverForm, th: Theme)
    ensures
        ({
            let lines = form_text(labels, form, th);
            let n = labels.len() as int;
            &&& lines.len() == n + 4
            &&& forall|i: int|
                0 <= i < n ==> #[trigger] lines[i] == field_line(
                    labels[i],
                    form.fields@[i]@,
                    i == form.focus,
                    form.cursor,
                    th,
                )
            &&& lines[n].len() == 0 && lines[n + 2].len() == 0
            &&& form.error is None ==> lines[n + 1][0].text
                == " location and lat/lon are optional"@
            &&& form.error is Some ==> lines[n + 1][0].text == " "@ + form.error->0@ && lines[n
                + 1][0].look == theme::colored(th.error)
            &&& lines[n + 3][0].text == " Enter add · Tab/↑/↓ field · Esc cancel"@
        }),
{
    field_lines_are(labels, form, th, labels.len());
}

/// The panel for the map starts beside the table, where 54 columns are left for
/// the map or 28 for the globe.
pub proof fn panels_start_beside_the_table()
    ensures
        TABLE_WIDTH == 103,
        MIN_WIDTH_FOR_MAP == TABLE_WIDTH + 54,
        MIN_WIDTH_FOR_GLOBE == TABLE_WIDTH + 28,
{
}

/// The label names failures, unreachable resolvers and answers without the subnet
/// in this order, in front of the waiting times, whichever of them there are.
pub proof fn labels_note_everything_in_order(
    tally: Summary,
    percent: u64,
    bound: Option<clock::Duration>,
    next_poll: Option<Instant>,
    now: Instant,
)
    ensures
        settled_label(tally, percent, bound, next_poll, now) =~= " propagation "@ + text::decimal(
            tally.agree as nat,
        ) + "/"@ + text::decimal(tally.responding as nat) + " ("@ + text::decimal(percent as nat)
            + "%)"@ + (if tally.servfail > 0 {
            " · "@ + text::decimal(tally.servfail as nat) + " servfail"@
        } else {
            Seq::empty()
        }) + (if tally.errors > 0 {
            " · "@ + text::decimal(tally.errors as nat) + " unreachable"@
        } else {
            Seq::empty()
        }) + (if tally.ecs_blind > 0 {
            " · "@ + text::decimal(tally.ecs_blind as nat) + " no-ecs"@
        } else {
            Seq::empty()
        }) + survival_note(tally, bound) + watch_note(tally, next_poll, now),
{
}

/// The bar says what it shows: what to do first, how many are checked, or the
/// label of a bar at rest, whose color follows the share that agrees.
pub proof fn bars_say_what_they_show(
    state: App,
    tally: Summary,
    percent: u64,
    bound: Option<clock::Duration>,
    now: Instant,
    th: Theme,
    out: Gauge,
)
    requires
        gauged(state, tally, percent, bound, now, th, out),
    ensures
        state.queried is None ==> out->Hint_0@.text == "  type a domain and press Enter"@
            && out->Hint_0@.look == theme::italic(th.muted.look()),
        state.queried is Some && state.busy() ==> out->label@ == table::spinner(
            state.spinner_frame,
        ) + " checking… "@ + text::decimal(tally.done as nat) + "/"@ + text::decimal(
            state.resolvers@.len(),
        ) + " "@,
        state.queried is Some && !state.busy() ==> out->label@ == settled_label(
            tally,
            percent,
            bound,
            state.next_poll,
            now,
        ),
        state.queried is Some && !state.busy() && tally.responding > 0 ==> out->color
            == agreement_color(tally.agree as int, tally.responding as int, th),
        state.queried is Some && !state.busy() && tally.responding == 0 && tally.agree == 0
            ==> out->color == th.error,
{
}

/// The line and the cursor in the header look as such: the label muted, the text
/// in bold, the cursor in the accent color.
pub proof fn the_line_is_shown_in_bold(line: Seq<char>, split: int, th: Theme)
    ensures
        input_line(line, split, th)[0].look == th.muted.look(),
        input_line(line, split, th)[1].look == theme::bold(theme::plain()),
        input_line(line, split, th)[2].look == theme::colored(th.accent),
        input_line(line, split, th)[3].look == theme::bold(theme::plain()),
{
}

/// In the status line the question is in bold, agreement and errors in their own
/// colors, what separates them plain, and answers without the subnet muted.
pub proof fn counts_are_colored_by_kind(state: App, tally: Summary, th: Theme)
    requires
        state.queried is Some,
    ensures
        ({
            let line = status_line(state, tally, th);
            &&& line[0].look == theme::bold(theme::plain())
            &&& line[5].look == theme::colored(th.error)
            &&& line[7].look == theme::colored(th.error)
            &&& line[2] == runs::raw(" · "@) && line[4] == runs::raw(" · "@)
            &&& line[6] == runs::raw(" · "@) && line[8] == runs::raw(" · "@)
            &&& tally.ecs_blind > 0 ==> line[10] == runs::raw(" · "@) && line[11].look
                == th.muted.look()
        }),
{
}

/// In the info box the majority answer is headed in bold in the accent color, and
/// the note to wait is muted and in italics; in the footer advice is too, and the
/// keys are muted.
pub proof fn headings_stand_out_and_notes_do_not(
    state: App,
    tally: Summary,
    complete: bool,
    words: Seq<char>,
    th: Theme,
)
    ensures
        complete && tally.majority_values@.len() > 0 ==> info_text(
            state,
            tally,
            complete,
            th,
        )[2][0].look == theme::bold(theme::colored(th.accent)),
        !(complete && tally.majority_values@.len() > 0) && state.queried is Some && state.busy()
            ==> info_text(state, tally, complete, th)[2][0].look == theme::italic(th.muted.look()),
        footer_text(state, tally, Some(words), th)[0][0].look == theme::colored(th.accent),
        footer_text(state, tally, Some(words), th)[0][1].look == theme::italic(th.muted.look()),
        footer_text(state, tally, None, th)[1][0].look == th.muted.look(),
{
}

} // verus!

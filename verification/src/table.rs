//! The table: one row of cells for each resolver.
use vstd::prelude::*;

use crate::address;
use crate::app;
use crate::app::{App, SPINNER};
use crate::clock::{Instant, NANOS_PER_MILLI, NANOS_PER_SEC};
use crate::dns::QueryResult;
use crate::history;
use crate::resolvers::Resolver;
use crate::rows;
use crate::rows::{RowState, TtlVerdict};
use crate::runs;
use crate::runs::{Run, RunView};
use crate::sites::Site;
use crate::sorting;
use crate::summary::Summary;
use crate::text;
use crate::theme;
use crate::theme::{Look, Theme};

verus! {

/// The titles of the columns.
pub const COLUMNS: [&'static str; 8] = [
    "Resolver",
    "Loc",
    "IP",
    "Time",
    "TTL",
    "Exp",
    "Status",
    "Answer",
];

/// The widths of the columns; the last is the least that it gets.
pub const COLUMN_WIDTHS: [u16; 8] = [21, 8, 15, 7, 6, 7, 10, 20];

/// Rows of the table that are no resolver: two borders and the titles.
pub const TABLE_CHROME: u16 = 3;

/// Did the resolver answer without using the client subnet?
pub open spec fn ignored_subnet(row: RowState) -> bool {
    row matches RowState::Done { ecs_honored, .. } && ecs_honored == Some(false)
}

/// Is the row shown as one of the majority? While queries are under way every
/// row is: flagging outliers then would make rows flap.
pub open spec fn shown_agreeing(marks: Seq<bool>, complete: bool, i: int) -> bool {
    !complete || marks[i]
}

/// What is said of the cache of row `i`: only of rows that disagree.
pub open spec fn shown_verdict(
    state: App,
    marks: Seq<bool>,
    complete: bool,
    now: Instant,
    i: int,
) -> Option<TtlVerdict> {
    if shown_agreeing(marks, complete, i) || ignored_subnet(state.rows@[i]) {
        None
    } else {
        history::verdict(state.history@[i]@, now)
    }
}

/// The frame of the turning mark.
pub open spec fn spinner(frame: usize) -> Seq<char> {
    seq![SPINNER@[frame as int % 10]]
}

// ---------------------------------------------------------------- the cells

/// The location: the discovered site, with an arrow, or the configured one.
pub open spec fn location_cell(site: Option<Site>, resolver: Resolver, th: Theme) -> RunView {
    match site {
        Some(found) => runs::run("→"@ + found.code@, theme::colored(th.accent)),
        None => runs::run(resolver.location@, th.muted.look()),
    }
}

/// How fast an answer counts as.
pub open spec fn speed_look(millis: int, th: Theme) -> Look {
    if millis < 100 {
        theme::colored(th.agree)
    } else if millis < 400 {
        theme::colored(th.pending)
    } else {
        theme::colored(th.error)
    }
}

/// How long the answer took.
pub open spec fn time_cell(row: RowState, th: Theme) -> RunView {
    match row {
        RowState::Idle => runs::raw("—"@),
        RowState::Pending => runs::raw("…"@),
        RowState::Done { elapsed, .. } => {
            let millis = elapsed.nanos / NANOS_PER_MILLI;
            runs::run(text::decimal(millis as nat) + "ms"@, speed_look(millis as int, th))
        },
    }
}

/// The reported TTL.
pub open spec fn ttl_cell(row: RowState) -> RunView {
    if rows::has_records(row) {
        runs::raw(text::decimal(rows::reported_ttl(row) as nat))
    } else {
        runs::raw(""@)
    }
}

/// How the status of a row with records is said and looks.
pub open spec fn records_status(
    ignored: bool,
    agreeing: bool,
    verdict: Option<TtlVerdict>,
    th: Theme,
) -> RunView {
    if ignored {
        runs::run("◌ NO ECS"@, th.muted.look())
    } else {
        match verdict {
            Some(TtlVerdict::PastTtl) => runs::run(
                "! PAST TTL"@,
                theme::bold(theme::colored(th.stale)),
            ),
            Some(TtlVerdict::Upstream) => runs::run(
                "↻ UPSTREAM"@,
                theme::bold(theme::colored(th.upstream)),
            ),
            None => if agreeing {
                runs::run("✓ OK"@, theme::bold(theme::colored(th.agree)))
            } else {
                runs::run("≠ DIFFERS"@, theme::bold(theme::colored(th.differ)))
            },
        }
    }
}

/// The time left before the cache must fetch the record anew. For a row that
/// disagrees this is how much longer the old answer can survive there, so it
/// looks like the status.
pub open spec fn expiry_cell(
    row: RowState,
    agreeing: bool,
    verdict: Option<TtlVerdict>,
    now: Instant,
    th: Theme,
) -> RunView {
    if rows::has_records(row) {
        let left = rows::ttl_left(row, now) / (NANOS_PER_SEC as int);
        let ignored = ignored_subnet(row);
        if left == 0 {
            runs::run("expired"@, theme::italic(th.muted.look()))
        } else if agreeing || ignored {
            runs::run(app::span_text(left as nat), th.muted.look())
        } else {
            runs::run(
                app::span_text(left as nat),
                records_status(ignored, agreeing, verdict, th).look,
            )
        }
    } else {
        runs::raw(""@)
    }
}

/// The status of a row.
pub open spec fn status_cell(
    row: RowState,
    agreeing: bool,
    verdict: Option<TtlVerdict>,
    frame: usize,
    th: Theme,
) -> RunView {
    match row {
        RowState::Idle => runs::run("idle"@, th.muted.look()),
        RowState::Pending => runs::run(spinner(frame) + " query"@, theme::colored(th.pending)),
        RowState::Done { result, .. } => match result {
            QueryResult::Records { .. } => records_status(
                ignored_subnet(row),
                agreeing,
                verdict,
                th,
            ),
            QueryResult::NoRecords(_) => if ignored_subnet(row) {
                runs::run("◌ NO ECS"@, th.muted.look())
            } else {
                runs::run("∅ NONE"@, theme::bold(theme::colored(th.error)))
            },
            QueryResult::ServFail => runs::run(
                "✗ SERVFAIL"@,
                theme::bold(theme::colored(th.error)),
            ),
            QueryResult::Error(_) => runs::run("✗ ERR"@, theme::bold(theme::colored(th.error))),
        },
    }
}

/// The answer of a row.
pub open spec fn answer_cell(
    row: RowState,
    agreeing: bool,
    verdict: Option<TtlVerdict>,
    th: Theme,
) -> RunView {
    match row {
        RowState::Done { result, .. } => match result {
            QueryResult::Records { values, .. } => runs::run(
                text::joined(text::texts(values@), ", "@),
                if agreeing || ignored_subnet(row) {
                    theme::plain()
                } else {
                    Look {
                        fg: records_status(ignored_subnet(row), agreeing, verdict, th).look.fg,
                        ..theme::plain()
                    }
                },
            ),
            QueryResult::NoRecords(reason) => runs::run(
                reason@,
                if ignored_subnet(row) {
                    th.muted.look()
                } else {
                    theme::colored(th.error)
                },
            ),
            QueryResult::ServFail => runs::run(
                "can't resolve — broken delegation or DNSSEC?"@,
                theme::colored(th.error),
            ),
            QueryResult::Error(reason) => runs::run(
                reason@,
                theme::italic(theme::colored(th.error)),
            ),
        },
        _ => runs::raw(""@),
    }
}

/// The cells of row `i`.
pub open spec fn row_cells(
    state: App,
    marks: Seq<bool>,
    complete: bool,
    now: Instant,
    th: Theme,
    i: int,
) -> Seq<RunView> {
    let row = state.rows@[i];
    let resolver = state.resolvers@[i];
    let agreeing = shown_agreeing(marks, complete, i);
    let verdict = shown_verdict(state, marks, complete, now, i);
    seq![
        runs::raw(resolver.name@),
        location_cell(state.sites@[i], resolver, th),
        runs::run(address::ip_text(resolver.ip), th.muted.look()),
        time_cell(row, th),
        ttl_cell(row),
        expiry_cell(row, agreeing, verdict, now, th),
        status_cell(row, agreeing, verdict, state.spinner_frame, th),
        answer_cell(row, agreeing, verdict, th),
    ]
}

/// The frame of the turning mark.
pub fn spinner_string(frame: usize) -> (out: String)
    ensures
        out@ == spinner(frame),
{
    let mut out = String::new();
    let c = SPINNER[frame % 10];
    out.push(c);
    assert(out@ =~= spinner(frame));
    out
}

/// The location of a resolver.
fn location_run(site: &Option<Site>, resolver: &Resolver, th: &Theme) -> (out: Run)
    ensures
        out@ == location_cell(*site, *resolver, *th),
{
    match site {
        Some(found) => Run::new(
            "→".to_owned().concat(found.code.as_str()).as_str(),
            Look::of(th.accent),
        ),
        None => Run::new(resolver.location.as_str(), th.muted.style()),
    }
}

/// How long the answer took.
fn time_run(row: &RowState, th: &Theme) -> (out: Run)
    ensures
        out@ == time_cell(*row, *th),
{
    match row {
        RowState::Idle => Run::raw("—"),
        RowState::Pending => Run::raw("…"),
        RowState::Done { elapsed, .. } => {
            let millis: u64 = elapsed.as_millis();
            let look = if millis < 100 {
                Look::of(th.agree)
            } else if millis < 400 {
                Look::of(th.pending)
            } else {
                Look::of(th.error)
            };
            Run::new(text::decimal_string(millis).concat("ms").as_str(), look)
        },
    }
}

/// How the status of a row with records is said and looks.
fn records_run(ignored: bool, agreeing: bool, verdict: Option<TtlVerdict>, th: &Theme) -> (out: Run)
    ensures
        out@ == records_status(ignored, agreeing, verdict, *th),
{
    if ignored {
        Run::new("◌ NO ECS", th.muted.style())
    } else {
        match verdict {
            Some(TtlVerdict::PastTtl) => Run::new("! PAST TTL", Look::of(th.stale).bold()),
            Some(TtlVerdict::Upstream) => Run::new("↻ UPSTREAM", Look::of(th.upstream).bold()),
            None => if agreeing {
                Run::new("✓ OK", Look::of(th.agree).bold())
            } else {
                Run::new("≠ DIFFERS", Look::of(th.differ).bold())
            },
        }
    }
}

/// Did the resolver answer without using the client subnet?
fn ignored(row: &RowState) -> (out: bool)
    ensures
        out == ignored_subnet(*row),
{
    match row {
        RowState::Done { ecs_honored, .. } => match ecs_honored {
            Some(honored) => !*honored,
            None => false,
        },
        _ => false,
    }
}

/// The reported TTL.
fn ttl_run(row: &RowState) -> (out: Run)
    ensures
        out@ == ttl_cell(*row),
{
    match row {
        RowState::Done { result: QueryResult::Records { min_ttl, .. }, .. } => Run::raw(
            text::decimal_string(*min_ttl as u64).as_str(),
        ),
        _ => Run::raw(""),
    }
}

/// The time left before the cache must fetch the record anew.
fn expiry_run(
    row: &RowState,
    agreeing: bool,
    verdict: Option<TtlVerdict>,
    now: Instant,
    th: &Theme,
) -> (out: Run)
    ensures
        out@ == expiry_cell(*row, agreeing, verdict, now, *th),
{
    match row.remaining_ttl(now) {
        Some(left) => {
            let left: u64 = left.as_secs();
            let ignored = ignored(row);
            if left == 0 {
                Run::new("expired", th.muted.style().italic())
            } else if agreeing || ignored {
                Run::new(app::fmt_secs(left).as_str(), th.muted.style())
            } else {
                Run::new(
                    app::fmt_secs(left).as_str(),
                    records_run(ignored, agreeing, verdict, th).look,
                )
            }
        },
        None => Run::raw(""),
    }
}

/// The status of a row.
fn status_run(
    row: &RowState,
    agreeing: bool,
    verdict: Option<TtlVerdict>,
    frame: usize,
    th: &Theme,
) -> (out: Run)
    ensures
        out@ == status_cell(*row, agreeing, verdict, frame, *th),
{
    match row {
        RowState::Idle => Run::new("idle", th.muted.style()),
        RowState::Pending => Run::new(
            spinner_string(frame).concat(" query").as_str(),
            Look::of(th.pending),
        ),
        RowState::Done { result, .. } => match result {
            QueryResult::Records { .. } => records_run(ignored(row), agreeing, verdict, th),
            QueryResult::NoRecords(_) => if ignored(row) {
                Run::new("◌ NO ECS", th.muted.style())
            } else {
                Run::new("∅ NONE", Look::of(th.error).bold())
            },
            QueryResult::ServFail => Run::new("✗ SERVFAIL", Look::of(th.error).bold()),
            QueryResult::Error(_) => Run::new("✗ ERR", Look::of(th.error).bold()),
        },
    }
}

/// The answer of a row.
fn answer_run(row: &RowState, agreeing: bool, verdict: Option<TtlVerdict>, th: &Theme) -> (out: Run)
    ensures
        out@ == answer_cell(*row, agreeing, verdict, *th),
{
    match row {
        RowState::Done { result, .. } => match result {
            QueryResult::Records { values, .. } => {
                let ignored = ignored(row);
                let look = if agreeing || ignored {
                    Look::new()
                } else {
                    let status = records_run(ignored, agreeing, verdict, th).look;
                    Look { fg: status.fg, bg: None, bold: false, italic: false, dim: false }
                };
                Run::new(text::joined_string(values, ", ").as_str(), look)
            },
            QueryResult::NoRecords(reason) => Run::new(
                reason.as_str(),
                if ignored(row) {
                    th.muted.style()
                } else {
                    Look::of(th.error)
                },
            ),
            QueryResult::ServFail => Run::new(
                "can't resolve — broken delegation or DNSSEC?",
                Look::of(th.error),
            ),
            QueryResult::Error(reason) => Run::new(reason.as_str(), Look::of(th.error).italic()),
        },
        _ => Run::raw(""),
    }
}

/// What is said of the cache of row `i`.
pub fn verdict_shown(
    state: &App,
    tally: &Summary,
    complete: bool,
    now: Instant,
    i: usize,
) -> (out: Option<TtlVerdict>)
    requires
        state.wf(),
        i < state.rows@.len(),
        tally.majority_rows@.len() >= state.rows@.len(),
    ensures
        out == shown_verdict(*state, tally.majority_rows@, complete, now, i as int),
{
    if !complete || tally.majority_rows[i] || ignored(&state.rows[i]) {
        None
    } else {
        state.ttl_verdict(i, now)
    }
}

/// The cells of row `i`.
pub fn cells(
    state: &App,
    tally: &Summary,
    complete: bool,
    now: Instant,
    th: &Theme,
    i: usize,
) -> (out: Vec<Run>)
    requires
        state.wf(),
        i < state.rows@.len(),
        tally.majority_rows@.len() >= state.rows@.len(),
    ensures
        runs::runs(out@) == row_cells(*state, tally.majority_rows@, complete, now, *th, i as int),
{
    let row = &state.rows[i];
    let resolver = &state.resolvers[i];
    let agreeing = !complete || tally.majority_rows[i];
    let verdict = verdict_shown(state, tally, complete, now, i);
    let mut out = runs::empty_line();
    runs::add_run(&mut out, Run::raw(resolver.name.as_str()));
    runs::add_run(&mut out, location_run(&state.sites[i], resolver, th));
    runs::add_run(
        &mut out,
        Run::new(address::ip_string(resolver.ip).as_str(), th.muted.style()),
    );
    runs::add_run(&mut out, time_run(row, th));
    runs::add_run(&mut out, ttl_run(row));
    runs::add_run(&mut out, expiry_run(row, agreeing, verdict, now, th));
    runs::add_run(&mut out, status_run(row, agreeing, verdict, state.spinner_frame, th));
    runs::add_run(&mut out, answer_run(row, agreeing, verdict, th));
    assert(runs::runs(out@) =~= row_cells(
        *state,
        tally.majority_rows@,
        complete,
        now,
        *th,
        i as int,
    ));
    out
}

// ---------------------------------------------------------------- the whole table

/// The table as it is drawn.
#[derive(Debug, Clone)]
pub struct TableView {
    /// The rows in their order, each as its cells.
    pub rows: Vec<Vec<Run>>,
    /// Which of these is highlighted.
    pub selected: Option<usize>,
    /// The line below the table.
    pub caption: String,
}

/// The line below the table.
pub open spec fn caption_text(state: App) -> Seq<char> {
    " sort: "@ + state.sort.title() + " (Ctrl+S) · "@ + text::decimal(state.resolvers@.len())
        + " resolvers (↑/↓ select) "@
}

/// Is `out` the table as it is drawn? `listing` is the order of the rows.
pub open spec fn drawn(
    state: App,
    marks: Seq<bool>,
    complete: bool,
    now: Instant,
    th: Theme,
    selected: Option<usize>,
    listing: Seq<usize>,
    out: TableView,
) -> bool {
    &&& sorting::in_order(state, marks, now, listing, state.rows@.len())
    &&& out.rows@.len() == listing.len()
    &&& forall|k: int|
        0 <= k < listing.len() ==> runs::runs((#[trigger] out.rows@[k])@) == row_cells(
            state,
            marks,
            complete,
            now,
            th,
            listing[k] as int,
        )
    &&& match out.selected {
        Some(k) => k < listing.len() && selected == Some(listing[k as int]),
        None => selected is None || !listing.contains(selected->0),
    }
    &&& out.caption@ == caption_text(state)
}

/// The table as it is drawn. The highlight follows a resolver, wherever the
/// order puts it.
pub fn table_view(
    state: &App,
    tally: &Summary,
    complete: bool,
    now: Instant,
    th: &Theme,
    selected: Option<usize>,
) -> (out: TableView)
    requires
        state.wf(),
        tally.majority_rows@.len() >= state.rows@.len(),
    ensures
        exists|listing: Seq<usize>| #[trigger]
            drawn(*state, tally.majority_rows@, complete, now, *th, selected, listing, out),
{
    let ghost marks = tally.majority_rows@;
    let listing = state.display_order(tally, now);
    let mut rows: Vec<Vec<Run>> = Vec::new();
    let mut place: Option<usize> = None;
    let mut k: usize = 0;
    while k < listing.len()
        invariant
            k <= listing@.len(),
            state.wf(),
            marks == tally.majority_rows@,
            marks.len() >= state.rows@.len(),
            sorting::in_order(*state, marks, now, listing@, state.rows@.len()),
            rows@.len() == k,
            forall|j: int|
                0 <= j < k ==> runs::runs((#[trigger] rows@[j])@) == row_cells(
                    *state,
                    marks,
                    complete,
                    now,
                    *th,
                    listing@[j] as int,
                ),
            match place {
                Some(j) => j < k && selected == Some(listing@[j as int]),
                None => forall|j: int| 0 <= j < k ==> selected != Some(#[trigger] listing@[j]),
            },
        decreases listing@.len() - k,
    {
        let i = listing[k];
        rows.push(cells(state, tally, complete, now, th, i));
        if place.is_none() {
            if let Some(sel) = selected {
                if sel == i {
                    place = Some(k);
                }
            }
        }
        k += 1;
    }
    let caption = " sort: ".to_owned().concat(state.sort.label()).concat(" (Ctrl+S) · ").concat(
        text::decimal_string(state.resolvers.len() as u64).as_str(),
    ).concat(" resolvers (↑/↓ select) ");
    let out = TableView { rows, selected: place, caption };
    assert(drawn(*state, marks, complete, now, *th, selected, listing@, out));
    out
}

/// How far the table may be scrolled, so that its last page stays full.
pub fn clamp_scroll(scroll: usize, total: usize, table_height: u16) -> (out: usize)
    ensures
        ({
            let visible = if table_height > TABLE_CHROME {
                table_height - TABLE_CHROME
            } else {
                0
            };
            let most = if total > visible {
                total - visible
            } else {
                0
            };
            out == if scroll < most {
                scroll as int
            } else {
                most
            }
        }),
        out <= scroll && out <= total,
        table_height >= 3 && scroll + (table_height - 3) <= total ==> out == scroll,
        table_height >= 3 && total <= table_height - 3 ==> out == 0,
        table_height >= 3 && scroll + (table_height - 3) > total > table_height - 3 ==> out + (
        table_height - 3) == total,
{
    let visible: usize = if table_height > TABLE_CHROME {
        (table_height - TABLE_CHROME) as usize
    } else {
        0
    };
    let most: usize = if total > visible {
        total - visible
    } else {
        0
    };
    if scroll < most {
        scroll
    } else {
        most
    }
}

// ---------------------------------------------------------------- the map

/// How the dot of a row looks on the map, bold aside.
pub open spec fn dot_color(
    row: RowState,
    agreeing: bool,
    verdict: Option<TtlVerdict>,
    th: Theme,
) -> Look {
    if rows::subnet_blind(row) {
        th.muted.look()
    } else {
        match row {
            RowState::Idle => th.muted.look(),
            RowState::Pending => theme::colored(th.pending),
            RowState::Done { result, .. } => theme::colored(
                match result {
                    QueryResult::Records { .. } => if agreeing {
                        th.agree
                    } else {
                        match verdict {
                            Some(TtlVerdict::PastTtl) => th.stale,
                            Some(TtlVerdict::Upstream) => th.upstream,
                            None => th.differ,
                        }
                    },
                    _ => th.error,
                },
            ),
        }
    }
}

/// How the dot of row `i` looks on the map.
pub fn dot_look(
    state: &App,
    tally: &Summary,
    complete: bool,
    now: Instant,
    th: &Theme,
    i: usize,
) -> (out: Look)
    requires
        state.wf(),
        i < state.rows@.len(),
        tally.majority_rows@.len() >= state.rows@.len(),
    ensures
        out == theme::bold(
            dot_color(
                state.rows@[i as int],
                shown_agreeing(tally.majority_rows@, complete, i as int),
                shown_verdict(*state, tally.majority_rows@, complete, now, i as int),
                *th,
            ),
        ),
{
    let agreeing = !complete || tally.majority_rows[i];
    let verdict = verdict_shown(state, tally, complete, now, i);
    let look = match &state.rows[i] {
        RowState::Idle => th.muted.style(),
        RowState::Pending => Look::of(th.pending),
        RowState::Done { result, ecs_honored, .. } => match result {
            QueryResult::Records { .. } => match ecs_honored {
                Some(false) => th.muted.style(),
                _ => if agreeing {
                    Look::of(th.agree)
                } else {
                    match verdict {
                        Some(TtlVerdict::PastTtl) => Look::of(th.stale),
                        Some(TtlVerdict::Upstream) => Look::of(th.upstream),
                        None => Look::of(th.differ),
                    }
                },
            },
            QueryResult::NoRecords(_) => match ecs_honored {
                Some(false) => th.muted.style(),
                _ => Look::of(th.error),
            },
            QueryResult::ServFail => Look::of(th.error),
            QueryResult::Error(_) => Look::of(th.error),
        },
    };
    look.bold()
}

/// A row looks the same in the table and on the map: its dot has the color of
/// its status, once the round is complete.
pub proof fn dot_matches_status(
    row: RowState,
    agreeing: bool,
    verdict: Option<TtlVerdict>,
    frame: usize,
    th: Theme,
)
    ensures
        dot_color(row, agreeing, verdict, th).fg == status_cell(
            row,
            agreeing,
            if agreeing || ignored_subnet(row) {
                None
            } else {
                verdict
            },
            frame,
            th,
        ).look.fg,
{
}

// ---------------------------------------------------------------- laws of the cells

/// The cells of a row stand in the order of the columns: resolver, location,
/// address, time, TTL, expiry, status, answer.
pub proof fn rows_begin_with_the_resolver(
    state: App,
    marks: Seq<bool>,
    complete: bool,
    now: Instant,
    th: Theme,
    i: int,
)
    ensures
        ({
            let cells = row_cells(state, marks, complete, now, th, i);
            &&& cells.len() == 8
            &&& cells[0].text == state.resolvers@[i].name@
            &&& state.sites@[i] is Some ==> cells[1].text == "→"@ + state.sites@[i]->0.code@
                && cells[1].look == theme::colored(th.accent)
            &&& state.sites@[i] is None ==> cells[1].text == state.resolvers@[i].location@
                && cells[1].look == th.muted.look()
            &&& cells[2].text == address::ip_text(state.resolvers@[i].ip)
        }),
{
}

/// A row that is done shows its time in milliseconds: below 100 as agreement,
/// below 400 as pending, and above as an error.
pub proof fn times_are_colored_by_speed(
    state: App,
    marks: Seq<bool>,
    complete: bool,
    now: Instant,
    th: Theme,
    i: int,
)
    ensures
        ({
            let cell = row_cells(state, marks, complete, now, th, i)[3];
            let row = state.rows@[i];
            &&& row is Idle ==> cell == runs::raw("—"@)
            &&& row is Pending ==> cell == runs::raw("…"@)
            &&& row is Done ==> cell.text == text::decimal(
                (row->elapsed.nanos / 1_000_000) as nat,
            ) + "ms"@
            &&& row is Done && row->elapsed.nanos < 100_000_000 ==> cell.look == theme::colored(
                th.agree,
            )
            &&& row is Done && 100_000_000 <= row->elapsed.nanos < 400_000_000 ==> cell.look
                == theme::colored(th.pending)
            &&& row is Done && row->elapsed.nanos >= 400_000_000 ==> cell.look == theme::colored(
                th.error,
            )
        }),
{
}

/// Only rows with records show a TTL and a time to expiry: the smallest TTL that
/// was reported, and what is left of it in whole seconds.
pub proof fn records_show_their_ttl(
    state: App,
    marks: Seq<bool>,
    complete: bool,
    now: Instant,
    th: Theme,
    i: int,
)
    ensures
        ({
            let cells = row_cells(state, marks, complete, now, th, i);
            let row = state.rows@[i];
            let until = row->at.nanos + row->result->min_ttl * 1_000_000_000;
            &&& !(row is Done && row->result is Records) ==> cells[4] == runs::raw(""@) && cells[5]
                == runs::raw(""@)
            &&& row is Done && row->result is Records ==> cells[4] == runs::raw(
                text::decimal(row->result->min_ttl as nat),
            )
            &&& row is Done && row->result is Records && row->at.nanos <= now.nanos && until
                < now.nanos + 1_000_000_000 ==> cells[5].text == "expired"@
            &&& row is Done && row->result is Records && row->at.nanos <= now.nanos && until
                >= now.nanos + 1_000_000_000 ==> cells[5].text == app::span_text(
                ((until - now.nanos) / 1_000_000_000) as nat,
            )
        }),
{
}

/// The status of a row says what came of it: agreement with the majority or not,
/// once all have answered, and why not; no records; a failure; or that the subnet
/// was not used.
pub proof fn statuses_say_what_came(
    state: App,
    marks: Seq<bool>,
    complete: bool,
    now: Instant,
    th: Theme,
    i: int,
)
    ensures
        ({
            let cell = row_cells(state, marks, complete, now, th, i)[6];
            let row = state.rows@[i];
            let found = row is Done && row->result is Records && row->ecs_honored != Some(false);
            let verdict = history::verdict(state.history@[i]@, now);
            &&& row is Idle ==> cell.text == "idle"@
            &&& row is Pending ==> cell.text == seq![SPINNER@[state.spinner_frame as int % 10]]
                + " query"@ && cell.look == theme::colored(th.pending)
            &&& row is Done && row->result is Error ==> cell.text == "✗ ERR"@ && cell.look.fg
                == Some(th.error)
            &&& row is Done && row->result is ServFail ==> cell.text == "✗ SERVFAIL"@
                && cell.look.fg == Some(th.error)
            &&& row is Done && row->result is NoRecords && row->ecs_honored != Some(false)
                ==> cell.text == "∅ NONE"@ && cell.look.fg == Some(th.error)
            &&& row is Done && (row->result is NoRecords || row->result is Records)
                && row->ecs_honored == Some(false) ==> cell.text == "◌ NO ECS"@ && cell.look
                == th.muted.look()
            &&& found && (!complete || marks[i]) ==> cell.text == "✓ OK"@ && cell.look.fg == Some(
                th.agree,
            )
            &&& found && complete && !marks[i] && verdict is None ==> cell.text == "≠ DIFFERS"@
                && cell.look.fg == Some(th.differ)
            &&& found && complete && !marks[i] && verdict is Some && verdict->0 is PastTtl
                ==> cell.text == "! PAST TTL"@ && cell.look.fg == Some(th.stale)
            &&& found && complete && !marks[i] && verdict is Some && verdict->0 is Upstream
                ==> cell.text == "↻ UPSTREAM"@ && cell.look.fg == Some(th.upstream)
        }),
{
}

/// The answer of a row is its values, or why there are none; values that differ
/// have the color of the status.
pub proof fn answers_are_shown_as_they_came(
    state: App,
    marks: Seq<bool>,
    complete: bool,
    now: Instant,
    th: Theme,
    i: int,
)
    ensures
        ({
            let cells = row_cells(state, marks, complete, now, th, i);
            let cell = cells[7];
            let row = state.rows@[i];
            &&& !(row is Done) ==> cell == runs::raw(""@)
            &&& row is Done && row->result is Records ==> cell.text == text::joined(
                text::texts(row->result->values@),
                ", "@,
            )
            &&& row is Done && row->result is Records && (!complete || marks[i] || row->ecs_honored
                == Some(false)) ==> cell.look == theme::plain()
            &&& row is Done && row->result is Records && complete && !marks[i] && row->ecs_honored
                != Some(false) ==> cell.look.fg == cells[6].look.fg && !cell.look.bold
            &&& row is Done && row->result is NoRecords ==> cell.text
                == row->result->NoRecords_0@
            &&& row is Done && row->result is Error ==> cell.text == row->result->Error_0@
            &&& row is Done && row->result is ServFail ==> cell.text
                == "can't resolve — broken delegation or DNSSEC?"@
        }),
{
}

/// The dot of a row has the color of its status.
pub proof fn dots_have_the_color_of_what_came(
    row: RowState,
    agreeing: bool,
    verdict: Option<TtlVerdict>,
    th: Theme,
)
    ensures
        ({
            let look = dot_color(row, agreeing, verdict, th);
            let found = row is Done && row->result is Records && row->ecs_honored != Some(false);
            &&& row is Idle ==> look == th.muted.look()
            &&& row is Pending ==> look == theme::colored(th.pending)
            &&& row is Done && (row->result is Records || row->result is NoRecords)
                && row->ecs_honored == Some(false) ==> look == th.muted.look()
            &&& found && agreeing ==> look == theme::colored(th.agree)
            &&& found && !agreeing && verdict is None ==> look == theme::colored(th.differ)
            &&& found && !agreeing && verdict is Some && verdict->0 is PastTtl ==> look
                == theme::colored(th.stale)
            &&& found && !agreeing && verdict is Some && verdict->0 is Upstream ==> look
                == theme::colored(th.upstream)
            &&& row is Done && row->result is NoRecords && row->ecs_honored != Some(false) ==> look
                == theme::colored(th.error)
            &&& row is Done && row->ecs_honored is None && (row->result is ServFail || row->result
                is Error) ==> look == theme::colored(th.error)
        }),
{
}

/// The highlight stays with its resolver wherever the order puts it.
pub proof fn the_highlight_follows_its_resolver(
    state: App,
    marks: Seq<bool>,
    complete: bool,
    now: Instant,
    th: Theme,
    selected: usize,
    listing: Seq<usize>,
    out: TableView,
)
    requires
        drawn(state, marks, complete, now, th, Some(selected), listing, out),
        listing.contains(selected),
    ensures
        out.selected is Some,
        listing[out.selected->0 as int] == selected,
        runs::runs(out.rows@[out.selected->0 as int]@) == row_cells(
            state,
            marks,
            complete,
            now,
            th,
            selected as int,
        ),
        out.rows@.len() == state.rows@.len(),
{
}

/// The caption names the order of the rows and counts the resolvers.
pub proof fn the_caption_names_the_order(state: App)
    ensures
        caption_text(state) == " sort: "@ + state.sort.title() + " (Ctrl+S) · "@ + text::decimal(
            state.resolvers@.len(),
        ) + " resolvers (↑/↓ select) "@,
{
}

/// The mark of a waiting row turns through ten positions.
pub proof fn the_mark_turns_in_ten_steps(frame: usize)
    requires
        frame < usize::MAX - 10,
    ensures
        spinner(frame).len() == 1,
        spinner((frame + 10) as usize) == spinner(frame),
        frame % 10 == 0 ==> spinner(frame) == seq!['⠋'],
        frame % 10 == 9 ==> spinner(frame) == seq!['⠏'],
{
}

/// The columns take the width of the table, with a space between two of them and
/// a border on each side.
pub proof fn columns_make_up_the_table()
    ensures
        COLUMN_WIDTHS@.len() == COLUMNS@.len(),
        COLUMN_WIDTHS[0] + COLUMN_WIDTHS[1] + COLUMN_WIDTHS[2] + COLUMN_WIDTHS[3] + COLUMN_WIDTHS[4]
            + COLUMN_WIDTHS[5] + COLUMN_WIDTHS[6] + COLUMN_WIDTHS[7] + 7 + 2 == 103,
{
}

/// A status stands out in bold in its own color, but for what is waiting, idle or
/// muted.
pub proof fn statuses_stand_out_in_bold(
    state: App,
    marks: Seq<bool>,
    complete: bool,
    now: Instant,
    th: Theme,
    i: int,
)
    ensures
        ({
            let look = row_cells(state, marks, complete, now, th, i)[6].look;
            let row = state.rows@[i];
            let found = row is Done && row->result is Records && row->ecs_honored != Some(false);
            let verdict = history::verdict(state.history@[i]@, now);
            &&& row is Idle ==> look == th.muted.look()
            &&& row is Done && (row->result is Error || row->result is ServFail || row->result
                is NoRecords && row->ecs_honored != Some(false)) ==> look == theme::bold(
                theme::colored(th.error),
            )
            &&& found && (!complete || marks[i]) ==> look == theme::bold(theme::colored(th.agree))
            &&& found && complete && !marks[i] ==> look == theme::bold(
                theme::colored(
                    match verdict {
                        None => th.differ,
                        Some(TtlVerdict::PastTtl) => th.stale,
                        Some(TtlVerdict::Upstream) => th.upstream,
                    },
                ),
            )
        }),
{
}

/// The time to expiry is muted, but for an answer outside the majority, where it
/// looks as the status does; once it has run out it is in italics.
pub proof fn expiry_looks_as_the_status_where_it_matters(
    state: App,
    marks: Seq<bool>,
    complete: bool,
    now: Instant,
    th: Theme,
    i: int,
)
    requires
        state.rows@[i] is Done,
        state.rows@[i]->result is Records,
        state.rows@[i]->at.nanos <= now.nanos,
    ensures
        ({
            let cells = row_cells(state, marks, complete, now, th, i);
            let row = state.rows@[i];
            let until = row->at.nanos + row->result->min_ttl * 1_000_000_000;
            let outside = complete && !marks[i] && row->ecs_honored != Some(false);
            &&& until < now.nanos + 1_000_000_000 ==> cells[5].look == theme::italic(
                th.muted.look(),
            )
            &&& until >= now.nanos + 1_000_000_000 && !outside ==> cells[5].look == th.muted.look()
            &&& until >= now.nanos + 1_000_000_000 && outside ==> cells[5].look == cells[6].look
        }),
{
}

/// The name looks plain and the address muted; why there is no answer has the
/// color of an error, in italics where the resolver could not be asked, and is
/// muted where the subnet was not used.
pub proof fn reasons_look_like_errors(
    state: App,
    marks: Seq<bool>,
    complete: bool,
    now: Instant,
    th: Theme,
    i: int,
)
    ensures
        ({
            let cells = row_cells(state, marks, complete, now, th, i);
            let row = state.rows@[i];
            &&& cells[0].look == theme::plain()
            &&& cells[2].look == th.muted.look()
            &&& row is Done && row->result is NoRecords && row->ecs_honored == Some(false)
                ==> cells[7].look == th.muted.look()
            &&& row is Done && row->result is NoRecords && row->ecs_honored != Some(false)
                ==> cells[7].look == theme::colored(th.error)
            &&& row is Done && row->result is ServFail ==> cells[7].look == theme::colored(th.error)
            &&& row is Done && row->result is Error ==> cells[7].look == theme::italic(
                theme::colored(th.error),
            )
        }),
{
}

/// The dot of a failed or an unreachable resolver has the color of an error,
/// whatever is known of the subnet.
pub proof fn failures_are_dots_of_errors(
    row: RowState,
    agreeing: bool,
    verdict: Option<TtlVerdict>,
    th: Theme,
)
    requires
        row is Done,
        row->result is ServFail || row->result is Error,
    ensures
        dot_color(row, agreeing, verdict, th) == theme::colored(th.error),
{
}

/// The table has a row of cells for each place of the order; without a highlight,
/// and with one that is not listed, none is marked.
pub proof fn tables_show_the_rows_in_order(
    state: App,
    marks: Seq<bool>,
    complete: bool,
    now: Instant,
    th: Theme,
    selected: Option<usize>,
    listing: Seq<usize>,
    out: TableView,
    k: int,
)
    requires
        drawn(state, marks, complete, now, th, selected, listing, out),
        0 <= k < listing.len(),
    ensures
        out.rows@.len() == listing.len(),
        runs::runs(out.rows@[k]@) == row_cells(
            state,
            marks,
            complete,
            now,
            th,
            listing[k] as int,
        ),
        selected is None ==> out.selected is None,
        selected is Some && !listing.contains(selected->0) ==> out.selected is None,
        out.caption@ == caption_text(state),
{
    if let Some(p) = out.selected {
        assert(listing[p as int] == selected->0);
        assert(listing.contains(selected->0));
    }
}

} // verus!

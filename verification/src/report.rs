//! The plain-text report of a single check.
use vstd::prelude::*;

use crate::address;
use crate::app;
use crate::app::App;
use crate::clock::NANOS_PER_MILLI;
use crate::dns;
use crate::dns::{ClientSubnet, QueryResult};
use crate::panels;
use crate::records::RecordType;
use crate::resolvers::Resolver;
use crate::rows::RowState;
use crate::sites::Site;
use crate::summary::Summary;
use crate::table;
use crate::text;

verus! {

/// How long an answer took, right-aligned.
pub open spec fn millis_text(nanos: u64) -> Seq<char> {
    text::pad_left(text::decimal((nanos / NANOS_PER_MILLI) as nat), 5) + "ms  "@
}

/// What a row says.
pub open spec fn result_text(row: RowState, agreeing: bool) -> Seq<char> {
    match row {
        RowState::Done { result, elapsed, .. } => {
            let ignored = table::ignored_subnet(row);
            let time = millis_text(elapsed.nanos);
            match result {
                QueryResult::Records { values, min_ttl } => (if ignored {
                    "NO-ECS  "@
                } else if agreeing {
                    "OK      "@
                } else {
                    "DIFFERS "@
                }) + time + "ttl="@ + text::pad_right(text::decimal(min_ttl as nat), 7) + " "@
                    + text::joined(text::texts(values@), ", "@),
                QueryResult::NoRecords(reason) => (if ignored {
                    "NO-ECS  "@
                } else {
                    "NONE    "@
                }) + time + reason@,
                QueryResult::ServFail => "FAIL    "@ + time
                    + "SERVFAIL (can't resolve — broken delegation or DNSSEC?)"@,
                QueryResult::Error(reason) => "ERR     "@ + time + reason@,
            }
        },
        _ => "??"@,
    }
}

/// Where the answers of a resolver come from.
pub open spec fn place_text(site: Option<Site>, resolver: Resolver) -> Seq<char> {
    match site {
        Some(found) => "→"@ + found.code@,
        None => resolver.location@,
    }
}

/// The line of a row: name, location and address in columns, then the result.
pub open spec fn row_text(state: App, marks: Seq<bool>, i: int) -> Seq<char> {
    let resolver = state.resolvers@[i];
    text::pad_right(resolver.name@, 22) + " "@ + text::pad_right(
        place_text(state.sites@[i], resolver),
        8,
    ) + " "@ + text::pad_right(address::ip_text(resolver.ip), 16) + " "@ + result_text(
        state.rows@[i],
        marks[i],
    )
}

/// The lines of the first `n` rows.
pub open spec fn row_lines(state: App, marks: Seq<bool>, n: nat) -> Seq<Seq<char>> {
    Seq::new(n, |i: int| row_text(state, marks, i))
}

/// What was asked.
pub open spec fn heading_text(domain: Seq<char>, rtype: RecordType, ecs: Option<ClientSubnet>) -> Seq<
    char,
> {
    match ecs {
        Some(subnet) => domain + " "@ + rtype.label() + " · ecs "@ + dns::ecs_text(subnet),
        None => domain + " "@ + rtype.label(),
    }
}

/// The counts of a round.
pub open spec fn totals_text(tally: Summary) -> Seq<char> {
    text::decimal(tally.ok as nat) + " of "@ + text::decimal(tally.responding as nat)
        + " responding · "@ + text::decimal(tally.servfail as nat) + " servfail · "@
        + text::decimal(tally.errors as nat) + " unreachable · "@ + text::decimal(
        tally.groups as nat,
    ) + " answer group(s)"@ + panels::note(tally.ecs_blind as nat, " no-ecs"@)
}

/// The majority's answer.
pub open spec fn agreement_text(tally: Summary) -> Seq<char> {
    "propagation ("@ + text::decimal(tally.agree as nat) + "/"@ + text::decimal(
        tally.responding as nat,
    ) + " responding): "@ + text::joined(text::texts(tally.majority_values@), ", "@)
}

/// The advice to lower a TTL.
pub open spec fn ttl_note(ttl: u32) -> Seq<char> {
    "note: TTL ≈ "@ + app::span_text(ttl as nat)
        + " — planning a record change? lower the TTL first, then wait one old-TTL period before switching."@
}

/// The lines of the report of a round. `long` is the TTL to speak of, which is
/// only done for a single round: it does not change with the vantage point.
pub open spec fn round_text(state: App, tally: Summary, multi: bool, long: Option<u32>) -> Seq<
    Seq<char>,
> {
    let (domain, rtype, ecs) = state.queried->0;
    seq![heading_text(domain@, rtype, ecs), Seq::empty()] + row_lines(
        state,
        tally.majority_rows@,
        state.rows@.len(),
    ) + seq![Seq::empty(), totals_text(tally)] + (if tally.agree > 0 {
        seq![agreement_text(tally)]
    } else {
        Seq::empty()
    }) + (if !multi && long is Some {
        seq![ttl_note(long->0)]
    } else {
        Seq::empty()
    })
}

/// What a row says.
fn result_string(row: &RowState, agreeing: bool) -> (out: String)
    ensures
        out@ == result_text(*row, agreeing),
{
    match row {
        RowState::Done { result, elapsed, ecs_honored, .. } => {
            let ignored = match ecs_honored {
                Some(honored) => !*honored,
                None => false,
            };
            let millis = text::decimal_string(elapsed.as_millis());
            let time = text::pad_left_string(millis.as_str(), 5).concat("ms  ");
            match result {
                QueryResult::Records { values, min_ttl } => {
                    let status = if ignored {
                        "NO-ECS  "
                    } else if agreeing {
                        "OK      "
                    } else {
                        "DIFFERS "
                    };
                    let ttl = text::decimal_string(*min_ttl as u64);
                    status.to_owned().concat(time.as_str()).concat("ttl=").concat(
                        text::pad_right_string(ttl.as_str(), 7).as_str(),
                    ).concat(" ").concat(text::joined_string(values, ", ").as_str())
                },
                QueryResult::NoRecords(reason) => {
                    let status = if ignored {
                        "NO-ECS  "
                    } else {
                        "NONE    "
                    };
                    status.to_owned().concat(time.as_str()).concat(reason.as_str())
                },
                QueryResult::ServFail => "FAIL    ".to_owned().concat(time.as_str()).concat(
                    "SERVFAIL (can't resolve — broken delegation or DNSSEC?)",
                ),
                QueryResult::Error(reason) => "ERR     ".to_owned().concat(time.as_str()).concat(
                    reason.as_str(),
                ),
            }
        },
        _ => "??".to_owned(),
    }
}

/// The line of a row.
fn row_string(state: &App, tally: &Summary, i: usize) -> (out: String)
    requires
        state.wf(),
        i < state.rows@.len(),
        tally.majority_rows@.len() >= state.rows@.len(),
    ensures
        out@ == row_text(*state, tally.majority_rows@, i as int),
{
    let resolver = &state.resolvers[i];
    let place = match &state.sites[i] {
        Some(found) => "→".to_owned().concat(found.code.as_str()),
        None => resolver.location.clone(),
    };
    text::pad_right_string(resolver.name.as_str(), 22).concat(" ").concat(
        text::pad_right_string(place.as_str(), 8).as_str(),
    ).concat(" ").concat(
        text::pad_right_string(address::ip_string(resolver.ip).as_str(), 16).as_str(),
    ).concat(" ").concat(result_string(&state.rows[i], tally.majority_rows[i]).as_str())
}

/// What was asked.
fn heading_string(domain: &str, rtype: RecordType, ecs: &Option<ClientSubnet>) -> (out: String)
    ensures
        out@ == heading_text(domain@, rtype, *ecs),
{
    match ecs {
        Some(subnet) => domain.to_owned().concat(" ").concat(rtype.name()).concat(
            " · ecs ",
        ).concat(dns::fmt_ecs(subnet).as_str()),
        None => domain.to_owned().concat(" ").concat(rtype.name()),
    }
}

/// The counts of a round.
fn totals_string(tally: &Summary) -> (out: String)
    ensures
        out@ == totals_text(*tally),
{
    let blind = if tally.ecs_blind > 0 {
        " · ".to_owned().concat(text::decimal_string(tally.ecs_blind as u64).as_str()).concat(
            " no-ecs",
        )
    } else {
        String::new()
    };
    assert(blind@ =~= panels::note(tally.ecs_blind as nat, " no-ecs"@));
    text::decimal_string(tally.ok as u64).concat(" of ").concat(
        text::decimal_string(tally.responding as u64).as_str(),
    ).concat(" responding · ").concat(
        text::decimal_string(tally.servfail as u64).as_str(),
    ).concat(" servfail · ").concat(text::decimal_string(tally.errors as u64).as_str()).concat(
        " unreachable · ",
    ).concat(text::decimal_string(tally.groups as u64).as_str()).concat(
        " answer group(s)",
    ).concat(blind.as_str())
}

/// Puts a line at the end of a report.
fn add(list: &mut Vec<String>, line: String)
    ensures
        text::texts(final(list)@) == text::texts(old(list)@).push(line@),
{
    list.push(line);
    assert(text::texts(list@) =~= text::texts(old(list)@).push(line@));
}

/// The lines of the report of a round. With `multi`, it is one of several.
pub fn round_lines(state: &App, tally: &Summary, multi: bool) -> (out: Vec<String>)
    requires
        state.wf(),
        state.queried is Some,
        tally.majority_rows@.len() >= state.rows@.len(),
    ensures
        exists|estimate: Option<u32>| #[trigger]
            app::largest_ttl(state.rows@, tally.majority_rows@, estimate) && text::texts(out@)
                == round_text(*state, *tally, multi, panels::long_ttl(*tally, estimate)),
{
    let ghost marks = tally.majority_rows@;
    let mut out: Vec<String> = Vec::new();
    if let Some((domain, rtype, ecs)) = &state.queried {
        self::add(&mut out, heading_string(domain.as_str(), *rtype, ecs));
    }
    let blank = String::new();
    assert(blank@ =~= Seq::<char>::empty());
    self::add(&mut out, blank);
    let ghost top = text::texts(out@);
    let mut i: usize = 0;
    assert(top + row_lines(*state, marks, 0) =~= top);
    while i < state.rows.len()
        invariant
            i <= state.rows@.len(),
            state.wf(),
            marks == tally.majority_rows@,
            marks.len() >= state.rows@.len(),
            text::texts(out@) == top + row_lines(*state, marks, i as nat),
        decreases state.rows@.len() - i,
    {
        let ghost before = text::texts(out@);
        self::add(&mut out, row_string(state, tally, i));
        assert(text::texts(out@) =~= top + row_lines(*state, marks, (i + 1) as nat));
        i += 1;
    }
    let blank = String::new();
    assert(blank@ =~= Seq::<char>::empty());
    self::add(&mut out, blank);
    self::add(&mut out, totals_string(tally));
    if tally.agree > 0 {
        let line = "propagation (".to_owned().concat(
            text::decimal_string(tally.agree as u64).as_str(),
        ).concat("/").concat(text::decimal_string(tally.responding as u64).as_str()).concat(
            " responding): ",
        ).concat(text::joined_string(&tally.majority_values, ", ").as_str());
        self::add(&mut out, line);
    }
    let long = panels::long_ttl_of(state, tally);
    let ghost estimate = choose|estimate: Option<u32>| #[trigger]
        app::largest_ttl(state.rows@, marks, estimate) && long == panels::long_ttl(
            *tally,
            estimate,
        );
    if !multi {
        if let Some(ttl) = long {
            self::add(
                &mut out,
                "note: TTL ≈ ".to_owned().concat(app::fmt_secs(ttl as u64).as_str()).concat(
                    " — planning a record change? lower the TTL first, then wait one old-TTL period before switching.",
                ),
            );
        }
    }
    assert(app::largest_ttl(state.rows@, marks, estimate));
    assert(text::texts(out@) =~= round_text(
        *state,
        *tally,
        multi,
        panels::long_ttl(*tally, estimate),
    ));
    out
}

// ---------------------------------------------------------------- several subnets

/// The selections to make rounds for: each subnet in turn, or none of them
/// when there are none.
pub fn selections(subnets: usize) -> (out: Vec<Option<usize>>)
    ensures
        out@ == if subnets == 0 {
            seq![None]
        } else {
            Seq::new(subnets as nat, |i: int| Some(i as usize))
        },
{
    let mut out: Vec<Option<usize>> = Vec::new();
    if subnets == 0 {
        out.push(None);
        assert(out@ =~= seq![None]);
        return out;
    }
    let mut i: usize = 0;
    while i < subnets
        invariant
            i <= subnets,
            out@ == Seq::new(i as nat, |k: int| Some(k as usize)),
        decreases subnets - i,
    {
        out.push(Some(i));
        assert(out@ =~= Seq::new((i + 1) as nat, |k: int| Some(k as usize)));
        i += 1;
    }
    out
}

/// What a round came to, in one line.
pub open spec fn convergence_text(subnet: ClientSubnet, tally: Summary) -> Seq<char> {
    "  "@ + text::pad_right(dns::ecs_text(subnet), 20) + " "@ + if tally.agree > 0 {
        text::pad_left(text::decimal(tally.agree as nat), 2) + "/"@ + text::decimal(
            tally.responding as nat,
        ) + " → "@ + text::joined(text::texts(tally.majority_values@), ", "@)
    } else {
        "no agreement"@
    }
}

/// What a round came to, in one line.
pub fn convergence_line(subnet: &ClientSubnet, tally: &Summary) -> (out: String)
    ensures
        out@ == convergence_text(*subnet, *tally),
{
    let answer = if tally.agree > 0 {
        let agree = text::decimal_string(tally.agree as u64);
        text::pad_left_string(agree.as_str(), 2).concat("/").concat(
            text::decimal_string(tally.responding as u64).as_str(),
        ).concat(" → ").concat(text::joined_string(&tally.majority_values, ", ").as_str())
    } else {
        "no agreement".to_owned()
    };
    "  ".to_owned().concat(
        text::pad_right_string(dns::fmt_ecs(subnet).as_str(), 20).as_str(),
    ).concat(" ").concat(answer.as_str())
}

/// The line above what the rounds came to.
pub fn convergence_heading(domain: &str, rtype: RecordType) -> (out: String)
    ensures
        out@ == "ecs convergence for "@ + domain@ + " "@ + rtype.label() + ":"@,
{
    "ecs convergence for ".to_owned().concat(domain).concat(" ").concat(rtype.name()).concat(":")
}

// ---------------------------------------------------------------- laws

/// The line of a row says what came of it in a word of eight characters, then how
/// long it took, and then what came.
pub proof fn rows_are_reported_by_what_came(row: RowState, agreeing: bool)
    requires
        row is Done,
    ensures
        ({
            let words = result_text(row, agreeing);
            let time = text::pad_left(
                text::decimal((row->elapsed.nanos / 1_000_000) as nat),
                5,
            ) + "ms  "@;
            let ttl = "ttl="@ + text::pad_right(
                text::decimal(row->result->min_ttl as nat),
                7,
            ) + " "@ + text::joined(text::texts(row->result->values@), ", "@);
            &&& row->result is Records && row->ecs_honored == Some(false) ==> words =~= "NO-ECS  "@
                + time + ttl
            &&& row->result is Records && row->ecs_honored != Some(false) && agreeing ==> words
                =~= "OK      "@ + time + ttl
            &&& row->result is Records && row->ecs_honored != Some(false) && !agreeing ==> words
                =~= "DIFFERS "@ + time + ttl
            &&& row->result is NoRecords && row->ecs_honored == Some(false) ==> words
                =~= "NO-ECS  "@ + time + row->result->NoRecords_0@
            &&& row->result is NoRecords && row->ecs_honored != Some(false) ==> words
                =~= "NONE    "@ + time + row->result->NoRecords_0@
            &&& row->result is ServFail ==> words =~= "FAIL    "@ + time
                + "SERVFAIL (can't resolve — broken delegation or DNSSEC?)"@
            &&& row->result is Error ==> words =~= "ERR     "@ + time + row->result->Error_0@
        }),
{
}

/// A round is reported as its heading, an empty line, a line for each resolver in
/// the order of the list, an empty line and the totals; then the majority answer,
/// if there is one, and the note on a long TTL, in a single round.
pub proof fn rounds_are_reported_line_by_line(
    state: App,
    tally: Summary,
    multi: bool,
    long: Option<u32>,
)
    requires
        state.queried is Some,
    ensures
        ({
            let lines = round_text(state, tally, multi, long);
            let n = state.rows@.len() as int;
            let extra: int = if tally.agree > 0 {
                1
            } else {
                0
            };
            &&& lines.len() == n + 4 + extra + if !multi && long is Some {
                1int
            } else {
                0int
            }
            &&& lines[0] == heading_text(
                (state.queried->0).0@,
                (state.queried->0).1,
                (state.queried->0).2,
            )
            &&& lines[1].len() == 0
            &&& forall|i: int|
                0 <= i < n ==> lines[#[trigger] (2 + i)] == row_text(state, tally.majority_rows@, i)
            &&& lines[n + 2].len() == 0
            &&& lines[n + 3] == totals_text(tally)
            &&& tally.agree > 0 ==> lines[n + 4] == agreement_text(tally)
            &&& !multi && long is Some ==> lines[n + 4 + extra] == ttl_note(long->0)
        }),
{
}

/// A round is headed by what was asked, in order.
pub proof fn headings_say_what_was_asked(domain: Seq<char>, rtype: RecordType, subnet: ClientSubnet)
    ensures
        heading_text(domain, rtype, None) == domain + " "@ + rtype.label(),
        heading_text(domain, rtype, Some(subnet)) == heading_text(domain, rtype, None) + " · ecs "@
            + dns::ecs_text(subnet),
{
}

/// A line names its resolver, where it answered, and its address, in columns, in
/// front of what came.
pub proof fn rows_are_reported_by_resolver(state: App, marks: Seq<bool>, i: int)
    ensures
        state.sites@[i] is None ==> row_text(state, marks, i) == text::pad_right(
            state.resolvers@[i].name@,
            22,
        ) + " "@ + text::pad_right(state.resolvers@[i].location@, 8) + " "@ + text::pad_right(
            address::ip_text(state.resolvers@[i].ip),
            16,
        ) + " "@ + result_text(state.rows@[i], marks[i]),
        state.sites@[i] is Some ==> row_text(state, marks, i) == text::pad_right(
            state.resolvers@[i].name@,
            22,
        ) + " "@ + text::pad_right("→"@ + state.sites@[i]->0.code@, 8) + " "@ + text::pad_right(
            address::ip_text(state.resolvers@[i].ip),
            16,
        ) + " "@ + result_text(state.rows@[i], marks[i]),
{
}

/// The comparison of subnets gives the agreement of each, or that there is none.
pub proof fn subnets_are_compared_by_their_agreement(subnet: ClientSubnet, tally: Summary)
    ensures
        tally.agree == 0 ==> convergence_text(subnet, tally) == "  "@ + text::pad_right(
            dns::ecs_text(subnet),
            20,
        ) + " "@ + "no agreement"@,
        tally.agree > 0 ==> convergence_text(subnet, tally) == "  "@ + text::pad_right(
            dns::ecs_text(subnet),
            20,
        ) + " "@ + (text::pad_left(text::decimal(tally.agree as nat), 2) + "/"@ + text::decimal(
            tally.responding as nat,
        ) + " → "@ + text::joined(text::texts(tally.majority_values@), ", "@)),
{
}

/// The totals are those of the tally, each in front of its own name; answers
/// without the subnet are named only where there are any.
pub proof fn totals_are_those_of_the_tally(tally: Summary)
    ensures
        ({
            let counts = text::decimal(tally.ok as nat) + " of "@ + text::decimal(
                tally.responding as nat,
            ) + " responding · "@ + text::decimal(tally.servfail as nat) + " servfail · "@
                + text::decimal(tally.errors as nat) + " unreachable · "@ + text::decimal(
                tally.groups as nat,
            ) + " answer group(s)"@;
            &&& tally.ecs_blind == 0 ==> totals_text(tally) =~= counts
            &&& tally.ecs_blind > 0 ==> totals_text(tally) =~= counts + " · "@ + text::decimal(
                tally.ecs_blind as nat,
            ) + " no-ecs"@
        }),
        agreement_text(tally) == "propagation ("@ + text::decimal(tally.agree as nat) + "/"@
            + text::decimal(tally.responding as nat) + " responding): "@ + text::joined(
            text::texts(tally.majority_values@),
            ", "@,
        ),
{
}

/// The note gives the TTL and what to do about it.
pub proof fn the_note_gives_the_ttl(ttl: u32)
    ensures
        ttl_note(ttl) == "note: TTL ≈ "@ + app::span_text(ttl as nat)
            + " — planning a record change? lower the TTL first, then wait one old-TTL period before switching."@,
{
}

} // verus!

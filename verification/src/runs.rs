//! Styled text: runs of characters that look the same.
use vstd::prelude::*;

use crate::text;
use crate::theme;
use crate::theme::Look;

verus! {

/// Characters that look the same.
#[derive(Debug, Clone)]
pub struct Run {
    pub text: String,
    pub look: Look,
}

/// What a run holds.
#[verifier::ext_equal]
pub struct RunView {
    pub text: Seq<char>,
    pub look: Look,
}

impl View for Run {
    type V = RunView;

    open spec fn view(&self) -> RunView {
        RunView { text: self.text@, look: self.look }
    }
}

/// A run of this text and look.
pub open spec fn run(s: Seq<char>, look: Look) -> RunView {
    RunView { text: s, look }
}

/// A run of text as it comes.
pub open spec fn raw(s: Seq<char>) -> RunView {
    RunView { text: s, look: theme::plain() }
}

/// What the runs of a line hold.
pub open spec fn runs(line: Seq<Run>) -> Seq<RunView> {
    line.map_values(|r: Run| r@)
}

/// What the runs of some lines hold.
pub open spec fn lines(list: Seq<Vec<Run>>) -> Seq<Seq<RunView>> {
    list.map_values(|line: Vec<Run>| runs(line@))
}

impl Run {
    /// A run of this text and look.
    pub fn new(s: &str, look: Look) -> (out: Run)
        ensures
            out@ == run(s@, look),
    {
        Run { text: s.to_owned(), look }
    }

    /// A run of text as it comes.
    pub fn raw(s: &str) -> (out: Run)
        ensures
            out@ == raw(s@),
    {
        Run { text: s.to_owned(), look: Look::new() }
    }
}

/// Puts a run at the end of a line.
pub fn add_run(line: &mut Vec<Run>, r: Run)
    ensures
        runs(final(line)@) == runs(old(line)@).push(r@),
        final(line)@ == old(line)@.push(r),
{
    line.push(r);
    assert(runs(line@) =~= runs(old(line)@).push(r@));
}

/// A line without runs.
pub fn empty_line() -> (out: Vec<Run>)
    ensures
        runs(out@) == Seq::<RunView>::empty(),
        out@.len() == 0,
{
    let out: Vec<Run> = Vec::new();
    assert(runs(out@) =~= Seq::<RunView>::empty());
    out
}

/// A line of one run.
pub fn line_of(r: Run) -> (out: Vec<Run>)
    ensures
        runs(out@) == seq![r@],
{
    let mut out = empty_line();
    add_run(&mut out, r);
    assert(runs(out@) =~= seq![r@]);
    out
}

/// Puts a line at the end of some lines.
pub fn add_line(list: &mut Vec<Vec<Run>>, line: Vec<Run>)
    ensures
        lines(final(list)@) == lines(old(list)@).push(runs(line@)),
{
    list.push(line);
    assert(lines(list@) =~= lines(old(list)@).push(runs(line@)));
}

/// A number and what is counted.
pub open spec fn counted(n: nat, what: Seq<char>) -> Seq<char> {
    text::decimal(n) + what
}

/// A number and what is counted.
pub fn count_of(n: usize, what: &str) -> (out: String)
    ensures
        out@ == counted(n as nat, what@),
{
    text::decimal_string(n as u64).concat(what)
}

// ---------------------------------------------------------------- laws

/// A line says and shows what its runs do, one by one, and so do its lines.
pub proof fn lines_show_their_runs(line: Seq<Run>, list: Seq<Vec<Run>>)
    ensures
        runs(line).len() == line.len(),
        forall|i: int|
            0 <= i < line.len() ==> (#[trigger] runs(line)[i]).text == line[i].text@ && runs(
                line,
            )[i].look == line[i].look,
        lines(list).len() == list.len(),
        forall|i: int| 0 <= i < list.len() ==> #[trigger] lines(list)[i] == runs(list[i]@),
{
}

/// A run has the text and the look that it is made of; a raw one looks plain; a
/// count stands in front of what is counted.
pub proof fn runs_hold_what_they_are_made_of(s: Seq<char>, look: Look, n: nat)
    ensures
        run(s, look).text == s && run(s, look).look == look,
        raw(s).text == s && raw(s).look.fg is None && raw(s).look.bg is None && !raw(s).look.bold
            && !raw(s).look.italic && !raw(s).look.dim,
        counted(n, s) == text::decimal(n) + s,
{
}

} // verus!

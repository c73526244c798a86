//! What the keys do.
use vstd::prelude::*;

use crate::app;
use crate::app::{App, Round, ViewMode};
use crate::clock::Instant;
use crate::globe;
use crate::input;
use crate::panels;
use crate::scan::Class;
use crate::text;

verus! {

/// A key.
#[derive(Debug, Clone, Copy, PartialEq, Eq, Structural)]
pub enum Key {
    Esc,
    Enter,
    Tab,
    BackTab,
    Left,
    Right,
    Up,
    Down,
    Home,
    End,
    PageUp,
    PageDown,
    Backspace,
    Delete,
    Char(char),
    Other,
}

/// The keys held down with another.
#[derive(Debug, Clone, Copy, PartialEq, Eq, Structural)]
pub struct Modifiers {
    pub control: bool,
    pub alt: bool,
    /// The key with the logo.
    pub logo: bool,
}

/// What a key asks for.
#[derive(Debug, Clone, Copy, PartialEq, Eq, Structural)]
pub enum Action {
    Quit,
    /// Open the dialog that adds a resolver.
    OpenForm,
    /// Take the highlighted resolver off the list.
    RemoveSelected,
    ClearDomain,
    NextSort,
    ToggleGlobe,
    NextSubnet,
    ToggleWatch,
    Query,
    NextType,
    PreviousType,
    CursorHome,
    CursorEnd,
    WordLeft,
    WordRight,
    CursorLeft,
    CursorRight,
    /// Move the highlight by so many rows.
    MoveSelection(i32),
    Backspace,
    Delete,
    Insert(char),
    Ignore,
}

/// Can a character stand in a domain name?
pub open spec fn in_domain(c: char) -> bool {
    Class::Alphanumeric.holds(c) || c == '.' || c == '-' || c == '_'
}

/// What a character asks for, with the control key held down.
pub open spec fn control_action(c: char) -> Option<Action> {
    if c == 'c' {
        Some(Action::Quit)
    } else if c == 'x' {
        Some(Action::RemoveSelected)
    } else if c == 'u' {
        Some(Action::ClearDomain)
    } else if c == 's' {
        Some(Action::NextSort)
    } else if c == 'o' {
        Some(Action::ToggleGlobe)
    } else if c == 'n' {
        Some(Action::NextSubnet)
    } else if c == 'r' {
        Some(Action::ToggleWatch)
    } else {
        None
    }
}

/// What a character asks for.
pub open spec fn char_action(c: char, held: Modifiers) -> Action {
    if c == '+' {
        Action::OpenForm
    } else if held.control && control_action(c) is Some {
        control_action(c)->0
    } else if held.alt && c == 'b' {
        Action::WordLeft
    } else if held.alt && c == 'f' {
        Action::WordRight
    } else if held.control && c == 'a' {
        Action::CursorHome
    } else if held.control && c == 'e' {
        Action::CursorEnd
    } else if !held.control && !held.alt && !held.logo && in_domain(c) {
        Action::Insert(text::lower_char(c))
    } else {
        Action::Ignore
    }
}

/// What a key asks for.
pub open spec fn action_of(key: Key, held: Modifiers) -> Action {
    match key {
        Key::Esc => Action::Quit,
        Key::Enter => Action::Query,
        Key::Tab => Action::NextType,
        Key::BackTab => Action::PreviousType,
        Key::Left => if held.logo {
            Action::CursorHome
        } else if held.alt || held.control {
            Action::WordLeft
        } else {
            Action::CursorLeft
        },
        Key::Right => if held.logo {
            Action::CursorEnd
        } else if held.alt || held.control {
            Action::WordRight
        } else {
            Action::CursorRight
        },
        Key::Up => Action::MoveSelection((-1) as i32),
        Key::Down => Action::MoveSelection(1),
        Key::PageUp => Action::MoveSelection((-10) as i32),
        Key::PageDown => Action::MoveSelection(10),
        Key::Home => Action::CursorHome,
        Key::End => Action::CursorEnd,
        Key::Backspace => Action::Backspace,
        Key::Delete => Action::Delete,
        Key::Char(c) => char_action(c, held),
        Key::Other => Action::Ignore,
    }
}

/// Can a character stand in a domain name?
fn fits_domain(c: char) -> (out: bool)
    ensures
        out == in_domain(c),
{
    Class::Alphanumeric.has(c) || c == '.' || c == '-' || c == '_'
}

/// The lower-case form of an ASCII letter.
fn lowered(c: char) -> (out: char)
    ensures
        out == text::lower_char(c),
{
    if 'A' <= c && c <= 'Z' {
        (c as u8 + 32) as char
    } else {
        c
    }
}

/// What a key asks for.
pub fn action_for(key: Key, held: Modifiers) -> (out: Action)
    ensures
        out == action_of(key, held),
{
    match key {
        Key::Esc => Action::Quit,
        // A plus sign never stands in a domain name, so it is free.
        Key::Char('+') => Action::OpenForm,
        Key::Char('c') if held.control => Action::Quit,
        Key::Char('x') if held.control => Action::RemoveSelected,
        Key::Char('u') if held.control => Action::ClearDomain,
        Key::Char('s') if held.control => Action::NextSort,
        Key::Char('o') if held.control => Action::ToggleGlobe,
        Key::Char('n') if held.control => Action::NextSubnet,
        Key::Char('r') if held.control => Action::ToggleWatch,
        Key::Enter => Action::Query,
        Key::Tab => Action::NextType,
        Key::BackTab => Action::PreviousType,
        Key::Left => if held.logo {
            Action::CursorHome
        } else if held.alt || held.control {
            Action::WordLeft
        } else {
            Action::CursorLeft
        },
        Key::Right => if held.logo {
            Action::CursorEnd
        } else if held.alt || held.control {
            Action::WordRight
        } else {
            Action::CursorRight
        },
        Key::Home => Action::CursorHome,
        Key::End => Action::CursorEnd,
        // What some terminals send for the word motions.
        Key::Char('b') if held.alt => Action::WordLeft,
        Key::Char('f') if held.alt => Action::WordRight,
        Key::Char('a') if held.control => Action::CursorHome,
        Key::Char('e') if held.control => Action::CursorEnd,
        Key::Up => Action::MoveSelection(-1),
        Key::Down => Action::MoveSelection(1),
        Key::PageUp => Action::MoveSelection(-10),
        Key::PageDown => Action::MoveSelection(10),
        Key::Backspace => Action::Backspace,
        Key::Delete => Action::Delete,
        Key::Char(c) => if !held.control && !held.alt && !held.logo && fits_domain(c) {
            Action::Insert(lowered(c))
        } else {
            Action::Ignore
        },
        Key::Other => Action::Ignore,
    }
}

// ---------------------------------------------------------------- performing

/// What is left to do after a key.
#[derive(Debug, Clone)]
pub enum Effect {
    Nothing,
    /// Send the queries of a round.
    Send(Round),
    OpenForm,
    RemoveSelected,
    MoveSelection(i32),
}

/// The round to send, if there is one.
pub open spec fn round_of(effect: Effect) -> Option<Round> {
    match effect {
        Effect::Send(round) => Some(round),
        _ => None,
    }
}

/// An effect that is a round to send or nothing.
pub open spec fn only_sends(effect: Effect) -> bool {
    effect is Nothing || effect is Send
}

/// Does the input line hold ASCII only, with the cursor within it?
pub open spec fn is_ascii_line(state: App) -> bool {
    &&& forall|i: int| 0 <= i < state.domain@.len() ==> #[trigger] state.domain@[i] <= '\u{7f}'
    &&& state.cursor <= state.domain@.len()
}

/// Does the input line hold ASCII only, with the cursor within it, and is
/// there room to move the cursor on?
pub open spec fn editable(state: App) -> bool {
    is_ascii_line(state) && state.cursor < usize::MAX
}

/// Can a character stand in a domain name as it is typed: one of the lower-case
/// ASCII letters, the digits, `.`, `-` and `_`?
pub open spec fn is_typed(c: char) -> bool {
    in_domain(c) && text::lower_char(c) == c
}

/// Does the input line hold only what is typed for a domain name, with the
/// cursor within it?
pub open spec fn is_name_line(state: App) -> bool {
    &&& forall|i: int| 0 <= i < state.domain@.len() ==> is_typed(#[trigger] state.domain@[i])
    &&& state.cursor <= state.domain@.len()
}

/// Is the cursor where an action on the input line can use it?
pub open spec fn performable(state: App, action: Action) -> bool {
    let end = input::byte_len(state.domain@);
    match action {
        Action::Insert(_) => {
            &&& input::index_at(state.domain@, state.cursor as nat) is Some
            &&& state.cursor < usize::MAX
        },
        Action::Backspace => state.cursor > 0 ==> {
            &&& input::index_at(state.domain@, (state.cursor - 1) as nat) is Some
            &&& state.cursor <= end
        },
        Action::Delete => state.cursor < end ==> input::index_at(
            state.domain@,
            state.cursor as nat,
        ) is Some,
        Action::WordLeft => state.cursor <= end,
        _ => true,
    }
}

/// Is `now` the state `before` with the cursor at `cursor`?
pub open spec fn cursor_moved(now: App, before: App, cursor: int) -> bool {
    now == (App { cursor: now.cursor, ..before }) && now.cursor == cursor
}

/// Is `now` the state `before` with this input line and cursor?
pub open spec fn line_changed(now: App, before: App, line: Seq<char>, cursor: int) -> bool {
    &&& now == (App { domain: now.domain, cursor: now.cursor, ..before })
    &&& now.domain@ == line
    &&& now.cursor == cursor
}

/// Is `now` the state `before` after `action` was performed at `at`, and
/// `effect` what is left to do?
pub open spec fn performed(
    now: App,
    before: App,
    action: Action,
    at: Instant,
    effect: Effect,
) -> bool {
    let line = before.domain@;
    let end = input::byte_len(line) as int;
    match action {
        Action::Quit => effect is Nothing && now == (App { should_quit: true, ..before }),
        Action::OpenForm => effect is OpenForm && now == before,
        Action::RemoveSelected => effect is RemoveSelected && now == before,
        Action::MoveSelection(by) => effect == Effect::MoveSelection(by) && now == before,
        Action::Ignore => effect is Nothing && now == before,
        Action::ClearDomain => effect is Nothing && line_changed(now, before, Seq::empty(), 0),
        Action::NextSort => effect is Nothing && now == (App {
            sort: before.sort.following(),
            ..before
        }),
        Action::ToggleGlobe => {
            &&& effect is Nothing
            &&& now == (App { view_mode: now.view_mode, globe: now.globe, ..before })
            &&& now.globe@ == globe::toggled(before.globe@, at)
            &&& now.view_mode == if before.globe@.on {
                ViewMode::Flat
            } else {
                ViewMode::Globe
            }
        },
        Action::NextSubnet => {
            &&& only_sends(effect)
            &&& if before.ecs_list@.len() == 0 {
                effect is Nothing && now == before
            } else {
                app::reselected(
                    now,
                    App {
                        ecs_sel: app::next_subnet(before.ecs_sel, before.ecs_list@.len()),
                        ..before
                    },
                    round_of(effect),
                )
            }
        },
        Action::ToggleWatch => only_sends(effect) && app::watch_toggled(
            now,
            before,
            at,
            round_of(effect),
        ),
        Action::Query => only_sends(effect) && app::started(now, before, round_of(effect)),
        Action::NextType => only_sends(effect) && app::reselected(
            now,
            App {
                rtype_idx: app::next_type(before.rtype_idx as int, true) as usize,
                ..before
            },
            round_of(effect),
        ),
        Action::PreviousType => only_sends(effect) && app::reselected(
            now,
            App {
                rtype_idx: app::next_type(before.rtype_idx as int, false) as usize,
                ..before
            },
            round_of(effect),
        ),
        Action::CursorHome => effect is Nothing && cursor_moved(now, before, 0),
        Action::CursorEnd => effect is Nothing && cursor_moved(now, before, end),
        Action::WordLeft => effect is Nothing && cursor_moved(
            now,
            before,
            input::word_start(input::bytes(line), before.cursor as int),
        ),
        Action::WordRight => effect is Nothing && cursor_moved(
            now,
            before,
            input::word_end(input::bytes(line), before.cursor as int),
        ),
        Action::CursorLeft => effect is Nothing && cursor_moved(
            now,
            before,
            if before.cursor > 0 {
                before.cursor - 1
            } else {
                0
            },
        ),
        Action::CursorRight => effect is Nothing && cursor_moved(
            now,
            before,
            if before.cursor + 1 <= end {
                before.cursor + 1
            } else {
                end
            },
        ),
        Action::Backspace => effect is Nothing && if before.cursor > 0 {
            line_changed(
                now,
                before,
                line.remove(input::index_at(line, (before.cursor - 1) as nat)->0 as int),
                before.cursor - 1,
            )
        } else {
            now == before
        },
        Action::Delete => effect is Nothing && if before.cursor < end {
            line_changed(
                now,
                before,
                line.remove(input::index_at(line, before.cursor as nat)->0 as int),
                before.cursor as int,
            )
        } else {
            now == before
        },
        Action::Insert(c) => effect is Nothing && line_changed(
            now,
            before,
            line.insert(input::index_at(line, before.cursor as nat)->0 as int, c),
            before.cursor + 1,
        ),
    }
}

/// The effect of an armed round.
fn sending(round: Option<Round>) -> (out: Effect)
    ensures
        only_sends(out),
        round_of(out) == round,
{
    match round {
        Some(round) => Effect::Send(round),
        None => Effect::Nothing,
    }
}

impl App {
    /// Is the cursor where an action on the input line can use it?
    pub fn can_perform(&self, action: Action) -> (out: bool)
        ensures
            out == performable(*self, action),
    {
        let line = self.domain.as_str();
        let end = input::length(line);
        match action {
            Action::Insert(_) => self.cursor < usize::MAX && input::is_position(line, self.cursor),
            Action::Backspace => self.cursor == 0 || (self.cursor <= end && input::is_position(
                line,
                self.cursor - 1,
            )),
            Action::Delete => self.cursor >= end || input::is_position(line, self.cursor),
            Action::WordLeft => self.cursor <= end,
            _ => true,
        }
    }

    /// Performs what a key asks for.
    pub fn perform(&mut self, action: Action, now: Instant) -> (out: Effect)
        requires
            old(self).wf(),
            old(self).generation < u64::MAX,
            performable(*old(self), action),
        ensures
            final(self).wf(),
            performed(*final(self), *old(self), action, now, out),
    {
        match action {
            Action::Quit => {
                self.should_quit = true;
                Effect::Nothing
            },
            Action::OpenForm => Effect::OpenForm,
            Action::RemoveSelected => Effect::RemoveSelected,
            Action::MoveSelection(by) => Effect::MoveSelection(by),
            Action::Ignore => Effect::Nothing,
            Action::ClearDomain => {
                self.clear_domain();
                Effect::Nothing
            },
            Action::NextSort => {
                self.sort = self.sort.next();
                Effect::Nothing
            },
            Action::ToggleGlobe => {
                self.toggle_globe(now);
                Effect::Nothing
            },
            Action::NextSubnet => {
                if self.ecs_list.len() == 0 {
                    Effect::Nothing
                } else {
                    self.cycle_ecs();
                    sending(self.requery_selection())
                }
            },
            Action::ToggleWatch => sending(self.toggle_watch(now)),
            Action::Query => sending(self.start_query()),
            Action::NextType => {
                self.cycle_record_type(true);
                sending(self.requery_selection())
            },
            Action::PreviousType => {
                self.cycle_record_type(false);
                sending(self.requery_selection())
            },
            Action::CursorHome => {
                self.cursor_home();
                Effect::Nothing
            },
            Action::CursorEnd => {
                self.cursor_end();
                Effect::Nothing
            },
            Action::WordLeft => {
                self.move_cursor_word_left();
                Effect::Nothing
            },
            Action::WordRight => {
                self.move_cursor_word_right();
                Effect::Nothing
            },
            Action::CursorLeft => {
                self.move_cursor_left();
                Effect::Nothing
            },
            Action::CursorRight => {
                self.move_cursor_right();
                Effect::Nothing
            },
            Action::Backspace => {
                self.backspace();
                Effect::Nothing
            },
            Action::Delete => {
                self.delete();
                Effect::Nothing
            },
            Action::Insert(c) => {
                self.insert_char(c);
                Effect::Nothing
            },
        }
    }

    /// Performs what a key asks for.
    pub fn handle_key(&mut self, key: Key, held: Modifiers, now: Instant) -> (out: Effect)
        requires
            old(self).wf(),
            old(self).generation < u64::MAX,
            performable(*old(self), action_of(key, held)),
        ensures
            final(self).wf(),
            performed(*final(self), *old(self), action_of(key, held), now, out),
    {
        let action = action_for(key, held);
        self.perform(action, now)
    }
}

// ---------------------------------------------------------------- laws

/// In ASCII text every byte is a position.
proof fn ascii_positions(s: Seq<char>, at: nat)
    requires
        forall|i: int| 0 <= i < s.len() ==> #[trigger] s[i] <= '\u{7f}',
        at <= s.len(),
    ensures
        input::index_at(s, at) == Some(at),
        input::byte_len(s) == s.len(),
    decreases s.len(),
{
    if s.len() > 0 {
        assert(s[0] <= '\u{7f}');
        let rest = s.skip(1);
        assert forall|i: int| 0 <= i < rest.len() implies #[trigger] rest[i] <= '\u{7f}' by {
            assert(rest[i] == s[i + 1]);
        }
        ascii_positions(rest, if at > 0 {
            (at - 1) as nat
        } else {
            0
        });
    }
}

/// On a line of ASCII text every action can be performed.
pub proof fn editable_lines_take_every_key(state: App, action: Action)
    requires
        editable(state),
    ensures
        performable(state, action),
{
    ascii_positions(state.domain@, state.cursor as nat);
    if state.cursor > 0 {
        ascii_positions(state.domain@, (state.cursor - 1) as nat);
    }
}

/// On a line of ASCII text the cursor can always be shown.
pub proof fn editable_lines_can_be_shown(state: App)
    requires
        editable(state),
    ensures
        input::index_at(state.domain@, panels::header_split(state)) is Some,
{
    ascii_positions(state.domain@, state.cursor as nat);
}

/// Moving over bytes stays within them.
proof fn word_motion_bounds(b: Seq<u8>, at: int, dots: bool)
    requires
        0 <= at <= b.len(),
    ensures
        0 <= input::back_over(b, at, dots) <= at,
    decreases at,
{
    if at > 0 && (b[at - 1] == input::DOT) == dots {
        word_motion_bounds(b, at - 1, dots);
    }
}

/// Moving over bytes stays within them.
proof fn word_motion_bounds_right(b: Seq<u8>, at: int, dots: bool)
    requires
        0 <= at <= b.len(),
    ensures
        at <= input::forth_over(b, at, dots) <= b.len(),
    decreases b.len() - at,
{
    if at < b.len() && (b[at] == input::DOT) == dots {
        word_motion_bounds_right(b, at + 1, dots);
    }
}

/// Keys leave the input line ASCII, with the cursor within it: whatever is
/// typed, the next key can be performed too, as long as there is room.
pub proof fn keys_keep_lines_editable(
    now: App,
    before: App,
    key: Key,
    held: Modifiers,
    at: Instant,
    effect: Effect,
)
    requires
        is_ascii_line(before),
        performed(now, before, action_of(key, held), at, effect),
    ensures
        is_ascii_line(now),
        before.cursor + 1 < usize::MAX && before.domain@.len() < usize::MAX ==> editable(now),
{
    let line = before.domain@;
    ascii_positions(line, before.cursor as nat);
    if before.cursor > 0 {
        ascii_positions(line, (before.cursor - 1) as nat);
    }
    input::bytes_len(line);
    let b = input::bytes(line);
    word_motion_bounds(b, before.cursor as int, true);
    word_motion_bounds(b, input::back_over(b, before.cursor as int, true), false);
    word_motion_bounds_right(b, before.cursor as int, true);
    word_motion_bounds_right(b, input::forth_over(b, before.cursor as int, true), false);
    assert forall|i: int| 0 <= i < now.domain@.len() implies #[trigger] now.domain@[i]
        <= '\u{7f}' by {
        if let Key::Char(c) = key {
            if action_of(key, held) is Insert {
                lower_is_ascii(c);
            }
        }
        if i < line.len() {
            assert(line[i] <= '\u{7f}');
        }
        if i + 1 < line.len() {
            assert(line[i + 1] <= '\u{7f}');
        }
        if i > 0 && i - 1 < line.len() {
            assert(line[i - 1] <= '\u{7f}');
        }
    }
}

/// What can stand in a domain name is ASCII.
proof fn name_lines_are_ascii(state: App)
    requires
        is_name_line(state),
    ensures
        is_ascii_line(state),
{
    assert forall|i: int| 0 <= i < state.domain@.len() implies #[trigger] state.domain@[i]
        <= '\u{7f}' by {
        assert(is_typed(state.domain@[i]));
    }
}

/// A line of what can stand in a domain name, in lower case, stays one under
/// every key, with the cursor within it.
pub proof fn keys_keep_name_lines(
    now: App,
    before: App,
    key: Key,
    held: Modifiers,
    at: Instant,
    effect: Effect,
)
    requires
        is_name_line(before),
        performed(now, before, action_of(key, held), at, effect),
    ensures
        is_name_line(now),
{
    name_lines_are_ascii(before);
    keys_keep_lines_editable(now, before, key, held, at, effect);
    let line = before.domain@;
    ascii_positions(line, before.cursor as nat);
    if before.cursor > 0 {
        ascii_positions(line, (before.cursor - 1) as nat);
    }
    assert forall|i: int| 0 <= i < now.domain@.len() implies is_typed(
        #[trigger] now.domain@[i],
    ) by {
        if i < line.len() {
            assert(is_typed(line[i]));
        }
        if i + 1 < line.len() {
            assert(is_typed(line[i + 1]));
        }
        if 0 < i <= line.len() {
            assert(is_typed(line[i - 1]));
        }
    }
}

/// A character typed with no other key held down goes in at the cursor, in
/// lower case, and the cursor moves behind it, if it can stand in a domain name;
/// any other leaves the line and the cursor as they were.
pub proof fn typing_inserts_at_the_cursor(
    now: App,
    before: App,
    c: char,
    held: Modifiers,
    at: Instant,
    effect: Effect,
)
    requires
        is_ascii_line(before),
        !held.control && !held.alt && !held.logo,
        performed(now, before, action_of(Key::Char(c), held), at, effect),
    ensures
        in_domain(c) ==> {
            &&& now.domain@ == before.domain@.insert(before.cursor as int, text::lower_char(c))
            &&& now.cursor == before.cursor + 1
        },
        !in_domain(c) ==> now.domain@ == before.domain@ && now.cursor == before.cursor,
{
    ascii_positions(before.domain@, before.cursor as nat);
}

/// Only what can stand in a domain name is typed, in lower case, and nothing
/// while another key is held down.
pub proof fn only_domain_characters_are_typed(key: Key, held: Modifiers)
    requires
        action_of(key, held) is Insert,
    ensures
        key is Char,
        in_domain(key->Char_0),
        action_of(key, held)->Insert_0 == text::lower_char(key->Char_0),
        !held.control && !held.alt && !held.logo,
{
}

/// What can stand in a domain name is ASCII, in lower case too.
proof fn lower_is_ascii(c: char)
    requires
        in_domain(c),
    ensures
        text::lower_char(c) <= '\u{7f}',
{
}

// ---------------------------------------------------------------- the dialog

/// What a key asks for while the dialog that adds a resolver is open.
#[derive(Debug, Clone, Copy, PartialEq, Eq, Structural)]
pub enum FormAction {
    Cancel,
    Quit,
    Submit,
    NextField,
    PreviousField,
    CursorLeft,
    CursorRight,
    CursorHome,
    CursorEnd,
    Backspace,
    Delete,
    Insert(char),
    Ignore,
}

/// What a key asks for while the dialog that adds a resolver is open.
pub fn handle_form_key(key: Key, held: Modifiers) -> (out: FormAction)
    ensures
        out == match key {
            Key::Esc => FormAction::Cancel,
            Key::Enter => FormAction::Submit,
            Key::Tab | Key::Down => FormAction::NextField,
            Key::BackTab | Key::Up => FormAction::PreviousField,
            Key::Left => FormAction::CursorLeft,
            Key::Right => FormAction::CursorRight,
            Key::Home => FormAction::CursorHome,
            Key::End => FormAction::CursorEnd,
            Key::Backspace => FormAction::Backspace,
            Key::Delete => FormAction::Delete,
            Key::Char(c) => if held.control && c == 'c' {
                FormAction::Quit
            } else if held.control || held.alt || held.logo {
                FormAction::Ignore
            } else {
                FormAction::Insert(c)
            },
            Key::PageUp | Key::PageDown | Key::Other => FormAction::Ignore,
        },
{
    match key {
        Key::Esc => FormAction::Cancel,
        Key::Char('c') if held.control => FormAction::Quit,
        Key::Enter => FormAction::Submit,
        Key::Tab | Key::Down => FormAction::NextField,
        Key::BackTab | Key::Up => FormAction::PreviousField,
        Key::Left => FormAction::CursorLeft,
        Key::Right => FormAction::CursorRight,
        Key::Home => FormAction::CursorHome,
        Key::End => FormAction::CursorEnd,
        Key::Backspace => FormAction::Backspace,
        Key::Delete => FormAction::Delete,
        Key::Char(c) if !held.control && !held.alt && !held.logo => FormAction::Insert(c),
        _ => FormAction::Ignore,
    }
}

// ---------------------------------------------------------------- laws of the keys

/// What each key does that types nothing.
pub proof fn keys_do_what_they_are_for(held: Modifiers)
    ensures
        action_of(Key::Esc, held) is Quit,
        action_of(Key::Enter, held) is Query,
        action_of(Key::Tab, held) is NextType,
        action_of(Key::BackTab, held) is PreviousType,
        action_of(Key::Home, held) is CursorHome,
        action_of(Key::End, held) is CursorEnd,
        action_of(Key::Backspace, held) is Backspace,
        action_of(Key::Delete, held) is Delete,
        action_of(Key::Other, held) is Ignore,
        action_of(Key::Up, held) is MoveSelection && action_of(Key::Up, held)->MoveSelection_0
            == -1,
        action_of(Key::Down, held) is MoveSelection && action_of(Key::Down, held)->MoveSelection_0
            == 1,
        action_of(Key::PageUp, held) is MoveSelection && action_of(
            Key::PageUp,
            held,
        )->MoveSelection_0 == -10,
        action_of(Key::PageDown, held) is MoveSelection && action_of(
            Key::PageDown,
            held,
        )->MoveSelection_0 == 10,
        held.logo ==> action_of(Key::Left, held) is CursorHome && action_of(Key::Right, held)
            is CursorEnd,
        !held.logo && (held.alt || held.control) ==> action_of(Key::Left, held) is WordLeft
            && action_of(Key::Right, held) is WordRight,
        !held.logo && !held.alt && !held.control ==> action_of(Key::Left, held) is CursorLeft
            && action_of(Key::Right, held) is CursorRight,
        action_of(Key::Char('+'), held) is OpenForm,
{
}

/// What a character does while the control key is held down, and what while
/// another is.
pub proof fn held_characters_do_what_they_are_for(held: Modifiers)
    ensures
        held.control ==> action_of(Key::Char('c'), held) is Quit,
        held.control ==> action_of(Key::Char('x'), held) is RemoveSelected,
        held.control ==> action_of(Key::Char('u'), held) is ClearDomain,
        held.control ==> action_of(Key::Char('s'), held) is NextSort,
        held.control ==> action_of(Key::Char('o'), held) is ToggleGlobe,
        held.control ==> action_of(Key::Char('n'), held) is NextSubnet,
        held.control ==> action_of(Key::Char('r'), held) is ToggleWatch,
        held.control ==> action_of(Key::Char('a'), held) is CursorHome,
        held.control ==> action_of(Key::Char('e'), held) is CursorEnd,
        held.alt ==> action_of(Key::Char('b'), held) is WordLeft,
        held.alt ==> action_of(Key::Char('f'), held) is WordRight,
        !held.control && !held.alt && held.logo ==> forall|c: char|
            c != '+' ==> #[trigger] action_of(Key::Char(c), held) is Ignore,
        held.control && !held.alt ==> forall|c: char|
            c != '+' && c != 'c' && c != 'x' && c != 'u' && c != 's' && c != 'o' && c != 'n' && c
                != 'r' && c != 'a' && c != 'e' ==> #[trigger] action_of(Key::Char(c), held)
                is Ignore,
        held.alt && !held.control ==> forall|c: char|
            c != '+' && c != 'b' && c != 'f' ==> #[trigger] action_of(Key::Char(c), held) is Ignore,
{
}

/// Letters, digits, dots, hyphens and underscores can be typed, and no more.
pub proof fn names_are_made_of_these(c: char)
    ensures
        in_domain(c) <==> 'a' <= c <= 'z' || 'A' <= c <= 'Z' || '0' <= c <= '9' || c == '.' || c
            == '-' || c == '_',
{
}

/// Backspace takes the character in front of the cursor, and moves the cursor to
/// where it stood; delete takes the one behind the cursor. At the ends there is
/// none to take.
pub proof fn characters_are_taken_at_the_cursor(
    now: App,
    before: App,
    held: Modifiers,
    at: Instant,
    effect: Effect,
    forward: bool,
)
    requires
        is_ascii_line(before),
        performed(
            now,
            before,
            action_of(
                if forward {
                    Key::Delete
                } else {
                    Key::Backspace
                },
                held,
            ),
            at,
            effect,
        ),
    ensures
        ({
            let (line, k) = (before.domain@, before.cursor as int);
            &&& !forward && k > 0 ==> now.domain@ == line.take(k - 1) + line.skip(k) && now.cursor
                == k - 1
            &&& !forward && k == 0 ==> now == before
            &&& forward && k < line.len() ==> now.domain@ == line.take(k) + line.skip(k + 1)
                && now.cursor == k
            &&& forward && k == line.len() ==> now == before
        }),
        effect is Nothing,
        now.rows == before.rows && now.queried == before.queried && now.generation
            == before.generation,
{
    let line = before.domain@;
    let k = before.cursor as int;
    ascii_positions(line, k as nat);
    if k > 0 {
        ascii_positions(line, (k - 1) as nat);
        assert(line.remove(k - 1) =~= line.take(k - 1) + line.skip(k));
    }
    if k < line.len() {
        assert(line.remove(k) =~= line.take(k) + line.skip(k + 1));
    }
}

/// The cursor moves by one character and stops at the ends, and to the ends at
/// once; the line stays as it is.
pub proof fn the_cursor_moves_along_the_line(
    now: App,
    before: App,
    action: Action,
    at: Instant,
    effect: Effect,
)
    requires
        is_ascii_line(before),
        action is CursorLeft || action is CursorRight || action is CursorHome || action is CursorEnd,
        performed(now, before, action, at, effect),
    ensures
        effect is Nothing,
        now.domain == before.domain,
        now == (App { cursor: now.cursor, ..before }),
        action is CursorHome ==> now.cursor == 0,
        action is CursorEnd ==> now.cursor == before.domain@.len(),
        action is CursorLeft && before.cursor > 0 ==> now.cursor == before.cursor - 1,
        action is CursorLeft && before.cursor == 0 ==> now.cursor == 0,
        action is CursorRight && before.cursor < before.domain@.len() ==> now.cursor
            == before.cursor + 1,
        action is CursorRight && before.cursor == before.domain@.len() ==> now.cursor
            == before.cursor,
{
    ascii_positions(before.domain@, before.cursor as nat);
}

/// Keys that change what is shown change nothing else: quitting, the order of the
/// rows, the panel, the line.
pub proof fn other_keys_change_one_thing(
    now: App,
    before: App,
    action: Action,
    at: Instant,
    effect: Effect,
)
    requires
        performed(now, before, action, at, effect),
    ensures
        action is Quit ==> now == (App { should_quit: true, ..before }) && effect is Nothing,
        action is ClearDomain ==> now.domain@.len() == 0 && now.cursor == 0 && now.rows
            == before.rows && effect is Nothing,
        action is NextSort ==> now == (App { sort: now.sort, ..before }) && now.sort != before.sort
            && effect is Nothing,
        action is OpenForm ==> now == before && effect is OpenForm,
        action is RemoveSelected ==> now == before && effect is RemoveSelected,
        action is Ignore ==> now == before && effect is Nothing,
        action is MoveSelection ==> now == before && effect == Effect::MoveSelection(
            action->MoveSelection_0,
        ),
        action is ToggleGlobe ==> now.globe@.on == !before.globe@.on && (now.view_mode == if now.globe@.on {
            ViewMode::Globe
        } else {
            ViewMode::Flat
        }) && now.rows == before.rows && effect is Nothing,
        action is NextSubnet && before.ecs_list@.len() == 0 ==> now == before && effect is Nothing,
        !(action is Quit) ==> now.should_quit == before.should_quit,
{
}

/// The next and the previous type undo each other, and so the two keys do.
pub proof fn previous_undoes_next(idx: int)
    requires
        0 <= idx < 7,
    ensures
        app::next_type(app::next_type(idx, true), false) == idx,
        app::next_type(app::next_type(idx, false), true) == idx,
{
}

/// A query or a poll that a key asks for is sent, and nothing is sent otherwise:
/// Enter asks for the line, Ctrl+R turns the watch, and a selection asks again as
/// soon as something was asked before.
pub proof fn keys_send_the_rounds_they_arm(
    now: App,
    before: App,
    action: Action,
    at: Instant,
    effect: Effect,
)
    requires
        performed(now, before, action, at, effect),
    ensures
        effect is Send ==> action is Query || action is ToggleWatch || action is NextType
            || action is PreviousType || action is NextSubnet,
        action is Query ==> effect is Send || effect is Nothing,
        action is Query && effect is Send ==> app::started(now, before, Some(effect->Send_0)),
        action is Query && effect is Nothing ==> app::started(now, before, None),
        action is ToggleWatch ==> effect is Send || effect is Nothing,
        action is ToggleWatch && effect is Send ==> app::watch_toggled(
            now,
            before,
            at,
            Some(effect->Send_0),
        ),
        action is ToggleWatch && effect is Nothing ==> app::watch_toggled(now, before, at, None),
        action is NextType || action is PreviousType || action is NextSubnet
            && before.ecs_list@.len() > 0 ==> if before.queried is Some {
            effect is Send && effect->Send_0.domain@ == (before.queried->0).0@
        } else {
            effect is Nothing
        },
        action is NextType && before.rtype_idx < 6 ==> now.rtype_idx == before.rtype_idx + 1,
        action is NextType && before.rtype_idx == 6 ==> now.rtype_idx == 0,
        action is PreviousType && 0 < before.rtype_idx < 7 ==> now.rtype_idx == before.rtype_idx
            - 1,
        action is PreviousType && before.rtype_idx == 0 ==> now.rtype_idx == 6,
        action is NextSubnet && before.ecs_list@.len() > 0 && before.ecs_sel is None
            ==> now.ecs_sel == Some(0usize),
        action is NextSubnet && before.ecs_sel is Some && before.ecs_sel->0 + 1
            == before.ecs_list@.len() ==> now.ecs_sel is None,
        action is NextSubnet && before.ecs_sel is Some && before.ecs_sel->0 + 1
            < before.ecs_list@.len() <= usize::MAX ==> now.ecs_sel == Some(
            (before.ecs_sel->0 + 1) as usize,
        ),
{
}

/// The motions by words go where one label begins or ends, and change nothing
/// else.
pub proof fn word_keys_pass_labels(
    now: App,
    before: App,
    left: bool,
    at: Instant,
    effect: Effect,
)
    requires
        performed(
            now,
            before,
            if left {
                Action::WordLeft
            } else {
                Action::WordRight
            },
            at,
            effect,
        ),
    ensures
        effect is Nothing,
        now == (App { cursor: now.cursor, ..before }),
        left ==> now.cursor == input::word_start(
            input::bytes(before.domain@),
            before.cursor as int,
        ),
        !left ==> now.cursor == input::word_end(
            input::bytes(before.domain@),
            before.cursor as int,
        ),
{
}

} // verus!

use dnsglobe::app::{App, SortMode, ViewMode};
use dnsglobe::clock::Instant;
use dnsglobe::dns::parse_ecs;
use dnsglobe::keys::{
    action_for, handle_form_key, Action, Effect, FormAction, Key, Modifiers,
};
use dnsglobe::records::RecordType;
use dnsglobe::resolvers;

const NOW: Instant = Instant { nanos: 7 };
const NONE: Modifiers = Modifiers { control: false, alt: false, logo: false };
const CONTROL: Modifiers = Modifiers { control: true, alt: false, logo: false };
const ALT: Modifiers = Modifiers { control: false, alt: true, logo: false };
const LOGO: Modifiers = Modifiers { control: false, alt: false, logo: true };

fn app(domain: &str) -> App {
    App::new(domain.into(), resolvers::defaults(), NOW)
}

#[test]
fn keys_ask_for_actions() {
    for (key, held, action) in [
        (Key::Esc, NONE, Action::Quit),
        (Key::Char('c'), CONTROL, Action::Quit),
        (Key::Char('+'), NONE, Action::OpenForm),
        (Key::Char('x'), CONTROL, Action::RemoveSelected),
        (Key::Char('u'), CONTROL, Action::ClearDomain),
        (Key::Char('s'), CONTROL, Action::NextSort),
        (Key::Char('o'), CONTROL, Action::ToggleGlobe),
        (Key::Char('n'), CONTROL, Action::NextSubnet),
        (Key::Char('r'), CONTROL, Action::ToggleWatch),
        (Key::Enter, NONE, Action::Query),
        (Key::Tab, NONE, Action::NextType),
        (Key::BackTab, NONE, Action::PreviousType),
        (Key::Left, LOGO, Action::CursorHome),
        (Key::Right, LOGO, Action::CursorEnd),
        (Key::Left, ALT, Action::WordLeft),
        (Key::Right, CONTROL, Action::WordRight),
        (Key::Left, NONE, Action::CursorLeft),
        (Key::Right, NONE, Action::CursorRight),
        (Key::Home, NONE, Action::CursorHome),
        (Key::End, NONE, Action::CursorEnd),
        (Key::Char('b'), ALT, Action::WordLeft),
        (Key::Char('f'), ALT, Action::WordRight),
        (Key::Char('a'), CONTROL, Action::CursorHome),
        (Key::Char('e'), CONTROL, Action::CursorEnd),
        (Key::Up, NONE, Action::MoveSelection(-1)),
        (Key::Down, NONE, Action::MoveSelection(1)),
        (Key::PageUp, NONE, Action::MoveSelection(-10)),
        (Key::PageDown, NONE, Action::MoveSelection(10)),
        (Key::Backspace, NONE, Action::Backspace),
        (Key::Delete, NONE, Action::Delete),
        (Key::Char('Q'), NONE, Action::Insert('q')),
        (Key::Char('_'), NONE, Action::Insert('_')),
        (Key::Char('c'), NONE, Action::Insert('c')),
        (Key::Char('q'), CONTROL, Action::Ignore),
        (Key::Char('a'), LOGO, Action::Ignore),
        (Key::Char(' '), NONE, Action::Ignore),
        (Key::Char('é'), NONE, Action::Ignore),
        (Key::Other, NONE, Action::Ignore),
    ] {
        assert_eq!(action_for(key, held), action, "{key:?} {held:?}");
    }
}

#[test]
fn typing_edits_the_line() {
    let mut app = app("");
    for c in "API.example.com".chars() {
        assert!(matches!(app.handle_key(Key::Char(c), NONE, NOW), Effect::Nothing));
    }
    assert_eq!(app.domain, "api.example.com");
    app.handle_key(Key::Left, ALT, NOW);
    assert_eq!(app.cursor, 12);
    app.handle_key(Key::Backspace, NONE, NOW);
    assert_eq!(app.domain, "api.examplecom");
    app.handle_key(Key::Home, NONE, NOW);
    app.handle_key(Key::Delete, NONE, NOW);
    assert_eq!(app.domain, "pi.examplecom");
    app.handle_key(Key::Char('e'), CONTROL, NOW);
    assert_eq!(app.cursor, 13);
    app.handle_key(Key::Char('u'), CONTROL, NOW);
    assert_eq!((app.domain.as_str(), app.cursor), ("", 0));
}

#[test]
fn whatever_is_typed_the_line_keeps_to_domain_characters() {
    let mut app = app("");
    for c in (0u8..=127).map(char::from).chain("éß日🌍".chars()) {
        for held in [NONE, CONTROL, ALT, LOGO] {
            let (line, cursor) = (app.domain.clone(), app.cursor);
            app.handle_key(Key::Char(c), held, NOW);
            if held == NONE && (c.is_ascii_alphanumeric() || ".-_".contains(c)) {
                let mut wanted = line;
                wanted.insert(cursor, c.to_ascii_lowercase());
                assert_eq!((app.domain.as_str(), app.cursor), (wanted.as_str(), cursor + 1));
            } else if held == NONE {
                assert_eq!((app.domain.as_str(), app.cursor), (line.as_str(), cursor));
            }
            assert!(app
                .domain
                .chars()
                .all(|c| matches!(c, 'a'..='z' | '0'..='9' | '.' | '-' | '_')));
            assert!(app.cursor <= app.domain.len());
        }
    }
    assert!(!app.domain.is_empty());
}

#[test]
fn keys_start_rounds() {
    let mut app = app("example.com");
    // Nothing was asked yet: changing the type asks nothing.
    assert!(matches!(app.handle_key(Key::Tab, NONE, NOW), Effect::Nothing));
    assert_eq!(app.record_type(), RecordType::AAAA);
    let round = match app.handle_key(Key::Enter, NONE, NOW) {
        Effect::Send(round) => round,
        other => panic!("expected a round, got {other:?}"),
    };
    assert_eq!(round.rtype, RecordType::AAAA);
    assert!(app.auto_refresh);
    match app.handle_key(Key::BackTab, NONE, NOW) {
        Effect::Send(next) => {
            assert_eq!(next.rtype, RecordType::A);
            assert_eq!(next.generation, round.generation + 1);
        }
        other => panic!("expected a round, got {other:?}"),
    }
    // Without subnets the subnet key does nothing.
    assert!(matches!(app.handle_key(Key::Char('n'), CONTROL, NOW), Effect::Nothing));
    app.set_ecs_list(vec![parse_ecs("10.0.0.0/8").unwrap()]);
    match app.handle_key(Key::Char('n'), CONTROL, NOW) {
        Effect::Send(next) => assert_eq!(next.ecs, None),
        other => panic!("expected a round, got {other:?}"),
    }
    // The watch goes off; queries are under way, so it comes back without a poll.
    assert!(matches!(app.handle_key(Key::Char('r'), CONTROL, NOW), Effect::Nothing));
    assert!(!app.auto_refresh);
    assert!(matches!(app.handle_key(Key::Char('r'), CONTROL, NOW), Effect::Nothing));
    assert!(app.auto_refresh);
}

#[test]
fn keys_change_the_view() {
    let mut app = app("example.com");
    app.handle_key(Key::Char('s'), CONTROL, NOW);
    assert_eq!(app.sort, SortMode::Location);
    app.handle_key(Key::Char('o'), CONTROL, NOW);
    assert_eq!(app.view_mode, ViewMode::Globe);
    assert!(matches!(app.handle_key(Key::Char('+'), NONE, NOW), Effect::OpenForm));
    assert!(matches!(app.handle_key(Key::Char('x'), CONTROL, NOW), Effect::RemoveSelected));
    assert!(matches!(app.handle_key(Key::PageUp, NONE, NOW), Effect::MoveSelection(-10)));
    assert!(!app.should_quit);
    app.handle_key(Key::Esc, NONE, NOW);
    assert!(app.should_quit);
}

#[test]
fn dialog_keys() {
    for (key, held, action) in [
        (Key::Esc, NONE, FormAction::Cancel),
        (Key::Char('c'), CONTROL, FormAction::Quit),
        (Key::Char('c'), NONE, FormAction::Insert('c')),
        (Key::Char(' '), NONE, FormAction::Insert(' ')),
        (Key::Char('x'), ALT, FormAction::Ignore),
        (Key::Enter, NONE, FormAction::Submit),
        (Key::Tab, NONE, FormAction::NextField),
        (Key::Down, NONE, FormAction::NextField),
        (Key::BackTab, NONE, FormAction::PreviousField),
        (Key::Up, NONE, FormAction::PreviousField),
        (Key::Left, NONE, FormAction::CursorLeft),
        (Key::Right, NONE, FormAction::CursorRight),
        (Key::Home, NONE, FormAction::CursorHome),
        (Key::End, NONE, FormAction::CursorEnd),
        (Key::Backspace, NONE, FormAction::Backspace),
        (Key::Delete, NONE, FormAction::Delete),
        (Key::PageUp, NONE, FormAction::Ignore),
    ] {
        assert_eq!(handle_form_key(key, held), action, "{key:?} {held:?}");
    }
}

use idiom_tui::backend::{Backend, MockedBackend, MockedStyle, StyleExt};
use idiom_tui::layout::Line;
use idiom_tui::text_field::{
    arg_range_at, KeyCode, KeyEvent, KeyModifiers, Status, TextField,
};

#[test]
fn select_jump_then_move_then_select_left() {
    let mut field = TextField::new("a3cde".to_owned());
    field.cursor_set(0);
    let status = field.map(KeyEvent::new(
        KeyCode::Right,
        KeyModifiers::control() | KeyModifiers::shift(),
    ));
    assert_eq!(status, Some(Status::UpdatedCursor));
    assert_eq!(field.selection(), Some((0, 5)));
    assert_eq!(field.cursor(), 5);

    let status = field.map(KeyEvent::new(KeyCode::Right, KeyModifiers::empty()));
    assert_eq!(status, Some(Status::UpdatedCursor));
    assert_eq!(field.selection(), None);
    assert_eq!(field.cursor(), 5);

    let status = field.map(KeyEvent::new(KeyCode::Left, KeyModifiers::shift()));
    assert_eq!(status, Some(Status::UpdatedCursor));
    assert_eq!(field.selection(), Some((5, 4)));
    assert_eq!(field.cursor(), 4);
}

#[test]
fn render_with_emoji_under_cursor() {
    let mut field = TextField::new("a a🦀🦀ssd asd 🦀s".to_owned());
    field.cursor_set(3);
    let mut backend = MockedBackend::init();
    let line = Line { row: 0, col: 1, width: 50 };
    field.widget(line, MockedStyle::reversed(), MockedStyle::bg(7), &mut backend);
    assert_eq!(
        backend.drain(),
        &[
            (MockedStyle::default(), "<<go to row: 0 col: 1>>".to_owned()),
            (MockedStyle::default(), " >> ".to_owned()),
            (MockedStyle::default(), "a a".to_owned()),
            (MockedStyle::reversed(), "🦀".to_owned()),
            (MockedStyle::default(), "🦀ssd asd 🦀s".to_owned()),
            (MockedStyle::default(), "<<padding: 28>>".to_owned()),
        ]
    );
}

#[test]
fn token_lookup_behind_a_blank() {
    assert_eq!(arg_range_at("a axxssd as", 2), 2..8);
    let mut field = TextField::new("a axxssd as".to_owned());
    field.cursor_set(2);
    assert_eq!(field.get_token_at_cursor(), Some("axxssd"));
}

#[test]
fn paste_rejects_line_breaks() {
    let mut field = TextField::new("ab".to_owned());
    field.cursor_set(1);
    assert_eq!(field.paste_passthrough("multi\nline".to_owned()), Status::Skipped);
    assert_eq!(field.as_str(), "ab");
    assert_eq!(field.cursor(), 1);

    assert_eq!(field.paste_passthrough("single-line".to_owned()), Status::Updated);
    assert_eq!(field.as_str(), "asingle-lineb");
    assert_eq!(field.cursor(), 1 + "single-line".len());
}

#[test]
fn paste_replaces_the_selection() {
    let mut field = TextField::new("hello world".to_owned());
    field.select_jump_left();
    assert_eq!(field.selection(), Some((11, 6)));
    assert_eq!(field.paste_passthrough("🦀".to_owned()), Status::Updated);
    assert_eq!(field.as_str(), "hello 🦀");
    assert_eq!(field.cursor(), 10);
    assert_eq!(field.selection(), None);
}

#[test]
fn paste_with_line_break_keeps_the_selection() {
    let mut field = TextField::new("hello".to_owned());
    field.select_all();
    assert_eq!(field.paste_passthrough("a\nb".to_owned()), Status::Skipped);
    assert_eq!(field.selection(), Some((0, 5)));
    assert_eq!(field.as_str(), "hello");
}

#[test]
fn copy_then_paste_gives_the_text_back() {
    for text in ["a a🦀🦀ssd asd 🦀s", "plain words here", "🦀", "é🦀字 x"] {
        let mut field = TextField::new(text.to_owned());
        field.select_jump_left();
        let copied = field.copy();
        if let Some(clip) = copied {
            let end = field.select().unwrap().1;
            assert_eq!(field.paste_passthrough(clip), Status::Updated);
            assert_eq!(field.as_str(), text);
            assert_eq!(field.cursor(), end);
            assert_eq!(field.selection(), None);
        }
        let mut field = TextField::new(text.to_owned());
        field.select_all();
        let clip = field.cut().unwrap();
        assert_eq!(field.as_str(), "");
        assert_eq!(field.cursor(), 0);
        field.paste_passthrough(clip);
        assert_eq!(field.as_str(), text);
        assert_eq!(field.cursor(), text.len());
    }
}

#[test]
fn cursor_stays_on_character_boundaries() {
    let text = "a🦀é字\u{301}b 🦀🦀 x_y";
    let mut field = TextField::new(text.to_owned());
    let keys = [
        KeyEvent::new(KeyCode::Left, KeyModifiers::empty()),
        KeyEvent::new(KeyCode::Left, KeyModifiers::shift()),
        KeyEvent::new(KeyCode::Left, KeyModifiers::control()),
        KeyEvent::new(KeyCode::Backspace, KeyModifiers::empty()),
        KeyEvent::new(KeyCode::Char('🦀'), KeyModifiers::empty()),
        KeyEvent::new(KeyCode::Left, KeyModifiers::control() | KeyModifiers::shift()),
        KeyEvent::new(KeyCode::Right, KeyModifiers::shift()),
        KeyEvent::new(KeyCode::Delete, KeyModifiers::empty()),
        KeyEvent::new(KeyCode::Home, KeyModifiers::empty()),
        KeyEvent::new(KeyCode::Right, KeyModifiers::control() | KeyModifiers::shift()),
        KeyEvent::new(KeyCode::Right, KeyModifiers::empty()),
        KeyEvent::new(KeyCode::Char('é'), KeyModifiers::shift()),
        KeyEvent::new(KeyCode::Right, KeyModifiers::control()),
        KeyEvent::new(KeyCode::Char('a'), KeyModifiers::control()),
        KeyEvent::new(KeyCode::End, KeyModifiers::empty()),
    ];
    for round in 0..4 {
        for (i, key) in keys.iter().enumerate() {
            if (i + round) % 5 == 4 {
                continue;
            }
            field.map(*key);
            assert!(field.as_str().is_char_boundary(field.cursor()));
            if let Some((anchor, active)) = field.selection() {
                assert!(field.as_str().is_char_boundary(anchor));
                assert!(field.as_str().is_char_boundary(active));
                assert_eq!(active, field.cursor());
            }
        }
    }
}

#[test]
fn moves_at_the_ends_are_skipped() {
    let mut field = TextField::new("ab🦀".to_owned());
    assert_eq!(field.go_right(), Status::Skipped);
    assert_eq!(field.cursor(), 6);
    assert_eq!(field.as_str(), "ab🦀");
    field.cursor_set(0);
    assert_eq!(field.go_left(), Status::Skipped);
    assert_eq!(field.cursor(), 0);
    assert_eq!(field.selection(), None);

    let mut empty = TextField::default();
    assert_eq!(empty.del(), Status::Skipped);
    assert_eq!(empty.backspace(), Status::Skipped);
    assert_eq!(empty.as_str(), "");
}

#[test]
fn a_move_that_only_drops_the_selection_updates_the_cursor() {
    let mut field = TextField::new("ab".to_owned());
    field.select_all();
    assert_eq!(field.go_right(), Status::UpdatedCursor);
    assert_eq!(field.cursor(), 2);
    assert_eq!(field.selection(), None);
}

#[test]
fn rendering_twice_sends_the_same() {
    let mut field = TextField::new("some 🦀 text that is rather long for the line".to_owned());
    field.cursor_set(5);
    field.select_jump_right();
    let line = Line { row: 3, col: 2, width: 20 };
    let mut backend = MockedBackend::init();
    field.widget(line, MockedStyle::reversed(), MockedStyle::bg(2), &mut backend);
    let first = backend.drain();
    backend.print("something in between");
    backend.drain();
    field.widget(line, MockedStyle::reversed(), MockedStyle::bg(2), &mut backend);
    let second = backend.drain();
    assert_eq!(first, second);
    assert!(!first.is_empty());
}

#[test]
fn unmapped_keys_change_nothing() {
    let mut field = TextField::new("text".to_owned());
    field.select_left();
    for key in [
        KeyEvent::new(KeyCode::Other, KeyModifiers::empty()),
        KeyEvent::new(KeyCode::Char('c'), KeyModifiers::control()),
        KeyEvent::new(KeyCode::Char('a'), KeyModifiers::control() | KeyModifiers::shift()),
        KeyEvent::new(KeyCode::Char('v'), KeyModifiers::control()),
    ] {
        assert_eq!(field.map(key), None);
        assert_eq!(field.as_str(), "text");
        assert_eq!(field.cursor(), 3);
        assert_eq!(field.selection(), Some((4, 3)));
    }
    assert_eq!(
        field.map(KeyEvent::new(KeyCode::Char('A'), KeyModifiers::control())),
        Some(Status::UpdatedCursor)
    );
    assert_eq!(field.selection(), Some((0, 4)));
    assert_eq!(
        field.map(KeyEvent::new(KeyCode::Char('A'), KeyModifiers::control())),
        Some(Status::Skipped)
    );
}

#[test]
fn status_combines_to_the_greater() {
    assert_eq!(Status::Skipped + Status::Skipped, Status::Skipped);
    assert_eq!(Status::Skipped + Status::UpdatedCursor, Status::UpdatedCursor);
    assert_eq!(Status::UpdatedCursor + Status::Skipped, Status::UpdatedCursor);
    assert_eq!(Status::Updated + Status::UpdatedCursor, Status::Updated);
    assert_eq!(Status::UpdatedCursor + Status::Updated, Status::Updated);
    assert_eq!(Status::default(), Status::Skipped);
    let mut status = Status::Skipped;
    status += Status::UpdatedCursor;
    status += Status::Skipped;
    assert_eq!(status, Status::UpdatedCursor);
    status += Status::Updated;
    status += Status::UpdatedCursor;
    assert_eq!(status, Status::Updated);
    assert!(Status::Updated.is_text_updated());
    assert!(!Status::UpdatedCursor.is_text_updated());
    assert!(Status::UpdatedCursor.is_updated());
    assert!(!Status::Skipped.is_updated());
}

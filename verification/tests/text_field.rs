use idiom_tui::backend::{Backend, MockedBackend, MockedStyle};
use idiom_tui::layout::Line;
use idiom_tui::text_field::{KeyCode, KeyEvent, KeyModifiers, Status, TextField};
use idiom_tui::utils::classes::should_jump;

#[test]
fn render_non_ascii() {
    let mut field = TextField::new("a a🦀🦀ssd asd 🦀s".to_owned());
    let mut backend = MockedBackend::init();
    let line = Line {
        row: 0,
        col: 1,
        width: 50,
    };
    field.widget(
        line,
        MockedStyle::default(),
        MockedStyle::default(),
        &mut backend,
    );
    assert_eq!(
        backend.drain(),
        &[
            (MockedStyle::default(), "<<go to row: 0 col: 1>>".to_owned()),
            (MockedStyle::default(), " >> ".to_owned()),
            (MockedStyle::default(), "a a🦀🦀ssd asd 🦀s".to_owned()),
            (MockedStyle::default(), " ".to_owned()),
            (MockedStyle::default(), "<<padding: 27>>".to_owned()),
        ]
    );

    field.cursor_set(0);
    field.go_right();
    field.go_right();
    field.go_right();

    let line = Line {
        row: 0,
        col: 1,
        width: 50,
    };
    field.widget(
        line,
        MockedStyle::default(),
        MockedStyle::default(),
        &mut backend,
    );
    assert_eq!(
        backend.drain(),
        &[
            (MockedStyle::default(), "<<go to row: 0 col: 1>>".to_owned()),
            (MockedStyle::default(), " >> ".to_owned()),
            (MockedStyle::default(), "a a".to_owned()),
            (MockedStyle::default(), "🦀".to_owned()),
            (MockedStyle::default(), "🦀ssd asd 🦀s".to_owned()),
            (MockedStyle::default(), "<<padding: 28>>".to_owned()),
        ]
    );

    field.go_right();
    field.select_jump_right();

    let line = Line {
        row: 0,
        col: 1,
        width: 50,
    };
    field.widget(
        line,
        MockedStyle::default(),
        MockedStyle::default(),
        &mut backend,
    );
    assert_eq!(
        backend.drain(),
        &[
            (MockedStyle::default(), "<<go to row: 0 col: 1>>".to_owned()),
            (MockedStyle::default(), " >> ".to_owned()),
            (MockedStyle::default(), "a a🦀".to_owned()),
            (MockedStyle::default(), "🦀ssd".to_owned()),
            (MockedStyle::default(), " ".to_owned()),
            (MockedStyle::default(), "asd 🦀s".to_owned()),
            (MockedStyle::default(), "<<padding: 28>>".to_owned()),
        ]
    );
}

#[test]
fn render_with_number() {
    let field = TextField::new("some text".to_owned());
    let mut backend = MockedBackend::init();
    let line = Line {
        row: 0,
        col: 1,
        width: 50,
    };

    field.widget_with_count(
        line,
        3,
        MockedStyle::default(),
        MockedStyle::default(),
        &mut backend,
    );

    assert_eq!(
        backend.drain(),
        &[
            (MockedStyle::default(), "<<go to row: 0 col: 1>>".to_owned()),
            (MockedStyle::default(), "  3".to_owned()),
            (MockedStyle::default(), " >> ".to_owned()),
            (MockedStyle::default(), "some text".to_owned()),
            (MockedStyle::default(), " ".to_owned()),
            (MockedStyle::default(), "<<padding: 33>>".to_owned()),
        ]
    );
}

#[test]
fn test_should_jump() {
    assert!(should_jump('a'));
    assert!(should_jump('1'));
    assert!(should_jump('b'));
    assert!(!should_jump('🦀'));
}

#[test]
fn get_select() {
    let mut t = TextField::new("0123456789".to_owned());
    for _ in 0..5 {
        t.select_left();
    }
    assert_eq!(t.selection(), Some((10, 5)));
    assert_eq!(t.select().unwrap(), (5, 10));
    t.cursor_set(3);
    for _ in 0..5 {
        t.select_right();
    }
    assert_eq!(t.selection(), Some((3, 8)));
    assert_eq!(t.select().unwrap(), (3, 8));
}

#[test]
fn move_status() {
    let mut t = TextField::new("rand_text".into());
    assert_eq!(t.cursor(), t.as_str().len());
    assert!(!t.go_right().is_updated());
    assert!(!t.jump_right().is_updated());
    assert!(t.select_right().is_updated());
    assert!(!t.select_right().is_updated());
    assert!(!t.select_jump_right().is_updated());

    assert!(t.go_left().is_updated());
    assert_eq!(t.cursor(), 8);
    assert!(t.jump_left().is_updated());
    assert_eq!(t.cursor(), 5);
    assert!(t.select().is_none());
    assert!(t.select_jump_left().is_updated());
    assert_eq!(t.cursor(), 0);
    assert!(t.select().is_some());

    assert!(t.go_left().is_updated());
    assert!(t.select().is_none());
    assert!(!t.go_left().is_updated());
    assert!(!t.jump_left().is_updated());
    assert!(t.select_left().is_updated());
    assert!(!t.select_left().is_updated());
    assert!(!t.select_jump_left().is_updated());

    assert!(t.go_right().is_updated());
    assert_eq!(t.cursor(), 1);
    assert!(t.jump_right().is_updated());
    assert_eq!(t.cursor(), 4);
    assert!(t.select().is_none());
    assert!(t.select_jump_right().is_updated());
    assert_eq!(t.cursor(), 9);
    assert!(t.select().is_some());
    assert!(t.go_right().is_updated());
    assert!(t.select().is_none());
}

#[test]
fn test_setting() {
    let mut field = TextField::default();
    field.text_set("12345".to_owned());
    assert_eq!(field.as_str(), "12345");
    assert_eq!(field.cursor(), 5);
    field.map(KeyEvent::new(KeyCode::Left, KeyModifiers::shift()));
    assert!(field.selection().is_some());
    assert_eq!(field.cursor(), 4);
    assert_eq!(&field.text_take(), "12345");
    assert_eq!(field.cursor(), 0);
    assert_eq!(field.as_str(), "");
    assert!(field.selection().is_none());
}

#[test]
fn test_setting_non_ascii() {
    let mut field = TextField::default();
    field.text_set("1234🦀".to_owned());
    assert_eq!(field.as_str(), "1234🦀");
    assert_eq!(field.cursor(), 8);
    field.map(KeyEvent::new(KeyCode::Left, KeyModifiers::empty()));
    assert_eq!(field.cursor(), 4);
    field.map(KeyEvent::new(KeyCode::Right, KeyModifiers::empty()));
    assert_eq!(field.cursor(), 8);
    field.map(KeyEvent::new(KeyCode::Left, KeyModifiers::shift()));
    assert!(field.selection().is_some());
    assert_eq!(field.cursor(), 4);
    assert_eq!(&field.text_take(), "1234🦀");
    assert_eq!(field.cursor(), 0);
    assert_eq!(field.as_str(), "");
    assert!(field.selection().is_none());
}

#[test]
fn test_move() {
    let mut field = TextField::default();
    assert_eq!(
        field.map(KeyEvent::new(KeyCode::Right, KeyModifiers::empty())),
        Some(Status::Skipped)
    );
    assert!(field.cursor() == 0);
    field.text_set("12".to_owned());
    assert_eq!(
        field.map(KeyEvent::new(KeyCode::Right, KeyModifiers::control())),
        Some(Status::Skipped)
    );
    assert_eq!(field.cursor(), 2);
    assert_eq!(
        field.map(KeyEvent::new(KeyCode::Left, KeyModifiers::control())),
        Some(Status::UpdatedCursor)
    );
    assert_eq!(field.cursor(), 0);
    assert_eq!(
        field.map(KeyEvent::new(KeyCode::Right, KeyModifiers::empty())),
        Some(Status::UpdatedCursor)
    );
    assert_eq!(field.cursor(), 1);
    assert_eq!(
        field.map(KeyEvent::new(KeyCode::Left, KeyModifiers::empty())),
        Some(Status::UpdatedCursor)
    );
    assert_eq!(field.cursor(), 0);
}

#[test]
fn text_get_token_at_cursor() {
    let mut field = TextField::new("a a🦀sd xx".to_owned());
    field.cursor_set(0);
    field.go_right();
    field.go_right();
    assert_eq!(field.cursor(), 2);
    assert_eq!(field.get_token_at_cursor(), Some("a🦀sd"));
    let mut field = TextField::new("a asd xx".to_owned());
    field.cursor_set(0);
    field.go_right();
    field.go_right();
    assert_eq!(field.cursor(), 2);
    assert_eq!(field.get_token_at_cursor(), Some("asd"));
}

#[test]
fn test_backspace() {
    let mut field = TextField::new("a a🦀🦀ssd".to_owned());
    field.go_left();
    assert_eq!(field.cursor(), 13);
    assert_eq!(field.len(), 14);
    field.backspace();
    assert_eq!(field.cursor(), 12);
    assert_eq!(field.as_str(), "a a🦀🦀sd");
    assert_eq!(
        field.map(KeyEvent::new(KeyCode::Backspace, KeyModifiers::empty())),
        Some(Status::Updated)
    );
    assert_eq!(field.cursor(), 11);
    assert_eq!(field.as_str(), "a a🦀🦀d");
    field.backspace();
    assert_eq!(field.cursor(), 7);
    assert_eq!(field.as_str(), "a a🦀d");
    assert_eq!(
        field.map(KeyEvent::new(KeyCode::Backspace, KeyModifiers::empty())),
        Some(Status::Updated)
    );
    assert_eq!(field.cursor(), 3);
    assert_eq!(field.as_str(), "a ad");
}

#[test]
fn test_del() {
    let mut field = TextField::new("a a🦀🦀ssd".to_owned());
    field.go_left();
    field.go_left();
    field.go_left();
    field.go_left();
    assert_eq!(field.cursor(), 7);
    field.go_left();
    assert_eq!(field.cursor(), 3);
    assert_eq!(
        field.map(KeyEvent::new(KeyCode::Delete, KeyModifiers::empty())),
        Some(Status::Updated)
    );
    assert_eq!(field.cursor(), 3);
    assert_eq!(field.as_str(), "a a🦀ssd");
    field.del();
    assert_eq!(field.cursor(), 3);
    assert_eq!(field.as_str(), "a assd");
    assert_eq!(
        field.map(KeyEvent::new(KeyCode::Delete, KeyModifiers::empty())),
        Some(Status::Updated)
    );
    assert_eq!(field.cursor(), 3);
    assert_eq!(field.as_str(), "a asd");
    field.del();
    assert_eq!(field.cursor(), 3);
    assert_eq!(field.as_str(), "a ad");
}

#[test]
fn select() {
    let mut field = TextField::new("a axxssd as".to_owned());
    assert_eq!(
        field.map(KeyEvent::new(KeyCode::Left, KeyModifiers::control())),
        Some(Status::UpdatedCursor)
    );
    assert_eq!(field.cursor(), 9);
    assert_eq!(
        field.map(KeyEvent::new(KeyCode::Left, KeyModifiers::empty())),
        Some(Status::UpdatedCursor)
    );
    assert_eq!(field.cursor(), 8);
    assert_eq!(
        field.map(KeyEvent::new(
            KeyCode::Left,
            KeyModifiers::control() | KeyModifiers::shift()
        )),
        Some(Status::UpdatedCursor)
    );
    assert_eq!(field.cursor(), 2);
    assert_eq!(field.copy().unwrap(), "axxssd");
    assert_eq!(
        field.map(KeyEvent::new(KeyCode::Right, KeyModifiers::empty())),
        Some(Status::UpdatedCursor)
    );
    assert_eq!(field.cursor(), 3);
    assert_eq!(field.copy(), None);
    assert_eq!(
        field.map(KeyEvent::new(
            KeyCode::Right,
            KeyModifiers::control() | KeyModifiers::shift()
        )),
        Some(Status::UpdatedCursor)
    );
    assert_eq!(field.cursor(), 8);
    assert_eq!(field.copy().unwrap(), "xxssd");

    field.cursor_set(0);
    assert_eq!(
        field.map(KeyEvent::new(KeyCode::Right, KeyModifiers::control())),
        Some(Status::UpdatedCursor)
    );
    assert_eq!(field.cursor(), 1);
    assert_eq!(
        field.map(KeyEvent::new(KeyCode::Right, KeyModifiers::empty())),
        Some(Status::UpdatedCursor)
    );
    assert_eq!(field.cursor(), 2);
    assert_eq!(
        field.map(KeyEvent::new(
            KeyCode::Right,
            KeyModifiers::control() | KeyModifiers::shift()
        )),
        Some(Status::UpdatedCursor)
    );
    assert_eq!(field.cursor(), 8);
    assert_eq!(field.copy().unwrap(), "axxssd");
    assert_eq!(
        field.map(KeyEvent::new(KeyCode::Left, KeyModifiers::empty())),
        Some(Status::UpdatedCursor)
    );
    assert_eq!(field.cursor(), 7);
    assert_eq!(field.copy(), None);
    assert_eq!(
        field.map(KeyEvent::new(
            KeyCode::Left,
            KeyModifiers::control() | KeyModifiers::shift()
        )),
        Some(Status::UpdatedCursor)
    );
    assert_eq!(field.cursor(), 2);
    assert_eq!(field.copy().unwrap(), "axxss");
}

#[test]
fn select_calls() {
    let mut field = TextField::new("a axxssd as".to_owned());
    field.jump_left();
    assert_eq!(field.cursor(), 9);
    field.go_left();
    assert_eq!(field.cursor(), 8);
    field.select_jump_left();
    assert_eq!(field.cursor(), 2);
    assert_eq!(field.copy().unwrap(), "axxssd");
    field.go_right();
    assert_eq!(field.cursor(), 3);
    assert_eq!(field.copy(), None);
    field.select_jump_right();
    assert_eq!(field.cursor(), 8);
    assert_eq!(field.copy().unwrap(), "xxssd");

    field.cursor_set(0);
    field.jump_right();
    assert_eq!(field.cursor(), 1);
    field.go_right();
    assert_eq!(field.cursor(), 2);
    field.select_jump_right();
    assert_eq!(field.cursor(), 8);
    assert_eq!(field.copy().unwrap(), "axxssd");
    field.go_left();
    assert_eq!(field.cursor(), 7);
    assert_eq!(field.copy(), None);
    field.select_jump_left();
    assert_eq!(field.cursor(), 2);
    assert_eq!(field.copy().unwrap(), "axxss");
}

#[test]
fn select_non_ascii() {
    let mut field = TextField::new("a a🦀🦀ssd a".to_owned());
    assert_eq!(
        field.map(KeyEvent::new(KeyCode::Left, KeyModifiers::control())),
        Some(Status::UpdatedCursor)
    );
    assert_eq!(field.cursor(), 15);
    assert_eq!(
        field.map(KeyEvent::new(KeyCode::Left, KeyModifiers::empty())),
        Some(Status::UpdatedCursor)
    );
    assert_eq!(field.cursor(), 14);
    assert_eq!(
        field.map(KeyEvent::new(
            KeyCode::Left,
            KeyModifiers::control() | KeyModifiers::shift()
        )),
        Some(Status::UpdatedCursor)
    );
    assert_eq!(field.cursor(), 11);
    assert_eq!(
        field.map(KeyEvent::new(
            KeyCode::Left,
            KeyModifiers::control() | KeyModifiers::shift()
        )),
        Some(Status::UpdatedCursor)
    );
    assert_eq!(
        field.map(KeyEvent::new(
            KeyCode::Left,
            KeyModifiers::control() | KeyModifiers::shift()
        )),
        Some(Status::UpdatedCursor)
    );
    assert_eq!(field.cursor(), 2);
    assert_eq!(field.copy().unwrap(), "a🦀🦀ssd");
    assert_eq!(
        field.map(KeyEvent::new(KeyCode::Right, KeyModifiers::empty())),
        Some(Status::UpdatedCursor)
    );
    assert_eq!(field.cursor(), 3);
    assert_eq!(field.copy(), None);
    assert_eq!(
        field.map(KeyEvent::new(
            KeyCode::Right,
            KeyModifiers::control() | KeyModifiers::shift()
        )),
        Some(Status::UpdatedCursor)
    );
    assert_eq!(
        field.map(KeyEvent::new(
            KeyCode::Right,
            KeyModifiers::control() | KeyModifiers::shift()
        )),
        Some(Status::UpdatedCursor)
    );
    assert_eq!(field.cursor(), 14);
    assert_eq!(field.copy().unwrap(), "🦀🦀ssd");

    field.cursor_set(0);
    assert_eq!(
        field.map(KeyEvent::new(KeyCode::Right, KeyModifiers::control())),
        Some(Status::UpdatedCursor)
    );
    assert_eq!(field.cursor(), 1);
    assert_eq!(
        field.map(KeyEvent::new(KeyCode::Right, KeyModifiers::empty())),
        Some(Status::UpdatedCursor)
    );
    assert_eq!(field.cursor(), 2);
    assert_eq!(
        field.map(KeyEvent::new(
            KeyCode::Right,
            KeyModifiers::control() | KeyModifiers::shift()
        )),
        Some(Status::UpdatedCursor)
    );
    assert_eq!(field.cursor(), 3);
    assert_eq!(
        field.map(KeyEvent::new(
            KeyCode::Right,
            KeyModifiers::control() | KeyModifiers::shift()
        )),
        Some(Status::UpdatedCursor)
    );
    assert_eq!(
        field.map(KeyEvent::new(
            KeyCode::Right,
            KeyModifiers::control() | KeyModifiers::shift()
        )),
        Some(Status::UpdatedCursor)
    );
    assert_eq!(field.cursor(), 14);
    assert_eq!(field.copy().unwrap(), "a🦀🦀ssd");
    assert_eq!(
        field.map(KeyEvent::new(KeyCode::Left, KeyModifiers::empty())),
        Some(Status::UpdatedCursor)
    );
    assert_eq!(field.cursor(), 13);
    assert_eq!(field.copy(), None);
    assert_eq!(
        field.map(KeyEvent::new(
            KeyCode::Left,
            KeyModifiers::control() | KeyModifiers::shift()
        )),
        Some(Status::UpdatedCursor)
    );
    assert_eq!(
        field.map(KeyEvent::new(
            KeyCode::Left,
            KeyModifiers::control() | KeyModifiers::shift()
        )),
        Some(Status::UpdatedCursor)
    );
    assert_eq!(field.cursor(), 7);
    assert_eq!(field.copy().unwrap(), "🦀ss");
}

#[test]
fn select_non_ascii_calls() {
    let mut field = TextField::new("a a🦀🦀ssd a".to_owned());
    field.jump_left();
    assert_eq!(field.cursor(), 15);
    field.go_left();
    assert_eq!(field.cursor(), 14);
    field.select_jump_left();
    assert_eq!(field.cursor(), 11);
    field.select_jump_left();
    field.select_jump_left();
    assert_eq!(field.cursor(), 2);
    assert_eq!(field.copy().unwrap(), "a🦀🦀ssd");
    field.go_right();
    assert_eq!(field.cursor(), 3);
    assert_eq!(field.copy(), None);
    field.select_jump_right();
    field.select_jump_right();
    assert_eq!(field.cursor(), 14);
    assert_eq!(field.copy().unwrap(), "🦀🦀ssd");

    field.cursor_set(0);
    field.jump_right();
    assert_eq!(field.cursor(), 1);
    field.go_right();
    assert_eq!(field.cursor(), 2);
    field.select_jump_right();
    assert_eq!(field.cursor(), 3);
    field.select_jump_right();
    field.select_jump_right();
    assert_eq!(field.cursor(), 14);
    assert_eq!(field.copy().unwrap(), "a🦀🦀ssd");
    field.go_left();
    assert_eq!(field.cursor(), 13);
    assert_eq!(field.copy(), None);
    field.select_jump_left();
    field.select_jump_left();
    assert_eq!(field.cursor(), 7);
    assert_eq!(field.copy().unwrap(), "🦀ss");
}

#[test]
fn test_move_non_ascii() {
    let mut field = TextField::default();
    assert_eq!(
        field.map(KeyEvent::new(KeyCode::Right, KeyModifiers::empty())),
        Some(Status::Skipped)
    );
    assert!(field.cursor() == 0);
    field.text_set("1🦀2".to_owned());
    assert_eq!(
        field.map(KeyEvent::new(KeyCode::Right, KeyModifiers::control())),
        Some(Status::Skipped)
    );
    assert_eq!(field.cursor(), 6);
    assert_eq!(
        field.map(KeyEvent::new(KeyCode::Left, KeyModifiers::control())),
        Some(Status::UpdatedCursor)
    );
    assert_eq!(field.cursor(), 5);
    assert_eq!(
        field.map(KeyEvent::new(KeyCode::Left, KeyModifiers::control())),
        Some(Status::UpdatedCursor)
    );
    assert_eq!(field.cursor(), 0);
    assert_eq!(
        field.map(KeyEvent::new(KeyCode::Right, KeyModifiers::empty())),
        Some(Status::UpdatedCursor)
    );
    assert_eq!(field.cursor(), 1);
    assert_eq!(
        field.map(KeyEvent::new(KeyCode::Right, KeyModifiers::control())),
        Some(Status::UpdatedCursor)
    );
    assert_eq!(field.cursor(), 6);
    assert_eq!(
        field.map(KeyEvent::new(KeyCode::Left, KeyModifiers::empty())),
        Some(Status::UpdatedCursor)
    );
    assert_eq!(field.cursor(), 5);
}

#[test]
fn test_select() {
    let mut field = TextField::default();
    field.text_set("a3cde".to_owned());
    field.cursor_set(0);
    assert_eq!(
        field.map(KeyEvent::new(
            KeyCode::Right,
            KeyModifiers::control() | KeyModifiers::shift(),
        )),
        Some(Status::UpdatedCursor)
    );
    assert_eq!(field.selection(), Some((0, 5)));
    assert_eq!(field.cursor(), 5);
    assert_eq!(
        field.map(KeyEvent::new(KeyCode::Right, KeyModifiers::empty())),
        Some(Status::UpdatedCursor)
    );
    assert!(field.selection().is_none());
    assert_eq!(field.cursor(), 5);
    assert_eq!(
        field.map(KeyEvent::new(KeyCode::Left, KeyModifiers::shift())),
        Some(Status::UpdatedCursor)
    );
    assert_eq!(field.selection(), Some((5, 4)));
    assert_eq!(
        field.map(KeyEvent::new(
            KeyCode::Left,
            KeyModifiers::shift() | KeyModifiers::control(),
        )),
        Some(Status::UpdatedCursor)
    );
    assert_eq!(field.selection(), Some((5, 0)));
    assert_eq!(
        field.map(KeyEvent::new(KeyCode::Backspace, KeyModifiers::empty())),
        Some(Status::Updated)
    );
    assert_eq!(field.as_str(), "");
}

#[test]
fn test_select_all_map() {
    let mut field = TextField::new("data".into());
    assert!(field.selection().is_none());
    assert_eq!(
        field.map(KeyEvent::new(KeyCode::Char('a'), KeyModifiers::control(),)),
        Some(Status::UpdatedCursor)
    );
    assert_eq!(field.cursor(), 4);
    assert_eq!(field.copy().unwrap(), "data");
}

#[test]
fn test_start_of_line() {
    let mut field = TextField::new("data".into());
    field.select_all();
    assert_eq!(field.copy().unwrap(), "data");
    assert_eq!(field.cursor(), 4);
    assert_eq!(
        field.map(KeyEvent::new(KeyCode::Home, KeyModifiers::empty())),
        Some(Status::UpdatedCursor)
    );
    assert_eq!(field.cursor(), 0);
    assert!(field.copy().is_none());
}

#[test]
fn test_end_of_line() {
    let mut field = TextField::new("data".into());
    field.select_jump_left();
    assert_eq!(field.copy().unwrap(), "data");
    assert_eq!(field.cursor(), 0);
    assert_eq!(
        field.map(KeyEvent::new(KeyCode::End, KeyModifiers::empty())),
        Some(Status::UpdatedCursor)
    );
    assert_eq!(field.cursor(), 4);
    assert!(field.copy().is_none());
}

#[test]
fn test_select_all() {
    let mut field = TextField::new("data".into());
    assert!(field.selection().is_none());
    field.select_all();
    assert_eq!(field.cursor(), 4);
    assert_eq!(field.copy().unwrap(), "data");
}

#[test]
fn test_ord_status() {
    assert!(Status::Skipped < Status::UpdatedCursor);
    assert!(Status::UpdatedCursor < Status::Updated);
    assert!(Status::Updated > Status::Skipped);
    assert!(Status::Updated == Status::Updated);
}

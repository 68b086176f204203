use idiom_tui::backend::{Backend, MockedBackend, MockedStyle, StyleExt};
use idiom_tui::layout::Rect;

fn plain(text: &str) -> (MockedStyle, String) {
    (MockedStyle::default(), text.to_owned())
}

#[test]
fn the_recorder_notes_every_request() {
    let mut backend = MockedBackend::init();
    backend.freeze();
    backend.unfreeze();
    backend.flush_buf();
    backend.clear_all();
    backend.clear_line();
    backend.clear_to_eol();
    backend.go_to(65535, 0);
    backend.hide_cursor();
    backend.show_cursor();
    backend.print("text");
    backend.print_at(1, 2, "at");
    backend.render_cursor_at(3, 40);
    backend.save_cursor();
    backend.restore_cursor();
    backend.pad(0);
    backend.pad(1234567);
    assert_eq!(
        backend.drain(),
        vec![
            plain("<<freeze>>"),
            plain("<<unfreeze>>"),
            plain("<<clear all>>"),
            plain("<<clear line>>"),
            plain("<<clear EOL>>"),
            plain("<<go to row: 65535 col: 0>>"),
            plain("text"),
            plain("<<go to row: 1 col: 2>>"),
            plain("at"),
            plain("<<draw cursor row: 3 col: 40>>"),
            plain("<<saved cursor>>"),
            plain("<<restored cursor>>"),
            plain("<<padding: 0>>"),
            plain("<<padding: 1234567>>"),
        ]
    );
    assert_eq!(backend.drain(), vec![]);
    assert!(MockedBackend::exit().is_ok());
    assert_eq!(MockedBackend::screen().unwrap(), Rect::new(0, 0, 120, 60));
    MockedBackend::detached_hide_cursor();
    MockedBackend::detached_show_cursor();
}

#[test]
fn the_recorder_keeps_the_style_that_is_set() {
    let mut backend = MockedBackend::init();
    assert_eq!(backend.get_style(), MockedStyle::default());
    backend.set_style(MockedStyle::bold());
    assert_eq!(backend.get_style(), MockedStyle::bold());
    backend.print("bold");
    backend.print_styled("own", MockedStyle::fg(1));
    backend.print_styled_at(0, 0, "own", MockedStyle::fg(1));
    backend.to_set_style();
    backend.set_fg(Some(2));
    backend.set_bg(None);
    backend.set_bg(Some(4));
    backend.set_fg(None);
    backend.update_style(MockedStyle::ital());
    backend.pad_styled(3, MockedStyle::fg(1));
    backend.reset_style();
    backend.print("plain");
    let mut bold_fg = MockedStyle::bold();
    bold_fg.set_fg(Some(2));
    let mut bold_both = bold_fg;
    bold_both.set_bg(Some(4));
    let mut bold_bg = bold_both;
    bold_bg.set_fg(None);
    let mut merged = MockedStyle::bold();
    merged.add_ital();
    let record = backend.unwrap();
    assert_eq!(
        record[..12],
        [
            (MockedStyle::bold(), "<<set style>>".to_owned()),
            (MockedStyle::bold(), "bold".to_owned()),
            (MockedStyle::fg(1), "own".to_owned()),
            plain("<<go to row: 0 col: 0>>"),
            (MockedStyle::fg(1), "own".to_owned()),
            (MockedStyle::bold(), "<<set style>>".to_owned()),
            (bold_fg, "<<set fg Some(2)>>".to_owned()),
            (bold_fg, "<<set bg None>>".to_owned()),
            (bold_both, "<<set bg Some(4)>>".to_owned()),
            (bold_bg, "<<set fg None>>".to_owned()),
            (merged, "<<updated style>>".to_owned()),
            (merged, format!("<<padding: 3, styled: {:?}>>", MockedStyle::fg(1))),
        ]
    );
    assert_eq!(record[12..], [plain("<<reset style>>"), plain("plain")]);
}

#[test]
fn styles_of_the_recorder() {
    assert_eq!(MockedBackend::reversed_style(), MockedStyle::reversed());
    assert_eq!(MockedBackend::bold_style(), MockedStyle::bold());
    assert_eq!(MockedBackend::ital_style(), MockedStyle::ital());
    assert_eq!(MockedBackend::slow_blink_style(), MockedStyle::slowblink());
    assert_eq!(MockedBackend::underline_style(Some(1)), MockedStyle::underlined(None));
    assert_eq!(MockedBackend::undercurle_style(None), MockedStyle::undercurled(Some(1)));
    assert_eq!(MockedBackend::fg_style(5), MockedStyle::fg(5));
    assert_eq!(MockedBackend::bg_style(5), MockedStyle::bg(5));
    assert_ne!(MockedStyle::fg(5), MockedStyle::bg(5));
    for style in [MockedStyle::default(), MockedStyle::fg(120), MockedStyle::bg(0), MockedStyle::underlined(None)] {
        assert_eq!(style.describe(), format!("{:?}", style));
    }
    assert_ne!(MockedStyle::bold(), MockedStyle::ital());

    let mut style = MockedStyle::default();
    style.add_bold();
    style.add_ital();
    style.add_reverse();
    style.add_slowblink();
    style.undercurle(None);
    style.underline(None);
    let mut all = MockedStyle::default();
    for attr in 1..7 {
        all.set_attr(attr);
    }
    all.set_attr(0);
    all.set_attr(7);
    assert_eq!(style, all);
    all.unset_attr(3);
    style.unset_attr(3);
    assert_eq!(style, all);
    assert_ne!(style, MockedStyle::default());
    style.reset_mods();
    assert_eq!(style, MockedStyle::default());
    let mut colors = MockedStyle::fg(1).with_bg(2);
    assert_eq!(colors, MockedStyle::bg(2));
    assert_eq!(MockedStyle::bg(1).with_fg(2), MockedStyle::fg(2));
    colors.set_fg(Some(9));
    colors.drop_bg();
    assert_eq!(colors, MockedStyle::fg(9));
    colors.update(MockedStyle::bold());
    assert_eq!(colors, MockedStyle::bold());
}

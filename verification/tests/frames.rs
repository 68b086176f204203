use idiom_tui::backend::{Backend, MockedBackend, MockedStyle, StyleExt};
use idiom_tui::layout::{BorderSet, Borders, IterLines, Line, Rect};
use idiom_tui::widgets::Text;
use idiom_tui::{count_as_string, Position};

fn go_to(row: u16, col: u16) -> (MockedStyle, String) {
    (MockedStyle::default(), format!("<<go to row: {row} col: {col}>>"))
}

fn plain(text: &str) -> (MockedStyle, String) {
    (MockedStyle::default(), text.to_owned())
}

#[test]
fn counts_in_three_columns() {
    assert_eq!(count_as_string(0), "  0");
    assert_eq!(count_as_string(9), "  9");
    assert_eq!(count_as_string(10), " 10");
    assert_eq!(count_as_string(99), " 99");
    assert_eq!(count_as_string(100), "99+");
    assert_eq!(count_as_string(usize::MAX), "99+");
}

#[test]
fn rectangles_with_borders() {
    assert_eq!(
        Rect::new_bordered(1, 1, 10, 5),
        Rect { row: 0, col: 0, width: 8, height: 3, borders: Borders::all() }
    );
    let mut rect = Rect::new(2, 3, 10, 6);
    rect.bordered();
    assert_eq!(rect, Rect { row: 3, col: 4, width: 8, height: 4, borders: Borders::all() });
    assert_eq!(Rect::new(2, 3, 10, 6).with_borders(), rect);
    let mut rect = Rect::new(2, 3, 10, 6);
    rect.top_border().left_border();
    assert_eq!(
        rect,
        Rect { row: 3, col: 4, width: 9, height: 5, borders: Borders::top() | Borders::left() }
    );
    rect.bot_border().right_border();
    assert_eq!(rect, Rect { row: 3, col: 4, width: 8, height: 4, borders: Borders::all() });
    assert!(rect.borders.contains(Borders::top() | Borders::bottom()));
    assert!(!Borders::top().contains(Borders::top() | Borders::left()));
    assert!(Borders::top().contains(Borders::empty()));
    assert_eq!(Borders::default(), Borders::empty());
    let mut set = Borders::right();
    set.insert(Borders::bottom());
    assert_eq!(set, Borders::right() | Borders::bottom());
    assert_eq!(Rect::default(), Rect::new(0, 0, 0, 0));
}

#[test]
fn positions_in_a_rectangle() {
    let rect = Rect::new(2, 3, 4, 5);
    assert!(rect.contains_position(2, 3));
    assert!(rect.contains_position(6, 6));
    assert!(!rect.contains_position(7, 6));
    assert!(!rect.contains_position(6, 7));
    assert!(!rect.contains_position(1, 3));
    assert!(!rect.contains_position(2, 2));
    assert_eq!(rect.relative_position(4, 5), Some(Position { row: 2, col: 2 }));
    assert_eq!(rect.relative_position(1, 5), None);
    assert_eq!(rect.get_line(0), Some(Line { row: 2, col: 3, width: 4 }));
    assert_eq!(rect.get_line(4), Some(Line { row: 6, col: 3, width: 4 }));
    assert_eq!(rect.get_line(5), None);
}

#[test]
fn parts_of_a_rectangle() {
    let rect = Rect::new(10, 20, 30, 8);
    assert_eq!(rect.center(2, 10), Rect::new(13, 30, 10, 2));
    assert_eq!(rect.center(20, 100), Rect::new(10, 20, 30, 8));
    assert_eq!(rect.vcenter(10), Rect::new(10, 30, 10, 8));
    assert_eq!(rect.left(5), Rect::new(10, 20, 5, 8));
    assert_eq!(rect.right(5), Rect::new(10, 45, 5, 8));
    assert_eq!(rect.top(3), Rect::new(10, 20, 30, 3));
    assert_eq!(rect.bot(3), Rect::new(15, 20, 30, 3));
    assert_eq!(rect.left(50), rect);
    assert_eq!(rect.bot(50), rect);
    assert_eq!(rect.modal_absolute(5, 25, 10, 3), Rect::new(5, 25, 0, 0));
    assert_eq!(rect.modal_absolute(12, 15, 10, 3), Rect::new(12, 15, 0, 0));
    assert_eq!(rect.modal_absolute(11, 22, 10, 3), Rect::new(12, 22, 10, 3));
}

#[test]
fn lines_of_a_rectangle() {
    let mut rect = Rect::new(1, 2, 3, 2);
    assert_eq!(rect.next_line(), Some(Line { row: 1, col: 2, width: 3 }));
    assert_eq!(rect, Rect::new(2, 2, 3, 1));
    assert_eq!(rect.next_line(), Some(Line { row: 2, col: 2, width: 3 }));
    assert_eq!(rect.next_line(), None);
    assert_eq!(rect.next_line_back(), None);
    assert_eq!(rect.pop_line(), Line { row: 3, col: 2, width: 0 });

    let mut lines = Rect::new(1, 2, 3, 3).into_iter();
    assert_eq!(lines.len(), 3);
    assert_eq!(lines.width(), 3);
    assert!(!lines.is_finished());
    assert_eq!(lines.next(), Some(Line { row: 1, col: 2, width: 3 }));
    assert_eq!(lines.next_back(), Some(Line { row: 3, col: 2, width: 3 }));
    let mut backend = MockedBackend::init();
    assert_eq!(lines.move_cursor(&mut backend), Some(3));
    assert_eq!(lines.move_cursor(&mut backend), None);
    assert!(lines.is_finished());
    assert_eq!(backend.drain(), vec![go_to(2, 2)]);
    Rect::new(4, 1, 2, 2).clear(&mut backend);
    assert_eq!(
        backend.drain(),
        vec![go_to(4, 1), plain("<<padding: 2>>"), go_to(5, 1), plain("<<padding: 2>>")]
    );
}

#[test]
fn titles_on_borders() {
    let mut backend = MockedBackend::init();
    let plain_rect = Rect::new(2, 2, 6, 3);
    plain_rect.border_title("title", &mut backend);
    plain_rect.border_title_bot("title", &mut backend);
    plain_rect.border_title_styled("title", MockedStyle::bold(), &mut backend);
    plain_rect.border_title_bot_styled("title", MockedStyle::bold(), &mut backend);
    plain_rect.border_title_prefixed("a", "b", &mut backend);
    assert_eq!(backend.drain(), vec![]);

    let rect = Rect::new(1, 1, 8, 5).with_borders();
    rect.border_title("a long title", &mut backend);
    assert_eq!(backend.drain(), vec![go_to(1, 2), plain("a long")]);
    rect.border_title_styled("🦀🦀🦀🦀", MockedStyle::bold(), &mut backend);
    assert_eq!(backend.drain(), vec![go_to(1, 2), (MockedStyle::bold(), "🦀🦀🦀".to_owned())]);
    rect.border_title_bot("bot", &mut backend);
    assert_eq!(backend.drain(), vec![go_to(6, 2), plain("bot")]);
    rect.border_title_bot_styled("bot", MockedStyle::ital(), &mut backend);
    assert_eq!(backend.drain(), vec![go_to(6, 2), (MockedStyle::ital(), "bot".to_owned())]);
    rect.border_title_prefixed("ab", "path/to/file", &mut backend);
    assert_eq!(backend.drain(), vec![go_to(1, 2), plain("ab"), plain(".."), plain("le")]);
    rect.border_title_prefixed("abcd", "path", &mut backend);
    assert_eq!(backend.drain(), vec![go_to(1, 2), plain("abcd"), plain("th")]);
}

#[test]
fn borders_are_drawn_side_by_side() {
    let mut backend = MockedBackend::init();
    let rect = Rect::new(1, 1, 4, 4).with_borders();
    rect.draw_borders(None, None, &mut backend);
    assert_eq!(
        backend.drain(),
        vec![
            plain("<<saved cursor>>"),
            go_to(1, 1),
            plain("─"),
            go_to(1, 2),
            plain("─"),
            go_to(1, 3),
            plain("─"),
            go_to(4, 1),
            plain("─"),
            go_to(4, 2),
            plain("─"),
            go_to(4, 3),
            plain("─"),
            go_to(1, 1),
            plain("│"),
            go_to(2, 1),
            plain("│"),
            go_to(3, 1),
            plain("│"),
            go_to(1, 4),
            plain("│"),
            go_to(2, 4),
            plain("│"),
            go_to(3, 4),
            plain("│"),
            go_to(1, 1),
            plain("┌"),
            go_to(1, 4),
            plain("┐"),
            go_to(4, 1),
            plain("└"),
            go_to(4, 4),
            plain("┘"),
        ]
    );
}

#[test]
fn borders_in_color_on_one_side() {
    let mut backend = MockedBackend::init();
    let mut rect = Rect::new(0, 0, 2, 1);
    rect.left_border();
    let set = BorderSet { vertical_left: "|", ..BorderSet::borders() };
    rect.draw_borders(Some(set), Some(3), &mut backend);
    assert_eq!(
        backend.drain(),
        vec![
            plain("<<saved cursor>>"),
            (MockedStyle::fg(3), "<<set fg Some(3)>>".to_owned()),
            go_to(0, 0),
            (MockedStyle::fg(3), "|".to_owned()),
            plain("<<reset style>>"),
        ]
    );
}

#[test]
fn builders_fill_a_line() {
    let mut backend = MockedBackend::init();
    let line = Line { row: 1, col: 2, width: 6 };
    let mut builder = line.unsafe_builder(&mut backend);
    assert!(builder.push("ab", &mut backend));
    assert_eq!(builder.width(), 4);
    assert!(builder.push_styled("cd", MockedStyle::bold(), &mut backend));
    assert!(!builder.push("🦀🦀", &mut backend));
    assert_eq!(builder.width(), 0);
    assert!(builder.push("", &mut backend));
    assert!(!builder.push_styled("x", MockedStyle::bold(), &mut backend));
    builder.pad(&mut backend);
    assert_eq!(builder.into_line(), Line { row: 1, col: 2, width: 0 });
    assert_eq!(
        backend.drain(),
        vec![
            go_to(1, 2),
            plain("ab"),
            (MockedStyle::bold(), "cd".to_owned()),
            plain("🦀"),
            plain(""),
            (MockedStyle::bold(), "".to_owned()),
        ]
    );
    let mut builder = line.unsafe_builder(&mut backend);
    builder.push("ab", &mut backend);
    let mut other = line.unsafe_builder(&mut backend);
    other.pad_styled(MockedStyle::bold(), &mut backend);
    other.pad_styled(MockedStyle::bold(), &mut backend);
    builder.pad(&mut backend);
    let record = backend.drain();
    assert_eq!(record.len(), 5);
    assert_eq!(record[1], plain("ab"));
    assert!(record[3].1.starts_with("<<padding: 6, styled: MockedStyle"));
    assert_eq!(record[4], plain("<<padding: 4>>"));
}

#[test]
fn builders_fill_a_line_from_its_end() {
    let mut backend = MockedBackend::init();
    let line = Line { row: 1, col: 2, width: 6 };
    let mut builder = line.unsafe_builder_rev(&mut backend);
    assert!(builder.push("ab", &mut backend));
    assert_eq!(builder.width(), 4);
    assert!(builder.push_styled("c", MockedStyle::bold(), &mut backend));
    assert_eq!(builder.push_text(Text::<MockedBackend>::raw("d".to_owned()), &mut backend), None);
    assert_eq!(
        builder.push_text(Text::<MockedBackend>::raw("x🦀yz".to_owned()), &mut backend),
        Some(3)
    );
    assert_eq!(builder.width(), 0);
    assert!(!builder.push("more", &mut backend));
    builder.pad(&mut backend);
    assert_eq!(builder.into_line(), Line { row: 1, col: 2, width: 0 });
    assert_eq!(
        backend.drain(),
        vec![
            go_to(1, 2),
            plain("<<padding: 6>>"),
            go_to(1, 6),
            plain("ab"),
            go_to(1, 5),
            (MockedStyle::bold(), "c".to_owned()),
            go_to(1, 4),
            plain("d"),
            go_to(1, 2),
            plain("yz"),
            go_to(1, 2),
            plain(""),
        ]
    );
    let mut builder = line.unsafe_builder_rev(&mut backend);
    assert!(!builder.push_styled("a long text", MockedStyle::bold(), &mut backend));
    let mut builder = line.unsafe_builder_rev(&mut backend);
    builder.push("ab", &mut backend);
    builder.pad(&mut backend);
    assert_eq!(
        backend.drain(),
        vec![
            go_to(1, 2),
            plain("<<padding: 6>>"),
            go_to(1, 2),
            (MockedStyle::bold(), "g text".to_owned()),
            go_to(1, 2),
            plain("<<padding: 6>>"),
            go_to(1, 6),
            plain("ab"),
            go_to(1, 2),
            plain("<<padding: 4>>"),
        ]
    );
}

#[test]
fn lines_render_left_and_filled() {
    let mut backend = MockedBackend::init();
    let line = Line { row: 0, col: 0, width: 5 };
    line.render_left("ab", &mut backend);
    line.render_left("abcdefg", &mut backend);
    line.render_left_styled("🦀🦀🦀", MockedStyle::bold(), &mut backend);
    line.fill('-', &mut backend);
    line.fill_styled('🦀', MockedStyle::bold(), &mut backend);
    line.render_empty(&mut backend);
    line.render("abcdefg", &mut backend);
    line.render("🦀🦀🦀", &mut backend);
    line.render_styled("ab", MockedStyle::ital(), &mut backend);
    assert_eq!(
        backend.drain(),
        vec![
            go_to(0, 0),
            plain("<<padding: 3>>"),
            plain("ab"),
            go_to(0, 0),
            plain("cdefg"),
            go_to(0, 0),
            plain("<<padding: 1>>"),
            (MockedStyle::bold(), "🦀🦀".to_owned()),
            go_to(0, 0),
            plain("-----"),
            go_to(0, 0),
            (MockedStyle::bold(), "🦀🦀🦀🦀🦀".to_owned()),
            go_to(0, 0),
            plain("<<padding: 5>>"),
            go_to(0, 0),
            plain("abcde"),
            go_to(0, 0),
            plain("🦀🦀"),
            plain("<<padding: 1>>"),
            (MockedStyle::ital(), "<<set style>>".to_owned()),
            go_to(0, 0),
            (MockedStyle::ital(), "ab".to_owned()),
            (MockedStyle::ital(), "<<padding: 3>>".to_owned()),
            plain("<<set style>>"),
        ]
    );
}

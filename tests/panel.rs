use yui::common::{Margin, Padding};
use yui::rect::{Position, Rect};
use yui::tui::container::{Container, TuiBorder};
use yui::tui::{Terminal, DEFAULT_HEIGHT, DEFAULT_WIDTH};

fn at(x: usize, y: usize, w: usize, h: usize) -> Rect {
    Rect::new(w, h).with_position(Position::new(x, y))
}

#[test]
fn margin_and_padding_constructors() {
    let m = Margin::sides(1, 2);
    assert_eq!((m.top, m.right, m.bottom, m.left), (0, 2, 0, 1));
    let m = Margin::vertical(3, 4);
    assert_eq!((m.top, m.right, m.bottom, m.left), (3, 0, 4, 0));
    assert_eq!(Margin::same(2), Margin { top: 2, right: 2, bottom: 2, left: 2 });
    assert_eq!(Margin::default(), Margin::same(0));
    assert_eq!(Margin::top(1).top, 1);
    assert_eq!(Margin::right(1).right, 1);
    assert_eq!(Margin::bottom(1).bottom, 1);
    assert_eq!(Margin::left(1).left, 1);
    let p = Padding::sides(5, 6);
    assert_eq!((p.top, p.right, p.bottom, p.left), (0, 6, 0, 5));
    let p = Padding::vertical(7, 8);
    assert_eq!((p.top, p.right, p.bottom, p.left), (7, 0, 8, 0));
    assert_eq!(Padding::default(), Padding::same(0));
    assert_eq!(Padding::left(2), Padding { top: 0, right: 0, bottom: 0, left: 2 });
}

#[test]
fn border_sizes() {
    assert_eq!(TuiBorder::NoBorder.size(), 0);
    assert_eq!(TuiBorder::SmoothCorner.size(), 1);
    assert_eq!(TuiBorder::default(), TuiBorder::NoBorder);
}

#[test]
fn bare_panel_shows_wrapped_content() {
    let mut panel = Container::new(at(2, 1, 10, 4));
    panel.set_content("hello world".to_string());
    // the text is wider than the panel, so it wraps after "hello"
    assert_eq!(panel.contents_of(3, 2), Some('o'));
    assert_eq!(panel.contents_of(4, 2), Some('r'));
    assert_eq!(panel.contents_of(7, 2), Some(' '));
    assert_eq!(panel.contents_of(3, 3), Some(' '));
}

#[test]
fn cells_on_or_past_the_edge_are_not_drawn() {
    let panel = Container::new(at(2, 1, 10, 4));
    assert_eq!(panel.contents_of(2, 2), None);
    assert_eq!(panel.contents_of(3, 1), None);
    assert_eq!(panel.contents_of(12, 2), None);
    assert_eq!(panel.contents_of(3, 5), None);
    assert_eq!(panel.contents_of(0, 0), None);
}

#[test]
fn scrolling_moves_the_content_up() {
    let mut panel = Container::new(at(0, 0, 8, 4)).with_scroll(1);
    panel.set_content("ab\ncd\nef".to_string());
    // row 1 of the panel shows line 2; column 0 sits on the boundary
    assert_eq!(panel.contents_of(1, 1), Some('f'));
    assert_eq!(panel.contents_of(2, 1), Some(' '));
    assert_eq!(panel.contents_of(1, 2), Some(' '));
}

#[test]
fn carriage_returns_before_newlines_are_not_shown() {
    let mut panel = Container::new(at(0, 0, 8, 4));
    panel.set_content("x\r\nab\r\ncd".to_string());
    assert_eq!(panel.contents_of(1, 1), Some('b'));
    assert_eq!(panel.contents_of(2, 1), Some(' '));
    assert_eq!(panel.contents_of(1, 2), Some('d'));
}

#[test]
fn smooth_border_corners_and_edges() {
    let panel = Container::new(at(0, 0, 6, 5)).with_border(TuiBorder::SmoothCorner);
    assert_eq!(panel.contents_of(1, 1), Some('╭'));
    assert_eq!(panel.contents_of(5, 1), Some('╮'));
    assert_eq!(panel.contents_of(1, 4), Some('╰'));
    assert_eq!(panel.contents_of(5, 4), Some('╯'));
    assert_eq!(panel.contents_of(3, 1), Some('─'));
    assert_eq!(panel.contents_of(3, 4), Some('─'));
    assert_eq!(panel.contents_of(1, 2), Some('│'));
    assert_eq!(panel.contents_of(5, 3), Some('│'));
    assert_eq!(panel.contents_of(3, 2), Some(' '));
}

#[test]
fn margin_and_padding_bands_are_blank() {
    let mut panel = Container::new(at(0, 0, 12, 10))
        .with_margin(Margin::same(1))
        .with_border(TuiBorder::SmoothCorner)
        .with_padding(Padding::same(1));
    panel.set_content("abcde fgh".to_string());
    assert_eq!(panel.contents_of(1, 5), Some(' '));
    assert_eq!(panel.contents_of(2, 2), Some('╭'));
    assert_eq!(panel.contents_of(10, 2), Some('╮'));
    assert_eq!(panel.contents_of(3, 5), Some(' '));
    // the content band is 12 - 2 - 2 - 2 = 6 wide, so "fgh" goes to line 1
    assert_eq!(panel.contents_of(5, 4), Some('h'));
    assert_eq!(panel.contents_of(5, 5), Some(' '));
}

#[test]
fn panel_draws_alone() {
    let panel = Container::new(at(1, 1, 6, 5)).with_border(TuiBorder::SmoothCorner);
    assert_eq!(
        panel.draw(),
        " \n       \n  ╭───╮\n  │   │\n  │   │\n  ╰───╯\n"
    );
}

#[test]
fn first_panel_wins_where_panels_overlap() {
    let mut front = Container::new(at(0, 0, 6, 4));
    front.set_content("xxxxx xxxxx".to_string());
    let mut back = Container::new(at(0, 0, 6, 4));
    back.set_content("yyyyy yyyyy".to_string());
    let mut terminal = Terminal::new(6, 4);
    terminal.containers = vec![front, back];
    assert_eq!(terminal.cell_at(1, 1), 'x');
    let frame = terminal.render();
    let rows: Vec<&str> = frame.lines().collect();
    assert_eq!(rows.len(), 4);
    assert_eq!(rows[1].chars().nth(1), Some('x'));
    assert_eq!(rows[0], "      ");
}

#[test]
fn later_panel_shows_where_the_first_draws_nothing() {
    let front = Container::new(at(0, 0, 3, 3));
    let mut back = Container::new(at(0, 0, 8, 4));
    back.set_content("abc\n0123456".to_string());
    let mut terminal = Terminal::new(8, 4);
    terminal.containers = vec![front, back];
    assert_eq!(terminal.cell_at(1, 1), ' ');
    assert_eq!(terminal.cell_at(4, 1), '4');
    assert_eq!(terminal.cell_at(7, 3), ' ');
}

#[test]
fn render_has_one_line_per_row() {
    let mut terminal = Terminal::new(DEFAULT_WIDTH, DEFAULT_HEIGHT);
    assert_eq!(terminal.containers.len(), 5);
    let frame = terminal.render();
    assert_eq!(frame.chars().count(), DEFAULT_HEIGHT * (DEFAULT_WIDTH + 1));
    terminal.update(10, 2);
    let frame = terminal.render();
    assert_eq!(frame.chars().count(), 2 * 11);
    assert!(frame.ends_with('\n'));
    assert_eq!(terminal.containers.len(), 5);
}

#[test]
fn sample_layout_borders() {
    let terminal = Terminal::new(30, 18);
    // the right third starts at x = 20 with a top margin of three rows
    assert_eq!(terminal.cell_at(21, 4), '╭');
    assert_eq!(terminal.cell_at(29, 4), '╮');
    // the first middle row starts at x = 10, y = 0, below a one-row margin
    assert_eq!(terminal.cell_at(11, 2), '╭');
    assert_eq!(terminal.cell_at(19, 2), '╮');
}

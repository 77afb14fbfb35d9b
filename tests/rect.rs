use yui::rect::{Position, Ratio, Rect};

#[test]
fn aspect_ratio() {
    let rect = Rect::new(640, 480);
    assert_eq!(rect.aspect_ratio(), Ratio { num: 4, den: 3 });
}

#[test]
fn cut_top() {
    let mut rect = Rect::new(640, 480);
    let top = rect.cut_top(10);
    let expected = Rect::new(640, 10).with_position(Position::new(0, 0));
    assert_eq!(top, expected);
    assert_eq!(rect.height, 470);
    assert_eq!(rect.position.y, 10);
    assert_eq!(rect.width, 640);
    assert_eq!(rect.position.x, 0);
}

#[test]
fn cut_bottom() {
    let mut rect = Rect::new(640, 480);
    let bottom = rect.cut_bottom(10);
    let expected = Rect::new(640, 10).with_position(Position::new(0, 470));
    assert_eq!(bottom, expected);
    assert_eq!(rect.height, 470);
    assert_eq!(rect.position.y, 0);
    assert_eq!(rect.width, 640);
    assert_eq!(rect.position.x, 0);
}

#[test]
fn cut_left() {
    let mut rect = Rect::new(640, 480);
    let left = rect.cut_left(10);
    let expected = Rect::new(10, 480).with_position(Position::new(0, 0));
    assert_eq!(left, expected);
    assert_eq!(rect.width, 630);
    assert_eq!(rect.position.x, 10);
    assert_eq!(rect.height, 480);
    assert_eq!(rect.position.y, 0);
}

#[test]
fn cut_right() {
    let mut rect = Rect::new(640, 480);
    let right = rect.cut_right(10);
    let expected = Rect::new(10, 480).with_position(Position::new(630, 0));
    assert_eq!(right, expected);
    assert_eq!(rect.width, 630);
    assert_eq!(rect.position.x, 0);
    assert_eq!(rect.height, 480);
    assert_eq!(rect.position.y, 0);
}

#[test]
fn divide_horizontally() {
    let rect = Rect::new(640, 480);
    let mut division = rect.divide_horizontally(2);
    let right_half = division.pop().unwrap();
    let left_half = division.pop().unwrap();
    let expected_left = Rect::new(320, 480).with_position(Position::new(0, 0));
    let expected_right = Rect::new(320, 480).with_position(Position::new(320, 0));
    assert_eq!(right_half, expected_right);
    assert_eq!(left_half, expected_left);
    assert!(division.is_empty());
}

#[test]
fn divide_vertically() {
    let rect = Rect::new(640, 480);
    let mut division = rect.divide_vertically(3);
    let bottom_third = division.pop().unwrap();
    let middle_third = division.pop().unwrap();
    let top_third = division.pop().unwrap();
    let expected_bottom = Rect::new(640, 160).with_position(Position::new(0, 320));
    let expected_middle = Rect::new(640, 160).with_position(Position::new(0, 160));
    let expected_top = Rect::new(640, 160).with_position(Position::new(0, 0));
    assert_eq!(bottom_third, expected_bottom);
    assert_eq!(middle_third, expected_middle);
    assert_eq!(top_third, expected_top);
    assert!(division.is_empty());
}

#[test]
fn aspect_ratio_of_flat_and_empty_rects() {
    assert_eq!(Rect::new(7, 0).aspect_ratio(), Ratio { num: 1, den: 0 });
    assert_eq!(Rect::new(0, 0).aspect_ratio(), Ratio { num: 0, den: 0 });
    assert_eq!(Rect::new(6, 9).aspect_ratio(), Ratio { num: 2, den: 3 });
}

#[test]
fn cut_pieces_tile_the_whole() {
    let whole = Rect::new(20, 12).with_position(Position::new(3, 4));
    let mut rest = whole;
    let top = rest.cut_top(5);
    assert_eq!(top.position, whole.position);
    assert_eq!(top.height + rest.height, whole.height);
    assert_eq!(rest.position.y, top.position.y + top.height);
    assert_eq!(rest.position.x, 3);
    assert_eq!(rest.width, 20);

    let mut rest = whole;
    let right = rest.cut_right(8);
    assert_eq!(right, Rect::new(8, 12).with_position(Position::new(15, 4)));
    assert_eq!(rest, Rect::new(12, 12).with_position(Position::new(3, 4)));
}

#[test]
fn cut_whole_and_nothing() {
    let mut rect = Rect::new(5, 5);
    let all = rect.cut_left(5);
    assert_eq!(all, Rect::new(5, 5));
    assert_eq!(rect, Rect::new(0, 5).with_position(Position::new(5, 0)));

    let mut rect = Rect::new(5, 5);
    let none = rect.cut_bottom(0);
    assert_eq!(none, Rect::new(5, 0).with_position(Position::new(0, 5)));
    assert_eq!(rect, Rect::new(5, 5));
}

#[test]
fn divide_into_one_part_is_the_whole() {
    let rect = Rect::new(9, 4).with_position(Position::new(1, 2));
    assert_eq!(rect.divide_horizontally(1), vec![rect]);
    assert_eq!(rect.divide_vertically(1), vec![rect]);
}

#[test]
fn divide_remainder_goes_to_the_last_part() {
    let rect = Rect::new(10, 4).with_position(Position::new(2, 1));
    let parts = rect.divide_horizontally(3);
    assert_eq!(
        parts,
        vec![
            Rect::new(3, 4).with_position(Position::new(2, 1)),
            Rect::new(3, 4).with_position(Position::new(5, 1)),
            Rect::new(4, 4).with_position(Position::new(8, 1)),
        ]
    );
    assert_eq!(parts.iter().map(|r| r.width).sum::<usize>(), 10);

    let parts = Rect::new(3, 11).divide_vertically(4);
    let heights: Vec<usize> = parts.iter().map(|r| r.height).collect();
    let tops: Vec<usize> = parts.iter().map(|r| r.position.y).collect();
    assert_eq!(heights, vec![2, 2, 2, 5]);
    assert_eq!(tops, vec![0, 2, 4, 6]);
}

#[test]
fn divide_narrower_than_parts() {
    let parts = Rect::new(2, 1).divide_horizontally(3);
    let widths: Vec<usize> = parts.iter().map(|r| r.width).collect();
    assert_eq!(widths, vec![0, 0, 2]);
    assert!(parts.iter().all(|r| r.position.x == 0));
}

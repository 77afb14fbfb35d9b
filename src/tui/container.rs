use vstd::prelude::*;

use crate::common::{Margin, Padding};
use crate::rect::Rect;
use crate::tui::push_char;

verus! {

/// How a panel's border is drawn.
#[derive(Clone, Copy, Debug, PartialEq, Eq, Structural)]
pub enum TuiBorder {
    /// No border: zero cells wide.
    NoBorder,
    /// One cell wide, drawn with rounded box-drawing corners.
    SmoothCorner,
}

impl TuiBorder {
    pub open spec fn spec_size(self) -> nat {
        match self {
            TuiBorder::NoBorder => 0,
            TuiBorder::SmoothCorner => 1,
        }
    }

    /// The width of the border band, in cells.
    pub fn size(&self) -> (r: usize)
        ensures
            r == self.spec_size(),
    {
        match self {
            TuiBorder::NoBorder => 0,
            TuiBorder::SmoothCorner => 1,
        }
    }
}

impl Default for TuiBorder {
    fn default() -> (r: TuiBorder)
        ensures
            r == TuiBorder::NoBorder,
    {
        TuiBorder::NoBorder
    }
}

/// Where a cell of the border band sits: one of four edges or four corners.
#[derive(Clone, Copy, Debug, PartialEq, Eq, Structural)]
pub enum Side {
    TopLeftCorner,
    Top,
    TopRightCorner,
    Right,
    BottomRightCorner,
    Bottom,
    BottomLeftCorner,
    Left,
}

/// Classifies the cell `(x, y)`, measured from the border band's origin, of a
/// band `width` by `height` cells, by comparing it against the diagonals that
/// run in from the four corners.
pub open spec fn side_of(x: int, y: int, width: int, height: int) -> Side {
    if x < width / 2 {
        if y < height / 2 {
            if x == y {
                Side::TopLeftCorner
            } else if x > y {
                Side::Top
            } else {
                Side::Left
            }
        } else {
            if height - x == y {
                Side::BottomLeftCorner
            } else if height - x > y {
                Side::Left
            } else {
                Side::Bottom
            }
        }
    } else {
        if y < height / 2 {
            if width - y == x {
                Side::TopRightCorner
            } else if width - y > x {
                Side::Top
            } else {
                Side::Right
            }
        } else {
            if height + x - width == y {
                Side::BottomRightCorner
            } else if height + x - width > y {
                Side::Right
            } else {
                Side::Bottom
            }
        }
    }
}

pub open spec fn border_glyph(border: TuiBorder, side: Side) -> char {
    match border {
        TuiBorder::NoBorder => ' ',
        TuiBorder::SmoothCorner => match side {
            Side::TopLeftCorner => '╭',
            Side::Top | Side::Bottom => '─',
            Side::TopRightCorner => '╮',
            Side::Right | Side::Left => '│',
            Side::BottomRightCorner => '╯',
            Side::BottomLeftCorner => '╰',
        },
    }
}

/// The text split at every `'\n'`: one piece more than there are newlines.
pub open spec fn pieces(s: Seq<char>) -> Seq<Seq<char>>
    decreases s.len(),
{
    if s.len() == 0 {
        seq![Seq::empty()]
    } else {
        let p = pieces(s.drop_last());
        if s.last() == '\n' {
            p.push(Seq::empty())
        } else {
            p.update(p.len() - 1, p.last().push(s.last()))
        }
    }
}

pub open spec fn strip_cr(line: Seq<char>) -> Seq<char> {
    if line.len() > 0 && line.last() == '\r' {
        line.drop_last()
    } else {
        line
    }
}

/// The lines of a text: its pieces, without an empty last one, and with the
/// `'\r'` of each `"\r\n"` ending removed.
pub open spec fn lines(s: Seq<char>) -> Seq<Seq<char>> {
    let p = pieces(s);
    let n = if p.last().len() == 0 { p.len() - 1 } else { p.len() as int };
    Seq::new(n as nat, |i: int| if i < p.len() - 1 { strip_cr(p[i]) } else { p[i] })
}

/// The character at `col` of line `row` of `s`, or a blank past its end.
pub open spec fn content_glyph(s: Seq<char>, row: int, col: int) -> char {
    let ls = lines(s);
    if 0 <= row < ls.len() && 0 <= col < ls[row].len() {
        ls[row][col]
    } else {
        ' '
    }
}

proof fn lemma_pieces_len(s: Seq<char>)
    ensures
        pieces(s).len() >= 1,
    decreases s.len(),
{
    if s.len() > 0 {
        lemma_pieces_len(s.drop_last());
    }
}

proof fn lemma_pieces_step(s: Seq<char>, i: int)
    requires
        0 <= i < s.len(),
    ensures
        pieces(s.take(i + 1)) == if s[i] == '\n' {
            pieces(s.take(i)).push(Seq::empty())
        } else {
            pieces(s.take(i)).update(
                pieces(s.take(i)).len() - 1,
                pieces(s.take(i)).last().push(s[i]),
            )
        },
{
    assert(s.take(i + 1).drop_last() =~= s.take(i));
}

/// The pieces of a prefix agree with those of the whole text: the finished
/// ones are equal and the last one is a prefix of its counterpart.
proof fn lemma_pieces_prefix(s: Seq<char>, j: int)
    requires
        0 <= j <= s.len(),
    ensures
        pieces(s).len() >= pieces(s.take(j)).len(),
        forall|r: int|
            0 <= r < pieces(s.take(j)).len() - 1 ==> #[trigger] pieces(s)[r] == pieces(s.take(j))[r],
        pieces(s)[pieces(s.take(j)).len() - 1].len() >= pieces(s.take(j)).last().len(),
        forall|k: int|
            0 <= k < pieces(s.take(j)).last().len() ==> #[trigger] pieces(s)[pieces(s.take(j)).len()
                - 1][k] == pieces(s.take(j)).last()[k],
    decreases s.len() - j,
{
    lemma_pieces_len(s.take(j));
    if j == s.len() {
        assert(s.take(j) =~= s);
    } else {
        lemma_pieces_prefix(s, j + 1);
        lemma_pieces_step(s, j);
        lemma_pieces_len(s.take(j + 1));
    }
}

/// The character at `col` of line `row` of `content`, or a blank past the
/// end of either.
fn line_char(content: &Vec<char>, row: i128, col: i128) -> (r: char)
    requires
        row >= 0,
        col >= 0,
    ensures
        r == content_glyph(content@, row as int, col as int),
{
    let ghost s = content@;
    let len = content.len();
    let mut i: usize = 0;
    let mut cur_row: usize = 0;
    let mut cur_col: usize = 0;
    proof {
        assert(s.take(0) =~= Seq::<char>::empty());
        lemma_pieces_len(s);
    }
    while i < len
        invariant
            len == s.len(),
            s == content@,
            row >= 0,
            col >= 0,
            i <= len,
            cur_row <= i,
            cur_col <= i,
            pieces(s.take(i as int)).len() == cur_row + 1,
            pieces(s.take(i as int)).last().len() == cur_col,
            cur_row < row || (cur_row == row && cur_col <= col),
        decreases len - i,
    {
        let c = content[i];
        proof {
            lemma_pieces_step(s, i as int);
            lemma_pieces_prefix(s, i as int + 1);
            lemma_pieces_len(s.take(i as int));
        }
        if c == '\n' {
            if cur_row as i128 == row {
                return ' ';
            }
            cur_row = cur_row + 1;
            cur_col = 0;
        } else {
            if cur_row as i128 == row && cur_col as i128 == col {
                if c == '\r' && i + 1 < len && content[i + 1] == '\n' {
                    proof {
                        lemma_pieces_step(s, i as int + 1);
                        lemma_pieces_prefix(s, i as int + 2);
                        lemma_pieces_len(s.take(i as int + 1));
                    }
                    return ' ';
                }
                proof {
                    if i + 1 == len {
                        assert(s.take(i as int + 1) =~= s);
                    } else {
                        lemma_pieces_step(s, i as int + 1);
                        lemma_pieces_prefix(s, i as int + 2);
                        lemma_pieces_len(s.take(i as int + 1));
                    }
                }
                return c;
            }
            cur_col = cur_col + 1;
        }
        i = i + 1;
    }
    proof {
        assert(s.take(len as int) =~= s);
    }
    ' '
}

/// What a panel is: its place and box model, and its wrapped content.
pub ghost struct PanelView {
    pub domain: Rect,
    pub margin: Margin,
    pub padding: Padding,
    pub border: TuiBorder,
    pub content: Seq<char>,
    pub lines_scrolled: nat,
}

/// `(x, y)` is not strictly inside the box with these edges.
pub open spec fn outside_box(x: int, y: int, left: int, top: int, right: int, bottom: int) -> bool {
    x <= left || x >= right || y <= top || y >= bottom
}

/// The width of the content band: the domain less margin, border and
/// padding on both sides, and zero where those take more than it has.
pub open spec fn content_width(p: PanelView) -> nat {
    let w = p.domain.width - (p.margin.left + p.margin.right + 2 * p.border.spec_size()
        + p.padding.left + p.padding.right);
    if w < 0 { 0 } else { w as nat }
}

/// What panel `p` shows at the absolute cell `(x, y)`: nothing outside its
/// domain, then a blank in the margin band, a border glyph in the border
/// band, a blank in the padding band, and a character of the content.
pub open spec fn glyph_at(p: PanelView, x: int, y: int) -> Option<char> {
    let l0 = p.domain.position.x as int;
    let t0 = p.domain.position.y as int;
    let r0 = l0 + p.domain.width;
    let b0 = t0 + p.domain.height;
    let l1 = l0 + p.margin.left;
    let t1 = t0 + p.margin.top;
    let r1 = r0 - p.margin.right;
    let b1 = b0 - p.margin.bottom;
    let bs = p.border.spec_size() as int;
    let l2 = l1 + bs;
    let t2 = t1 + bs;
    let r2 = r1 - bs;
    let b2 = b1 - bs;
    let l3 = l2 + p.padding.left;
    let t3 = t2 + p.padding.top;
    let r3 = r2 - p.padding.right;
    let b3 = b2 - p.padding.bottom;
    if outside_box(x, y, l0, t0, r0, b0) {
        None
    } else if outside_box(x, y, l1, t1, r1, b1) {
        Some(' ')
    } else if outside_box(x, y, l2, t2, r2, b2) {
        Some(border_glyph(p.border, side_of(x - l1, y - t1, r1 - l1, b1 - t1)))
    } else if outside_box(x, y, l3, t3, r3, b3) {
        Some(' ')
    } else {
        Some(content_glyph(p.content, y - t3 + p.lines_scrolled, x - l3))
    }
}

/// With no margin, border or padding, a panel shows nothing outside its
/// domain and, at every cell strictly inside it, the content character at
/// the matching row and column (a blank past the content's end).
pub proof fn lemma_bare_panel_shows_content(p: PanelView, x: int, y: int)
    requires
        p.margin == Margin::spec_new(0, 0, 0, 0),
        p.padding == Padding::spec_new(0, 0, 0, 0),
        p.border == TuiBorder::NoBorder,
    ensures
        ({
            let l = p.domain.position.x as int;
            let t = p.domain.position.y as int;
            if outside_box(x, y, l, t, l + p.domain.width, t + p.domain.height) {
                glyph_at(p, x, y) == None::<char>
            } else {
                glyph_at(p, x, y) == Some(content_glyph(p.content, y - t + p.lines_scrolled, x - l))
            }
        }),
{
}

/// With a rounded border and no margin, a panel at least four cells wide
/// and high draws the four rounded corners at the corners of its border
/// band, horizontal lines between them along the top and bottom, and
/// vertical lines along the left and right.
pub proof fn lemma_smooth_border_glyphs(p: PanelView)
    requires
        p.margin == Margin::spec_new(0, 0, 0, 0),
        p.border == TuiBorder::SmoothCorner,
        p.domain.width >= 4,
        p.domain.height >= 4,
    ensures
        ({
            let l = p.domain.position.x as int;
            let t = p.domain.position.y as int;
            let r = l + p.domain.width;
            let b = t + p.domain.height;
            &&& glyph_at(p, l + 1, t + 1) == Some('╭')
            &&& glyph_at(p, r - 1, t + 1) == Some('╮')
            &&& glyph_at(p, l + 1, b - 1) == Some('╰')
            &&& glyph_at(p, r - 1, b - 1) == Some('╯')
            &&& forall|x: int|
                l + 1 < x < r - 1 ==> #[trigger] glyph_at(p, x, t + 1) == Some('─') && glyph_at(
                    p,
                    x,
                    b - 1,
                ) == Some('─')
            &&& forall|y: int|
                t + 1 < y < b - 1 ==> #[trigger] glyph_at(p, l + 1, y) == Some('│') && glyph_at(
                    p,
                    r - 1,
                    y,
                ) == Some('│')
        }),
{
    let w = p.domain.width as int;
    let h = p.domain.height as int;
    assert(1 < w / 2 <= w - 1 && 1 < h / 2 <= h - 1) by {
        vstd::arithmetic::div_mod::lemma_fundamental_div_mod(w, 2);
        vstd::arithmetic::div_mod::lemma_fundamental_div_mod(h, 2);
    }
}

/// What the picture of a lone panel shows at `(x, y)`: a blank left of the
/// domain and wherever the panel draws nothing.
pub open spec fn picture_cell(p: PanelView, x: int, y: int) -> char {
    if x < p.domain.position.x {
        ' '
    } else {
        match glyph_at(p, x, y) {
            Some(c) => c,
            None => ' ',
        }
    }
}

/// The first `n` cells of row `y` of a lone panel's picture.
pub open spec fn picture_line(p: PanelView, y: int, n: nat) -> Seq<char>
    decreases n,
{
    if n == 0 {
        Seq::empty()
    } else {
        picture_line(p, y, (n - 1) as nat).push(picture_cell(p, n - 1, y))
    }
}

/// The first `k` rows of a lone panel's picture: a single blank for each
/// row above the domain, then the cells from the left edge of the display
/// to the right edge of the domain, each row ended by a line break.
pub open spec fn picture_rows(p: PanelView, k: nat) -> Seq<char>
    decreases k,
{
    if k == 0 {
        Seq::empty()
    } else {
        let y = k - 1;
        let line = if y < p.domain.position.y {
            seq![' ']
        } else {
            picture_line(p, y, (p.domain.position.x + p.domain.width) as nat)
        };
        picture_rows(p, (k - 1) as nat) + line.push('\n')
    }
}

/// The picture of a lone panel, from the top of the display to the bottom
/// of its domain.
pub open spec fn picture(p: PanelView) -> Seq<char> {
    picture_rows(p, (p.domain.position.y + p.domain.height) as nat)
}

pub uninterp spec fn filled(text: Seq<char>, width: nat) -> Seq<char>;

/// Relies on textwrap::fill_inplace: it wraps greedily to `width` columns
/// by turning some spaces into newlines, so the text keeps its length and
/// every other character.
#[verifier::external_body]
fn fill(text: String, width: usize) -> (r: Vec<char>)
    ensures
        r@ == filled(text@, width as nat),
        r@.len() == text@.len(),
        forall|i: int|
            0 <= i < r@.len() ==> r@[i] == text@[i] || (text@[i] == ' ' && r@[i] == '\n'),
{
    let mut text = text;
    textwrap::fill_inplace(&mut text, width);
    text.chars().collect()
}

/// A panel: a domain rectangle with margin, border, padding and content
/// that is wrapped to the width left inside them.
#[derive(Clone, Debug)]
pub struct Container {
    domain: Rect,
    margin: Margin,
    padding: Padding,
    border: TuiBorder,
    content: Vec<char>,
    lines_scrolled: usize,
}

impl View for Container {
    type V = PanelView;

    closed spec fn view(&self) -> PanelView {
        PanelView {
            domain: self.domain,
            margin: self.margin,
            padding: self.padding,
            border: self.border,
            content: self.content@,
            lines_scrolled: self.lines_scrolled as nat,
        }
    }
}

/// Classifies a border cell as `side_of` does.
fn what_side_is(x: i128, y: i128, width: i128, height: i128) -> (r: Side)
    requires
        0 <= x <= usize::MAX,
        0 <= y <= usize::MAX,
        0 <= width <= usize::MAX,
        0 <= height <= usize::MAX,
    ensures
        r == side_of(x as int, y as int, width as int, height as int),
{
    let middle_x = width / 2;
    let middle_y = height / 2;
    if x < middle_x {
        if y < middle_y {
            if x == y {
                Side::TopLeftCorner
            } else if x > y {
                Side::Top
            } else {
                Side::Left
            }
        } else {
            if height - x == y {
                Side::BottomLeftCorner
            } else if height - x > y {
                Side::Left
            } else {
                Side::Bottom
            }
        }
    } else {
        if y < middle_y {
            if width - y == x {
                Side::TopRightCorner
            } else if width - y > x {
                Side::Top
            } else {
                Side::Right
            }
        } else {
            if height + x - width == y {
                Side::BottomRightCorner
            } else if height + x - width > y {
                Side::Right
            } else {
                Side::Bottom
            }
        }
    }
}

fn outside(x: i128, y: i128, left: i128, top: i128, right: i128, bottom: i128) -> (r: bool)
    ensures
        r == outside_box(x as int, y as int, left as int, top as int, right as int, bottom as int),
{
    x <= left || x >= right || y <= top || y >= bottom
}

impl Container {
    pub fn new(rect: Rect) -> (r: Container)
        ensures
            r@ == (PanelView {
                domain: rect,
                margin: Margin::spec_new(0, 0, 0, 0),
                padding: Padding::spec_new(0, 0, 0, 0),
                border: TuiBorder::NoBorder,
                content: Seq::empty(),
                lines_scrolled: 0,
            }),
    {
        Container {
            domain: rect,
            margin: Margin::default(),
            padding: Padding::default(),
            border: TuiBorder::default(),
            content: Vec::new(),
            lines_scrolled: 0,
        }
    }

    pub fn with_margin(self, margin: Margin) -> (r: Container)
        ensures
            r@ == (PanelView { margin, ..self@ }),
    {
        Container { margin, ..self }
    }

    pub fn with_padding(self, padding: Padding) -> (r: Container)
        ensures
            r@ == (PanelView { padding, ..self@ }),
    {
        Container { padding, ..self }
    }

    pub fn with_border(self, border: TuiBorder) -> (r: Container)
        ensures
            r@ == (PanelView { border, ..self@ }),
    {
        Container { border, ..self }
    }

    /// Scrolls the content so that line `lines` shows first.
    pub fn with_scroll(self, lines: usize) -> (r: Container)
        ensures
            r@ == (PanelView { lines_scrolled: lines as nat, ..self@ }),
    {
        Container { lines_scrolled: lines, ..self }
    }

    /// What the panel shows at the absolute cell `(x, y)`: `None` outside
    /// its domain, else the glyph of the band that the cell falls in.
    pub fn contents_of(&self, x: usize, y: usize) -> (r: Option<char>)
        ensures
            r == glyph_at(self@, x as int, y as int),
    {
        let x = x as i128;
        let y = y as i128;
        let l0 = self.domain.position.x as i128;
        let t0 = self.domain.position.y as i128;
        let r0 = l0 + self.domain.width as i128;
        let b0 = t0 + self.domain.height as i128;
        if outside(x, y, l0, t0, r0, b0) {
            return None;
        }
        let l1 = l0 + self.margin.left as i128;
        let t1 = t0 + self.margin.top as i128;
        let r1 = r0 - self.margin.right as i128;
        let b1 = b0 - self.margin.bottom as i128;
        if outside(x, y, l1, t1, r1, b1) {
            return Some(' ');
        }
        let bs = self.border.size() as i128;
        let l2 = l1 + bs;
        let t2 = t1 + bs;
        let r2 = r1 - bs;
        let b2 = b1 - bs;
        if outside(x, y, l2, t2, r2, b2) {
            let side = what_side_is(x - l1, y - t1, r1 - l1, b1 - t1);
            let glyph = match self.border {
                TuiBorder::NoBorder => ' ',
                TuiBorder::SmoothCorner => match side {
                    Side::TopLeftCorner => '╭',
                    Side::Top | Side::Bottom => '─',
                    Side::TopRightCorner => '╮',
                    Side::Right | Side::Left => '│',
                    Side::BottomRightCorner => '╯',
                    Side::BottomLeftCorner => '╰',
                },
            };
            return Some(glyph);
        }
        let l3 = l2 + self.padding.left as i128;
        let t3 = t2 + self.padding.top as i128;
        let r3 = r2 - self.padding.right as i128;
        let b3 = b2 - self.padding.bottom as i128;
        if outside(x, y, l3, t3, r3, b3) {
            return Some(' ');
        }
        Some(line_char(&self.content, y - t3 + self.lines_scrolled as i128, x - l3))
    }

    /// The panel drawn alone, as `picture` describes.
    pub fn draw(&self) -> (r: String)
        requires
            self@.domain.wf(),
        ensures
            r@ == picture(self@),
    {
        let ghost p = self@;
        let x0 = self.domain.position.x;
        let y0 = self.domain.position.y;
        let right = x0 + self.domain.width;
        let bottom = y0 + self.domain.height;
        let mut buffer = String::new();
        let mut y: usize = 0;
        while y < bottom
            invariant
                p == self@,
                x0 == p.domain.position.x,
                y0 == p.domain.position.y,
                right == p.domain.position.x + p.domain.width,
                bottom == p.domain.position.y + p.domain.height,
                y <= bottom,
                buffer@ == picture_rows(p, y as nat),
            decreases bottom - y,
        {
            let ghost before = buffer@;
            if y < y0 {
                push_char(&mut buffer, ' ');
            } else {
                let mut x: usize = 0;
                while x < right
                    invariant
                        p == self@,
                        x0 == p.domain.position.x,
                        right == p.domain.position.x + p.domain.width,
                        x <= right,
                        buffer@ == before + picture_line(p, y as int, x as nat),
                    decreases right - x,
                {
                    let c = if x < x0 {
                        ' '
                    } else {
                        match self.contents_of(x, y) {
                            Some(c) => c,
                            None => ' ',
                        }
                    };
                    push_char(&mut buffer, c);
                    proof {
                        let t = picture_line(p, y as int, x as nat);
                        assert(before + t.push(c) =~= (before + t).push(c));
                    }
                    x = x + 1;
                }
            }
            push_char(&mut buffer, '\n');
            proof {
                let line = if y < y0 {
                    seq![' ']
                } else {
                    picture_line(p, y as int, right as nat)
                };
                assert(before + line.push('\n') =~= (before + line).push('\n'));
            }
            y = y + 1;
        }
        buffer
    }

    /// Wraps `content` to the width of the content band and keeps it.
    pub fn set_content(&mut self, content: String)
        ensures
            final(self)@ == (PanelView {
                content: filled(content@, content_width(old(self)@)),
                ..old(self)@
            }),
            final(self)@.content.len() == content@.len(),
            forall|i: int|
                0 <= i < content@.len() ==> final(self)@.content[i] == content@[i] || (content@[i]
                    == ' ' && final(self)@.content[i] == '\n'),
    {
        let insets = self.margin.left as i128 + self.margin.right as i128 + 2 * (self.border.size() as i128)
            + self.padding.left as i128 + self.padding.right as i128;
        let room = self.domain.width as i128 - insets;
        let width: usize = if room < 0 { 0 } else { room as usize };
        self.content = fill(content, width);
    }
}

} // verus!

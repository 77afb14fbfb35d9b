pub mod container;

use vstd::prelude::*;
use vstd::string::*;

use crate::common::{Margin, Padding};
use crate::rect::{rect_at, row, Rect};
use crate::tui::container::{content_width, filled, glyph_at, Container, PanelView, TuiBorder};

verus! {

/// The size assumed when the display cannot say how large it is.
pub const DEFAULT_WIDTH: usize = 80;

pub const DEFAULT_HEIGHT: usize = 5;

/// What the compositor shows at `(x, y)`: the glyph of the first panel in
/// `ps` that draws there, or a blank where none does.
pub open spec fn cell(ps: Seq<PanelView>, x: int, y: int) -> char
    decreases ps.len(),
{
    if ps.len() == 0 {
        ' '
    } else {
        match glyph_at(ps[0], x, y) {
            Some(c) => c,
            None => cell(ps.drop_first(), x, y),
        }
    }
}

/// The first `n` cells of row `y`.
pub open spec fn row_text(ps: Seq<PanelView>, y: int, n: nat) -> Seq<char>
    decreases n,
{
    if n == 0 {
        Seq::empty()
    } else {
        row_text(ps, y, (n - 1) as nat).push(cell(ps, n - 1, y))
    }
}

/// The first `rows` rows of a frame `width` cells wide, each ended by a
/// line break.
pub open spec fn frame(ps: Seq<PanelView>, width: nat, rows: nat) -> Seq<char>
    decreases rows,
{
    if rows == 0 {
        Seq::empty()
    } else {
        frame(ps, width, (rows - 1) as nat) + row_text(ps, rows - 1, width).push('\n')
    }
}

proof fn lemma_row_text(ps: Seq<PanelView>, y: int, n: nat)
    ensures
        row_text(ps, y, n).len() == n,
        forall|x: int| 0 <= x < n ==> #[trigger] row_text(ps, y, n)[x] == cell(ps, x, y),
    decreases n,
{
    if n > 0 {
        lemma_row_text(ps, y, (n - 1) as nat);
    }
}

proof fn lemma_frame_len(ps: Seq<PanelView>, width: nat, rows: nat)
    ensures
        frame(ps, width, rows).len() == rows * (width + 1),
    decreases rows,
{
    if rows > 0 {
        lemma_frame_len(ps, width, (rows - 1) as nat);
        let prev = (rows - 1) as nat;
        lemma_row_text(ps, prev as int, width);
        assert(frame(ps, width, rows) == frame(ps, width, prev) + row_text(ps, prev as int, width).push('\n'));
        assert(rows * (width + 1) == prev * (width + 1) + (width + 1)) by (nonlinear_arith)
            requires
                prev == rows - 1,
        ;
    } else {
        assert(rows * (width + 1) == 0) by (nonlinear_arith)
            requires
                rows == 0,
        ;
    }
}

/// Row `y` of a frame starts at `y * (width + 1)`: each row holds `width`
/// cells and a line break.
pub proof fn lemma_frame_index(ps: Seq<PanelView>, width: nat, rows: nat, x: int, y: int)
    requires
        0 <= x < width,
        0 <= y < rows,
    ensures
        frame(ps, width, rows).len() == rows * (width + 1),
        frame(ps, width, rows)[y * (width + 1) + x] == cell(ps, x, y),
        frame(ps, width, rows)[y * (width + 1) + width] == '\n',
    decreases rows,
{
    let prev = (rows - 1) as nat;
    lemma_row_text(ps, prev as int, width);
    lemma_frame_len(ps, width, rows);
    lemma_frame_len(ps, width, prev);
    if y < prev {
        lemma_frame_index(ps, width, prev, x, y);
        assert(y * (width + 1) + width < prev * (width + 1)) by (nonlinear_arith)
            requires
                y < prev,
                0 <= y,
        ;
    } else {
        assert(y == prev);
    }
}

/// Where the first panel draws, the rendered frame shows exactly its glyph,
/// whatever the panels after it hold.
pub proof fn lemma_first_panel_wins(t: TerminalView, x: int, y: int)
    requires
        t.panels.len() >= 1,
        0 <= x < t.width,
        0 <= y < t.height,
        glyph_at(t.panels[0], x, y) is Some,
    ensures
        frame(t.panels, t.width, t.height)[y * (t.width + 1) + x] == glyph_at(t.panels[0], x, y)->0,
{
    lemma_frame_index(t.panels, t.width, t.height, x, y);
}

/// How many sentences the sample text that fills each panel holds.
pub const SAMPLE_SENTENCES: usize = 50;

/// The sentences that the sample text cycles through.
pub open spec fn sentence(i: nat) -> Seq<char> {
    let k = i % 7;
    if k == 0 {
        "A sentence number 1."@
    } else if k == 1 {
        "Another example sentence."@
    } else if k == 2 {
        "Cat."@
    } else if k == 3 {
        "A sentence number 2."@
    } else if k == 4 {
        "Molto a qui pensare."@
    } else if k == 5 {
        "Parrot."@
    } else {
        "Some more content."@
    }
}

/// The first `n` sentences, one after another with nothing between them.
pub open spec fn sample_text(n: nat) -> Seq<char>
    decreases n,
{
    if n == 0 {
        Seq::empty()
    } else {
        sample_text((n - 1) as nat) + sentence((n - 1) as nat)
    }
}

/// A panel of the sample layout: the given box model, no scrolling, and
/// the sample text wrapped to its content width.
pub open spec fn sample_panel(domain: Rect, margin: Margin, padding: Padding, border: TuiBorder) -> PanelView {
    let bare = PanelView {
        domain,
        margin,
        padding,
        border,
        content: Seq::empty(),
        lines_scrolled: 0,
    };
    PanelView { content: filled(sample_text(SAMPLE_SENTENCES as nat), content_width(bare)), ..bare }
}

fn sentence_str(i: usize) -> (r: &'static str)
    ensures
        r@ == sentence(i as nat),
{
    let k = i % 7;
    if k == 0 {
        "A sentence number 1."
    } else if k == 1 {
        "Another example sentence."
    } else if k == 2 {
        "Cat."
    } else if k == 3 {
        "A sentence number 2."
    } else if k == 4 {
        "Molto a qui pensare."
    } else if k == 5 {
        "Parrot."
    } else {
        "Some more content."
    }
}

fn sample_string() -> (r: String)
    ensures
        r@ == sample_text(SAMPLE_SENTENCES as nat),
{
    let mut text = String::new();
    let mut i: usize = 0;
    while i < SAMPLE_SENTENCES
        invariant
            i <= SAMPLE_SENTENCES,
            text@ == sample_text(i as nat),
        decreases SAMPLE_SENTENCES - i,
    {
        text.append(sentence_str(i));
        i = i + 1;
    }
    text
}

fn sample_panel_of(domain: Rect, margin: Margin, padding: Padding, border: TuiBorder) -> (r: Container)
    ensures
        r@ == sample_panel(domain, margin, padding, border),
{
    let mut panel = Container::new(domain).with_margin(margin).with_padding(padding).with_border(border);
    panel.set_content(sample_string());
    panel
}


/// What a compositor is: the display size and its panels, topmost first.
pub ghost struct TerminalView {
    pub width: nat,
    pub height: nat,
    pub panels: Seq<PanelView>,
}

/// Relies on String::push: appends one character.
#[verifier::external_body]
pub(crate) fn push_char(s: &mut String, c: char)
    ensures
        final(s)@ == old(s)@.push(c),
{
    s.push(c);
}

/// An ordered stack of panels drawn onto a display of a given size.
#[derive(Debug)]
pub struct Terminal {
    width: usize,
    height: usize,
    pub containers: Vec<Container>,
}

pub open spec fn panels_of(cs: Seq<Container>) -> Seq<PanelView> {
    cs.map_values(|c: Container| c@)
}

impl View for Terminal {
    type V = TerminalView;

    closed spec fn view(&self) -> TerminalView {
        TerminalView {
            width: self.width as nat,
            height: self.height as nat,
            panels: panels_of(self.containers@),
        }
    }
}

impl Terminal {
    /// The sample layout on a `width` by `height` display: a bordered panel
    /// on the right third, a plain one on the left third, and three bordered
    /// rows stacked in the middle, each filled with the sample text.
    pub fn new(width: usize, height: usize) -> (r: Terminal)
        ensures
            r@.width == width,
            r@.height == height,
            r@.panels == seq![
                sample_panel(
                    rect_at(width - width / 3, 0, (width / 3) as int, height as int),
                    Margin::spec_new(3, 0, 0, 0),
                    Padding::spec_new(2, 2, 2, 2),
                    TuiBorder::SmoothCorner,
                ),
                sample_panel(
                    rect_at(0, 0, (width / 3) as int, height as int),
                    Margin::spec_new(1, 1, 1, 1),
                    Padding::spec_new(2, 2, 2, 2),
                    TuiBorder::NoBorder,
                ),
                sample_panel(
                    row(rect_at((width / 3) as int, 0, width - 2 * (width / 3), height as int), 3, 0),
                    Margin::spec_new(1, 0, 0, 0),
                    Padding::spec_new(0, 0, 0, 0),
                    TuiBorder::SmoothCorner,
                ),
                sample_panel(
                    row(rect_at((width / 3) as int, 0, width - 2 * (width / 3), height as int), 3, 1),
                    Margin::spec_new(1, 0, 0, 0),
                    Padding::spec_new(0, 0, 0, 0),
                    TuiBorder::SmoothCorner,
                ),
                sample_panel(
                    row(rect_at((width / 3) as int, 0, width - 2 * (width / 3), height as int), 3, 2),
                    Margin::spec_new(1, 0, 0, 0),
                    Padding::spec_new(0, 0, 0, 0),
                    TuiBorder::SmoothCorner,
                ),
            ],
    {
        let mut rect = Rect::new(width, height);
        let third = width / 3;
        let right = rect.cut_right(third);
        let left = rect.cut_left(third);
        let rows = rect.divide_vertically(3);
        let mut containers: Vec<Container> = Vec::new();
        containers.push(
            sample_panel_of(right, Margin::top(3), Padding::same(2), TuiBorder::SmoothCorner),
        );
        containers.push(sample_panel_of(left, Margin::same(1), Padding::same(2), TuiBorder::NoBorder));
        let mut i: usize = 0;
        while i < 3
            invariant
                i <= 3,
                rows@.len() == 3,
                containers@.len() == 2 + i,
                panels_of(containers@) =~= seq![
                    sample_panel(
                        rect_at(width - width / 3, 0, (width / 3) as int, height as int),
                        Margin::spec_new(3, 0, 0, 0),
                        Padding::spec_new(2, 2, 2, 2),
                        TuiBorder::SmoothCorner,
                    ),
                    sample_panel(
                        rect_at(0, 0, (width / 3) as int, height as int),
                        Margin::spec_new(1, 1, 1, 1),
                        Padding::spec_new(2, 2, 2, 2),
                        TuiBorder::NoBorder,
                    ),
                ] + Seq::new(
                    i as nat,
                    |j: int|
                        sample_panel(
                            rows@[j],
                            Margin::spec_new(1, 0, 0, 0),
                            Padding::spec_new(0, 0, 0, 0),
                            TuiBorder::SmoothCorner,
                        ),
                ),
            decreases 3 - i,
        {
            let panel = sample_panel_of(rows[i], Margin::top(1), Padding::default(), TuiBorder::SmoothCorner);
            let ghost before = containers@;
            containers.push(panel);
            proof {
                assert(panels_of(containers@) =~= panels_of(before).push(panel@));
            }
            i = i + 1;
        }
        Terminal { width, height, containers }
    }

    /// What the panels show at `(x, y)`, the first one that draws there
    /// taking precedence.
    pub fn cell_at(&self, x: usize, y: usize) -> (r: char)
        ensures
            r == cell(self@.panels, x as int, y as int),
    {
        let ghost ps = panels_of(self.containers@);
        let n = self.containers.len();
        let mut k: usize = 0;
        proof {
            assert(ps.subrange(0, n as int) =~= ps);
        }
        while k < n
            invariant
                n == self.containers.len(),
                ps == panels_of(self.containers@),
                k <= n,
                cell(ps, x as int, y as int) == cell(ps.subrange(k as int, n as int), x as int, y as int),
            decreases n - k,
        {
            let found = self.containers[k].contents_of(x, y);
            proof {
                assert(ps.subrange(k as int, n as int).drop_first() =~= ps.subrange(k as int + 1, n as int));
                assert(ps.subrange(k as int, n as int)[0] == self.containers@[k as int]@);
            }
            match found {
                Some(c) => {
                    return c;
                },
                None => {},
            }
            k = k + 1;
        }
        ' '
    }

    /// The whole frame: `height` rows of `width` cells, each row ended by a
    /// line break.
    pub fn render(&self) -> (r: String)
        ensures
            r@ == frame(self@.panels, self@.width, self@.height),
    {
        let mut buffer = String::new();
        let mut y: usize = 0;
        while y < self.height
            invariant
                y <= self.height,
                buffer@ == frame(self@.panels, self@.width, y as nat),
            decreases self.height - y,
        {
            let mut x: usize = 0;
            while x < self.width
                invariant
                    y < self.height,
                    x <= self.width,
                    buffer@ == frame(self@.panels, self@.width, y as nat) + row_text(self@.panels, y as int, x as nat),
                decreases self.width - x,
            {
                let c = self.cell_at(x, y);
                push_char(&mut buffer, c);
                proof {
                    let f = frame(self@.panels, self@.width, y as nat);
                    let t = row_text(self@.panels, y as int, x as nat);
                    assert(f + t.push(c) =~= (f + t).push(c));
                }
                x = x + 1;
            }
            push_char(&mut buffer, '\n');
            proof {
                let f = frame(self@.panels, self@.width, y as nat);
                let t = row_text(self@.panels, y as int, self.width as nat);
                assert(f + t.push('\n') =~= (f + t).push('\n'));
            }
            y = y + 1;
        }
        buffer
    }

    /// Takes a new display size; the panels keep their layout.
    pub fn update(&mut self, width: usize, height: usize)
        ensures
            final(self)@ == (TerminalView { width: width as nat, height: height as nat, ..old(self)@ }),
    {
        self.width = width;
        self.height = height;
    }
}

} // verus!

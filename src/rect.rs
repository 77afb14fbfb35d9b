use vstd::prelude::*;

verus! {

/// A cell coordinate on the character grid.
#[derive(Clone, Copy, Debug, PartialEq, Eq, Structural)]
pub struct Position {
    pub x: usize,
    pub y: usize,
}

impl Position {
    pub fn new(x: usize, y: usize) -> (r: Position)
        ensures
            r.x == x,
            r.y == y,
    {
        Position { x, y }
    }
}

/// A fraction `num / den` in lowest terms; `den == 0` when the height is zero.
#[derive(Clone, Copy, Debug, PartialEq, Eq, Structural)]
pub struct Ratio {
    pub num: usize,
    pub den: usize,
}

/// An axis-aligned rectangle of cells: its top-left corner and its size.
#[derive(Clone, Copy, Debug, PartialEq, Eq, Structural)]
pub struct Rect {
    pub position: Position,
    pub width: usize,
    pub height: usize,
}

pub open spec fn gcd(a: nat, b: nat) -> nat
    decreases b,
{
    if b == 0 {
        a
    } else {
        gcd(b, a % b)
    }
}

/// `w / h` divided through by the greatest common divisor of the two.
pub open spec fn reduced_ratio(w: nat, h: nat) -> Ratio {
    let g = gcd(w, h);
    if g == 0 {
        Ratio { num: 0, den: 0 }
    } else {
        Ratio { num: (w / g) as usize, den: (h / g) as usize }
    }
}

pub open spec fn rect_at(x: int, y: int, width: int, height: int) -> Rect {
    Rect {
        position: Position { x: x as usize, y: y as usize },
        width: width as usize,
        height: height as usize,
    }
}

/// `top` lies directly above `bottom`, and the two together cover `whole`.
pub open spec fn stacked(top: Rect, bottom: Rect, whole: Rect) -> bool {
    &&& top.position == whole.position
    &&& top.width == whole.width
    &&& bottom.width == whole.width
    &&& bottom.position.x == whole.position.x
    &&& bottom.position.y == top.position.y + top.height
    &&& top.height + bottom.height == whole.height
}

/// `left` lies directly beside `right`, and the two together cover `whole`.
pub open spec fn side_by_side(left: Rect, right: Rect, whole: Rect) -> bool {
    &&& left.position == whole.position
    &&& left.height == whole.height
    &&& right.height == whole.height
    &&& right.position.y == whole.position.y
    &&& right.position.x == left.position.x + left.width
    &&& left.width + right.width == whole.width
}

/// The `i`-th of `n` columns that `r` is divided into: all but the last are
/// `r.width / n` wide, and the last takes what remains.
pub open spec fn column(r: Rect, n: nat, i: nat) -> Rect {
    let d = r.width as int / n as int;
    let w = if i + 1 == n { r.width - i * d } else { d };
    rect_at(r.position.x + i * d, r.position.y as int, w, r.height as int)
}

/// The `i`-th of `n` rows that `r` is divided into: all but the last are
/// `r.height / n` high, and the last takes what remains.
pub open spec fn row(r: Rect, n: nat, i: nat) -> Rect {
    let d = r.height as int / n as int;
    let h = if i + 1 == n { r.height - i * d } else { d };
    rect_at(r.position.x as int, r.position.y + i * d, r.width as int, h)
}

pub open spec fn columns(r: Rect, n: nat) -> Seq<Rect> {
    Seq::new(n, |i: int| column(r, n, i as nat))
}

pub open spec fn rows(r: Rect, n: nat) -> Seq<Rect> {
    Seq::new(n, |i: int| row(r, n, i as nat))
}

pub open spec fn total_width(s: Seq<Rect>) -> int
    decreases s.len(),
{
    if s.len() == 0 {
        0
    } else {
        total_width(s.drop_last()) + s.last().width
    }
}

pub open spec fn total_height(s: Seq<Rect>) -> int
    decreases s.len(),
{
    if s.len() == 0 {
        0
    } else {
        total_height(s.drop_last()) + s.last().height
    }
}

proof fn lemma_gcd_divides(a: nat, b: nat)
    ensures
        gcd(a, b) > 0 ==> a % gcd(a, b) == 0 && b % gcd(a, b) == 0,
        gcd(a, b) == 0 ==> a == 0 && b == 0,
    decreases b,
{
    if b == 0 {
        if a > 0 {
            vstd::arithmetic::div_mod::lemma_mod_self_0(a as int);
        }
    } else {
        lemma_gcd_divides(b, a % b);
        let g = gcd(b, a % b);
        let q = a / b;
        let m = a % b;
        assert(a == q * b + m) by {
            vstd::arithmetic::div_mod::lemma_fundamental_div_mod(a as int, b as int);
        }
        if g > 0 {
            let kb = b / g;
            let km = m / g;
            assert(b == kb * g) by {
                vstd::arithmetic::div_mod::lemma_fundamental_div_mod(b as int, g as int);
            }
            assert(m == km * g) by {
                vstd::arithmetic::div_mod::lemma_fundamental_div_mod(m as int, g as int);
            }
            assert(a == (q * kb + km) * g) by (nonlinear_arith)
                requires
                    a == q * b + m,
                    b == kb * g,
                    m == km * g,
            ;
            vstd::arithmetic::div_mod::lemma_mod_multiples_basic((q * kb + km) as int, g as int);
            assert(a % g == 0);
        }
    }
}

/// The aspect ratio of a `w` by `h` rectangle is exactly `w / h`: the reduced
/// fraction multiplies out to the same cross product.
pub proof fn lemma_aspect_ratio_exact(w: nat, h: nat)
    requires
        w <= usize::MAX,
        h <= usize::MAX,
    ensures
        reduced_ratio(w, h).num * h == w * reduced_ratio(w, h).den,
        h > 0 ==> reduced_ratio(w, h).den > 0,
        w > 0 ==> reduced_ratio(w, h).num > 0,
{
    lemma_gcd_divides(w, h);
    let g = gcd(w, h);
    if g > 0 {
        let a = w / g;
        let b = h / g;
        assert(w == a * g && h == b * g) by {
            vstd::arithmetic::div_mod::lemma_fundamental_div_mod(w as int, g as int);
            vstd::arithmetic::div_mod::lemma_fundamental_div_mod(h as int, g as int);
        }
        assert(a <= w && b <= h) by {
            vstd::arithmetic::div_mod::lemma_div_is_ordered_by_denominator(w as int, 1, g as int);
            vstd::arithmetic::div_mod::lemma_div_is_ordered_by_denominator(h as int, 1, g as int);
        }
        assert(a * h == w * b) by (nonlinear_arith)
            requires
                w == a * g,
                h == b * g,
        ;
        assert(h > 0 ==> b > 0) by (nonlinear_arith)
            requires
                h == b * g,
        ;
        assert(w > 0 ==> a > 0) by (nonlinear_arith)
            requires
                w == a * g,
        ;
    }
}

proof fn lemma_parts_fit(w: int, n: int, i: int)
    requires
        w >= 0,
        n >= 1,
        0 <= i <= n,
    ensures
        0 <= w / n,
        i * (w / n) <= w,
        (w / n) * n <= w,
        w >= n ==> w / n >= 1,
{
    let d = w / n;
    assert(d * n <= w && d >= 0) by (nonlinear_arith)
        requires
            d == w / n,
            n >= 1,
            w >= 0,
    ;
    assert(i * d <= d * n) by (nonlinear_arith)
        requires
            0 <= i <= n,
            d >= 0,
    ;
    if w >= n {
        vstd::arithmetic::div_mod::lemma_div_is_ordered(n, w, n);
        vstd::arithmetic::div_mod::lemma_div_by_self(n);
    }
}

proof fn lemma_total_width_push(s: Seq<Rect>, k: int)
    requires
        0 <= k < s.len(),
    ensures
        total_width(s.take(k + 1)) == total_width(s.take(k)) + s[k].width,
{
    assert(s.take(k + 1).drop_last() =~= s.take(k));
}

proof fn lemma_total_height_push(s: Seq<Rect>, k: int)
    requires
        0 <= k < s.len(),
    ensures
        total_height(s.take(k + 1)) == total_height(s.take(k)) + s[k].height,
{
    assert(s.take(k + 1).drop_last() =~= s.take(k));
}

proof fn lemma_uniform_width(s: Seq<Rect>, k: int, d: int)
    requires
        0 <= k <= s.len(),
        forall|i: int| 0 <= i < k ==> (#[trigger] s[i]).width == d,
    ensures
        total_width(s.take(k)) == k * d,
    decreases k,
{
    if k > 0 {
        lemma_uniform_width(s, k - 1, d);
        lemma_total_width_push(s, k - 1);
        assert(k * d == (k - 1) * d + d) by (nonlinear_arith);
    } else {
        assert(s.take(0).len() == 0);
    }
}

proof fn lemma_uniform_height(s: Seq<Rect>, k: int, d: int)
    requires
        0 <= k <= s.len(),
        forall|i: int| 0 <= i < k ==> (#[trigger] s[i]).height == d,
    ensures
        total_height(s.take(k)) == k * d,
    decreases k,
{
    if k > 0 {
        lemma_uniform_height(s, k - 1, d);
        lemma_total_height_push(s, k - 1);
        assert(k * d == (k - 1) * d + d) by (nonlinear_arith);
    } else {
        assert(s.take(0).len() == 0);
    }
}

/// Dividing into columns tiles the rectangle: `n` columns of its full
/// height, each starting where the one before it ends, whose widths add up
/// to its width. They move strictly rightwards when every column is at least
/// one cell wide, and one column is the rectangle itself.
pub proof fn lemma_columns_tile(r: Rect, n: nat)
    requires
        r.wf(),
        n >= 1,
    ensures
        columns(r, n).len() == n,
        total_width(columns(r, n)) == r.width,
        columns(r, n)[0].position == r.position,
        forall|i: int|
            0 <= i < n ==> (#[trigger] columns(r, n)[i]).position.y == r.position.y
                && columns(r, n)[i].height == r.height,
        forall|i: int|
            0 <= i < n - 1 ==> (#[trigger] columns(r, n)[i]).position.x + columns(r, n)[i].width
                == columns(r, n)[i + 1].position.x,
        r.width >= n ==> forall|i: int|
            0 <= i < n - 1 ==> (#[trigger] columns(r, n)[i]).position.x < columns(r, n)[i + 1].position.x,
        n == 1 ==> columns(r, n)[0] == r,
{
    let c = columns(r, n);
    let w = r.width as int;
    let d = w / n as int;
    assert forall|i: int| 0 <= i < n implies {
        &&& (#[trigger] c[i]).position.x == r.position.x + i * d
        &&& c[i].position.y == r.position.y
        &&& c[i].height == r.height
        &&& c[i].width == if i + 1 == n { w - i * d } else { d }
    } by {
        lemma_parts_fit(w, n as int, i);
        lemma_parts_fit(w, n as int, i + 1);
        assert((i + 1) * d == i * d + d) by (nonlinear_arith);
    }
    assert forall|i: int| 0 <= i < n - 1 implies (#[trigger] c[i]).position.x + c[i].width
        == c[i + 1].position.x by {
        assert((i + 1) * d == i * d + d) by (nonlinear_arith);
    }
    lemma_parts_fit(w, n as int, 0);
    lemma_uniform_width(c, n - 1, d);
    lemma_total_width_push(c, n - 1);
    assert(c.take(n as int) =~= c);
    assert(c[0] == column(r, n, 0));
    if n == 1 {
        assert(c[0].width == w);
    }
}

/// Dividing into rows tiles the rectangle: `n` rows of its full width, each
/// starting where the one above it ends, whose heights add up to its height.
/// They move strictly downwards when every row is at least one cell high, and
/// one row is the rectangle itself.
pub proof fn lemma_rows_tile(r: Rect, n: nat)
    requires
        r.wf(),
        n >= 1,
    ensures
        rows(r, n).len() == n,
        total_height(rows(r, n)) == r.height,
        rows(r, n)[0].position == r.position,
        forall|i: int|
            0 <= i < n ==> (#[trigger] rows(r, n)[i]).position.x == r.position.x
                && rows(r, n)[i].width == r.width,
        forall|i: int|
            0 <= i < n - 1 ==> (#[trigger] rows(r, n)[i]).position.y + rows(r, n)[i].height
                == rows(r, n)[i + 1].position.y,
        r.height >= n ==> forall|i: int|
            0 <= i < n - 1 ==> (#[trigger] rows(r, n)[i]).position.y < rows(r, n)[i + 1].position.y,
        n == 1 ==> rows(r, n)[0] == r,
{
    let c = rows(r, n);
    let h = r.height as int;
    let d = h / n as int;
    assert forall|i: int| 0 <= i < n implies {
        &&& (#[trigger] c[i]).position.y == r.position.y + i * d
        &&& c[i].position.x == r.position.x
        &&& c[i].width == r.width
        &&& c[i].height == if i + 1 == n { h - i * d } else { d }
    } by {
        lemma_parts_fit(h, n as int, i);
        lemma_parts_fit(h, n as int, i + 1);
        assert((i + 1) * d == i * d + d) by (nonlinear_arith);
    }
    assert forall|i: int| 0 <= i < n - 1 implies (#[trigger] c[i]).position.y + c[i].height
        == c[i + 1].position.y by {
        assert((i + 1) * d == i * d + d) by (nonlinear_arith);
    }
    lemma_parts_fit(h, n as int, 0);
    lemma_uniform_height(c, n - 1, d);
    lemma_total_height_push(c, n - 1);
    assert(c.take(n as int) =~= c);
    assert(c[0] == row(r, n, 0));
    if n == 1 {
        assert(c[0].height == h);
    }
}

fn gcd_of(a: usize, b: usize) -> (r: usize)
    ensures
        r == gcd(a as nat, b as nat),
{
    let mut x: usize = a;
    let mut y: usize = b;
    while y != 0
        invariant
            gcd(x as nat, y as nat) == gcd(a as nat, b as nat),
        decreases y,
    {
        let t = x % y;
        x = y;
        y = t;
    }
    x
}

impl Rect {
    /// Both coordinates of the far corner fit in a `usize`.
    pub open spec fn wf(&self) -> bool {
        &&& self.position.x + self.width <= usize::MAX
        &&& self.position.y + self.height <= usize::MAX
    }

    pub fn new(width: usize, height: usize) -> (r: Rect)
        ensures
            r == rect_at(0, 0, width as int, height as int),
            r.wf(),
    {
        Rect { position: Position { x: 0, y: 0 }, width, height }
    }

    pub fn with_position(self, position: Position) -> (r: Rect)
        requires
            position.x + self.width <= usize::MAX,
            position.y + self.height <= usize::MAX,
        ensures
            r.position == position,
            r.width == self.width,
            r.height == self.height,
            r.wf(),
    {
        Rect { position, ..self }
    }

    /// `width / height` in lowest terms.
    pub fn aspect_ratio(&self) -> (r: Ratio)
        ensures
            r == reduced_ratio(self.width as nat, self.height as nat),
    {
        let g = gcd_of(self.width, self.height);
        if g == 0 {
            Ratio { num: 0, den: 0 }
        } else {
            proof {
                vstd::arithmetic::div_mod::lemma_div_is_ordered_by_denominator(self.width as int, 1, g as int);
                vstd::arithmetic::div_mod::lemma_div_is_ordered_by_denominator(self.height as int, 1, g as int);
            }
            Ratio { num: self.width / g, den: self.height / g }
        }
    }

    /// Removes a strip `amount` cells high from the top and returns it.
    pub fn cut_top(&mut self, amount: usize) -> (r: Rect)
        requires
            old(self).wf(),
            amount <= old(self).height,
        ensures
            r == rect_at(old(self).position.x as int, old(self).position.y as int, old(self).width as int, amount as int),
            *final(self) == rect_at(old(self).position.x as int, old(self).position.y + amount, old(self).width as int, old(self).height - amount),
            stacked(r, *final(self), *old(self)),
            r.wf(),
            final(self).wf(),
    {
        self.height = self.height - amount;
        let rect = Rect::new(self.width, amount).with_position(self.position);
        self.position.y = self.position.y + amount;
        rect
    }

    /// Removes a strip `amount` cells high from the bottom and returns it.
    pub fn cut_bottom(&mut self, amount: usize) -> (r: Rect)
        requires
            old(self).wf(),
            amount <= old(self).height,
        ensures
            r == rect_at(old(self).position.x as int, old(self).position.y + old(self).height - amount, old(self).width as int, amount as int),
            *final(self) == rect_at(old(self).position.x as int, old(self).position.y as int, old(self).width as int, old(self).height - amount),
            stacked(*final(self), r, *old(self)),
            r.wf(),
            final(self).wf(),
    {
        self.height = self.height - amount;
        let position = Position { x: self.position.x, y: self.position.y + self.height };
        Rect::new(self.width, amount).with_position(position)
    }

    /// Removes a strip `amount` cells wide from the left and returns it.
    pub fn cut_left(&mut self, amount: usize) -> (r: Rect)
        requires
            old(self).wf(),
            amount <= old(self).width,
        ensures
            r == rect_at(old(self).position.x as int, old(self).position.y as int, amount as int, old(self).height as int),
            *final(self) == rect_at(old(self).position.x + amount, old(self).position.y as int, old(self).width - amount, old(self).height as int),
            side_by_side(r, *final(self), *old(self)),
            r.wf(),
            final(self).wf(),
    {
        self.width = self.width - amount;
        let rect = Rect::new(amount, self.height).with_position(self.position);
        self.position.x = self.position.x + amount;
        rect
    }

    /// Removes a strip `amount` cells wide from the right and returns it.
    pub fn cut_right(&mut self, amount: usize) -> (r: Rect)
        requires
            old(self).wf(),
            amount <= old(self).width,
        ensures
            r == rect_at(old(self).position.x + old(self).width - amount, old(self).position.y as int, amount as int, old(self).height as int),
            *final(self) == rect_at(old(self).position.x as int, old(self).position.y as int, old(self).width - amount, old(self).height as int),
            side_by_side(*final(self), r, *old(self)),
            r.wf(),
            final(self).wf(),
    {
        self.width = self.width - amount;
        let position = Position { x: self.position.x + self.width, y: self.position.y };
        Rect::new(amount, self.height).with_position(position)
    }
    /// Divides the rectangle into `into_parts` columns, left to right. All
    /// but the last are `width / into_parts` wide; the last takes the rest.
    pub fn divide_horizontally(self, into_parts: usize) -> (r: Vec<Rect>)
        requires
            self.wf(),
            into_parts >= 1,
        ensures
            r@ == columns(self, into_parts as nat),
            forall|i: int| 0 <= i < r.len() ==> (#[trigger] r[i]).wf(),
    {
        let mut rest = self;
        let mut result: Vec<Rect> = Vec::with_capacity(into_parts);
        let division_width = self.width / into_parts;
        let ghost n = into_parts as int;
        let ghost d = division_width as int;
        assert(d * n <= self.width) by (nonlinear_arith)
            requires
                d == self.width as int / n,
                n >= 1,
        ;
        let mut i: usize = 0;
        while i < into_parts - 1
            invariant
                self.wf(),
                into_parts >= 1,
                n == into_parts,
                d == division_width,
                d == self.width as int / n,
                d * n <= self.width,
                i <= into_parts - 1,
                rest == rect_at(self.position.x + i * d, self.position.y as int, self.width - i * d, self.height as int),
                i * d <= self.width,
                rest.wf(),
                forall|j: int| 0 <= j < result.len() ==> (#[trigger] result[j]).wf(),
                result@ =~= columns(self, into_parts as nat).take(i as int),
            decreases into_parts - 1 - i,
        {
            assert((i + 1) * d <= self.width) by (nonlinear_arith)
                requires
                    i + 1 <= n,
                    d * n <= self.width,
                    d >= 0,
            ;
            assert((i + 1) * d == i * d + d) by (nonlinear_arith);
            let piece = rest.cut_left(division_width);
            result.push(piece);
            i = i + 1;
        }
        result.push(rest);
        assert(result@ =~= columns(self, into_parts as nat));
        result
    }

    /// Divides the rectangle into `into_parts` rows, top to bottom. All but
    /// the last are `height / into_parts` high; the last takes the rest.
    pub fn divide_vertically(self, into_parts: usize) -> (r: Vec<Rect>)
        requires
            self.wf(),
            into_parts >= 1,
        ensures
            r@ == rows(self, into_parts as nat),
            forall|i: int| 0 <= i < r.len() ==> (#[trigger] r[i]).wf(),
    {
        let mut rest = self;
        let mut result: Vec<Rect> = Vec::with_capacity(into_parts);
        let division_height = self.height / into_parts;
        let ghost n = into_parts as int;
        let ghost d = division_height as int;
        assert(d * n <= self.height) by (nonlinear_arith)
            requires
                d == self.height as int / n,
                n >= 1,
        ;
        let mut i: usize = 0;
        while i < into_parts - 1
            invariant
                self.wf(),
                into_parts >= 1,
                n == into_parts,
                d == division_height,
                d == self.height as int / n,
                d * n <= self.height,
                i <= into_parts - 1,
                rest == rect_at(self.position.x as int, self.position.y + i * d, self.width as int, self.height - i * d),
                i * d <= self.height,
                rest.wf(),
                forall|j: int| 0 <= j < result.len() ==> (#[trigger] result[j]).wf(),
                result@ =~= rows(self, into_parts as nat).take(i as int),
            decreases into_parts - 1 - i,
        {
            assert((i + 1) * d <= self.height) by (nonlinear_arith)
                requires
                    i + 1 <= n,
                    d * n <= self.height,
                    d >= 0,
            ;
            assert((i + 1) * d == i * d + d) by (nonlinear_arith);
            let piece = rest.cut_top(division_height);
            result.push(piece);
            i = i + 1;
        }
        result.push(rest);
        assert(result@ =~= rows(self, into_parts as nat));
        result
    }
}

} // verus!

//! Placement of a caption in a box centred on the grid, with truncation when it does not fit.
use vstd::prelude::*;
use crate::types::{Colour, ColourChar};

verus! {

/// Where a caption goes: columns `left..right` of rows `top..bottom`, and whether it was cut.
#[derive(Clone, Copy, Debug, PartialEq, Eq, Structural)]
pub struct TextBox {
    pub left: usize,
    pub top: usize,
    pub right: usize,
    pub bottom: usize,
    pub overflow: bool,
}

/// `a - b`, or zero where that would be negative.
pub open spec fn sat_sub(a: int, b: int) -> int {
    if a >= b { a - b } else { 0 }
}

/// Rows taken by `len` characters wrapped at `width`.
pub open spec fn line_count(width: int, len: int) -> int {
    len / width + if len % width == 0 { 0int } else { 1int }
}

/// The box for a caption of `len` characters on a `width` by `height` grid.
pub open spec fn text_box(width: int, height: int, len: int) -> TextBox {
    let hm = width / 2;
    let vm = height / 2;
    let lines = line_count(width, len);
    let wide = hm + len / 2 + 1;
    let tall0 = vm + lines / 2 + 1;
    let tall = if wide > width { tall0 + wide / width } else { tall0 };
    TextBox {
        left: sat_sub(hm, len / 2 + 1) as usize,
        top: sat_sub(vm, lines / 2 + 1) as usize,
        right: (if wide > width { width } else { wide }) as usize,
        bottom: (if tall > height { height } else { tall }) as usize,
        overflow: tall > height,
    }
}

/// Computes the box of a caption of `len` characters on a `width` by `height` grid.
pub fn caption_layout(width: usize, height: usize, len: usize) -> (b: TextBox)
    requires
        width >= 1,
        height >= 1,
    ensures
        b == text_box(width as int, height as int, len as int),
{
    let w = width as u128;
    let h = height as u128;
    let l = len as u128;
    let hm = w / 2;
    let vm = h / 2;
    let lines = l / w + if l % w == 0 { 0u128 } else { 1u128 };
    let left: u128 = if hm >= l / 2 + 1 { hm - (l / 2 + 1) } else { 0 };
    let top: u128 = if vm >= lines / 2 + 1 { vm - (lines / 2 + 1) } else { 0 };
    let mut right: u128 = hm + l / 2 + 1;
    let mut bottom: u128 = vm + lines / 2 + 1;
    let mut overflow = false;
    if right > w {
        bottom = bottom + right / w;
        right = w;
    }
    if bottom > h {
        bottom = h;
        overflow = true;
    }
    TextBox {
        left: left as usize,
        top: top as usize,
        right: right as usize,
        bottom: bottom as usize,
        overflow,
    }
}


/// The cell that shows `c`: plain, or with a foreground and background colour.
pub open spec fn paint(style: Option<(Colour, Colour)>, c: char) -> ColourChar {
    match style {
        Some((fg, bg)) => ColourChar::Colour(fg, bg, c),
        None => ColourChar::Monochrome(c),
    }
}

/// The cell that shows `c` in `style`.
fn paint_exec(style: Option<(Colour, Colour)>, c: char) -> (r: ColourChar)
    ensures
        r == paint(style, c),
{
    match style {
        Some((fg, bg)) => ColourChar::Colour(fg, bg, c),
        None => ColourChar::Monochrome(c),
    }
}

/// Position, counted row by row, of column `x` of row `y` inside box `b`.
pub open spec fn box_position(b: TextBox, x: int, y: int) -> int {
    (y - b.top) * (b.right - b.left) + (x - b.left)
}

pub open spec fn in_box(b: TextBox, x: int, y: int) -> bool {
    b.left <= x < b.right && b.top <= y < b.bottom
}

/// Whether column `x` of row `y` holds the truncation marker.
pub open spec fn in_marker(b: TextBox, width: int, height: int, x: int, y: int) -> bool {
    b.overflow && y == height - 1 && width - 3 <= x < width
}

/// What the caption's box, without the marker, makes of cell `j` of `grid`.
pub open spec fn boxed_cell(
    grid: Seq<ColourChar>,
    text: Seq<char>,
    style: Option<(Colour, Colour)>,
    width: int,
    height: int,
    j: int,
) -> ColourChar {
    let b = text_box(width, height, text.len() as int);
    let x = j % width;
    let y = j / width;
    if in_box(b, x, y) && box_position(b, x, y) < text.len() {
        paint(style, text[box_position(b, x, y)])
    } else {
        grid[j]
    }
}

/// What a caption writes into cell `j` of a `width` by `height` grid, if anything.
pub open spec fn caption_cell(
    text: Seq<char>,
    style: Option<(Colour, Colour)>,
    width: int,
    height: int,
    j: int,
) -> Option<ColourChar> {
    let b = text_box(width, height, text.len() as int);
    let x = j % width;
    let y = j / width;
    if in_marker(b, width, height, x, y) {
        Some(paint(style, '.'))
    } else if in_box(b, x, y) && box_position(b, x, y) < text.len() {
        Some(paint(style, text[box_position(b, x, y)]))
    } else {
        None
    }
}

/// A grid after a caption is drawn on it.
pub open spec fn draw_caption_spec(
    grid: Seq<ColourChar>,
    text: Seq<char>,
    style: Option<(Colour, Colour)>,
    width: int,
    height: int,
) -> Seq<ColourChar> {
    Seq::new(
        grid.len(),
        |j: int|
            match caption_cell(text, style, width, height, j) {
                Some(c) => c,
                None => grid[j],
            },
    )
}

/// The row and column of cell `y * width + x`.
pub proof fn lemma_cell_index(width: int, height: int, x: int, y: int)
    requires
        0 <= x < width,
        0 <= y < height,
    ensures
        (y * width + x) / width == y,
        (y * width + x) % width == x,
        0 <= y * width + x < width * height,
{
    vstd::arithmetic::div_mod::lemma_fundamental_div_mod_converse(y * width + x, width, y, x);
    assert(0 <= y * width + x < width * height) by (nonlinear_arith)
        requires
            0 <= x < width,
            0 <= y < height,
    ;
}

/// The box lies inside the grid, with at least one column.
pub proof fn lemma_box_bounds(width: int, height: int, len: int)
    requires
        1 <= width <= usize::MAX,
        1 <= height <= usize::MAX,
        0 <= len,
    ensures
        ({
            let b = text_box(width, height, len);
            &&& b.left < b.right <= width
            &&& b.top < b.bottom <= height
        }),
{
    let lines = line_count(width, len);
    assert(lines >= 0) by (nonlinear_arith)
        requires
            width >= 1,
            len >= 0,
            lines == len / width + if len % width == 0 { 0int } else { 1int },
    ;
    let wide = width / 2 + len / 2 + 1;
    if wide > width {
        assert(wide / width >= 0) by (nonlinear_arith)
            requires
                width >= 1,
                wide >= 0,
        ;
    }
}

/// Draws `text` into the `width` by `height` grid `screen`, centred, with a marker when cut.
pub fn draw_caption(
    screen: &mut Vec<ColourChar>,
    text: &Vec<char>,
    style: Option<(Colour, Colour)>,
    width: usize,
    height: usize,
)
    requires
        old(screen)@.len() == width * height,
    ensures
        final(screen)@ == draw_caption_spec(old(screen)@, text@, style, width as int, height as int),
{
    if width == 0 || height == 0 {
        proof {
            assert(width * height == 0) by (nonlinear_arith)
                requires
                    width == 0 || height == 0,
            ;
        }
        assert(screen@ =~= draw_caption_spec(old(screen)@, text@, style, width as int, height as int));
        return;
    }
    let n = screen.len();
    let ghost g0 = screen@;
    let ghost w = width as int;
    let ghost h = height as int;
    let len = text.len();
    let b = caption_layout(width, height, len);
    proof {
        lemma_box_bounds(w, h, len as int);
    }
    let mut k: usize = 0;
    let mut y = b.top;
    while y < b.bottom
        invariant
            b == text_box(w, h, len as int),
            b.left < b.right <= width,
            b.top <= y <= b.bottom <= height,
            len == text@.len(),
            screen@.len() == g0.len(),
            g0.len() == w * h,
            g0.len() == n,
            w == width,
            h == height,
            k as int == if (y - b.top) * (b.right - b.left) < len {
                (y - b.top) * (b.right - b.left)
            } else {
                len as int
            },
            forall|j: int|
                0 <= j < g0.len() ==> #[trigger] screen@[j] == if j / w < y {
                    boxed_cell(g0, text@, style, w, h, j)
                } else {
                    g0[j]
                },
        decreases b.bottom - y,
    {
        let mut x = b.left;
        while x < b.right
            invariant
                b == text_box(w, h, len as int),
                b.left <= x <= b.right <= width,
                b.top <= y < b.bottom <= height,
                len == text@.len(),
                screen@.len() == g0.len(),
                g0.len() == w * h,
            g0.len() == n,
                g0.len() == n,
                w == width,
                h == height,
                k as int == if box_position(b, x as int, y as int) < len {
                    box_position(b, x as int, y as int)
                } else {
                    len as int
                },
                forall|j: int|
                    0 <= j < g0.len() ==> #[trigger] screen@[j] == if j / w < y || (j / w == y
                        && j % w < x) {
                        boxed_cell(g0, text@, style, w, h, j)
                    } else {
                        g0[j]
                    },
            decreases b.right - x,
        {
            proof {
                lemma_cell_index(w, h, x as int, y as int);
            }
            let i = y * width + x;
            let ghost before = screen@;
            if k < len {
                let c = paint_exec(style, text[k]);
                screen.set(i, c);
                k = k + 1;
            }
            proof {
                assert(box_position(b, x + 1, y as int) == box_position(b, x as int, y as int) + 1);
                assert forall|j: int| 0 <= j < g0.len() implies #[trigger] screen@[j] == if j / w < y
                    || (j / w == y && j % w < x + 1) {
                    boxed_cell(g0, text@, style, w, h, j)
                } else {
                    g0[j]
                } by {
                    vstd::arithmetic::div_mod::lemma_fundamental_div_mod(j, w);
                    if j != i {
                        assert(screen@[j] == before[j]);
                        if j / w == y && j % w == x {
                            assert(j == w * y + x);
                            assert(false) by (nonlinear_arith)
                                requires
                                    j == w * y + x,
                                    j != i,
                                    i == y * w + x,
                            ;
                        }
                    }
                }
            }
            x = x + 1;
        }
        proof {
            assert(box_position(b, x as int, y as int) == (y + 1 - b.top) * (b.right - b.left)) by (nonlinear_arith)
                requires
                    x == b.right,
            ;
        }
        y = y + 1;
    }
    if b.overflow {
        let last = height - 1;
        proof {
            lemma_cell_index(w, h, w - 1, h - 1);
        }
        let marker = paint_exec(style, '.');
        let mut x = if width >= 3 { width - 3 } else { 0 };
        while x < width
            invariant
                b == text_box(w, h, len as int),
                b.overflow,
                last == height - 1,
                screen@.len() == g0.len(),
                g0.len() == w * h,
            g0.len() == n,
                g0.len() == n,
                w == width,
                h == height,
                marker == paint(style, '.'),
                w - 3 <= x <= w,
                0 <= x,
                forall|j: int|
                    0 <= j < g0.len() ==> #[trigger] screen@[j] == if j / w == last && w - 3 <= j % w
                        < x {
                        marker
                    } else {
                        boxed_cell(g0, text@, style, w, h, j)
                    },
            decreases width - x,
        {
            proof {
                lemma_cell_index(w, h, x as int, last as int);
            }
            let ghost before = screen@;
            let i = last * width + x;
            screen.set(i, marker);
            proof {
                assert forall|j: int| 0 <= j < g0.len() implies #[trigger] screen@[j] == if j / w
                    == last && w - 3 <= j % w < x + 1 {
                    marker
                } else {
                    boxed_cell(g0, text@, style, w, h, j)
                } by {
                    vstd::arithmetic::div_mod::lemma_fundamental_div_mod(j, w);
                    if j != i {
                        assert(screen@[j] == before[j]);
                        if j / w == last && j % w == x {
                            assert(false) by (nonlinear_arith)
                                requires
                                    j == w * last + x,
                                    j != i,
                                    i == last * w + x,
                            ;
                        }
                    }
                }
            }
            x = x + 1;
        }
    }
    assert(screen@ =~= draw_caption_spec(g0, text@, style, w, h));
}

/// Without overflow, the box has room for every character of the caption.
proof fn lemma_box_capacity(width: int, height: int, len: int)
    requires
        1 <= width <= usize::MAX,
        1 <= height <= usize::MAX,
        0 <= len,
        !text_box(width, height, len).overflow,
    ensures
        ({
            let b = text_box(width, height, len);
            (b.bottom - b.top) * (b.right - b.left) >= len
        }),
{
    let b = text_box(width, height, len);
    lemma_box_bounds(width, height, len);
    let hm = width / 2;
    let vm = height / 2;
    let a = len / 2;
    let lines = line_count(width, len);
    let wide = hm + a + 1;
    let rows = b.bottom - b.top;
    let cols = b.right - b.left;
    if wide <= width {
        assert(cols >= len);
        assert(rows * cols >= len) by (nonlinear_arith)
            requires
                rows >= 1,
                cols >= len,
                len >= 0,
        ;
    } else {
        let q = len / width;
        let r = len % width;
        let e = wide / width;
        vstd::arithmetic::div_mod::lemma_fundamental_div_mod(len, width);
        vstd::arithmetic::div_mod::lemma_fundamental_div_mod(wide, width);
        vstd::arithmetic::div_mod::lemma_mod_bound(len, width);
        vstd::arithmetic::div_mod::lemma_mod_bound(wide, width);
        assert(2 * (e + 1) > q + 1) by (nonlinear_arith)
            requires
                width >= 1,
                wide == width * e + (wide % width),
                wide % width < width,
                2 * wide >= width + len,
                len == width * q + r,
                0 <= r,
        ;
        assert(rows >= lines);
        if r == 0 {
            assert(lines * width == len) by (nonlinear_arith)
                requires
                    lines == q,
                    len == width * q + r,
                    r == 0,
            ;
        } else {
            assert(lines * width >= len) by (nonlinear_arith)
                requires
                    lines == q + 1,
                    len == width * q + r,
                    r < width,
            ;
        }
        assert(rows * cols >= lines * width) by (nonlinear_arith)
            requires
                cols == width,
                rows >= lines,
                width >= 1,
        ;
    }
}

/// Every cell that a caption writes, box or marker, lies inside the grid.
pub proof fn lemma_caption_in_bounds(width: int, height: int, len: int)
    requires
        1 <= width <= usize::MAX,
        1 <= height <= usize::MAX,
        0 <= len,
    ensures
        forall|x: int, y: int|
            #![trigger in_box(text_box(width, height, len), x, y)]
            #![trigger in_marker(text_box(width, height, len), width, height, x, y)]
            in_box(text_box(width, height, len), x, y) || (0 <= x && in_marker(
                text_box(width, height, len),
                width,
                height,
                x,
                y,
            )) ==> 0 <= x < width && 0 <= y < height,
{
    lemma_box_bounds(width, height, len);
}

/// A caption that fits, one whose box needs no more rows than the grid has, is drawn whole,
/// character by character in row order inside its box, with no truncation marker.
pub proof fn lemma_fitting_caption(
    grid: Seq<ColourChar>,
    text: Seq<char>,
    style: Option<(Colour, Colour)>,
    width: int,
    height: int,
)
    requires
        1 <= width <= usize::MAX,
        1 <= height <= usize::MAX,
        grid.len() == width * height,
        text.len() <= width * height,
        !text_box(width, height, text.len() as int).overflow,
    ensures
        ({
            let b = text_box(width, height, text.len() as int);
            let out = draw_caption_spec(grid, text, style, width, height);
            let cols = b.right - b.left;
            &&& forall|j: int|
                0 <= j < grid.len() ==> #[trigger] out[j] == boxed_cell(
                    grid,
                    text,
                    style,
                    width,
                    height,
                    j,
                )
            &&& forall|k: int|
                0 <= k < text.len() ==> #[trigger] out[(b.top + k / cols) * width + b.left + k
                    % cols] == paint(style, text[k])
        }),
{
    let b = text_box(width, height, text.len() as int);
    let out = draw_caption_spec(grid, text, style, width, height);
    let cols = b.right - b.left;
    let rows = b.bottom - b.top;
    lemma_box_bounds(width, height, text.len() as int);
    lemma_box_capacity(width, height, text.len() as int);
    assert forall|k: int| 0 <= k < text.len() implies #[trigger] out[(b.top + k / cols) * width
        + b.left + k % cols] == paint(style, text[k]) by {
        let x = b.left + k % cols;
        let y = b.top + k / cols;
        vstd::arithmetic::div_mod::lemma_fundamental_div_mod(k, cols);
        vstd::arithmetic::div_mod::lemma_mod_bound(k, cols);
        assert(k / cols < rows) by (nonlinear_arith)
            requires
                k == cols * (k / cols) + k % cols,
                0 <= k % cols,
                k < rows * cols,
                cols >= 1,
        ;
        assert(0 <= k / cols) by (nonlinear_arith)
            requires
                k >= 0,
                cols >= 1,
        ;
        lemma_cell_index(width, height, x, y);
        assert(box_position(b, x, y) == k) by (nonlinear_arith)
            requires
                k == cols * (k / cols) + k % cols,
                box_position(b, x, y) == (y - b.top) * cols + (x - b.left),
                y - b.top == k / cols,
                x - b.left == k % cols,
        ;
    }
}

/// A caption longer than the grid has room for is cut: the box is marked as overflowing, the
/// last three cells of the bottom row (all of it when narrower) show the marker, and every
/// other cell of the box shows the character of the caption at its position.
pub proof fn lemma_overflowing_caption(
    grid: Seq<ColourChar>,
    text: Seq<char>,
    style: Option<(Colour, Colour)>,
    width: int,
    height: int,
)
    requires
        1 <= width <= usize::MAX,
        1 <= height <= usize::MAX,
        grid.len() == width * height,
        text.len() > width * height,
    ensures
        ({
            let b = text_box(width, height, text.len() as int);
            let out = draw_caption_spec(grid, text, style, width, height);
            &&& b.overflow
            &&& forall|x: int|
                0 <= x < width && width - 3 <= x ==> #[trigger] out[(height - 1) * width + x]
                    == paint(style, '.')
            &&& forall|x: int, y: int|
                in_box(b, x, y) && !in_marker(b, width, height, x, y) ==> #[trigger] out[y * width
                    + x] == paint(style, text[box_position(b, x, y)])
        }),
{
    let b = text_box(width, height, text.len() as int);
    let out = draw_caption_spec(grid, text, style, width, height);
    lemma_box_bounds(width, height, text.len() as int);
    if !b.overflow {
        lemma_box_capacity(width, height, text.len() as int);
        assert((b.bottom - b.top) * (b.right - b.left) <= width * height) by (nonlinear_arith)
            requires
                0 <= b.bottom - b.top <= height,
                0 <= b.right - b.left <= width,
        ;
    }
    assert forall|x: int| 0 <= x < width && width - 3 <= x implies #[trigger] out[(height - 1)
        * width + x] == paint(style, '.') by {
        lemma_cell_index(width, height, x, height - 1);
    }
    assert forall|x: int, y: int|
        in_box(b, x, y) && !in_marker(b, width, height, x, y) implies #[trigger] out[y * width
        + x] == paint(style, text[box_position(b, x, y)]) by {
        lemma_cell_index(width, height, x, y);
        assert(box_position(b, x, y) < (b.bottom - b.top) * (b.right - b.left)) by (nonlinear_arith)
            requires
                b.left <= x < b.right,
                b.top <= y < b.bottom,
                box_position(b, x, y) == (y - b.top) * (b.right - b.left) + (x - b.left),
        ;
        assert((b.bottom - b.top) * (b.right - b.left) <= width * height) by (nonlinear_arith)
            requires
                0 <= b.bottom - b.top <= height,
                0 <= b.right - b.left <= width,
        ;
    }
}

} // verus!

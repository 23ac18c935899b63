use vstd::prelude::*;
use std::collections::VecDeque;

verus! {

/// The bit of a braille cell for the dot in column `x` (0 or 1) and row `y`
/// (0 to 3, top first); zero for any other position.
pub open spec fn braille_dot(x: nat, y: nat) -> u8 {
    if x == 0 && y == 0 {
        0x01
    } else if x == 0 && y == 1 {
        0x02
    } else if x == 0 && y == 2 {
        0x04
    } else if x == 0 && y == 3 {
        0x40
    } else if x == 1 && y == 0 {
        0x08
    } else if x == 1 && y == 1 {
        0x10
    } else if x == 1 && y == 2 {
        0x20
    } else if x == 1 && y == 3 {
        0x80
    } else {
        0
    }
}

/// The braille bit for dot column `x` and dot row `y` of a cell.
pub fn braille_bit(x: usize, y: usize) -> (r: u8)
    ensures
        r == braille_dot(x as nat, y as nat),
{
    if x == 0 && y == 0 {
        0x01
    } else if x == 0 && y == 1 {
        0x02
    } else if x == 0 && y == 2 {
        0x04
    } else if x == 0 && y == 3 {
        0x40
    } else if x == 1 && y == 0 {
        0x08
    } else if x == 1 && y == 1 {
        0x10
    } else if x == 1 && y == 2 {
        0x20
    } else if x == 1 && y == 3 {
        0x80
    } else {
        0
    }
}

/// `char::from_u32`: the character whose scalar value is `v`, when `v` is a
/// Unicode scalar value (at most 0x10FFFF and outside 0xD800..=0xDFFF).
#[verifier::external_body]
fn char_from_u32(v: u32) -> (r: Option<char>)
    ensures
        r is Some <==> (v <= 0x10FFFF && !(0xD800 <= v <= 0xDFFF)),
        r matches Some(c) ==> c as u32 == v,
{
    char::from_u32(v)
}

/// The braille character showing the dots in `bits`.
pub fn braille_char(bits: u8) -> (c: char)
    ensures
        c as u32 == 0x2800 + bits,
{
    match char_from_u32(0x2800 + bits as u32) {
        Some(c) => c,
        None => ' ',
    }
}

/// The cell pattern with dot `(x, y)` set exactly when the matching flag is.
pub open spec fn dot_pattern(
    a0: bool,
    a1: bool,
    a2: bool,
    a3: bool,
    b0: bool,
    b1: bool,
    b2: bool,
    b3: bool,
) -> u8 {
    (if a0 { braille_dot(0, 0) } else { 0u8 }) | (if a1 { braille_dot(0, 1) } else { 0u8 }) | (if a2 {
        braille_dot(0, 2)
    } else {
        0u8
    }) | (if a3 { braille_dot(0, 3) } else { 0u8 }) | (if b0 { braille_dot(1, 0) } else { 0u8 }) | (
    if b1 {
        braille_dot(1, 1)
    } else {
        0u8
    }) | (if b2 { braille_dot(1, 2) } else { 0u8 }) | (if b3 { braille_dot(1, 3) } else { 0u8 })
}

fn pattern(a0: bool, a1: bool, a2: bool, a3: bool, b0: bool, b1: bool, b2: bool, b3: bool) -> (r: u8)
    ensures
        r == dot_pattern(a0, a1, a2, a3, b0, b1, b2, b3),
{
    (if a0 { braille_bit(0, 0) } else { 0u8 }) | (if a1 { braille_bit(0, 1) } else { 0u8 }) | (if a2 {
        braille_bit(0, 2)
    } else {
        0u8
    }) | (if a3 { braille_bit(0, 3) } else { 0u8 }) | (if b0 { braille_bit(1, 0) } else { 0u8 }) | (
    if b1 {
        braille_bit(1, 1)
    } else {
        0u8
    }) | (if b2 { braille_bit(1, 2) } else { 0u8 }) | (if b3 { braille_bit(1, 3) } else { 0u8 })
}

/// The samples a graph of `sample_width` columns shows: the newest
/// `min(history.len(), sample_width)` samples at the right, `blank` to
/// their left.
pub open spec fn sample_window<T>(history: Seq<T>, sample_width: nat, blank: T) -> Seq<T> {
    let visible = if history.len() < sample_width {
        history.len()
    } else {
        sample_width
    };
    Seq::new(
        sample_width,
        |i: int|
            if i < sample_width - visible {
                blank
            } else {
                history[history.len() - sample_width + i]
            },
    )
}

/// The samples of `history` a graph `sample_width` dots wide shows, oldest
/// first, padded with `blank` on the left.
pub fn visible_samples<T: Copy>(history: &VecDeque<T>, sample_width: usize, blank: T) -> (r: Vec<T>)
    ensures
        r@ == sample_window(history@, sample_width as nat, blank),
{
    broadcast use vstd::std_specs::vecdeque::group_vec_dequeue_axioms;

    let len = history.len();
    let visible = if len < sample_width {
        len
    } else {
        sample_width
    };
    let start = len - visible;
    let left_pad = sample_width - visible;
    let mut values: Vec<T> = Vec::new();
    let mut i: usize = 0;
    while i < sample_width
        invariant
            len == history@.len(),
            visible == (if len < sample_width { len } else { sample_width }),
            start == len - visible,
            left_pad == sample_width - visible,
            i <= sample_width,
            values@.len() == i,
            forall|j: int| 0 <= j < i ==> #[trigger] values@[j] == sample_window(history@, sample_width as nat, blank)[j],
        decreases sample_width - i,
    {
        if i < left_pad {
            values.push(blank);
        } else {
            values.push(history[start + (i - left_pad)]);
        }
        i = i + 1;
    }
    assert(values@ =~= sample_window(history@, sample_width as nat, blank));
    values
}

/// The dots of the bottom-up graph cell in `row` and `col`: a dot is set
/// when the level of its sample column reaches the dot's height above the
/// bottom (`graph_height` dots in all).
pub open spec fn bottom_up_cell(levels: Seq<usize>, graph_height: nat, row: nat, col: nat) -> u8 {
    let l0 = levels[(2 * col) as int];
    let l1 = levels[(2 * col + 1) as int];
    let h = |y: nat| graph_height - (row * 4 + y);
    dot_pattern(
        l0 >= h(0),
        l0 >= h(1),
        l0 >= h(2),
        l0 >= h(3),
        l1 >= h(0),
        l1 >= h(1),
        l1 >= h(2),
        l1 >= h(3),
    )
}

/// The cell patterns of a graph `width` cells wide and `height` cells high
/// whose sample columns are filled from the bottom to the heights in
/// `levels` (two sample columns per cell, dots counted from the bottom).
/// Empty when the graph has no dots.
pub fn braille_graph(levels: &Vec<usize>, width: usize, height: usize) -> (rows: Vec<Vec<u8>>)
    requires
        width * 2 <= usize::MAX,
        height * 4 <= usize::MAX,
        width > 0 && height > 0 ==> levels@.len() == 2 * width,
    ensures
        width == 0 || height == 0 ==> rows@.len() == 0,
        width > 0 && height > 0 ==> rows@.len() == height,
        forall|r: int|
            0 <= r < rows@.len() ==> (#[trigger] rows@[r])@.len() == width && forall|c: int|
                0 <= c < width ==> #[trigger] rows@[r]@[c] == bottom_up_cell(
                    levels@,
                    (height * 4) as nat,
                    r as nat,
                    c as nat,
                ),
{
    let mut rows: Vec<Vec<u8>> = Vec::new();
    if width == 0 || height == 0 {
        return rows;
    }
    let graph_height = height * 4;
    let mut row: usize = 0;
    while row < height
        invariant
            graph_height == height * 4,
            levels@.len() == 2 * width,
            width * 2 <= usize::MAX,
            row <= height,
            rows@.len() == row,
            forall|r: int|
                0 <= r < row ==> (#[trigger] rows@[r])@.len() == width && forall|c: int|
                    0 <= c < width ==> #[trigger] rows@[r]@[c] == bottom_up_cell(
                        levels@,
                        graph_height as nat,
                        r as nat,
                        c as nat,
                    ),
        decreases height - row,
    {
        let mut cells: Vec<u8> = Vec::new();
        let base = graph_height - row * 4;
        let mut col: usize = 0;
        while col < width
            invariant
                graph_height == height * 4,
                levels@.len() == 2 * width,
                width * 2 <= usize::MAX,
                row < height,
                base == graph_height - row * 4,
                col <= width,
                cells@.len() == col,
                forall|c: int|
                    0 <= c < col ==> #[trigger] cells@[c] == bottom_up_cell(
                        levels@,
                        graph_height as nat,
                        row as nat,
                        c as nat,
                    ),
            decreases width - col,
        {
            let l0 = levels[2 * col];
            let l1 = levels[2 * col + 1];
            let bits = pattern(
                l0 >= base,
                l0 >= base - 1,
                l0 >= base - 2,
                l0 >= base - 3,
                l1 >= base,
                l1 >= base - 1,
                l1 >= base - 2,
                l1 >= base - 3,
            );
            cells.push(bits);
            col = col + 1;
        }
        rows.push(cells);
        row = row + 1;
    }
    rows
}

/// The dots of the top-down graph cell in `row` and `col`: a dot is set
/// when the level of its sample column reaches below it, counting dots from
/// the top. It mirrors `bottom_up_cell` top to bottom.
pub open spec fn top_down_cell(levels: Seq<usize>, row: nat, col: nat) -> u8 {
    let l0 = levels[(2 * col) as int];
    let l1 = levels[(2 * col + 1) as int];
    let d = |y: nat| row * 4 + y + 1;
    dot_pattern(
        l0 >= d(0),
        l0 >= d(1),
        l0 >= d(2),
        l0 >= d(3),
        l1 >= d(0),
        l1 >= d(1),
        l1 >= d(2),
        l1 >= d(3),
    )
}

/// The cell patterns of a graph `width` cells wide and `height` cells high
/// whose sample columns hang down from the top to the lengths in `levels`
/// (two sample columns per cell, dots counted from the top). Empty when
/// the graph has no dots.
pub fn braille_graph_top_down(levels: &Vec<usize>, width: usize, height: usize) -> (rows: Vec<Vec<u8>>)
    requires
        width * 2 <= usize::MAX,
        height * 4 <= usize::MAX,
        width > 0 && height > 0 ==> levels@.len() == 2 * width,
    ensures
        width == 0 || height == 0 ==> rows@.len() == 0,
        width > 0 && height > 0 ==> rows@.len() == height,
        forall|r: int|
            0 <= r < rows@.len() ==> (#[trigger] rows@[r])@.len() == width && forall|c: int|
                0 <= c < width ==> #[trigger] rows@[r]@[c] == top_down_cell(levels@, r as nat, c as nat),
{
    let mut rows: Vec<Vec<u8>> = Vec::new();
    if width == 0 || height == 0 {
        return rows;
    }
    let mut row: usize = 0;
    while row < height
        invariant
            levels@.len() == 2 * width,
            width * 2 <= usize::MAX,
            height * 4 <= usize::MAX,
            row <= height,
            rows@.len() == row,
            forall|r: int|
                0 <= r < row ==> (#[trigger] rows@[r])@.len() == width && forall|c: int|
                    0 <= c < width ==> #[trigger] rows@[r]@[c] == top_down_cell(levels@, r as nat, c as nat),
        decreases height - row,
    {
        let mut cells: Vec<u8> = Vec::new();
        let first = row * 4 + 1;
        let mut col: usize = 0;
        while col < width
            invariant
                levels@.len() == 2 * width,
                width * 2 <= usize::MAX,
                row < height,
                height * 4 <= usize::MAX,
                first == row * 4 + 1,
                col <= width,
                cells@.len() == col,
                forall|c: int| 0 <= c < col ==> #[trigger] cells@[c] == top_down_cell(levels@, row as nat, c as nat),
            decreases width - col,
        {
            let l0 = levels[2 * col];
            let l1 = levels[2 * col + 1];
            let bits = pattern(
                l0 >= first,
                l0 >= first + 1,
                l0 >= first + 2,
                l0 >= first + 3,
                l1 >= first,
                l1 >= first + 1,
                l1 >= first + 2,
                l1 >= first + 3,
            );
            cells.push(bits);
            col = col + 1;
        }
        rows.push(cells);
        row = row + 1;
    }
    rows
}

/// Whether dot `(x, y)` is set in the cell pattern `bits`.
pub open spec fn has_dot(bits: u8, x: nat, y: nat) -> bool {
    bits & braille_dot(x, y) != 0
}

/// The cell pattern `bits` upside down: dot `(x, y)` moves to `(x, 3 - y)`.
pub open spec fn flipped(bits: u8) -> u8 {
    dot_pattern(
        has_dot(bits, 0, 3),
        has_dot(bits, 0, 2),
        has_dot(bits, 0, 1),
        has_dot(bits, 0, 0),
        has_dot(bits, 1, 3),
        has_dot(bits, 1, 2),
        has_dot(bits, 1, 1),
        has_dot(bits, 1, 0),
    )
}

proof fn lemma_flipped_pattern(a0: bool, a1: bool, a2: bool, a3: bool, b0: bool, b1: bool, b2: bool, b3: bool)
    ensures
        flipped(dot_pattern(a0, a1, a2, a3, b0, b1, b2, b3)) == dot_pattern(a3, a2, a1, a0, b3, b2, b1, b0),
{
    let p = dot_pattern(a0, a1, a2, a3, b0, b1, b2, b3);
    assert(has_dot(p, 0, 0) == a0 && has_dot(p, 0, 1) == a1 && has_dot(p, 0, 2) == a2 && has_dot(p, 0, 3) == a3
        && has_dot(p, 1, 0) == b0 && has_dot(p, 1, 1) == b1 && has_dot(p, 1, 2) == b2 && has_dot(p, 1, 3) == b3)
        by (bit_vector)
        requires
            p == dot_pattern(a0, a1, a2, a3, b0, b1, b2, b3),
    ;
}

/// The top-down graph is the bottom-up graph upside down: over the same
/// levels, cell `(row, col)` of a top-down graph `height` cells high is cell
/// `(height - 1 - row, col)` of the bottom-up graph of that height, flipped.
pub proof fn lemma_top_down_mirrors_bottom_up(levels: Seq<usize>, height: nat, row: nat, col: nat)
    requires
        row < height,
        2 * col + 1 < levels.len(),
    ensures
        top_down_cell(levels, row, col) == flipped(bottom_up_cell(levels, height * 4, (height - 1 - row) as nat, col)),
{
    let l0 = levels[(2 * col) as int];
    let l1 = levels[(2 * col + 1) as int];
    let h = |y: nat| height * 4 - (((height - 1 - row) as nat) * 4 + y);
    lemma_flipped_pattern(l0 >= h(0), l0 >= h(1), l0 >= h(2), l0 >= h(3), l1 >= h(0), l1 >= h(1), l1 >= h(2), l1 >= h(3));
}

/// Number of dots from the centre line to the edge of a centred graph
/// `height` cells high: four per cell on the shorter side, at least four.
pub open spec fn centered_amplitude(height: nat) -> nat {
    let center = height / 2;
    let bottom = (height - center) as nat;
    let rows = if center < bottom { center } else { bottom };
    let rows = if rows < 1 { 1 } else { rows };
    rows * 4
}

/// The dot amplitude of a centred graph `height` cells high; a sample of
/// full load reaches this many dots from the centre line.
pub fn centered_amplitude_dots(height: usize) -> (r: usize)
    requires
        height * 4 <= usize::MAX,
    ensures
        r == centered_amplitude(height as nat),
{
    let center = height / 2;
    let bottom = height - center;
    let rows = if center < bottom {
        center
    } else {
        bottom
    };
    let rows = if rows < 1 {
        1
    } else {
        rows
    };
    rows * 4
}

/// The dots of the centred graph cell in `row` and `col`: a dot is set when
/// its distance from the centre line is at most the amplitude of its sample
/// column.
pub open spec fn centered_cell(amps: Seq<usize>, height: nat, row: nat, col: nat) -> u8 {
    let a0 = amps[(2 * col) as int];
    let a1 = amps[(2 * col + 1) as int];
    let center = (height / 2) * 4;
    let d = |y: nat| {
        let dot = row * 4 + y;
        if dot >= center {
            (dot - center) as nat
        } else {
            (center - dot) as nat
        }
    };
    dot_pattern(
        d(0) <= a0,
        d(1) <= a0,
        d(2) <= a0,
        d(3) <= a0,
        d(0) <= a1,
        d(1) <= a1,
        d(2) <= a1,
        d(3) <= a1,
    )
}

/// The cell patterns of a graph `width` cells wide and `height` cells high
/// that grows above and below its centre line by the amplitudes in `amps`
/// (two sample columns per cell). Empty when the graph has no columns.
pub fn braille_graph_centered(amps: &Vec<usize>, width: usize, height: usize) -> (rows: Vec<Vec<u8>>)
    requires
        width * 2 <= usize::MAX,
        height * 4 <= usize::MAX,
        width > 0 ==> amps@.len() == 2 * width,
    ensures
        width == 0 ==> rows@.len() == 0,
        width > 0 ==> rows@.len() == height,
        forall|r: int|
            0 <= r < rows@.len() ==> (#[trigger] rows@[r])@.len() == width && forall|c: int|
                0 <= c < width ==> #[trigger] rows@[r]@[c] == centered_cell(
                    amps@,
                    height as nat,
                    r as nat,
                    c as nat,
                ),
{
    let mut rows: Vec<Vec<u8>> = Vec::new();
    if width == 0 {
        return rows;
    }
    let center_dot = (height / 2) * 4;
    let mut row: usize = 0;
    while row < height
        invariant
            center_dot == (height / 2) * 4,
            height * 4 <= usize::MAX,
            amps@.len() == 2 * width,
            width * 2 <= usize::MAX,
            row <= height,
            rows@.len() == row,
            forall|r: int|
                0 <= r < row ==> (#[trigger] rows@[r])@.len() == width && forall|c: int|
                    0 <= c < width ==> #[trigger] rows@[r]@[c] == centered_cell(
                        amps@,
                        height as nat,
                        r as nat,
                        c as nat,
                    ),
        decreases height - row,
    {
        let top = row * 4;
        let d0 = if top >= center_dot { top - center_dot } else { center_dot - top };
        let d1 = if top + 1 >= center_dot { top + 1 - center_dot } else { center_dot - (top + 1) };
        let d2 = if top + 2 >= center_dot { top + 2 - center_dot } else { center_dot - (top + 2) };
        let d3 = if top + 3 >= center_dot { top + 3 - center_dot } else { center_dot - (top + 3) };
        let mut cells: Vec<u8> = Vec::new();
        let mut col: usize = 0;
        while col < width
            invariant
                center_dot == (height / 2) * 4,
                amps@.len() == 2 * width,
                width * 2 <= usize::MAX,
                row < height,
                top == row * 4,
                d0 == (if top >= center_dot { top - center_dot } else { center_dot - top }),
                d1 == (if top + 1 >= center_dot { top + 1 - center_dot } else { center_dot - (top + 1) }),
                d2 == (if top + 2 >= center_dot { top + 2 - center_dot } else { center_dot - (top + 2) }),
                d3 == (if top + 3 >= center_dot { top + 3 - center_dot } else { center_dot - (top + 3) }),
                col <= width,
                cells@.len() == col,
                forall|c: int|
                    0 <= c < col ==> #[trigger] cells@[c] == centered_cell(
                        amps@,
                        height as nat,
                        row as nat,
                        c as nat,
                    ),
            decreases width - col,
        {
            let a0 = amps[2 * col];
            let a1 = amps[2 * col + 1];
            let bits = pattern(d0 <= a0, d1 <= a0, d2 <= a0, d3 <= a0, d0 <= a1, d1 <= a1, d2 <= a1, d3 <= a1);
            cells.push(bits);
            col = col + 1;
        }
        rows.push(cells);
        row = row + 1;
    }
    rows
}

} // verus!

use vstd::prelude::*;

verus! {

// ---------------------------------------------------------------------------
// Row striping: row `y` belongs to worker `y % workers`.
// ---------------------------------------------------------------------------

/// How many rows below `height` a worker `id` of `workers` computes.
pub open spec fn row_count(id: nat, workers: nat, height: nat) -> nat {
    ((height + workers - 1 - id) / (workers as int)) as nat
}

/// The rows of worker `id`, in increasing order: `id, id + workers, ...`,
/// every one below `height`.
pub open spec fn rows_of(id: nat, workers: nat, height: nat) -> Seq<nat> {
    Seq::new(row_count(id, workers, height), |k: int| (id + k * workers) as nat)
}

proof fn lemma_row_count(id: nat, workers: nat, height: nat, k: nat)
    requires
        id < workers,
    ensures
        k < row_count(id, workers, height) <==> id + k * workers < height,
{
    let n = height + workers - 1 - id;
    assert(n >= 0);
    let q = n / (workers as int);
    assert(q * workers <= n < q * workers + workers) by (nonlinear_arith)
        requires
            q == n / (workers as int),
            workers > 0,
            n >= 0,
    ;
    if k < q {
        assert(k * workers + workers <= q * workers) by (nonlinear_arith)
            requires
                k < q,
                workers > 0,
        ;
    } else {
        assert(q * workers <= k * workers) by (nonlinear_arith)
            requires
                k >= q,
                workers > 0,
        ;
    }
}

/// The rows that worker `id` of `workers` renders for an image `height`
/// rows tall.
pub fn worker_rows(id: u32, workers: u32, height: u32) -> (rows: Vec<u32>)
    requires
        id < workers,
    ensures
        rows@.len() == row_count(id as nat, workers as nat, height as nat),
        forall|k: int|
            0 <= k < rows@.len() ==> rows@[k] as nat == rows_of(
                id as nat,
                workers as nat,
                height as nat,
            )[k],
{
    let mut rows: Vec<u32> = Vec::new();
    let mut y: u64 = id as u64;
    proof {
        lemma_row_count(id as nat, workers as nat, height as nat, 0);
    }
    while y < height as u64
        invariant
            id < workers,
            y == id + rows@.len() * workers,
            forall|k: int| 0 <= k < rows@.len() ==> rows@[k] == id + k * workers,
            rows@.len() <= row_count(id as nat, workers as nat, height as nat),
            y < height as u64 ==> rows@.len() < row_count(id as nat, workers as nat, height as nat),
        decreases height + workers - y,
    {
        rows.push(y as u32);
        y = y + workers as u64;
        proof {
            let k = rows@.len() - 1;
            assert((k + 1) * workers == k * workers + workers) by (nonlinear_arith);
            lemma_row_count(id as nat, workers as nat, height as nat, rows@.len());
        }
    }
    proof {
        lemma_row_count(id as nat, workers as nat, height as nat, rows@.len());
    }
    rows
}

/// Row striping covers the image exactly: row `y` below `height` appears in
/// the rows of worker `y % workers`, at position `y / workers`, and in the
/// rows of no other worker.
pub proof fn lemma_rows_partition(workers: nat, height: nat, y: nat)
    requires
        workers > 0,
        y < height,
    ensures
        y / workers < rows_of(y % workers, workers, height).len(),
        rows_of(y % workers, workers, height)[(y / workers) as int] == y,
        forall|id: nat|
            id < workers ==> (rows_of(id, workers, height).contains(y) <==> id == y % workers),
{
    let w = y % workers;
    let k = y / workers;
    assert(y == w + k * workers) by (nonlinear_arith)
        requires
            w == y % workers,
            k == y / workers,
            workers > 0,
    ;
    lemma_row_count(w, workers, height, k);
    assert forall|id: nat|
        id < workers implies (rows_of(id, workers, height).contains(y) <==> id == w) by {
        if rows_of(id, workers, height).contains(y) {
            let j = choose|j: int|
                0 <= j < rows_of(id, workers, height).len() && rows_of(id, workers, height)[j]
                    == y;
            assert(y == id + j * workers);
            assert(id == w) by (nonlinear_arith)
                requires
                    y == id + j * workers,
                    id < workers,
                    j >= 0,
                    w == y % workers,
                    workers > 0,
            ;
        }
        if id == w {
            assert(rows_of(id, workers, height)[k as int] == y);
        }
    }
}

// ---------------------------------------------------------------------------
// Frame assembly.
// ---------------------------------------------------------------------------

/// One rendered row: its index and its colors, left to right.
pub struct Line<C>(pub u32, pub Vec<C>);

/// The frame `frame` with row `y` (of width `width`) replaced by `row`.
pub open spec fn with_row<C>(frame: Seq<C>, width: nat, y: nat, row: Seq<C>) -> Seq<C> {
    Seq::new(
        frame.len(),
        |i: int|
            if y * width <= i < y * width + width {
                row[i - y * width]
            } else {
                frame[i]
            },
    )
}

/// Writes `row` into row `y` of the row-major frame buffer `frame`.
pub fn place_row<C: Copy>(frame: &mut Vec<C>, width: u32, y: u32, row: &Vec<C>)
    requires
        row@.len() == width,
        (y + 1) * width <= old(frame)@.len(),
    ensures
        final(frame)@ == with_row(old(frame)@, width as nat, y as nat, row@),
{
    let ghost start = y * width;
    assert((y + 1) * width == start + width) by (nonlinear_arith)
        requires
            start == y * width,
    ;
    let len: usize = frame.len();
    assert(start <= len);
    let base: usize = (y as usize) * (width as usize);
    let mut x: usize = 0;
    while x < width as usize
        invariant
            base == start,
            len == old(frame)@.len(),
            len <= usize::MAX,
            start + width <= old(frame)@.len(),
            row@.len() == width,
            x <= width,
            frame@.len() == old(frame)@.len(),
            forall|i: int|
                0 <= i < frame@.len() ==> frame@[i] == if start <= i < start + x {
                    row@[i - start]
                } else {
                    old(frame)@[i]
                },
        decreases width - x,
    {
        frame.set(base + x, row[x]);
        x = x + 1;
    }
    assert(frame@ =~= with_row(old(frame)@, width as nat, y as nat, row@));
}

/// The pixel at column `x` of row `y` in a row-major frame `width` wide.
pub open spec fn pixel<C>(frame: Seq<C>, width: nat, y: int, x: int) -> C {
    frame[y * width + x]
}

/// Whether line `i` of `lines` is the last one in the sequence that carries
/// its row index.
pub open spec fn last_for_row<C>(lines: Seq<Line<C>>, i: int) -> bool {
    forall|j: int| i < j < lines.len() ==> lines[j].0 != lines[i].0
}

/// Whether `line` fits an image `width` pixels wide and `height` rows tall.
pub open spec fn fits<C>(line: Line<C>, width: nat, height: nat) -> bool {
    line.0 < height && line.1@.len() == width
}

/// The position in `lines` of the last line, among the first `n`, that
/// carries row index `y`.
pub open spec fn last_line_for<C>(lines: Seq<Line<C>>, n: int, y: int) -> Option<int>
    decreases n,
{
    if n <= 0 {
        None
    } else if lines[n - 1].0 == y {
        Some(n - 1)
    } else {
        last_line_for(lines, n - 1, y)
    }
}

proof fn lemma_last_line_for<C>(lines: Seq<Line<C>>, n: int, y: int)
    requires
        0 <= n <= lines.len(),
    ensures
        match last_line_for(lines, n, y) {
            Some(i) => 0 <= i < n && lines[i].0 == y && forall|j: int|
                i < j < n ==> lines[j].0 != y,
            None => forall|j: int| 0 <= j < n ==> lines[j].0 != y,
        },
    decreases n,
{
    if n > 0 && lines[n - 1].0 != y {
        lemma_last_line_for(lines, n - 1, y);
    }
}

/// Builds the row-major frame buffer of an image `width` by `height` from the
/// rendered rows in `lines`, which may arrive in any order. Each row holds the
/// colors of the line that carries its index (the last one, if several do);
/// a row that no line carries stays `fill`.
pub fn assemble_frame<C: Copy>(width: u32, height: u32, fill: C, lines: &Vec<Line<C>>) -> (frame:
    Vec<C>)
    requires
        width * height <= usize::MAX,
        forall|i: int|
            0 <= i < lines@.len() ==> fits(#[trigger] lines@[i], width as nat, height as nat),
    ensures
        frame@.len() == width * height,
        forall|i: int, x: int|
            0 <= i < lines@.len() && last_for_row(lines@, i) && 0 <= x < width ==> #[trigger] pixel(
                frame@,
                width as nat,
                lines@[i].0 as int,
                x,
            ) == lines@[i].1@[x],
        forall|y: int, x: int|
            0 <= y < height && 0 <= x < width && (forall|i: int|
                0 <= i < lines@.len() ==> lines@[i].0 != y) ==> #[trigger] pixel(
                frame@,
                width as nat,
                y,
                x,
            ) == fill,
{
    let size: usize = (width as usize) * (height as usize);
    let mut frame: Vec<C> = Vec::new();
    let mut i: usize = 0;
    while i < size
        invariant
            i <= size,
            frame@.len() == i,
            forall|j: int| 0 <= j < i ==> frame@[j] == fill,
        decreases size - i,
    {
        frame.push(fill);
        i = i + 1;
    }
    assert forall|y: int, x: int| 0 <= y < height && 0 <= x < width implies #[trigger] pixel(
        frame@,
        width as nat,
        y,
        x,
    ) == match last_line_for(lines@, 0, y) {
        Some(i) => lines@[i].1@[x],
        None => fill,
    } by {
        lemma_cell_position(width as int, height as int, y, x);
    }
    let mut n: usize = 0;
    while n < lines.len()
        invariant
            n <= lines@.len(),
            size == width * height,
            frame@.len() == size,
            forall|i: int|
                0 <= i < lines@.len() ==> fits(#[trigger] lines@[i], width as nat, height as nat),
            forall|y: int, x: int|
                0 <= y < height && 0 <= x < width ==> #[trigger] pixel(frame@, width as nat, y, x)
                    == match last_line_for(lines@, n as int, y) {
                    Some(i) => lines@[i].1@[x],
                    None => fill,
                },
        decreases lines@.len() - n,
    {
        let line = &lines[n];
        assert(fits(lines@[n as int], width as nat, height as nat));
        assert((line.0 + 1) * width <= width * height) by (nonlinear_arith)
            requires
                line.0 < height,
        ;
        let ghost before = frame@;
        place_row(&mut frame, width, line.0, &line.1);
        assert forall|y: int, x: int| 0 <= y < height && 0 <= x < width implies #[trigger] pixel(frame@, width as nat, y, x) == match last_line_for(lines@, n + 1, y) {
            Some(i) => lines@[i].1@[x],
            None => fill,
        } by {
            lemma_cell_position(width as int, height as int, y, x);
            if y != line.0 {
                lemma_cells_apart(width as int, y, line.0 as int, x);
                assert(pixel(before, width as nat, y, x) == match last_line_for(lines@, n as int, y) {
                    Some(i) => lines@[i].1@[x],
                    None => fill,
                });
            }
        }
        n = n + 1;
    }
    assert forall|i: int, x: int|
        0 <= i < lines@.len() && last_for_row(lines@, i) && 0 <= x < width implies #[trigger] pixel(
        frame@,
        width as nat,
        lines@[i].0 as int,
        x,
    ) == lines@[i].1@[x] by {
        let y = lines@[i].0 as int;
        assert(fits(lines@[i], width as nat, height as nat));
        lemma_last_line_for(lines@, n as int, y);
        assert(pixel(frame@, width as nat, y, x) == match last_line_for(lines@, n as int, y) {
            Some(i) => lines@[i].1@[x],
            None => fill,
        });
    }
    assert forall|y: int, x: int|
        0 <= y < height && 0 <= x < width && (forall|i: int|
            0 <= i < lines@.len() ==> lines@[i].0 != y) implies #[trigger] pixel(
        frame@,
        width as nat,
        y,
        x,
    ) == fill by {
        lemma_last_line_for(lines@, n as int, y);
        assert(pixel(frame@, width as nat, y, x) == match last_line_for(lines@, n as int, y) {
            Some(i) => lines@[i].1@[x],
            None => fill,
        });
    }
    frame
}

// ---------------------------------------------------------------------------
// Progress and reflection depth.
// ---------------------------------------------------------------------------

/// Advances the progress percentage after `n` of `total` rows were
/// collected: returns the new percentage `100 * n / total`, and whether it
/// crossed into a new tenth since `pc`, in which case it is reported.
pub fn update_pc(pc: u32, total: u32, n: u32) -> (r: (u32, bool))
    requires
        total > 0,
        100 * n <= u32::MAX,
    ensures
        r.0 == (100 * n) / (total as int),
        r.1 == (r.0 / 10 > pc / 10),
{
    let new_pc = 100 * n / total;
    (new_pc, new_pc / 10 > pc / 10)
}

/// The depth bound of the reflected ray that a hit casts, or `None` when it
/// casts none: a hit casts one only while the depth bound `depth` is positive
/// and its material reflects (`reflective`), and the bound drops by one per
/// bounce. At depth zero no reflected ray is ever cast.
pub fn next_bounce(depth: u32, reflective: bool) -> (r: Option<u32>)
    ensures
        r == if depth > 0 && reflective {
            Some((depth - 1) as u32)
        } else {
            None::<u32>
        },
        depth == 0 ==> r is None,
        r matches Some(d) ==> d < depth,
{
    if depth > 0 && reflective {
        Some(depth - 1)
    } else {
        None
    }
}

proof fn lemma_cell_position(width: int, height: int, y: int, x: int)
    requires
        0 <= y < height,
        0 <= x < width,
    ensures
        0 <= y * width + x < width * height,
        y * width <= y * width + x < y * width + width,
{
    assert(0 <= y * width + x < width * height) by (nonlinear_arith)
        requires
            0 <= y < height,
            0 <= x < width,
    ;
}

proof fn lemma_cells_apart(width: int, y: int, r: int, x: int)
    requires
        y != r,
        0 <= y,
        0 <= r,
        0 <= x < width,
    ensures
        !(r * width <= y * width + x < r * width + width),
{
    if y < r {
        assert(y * width + width <= r * width) by (nonlinear_arith)
            requires
                y < r,
                width > 0,
        ;
    } else {
        assert(r * width + width <= y * width) by (nonlinear_arith)
            requires
                r < y,
                width > 0,
        ;
    }
}

} // verus!

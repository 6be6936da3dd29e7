use vstd::prelude::*;

verus! {

/// Where the player starts.
pub const SPAWN: char = 'p';
/// The level exit.
pub const GOAL: char = 'g';
/// A cell holding an enemy.
pub const ENEMY: char = 'e';
/// Walkable floor, and what short rows are padded with.
pub const EMPTY: char = ' ';
/// What `cell` reports for any position outside the grid.
pub const OUTSIDE: char = '+';

/// Floor, spawn, goal and enemy cells can be walked through; any other
/// character is wall.
pub open spec fn walkable(c: char) -> bool {
    c == EMPTY || c == SPAWN || c == GOAL || c == ENEMY
}

/// The text cut at every `'\n'`: always one piece more than there are
/// newlines, the last one possibly empty.
pub open spec fn split_lines(t: Seq<char>) -> Seq<Seq<char>>
    decreases t.len(),
{
    if t.len() == 0 {
        seq![Seq::<char>::empty()]
    } else {
        let prev = split_lines(t.drop_last());
        if t.last() == '\n' {
            prev.push(Seq::<char>::empty())
        } else {
            prev.update(prev.len() - 1, prev.last().push(t.last()))
        }
    }
}

/// A line without the carriage returns at its end.
pub open spec fn trim_cr(r: Seq<char>) -> Seq<char>
    decreases r.len(),
{
    if r.len() > 0 && r.last() == '\r' {
        trim_cr(r.drop_last())
    } else {
        r
    }
}

/// The rows without the empty rows at the end.
pub open spec fn drop_blank_tail(rows: Seq<Seq<char>>) -> Seq<Seq<char>>
    decreases rows.len(),
{
    if rows.len() > 0 && rows.last().len() == 0 {
        drop_blank_tail(rows.drop_last())
    } else {
        rows
    }
}

/// Length of the longest row (0 for no rows).
pub open spec fn max_len(rows: Seq<Seq<char>>) -> nat
    decreases rows.len(),
{
    if rows.len() == 0 {
        0
    } else {
        let m = max_len(rows.drop_last());
        if rows.last().len() > m {
            rows.last().len()
        } else {
            m
        }
    }
}

/// A row extended with floor up to `w` cells.
pub open spec fn pad_row(r: Seq<char>, w: nat) -> Seq<char> {
    r + Seq::new((w - r.len()) as nat, |_k: int| EMPTY)
}

/// The rows a maze file describes: its lines, without carriage returns,
/// without the blank lines at the end.
pub open spec fn text_rows(t: Seq<char>) -> Seq<Seq<char>> {
    drop_blank_tail(split_lines(t).map_values(|r: Seq<char>| trim_cr(r)))
}

/// The grid a maze file describes: every row padded to the longest one.
pub open spec fn text_grid(t: Seq<char>) -> Seq<Seq<char>> {
    let rows = text_rows(t);
    rows.map_values(|r: Seq<char>| pad_row(r, max_len(rows)))
}

/// Row-major order of cells `(column, row)`: rows top-down, and left to right
/// inside a row.
pub open spec fn before(a: (usize, usize), b: (usize, usize)) -> bool {
    a.1 < b.1 || (a.1 == b.1 && a.0 < b.0)
}

pub open spec fn rows_view(v: Seq<Vec<char>>) -> Seq<Seq<char>> {
    v.map_values(|r: Vec<char>| r@)
}

pub proof fn lemma_split_nonempty(t: Seq<char>)
    ensures
        split_lines(t).len() >= 1,
    decreases t.len(),
{
    if t.len() > 0 {
        lemma_split_nonempty(t.drop_last());
    }
}

/// Every row fits in `max_len`, and a last row that is not empty makes it
/// positive.
pub proof fn lemma_max_len(rows: Seq<Seq<char>>)
    ensures
        forall|q: int| 0 <= q < rows.len() ==> #[trigger] rows[q].len() <= max_len(rows),
        rows.len() > 0 && rows.last().len() > 0 ==> max_len(rows) > 0,
        rows.len() > 0 ==> exists|q: int| 0 <= q < rows.len() && #[trigger] rows[q].len() == max_len(rows),
    decreases rows.len(),
{
    if rows.len() > 0 {
        let prev = rows.drop_last();
        lemma_max_len(prev);
        assert forall|q: int| 0 <= q < rows.len() implies #[trigger] rows[q].len() <= max_len(rows) by {
            if q < rows.len() - 1 {
                assert(rows[q] == prev[q]);
            }
        }
        if rows.last().len() <= max_len(prev) && prev.len() > 0 {
            let q = choose|q: int| 0 <= q < prev.len() && #[trigger] prev[q].len() == max_len(prev);
            assert(rows[q] == prev[q]);
        }
    }
}

/// Dropping the blank tail keeps a prefix of the rows whose last row, if any,
/// is not empty.
pub proof fn lemma_drop_blank_tail(rows: Seq<Seq<char>>)
    ensures
        drop_blank_tail(rows).len() <= rows.len(),
        drop_blank_tail(rows) == rows.take(drop_blank_tail(rows).len() as int),
        drop_blank_tail(rows).len() > 0 ==> drop_blank_tail(rows).last().len() > 0,
    decreases rows.len(),
{
    if rows.len() > 0 && rows.last().len() == 0 {
        lemma_drop_blank_tail(rows.drop_last());
        assert(rows.drop_last().take(drop_blank_tail(rows).len() as int) =~= rows.take(
            drop_blank_tail(rows).len() as int,
        ));
    } else {
        assert(rows.take(rows.len() as int) =~= rows);
    }
}

fn trim_cr_vec(v: &mut Vec<char>)
    ensures
        final(v)@ == trim_cr(old(v)@),
{
    while v.len() > 0 && v[v.len() - 1] == '\r'
        invariant
            trim_cr(v@) == trim_cr(old(v)@),
        decreases v.len(),
    {
        let ghost before_pop = v@;
        v.pop();
        assert(v@ =~= before_pop.drop_last());
    }
}

/// Cuts the text into lines, each without its trailing carriage returns.
fn split_text(text: &Vec<char>) -> (rows: Vec<Vec<char>>)
    ensures
        rows_view(rows@) == split_lines(text@).map_values(|r: Seq<char>| trim_cr(r)),
{
    let mut rows: Vec<Vec<char>> = Vec::new();
    let mut cur: Vec<char> = Vec::new();
    let n = text.len();
    let mut k: usize = 0;
    proof {
        assert(text@.take(0) =~= Seq::<char>::empty());
    }
    while k < n
        invariant
            k <= n,
            n == text@.len(),
            split_lines(text@.take(k as int)).len() >= 1,
            rows_view(rows@) == split_lines(text@.take(k as int)).drop_last().map_values(
                |r: Seq<char>| trim_cr(r),
            ),
            cur@ == split_lines(text@.take(k as int)).last(),
        decreases n - k,
    {
        let c = text[k];
        let ghost s0 = split_lines(text@.take(k as int));
        let ghost t1 = text@.take(k + 1);
        proof {
            assert(t1.drop_last() =~= text@.take(k as int));
            assert(t1.last() == c);
            lemma_split_nonempty(t1);
        }
        if c == '\n' {
            let ghost old_rows = rows@;
            trim_cr_vec(&mut cur);
            rows.push(cur);
            cur = Vec::new();
            proof {
                let s1 = split_lines(t1);
                assert(s1 == s0.push(Seq::<char>::empty()));
                assert(s1.drop_last() =~= s0);
                assert(s0 =~= s0.drop_last().push(s0.last()));
                assert(rows_view(rows@) =~= rows_view(old_rows).push(trim_cr(s0.last())));
                assert(s0.map_values(|r: Seq<char>| trim_cr(r)) =~= s0.drop_last().map_values(
                    |r: Seq<char>| trim_cr(r),
                ).push(trim_cr(s0.last())));
                assert(cur@ =~= s1.last());
            }
        } else {
            cur.push(c);
            proof {
                let s1 = split_lines(t1);
                assert(s1 == s0.update(s0.len() - 1, s0.last().push(c)));
                assert(s1.drop_last() =~= s0.drop_last());
            }
        }
        k += 1;
    }
    let ghost old_rows = rows@;
    let ghost s0 = split_lines(text@);
    proof {
        assert(text@.take(n as int) =~= text@);
    }
    trim_cr_vec(&mut cur);
    rows.push(cur);
    proof {
        assert(s0 =~= s0.drop_last().push(s0.last()));
        assert(rows_view(rows@) =~= rows_view(old_rows).push(trim_cr(s0.last())));
        assert(s0.map_values(|r: Seq<char>| trim_cr(r)) =~= s0.drop_last().map_values(
            |r: Seq<char>| trim_cr(r),
        ).push(trim_cr(s0.last())));
    }
    rows
}

/// Removes the empty rows at the end.
fn drop_blank_rows(rows: &mut Vec<Vec<char>>)
    ensures
        rows_view(final(rows)@) == drop_blank_tail(rows_view(old(rows)@)),
{
    while rows.len() > 0 && rows[rows.len() - 1].len() == 0
        invariant
            drop_blank_tail(rows_view(rows@)) == drop_blank_tail(rows_view(old(rows)@)),
        decreases rows.len(),
    {
        let ghost before_pop = rows@;
        rows.pop();
        proof {
            assert(rows@ =~= before_pop.drop_last());
            assert(rows_view(rows@) =~= rows_view(before_pop).drop_last());
        }
    }
}

/// Length of the longest row.
fn longest(rows: &Vec<Vec<char>>) -> (w: usize)
    ensures
        w == max_len(rows_view(rows@)),
{
    let mut w: usize = 0;
    let mut k: usize = 0;
    proof {
        assert(rows_view(rows@).take(0) =~= Seq::<Seq<char>>::empty());
    }
    while k < rows.len()
        invariant
            k <= rows@.len(),
            w == max_len(rows_view(rows@).take(k as int)),
        decreases rows@.len() - k,
    {
        proof {
            let v = rows_view(rows@);
            assert(v.take(k + 1).drop_last() =~= v.take(k as int));
            assert(v.take(k + 1).last() == rows@[k as int]@);
        }
        if rows[k].len() > w {
            w = rows[k].len();
        }
        k += 1;
    }
    proof {
        assert(rows_view(rows@).take(rows@.len() as int) =~= rows_view(rows@));
    }
    w
}

/// A copy of `row` padded with floor up to `w` cells.
fn padded(row: &Vec<char>, w: usize) -> (out: Vec<char>)
    requires
        row@.len() <= w,
    ensures
        out@ == pad_row(row@, w as nat),
{
    let mut out: Vec<char> = Vec::new();
    let mut k: usize = 0;
    while k < row.len()
        invariant
            k <= row@.len(),
            out@ == row@.take(k as int),
        decreases row@.len() - k,
    {
        out.push(row[k]);
        k += 1;
        proof {
            assert(out@ =~= row@.take(k as int));
        }
    }
    proof {
        assert(row@.take(row@.len() as int) =~= row@);
    }
    while k < w
        invariant
            row@.len() <= k <= w,
            out@ == row@ + Seq::new((k - row@.len()) as nat, |_q: int| EMPTY),
        decreases w - k,
    {
        out.push(EMPTY);
        k += 1;
        proof {
            assert(out@ =~= row@ + Seq::new((k - row@.len()) as nat, |_q: int| EMPTY));
        }
    }
    out
}

/// A newline at the end of a maze file changes nothing.
pub proof fn lemma_final_newline_ignored(t: Seq<char>)
    ensures
        text_rows(t.push('\n')) == text_rows(t),
        text_grid(t.push('\n')) == text_grid(t),
{
    let t2 = t.push('\n');
    assert(t2.drop_last() =~= t);
    lemma_split_nonempty(t);
    let f = |r: Seq<char>| trim_cr(r);
    let m = split_lines(t).map_values(f);
    assert(split_lines(t2).map_values(f) =~= m.push(Seq::<char>::empty()));
    assert(m.push(Seq::<char>::empty()).drop_last() =~= m);
}

/// A carriage return at the end of a maze file changes nothing: lines may end
/// in `"\r\n"` as well as in `"\n"`.
pub proof fn lemma_final_carriage_return_ignored(t: Seq<char>)
    ensures
        text_rows(t.push('\r')) == text_rows(t),
        text_grid(t.push('\r')) == text_grid(t),
{
    let t2 = t.push('\r');
    assert(t2.drop_last() =~= t);
    lemma_split_nonempty(t);
    let s = split_lines(t);
    let last = s.last();
    assert(last.push('\r').drop_last() =~= last);
    let f = |r: Seq<char>| trim_cr(r);
    assert(split_lines(t2).map_values(f) =~= s.map_values(f));
}

/// The maze as a grid of characters, indexed `(i, j)` = `(column, row)`.
/// Every row has the same length, and the grid is never empty.
pub struct Maze {
    grid: Vec<Vec<char>>,
    width: usize,
    height: usize,
}

impl View for Maze {
    type V = Seq<Seq<char>>;

    closed spec fn view(&self) -> Seq<Seq<char>> {
        rows_view(self.grid@)
    }
}

impl Maze {
    #[verifier::type_invariant]
    pub closed spec fn well_formed(self) -> bool {
        &&& self.grid@.len() == self.height
        &&& forall|j: int| 0 <= j < self.grid@.len() ==> #[trigger] self.grid@[j]@.len() == self.width
        &&& self.width > 0
        &&& self.height > 0
    }

    /// Builds the maze from the text of a maze file: one row per line,
    /// carriage returns at line ends and blank lines at the end of the file
    /// ignored, short rows padded with floor. `None` for a file with no rows.
    pub fn load(text: &Vec<char>) -> (maze: Option<Maze>)
        ensures
            maze is None <==> text_rows(text@).len() == 0,
            maze matches Some(m) ==> {
                &&& m@ == text_grid(text@)
                &&& m.spec_width() == max_len(text_rows(text@))
                &&& m.spec_height() == text_rows(text@).len()
            },
    {
        let mut rows = split_text(text);
        drop_blank_rows(&mut rows);
        let ghost trimmed = rows_view(rows@);
        proof {
            lemma_drop_blank_tail(split_lines(text@).map_values(|r: Seq<char>| trim_cr(r)));
            lemma_max_len(trimmed);
        }
        if rows.len() == 0 {
            return None;
        }
        let width = longest(&rows);
        let mut grid: Vec<Vec<char>> = Vec::new();
        let mut k: usize = 0;
        while k < rows.len()
            invariant
                k <= rows@.len(),
                trimmed == rows_view(rows@),
                width == max_len(trimmed),
                forall|q: int| 0 <= q < trimmed.len() ==> #[trigger] trimmed[q].len() <= max_len(trimmed),
                grid@.len() == k,
                forall|q: int| 0 <= q < k ==> (#[trigger] grid@[q])@ == pad_row(trimmed[q], width as nat),
            decreases rows@.len() - k,
        {
            assert(trimmed[k as int] == rows@[k as int]@);
            let row = padded(&rows[k], width);
            grid.push(row);
            k += 1;
        }
        let height = grid.len();
        let m = Maze { grid, width, height };
        proof {
            assert(rows_view(m.grid@) =~= text_grid(text@));
        }
        Some(m)
    }

    pub closed spec fn spec_width(&self) -> usize {
        self.width
    }

    pub closed spec fn spec_height(&self) -> usize {
        self.height
    }

    /// What a well-formed maze looks like through its view.
    pub proof fn lemma_shape(self)
        requires
            self.well_formed(),
        ensures
            self@.len() == self.spec_height(),
            forall|j: int| 0 <= j < self@.len() ==> #[trigger] self@[j].len() == self.spec_width(),
            self.spec_width() > 0,
            self.spec_height() > 0,
    {
    }

    /// The character at `(i, j)`, or `OUTSIDE` off the grid.
    pub open spec fn spec_cell(&self, i: int, j: int) -> char {
        if 0 <= j < self.spec_height() && 0 <= i < self.spec_width() {
            self@[j][i]
        } else {
            OUTSIDE
        }
    }

    /// Number of columns.
    #[verifier::when_used_as_spec(spec_width)]
    pub fn width(&self) -> (w: usize)
        ensures
            w == self.spec_width(),
            w > 0,
    {
        proof {
            use_type_invariant(self);
        }
        self.width
    }

    /// Every position off the grid reads as wall.
    pub proof fn lemma_outside_is_wall(&self, i: int, j: int)
        requires
            i < 0 || j < 0 || i >= self.spec_width() || j >= self.spec_height(),
        ensures
            self.spec_cell(i, j) == OUTSIDE,
            !walkable(self.spec_cell(i, j)),
    {
    }

    /// No cell of the grid holds `target`.
    pub open spec fn holds_none(&self, target: char) -> bool {
        forall|i: int, j: int|
            0 <= i < self.spec_width() && 0 <= j < self.spec_height() ==> self.spec_cell(i, j)
                != target
    }

    /// `p` is the first cell holding `target` in row-major order.
    pub open spec fn first_holding(&self, target: char, p: (usize, usize)) -> bool {
        &&& p.0 < self.spec_width()
        &&& p.1 < self.spec_height()
        &&& self.spec_cell(p.0 as int, p.1 as int) == target
        &&& forall|i: usize, j: usize|
            #![trigger self.spec_cell(i as int, j as int)]
            i < self.spec_width() && before((i, j), p) ==> self.spec_cell(i as int, j as int)
                != target
    }

    /// `cells` lists every cell holding `target`, each once, in row-major
    /// order.
    pub open spec fn all_holding(&self, target: char, cells: Seq<(usize, usize)>) -> bool {
        &&& forall|k: int|
            0 <= k < cells.len() ==> {
                &&& (#[trigger] cells[k]).0 < self.spec_width()
                &&& cells[k].1 < self.spec_height()
                &&& self.spec_cell(cells[k].0 as int, cells[k].1 as int) == target
            }
        &&& forall|k1: int, k2: int|
            0 <= k1 < k2 < cells.len() ==> before(#[trigger] cells[k1], #[trigger] cells[k2])
        &&& forall|i: usize, j: usize|
            i < self.spec_width() && j < self.spec_height() && #[trigger] self.spec_cell(
                i as int,
                j as int,
            ) == target ==> cells.contains((i, j))
    }

    /// The character at cell `(i, j)`. Anything outside the grid counts as
    /// wall, which is what stops a ray that escapes through a hole in the
    /// border.
    pub fn cell(&self, i: usize, j: usize) -> (c: char)
        ensures
            c == self.spec_cell(i as int, j as int),
    {
        proof {
            use_type_invariant(self);
        }
        if j >= self.height || i >= self.width {
            return OUTSIDE;
        }
        self.grid[j][i]
    }

    /// Whether cell `(i, j)` blocks movement and rays.
    pub fn is_wall(&self, i: usize, j: usize) -> (wall: bool)
        ensures
            wall == !walkable(self.spec_cell(i as int, j as int)),
    {
        let c = self.cell(i, j);
        !(c == EMPTY || c == SPAWN || c == GOAL || c == ENEMY)
    }

    /// The same test, taking a non-negative world position in pixels.
    pub fn is_wall_at_pixel(&self, px: usize, py: usize, block_size: usize) -> (wall: bool)
        requires
            block_size > 0,
        ensures
            wall == !walkable(
                self.spec_cell((px / block_size) as int, (py / block_size) as int),
            ),
    {
        self.is_wall(px / block_size, py / block_size)
    }

    /// The cell that a non-negative world position in pixels falls in.
    pub fn cell_at_pixel(&self, px: usize, py: usize, block_size: usize) -> (cell: (usize, usize))
        requires
            block_size > 0,
        ensures
            cell == (px / block_size, py / block_size),
    {
        (px / block_size, py / block_size)
    }

    /// Width of the maze in pixels.
    pub fn world_width(&self, block_size: usize) -> (w: usize)
        requires
            self.spec_width() * block_size <= usize::MAX,
        ensures
            w == self.spec_width() * block_size,
    {
        self.width() * block_size
    }

    /// Height of the maze in pixels.
    pub fn world_height(&self, block_size: usize) -> (h: usize)
        requires
            self.spec_height() * block_size <= usize::MAX,
        ensures
            h == self.spec_height() * block_size,
    {
        self.height() * block_size
    }

    /// First cell holding `target`, scanning top-down and left to right.
    pub fn find(&self, target: char) -> (found: Option<(usize, usize)>)
        ensures
            found is None ==> self.holds_none(target),
            found matches Some(p) ==> self.first_holding(target, p),
    {
        proof {
            use_type_invariant(self);
        }
        let mut j: usize = 0;
        while j < self.height
            invariant
                self.well_formed(),
                j <= self.height,
                forall|i2: int, j2: int|
                    0 <= i2 < self.width && 0 <= j2 < j ==> self.spec_cell(i2, j2) != target,
            decreases self.height - j,
        {
            let mut i: usize = 0;
            while i < self.width
                invariant
                    self.well_formed(),
                    j < self.height,
                    i <= self.width,
                    forall|i2: int, j2: int|
                        0 <= i2 < self.width && 0 <= j2 < j ==> self.spec_cell(i2, j2) != target,
                    forall|i2: int| 0 <= i2 < i ==> self.spec_cell(i2, j as int) != target,
                decreases self.width - i,
            {
                if self.grid[j][i] == target {
                    return Some((i, j));
                }
                i += 1;
            }
            j += 1;
        }
        None
    }

    /// Every cell holding `target`, in the order `find` scans them.
    pub fn find_all(&self, target: char) -> (found: Vec<(usize, usize)>)
        ensures
            self.all_holding(target, found@),
    {
        proof {
            use_type_invariant(self);
        }
        let mut found: Vec<(usize, usize)> = Vec::new();
        let mut j: usize = 0;
        while j < self.height
            invariant
                self.well_formed(),
                j <= self.height,
                forall|k: int|
                    0 <= k < found@.len() ==> {
                        &&& (#[trigger] found@[k]).0 < self.width
                        &&& found@[k].1 < j
                        &&& self.spec_cell(found@[k].0 as int, found@[k].1 as int) == target
                    },
                forall|k1: int, k2: int|
                    0 <= k1 < k2 < found@.len() ==> before(#[trigger] found@[k1], #[trigger] found@[k2]),
                forall|i2: usize, j2: usize|
                    i2 < self.width && j2 < j && #[trigger] self.spec_cell(i2 as int, j2 as int)
                        == target ==> found@.contains((i2, j2)),
            decreases self.height - j,
        {
            let mut i: usize = 0;
            while i < self.width
                invariant
                    self.well_formed(),
                    j < self.height,
                    i <= self.width,
                    forall|k: int|
                        0 <= k < found@.len() ==> {
                            &&& (#[trigger] found@[k]).0 < self.width
                            &&& found@[k].1 <= j
                            &&& (found@[k].1 == j ==> found@[k].0 < i)
                            &&& self.spec_cell(found@[k].0 as int, found@[k].1 as int) == target
                        },
                    forall|k1: int, k2: int|
                        0 <= k1 < k2 < found@.len() ==> before(#[trigger] found@[k1], #[trigger] found@[k2]),
                    forall|i2: usize, j2: usize|
                        i2 < self.width && j2 < j && #[trigger] self.spec_cell(i2 as int, j2 as int)
                            == target ==> found@.contains((i2, j2)),
                    forall|i2: usize|
                        i2 < i && #[trigger] self.spec_cell(i2 as int, j as int) == target
                            ==> found@.contains((i2, j)),
                decreases self.width - i,
            {
                if self.grid[j][i] == target {
                    let ghost prev = found@;
                    found.push((i, j));
                    proof {
                        assert forall|i2: usize, j2: usize|
                            i2 < self.width && j2 < j && #[trigger] self.spec_cell(
                                i2 as int,
                                j2 as int,
                            ) == target implies found@.contains((i2, j2)) by {
                            let k = choose|k: int| 0 <= k < prev.len() && prev[k] == (i2, j2);
                            assert(found@[k] == (i2, j2));
                        }
                        assert forall|i2: usize|
                            i2 < i + 1 && #[trigger] self.spec_cell(i2 as int, j as int) == target
                                implies found@.contains((i2, j)) by {
                            if i2 < i {
                                let k = choose|k: int| 0 <= k < prev.len() && prev[k] == (i2, j);
                                assert(found@[k] == (i2, j));
                            } else {
                                assert(found@[prev.len() as int] == (i2, j));
                            }
                        }
                    }
                }
                i += 1;
            }
            j += 1;
        }
        found
    }

    /// Number of rows.
    #[verifier::when_used_as_spec(spec_height)]
    pub fn height(&self) -> (h: usize)
        ensures
            h == self.spec_height(),
            h > 0,
    {
        proof {
            use_type_invariant(self);
        }
        self.height
    }
}

} // verus!

//! Which tiles cover a rectangle of the grid, level by level, and in what
//! order they are visited.
//!
//! At each zoom level the rectangle is given by two opposite corners in tile
//! coordinates. The corners may come in any orientation; each axis is put in
//! order on its own. The tiles are visited by zoom level ascending, then by
//! column ascending, then by row ascending, one at a time and without ever
//! being held in memory together.

use vstd::prelude::*;
use vstd::arithmetic::div_mod::lemma_fundamental_div_mod_converse;
use crate::tile::Tile;

verus! {

/// Two opposite corners of a rectangle on the grid: column `ax` and row `ay`
/// of the one, column `bx` and row `by` of the other.
#[derive(Clone, Copy, Debug, PartialEq, Eq, Structural)]
pub struct Corners {
    pub ax: usize,
    pub ay: usize,
    pub bx: usize,
    pub by: usize,
}

/// A rectangle of tiles at one zoom level, bounds inclusive.
///
/// This is what a [`TileRange`] looks like to a contract.
pub struct Rect {
    pub zoom: u8,
    pub min_x: usize,
    pub max_x: usize,
    pub min_y: usize,
    pub max_y: usize,
}

impl Rect {
    /// The rectangle spanned by two corners, each axis ordered on its own.
    pub open spec fn spanning(zoom: u8, corners: Corners) -> Rect {
        Rect {
            zoom,
            min_x: if corners.ax <= corners.bx {
                corners.ax
            } else {
                corners.bx
            },
            max_x: if corners.ax <= corners.bx {
                corners.bx
            } else {
                corners.ax
            },
            min_y: if corners.ay <= corners.by {
                corners.ay
            } else {
                corners.by
            },
            max_y: if corners.ay <= corners.by {
                corners.by
            } else {
                corners.ay
            },
        }
    }

    /// The lower bound of each axis does not exceed the upper one.
    pub open spec fn wf(self) -> bool {
        self.min_x <= self.max_x && self.min_y <= self.max_y
    }

    /// Number of columns.
    pub open spec fn width(self) -> nat {
        (self.max_x - self.min_x + 1) as nat
    }

    /// Number of rows.
    pub open spec fn height(self) -> nat {
        (self.max_y - self.min_y + 1) as nat
    }

    /// Number of tiles: columns times rows.
    pub open spec fn count(self) -> nat {
        self.width() * self.height()
    }

    /// Whether `tile` lies in the rectangle.
    pub open spec fn contains(self, tile: Tile) -> bool {
        &&& tile.z == self.zoom
        &&& self.min_x <= tile.x <= self.max_x
        &&& self.min_y <= tile.y <= self.max_y
    }

    /// The place of the tile in column `x` and row `y` among the rectangle's
    /// tiles: whole columns before it, then the rows above it.
    pub open spec fn index_of(self, x: usize, y: usize) -> int {
        (x - self.min_x) * self.height() + (y - self.min_y)
    }

    /// The tile at place `i`: columns are walked left to right, each column
    /// top to bottom.
    pub open spec fn tile_at(self, i: int) -> Tile {
        Tile {
            x: (self.min_x + i / (self.height() as int)) as usize,
            y: (self.min_y + i % (self.height() as int)) as usize,
            z: self.zoom,
        }
    }

    /// The rectangle's tiles in visiting order.
    pub open spec fn tiles(self) -> Seq<Tile> {
        Seq::new(self.count(), |i: int| self.tile_at(i))
    }
}

/// Whether `a` is visited before `b`: lower zoom first, then lower column,
/// then lower row.
pub open spec fn visited_before(a: Tile, b: Tile) -> bool {
    a.z < b.z || (a.z == b.z && (a.x < b.x || (a.x == b.x && a.y < b.y)))
}

/// Levels as an enumeration holds them: every rectangle in order, and the
/// zoom levels consecutive, starting at 1 or above.
pub open spec fn valid_levels(levels: Seq<Rect>) -> bool {
    &&& forall|i: int| 0 <= i < levels.len() ==> (#[trigger] levels[i]).wf()
    &&& forall|i: int| 0 <= i < levels.len() ==> (#[trigger] levels[i]).zoom == levels[0].zoom + i
    &&& levels.len() > 0 ==> levels[0].zoom >= 1
}

/// The rectangles of consecutive zoom levels from `min_zoom` on, where
/// `corners[i]` holds two opposite corners at zoom level `min_zoom + i`.
pub open spec fn levels_of(min_zoom: u8, corners: Seq<Corners>) -> Seq<Rect> {
    Seq::new(corners.len(), |i: int| Rect::spanning((min_zoom + i) as u8, corners[i]))
}

/// Number of tiles in all levels together.
pub open spec fn total(levels: Seq<Rect>) -> nat
    decreases levels.len(),
{
    if levels.len() == 0 {
        0
    } else {
        total(levels.drop_last()) + levels.last().count()
    }
}

/// The tiles of all levels in visiting order: level after level.
pub open spec fn enumerate(levels: Seq<Rect>) -> Seq<Tile>
    decreases levels.len(),
{
    if levels.len() == 0 {
        Seq::empty()
    } else {
        enumerate(levels.drop_last()) + levels.last().tiles()
    }
}

/// The tile in column `x` and row `y` of a rectangle stands at its
/// `index_of`, which is a valid place.
pub proof fn lemma_index_of(r: Rect, x: usize, y: usize)
    requires
        r.wf(),
        r.min_x <= x <= r.max_x,
        r.min_y <= y <= r.max_y,
    ensures
        0 <= r.index_of(x, y) < r.count(),
        r.tiles()[r.index_of(x, y)] == (Tile { x, y, z: r.zoom }),
{
    let h = r.height() as int;
    let dx = x - r.min_x;
    let dy = y - r.min_y;
    let i = r.index_of(x, y);
    assert(0 <= dx * h) by (nonlinear_arith)
        requires
            0 <= dx,
            0 < h,
    ;
    assert(dx * h + h <= r.width() * h) by (nonlinear_arith)
        requires
            dx + 1 <= r.width(),
            0 < h,
    ;
    lemma_fundamental_div_mod_converse(i, h, dx, dy);
}

/// The tile in the lowest column and the lowest row stands at place 0.
pub proof fn lemma_first_place(r: Rect)
    ensures
        r.index_of(r.min_x, r.min_y) == 0,
{
    assert(0 * r.height() == 0) by (nonlinear_arith);
}

/// Every place of a rectangle holds a tile of the rectangle, and that tile's
/// `index_of` is the place.
pub proof fn lemma_tile_at(r: Rect, i: int)
    requires
        r.wf(),
        0 <= i < r.count(),
    ensures
        r.contains(r.tile_at(i)),
        r.index_of(r.tile_at(i).x, r.tile_at(i).y) == i,
{
    let h = r.height() as int;
    let w = r.width() as int;
    let q = i / h;
    let m = i % h;
    assert(i == h * q + m && 0 <= m < h) by (nonlinear_arith)
        requires
            q == i / h,
            m == i % h,
            0 < h,
    ;
    assert(0 <= q < w) by (nonlinear_arith)
        requires
            i == h * q + m,
            0 <= m < h,
            0 <= i < w * h,
            0 < h,
    ;
    assert(h * q == q * h) by (nonlinear_arith);
}

/// Within one rectangle, an earlier place holds a tile that is visited
/// before the tile of a later place.
pub proof fn lemma_rect_sorted(r: Rect, i: int, j: int)
    requires
        r.wf(),
        0 <= i < j < r.count(),
    ensures
        visited_before(r.tiles()[i], r.tiles()[j]),
{
    lemma_tile_at(r, i);
    lemma_tile_at(r, j);
    let h = r.height() as int;
    let a = r.tile_at(i);
    let b = r.tile_at(j);
    if a.x > b.x {
        assert((a.x - r.min_x) * h >= (b.x - r.min_x) * h + h) by (nonlinear_arith)
            requires
                a.x - r.min_x >= b.x - r.min_x + 1,
                0 < h,
        ;
    }
}

/// Taking one more level adds that level's count.
proof fn lemma_total_step(levels: Seq<Rect>, k: int)
    requires
        0 <= k < levels.len(),
    ensures
        total(levels.take(k + 1)) == total(levels.take(k)) + levels[k].count(),
        enumerate(levels.take(k + 1)) == enumerate(levels.take(k)) + levels[k].tiles(),
{
    assert(levels.take(k + 1).drop_last() =~= levels.take(k));
}

/// The enumeration is as long as the total says.
pub proof fn lemma_enumerate_len(levels: Seq<Rect>)
    ensures
        enumerate(levels).len() == total(levels),
    decreases levels.len(),
{
    if levels.len() > 0 {
        lemma_enumerate_len(levels.drop_last());
    }
}

/// The first levels never hold more tiles than all of them.
proof fn lemma_total_monotonic(levels: Seq<Rect>, k: int)
    requires
        0 <= k <= levels.len(),
    ensures
        total(levels.take(k)) <= total(levels),
    decreases levels.len() - k,
{
    if k == levels.len() {
        assert(levels.take(k) =~= levels);
    } else {
        lemma_total_step(levels, k);
        lemma_total_monotonic(levels, k + 1);
    }
}

/// Place `j` of level `k` is place `total(levels before k) + j` of the
/// enumeration.
pub proof fn lemma_enumerate_index(levels: Seq<Rect>, k: int, j: int)
    requires
        0 <= k < levels.len(),
        0 <= j < levels[k].count(),
    ensures
        total(levels.take(k)) + j < total(levels),
        enumerate(levels)[total(levels.take(k)) + j] == levels[k].tiles()[j],
    decreases levels.len(),
{
    lemma_enumerate_len(levels);
    lemma_enumerate_len(levels.drop_last());
    if k == levels.len() - 1 {
        assert(levels.take(k) =~= levels.drop_last());
    } else {
        lemma_enumerate_index(levels.drop_last(), k, j);
        assert(levels.drop_last().take(k) =~= levels.take(k));
    }
}

/// Every place of the enumeration belongs to one level: there is a level `k`
/// and a place `j` in it with `i == total(levels before k) + j`.
pub proof fn lemma_enumerate_level(levels: Seq<Rect>, i: int) -> (at: (int, int))
    requires
        0 <= i < total(levels),
    ensures
        0 <= at.0 < levels.len(),
        0 <= at.1 < levels[at.0].count(),
        i == total(levels.take(at.0)) + at.1,
        enumerate(levels)[i] == levels[at.0].tiles()[at.1],
    decreases levels.len(),
{
    let front = levels.drop_last();
    lemma_enumerate_len(levels);
    lemma_enumerate_len(front);
    if i < total(front) {
        let at = lemma_enumerate_level(front, i);
        assert(front.take(at.0) =~= levels.take(at.0));
        at
    } else {
        let k = levels.len() - 1;
        assert(levels.take(k) =~= front);
        (k, i - total(front))
    }
}

/// The order of visiting: of two places of an enumeration, the earlier one
/// holds the tile with the lower zoom, or at equal zoom the lower column, or
/// at equal zoom and column the lower row. In particular no tile is visited
/// twice.
pub proof fn lemma_enumerate_sorted(levels: Seq<Rect>, i: int, j: int)
    requires
        valid_levels(levels),
        0 <= i < j < total(levels),
    ensures
        visited_before(enumerate(levels)[i], enumerate(levels)[j]),
{
    let a = lemma_enumerate_level(levels, i);
    let b = lemma_enumerate_level(levels, j);
    lemma_tile_at(levels[a.0], a.1);
    lemma_tile_at(levels[b.0], b.1);
    if a.0 == b.0 {
        lemma_rect_sorted(levels[a.0], a.1, b.1);
    } else if a.0 > b.0 {
        lemma_total_step(levels, b.0);
        lemma_total_monotonic(levels.take(a.0), b.0 + 1);
        assert(levels.take(a.0).take(b.0 + 1) =~= levels.take(b.0 + 1));
    }
}

/// Nothing is left out and nothing is added: a tile is visited exactly if
/// one of the levels contains it.
pub proof fn lemma_enumerate_exact(levels: Seq<Rect>, tile: Tile)
    requires
        valid_levels(levels),
    ensures
        enumerate(levels).contains(tile) <==> exists|k: int|
            0 <= k < levels.len() && (#[trigger] levels[k]).contains(tile),
{
    lemma_enumerate_len(levels);
    if enumerate(levels).contains(tile) {
        let i = choose|i: int| 0 <= i < enumerate(levels).len() && enumerate(levels)[i] == tile;
        let at = lemma_enumerate_level(levels, i);
        lemma_tile_at(levels[at.0], at.1);
        assert(levels[at.0].contains(tile));
    }
    if exists|k: int| 0 <= k < levels.len() && (#[trigger] levels[k]).contains(tile) {
        let k = choose|k: int| 0 <= k < levels.len() && (#[trigger] levels[k]).contains(tile);
        lemma_index_of(levels[k], tile.x, tile.y);
        let j = levels[k].index_of(tile.x, tile.y);
        lemma_enumerate_index(levels, k, j);
        assert(enumerate(levels)[total(levels.take(k)) + j] == tile);
    }
}

/// Enumerating again gives the same: two enumerations of the same levels
/// hold the same tiles in the same order, and where they stand at the same
/// place, the same tiles are still to come.
pub proof fn lemma_restartable(a: Tiles, b: Tiles)
    requires
        a.levels() == b.levels(),
    ensures
        a.sequence() == b.sequence(),
        a.position() == b.position() ==> a.remaining() == b.remaining(),
{
}

/// Two corners in either orientation span a rectangle that is in order and
/// not empty: it holds `(max_x - min_x + 1) * (max_y - min_y + 1)` tiles,
/// both corners among them, and the same tiles whichever corner comes first.
pub proof fn lemma_corners_span(zoom: u8, corners: Corners)
    ensures
        Rect::spanning(zoom, corners).wf(),
        Rect::spanning(zoom, corners).tiles().len() == (Rect::spanning(zoom, corners).max_x
            - Rect::spanning(zoom, corners).min_x + 1) * (Rect::spanning(zoom, corners).max_y
            - Rect::spanning(zoom, corners).min_y + 1),
        Rect::spanning(zoom, corners).tiles().len() >= 1,
        Rect::spanning(zoom, corners).contains(
            Tile { x: corners.ax, y: corners.ay, z: zoom },
        ),
        Rect::spanning(zoom, corners).contains(
            Tile { x: corners.bx, y: corners.by, z: zoom },
        ),
        Rect::spanning(zoom, corners) == Rect::spanning(
            zoom,
            Corners { ax: corners.bx, ay: corners.by, bx: corners.ax, by: corners.ay },
        ),
{
    let r = Rect::spanning(zoom, corners);
    assert(r.width() * r.height() >= 1) by (nonlinear_arith)
        requires
            r.width() >= 1,
            r.height() >= 1,
    ;
}

/// The tiles between two corners at one zoom level.
#[derive(Clone, Copy, Debug, PartialEq, Eq)]
pub struct TileRange {
    zoom: u8,
    min_x: usize,
    max_x: usize,
    min_y: usize,
    max_y: usize,
}

impl View for TileRange {
    type V = Rect;

    closed spec fn view(&self) -> Rect {
        Rect {
            zoom: self.zoom,
            min_x: self.min_x,
            max_x: self.max_x,
            min_y: self.min_y,
            max_y: self.max_y,
        }
    }
}

impl TileRange {
    #[verifier::type_invariant]
    spec fn ordered(&self) -> bool {
        self.min_x <= self.max_x && self.min_y <= self.max_y
    }

    /// The range between two corners at zoom level `zoom`. The corners may
    /// come in any orientation: the columns are put in order, and the rows,
    /// each on their own.
    pub fn from_corners(zoom: u8, corners: Corners) -> (range: TileRange)
        ensures
            range@ == Rect::spanning(zoom, corners),
            range@.wf(),
    {
        let (min_x, max_x) = if corners.ax <= corners.bx {
            (corners.ax, corners.bx)
        } else {
            (corners.bx, corners.ax)
        };
        let (min_y, max_y) = if corners.ay <= corners.by {
            (corners.ay, corners.by)
        } else {
            (corners.by, corners.ay)
        };
        TileRange { zoom, min_x, max_x, min_y, max_y }
    }

    /// The zoom level.
    pub fn zoom(&self) -> (zoom: u8)
        ensures
            zoom == self@.zoom,
    {
        self.zoom
    }

    /// The first tile in visiting order: lowest column, lowest row.
    pub fn first(&self) -> (tile: Tile)
        ensures
            tile == (Tile { x: self@.min_x, y: self@.min_y, z: self@.zoom }),
    {
        Tile { x: self.min_x, y: self.min_y, z: self.zoom }
    }

    /// The last tile in visiting order: highest column, highest row.
    pub fn last(&self) -> (tile: Tile)
        ensures
            tile == (Tile { x: self@.max_x, y: self@.max_y, z: self@.zoom }),
    {
        Tile { x: self.max_x, y: self.max_y, z: self.zoom }
    }

    /// Whether `tile` lies in the range.
    pub fn contains(&self, tile: &Tile) -> (inside: bool)
        ensures
            inside == self@.contains(*tile),
    {
        tile.z == self.zoom && self.min_x <= tile.x && tile.x <= self.max_x && self.min_y
            <= tile.y && tile.y <= self.max_y
    }

    /// The number of tiles, columns times rows, or `None` where that number
    /// does not fit a `usize`.
    pub fn tile_count(&self) -> (count: Option<usize>)
        ensures
            self@.wf(),
            match count {
                Some(n) => n == self@.count(),
                None => self@.count() > usize::MAX,
            },
    {
        proof {
            use_type_invariant(self);
        }
        let ghost w = self@.width();
        let ghost h = self@.height();
        assert(w * h >= w && w * h >= h) by (nonlinear_arith)
            requires
                w >= 1,
                h >= 1,
        ;
        let width = match (self.max_x - self.min_x).checked_add(1) {
            Some(width) => width,
            None => {
                return None;
            },
        };
        let height = match (self.max_y - self.min_y).checked_add(1) {
            Some(height) => height,
            None => {
                return None;
            },
        };
        width.checked_mul(height)
    }
}

/// Where an enumeration stands: the level, and the column and row in it.
#[derive(Clone, Copy, Debug)]
struct Cursor {
    level: usize,
    x: usize,
    y: usize,
}

/// The tiles of a range of zoom levels, handed out one at a time.
///
/// The enumeration holds one [`TileRange`] for each zoom level and a cursor,
/// never the tiles themselves. It can be sent back to its start at any time.
#[derive(Debug)]
pub struct Tiles {
    levels: Vec<TileRange>,
    cursor: Cursor,
}

impl Tiles {
    #[verifier::type_invariant]
    spec fn inv(&self) -> bool {
        &&& valid_levels(self.levels())
        &&& self.cursor.level <= self.levels.len()
        &&& self.cursor.level < self.levels.len() ==> {
            let r = self.levels[self.cursor.level as int]@;
            r.min_x <= self.cursor.x <= r.max_x && r.min_y <= self.cursor.y <= r.max_y
        }
    }

    /// The rectangle of each zoom level, lowest level first.
    pub closed spec fn levels(&self) -> Seq<Rect> {
        self.levels@.map_values(|r: TileRange| r@)
    }

    /// How many tiles have been handed out since the start.
    pub closed spec fn position(&self) -> nat {
        if self.cursor.level < self.levels.len() {
            (total(self.levels().take(self.cursor.level as int)) + self.levels()[self.cursor.level as int].index_of(
                self.cursor.x,
                self.cursor.y,
            )) as nat
        } else {
            total(self.levels())
        }
    }

    /// All tiles of the enumeration in visiting order, from the start.
    pub open spec fn sequence(&self) -> Seq<Tile> {
        enumerate(self.levels())
    }

    /// The tiles that are still to come.
    pub open spec fn remaining(&self) -> Seq<Tile> {
        self.sequence().skip(self.position() as int)
    }

    /// The enumeration of the zoom levels `min_zoom` to `max_zoom`, where
    /// `corners[i]` holds two opposite corners of the area at zoom level
    /// `min_zoom + i`. It stands at its start.
    pub fn new(min_zoom: u8, max_zoom: u8, corners: &Vec<Corners>) -> (tiles: Tiles)
        requires
            1 <= min_zoom <= max_zoom,
            corners.len() == max_zoom - min_zoom + 1,
        ensures
            tiles.levels() == levels_of(min_zoom, corners@),
            valid_levels(tiles.levels()),
            tiles.position() == 0,
    {
        let mut levels: Vec<TileRange> = Vec::new();
        let mut i: usize = 0;
        while i < corners.len()
            invariant
                1 <= min_zoom <= max_zoom,
                corners.len() == max_zoom - min_zoom + 1,
                i <= corners.len(),
                levels.len() == i,
                forall|j: int|
                    0 <= j < i ==> (#[trigger] levels[j])@ == Rect::spanning(
                        (min_zoom + j) as u8,
                        corners[j],
                    ),
            decreases corners.len() - i,
        {
            let zoom: u8 = min_zoom + (i as u8);
            levels.push(TileRange::from_corners(zoom, corners[i]));
            i = i + 1;
        }
        let first = levels[0];
        let tiles = Tiles { levels, cursor: Cursor { level: 0, x: first.min_x, y: first.min_y } };
        proof {
            assert(tiles.levels() =~= levels_of(min_zoom, corners@));
            assert(tiles.levels().take(0) =~= Seq::<Rect>::empty());
            lemma_first_place(first@);
        }
        tiles
    }

    /// Hands out the next tile, or `None` once all have been handed out.
    pub fn next_tile(&mut self) -> (tile: Option<Tile>)
        ensures
            final(self).levels() == old(self).levels(),
            old(self).position() <= old(self).sequence().len(),
            match tile {
                Some(t) => {
                    &&& old(self).position() < old(self).sequence().len()
                    &&& t == old(self).sequence()[old(self).position() as int]
                    &&& final(self).position() == old(self).position() + 1
                },
                None => {
                    &&& old(self).position() == old(self).sequence().len()
                    &&& final(self).position() == old(self).position()
                },
            },
    {
        proof {
            use_type_invariant(&*self);
            lemma_enumerate_len(self.levels());
        }
        let cur = self.cursor;
        let count = self.levels.len();
        if cur.level >= count {
            return None;
        }
        let range = self.levels[cur.level];
        let ghost levels = self.levels();
        let ghost r = range@;
        let ghost here = r.index_of(cur.x, cur.y);
        proof {
            assert(levels[cur.level as int] == r);
            lemma_index_of(r, cur.x, cur.y);
            lemma_enumerate_index(levels, cur.level as int, here);
            lemma_total_step(levels, cur.level as int);
        }
        let tile = Tile { x: cur.x, y: cur.y, z: range.zoom };
        if cur.y < range.max_y {
            self.cursor = Cursor { level: cur.level, x: cur.x, y: cur.y + 1 };
        } else if cur.x < range.max_x {
            self.cursor = Cursor { level: cur.level, x: cur.x + 1, y: range.min_y };
            proof {
                let h = r.height() as int;
                let dx = cur.x - r.min_x;
                assert((dx + 1) * h == dx * h + h) by (nonlinear_arith);
            }
        } else {
            proof {
                let h = r.height() as int;
                let w = r.width() as int;
                assert((w - 1) * h + (h - 1) == w * h - 1) by (nonlinear_arith);
                assert(here == r.count() - 1);
            }
            if cur.level + 1 < count {
                let following = self.levels[cur.level + 1];
                assert(levels[cur.level + 1] == following@);
                self.cursor = Cursor {
                    level: cur.level + 1,
                    x: following.min_x,
                    y: following.min_y,
                };
                proof {
                    lemma_first_place(following@);
                }
            } else {
                self.cursor = Cursor { level: count, x: 0, y: 0 };
                proof {
                    assert(levels.take(cur.level + 1) =~= levels);
                }
            }
        }
        Some(tile)
    }

    /// Sends the enumeration back to its start.
    pub fn rewind(&mut self)
        ensures
            final(self).levels() == old(self).levels(),
            final(self).position() == 0,
    {
        proof {
            use_type_invariant(&*self);
        }
        if self.levels.len() > 0 {
            let first = self.levels[0];
            self.cursor = Cursor { level: 0, x: first.min_x, y: first.min_y };
            proof {
                assert(self.levels().take(0) =~= Seq::<Rect>::empty());
                lemma_first_place(first@);
            }
        }
    }

    /// The number of tiles in all zoom levels together, computed from the
    /// bounds of each level, or `None` where it does not fit a `usize`.
    pub fn tile_count(&self) -> (count: Option<usize>)
        ensures
            match count {
                Some(n) => n == self.sequence().len(),
                None => self.sequence().len() > usize::MAX,
            },
    {
        proof {
            use_type_invariant(self);
            lemma_enumerate_len(self.levels());
        }
        let ghost levels = self.levels();
        let mut sum: usize = 0;
        let mut i: usize = 0;
        while i < self.levels.len()
            invariant
                i <= self.levels.len(),
                levels == self.levels(),
                levels.len() == self.levels.len(),
                self.sequence().len() == total(levels),
                sum == total(levels.take(i as int)),
            decreases self.levels.len() - i,
        {
            proof {
                lemma_total_step(levels, i as int);
                lemma_total_monotonic(levels, i + 1);
            }
            assert(levels[i as int] == self.levels[i as int]@);
            let here = match self.levels[i].tile_count() {
                Some(n) => n,
                None => {
                    return None;
                },
            };
            sum = match sum.checked_add(here) {
                Some(n) => n,
                None => {
                    return None;
                },
            };
            i = i + 1;
        }
        proof {
            assert(levels.take(i as int) =~= levels);
        }
        Some(sum)
    }
}

} // verus!

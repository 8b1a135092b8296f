//! The tile grid.

pub mod generator;
pub mod tile;

use crate::map::tile::Tile;
use vstd::prelude::*;

verus! {

/// A fixed-size grid of tiles, stored row by row.
#[derive(Debug)]
pub struct TileMap {
    pub width: usize,
    pub height: usize,
    /// Row-major: the tile of `(x, y)` sits at `y * width + x`.
    pub tiles: Vec<Tile>,
}

impl TileMap {
    /// The array holds exactly one tile per cell.
    pub open spec fn wf(&self) -> bool {
        self.tiles@.len() == self.width * self.height
    }

    /// The tile at column `x` of row `y`.
    pub open spec fn at(&self, x: int, y: int) -> Tile {
        self.tiles@[y * self.width + x]
    }

    /// Whether `(x, y)` names a cell of this map.
    pub open spec fn in_bounds(&self, x: int, y: int) -> bool {
        0 <= x < self.width && 0 <= y < self.height
    }

    /// Whether `(x, y)` is the first floor tile met when reading the map row
    /// by row, each row left to right.
    pub open spec fn is_first_floor(&self, x: int, y: int) -> bool {
        &&& self.in_bounds(x, y)
        &&& self.at(x, y) == Tile::Floor
        &&& forall|cx: int, cy: int|
            self.in_bounds(cx, cy) && scanned_before(cx, cy, x, y) ==> #[trigger] self.at(cx, cy)
                != Tile::Floor
    }

    /// Whether the map holds no floor tile at all.
    pub open spec fn has_no_floor(&self) -> bool {
        forall|cx: int, cy: int|
            self.in_bounds(cx, cy) ==> #[trigger] self.at(cx, cy) != Tile::Floor
    }
}

/// Row-major order on cells: `(x1, y1)` is read before `(x2, y2)`.
pub open spec fn scanned_before(x1: int, y1: int, x2: int, y2: int) -> bool {
    y1 < y2 || (y1 == y2 && x1 < x2)
}

/// Whether `(x, y)` names a cell of `grid`.
pub open spec fn on_grid(grid: Seq<Seq<Tile>>, x: int, y: int) -> bool {
    0 <= y < grid.len() && 0 <= x < grid[y].len()
}

/// Whether `(x, y)` is a floor cell of `grid`.
pub open spec fn is_floor(grid: Seq<Seq<Tile>>, x: int, y: int) -> bool {
    on_grid(grid, x, y) && grid[y][x] == Tile::Floor
}

/// The grid of `height` rows of `width` cells that holds `fill` everywhere.
pub open spec fn filled_grid(width: usize, height: usize, fill: Tile) -> Seq<Seq<Tile>> {
    Seq::new(height as nat, |y: int| Seq::new(width as nat, |x: int| fill))
}

/// The grid with `tile` at `(x, y)` and every other cell as it was.
pub open spec fn with_tile(grid: Seq<Seq<Tile>>, x: int, y: int, tile: Tile) -> Seq<Seq<Tile>> {
    grid.update(y, grid[y].update(x, tile))
}

impl View for TileMap {
    type V = Seq<Seq<Tile>>;

    /// The rows of the grid, top to bottom, each left to right.
    open spec fn view(&self) -> Seq<Seq<Tile>> {
        Seq::new(
            self.height as nat,
            |y: int| Seq::new(self.width as nat, |x: int| self.at(x, y)),
        )
    }
}

/// `y * width + x` stays inside a `width * height` array for every cell of the grid.
proof fn lemma_cell_index_in_range(width: int, height: int, x: int, y: int)
    requires
        0 <= x < width,
        0 <= y < height,
    ensures
        0 <= y * width,
        0 <= y * width + x < width * height,
        y * width + x < (y + 1) * width,
        (y + 1) * width <= width * height,
{
    assert(y * width >= 0) by (nonlinear_arith)
        requires
            0 <= y,
            0 <= width,
    ;
    assert((y + 1) * width == y * width + width) by (nonlinear_arith);
    assert((y + 1) * width <= height * width) by (nonlinear_arith)
        requires
            y + 1 <= height,
            0 <= width,
    ;
    assert(height * width == width * height) by (nonlinear_arith);
}

/// Two different cells never share a slot of the array.
proof fn lemma_cell_index_injective(width: int, x1: int, y1: int, x2: int, y2: int)
    requires
        0 <= x1 < width,
        0 <= x2 < width,
        0 <= y1,
        0 <= y2,
        y1 * width + x1 == y2 * width + x2,
    ensures
        x1 == x2,
        y1 == y2,
{
    if y1 < y2 {
        assert((y1 + 1) * width <= y2 * width) by (nonlinear_arith)
            requires
                y1 + 1 <= y2,
                0 <= width,
        ;
        assert((y1 + 1) * width == y1 * width + width) by (nonlinear_arith);
    } else if y2 < y1 {
        assert((y2 + 1) * width <= y1 * width) by (nonlinear_arith)
            requires
                y2 + 1 <= y1,
                0 <= width,
        ;
        assert((y2 + 1) * width == y2 * width + width) by (nonlinear_arith);
    }
}

impl Clone for TileMap {
    /// A copy with the same size and the same tile in every cell.
    fn clone(&self) -> (copy: TileMap)
        ensures
            copy.width == self.width,
            copy.height == self.height,
            copy.tiles@ == self.tiles@,
            copy@ == self@,
            self.wf() ==> copy.wf(),
    {
        let tiles = self.tiles.clone();
        assert(tiles@ =~= self.tiles@);
        let copy = TileMap { width: self.width, height: self.height, tiles };
        assert(copy@ =~~= self@);
        copy
    }
}

impl TileMap {
    /// Checks at run time that the array holds one tile per cell.
    pub fn is_well_formed(&self) -> (ok: bool)
        ensures
            ok == self.wf(),
    {
        assert(self.tiles.len() <= usize::MAX);
        match self.width.checked_mul(self.height) {
            Some(cells) => self.tiles.len() == cells,
            None => false,
        }
    }

    /// A `width` by `height` map with `fill` in every cell.
    pub fn new(width: usize, height: usize, fill: Tile) -> (map: TileMap)
        requires
            width * height <= usize::MAX,
        ensures
            map.wf(),
            map.width == width,
            map.height == height,
            map@ == filled_grid(width, height, fill),
    {
        let tiles: Vec<Tile> = vec![fill; width * height];
        let map = TileMap { width, height, tiles };
        assert forall|x: int, y: int| map.in_bounds(x, y) implies #[trigger] map.at(x, y)
            == fill by {
            lemma_cell_index_in_range(width as int, height as int, x, y);
        }
        assert(map@ =~~= filled_grid(width, height, fill));
        map
    }

    /// Reads the tile at `(x, y)`.
    pub fn get(&self, x: usize, y: usize) -> (tile: Tile)
        requires
            self.wf(),
            self.in_bounds(x as int, y as int),
        ensures
            tile == self.at(x as int, y as int),
            tile == self@[y as int][x as int],
    {
        proof {
            lemma_cell_index_in_range(self.width as int, self.height as int, x as int, y as int);
            assert(self.tiles.len() <= usize::MAX);
        }
        self.tiles[y * self.width + x]
    }

    /// Overwrites the tile at `(x, y)` and leaves every other cell alone.
    pub fn set(&mut self, x: usize, y: usize, tile: Tile)
        requires
            old(self).wf(),
            old(self).in_bounds(x as int, y as int),
        ensures
            final(self).wf(),
            final(self).width == old(self).width,
            final(self).height == old(self).height,
            final(self)@ == with_tile(old(self)@, x as int, y as int, tile),
            final(self).at(x as int, y as int) == tile,
            forall|cx: int, cy: int|
                old(self).in_bounds(cx, cy) && (cx != x || cy != y) ==> #[trigger] final(self).at(
                    cx,
                    cy,
                ) == old(self).at(cx, cy),
    {
        proof {
            lemma_cell_index_in_range(self.width as int, self.height as int, x as int, y as int);
            assert(self.tiles.len() <= usize::MAX);
        }
        let i: usize = y * self.width + x;
        self.tiles.set(i, tile);
        assert forall|cx: int, cy: int|
            old(self).in_bounds(cx, cy) && (cx != x || cy != y) implies #[trigger] self.at(cx, cy)
            == old(self).at(cx, cy) by {
            lemma_cell_index_in_range(self.width as int, self.height as int, cx, cy);
            if cy * self.width + cx == y * self.width + x {
                lemma_cell_index_injective(self.width as int, cx, cy, x as int, y as int);
            }
        }
        assert(self@ =~~= with_tile(old(self)@, x as int, y as int, tile));
    }

    /// Whether an entity may stand on `(x, y)`: floor and both kinds of door.
    pub fn is_walkable(&self, x: usize, y: usize) -> (walkable: bool)
        requires
            self.wf(),
            self.in_bounds(x as int, y as int),
        ensures
            walkable == self@[y as int][x as int].walkable(),
    {
        let tile = self.get(x, y);
        tile == Tile::Floor || tile == Tile::DoorForward || tile == Tile::DoorBack
    }

    /// The first floor tile in row-major order, if the map has one.
    pub fn find_first_floor(&self) -> (found: Option<(usize, usize)>)
        requires
            self.wf(),
        ensures
            match found {
                Some((x, y)) => self.is_first_floor(x as int, y as int),
                None => self.has_no_floor(),
            },
    {
        let mut y: usize = 0;
        while y < self.height
            invariant
                self.wf(),
                y <= self.height,
                forall|cx: int, cy: int|
                    self.in_bounds(cx, cy) && cy < y ==> #[trigger] self.at(cx, cy) != Tile::Floor,
            decreases self.height - y,
        {
            let mut x: usize = 0;
            while x < self.width
                invariant
                    self.wf(),
                    y < self.height,
                    x <= self.width,
                    forall|cx: int, cy: int|
                        self.in_bounds(cx, cy) && scanned_before(cx, cy, x as int, y as int)
                            ==> #[trigger] self.at(cx, cy) != Tile::Floor,
                decreases self.width - x,
            {
                if self.get(x, y) == Tile::Floor {
                    return Some((x, y));
                }
                x += 1;
            }
            y += 1;
        }
        None
    }
}

} // verus!

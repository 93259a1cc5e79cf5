use vstd::prelude::*;

use std::rc::Rc;

use crate::save::{as_nats, encode_cells, lemma_save_load_round_trip, load_cells, parsed, save_cells, well_formed, LoadError};
use crate::screen::{composite, Screen};
use crate::sprite::frame_fits;
use crate::texture::Texture;
use crate::types::{Rect, Vec2i};

verus! {

/// Width and height of a tile in pixels, on the map and in the tileset texture.
pub const TILE_SZ: usize = 48;

/// A tile's kind within a tileset.
#[derive(PartialEq, Eq, Clone, Copy, Hash, Debug, Structural)]
pub struct TileID(pub usize);

/// Static behaviour of a tile kind.
#[derive(PartialEq, Eq, Clone, Copy, Hash, Debug, Structural)]
pub struct Tile {
    pub solid: bool,
}

/// Tile kinds and the texture holding their pictures, laid out row by row.
pub struct Tileset {
    pub tiles: Vec<Tile>,
    pub texture: Rc<Texture>,
}

/// Tile pictures per texture row.
pub open spec fn tiles_per_row(t: &Texture) -> int {
    t.spec_width() as int / TILE_SZ as int
}

/// Where the picture of tile `id` lies in the texture.
pub open spec fn tile_frame(t: &Texture, id: int) -> Rect {
    let per_row = tiles_per_row(t);
    Rect {
        x: ((id % per_row) * TILE_SZ) as i32,
        y: ((id / per_row) * TILE_SZ) as i32,
        w: TILE_SZ as u16,
        h: TILE_SZ as u16,
    }
}

impl Tileset {
    /// The texture is addressable by rectangles and holds a picture for every tile.
    pub open spec fn wf(&self) -> bool {
        &&& (*self.texture).wf()
        &&& self.texture.spec_width() <= i32::MAX
        &&& self.texture.spec_height() <= i32::MAX
        &&& self.tiles@.len() <= tiles_per_row(&*self.texture) * (self.texture.spec_height() as int
            / TILE_SZ as int)
    }

    /// The picture of tile `id` lies inside the texture.
    pub proof fn lemma_frame_fits(&self, id: int)
        requires
            self.wf(),
            0 <= id < self.tiles@.len(),
        ensures
            tiles_per_row(&*self.texture) > 0,
            (id / tiles_per_row(&*self.texture) + 1) * 48 <= self.texture.spec_height(),
            (id % tiles_per_row(&*self.texture) + 1) * 48 <= self.texture.spec_width(),
            frame_fits(tile_frame(&*self.texture, id), &*self.texture),
    {
        let t = &*self.texture;
        let per_row = tiles_per_row(t);
        let rows = t.spec_height() as int / 48;
        assert(per_row > 0) by (nonlinear_arith)
            requires
                0 <= id < per_row * rows,
                rows >= 0,
        ;
        assert(id / per_row < rows) by (nonlinear_arith)
            requires
                0 <= id < per_row * rows,
                per_row > 0,
        ;
        assert((id / per_row + 1) * 48 <= t.spec_height()) by (nonlinear_arith)
            requires
                id / per_row < rows,
                rows == t.spec_height() as int / 48,
        ;
        assert((id % per_row + 1) * 48 <= t.spec_width()) by (nonlinear_arith)
            requires
                per_row > 0,
                0 <= id % per_row < per_row,
                per_row == t.spec_width() as int / 48,
        ;
    }

    /// The source rectangle of tile `id`.
    pub fn get_rect(&self, id: TileID) -> (r: Rect)
        requires
            self.wf(),
            id.0 < self.tiles@.len(),
        ensures
            r == tile_frame(&*self.texture, id.0 as int),
            frame_fits(r, &*self.texture),
    {
        proof {
            self.lemma_frame_fits(id.0 as int);
        }
        let (tw, _th) = self.texture.size();
        let per_row = tw / TILE_SZ;
        assert(per_row == tiles_per_row(&*self.texture));
        assert((id.0 / per_row) * 48 <= self.texture.spec_height());
        Rect {
            x: ((id.0 % per_row) * TILE_SZ) as i32,
            y: ((id.0 / per_row) * TILE_SZ) as i32,
            w: TILE_SZ as u16,
            h: TILE_SZ as u16,
        }
    }
}

/// A grid of tile ids over a tileset, row-major, placed at `position` in the world.
pub struct Tilemap {
    position: Vec2i,
    dims: (usize, usize),
    tileset: Rc<Tileset>,
    map: Vec<TileID>,
}

/// Clamps `v` to `0..=hi`.
pub open spec fn clamp(v: int, hi: int) -> int {
    if v < 0 {
        0
    } else if v > hi {
        hi
    } else {
        v
    }
}

impl Tilemap {
    pub closed spec fn cols(&self) -> nat {
        self.dims.0 as nat
    }

    pub closed spec fn rows(&self) -> nat {
        self.dims.1 as nat
    }

    /// World position of the grid's top-left corner.
    pub closed spec fn origin(&self) -> Vec2i {
        self.position
    }

    pub closed spec fn spec_tileset(&self) -> Rc<Tileset> {
        self.tileset
    }

    /// The cells, row-major.
    pub closed spec fn cells(&self) -> Seq<TileID> {
        self.map@
    }

    /// One cell per grid position, each naming a tile of the tileset.
    pub open spec fn wf(&self) -> bool {
        &&& self.cells().len() == self.cols() * self.rows()
        &&& (*self.spec_tileset()).wf()
        &&& forall|i: int|
            0 <= i < self.cells().len() ==> (#[trigger] self.cells()[i]).0 < self.spec_tileset().tiles@.len()
    }

    /// Column of the world point, clamped to the grid.
    pub open spec fn col_of(&self, p: Vec2i) -> int {
        clamp((p.0 - self.origin().0) / TILE_SZ as int, self.cols() - 1)
    }

    /// Row of the world point, clamped to the grid.
    pub open spec fn row_of(&self, p: Vec2i) -> int {
        clamp((p.1 - self.origin().1) / TILE_SZ as int, self.rows() - 1)
    }

    /// Row-major index of the cell under the world point, clamped to the grid.
    pub open spec fn index_of(&self, p: Vec2i) -> int {
        self.row_of(p) * self.cols() + self.col_of(p)
    }

    /// A map of `dims.0` columns and `dims.1` rows holding the given tile ids.
    pub fn new(position: Vec2i, dims: (usize, usize), tileset: Rc<Tileset>, map: Vec<usize>) -> (r:
        Tilemap)
        requires
            map@.len() == dims.0 * dims.1,
            (*tileset).wf(),
            forall|i: int| 0 <= i < map@.len() ==> #[trigger] map@[i] < tileset.tiles@.len(),
        ensures
            r.wf(),
            r.origin() == position,
            r.cols() == dims.0,
            r.rows() == dims.1,
            r.spec_tileset() == tileset,
            r.cells().len() == map@.len(),
            forall|i: int| 0 <= i < map@.len() ==> (#[trigger] r.cells()[i]).0 == map@[i],
    {
        let mut cells: Vec<TileID> = Vec::new();
        let mut i: usize = 0;
        while i < map.len()
            invariant
                i <= map@.len(),
                cells@.len() == i,
                forall|k: int| 0 <= k < i ==> (#[trigger] cells@[k]).0 == map@[k],
            decreases map@.len() - i,
        {
            cells.push(TileID(map[i]));
            i = i + 1;
        }
        Tilemap { position, dims, tileset, map: cells }
    }

    /// World position of the grid's top-left corner.
    pub fn origin_position(&self) -> (r: Vec2i)
        ensures
            r == self.origin(),
    {
        self.position
    }

    /// Number of columns and rows.
    pub fn size(&self) -> (r: (usize, usize))
        ensures
            r.0 == self.cols(),
            r.1 == self.rows(),
    {
        self.dims
    }

    /// The tileset.
    pub fn tileset(&self) -> (r: &Rc<Tileset>)
        ensures
            *r == self.spec_tileset(),
    {
        &self.tileset
    }

    /// The cells, row-major.
    pub fn map(&self) -> (r: &Vec<TileID>)
        ensures
            r@ == self.cells(),
    {
        &self.map
    }

    /// Index of the cell under a world point; points off the grid go to the nearest edge cell.
    pub fn tile_index_at(&self, p: Vec2i) -> (r: usize)
        requires
            self.wf(),
            self.cols() > 0,
            self.rows() > 0,
        ensures
            r == self.index_of(p),
            r < self.cells().len(),
    {
        let (cols, rows) = self.dims;
        let _ = self.map.len();
        let dx: i64 = p.0 as i64 - self.position.0 as i64;
        let dy: i64 = p.1 as i64 - self.position.1 as i64;
        let col: usize = if dx < 0 {
            0
        } else if (dx / TILE_SZ as i64) as usize > cols - 1 {
            cols - 1
        } else {
            (dx / TILE_SZ as i64) as usize
        };
        let row: usize = if dy < 0 {
            0
        } else if (dy / TILE_SZ as i64) as usize > rows - 1 {
            rows - 1
        } else {
            (dy / TILE_SZ as i64) as usize
        };
        proof {
            assert(row * cols + col < cols * rows) by (nonlinear_arith)
                requires
                    row < rows,
                    col < cols,
            ;
        }
        row * cols + col
    }

    /// The tile id under a world point (clamped to the grid).
    pub fn tile_id_at(&self, p: Vec2i) -> (r: TileID)
        requires
            self.wf(),
            self.cols() > 0,
            self.rows() > 0,
        ensures
            r == self.cells()[self.index_of(p)],
    {
        let i = self.tile_index_at(p);
        self.map[i]
    }

    /// Puts tile `id` in cell `index`.
    pub fn set_tile(&mut self, index: usize, id: TileID)
        requires
            old(self).wf(),
            index < old(self).cells().len(),
            id.0 < old(self).spec_tileset().tiles@.len(),
        ensures
            final(self).wf(),
            final(self).cells() == old(self).cells().update(index as int, id),
            final(self).origin() == old(self).origin(),
            final(self).cols() == old(self).cols(),
            final(self).rows() == old(self).rows(),
            final(self).spec_tileset() == old(self).spec_tileset(),
    {
        self.map.set(index, id);
    }

    /// World position of cell `k`'s top-left corner.
    pub open spec fn cell_pos(&self, k: int) -> (int, int) {
        (self.origin().0 + (k % self.cols() as int) * 48, self.origin().1 + (k / self.cols() as int) * 48)
    }

    /// Channel `c` of screen pixel `(px, py)` once cells `0..k` have been drawn, in row-major
    /// order, over `before`.
    pub open spec fn drawn_byte(&self, before: &Screen, k: nat, px: int, py: int, c: int) -> int
        decreases k,
    {
        if k == 0 {
            before.byte_at(px, py, c) as int
        } else {
            let prev = self.drawn_byte(before, (k - 1) as nat, px, py, c);
            let tx = self.cell_pos(k - 1).0 - before.spec_position().0;
            let ty = self.cell_pos(k - 1).1 - before.spec_position().1;
            let tex = &*self.spec_tileset().texture;
            let f = tile_frame(tex, self.cells()[k - 1].0 as int);
            if tx <= px < tx + 48 && ty <= py < ty + 48 {
                composite(tex, f.x + px - tx, f.y + py - ty, c, prev as u8)
            } else {
                prev
            }
        }
    }

    /// Draws every cell, row by row, each at its place on the grid.
    pub fn draw(&self, screen: &mut Screen)
        requires
            self.wf(),
            old(screen).wf(),
            old(screen).spec_depth() == 4,
            self.origin().0 + self.cols() * 48 <= i32::MAX,
            self.origin().1 + self.rows() * 48 <= i32::MAX,
        ensures
            final(screen).wf(),
            final(screen).spec_width() == old(screen).spec_width(),
            final(screen).spec_height() == old(screen).spec_height(),
            final(screen).spec_depth() == old(screen).spec_depth(),
            final(screen).spec_position() == old(screen).spec_position(),
            forall|px: int, py: int, c: int|
                0 <= px < old(screen).spec_width() && 0 <= py < old(screen).spec_height() && 0 <= c < 4
                    ==> #[trigger] final(screen).byte_at(px, py, c) == self.drawn_byte(
                    old(screen),
                    self.cols() * self.rows(),
                    px,
                    py,
                    c,
                ),
    {
        let (cols, rows) = self.dims;
        let ghost pre = *screen;
        let ts = &self.tileset;
        let mut row: usize = 0;
        while row < rows
            invariant
                self.wf(),
                cols == self.cols(),
                rows == self.rows(),
                *ts == self.spec_tileset(),
                self.origin().0 + self.cols() * 48 <= i32::MAX,
                self.origin().1 + self.rows() * 48 <= i32::MAX,
                row <= rows,
                screen.wf(),
                screen.spec_depth() == 4,
                screen.spec_width() == pre.spec_width(),
                screen.spec_height() == pre.spec_height(),
                screen.spec_position() == pre.spec_position(),
                forall|px: int, py: int, c: int|
                    0 <= px < pre.spec_width() && 0 <= py < pre.spec_height() && 0 <= c < 4
                        ==> #[trigger] screen.byte_at(px, py, c) == self.drawn_byte(
                        &pre,
                        (row * cols) as nat,
                        px,
                        py,
                        c,
                    ),
            decreases rows - row,
        {
            let mut col: usize = 0;
            while col < cols
                invariant
                    self.wf(),
                    cols == self.cols(),
                    rows == self.rows(),
                    *ts == self.spec_tileset(),
                    self.origin().0 + self.cols() * 48 <= i32::MAX,
                    self.origin().1 + self.rows() * 48 <= i32::MAX,
                    row < rows,
                    col <= cols,
                    screen.wf(),
                    screen.spec_depth() == 4,
                    screen.spec_width() == pre.spec_width(),
                    screen.spec_height() == pre.spec_height(),
                    screen.spec_position() == pre.spec_position(),
                    forall|px: int, py: int, c: int|
                        0 <= px < pre.spec_width() && 0 <= py < pre.spec_height() && 0 <= c < 4
                            ==> #[trigger] screen.byte_at(px, py, c) == self.drawn_byte(
                            &pre,
                            (row * cols + col) as nat,
                            px,
                            py,
                            c,
                        ),
                decreases cols - col,
            {
                let ghost k = row * cols + col;
                proof {
                    assert(k < cols * rows) by (nonlinear_arith)
                        requires
                            row < rows,
                            col < cols,
                            k == row * cols + col,
                    ;
                    vstd::arithmetic::div_mod::lemma_fundamental_div_mod_converse(
                        k as int,
                        cols as int,
                        row as int,
                        col as int,
                    );
                    assert(row * 48 <= rows * 48) by (nonlinear_arith)
                        requires
                            row < rows,
                    ;
                    assert(col * 48 <= cols * 48) by (nonlinear_arith)
                        requires
                            col < cols,
                    ;
                }
                let _ = self.map.len();
                let id = self.map[row * cols + col];
                let frame = ts.get_rect(id);
                let x: i32 = (self.position.0 as i64 + (col * TILE_SZ) as i64) as i32;
                let y: i32 = (self.position.1 as i64 + (row * TILE_SZ) as i64) as i32;
                let ghost before = *screen;
                screen.bitblt(&ts.texture, frame, Vec2i(x, y));
                proof {
                    assert forall|px: int, py: int, c: int|
                        0 <= px < pre.spec_width() && 0 <= py < pre.spec_height() && 0 <= c < 4
                            implies #[trigger] screen.byte_at(px, py, c) == self.drawn_byte(
                            &pre,
                            (k + 1) as nat,
                            px,
                            py,
                            c,
                        ) by {
                        assert(before.byte_at(px, py, c) == self.drawn_byte(&pre, k as nat, px, py, c));
                    }
                }
                col = col + 1;
            }
            proof {
                assert((row + 1) * cols == row * cols + cols) by (nonlinear_arith);
            }
            row = row + 1;
        }
    }

    /// The cell ids as numbers.
    pub open spec fn cell_ids(&self) -> Seq<usize> {
        self.cells().map_values(|t: TileID| t.0)
    }

    /// The save text of the cells: each id in decimal, row-major, separated by spaces.
    pub fn save(&self) -> (r: Vec<u8>)
        ensures
            r@ == encode_cells(self.cell_ids()),
    {
        let mut ids: Vec<usize> = Vec::new();
        let mut i: usize = 0;
        while i < self.map.len()
            invariant
                i <= self.cells().len(),
                ids@ == self.cell_ids().take(i as int),
            decreases self.cells().len() - i,
        {
            ids.push(self.map[i].0);
            i = i + 1;
            proof {
                assert(ids@ =~= self.cell_ids().take(i as int));
            }
        }
        proof {
            assert(ids@ =~= self.cell_ids());
        }
        save_cells(&ids)
    }

    /// `after` and `r` are what loading `data` into `self` gives: each error exactly when its
    /// condition holds, the parsed ids on success, the cells unchanged on error, and the grid
    /// and tileset kept in any case.
    pub open spec fn loaded(&self, after: &Tilemap, data: Seq<u8>, r: Result<(), LoadError>) -> bool {
        &&& after.wf()
        &&& after.origin() == self.origin()
        &&& after.cols() == self.cols()
        &&& after.rows() == self.rows()
        &&& after.spec_tileset() == self.spec_tileset()
        &&& (r == Err::<(), LoadError>(LoadError::Malformed) <==> !well_formed(data))
        &&& (r == Err::<(), LoadError>(LoadError::UnknownTile) <==> well_formed(data) && exists|i: int|
            0 <= i < parsed(data).len() && #[trigger] parsed(data)[i] >= self.spec_tileset().tiles@.len())
        &&& (r == Err::<(), LoadError>(LoadError::WrongCount) <==> well_formed(data) && (forall|i: int|
            0 <= i < parsed(data).len() ==> #[trigger] parsed(data)[i] < self.spec_tileset().tiles@.len())
            && parsed(data).len() != self.cells().len())
        &&& (r is Ok ==> as_nats(after.cell_ids()) == parsed(data))
        &&& (r is Err ==> after.cells() == self.cells())
    }

    /// Replaces the cells with those of a save text; on any error the map is left unchanged.
    pub fn load(&mut self, data: &Vec<u8>) -> (r: Result<(), LoadError>)
        requires
            old(self).wf(),
        ensures
            old(self).loaded(final(self), data@, r),
    {
        let limit = self.tileset.tiles.len();
        match load_cells(data, limit) {
            Ok(ids) => {
                if ids.len() != self.map.len() {
                    proof {
                        assert(as_nats(ids@).len() == ids@.len());
                    }
                    return Err(LoadError::WrongCount);
                }
                let ghost old_cells = self.map@;
                let mut i: usize = 0;
                while i < ids.len()
                    invariant
                        ids@.len() == self.map@.len(),
                        old_cells.len() == self.map@.len(),
                        i <= ids@.len(),
                        as_nats(ids@) == parsed(data@),
                        forall|k: int| 0 <= k < parsed(data@).len() ==> #[trigger] parsed(data@)[k] < limit,
                        forall|k: int| 0 <= k < i ==> (#[trigger] self.map@[k]).0 == ids@[k],
                        forall|k: int| i <= k < self.map@.len() ==> #[trigger] self.map@[k] == old_cells[k],
                        forall|k: int| 0 <= k < self.map@.len() ==> (#[trigger] self.map@[k]).0 < limit,
                        limit == self.tileset.tiles@.len(),
                        self.dims == old(self).dims,
                        self.position == old(self).position,
                        self.tileset == old(self).tileset,
                        self.map@.len() == self.dims.0 * self.dims.1,
                    decreases ids@.len() - i,
                {
                    proof {
                        assert(as_nats(ids@)[i as int] == ids@[i as int]);
                    }
                    self.map.set(i, TileID(ids[i]));
                    i = i + 1;
                }
                proof {
                    assert(as_nats(self.cell_ids()) =~= as_nats(ids@));
                }
                Ok(())
            },
            Err(e) => Err(e),
        }
    }
}

/// Loading what `save` wrote restores the cells: the text is well formed, holds one id per
/// cell, each naming a tile of the tileset, in the same order.
pub proof fn lemma_tilemap_save_load(m: &Tilemap)
    requires
        m.wf(),
    ensures
        well_formed(encode_cells(m.cell_ids())),
        parsed(encode_cells(m.cell_ids())) == as_nats(m.cell_ids()),
        parsed(encode_cells(m.cell_ids())).len() == m.cells().len(),
        forall|i: int|
            0 <= i < parsed(encode_cells(m.cell_ids())).len() ==> #[trigger] parsed(
                encode_cells(m.cell_ids()),
            )[i] < m.spec_tileset().tiles@.len(),
{
    lemma_save_load_round_trip(m.cell_ids());
    let p = parsed(encode_cells(m.cell_ids()));
    assert forall|i: int| 0 <= i < p.len() implies #[trigger] p[i] < m.spec_tileset().tiles@.len() by {
        assert(p[i] == m.cells()[i].0);
    }
}

/// Loading the save text of `m` into a map `t` with the same tileset and as many cells
/// succeeds and leaves `t` with exactly the cells of `m`.
pub proof fn lemma_load_of_save(m: &Tilemap, t: &Tilemap, after: &Tilemap, r: Result<(), LoadError>)
    requires
        m.wf(),
        t.wf(),
        t.spec_tileset() == m.spec_tileset(),
        t.cells().len() == m.cells().len(),
        t.loaded(after, encode_cells(m.cell_ids()), r),
    ensures
        r is Ok,
        after.cells() == m.cells(),
{
    let data = encode_cells(m.cell_ids());
    lemma_tilemap_save_load(m);
    let p = parsed(data);
    if r is Err {
        let e = r->Err_0;
        assert(r == Err::<(), LoadError>(e));
        match e {
            LoadError::Malformed => {},
            LoadError::UnknownTile => {},
            LoadError::WrongCount => {},
        }
    }
    assert(as_nats(after.cell_ids()) == as_nats(m.cell_ids()));
    assert forall|i: int| 0 <= i < m.cells().len() implies after.cells()[i] == m.cells()[i] by {
        assert(as_nats(after.cell_ids())[i] == as_nats(m.cell_ids())[i]);
    }
    assert(after.cells() =~= m.cells());
}

/// A point `(dx, dy)` inside the tile at `(row, col)` maps back to that tile's cell.
pub proof fn lemma_tile_index_inverts(m: &Tilemap, row: int, col: int, dx: int, dy: int)
    requires
        m.wf(),
        0 <= row < m.rows(),
        0 <= col < m.cols(),
        0 <= dx < 48,
        0 <= dy < 48,
        i32::MIN <= m.origin().0 + col * 48 + dx <= i32::MAX,
        i32::MIN <= m.origin().1 + row * 48 + dy <= i32::MAX,
    ensures
        m.index_of(Vec2i((m.origin().0 + col * 48 + dx) as i32, (m.origin().1 + row * 48 + dy) as i32))
            == row * m.cols() + col,
        m.col_of(Vec2i((m.origin().0 + col * 48 + dx) as i32, (m.origin().1 + row * 48 + dy) as i32))
            == col,
        m.row_of(Vec2i((m.origin().0 + col * 48 + dx) as i32, (m.origin().1 + row * 48 + dy) as i32))
            == row,
{
    vstd::arithmetic::div_mod::lemma_fundamental_div_mod_converse(col * 48 + dx, 48, col, dx);
    vstd::arithmetic::div_mod::lemma_fundamental_div_mod_converse(row * 48 + dy, 48, row, dy);
}

} // verus!

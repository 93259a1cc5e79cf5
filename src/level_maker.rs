use vstd::prelude::*;

use rand::Rng;

verus! {

/// Cells per row of the scrolling map.
pub const MAP_COLS: usize = 64;

/// Rows of sky tiles.
pub const SKY_ROWS: usize = 4;

/// Rows of floor tiles under the sky.
pub const FLOOR_ROWS: usize = 2;

/// Relies on rand::thread_rng and rand::Rng::gen_range: a uniformly drawn value in
/// `[low, high)`; gen_range panics when `low >= high`.
#[verifier::external_body]
fn random_in(low: usize, high: usize) -> (r: usize)
    requires
        low < high,
    ensures
        low <= r < high,
{
    rand::thread_rng().gen_range(low, high)
}

/// A random map: `SKY_ROWS` rows of sky tiles (kinds 0 to 3) over `FLOOR_ROWS` rows of floor
/// tiles (kinds 4 to 7), `MAP_COLS` cells per row, row-major.
pub fn make_map() -> (r: Vec<usize>)
    ensures
        r@.len() == MAP_COLS * (SKY_ROWS + FLOOR_ROWS),
        forall|i: int| 0 <= i < MAP_COLS * SKY_ROWS ==> #[trigger] r@[i] < 4,
        forall|i: int| MAP_COLS * SKY_ROWS <= i < r@.len() ==> 4 <= #[trigger] r@[i] < 8,
{
    let sky_len = MAP_COLS * SKY_ROWS;
    let total = MAP_COLS * (SKY_ROWS + FLOOR_ROWS);
    let mut map: Vec<usize> = Vec::new();
    let mut i: usize = 0;
    while i < total
        invariant
            i <= total,
            sky_len == MAP_COLS * SKY_ROWS,
            total == MAP_COLS * (SKY_ROWS + FLOOR_ROWS),
            map@.len() == i,
            forall|k: int| 0 <= k < i && k < sky_len ==> #[trigger] map@[k] < 4,
            forall|k: int| sky_len <= k < i ==> 4 <= #[trigger] map@[k] < 8,
        decreases total - i,
    {
        let t = if i < sky_len { random_in(0, 4) } else { random_in(4, 8) };
        map.push(t);
        i = i + 1;
    }
    map
}

} // verus!

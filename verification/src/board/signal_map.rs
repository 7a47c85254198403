//! The signal overlay: sources that broadcast in a circle, and for every cell
//! the origins of the sources that reach it.

use vstd::prelude::*;
use crate::board::CoordinatePair;
use crate::board::LocationError;
use crate::board::board_map::BoardMap;
use crate::board::radius::Radius;
use crate::board::board_map::grid_fits;
use crate::board::board_map::grid_len;
use crate::board::board_map::in_grid;
use crate::board::board_map::lemma_coord_in_grid;
use crate::board::board_map::lemma_coord_of_index_of;
use crate::board::board_map::lemma_index_of_coord_of;
use crate::board::signal_model::SignalModel;

verus! {

/// A signal source: where it stands and how far it broadcasts.
#[derive(Clone, Copy, Debug, PartialEq, Eq, Structural)]
pub struct SignalSource {
    pub coord: CoordinatePair,
    pub radius: Radius,
}

impl SignalSource {
    /// Create a new SignalSource at `coord` that broadcasts as far as
    /// `radius`.
    pub fn new(coord: CoordinatePair, radius: Radius) -> (source: SignalSource)
        ensures
            source == (SignalSource { coord, radius }),
    {
        SignalSource { coord, radius }
    }

    /// The source itself.
    pub fn get(&self) -> (source: &SignalSource)
        ensures
            source == self,
    {
        self
    }

    /// The source itself, for changing it.
    pub fn get_mut(&mut self) -> (source: &mut SignalSource)
        ensures
            *source == *old(self),
            *final(self) == *final(source),
    {
        self
    }
}

/// The square of the distance between two cells.
pub open spec fn distance_squared(a: CoordinatePair, b: CoordinatePair) -> int {
    (a.x - b.x) * (a.x - b.x) + (a.y - b.y) * (a.y - b.y)
}

/// Whether a broadcast from `center` with the given radius reaches `target`.
/// A cell at exactly the radius is reached.
pub open spec fn covers(center: CoordinatePair, radius: Radius, target: CoordinatePair) -> bool {
    distance_squared(center, target) <= radius.squared
}

/// The distance between two numbers.
fn gap(a: usize, b: usize) -> (d: usize)
    ensures
        d == if a >= b {
            a - b
        } else {
            b - a
        },
{
    if a >= b {
        a - b
    } else {
        b - a
    }
}

/// The order in which a cell lists the origins that reach it: by column,
/// then by row.
pub open spec fn precedes(a: CoordinatePair, b: CoordinatePair) -> bool {
    a.x < b.x || (a.x == b.x && a.y < b.y)
}

/// Whether `origins` lists its entries in strictly ascending order.
pub open spec fn ascending(origins: Seq<CoordinatePair>) -> bool {
    forall|i: int, j: int|
        0 <= i < j < origins.len() ==> precedes(#[trigger] origins[i], #[trigger] origins[j])
}

/// A set of origins can be listed in ascending order in one way only.
pub proof fn lemma_ascending_unique(first: Seq<CoordinatePair>, second: Seq<CoordinatePair>)
    requires
        ascending(first),
        ascending(second),
        first.to_set() == second.to_set(),
    ensures
        first == second,
    decreases first.len(),
{
    if first.len() == 0 {
        if second.len() > 0 {
            assert(second.to_set().contains(second[0]));
            assert(first.contains(second[0]));
        }
        assert(first =~= second);
    } else {
        let top = first.last();
        assert(first.to_set().contains(top));
        assert(second.contains(top));
        let at = choose|at: int| 0 <= at < second.len() && second[at] == top;
        if at < second.len() - 1 {
            let above = second.last();
            assert(precedes(second[at], above));
            assert(second.to_set().contains(above));
            assert(first.contains(above));
            let found = choose|found: int| 0 <= found < first.len() && first[found] == above;
            if found < first.len() - 1 {
                assert(precedes(first[found], first.last()));
            }
        }
        let first_rest = first.drop_last();
        let second_rest = second.drop_last();
        assert forall|c: CoordinatePair| first_rest.contains(c) <==> second_rest.contains(
            c,
        ) by {
            if first_rest.contains(c) {
                let k = choose|k: int| 0 <= k < first_rest.len() && first_rest[k] == c;
                assert(first[k] == c);
                assert(precedes(first[k], first.last()));
                assert(first.to_set().contains(c));
                assert(second.contains(c));
                let m = choose|m: int| 0 <= m < second.len() && second[m] == c;
                assert(second_rest[m] == c);
            }
            if second_rest.contains(c) {
                let k = choose|k: int| 0 <= k < second_rest.len() && second_rest[k] == c;
                assert(second[k] == c);
                assert(precedes(second[k], second.last()));
                assert(second.to_set().contains(c));
                assert(first.contains(c));
                let m = choose|m: int| 0 <= m < first.len() && first[m] == c;
                assert(first_rest[m] == c);
            }
        }
        assert(first_rest.to_set() =~= second_rest.to_set());
        lemma_ascending_unique(first_rest, second_rest);
        assert(first =~= first_rest.push(top));
        assert(second =~= second_rest.push(top));
    }
}

/// Whether `a` comes before `b` in the order of origins.
fn comes_before(a: &CoordinatePair, b: &CoordinatePair) -> (before: bool)
    ensures
        before == precedes(*a, *b),
{
    a.x < b.x || (a.x == b.x && a.y < b.y)
}

/// A cell of the coverage grid: the origins of all sources whose broadcast
/// reaches the cell. The origins are kept in ascending order, so none
/// occurs twice and two cells with the same origins list them alike.
#[derive(Debug, PartialEq, Eq)]
pub struct Signal {
    pub sources: Vec<CoordinatePair>,
}

impl View for Signal {
    type V = Set<CoordinatePair>;

    /// The set of origins that reach the cell.
    open spec fn view(&self) -> Set<CoordinatePair> {
        self.sources@.to_set()
    }
}

impl Signal {
    /// Whether the origins are listed in strictly ascending order.
    pub open spec fn wf(&self) -> bool {
        ascending(self.sources@)
    }

    /// A cell that no source reaches.
    pub fn new() -> (point: Signal)
        ensures
            point.wf(),
            point@ == Set::<CoordinatePair>::empty(),
            point.sources@.len() == 0,
    {
        let point = Signal { sources: Vec::new() };
        assert(point@ =~= Set::<CoordinatePair>::empty());
        point
    }

    /// The number of leading origins that come before `coord`: the place
    /// where `coord` stands, or would stand, among the origins.
    fn position(&self, coord: &CoordinatePair) -> (at: usize)
        requires
            self.wf(),
        ensures
            at <= self.sources@.len(),
            forall|k: int| 0 <= k < at ==> precedes(#[trigger] self.sources@[k], *coord),
            forall|k: int|
                at <= k < self.sources@.len() ==> !precedes(#[trigger] self.sources@[k], *coord),
    {
        let n = self.sources.len();
        let mut at: usize = 0;
        while at < n
            invariant
                at <= n,
                n == self.sources@.len(),
                self.wf(),
                forall|k: int| 0 <= k < at ==> precedes(#[trigger] self.sources@[k], *coord),
            ensures
                at <= n,
                forall|k: int| 0 <= k < at ==> precedes(#[trigger] self.sources@[k], *coord),
                at < n ==> !precedes(self.sources@[at as int], *coord),
            decreases n - at,
        {
            if !comes_before(&self.sources[at], coord) {
                break ;
            }
            at += 1;
        }
        at
    }

    /// Whether the source at `origin` reaches the cell.
    pub fn contains(&self, origin: &CoordinatePair) -> (found: bool)
        requires
            self.wf(),
        ensures
            found == self@.contains(*origin),
    {
        let at = self.position(origin);
        if at < self.sources.len() && self.sources[at] == *origin {
            true
        } else {
            assert forall|k: int| 0 <= k < self.sources@.len() implies self.sources@[k]
                != *origin by {
                if k > at {
                    assert(precedes(self.sources@[at as int], self.sources@[k]));
                }
            }
            false
        }
    }

    /// Record that the source `src` reaches the cell. Nothing changes if its
    /// origin is already recorded.
    pub fn add_source(point: &mut Signal, src: &SignalSource)
        requires
            old(point).wf(),
        ensures
            final(point).wf(),
            final(point)@ == old(point)@.insert(src.coord),
    {
        let coord = src.coord;
        let at = point.position(&coord);
        if at < point.sources.len() && point.sources[at] == coord {
            assert(point.sources@.contains(coord));
            assert(point@ =~= point@.insert(coord));
        } else {
            let ghost before = point.sources@;
            point.sources.insert(at, coord);
            proof {
                let after = point.sources@;
                before.insert_ensures(at as int, coord);
                assert forall|i: int, j: int| 0 <= i < j < after.len() implies precedes(
                    #[trigger] after[i],
                    #[trigger] after[j],
                ) by {
                    if j < at {
                    } else if j == at {
                    } else {
                        assert(after[j] == before[j - 1]);
                        if i < at {
                            assert(precedes(before[i], before[j - 1]));
                        } else if i == at {
                            if j - 1 > at {
                                assert(precedes(before[at as int], before[j - 1]));
                            }
                        } else {
                            assert(after[i] == before[i - 1]);
                            assert(precedes(before[i - 1], before[j - 1]));
                        }
                    }
                }
                assert forall|c: CoordinatePair| after.contains(c) <==> before.contains(c) || c
                    == coord by {
                    if after.contains(c) {
                        let k = choose|k: int| 0 <= k < after.len() && after[k] == c;
                        if k < at {
                            assert(before[k] == c);
                        } else if k > at {
                            assert(before[k - 1] == c);
                        }
                    }
                    if before.contains(c) {
                        let k = choose|k: int| 0 <= k < before.len() && before[k] == c;
                        if k < at {
                            assert(after[k] == c);
                        } else {
                            assert(after[k + 1] == c);
                        }
                    }
                    if c == coord {
                        assert(after[at as int] == c);
                    }
                }
                assert(point@ =~= before.to_set().insert(coord));
            }
        }
    }

    /// Record that the source `src` no longer reaches the cell. Nothing
    /// changes if its origin is not recorded.
    pub fn remove_source(point: &mut Signal, src: &SignalSource)
        requires
            old(point).wf(),
        ensures
            final(point).wf(),
            final(point)@ == old(point)@.remove(src.coord),
    {
        let coord = src.coord;
        let at = point.position(&coord);
        if at < point.sources.len() && point.sources[at] == coord {
            let ghost before = point.sources@;
            point.sources.remove(at);
            proof {
                let after = point.sources@;
                before.remove_ensures(at as int);
                assert forall|i: int, j: int| 0 <= i < j < after.len() implies precedes(
                    #[trigger] after[i],
                    #[trigger] after[j],
                ) by {
                    let bi = if i < at {
                        i
                    } else {
                        i + 1
                    };
                    let bj = if j < at {
                        j
                    } else {
                        j + 1
                    };
                    assert(after[i] == before[bi]);
                    assert(after[j] == before[bj]);
                    assert(precedes(before[bi], before[bj]));
                }
                assert forall|c: CoordinatePair| after.contains(c) <==> before.contains(c) && c
                    != coord by {
                    if after.contains(c) {
                        let k = choose|k: int| 0 <= k < after.len() && after[k] == c;
                        if k < at {
                            assert(before[k] == c);
                            assert(precedes(before[k], before[at as int]));
                        } else {
                            assert(before[k + 1] == c);
                            assert(precedes(before[at as int], before[k + 1]));
                        }
                    }
                    if before.contains(c) && c != coord {
                        let k = choose|k: int| 0 <= k < before.len() && before[k] == c;
                        if k < at {
                            assert(after[k] == c);
                        } else {
                            assert(after[k - 1] == c);
                        }
                    }
                }
                assert(point@ =~= before.to_set().remove(coord));
            }
        } else {
            proof {
                assert forall|k: int| 0 <= k < point.sources@.len() implies point.sources@[k]
                    != coord by {
                    if k > at {
                        assert(precedes(point.sources@[at as int], point.sources@[k]));
                    }
                }
                assert(point@ =~= point@.remove(coord));
            }
        }
    }
}

/// The box around a circle, cut to the grid, as (top, bottom, left, right):
/// the rows from `top` up to but not including `bottom`, and the columns
/// from `left` up to but not including `right`. Uncut, the box holds every
/// row and column whose distance from the center is at most the reach.
pub open spec fn bounding_box(
    width: usize,
    height: usize,
    center: CoordinatePair,
    radius: Radius,
) -> (int, int, int, int) {
    let reach = radius.spec_reach();
    (
        low_bound(center.y as int, reach),
        high_bound(center.y as int, reach, height as int),
        low_bound(center.x as int, reach),
        high_bound(center.x as int, reach, width as int),
    )
}

/// The first row or column of the box: `center - reach`, but not below 0.
pub open spec fn low_bound(center: int, reach: int) -> int {
    if center - reach > 0 {
        center - reach
    } else {
        0
    }
}

/// The end of the box's rows or columns: one past `center + reach`, but not
/// above `limit`.
pub open spec fn high_bound(center: int, reach: int, limit: int) -> int {
    if center + reach + 1 < limit {
        center + reach + 1
    } else {
        limit
    }
}

/// Whether `target` lies in the box `bounds`.
pub open spec fn in_box(bounds: (int, int, int, int), target: CoordinatePair) -> bool {
    bounds.0 <= target.y < bounds.1 && bounds.2 <= target.x < bounds.3
}

/// Every cell of the grid that a broadcast reaches lies in the bounding box
/// of the broadcast, and every cell of the box lies on the grid.
pub proof fn lemma_box_holds_circle(
    width: usize,
    height: usize,
    center: CoordinatePair,
    radius: Radius,
    target: CoordinatePair,
)
    ensures
        in_grid(width, height, target) && covers(center, radius, target) ==> in_box(
            bounding_box(width, height, center, radius),
            target,
        ),
        in_box(bounding_box(width, height, center, radius), target) ==> in_grid(
            width,
            height,
            target,
        ),
{
    radius.lemma_reach_exists();
    let reach = radius.spec_reach();
    let dx = center.x - target.x;
    let dy = center.y - target.y;
    if covers(center, radius, target) {
        assert(-reach <= dx <= reach && -reach <= dy <= reach) by (nonlinear_arith)
            requires
                dx * dx + dy * dy <= radius.squared,
                radius.squared < (reach + 1) * (reach + 1),
                0 <= reach,
        ;
    }
}

fn low_edge(center: usize, reach: u64) -> (edge: usize)
    ensures
        edge == low_bound(center as int, reach as int),
{
    if center as u64 <= reach {
        0
    } else {
        center - (reach as usize)
    }
}

fn high_edge(center: usize, reach: u64, limit: usize) -> (edge: usize)
    ensures
        edge == high_bound(center as int, reach as int, limit as int),
{
    if center >= limit {
        limit
    } else if reach >= (limit - center - 1) as u64 {
        limit
    } else {
        center + (reach as usize) + 1
    }
}

/// Whether a sweep over the box `bounds`, row by row from the top and from
/// left to right within a row, has passed the cell `target` by the time it
/// stands at column `x` of row `y`.
spec fn swept(bounds: (int, int, int, int), y: int, x: int, target: CoordinatePair) -> bool {
    in_box(bounds, target) && (target.y < y || (target.y == y && target.x < x))
}

/// The origins that the cell `index` records while a sweep that adds or
/// erases the origin of `src` stands at column `x` of row `y`: the cell has
/// been changed if the sweep has passed it and `src` reaches it.
spec fn sweeping(
    before: SignalModel,
    src: SignalSource,
    adding: bool,
    bounds: (int, int, int, int),
    y: int,
    x: int,
    index: int,
) -> Set<CoordinatePair> {
    if swept(bounds, y, x, before.cell(index)) && covers(
        src.coord,
        src.radius,
        before.cell(index),
    ) {
        if adding {
            before.coverage[index].insert(src.coord)
        } else {
            before.coverage[index].remove(src.coord)
        }
    } else {
        before.coverage[index]
    }
}

/// Map of all broadcasts and their range on the board.
pub struct SignalMap {
    width: usize,
    height: usize,
    sources: Vec<Option<SignalSource>>,
    signals: Vec<Signal>,
}

impl View for SignalMap {
    type V = SignalModel;

    /// What the map holds.
    closed spec fn view(&self) -> SignalModel {
        SignalModel {
            width: self.width,
            height: self.height,
            sources: self.sources@,
            coverage: Seq::new(self.signals@.len(), |index: int| self.signals@[index]@),
        }
    }
}

impl BoardMap for SignalMap {
    open spec fn spec_width(&self) -> usize {
        self@.width
    }

    open spec fn spec_height(&self) -> usize {
        self@.height
    }

    fn get_width(&self) -> (width: usize) {
        self.width
    }

    fn get_height(&self) -> (height: usize) {
        self.height
    }
}

impl SignalMap {
    /// Whether both grids have one entry per cell and every cell lists its
    /// origins in order.
    pub closed spec fn shaped(&self) -> bool {
        &&& grid_fits(self.width, self.height)
        &&& self.sources@.len() == grid_len(self.width, self.height)
        &&& self.signals@.len() == grid_len(self.width, self.height)
        &&& forall|index: int|
            0 <= index < self.signals@.len() ==> (#[trigger] self.signals@[index]).wf()
    }

    /// The map is well formed: it is shaped, every source stands on the cell
    /// of its own origin, and every cell records exactly the origins of the
    /// sources that reach it.
    pub open spec fn wf(&self) -> bool {
        self.shaped() && self@.wf()
    }

    /// Create a new SignalMap without any source.
    /// # Arguments
    /// * 'width' - How wide the board is
    /// * 'height' - How tall the board is
    pub fn new(width: usize, height: usize) -> (map: SignalMap)
        requires
            grid_fits(width, height),
        ensures
            map.wf(),
            map@ == SignalModel::empty(width, height),
    {
        let len = width * height;
        let mut new_map = SignalMap {
            width,
            height,
            sources: Vec::with_capacity(len),
            signals: Vec::with_capacity(len),
        };
        let mut i: usize = 0;
        while i < len
            invariant
                i <= len,
                len == grid_len(width, height),
                new_map.width == width,
                new_map.height == height,
                new_map.sources@.len() == i,
                new_map.signals@.len() == i,
                forall|k: int| 0 <= k < i ==> (#[trigger] new_map.sources@[k]) is None,
                forall|k: int|
                    0 <= k < i ==> (#[trigger] new_map.signals@[k]).wf() && new_map.signals@[k]@
                        == Set::<CoordinatePair>::empty(),
            decreases len - i,
        {
            new_map.sources.push(None);
            new_map.signals.push(Signal::new());
            i += 1;
        }
        proof {
            let empty = SignalModel::empty(width, height);
            assert(new_map@.sources =~= empty.sources);
            assert(new_map@.coverage =~= empty.coverage);
            SignalModel::lemma_empty_wf(width, height);
        }
        new_map
    }

    /// Whether `target` is within the circle around `center`: whether the
    /// square of its distance from the center is at most the radius's
    /// square.
    pub fn inside_circle(center: &CoordinatePair, target: &CoordinatePair, radius: Radius) -> (inside:
        bool)
        ensures
            inside == covers(*center, radius, *target),
    {
        let dx = gap(center.x, target.x) as u128;
        let dy = gap(center.y, target.y) as u128;
        let limit = radius.squared as u128;
        assert(dx * dx == (center.x - target.x) * (center.x - target.x)) by (nonlinear_arith)
            requires
                dx == center.x - target.x || dx == target.x - center.x,
        ;
        assert(dy * dy == (center.y - target.y) * (center.y - target.y)) by (nonlinear_arith)
            requires
                dy == center.y - target.y || dy == target.y - center.y,
        ;
        assert(0 <= dx * dx <= u128::MAX && 0 <= dy * dy <= u128::MAX) by (nonlinear_arith)
            requires
                0 <= dx <= u64::MAX,
                0 <= dy <= u64::MAX,
        ;
        let dx_squared: u128 = dx * dx;
        if dx_squared > limit {
            return false;
        }
        let dy_squared: u128 = dy * dy;
        if dy_squared > limit {
            return false;
        }
        dx_squared + dy_squared <= limit
    }

    /// Get the bounding box of a circle, cut to the grid, as
    /// (top, bottom, left, right). The center need not lie on the grid.
    pub fn get_bounding_box(&self, center: &CoordinatePair, radius: Radius) -> (bounds: (
        usize,
        usize,
        usize,
        usize,
    ))
        ensures
            (bounds.0 as int, bounds.1 as int, bounds.2 as int, bounds.3 as int) == bounding_box(
                self.spec_width(),
                self.spec_height(),
                *center,
                radius,
            ),
    {
        let reach = radius.reach();
        let top: usize = low_edge(center.y, reach);
        let bottom: usize = high_edge(center.y, reach, self.height);
        let left: usize = low_edge(center.x, reach);
        let right: usize = high_edge(center.x, reach, self.width);
        (top, bottom, left, right)
    }

    /// Record in every cell that `src` reaches that it does so, or, with
    /// `adding` false, that it no longer does. Only the cells of the circle's
    /// bounding box are looked at, so the work grows with the square of the
    /// radius and not with the size of the grid.
    fn fill_circle(&mut self, src: &SignalSource, adding: bool)
        requires
            old(self).shaped(),
        ensures
            final(self).shaped(),
            final(self)@.width == old(self)@.width,
            final(self)@.height == old(self)@.height,
            final(self)@.sources == old(self)@.sources,
            final(self)@.coverage == (if adding {
                old(self)@.coverage_with(*src)
            } else {
                old(self)@.coverage_without(*src)
            }),
    {
        let center = CoordinatePair::new(src.coord.x, src.coord.y);
        let edges = self.get_bounding_box(&center, src.radius);
        let top = edges.0;
        let bottom = edges.1;
        let left = edges.2;
        let right = edges.3;
        let ghost before = self@;
        let ghost bounds = (top as int, bottom as int, left as int, right as int);
        let mut y = top;
        while y < bottom
            invariant
                top <= y,
                self.shaped(),
                self.width == before.width,
                self.height == before.height,
                self.sources@ == before.sources,
                before.coverage.len() == self.signals@.len(),
                center == src.coord,
                bounds == (top as int, bottom as int, left as int, right as int),
                bounds == bounding_box(self.width, self.height, center, src.radius),
                forall|index: int|
                    0 <= index < self.signals@.len() ==> (#[trigger] self.signals@[index])@
                        == sweeping(before, *src, adding, bounds, y as int, left as int, index),
            decreases bottom - y,
        {
            let mut x = left;
            while x < right
                invariant
                    top <= y < bottom,
                    left <= x,
                    self.shaped(),
                    self.width == before.width,
                    self.height == before.height,
                    self.sources@ == before.sources,
                    before.coverage.len() == self.signals@.len(),
                    center == src.coord,
                    bounds == (top as int, bottom as int, left as int, right as int),
                    bounds == bounding_box(self.width, self.height, center, src.radius),
                    forall|index: int|
                        0 <= index < self.signals@.len() ==> (#[trigger] self.signals@[index])@
                            == sweeping(before, *src, adding, bounds, y as int, x as int, index),
                decreases right - x,
            {
                let target = CoordinatePair { x, y };
                let ghost cells = self.signals@;
                proof {
                    lemma_box_holds_circle(self.width, self.height, center, src.radius, target);
                    lemma_coord_of_index_of(self.width, self.height, target);
                }
                if SignalMap::inside_circle(&center, &target, src.radius) {
                    match self.get_index_from_coord(&target) {
                        Ok(i) => {
                            if adding {
                                Signal::add_source(&mut self.signals[i], src);
                            } else {
                                Signal::remove_source(&mut self.signals[i], src);
                            }
                        },
                        Err(_e) => {},
                    }
                }
                proof {
                    assert forall|index: int| 0 <= index < self.signals@.len() implies (
                    #[trigger] self.signals@[index])@ == sweeping(
                        before,
                        *src,
                        adding,
                        bounds,
                        y as int,
                        x + 1,
                        index,
                    ) by {
                        lemma_index_of_coord_of(self.width, self.height, index);
                        assert(cells[index]@ == sweeping(
                            before,
                            *src,
                            adding,
                            bounds,
                            y as int,
                            x as int,
                            index,
                        ));
                    }
                }
                x += 1;
            }
            proof {
                assert forall|index: int| 0 <= index < self.signals@.len() implies sweeping(
                    before,
                    *src,
                    adding,
                    bounds,
                    y as int,
                    x as int,
                    index,
                ) == sweeping(before, *src, adding, bounds, y + 1, left as int, index) by {}
            }
            y += 1;
        }
        proof {
            let after = self@;
            let goal = if adding {
                before.coverage_with(*src)
            } else {
                before.coverage_without(*src)
            };
            assert forall|index: int| 0 <= index < goal.len() implies after.coverage[index]
                == goal[index] by {
                lemma_coord_in_grid(self.width, self.height, index);
                lemma_box_holds_circle(
                    self.width,
                    self.height,
                    center,
                    src.radius,
                    before.cell(index),
                );
                assert(self.signals@[index]@ == after.coverage[index]);
            }
            assert(after.coverage =~= goal);
        }
    }

    /// Add a new signal source to the map and record its origin in every
    /// cell that it reaches.
    /// # Returns
    /// `OutOfBounds` if the source's origin names no cell, `AlreadyOccupied`
    /// if a source stands there already, or None if successful. The map
    /// changes only on success.
    pub fn add_new_source(&mut self, source: SignalSource) -> (res: Option<LocationError>)
        requires
            old(self).wf(),
        ensures
            final(self).wf(),
            res == old(self)@.add_error(source),
            final(self)@ == old(self)@.add(source),
    {
        proof {
            self@.lemma_add_wf(source);
        }
        match self.get_index_from_coord(&source.coord) {
            Ok(index) => {
                if self.sources[index].is_some() {
                    Some(LocationError::AlreadyOccupied)
                } else {
                    self.fill_circle(&source, true);
                    self.sources[index] = Some(source);
                    None
                }
            },
            Err(e) => Some(e),
        }
    }

    /// Remove a signal source from the map and erase its origin from every
    /// cell that it reaches.
    /// # Returns
    /// The source that was removed if successful, `OutOfBounds` if `coord`
    /// names no cell, `NotOccupied` if no source stands there. The map
    /// changes only on success.
    pub fn remove_source_at_coord(&mut self, coord: &CoordinatePair) -> (res: Result<
        SignalSource,
        LocationError,
    >)
        requires
            old(self).wf(),
        ensures
            final(self).wf(),
            res == old(self)@.lookup(*coord),
            final(self)@ == old(self)@.remove(*coord),
    {
        proof {
            self@.lemma_remove_wf(*coord);
        }
        match self.get_index_from_coord(coord) {
            Ok(index) => {
                match self.sources[index] {
                    Some(src) => {
                        let ghost before = self@;
                        self.sources[index] = None;
                        let ghost cleared = self@;
                        self.fill_circle(&src, false);
                        proof {
                            assert(cleared.coverage_without(src) =~= before.coverage_without(src));
                            assert(self@.sources =~= before.remove(*coord).sources);
                        }
                        Ok(src)
                    },
                    None => Err(LocationError::NotOccupied),
                }
            },
            Err(e) => Err(e),
        }
    }

    /// Get a reference to the source at the provided coordinates.
    /// # Returns
    /// The source at `coord`, `OutOfBounds` if `coord` names no cell, or
    /// `NotOccupied` if no source stands there.
    pub fn get_source_at_coord(&self, coord: &CoordinatePair) -> (res: Result<
        &SignalSource,
        LocationError,
    >)
        requires
            self.wf(),
        ensures
            match res {
                Ok(source) => self@.lookup(*coord) == Ok::<SignalSource, LocationError>(*source),
                Err(e) => self@.lookup(*coord) == Err::<SignalSource, LocationError>(e),
            },
    {
        match self.get_index_from_coord(coord) {
            Ok(index) => {
                match &self.sources[index] {
                    Some(src) => Ok(src),
                    None => Err(LocationError::NotOccupied),
                }
            },
            Err(e) => Err(e),
        }
    }

    /// Get the coverage of the cell at the provided coordinates: the origins
    /// of the sources that reach it, none if no broadcast does.
    /// # Returns
    /// The cell at `coord`, or `OutOfBounds` if `coord` names no cell.
    pub fn coverage_at_coord(&self, coord: &CoordinatePair) -> (res: Result<&Signal, LocationError>)
        requires
            self.wf(),
        ensures
            match res {
                Ok(point) => self@.on_grid(*coord) && point@ == self@.coverage_at(*coord)
                    && point.wf(),
                Err(e) => !self@.on_grid(*coord) && e == LocationError::OutOfBounds,
            },
    {
        match self.get_index_from_coord(coord) {
            Ok(index) => Ok(&self.signals[index]),
            Err(e) => Err(e),
        }
    }

    /// Move a source to a destination coordinate, keeping its radius.
    /// # Arguments
    /// * 'src' - Coordinate of the source to move
    /// * 'dest' - Coordinate to move the source to
    /// # Returns
    /// `OutOfBounds` if either coordinate names no cell, `AlreadyOccupied`
    /// if a source stands at `dest`, `NotOccupied` if none stands at `src`,
    /// or None if successful. The destination is looked at before anything
    /// is removed, and the map changes only on success.
    pub fn move_source_to_coord(&mut self, src: &CoordinatePair, dest: &CoordinatePair) -> (res:
        Option<LocationError>)
        requires
            old(self).wf(),
        ensures
            final(self).wf(),
            res == old(self)@.move_error(*src, *dest),
            final(self)@ == old(self)@.move_source(*src, *dest),
    {
        proof {
            self@.lemma_move_wf(*src, *dest);
        }
        match self.get_index_from_coord(src) {
            Ok(_) => {
                match self.get_index_from_coord(dest) {
                    Ok(dest_index) => {
                        match self.sources[dest_index] {
                            Some(_x) => Some(LocationError::AlreadyOccupied),
                            None => {
                                match self.remove_source_at_coord(src) {
                                    Ok(mut removed_src) => {
                                        removed_src.coord = dest.clone();
                                        proof {
                                            lemma_coord_of_index_of(self.width, self.height, *src);
                                            lemma_coord_of_index_of(self.width, self.height, *dest);
                                        }
                                        self.add_new_source(removed_src);
                                        None
                                    },
                                    Err(e) => Some(e),
                                }
                            },
                        }
                    },
                    Err(e) => Some(e),
                }
            },
            Err(e) => Some(e),
        }
    }

    /// The number of sources on the map, counted cell by cell.
    pub fn num_sources(&self) -> (count: usize)
        requires
            self.wf(),
        ensures
            count == self@.source_count(),
    {
        let ghost occupied = |slot: Option<SignalSource>| slot is Some;
        let mut count: usize = 0;
        let mut index: usize = 0;
        while index < self.sources.len()
            invariant
                index <= self.sources@.len(),
                count <= index,
                occupied == |slot: Option<SignalSource>| slot is Some,
                count == self.sources@.take(index as int).filter(occupied).len(),
            decreases self.sources@.len() - index,
        {
            proof {
                let next = self.sources@.take(index + 1);
                assert(next.drop_last() =~= self.sources@.take(index as int));
                reveal(Seq::filter);
            }
            if self.sources[index].is_some() {
                count += 1;
            }
            index += 1;
        }
        assert(self.sources@.take(index as int) =~= self.sources@);
        count
    }

    /// What the map reports of itself: its width, its height and the number
    /// of sources on it. The sources are counted anew at each call.
    pub fn summary(&self) -> (report: (usize, usize, usize))
        requires
            self.wf(),
        ensures
            report == (self@.width, self@.height, self@.source_count() as usize),
            self@.source_count() <= usize::MAX,
    {
        (self.width, self.height, self.num_sources())
    }

    /// Draw the map as text, row by row from the top: `O` for a source, `#`
    /// for a cell that a broadcast reaches, `~` for any other cell; a blank
    /// between the cells of a row and a line feed at the end of each row.
    pub fn render(&self) -> (text: Vec<char>)
        requires
            self.wf(),
        ensures
            text@ == self@.rendering(),
    {
        let mut text: Vec<char> = Vec::new();
        let len = self.len();
        let mut index: usize = 0;
        while index < len
            invariant
                self.wf(),
                len == self@.len(),
                index <= len,
                text@.len() == 2 * index,
                forall|at: int| 0 <= at < 2 * index ==> text@[at] == self@.rendering()[at],
            decreases len - index,
        {
            let ghost shown = text@;
            let mark = if self.sources[index].is_some() {
                'O'
            } else if self.signals[index].sources.len() > 0 {
                '#'
            } else {
                '~'
            };
            proof {
                let origins = self.signals@[index as int].sources@;
                if origins.len() > 0 {
                    assert(origins.to_set().contains(origins[0]));
                } else {
                    assert(origins.to_set() =~= Set::<CoordinatePair>::empty());
                }
                assert(mark == self@.marker(index as int));
                assert(self.width > 0) by (nonlinear_arith)
                    requires
                        index < self.width * self.height,
                ;
            }
            text.push(mark);
            if index % self.width == self.width - 1 {
                text.push('\n');
            } else {
                text.push(' ');
            }
            proof {
                assert forall|at: int| 0 <= at < 2 * (index + 1) implies text@[at]
                    == self@.rendering()[at] by {
                    if at < 2 * index {
                        assert(text@[at] == shown[at]);
                    }
                }
            }
            index += 1;
        }
        assert(text@ =~= self@.rendering());
        text
    }
}

} // verus!

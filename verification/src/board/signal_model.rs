//! The signal overlay as a mathematical value, the effect of each operation
//! on it, and what holds of those effects.

use vstd::prelude::*;
use crate::board::CoordinatePair;
use crate::board::LocationError;
use crate::board::board_map::coord_of;
use crate::board::board_map::grid_fits;
use crate::board::board_map::grid_len;
use crate::board::board_map::in_grid;
use crate::board::board_map::index_of;
use crate::board::board_map::lemma_coord_of_index_of;
use crate::board::board_map::lemma_index_of_injective;
use crate::board::signal_map::covers;
use crate::board::signal_map::SignalSource;

verus! {

/// What a signal map holds: for every cell, in the order of the linear
/// index, the source that stands on it, if any, and the set of origins whose
/// broadcast reaches it.
pub struct SignalModel {
    pub width: usize,
    pub height: usize,
    pub sources: Seq<Option<SignalSource>>,
    pub coverage: Seq<Set<CoordinatePair>>,
}

impl SignalModel {
    /// The number of cells.
    pub open spec fn len(self) -> int {
        grid_len(self.width, self.height)
    }

    /// Whether `coord` names a cell of the map.
    pub open spec fn on_grid(self, coord: CoordinatePair) -> bool {
        in_grid(self.width, self.height, coord)
    }

    /// The linear index of the cell at `coord`.
    pub open spec fn slot(self, coord: CoordinatePair) -> int {
        index_of(self.width, coord)
    }

    /// The coordinate of the cell with the linear index `index`.
    pub open spec fn cell(self, index: int) -> CoordinatePair {
        coord_of(self.width, index)
    }

    /// The source that stands at `coord`, if one does.
    pub open spec fn source_at(self, coord: CoordinatePair) -> Option<SignalSource> {
        if self.on_grid(coord) {
            self.sources[self.slot(coord)]
        } else {
            None
        }
    }

    /// The origins that reach the cell at `coord`.
    pub open spec fn coverage_at(self, coord: CoordinatePair) -> Set<CoordinatePair> {
        self.coverage[self.slot(coord)]
    }

    /// Whether a source stands at `origin` whose broadcast reaches the cell
    /// with the linear index `index`.
    pub open spec fn reached_from(self, index: int, origin: CoordinatePair) -> bool {
        match self.source_at(origin) {
            Some(source) => covers(origin, source.radius, self.cell(index)),
            None => false,
        }
    }

    /// The footprint of a source: the cells of the map, by linear index,
    /// that its broadcast reaches.
    pub open spec fn footprint(self, source: SignalSource) -> Set<int> {
        Set::new(
            |index: int|
                0 <= index < self.len() && covers(source.coord, source.radius, self.cell(index)),
        )
    }

    /// The number of sources on the map.
    pub open spec fn source_count(self) -> nat {
        self.sources.filter(|slot: Option<SignalSource>| slot is Some).len()
    }

    /// The mark that stands for the cell `index` when the map is drawn:
    /// `O` for a cell that holds a source, `#` for a cell without a source
    /// that some broadcast reaches, `~` for any other cell.
    pub open spec fn marker(self, index: int) -> char {
        if self.sources[index] is Some {
            'O'
        } else if self.coverage[index] != Set::<CoordinatePair>::empty() {
            '#'
        } else {
            '~'
        }
    }

    /// What follows the mark of the cell `index` when the map is drawn: a
    /// line feed after the last cell of a row, a blank after any other.
    pub open spec fn separator(self, index: int) -> char {
        if index % (self.width as int) == self.width - 1 {
            '\n'
        } else {
            ' '
        }
    }

    /// The map drawn as text, row by row from the top and from left to
    /// right within a row: for every cell its mark and then its separator.
    pub open spec fn rendering(self) -> Seq<char> {
        Seq::new(
            (2 * self.len()) as nat,
            |at: int|
                if at % 2 == 0 {
                    self.marker(at / 2)
                } else {
                    self.separator(at / 2)
                },
        )
    }

    /// The map is well formed: both grids have one entry per cell, every
    /// source stands on the cell of its own origin, and every cell records
    /// exactly the origins of the sources that reach it.
    pub open spec fn wf(self) -> bool {
        &&& grid_fits(self.width, self.height)
        &&& self.sources.len() == self.len()
        &&& self.coverage.len() == self.len()
        &&& forall|index: int|
            0 <= index < self.len() ==> (#[trigger] self.sources[index] matches Some(source)
                ==> self.on_grid(source.coord) && self.slot(source.coord) == index)
        &&& forall|index: int, origin: CoordinatePair|
            #![trigger self.coverage[index].contains(origin)]
            #![trigger self.reached_from(index, origin)]
            0 <= index < self.len() ==> (self.coverage[index].contains(origin)
                <==> self.reached_from(index, origin))
    }

    /// The map of the given size without any source.
    pub open spec fn empty(width: usize, height: usize) -> SignalModel {
        SignalModel {
            width,
            height,
            sources: Seq::new(grid_len(width, height) as nat, |index: int| None),
            coverage: Seq::new(grid_len(width, height) as nat, |index: int| Set::empty()),
        }
    }

    /// The coverage grid after `origin` has been recorded in every cell of
    /// the footprint of `source`.
    pub open spec fn coverage_with(self, source: SignalSource) -> Seq<Set<CoordinatePair>> {
        Seq::new(
            self.coverage.len(),
            |index: int|
                if self.footprint(source).contains(index) {
                    self.coverage[index].insert(source.coord)
                } else {
                    self.coverage[index]
                },
        )
    }

    /// The coverage grid after `origin` has been erased from every cell of
    /// the footprint of `source`.
    pub open spec fn coverage_without(self, source: SignalSource) -> Seq<Set<CoordinatePair>> {
        Seq::new(
            self.coverage.len(),
            |index: int|
                if self.footprint(source).contains(index) {
                    self.coverage[index].remove(source.coord)
                } else {
                    self.coverage[index]
                },
        )
    }

    /// Why `source` cannot be added, or `None` if it can: its origin must
    /// name a cell, and that cell must hold no source yet.
    pub open spec fn add_error(self, source: SignalSource) -> Option<LocationError> {
        if !self.on_grid(source.coord) {
            Some(LocationError::OutOfBounds)
        } else if self.sources[self.slot(source.coord)] is Some {
            Some(LocationError::AlreadyOccupied)
        } else {
            None
        }
    }

    /// The map after an attempt to add `source`: unchanged if the attempt
    /// fails; else the source stands on its origin's cell and every cell of
    /// its footprint records its origin.
    pub open spec fn add(self, source: SignalSource) -> SignalModel {
        if self.add_error(source) is Some {
            self
        } else {
            SignalModel {
                width: self.width,
                height: self.height,
                sources: self.sources.update(self.slot(source.coord), Some(source)),
                coverage: self.coverage_with(source),
            }
        }
    }

    /// What looking for a source at `coord` finds: the source that stands
    /// there, or the reason why there is none.
    pub open spec fn lookup(self, coord: CoordinatePair) -> Result<
        SignalSource,
        LocationError,
    > {
        if !self.on_grid(coord) {
            Err(LocationError::OutOfBounds)
        } else {
            match self.sources[self.slot(coord)] {
                Some(source) => Ok(source),
                None => Err(LocationError::NotOccupied),
            }
        }
    }

    /// The map after an attempt to remove the source at `coord`: unchanged
    /// if the attempt fails; else the cell holds no source and no cell of
    /// the source's footprint records its origin.
    pub open spec fn remove(self, coord: CoordinatePair) -> SignalModel {
        match self.lookup(coord) {
            Ok(source) => SignalModel {
                width: self.width,
                height: self.height,
                sources: self.sources.update(self.slot(coord), None),
                coverage: self.coverage_without(source),
            },
            Err(_) => self,
        }
    }

    /// Why the source at `from` cannot be moved to `to`, or `None` if it
    /// can. Both coordinates must name cells; the destination must be free;
    /// and a source must stand at `from`. The destination is looked at
    /// before the source.
    pub open spec fn move_error(self, from: CoordinatePair, to: CoordinatePair) -> Option<
        LocationError,
    > {
        if !self.on_grid(from) || !self.on_grid(to) {
            Some(LocationError::OutOfBounds)
        } else if self.sources[self.slot(to)] is Some {
            Some(LocationError::AlreadyOccupied)
        } else if self.sources[self.slot(from)] is None {
            Some(LocationError::NotOccupied)
        } else {
            None
        }
    }

    /// The map after an attempt to move the source at `from` to `to`:
    /// unchanged if the attempt fails; else the source has been removed and
    /// then added with the new origin and its old radius.
    pub open spec fn move_source(self, from: CoordinatePair, to: CoordinatePair) -> SignalModel {
        if self.move_error(from, to) is Some {
            self
        } else {
            let source = self.sources[self.slot(from)]->Some_0;
            self.remove(from).add(SignalSource { coord: to, radius: source.radius })
        }
    }

    /// The empty map is well formed.
    pub proof fn lemma_empty_wf(width: usize, height: usize)
        requires
            grid_fits(width, height),
        ensures
            Self::empty(width, height).wf(),
    {
        let map = Self::empty(width, height);
        assert forall|index: int, origin: CoordinatePair|
            0 <= index < map.len() implies (map.coverage[index].contains(origin)
            <==> map.reached_from(index, origin)) by {
            if map.on_grid(origin) {
                lemma_coord_of_index_of(width, height, origin);
            }
        }
    }

    /// A source that is stored in a well-formed map has the coordinate of
    /// its cell as its origin.
    pub proof fn lemma_stored_origin(self, coord: CoordinatePair)
        requires
            self.wf(),
            self.source_at(coord) is Some,
        ensures
            self.source_at(coord)->Some_0.coord == coord,
            0 <= self.slot(coord) < self.len(),
    {
        lemma_coord_of_index_of(self.width, self.height, coord);
        let source = self.sources[self.slot(coord)]->Some_0;
        lemma_index_of_injective(self.width, self.height, coord, source.coord);
    }

    /// In a well-formed map, the cell at `coord` records `origin` exactly when
    /// a source stands at `origin` whose broadcast reaches `coord`.
    pub proof fn lemma_coverage_at(self, coord: CoordinatePair, origin: CoordinatePair)
        requires
            self.wf(),
            self.on_grid(coord),
        ensures
            self.coverage_at(coord).contains(origin) <==> (self.source_at(origin) matches Some(
                source,
            ) && covers(origin, source.radius, coord)),
    {
        lemma_coord_of_index_of(self.width, self.height, coord);
        assert(self.coverage[self.slot(coord)].contains(origin) <==> self.reached_from(
            self.slot(coord),
            origin,
        ));
    }

    /// Adding a source keeps a well-formed map well formed.
    pub proof fn lemma_add_wf(self, source: SignalSource)
        requires
            self.wf(),
        ensures
            self.add(source).wf(),
    {
        if self.add_error(source) is None {
            let after = self.add(source);
            let at = self.slot(source.coord);
            lemma_coord_of_index_of(self.width, self.height, source.coord);
            assert forall|index: int, origin: CoordinatePair|
                0 <= index < after.len() implies (after.coverage[index].contains(origin)
                <==> after.reached_from(index, origin)) by {
                assert(self.coverage[index].contains(origin) <==> self.reached_from(index, origin));
                if origin != source.coord && self.on_grid(origin) {
                    if self.slot(origin) == at {
                        lemma_index_of_injective(self.width, self.height, origin, source.coord);
                    }
                    lemma_coord_of_index_of(self.width, self.height, origin);
                }
            }
        }
    }

    /// Removing a source keeps a well-formed map well formed.
    pub proof fn lemma_remove_wf(self, coord: CoordinatePair)
        requires
            self.wf(),
        ensures
            self.remove(coord).wf(),
    {
        if let Ok(source) = self.lookup(coord) {
            let after = self.remove(coord);
            let at = self.slot(coord);
            self.lemma_stored_origin(coord);
            assert forall|index: int, origin: CoordinatePair|
                0 <= index < after.len() implies (after.coverage[index].contains(origin)
                <==> after.reached_from(index, origin)) by {
                assert(self.coverage[index].contains(origin) <==> self.reached_from(index, origin));
                if origin != coord && self.on_grid(origin) {
                    if self.slot(origin) == at {
                        lemma_index_of_injective(self.width, self.height, origin, coord);
                    }
                    lemma_coord_of_index_of(self.width, self.height, origin);
                }
            }
        }
    }

    /// Moving a source keeps a well-formed map well formed.
    pub proof fn lemma_move_wf(self, from: CoordinatePair, to: CoordinatePair)
        requires
            self.wf(),
        ensures
            self.move_source(from, to).wf(),
    {
        if self.move_error(from, to) is None {
            let source = self.sources[self.slot(from)]->Some_0;
            self.lemma_remove_wf(from);
            self.remove(from).lemma_add_wf(SignalSource { coord: to, radius: source.radius });
        }
    }

    /// A move that succeeds leaves the destination holding the source with
    /// its old radius, and the cell it came from free.
    pub proof fn lemma_move_endpoints(self, from: CoordinatePair, to: CoordinatePair)
        requires
            self.wf(),
            self.move_error(from, to) is None,
        ensures
            self.move_source(from, to).source_at(to) == Some(
                SignalSource { coord: to, radius: self.source_at(from)->Some_0.radius },
            ),
            self.move_source(from, to).source_at(from) is None,
    {
        lemma_coord_of_index_of(self.width, self.height, from);
        lemma_coord_of_index_of(self.width, self.height, to);
        if self.slot(from) == self.slot(to) {
            lemma_index_of_injective(self.width, self.height, from, to);
        }
    }

    /// A move onto a cell that holds a source fails with `AlreadyOccupied`
    /// and changes nothing, whatever stands at `from`.
    pub proof fn lemma_move_onto_source(self, from: CoordinatePair, to: CoordinatePair)
        requires
            self.on_grid(from),
            self.on_grid(to),
            self.source_at(to) is Some,
        ensures
            self.move_error(from, to) == Some(LocationError::AlreadyOccupied),
            self.move_source(from, to) == self,
    {
    }

    /// Adding a source and then removing it gives the map back as it was:
    /// every cell records the origins it recorded before, no more and no
    /// fewer, and the same sources stand where they stood.
    pub proof fn lemma_add_then_remove(self, source: SignalSource)
        requires
            self.wf(),
            self.add_error(source) is None,
        ensures
            self.add(source).lookup(source.coord) == Ok::<SignalSource, LocationError>(
                source,
            ),
            self.add(source).remove(source.coord) == self,
    {
        let added = self.add(source);
        let back = added.remove(source.coord);
        lemma_coord_of_index_of(self.width, self.height, source.coord);
        assert(back.sources =~= self.sources);
        assert forall|index: int| 0 <= index < self.coverage.len() implies back.coverage[index]
            == self.coverage[index] by {
            assert(self.coverage[index].contains(source.coord) <==> self.reached_from(
                index,
                source.coord,
            ));
            assert(back.coverage[index] =~= self.coverage[index]);
        }
        assert(back.coverage =~= self.coverage);
    }

    /// Two sources do not disturb each other. With both on the map, every
    /// cell that both reach records both origins; once one of them has been
    /// removed, every such cell still records the origin of the other, and
    /// in no cell has any origin but the removed one been lost.
    pub proof fn lemma_overlap_independent(self, first: SignalSource, second: SignalSource)
        requires
            self.wf(),
            self.add_error(first) is None,
            self.add(first).add_error(second) is None,
        ensures
            forall|index: int|
                #![trigger self.add(first).add(second).coverage[index]]
                self.footprint(first).contains(index) && self.footprint(second).contains(index)
                    ==> self.add(first).add(second).coverage[index].contains(first.coord)
                    && self.add(first).add(second).coverage[index].contains(second.coord),
            self.add(first).add(second).lookup(first.coord) == Ok::<
                SignalSource,
                LocationError,
            >(first),
            forall|index: int|
                #![trigger self.add(first).add(second).remove(first.coord).coverage[index]]
                self.footprint(second).contains(index) ==> self.add(first).add(second).remove(
                    first.coord,
                ).coverage[index].contains(second.coord),
            forall|index: int, origin: CoordinatePair|
                #![trigger self.add(first).add(second).remove(first.coord).coverage[index].contains(origin)]
                0 <= index < self.len() && origin != first.coord ==> (self.add(first).add(
                    second,
                ).remove(first.coord).coverage[index].contains(origin) <==> self.add(first).add(
                    second,
                ).coverage[index].contains(origin)),
            self.add(first).add(second).remove(first.coord) == self.add(second),
    {
        let one = self.add(first);
        let both = one.add(second);
        let rest = both.remove(first.coord);
        lemma_coord_of_index_of(self.width, self.height, first.coord);
        lemma_coord_of_index_of(self.width, self.height, second.coord);
        if self.slot(first.coord) == self.slot(second.coord) {
            lemma_index_of_injective(self.width, self.height, first.coord, second.coord);
        }
        assert(first.coord != second.coord);
        assert(self.add_error(second) is None);
        let other = self.add(second);
        assert(rest.sources =~= other.sources);
        assert forall|index: int| 0 <= index < self.coverage.len() implies rest.coverage[index]
            == other.coverage[index] by {
            assert(self.coverage[index].contains(first.coord) <==> self.reached_from(
                index,
                first.coord,
            ));
            assert(rest.coverage[index] =~= other.coverage[index]);
        }
        assert(rest.coverage =~= other.coverage);
    }
}

} // verus!

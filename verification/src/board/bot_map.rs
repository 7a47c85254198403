//! The occupancy overlay: which bot stands on which cell, and which way it
//! faces. A cell holds one bot at most.

use vstd::prelude::*;
use crate::board::LocationError;
use crate::board::board_map::BoardMap;
use crate::board::board_map::grid_fits;
use crate::board::board_map::grid_len;
use crate::board::CoordinatePair;
use crate::kilobot::Kilobot;

verus! {

/// Struct representing a space that a Kilobot occupies.
/// # Fields
/// * 'bot' - Kilobot at this location
/// * 'facing' - The current angle of the bot in degrees clockwise from
///   north, so that 0 is north
#[derive(Debug, PartialEq, Eq)]
pub struct BotLocation {
    pub bot: Kilobot,
    pub facing: u16,
}

impl BotLocation {
    /// Create a location that holds `bot` facing `facing` degrees clockwise
    /// from north.
    pub fn new(bot: Kilobot, facing: u16) -> (location: BotLocation)
        ensures
            location == (BotLocation { bot, facing }),
    {
        BotLocation { bot, facing }
    }

    /// Return an immutable reference to the bot in the location.
    /// Allows accessing the bot functions, but cannot change bot values.
    pub fn bot(&self) -> (bot: &Kilobot)
        ensures
            *bot == self.bot,
    {
        &self.bot
    }

    /// Return a mutable reference to the bot in the location.
    /// Allows accessing the bot functions and changing bot values. The
    /// facing stays as it is.
    pub fn bot_mut(&mut self) -> (bot: &mut Kilobot)
        ensures
            *bot == old(self).bot,
            final(self).bot == *final(bot),
            final(self).facing == old(self).facing,
    {
        &mut self.bot
    }

    /// Return the facing of the bot in the location: its rotation in
    /// degrees clockwise away from north.
    pub fn get_facing(&self) -> (facing: u16)
        ensures
            facing == self.facing,
    {
        self.facing
    }

    /// Sets the facing of the bot in the location in degrees clockwise from
    /// north. Any angle is taken: the facing becomes the angle in
    /// 0..360 that points the same way.
    pub fn set_facing(&mut self, new_facing: i16)
        ensures
            final(self).facing == (new_facing as int) % 360,
            final(self).bot == old(self).bot,
    {
        let turned: i16 = new_facing % 360;
        if turned < 0 {
            self.facing = (turned + 360) as u16
        } else {
            self.facing = turned as u16
        }
    }
}

/// Why nothing can be placed on the cell `index`, or `None` if something
/// can: the index must name a cell, and the cell must be free.
pub open spec fn placement_error(cells: Seq<Option<BotLocation>>, index: int) -> Option<
    LocationError,
> {
    if !(0 <= index < cells.len()) {
        Some(LocationError::OutOfBounds)
    } else if cells[index] is Some {
        Some(LocationError::AlreadyOccupied)
    } else {
        None
    }
}

/// The cells after an attempt to place `location` on the cell `index`:
/// unchanged if the attempt fails.
pub open spec fn after_placement(
    cells: Seq<Option<BotLocation>>,
    location: BotLocation,
    index: int,
) -> Seq<Option<BotLocation>> {
    if placement_error(cells, index) is Some {
        cells
    } else {
        cells.update(index, Some(location))
    }
}

/// What stands on the cell `index`: its occupant, or the reason why there
/// is none.
pub open spec fn occupant_at(cells: Seq<Option<BotLocation>>, index: int) -> Result<
    BotLocation,
    LocationError,
> {
    if !(0 <= index < cells.len()) {
        Err(LocationError::OutOfBounds)
    } else {
        match cells[index] {
            Some(location) => Ok(location),
            None => Err(LocationError::NotOccupied),
        }
    }
}

/// The cells after an attempt to remove the occupant of the cell `index`:
/// unchanged if the attempt fails.
pub open spec fn after_removal(cells: Seq<Option<BotLocation>>, index: int) -> Seq<
    Option<BotLocation>,
> {
    if occupant_at(cells, index) is Ok {
        cells.update(index, None)
    } else {
        cells
    }
}

/// The number of cells that hold a bot.
pub open spec fn count_occupied(cells: Seq<Option<BotLocation>>) -> nat {
    cells.filter(|cell: Option<BotLocation>| cell is Some).len()
}

/// What a cell shows when the map is drawn: the uid of the bot on it, or
/// nothing for a free cell.
pub open spec fn cell_token(cell: Option<BotLocation>) -> Option<u16> {
    match cell {
        Some(location) => Some(location.bot.spec_uid()),
        None => None,
    }
}

/// An occupant that is placed on a free cell and then removed comes back as
/// it was placed, and the cells are as they were: the cell is free again.
pub proof fn lemma_place_then_remove(
    cells: Seq<Option<BotLocation>>,
    location: BotLocation,
    index: int,
)
    requires
        placement_error(cells, index) is None,
    ensures
        occupant_at(after_placement(cells, location, index), index) == Ok::<
            BotLocation,
            LocationError,
        >(location),
        after_removal(after_placement(cells, location, index), index) == cells,
        after_removal(after_placement(cells, location, index), index)[index] is None,
{
    assert(after_removal(after_placement(cells, location, index), index) =~= cells);
}

/// Placing on an occupied cell fails with `AlreadyOccupied`, and the
/// occupant that was there stays as it was, as do all other cells.
pub proof fn lemma_place_on_occupied(
    cells: Seq<Option<BotLocation>>,
    location: BotLocation,
    index: int,
)
    requires
        0 <= index < cells.len(),
        cells[index] is Some,
    ensures
        placement_error(cells, index) == Some(LocationError::AlreadyOccupied),
        after_placement(cells, location, index) == cells,
        occupant_at(after_placement(cells, location, index), index) == occupant_at(cells, index),
{
}

/// Struct representing the field that Kilobots move on.
/// # Fields
/// * 'width' - Width of the board
/// * 'height' - Height of the board
/// * 'bots' - Packed vector with one entry for each space on the board,
///   row by row: an entry that is not None has a bot, one that is None has
///   no bot
pub struct BotMap {
    width: usize,
    height: usize,
    bots: Vec<Option<BotLocation>>,
}

impl View for BotMap {
    type V = Seq<Option<BotLocation>>;

    /// The cells of the map in the order of the linear index.
    closed spec fn view(&self) -> Seq<Option<BotLocation>> {
        self.bots@
    }
}

impl BoardMap for BotMap {
    closed spec fn spec_width(&self) -> usize {
        self.width
    }

    closed spec fn spec_height(&self) -> usize {
        self.height
    }

    fn get_width(&self) -> (width: usize) {
        self.width
    }

    fn get_height(&self) -> (height: usize) {
        self.height
    }
}

impl BotMap {
    /// The map is well formed: it has one entry for each cell of its grid.
    pub open spec fn wf(&self) -> bool {
        &&& grid_fits(self.spec_width(), self.spec_height())
        &&& self@.len() == grid_len(self.spec_width(), self.spec_height())
    }

    /// Whether `other` has the size of this map.
    pub open spec fn same_size(&self, other: &BotMap) -> bool {
        self.spec_width() == other.spec_width() && self.spec_height() == other.spec_height()
    }

    /// Create a new BotMap and initialize it with None in all locations.
    /// # Arguments
    /// * 'width' - How wide the board is
    /// * 'height' - How tall the board is
    ///
    /// For example, new(4,3) would create a 4x3 bot_map that looks like this
    ///             * * * *
    ///             * * * *
    ///             * * * *
    ///         where '*' represents "None"
    pub fn new(width: usize, height: usize) -> (map: BotMap)
        requires
            grid_fits(width, height),
        ensures
            map.wf(),
            map.spec_width() == width,
            map.spec_height() == height,
            map@ == Seq::new(grid_len(width, height) as nat, |index: int| None::<BotLocation>),
    {
        let mut new_map = BotMap { width, height, bots: Vec::with_capacity(width * height) };
        let len = width * height;
        let mut i: usize = 0;
        while i < len
            invariant
                i <= len,
                len == grid_len(width, height),
                new_map.width == width,
                new_map.height == height,
                new_map.bots@.len() == i,
                forall|k: int| 0 <= k < i ==> (#[trigger] new_map.bots@[k]) is None,
            decreases len - i,
        {
            new_map.bots.push(None);
            i += 1;
        }
        assert(new_map@ =~= Seq::new(
            grid_len(width, height) as nat,
            |index: int| None::<BotLocation>,
        ));
        new_map
    }

    /// Add new bot to the board at the given index.
    /// # Arguments
    /// 'bot' - Kilobot to add to the board
    /// 'index' - Index in vector to place the bot
    /// 'facing' - Direction the bot is initially facing, in degrees clockwise from north
    /// # Returns
    /// None - Insert successful
    /// LocationError if out of bounds or coordinates already occupied
    pub fn add_new_bot_at_index(&mut self, bot: Kilobot, index: usize, facing: u16) -> (res: Option<
        LocationError,
    >)
        requires
            old(self).wf(),
        ensures
            final(self).wf(),
            old(self).same_size(final(self)),
            res == placement_error(old(self)@, index as int),
            final(self)@ == after_placement(
                old(self)@,
                (BotLocation { bot, facing }),
                index as int,
            ),
    {
        if index >= self.bots.len() {
            return Some(LocationError::OutOfBounds);
        }
        match self.bots[index] {
            Some(_) => Some(LocationError::AlreadyOccupied),
            None => {
                self.bots[index] = Some(BotLocation { bot, facing });
                None
            },
        }
    }

    /// Adds an existing BotLocation to the given index.
    /// # Arguments
    /// * 'bot_loc' - Existing BotLocation object
    /// * 'index' - Index to insert into
    /// # Returns
    /// LocationError if the index is out of bounds, or there is already a
    /// bot at the index
    pub fn add_bot_location_at_index(&mut self, bot_loc: BotLocation, index: usize) -> (res: Option<
        LocationError,
    >)
        requires
            old(self).wf(),
        ensures
            final(self).wf(),
            old(self).same_size(final(self)),
            res == placement_error(old(self)@, index as int),
            final(self)@ == after_placement(old(self)@, bot_loc, index as int),
    {
        if index < self.bots.len() {
            match self.bots[index] {
                Some(_) => Some(LocationError::AlreadyOccupied),
                None => {
                    self.bots[index] = Some(bot_loc);
                    None
                },
            }
        } else {
            Some(LocationError::OutOfBounds)
        }
    }

    /// Removes the BotLocation at the specified index if a bot is present
    /// there and replaces it with None.
    /// # Arguments
    /// * 'index' - Index of BotLocation to remove
    /// # Returns
    /// * Ok - The removed BotLocation
    /// * Err(LocationError) if index is out of bounds or there is no bot at
    ///   the index
    pub fn remove_bot_location_at_index(&mut self, index: usize) -> (res: Result<
        Box<BotLocation>,
        LocationError,
    >)
        requires
            old(self).wf(),
        ensures
            final(self).wf(),
            old(self).same_size(final(self)),
            match res {
                Ok(location) => occupant_at(old(self)@, index as int) == Ok::<
                    BotLocation,
                    LocationError,
                >(*location),
                Err(e) => occupant_at(old(self)@, index as int) == Err::<
                    BotLocation,
                    LocationError,
                >(e),
            },
            final(self)@ == after_removal(old(self)@, index as int),
    {
        if index < self.bots.len() {
            match self.bots[index].take() {
                Some(bot) => Ok(Box::new(bot)),
                None => {
                    assert(self@ =~= old(self)@);
                    Err(LocationError::NotOccupied)
                },
            }
        } else {
            Err(LocationError::OutOfBounds)
        }
    }

    /// Returns an immutable reference to the bot at the given index.
    /// # Arguments
    /// * 'index' - Index of location in board array
    /// # Returns
    /// * Ok - Reference to a Kilobot
    /// * Err - LocationError if no bot is found, or out of bounds
    pub fn get_bot_at_index(&self, index: usize) -> (res: Result<&Kilobot, LocationError>)
        requires
            self.wf(),
        ensures
            match res {
                Ok(bot) => occupant_at(self@, index as int) matches Ok(location)
                    && location.bot == *bot,
                Err(e) => occupant_at(self@, index as int) == Err::<BotLocation, LocationError>(e),
            },
    {
        match self.get_bot_location_at_index(index) {
            Ok(location) => Ok(location.bot()),
            Err(e) => Err(e),
        }
    }

    /// Gets the BotLocation at the given index.
    /// # Arguments
    /// * 'index' - Index to get BotLocation from
    /// # Returns
    /// * Ok - Reference to BotLocation at given index
    /// * Err - LocationError if None or Out of Bounds
    pub fn get_bot_location_at_index(&self, index: usize) -> (res: Result<
        &BotLocation,
        LocationError,
    >)
        requires
            self.wf(),
        ensures
            match res {
                Ok(location) => occupant_at(self@, index as int) == Ok::<
                    BotLocation,
                    LocationError,
                >(*location),
                Err(e) => occupant_at(self@, index as int) == Err::<BotLocation, LocationError>(e),
            },
    {
        if index < self.bots.len() {
            match &self.bots[index] {
                Some(loc) => Ok(loc),
                None => Err(LocationError::NotOccupied),
            }
        } else {
            Err(LocationError::OutOfBounds)
        }
    }

    /// Returns whether the given index is occupied by a kilobot.
    /// # Arguments
    /// * 'index' - Vector index to check
    /// # Returns
    /// * true if the location has a kilobot inside it
    /// * LocationError if the index is out of bounds
    pub fn index_is_occupied(&self, index: usize) -> (res: Result<bool, LocationError>)
        requires
            self.wf(),
        ensures
            res == (if index < self@.len() {
                Ok::<bool, LocationError>(self@[index as int] is Some)
            } else {
                Err::<bool, LocationError>(LocationError::OutOfBounds)
            }),
    {
        if index < self.bots.len() {
            Ok(self.get_bot_at_index(index).is_ok())
        } else {
            Err(LocationError::OutOfBounds)
        }
    }

    /// The number of bots on the map, counted cell by cell.
    pub fn num_bots(&self) -> (count: usize)
        requires
            self.wf(),
        ensures
            count == count_occupied(self@),
    {
        let ghost occupied = |cell: Option<BotLocation>| cell is Some;
        let mut count: usize = 0;
        let mut index: usize = 0;
        while index < self.bots.len()
            invariant
                index <= self.bots@.len(),
                count <= index,
                occupied == |cell: Option<BotLocation>| cell is Some,
                count == self.bots@.take(index as int).filter(occupied).len(),
            decreases self.bots@.len() - index,
        {
            proof {
                let next = self.bots@.take(index + 1);
                assert(next.drop_last() =~= self.bots@.take(index as int));
                reveal(Seq::filter);
            }
            if self.bots[index].is_some() {
                count += 1;
            }
            index += 1;
        }
        assert(self.bots@.take(index as int) =~= self.bots@);
        count
    }

    /// What the map reports of itself: its width, its height and the number
    /// of bots on it. The bots are counted anew at each call.
    pub fn summary(&self) -> (report: (usize, usize, usize))
        requires
            self.wf(),
        ensures
            report == (self.spec_width(), self.spec_height(), count_occupied(self@) as usize),
            count_occupied(self@) <= usize::MAX,
    {
        (self.width, self.height, self.num_bots())
    }

    /// The map as rows of cells, for drawing it left to right, top to
    /// bottom: one row for each row of the grid, from the top, and in each
    /// row one token for each cell, from the left.
    pub fn rows(&self) -> (rows: Vec<Vec<Option<u16>>>)
        requires
            self.wf(),
        ensures
            rows@.len() == self.spec_height(),
            forall|y: int| 0 <= y < rows@.len() ==> (#[trigger] rows@[y])@.len() == self.spec_width(),
            forall|x: int, y: int|
                0 <= y < self.spec_height() && 0 <= x < self.spec_width() ==> (#[trigger] rows@[y]@[x])
                    == cell_token(self@[x + y * self.spec_width()]),
    {
        let mut rows: Vec<Vec<Option<u16>>> = Vec::new();
        let mut y: usize = 0;
        while y < self.height
            invariant
                self.wf(),
                y <= self.height,
                rows@.len() == y,
                forall|j: int| 0 <= j < y ==> (#[trigger] rows@[j])@.len() == self.width,
                forall|i: int, j: int|
                    0 <= j < y && 0 <= i < self.width ==> (#[trigger] rows@[j]@[i]) == cell_token(
                        self@[i + j * self.width],
                    ),
            decreases self.height - y,
        {
            let mut row: Vec<Option<u16>> = Vec::new();
            let mut x: usize = 0;
            while x < self.width
                invariant
                    self.wf(),
                    y < self.height,
                    x <= self.width,
                    row@.len() == x,
                    forall|i: int|
                        0 <= i < x ==> (#[trigger] row@[i]) == cell_token(self@[i + y * self.width]),
                decreases self.width - x,
            {
                let token = match self.get_index_from_coord(&CoordinatePair { x, y }) {
                    Ok(index) => match &self.bots[index] {
                        Some(loc) => Some(loc.bot.get_uid()),
                        None => None,
                    },
                    Err(_) => None,
                };
                row.push(token);
                x += 1;
            }
            rows.push(row);
            y += 1;
        }
        rows
    }
}

} // verus!

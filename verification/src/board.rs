//! The board: coordinates, errors, and the aggregate of the two overlays.

use vstd::prelude::*;
use crate::board::board_map::BoardMap;
use crate::board::board_map::grid_fits;
use crate::board::board_map::grid_len;
use crate::board::bot_map::after_placement;
use crate::board::bot_map::after_removal;
use crate::board::bot_map::count_occupied;
use crate::board::bot_map::occupant_at;
use crate::board::bot_map::placement_error;
use crate::board::bot_map::BotLocation;
use crate::board::bot_map::BotMap;
use crate::board::signal_map::SignalMap;
use crate::board::signal_model::SignalModel;
use crate::kilobot::Kilobot;

pub mod board_map;
pub mod bot_map;
pub mod radius;
pub mod signal_map;
pub mod signal_model;

verus! {

/// Facing of a bot that looks towards the top row, in degrees.
pub const NORTH: u16 = 0;

/// Facing of a bot that looks towards the last column, in degrees.
pub const EAST: u16 = 90;

/// Facing of a bot that looks towards the bottom row, in degrees.
pub const SOUTH: u16 = 180;

/// Facing of a bot that looks towards the first column, in degrees.
pub const WEST: u16 = 270;

/// What can go wrong when a cell of the board is addressed.
/// Carries no message.
#[derive(Clone, Copy, Debug, PartialEq, Eq, Structural)]
pub enum LocationError {
    /// The cell already holds an occupant.
    AlreadyOccupied,
    /// The cell holds no occupant.
    NotOccupied,
    /// The coordinate or index lies outside the grid.
    OutOfBounds,
}

/// An (x, y) coordinate on a 2D plane. Columns are counted by `x` from the
/// left, rows by `y` from the top. Whether a pair lies on a grid depends on
/// the grid it is used against.
#[derive(Clone, Copy, Debug, PartialEq, Eq, Hash, Structural)]
pub struct CoordinatePair {
    pub x: usize,
    pub y: usize,
}

impl CoordinatePair {
    /// Create a new CoordinatePair.
    pub fn new(x: usize, y: usize) -> (pair: CoordinatePair)
        ensures
            pair == (CoordinatePair { x, y }),
    {
        CoordinatePair { x, y }
    }

    /// Return the pair as a tuple of usize.
    pub fn as_usize_tuple(&self) -> (pair: (usize, usize))
        ensures
            pair == (self.x, self.y),
    {
        (self.x, self.y)
    }

    /// Return the pair as a tuple of u8. Each component keeps its low eight
    /// bits only, so the result names the same cell exactly when both
    /// components are below 256.
    pub fn as_u8_tuple(&self) -> (pair: (u8, u8))
        ensures
            pair.0 == self.x % 256,
            pair.1 == self.y % 256,
    {
        ((self.x % 256) as u8, (self.y % 256) as u8)
    }

    /// Copy the pair.
    pub fn clone(&self) -> (pair: CoordinatePair)
        ensures
            pair == *self,
    {
        CoordinatePair::new(self.x, self.y)
    }
}

/// The board: the bots on it and the signals over it, on one grid.
pub struct Board {
    pub width: usize,
    pub height: usize,
    pub bot_map: BotMap,
    pub signal_map: SignalMap,
}

impl BoardMap for Board {
    open spec fn spec_width(&self) -> usize {
        self.width
    }

    open spec fn spec_height(&self) -> usize {
        self.height
    }

    fn get_width(&self) -> (width: usize) {
        self.width
    }

    fn get_height(&self) -> (height: usize) {
        self.height
    }
}

impl Board {
    /// The board is well formed: both overlays are, and both have the size
    /// of the board.
    pub open spec fn wf(&self) -> bool {
        &&& grid_fits(self.spec_width(), self.spec_height())
        &&& self.bot_map.wf()
        &&& self.bot_map.spec_width() == self.spec_width()
        &&& self.bot_map.spec_height() == self.spec_height()
        &&& self.signal_map.wf()
        &&& self.signal_map.spec_width() == self.spec_width()
        &&& self.signal_map.spec_height() == self.spec_height()
    }

    /// Whether `other` is this board with nothing changed but the cells of
    /// its bot map.
    pub open spec fn same_but_bots(&self, other: &Board) -> bool {
        &&& other.spec_width() == self.spec_width()
        &&& other.spec_height() == self.spec_height()
        &&& other.signal_map == self.signal_map
        &&& self.bot_map.same_size(&other.bot_map)
    }

    /// Create a new instance of Board and fill it with empty Locations.
    /// # Arguments
    /// * 'width' - How wide the board should be
    /// * 'height' - How tall the board should be
    ///
    /// For example, new(4,3) would create a 4x3 board that looks like this
    ///             * * * *
    ///             * * * *
    ///             * * * *
    ///         where '*' represents "None"
    pub fn new(width: usize, height: usize) -> (board: Board)
        requires
            grid_fits(width, height),
        ensures
            board.wf(),
            board.spec_width() == width,
            board.spec_height() == height,
            board.bot_map@ == Seq::new(
                grid_len(width, height) as nat,
                |index: int| None::<BotLocation>,
            ),
            board.signal_map@ == SignalModel::empty(width, height),
    {
        Board {
            width,
            height,
            bot_map: BotMap::new(width, height),
            signal_map: SignalMap::new(width, height),
        }
    }

    /// Returns the number of cells of the board.
    pub fn len(&self) -> (len: usize)
        requires
            self.wf(),
        ensures
            len == grid_len(self.spec_width(), self.spec_height()),
            len == self.bot_map@.len(),
    {
        self.width * self.height
    }

    /// Add new bot to the board at the given index.
    /// # Arguments
    /// 'bot' - Kilobot to add to the board
    /// 'index' - Index in vector to place the bot
    /// 'facing' - Direction the bot is initially facing, in degrees clockwise from north
    /// # Returns
    /// None - Insert successful
    /// LocationError if out of bounds or coordinates already occupied
    pub fn add_new_bot_at_index(&mut self, bot: Kilobot, index: usize, facing: u16) -> (res: Option<
        LocationError,
    >)
        requires
            old(self).wf(),
        ensures
            final(self).wf(),
            old(self).same_but_bots(final(self)),
            res == placement_error(old(self).bot_map@, index as int),
            final(self).bot_map@ == after_placement(
                old(self).bot_map@,
                (BotLocation { bot, facing }),
                index as int,
            ),
    {
        self.bot_map.add_new_bot_at_index(bot, index, facing)
    }

    /// Adds an existing BotLocation to the given index.
    /// # Arguments
    /// * 'bot_loc' - Existing BotLocation object
    /// * 'index' - Index to insert into
    /// # Returns
    /// LocationError if the index is out of bounds, or there is already a
    /// bot at the index
    pub fn add_bot_location_at_index(&mut self, bot_loc: BotLocation, index: usize) -> (res: Option<
        LocationError,
    >)
        requires
            old(self).wf(),
        ensures
            final(self).wf(),
            old(self).same_but_bots(final(self)),
            res == placement_error(old(self).bot_map@, index as int),
            final(self).bot_map@ == after_placement(old(self).bot_map@, bot_loc, index as int),
    {
        self.bot_map.add_bot_location_at_index(bot_loc, index)
    }

    /// Removes the BotLocation at the specified index if a bot is present
    /// there and replaces it with None.
    /// # Arguments
    /// * 'index' - Index of BotLocation to remove
    /// # Returns
    /// * Ok - The removed BotLocation
    /// * Err(LocationError) if index is out of bounds or there is no bot at
    ///   the index
    pub fn remove_bot_location_at_index(&mut self, index: usize) -> (res: Result<
        Box<BotLocation>,
        LocationError,
    >)
        requires
            old(self).wf(),
        ensures
            final(self).wf(),
            old(self).same_but_bots(final(self)),
            match res {
                Ok(location) => occupant_at(old(self).bot_map@, index as int) == Ok::<
                    BotLocation,
                    LocationError,
                >(*location),
                Err(e) => occupant_at(old(self).bot_map@, index as int) == Err::<
                    BotLocation,
                    LocationError,
                >(e),
            },
            final(self).bot_map@ == after_removal(old(self).bot_map@, index as int),
    {
        self.bot_map.remove_bot_location_at_index(index)
    }

    /// Returns an immutable reference to the bot at the given index.
    /// # Arguments
    /// * 'index' - Index of location in board array
    /// # Returns
    /// * Ok - Reference to a Kilobot
    /// * Err - LocationError if no bot is found, or out of bounds
    pub fn get_bot_at_index(&self, index: usize) -> (res: Result<&Kilobot, LocationError>)
        requires
            self.wf(),
        ensures
            match res {
                Ok(bot) => occupant_at(self.bot_map@, index as int) matches Ok(location)
                    && location.bot == *bot,
                Err(e) => occupant_at(self.bot_map@, index as int) == Err::<
                    BotLocation,
                    LocationError,
                >(e),
            },
    {
        self.bot_map.get_bot_at_index(index)
    }

    /// Gets the BotLocation at the given index.
    /// # Arguments
    /// * 'index' - Index to get BotLocation from
    /// # Returns
    /// * Ok - Reference to BotLocation at given index
    /// * Err - LocationError if None or Out of Bounds
    pub fn get_bot_location_at_index(&self, index: usize) -> (res: Result<
        &BotLocation,
        LocationError,
    >)
        requires
            self.wf(),
        ensures
            match res {
                Ok(location) => occupant_at(self.bot_map@, index as int) == Ok::<
                    BotLocation,
                    LocationError,
                >(*location),
                Err(e) => occupant_at(self.bot_map@, index as int) == Err::<
                    BotLocation,
                    LocationError,
                >(e),
            },
    {
        self.bot_map.get_bot_location_at_index(index)
    }

    /// Returns whether the given index is occupied by a kilobot.
    /// # Arguments
    /// * 'index' - Vector index to check
    /// # Returns
    /// * true if the location has a kilobot inside it
    /// * LocationError if the index is out of bounds
    pub fn index_has_bot(&self, index: usize) -> (res: Result<bool, LocationError>)
        requires
            self.wf(),
        ensures
            res == (if index < self.bot_map@.len() {
                Ok::<bool, LocationError>(self.bot_map@[index as int] is Some)
            } else {
                Err::<bool, LocationError>(LocationError::OutOfBounds)
            }),
    {
        self.bot_map.index_is_occupied(index)
    }

    /// What the board reports of itself: its width, its height and the
    /// number of bots on it. The bots are counted anew at each call.
    pub fn summary(&self) -> (report: (usize, usize, usize))
        requires
            self.wf(),
        ensures
            report == (self.spec_width(), self.spec_height(), count_occupied(self.bot_map@) as usize),
            count_occupied(self.bot_map@) <= usize::MAX,
    {
        (self.width, self.height, self.bot_map.num_bots())
    }
}

} // verus!

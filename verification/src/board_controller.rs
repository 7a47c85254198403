//! Moving bots over the board.

use vstd::prelude::*;
use crate::board::Board;
use crate::board::CoordinatePair;
use crate::board::LocationError;
use crate::board::board_map::BoardMap;
use crate::board::board_map::coord_of;
use crate::board::bot_map::after_placement;
use crate::board::bot_map::after_removal;
use crate::board::bot_map::BotLocation;

verus! {

/// Why the occupant of the cell `src` cannot be moved to the cell `dest`, or
/// `None` if it can. Both indices must name cells; the destination must be
/// free; and the source must hold an occupant. The destination is looked at
/// before the source.
pub open spec fn move_error(cells: Seq<Option<BotLocation>>, src: int, dest: int) -> Option<
    LocationError,
> {
    if !(0 <= src < cells.len()) || !(0 <= dest < cells.len()) {
        Some(LocationError::OutOfBounds)
    } else if cells[dest] is Some {
        Some(LocationError::AlreadyOccupied)
    } else if cells[src] is None {
        Some(LocationError::NotOccupied)
    } else {
        None
    }
}

/// The cells after an attempt to move the occupant of `src` to `dest`:
/// unchanged if the attempt fails; else the source is free and the
/// destination holds the occupant as it was, facing included.
pub open spec fn after_move(cells: Seq<Option<BotLocation>>, src: int, dest: int) -> Seq<
    Option<BotLocation>,
> {
    if move_error(cells, src, dest) is Some {
        cells
    } else {
        cells.update(src, None).update(dest, cells[src])
    }
}

/// A move onto an occupied cell fails with `AlreadyOccupied` and changes
/// nothing: the occupant of the source stays where it was, as it was.
pub proof fn lemma_move_onto_occupied(cells: Seq<Option<BotLocation>>, src: int, dest: int)
    requires
        0 <= src < cells.len(),
        0 <= dest < cells.len(),
        cells[dest] is Some,
    ensures
        move_error(cells, src, dest) == Some(LocationError::AlreadyOccupied),
        after_move(cells, src, dest) == cells,
        after_move(cells, src, dest)[src] == cells[src],
{
}

/// A move that succeeds is a removal from the source followed by a
/// placement of the removed occupant on the destination.
pub proof fn lemma_move_is_remove_then_place(cells: Seq<Option<BotLocation>>, src: int, dest: int)
    requires
        move_error(cells, src, dest) is None,
    ensures
        after_move(cells, src, dest) == after_placement(
            after_removal(cells, src),
            cells[src]->Some_0,
            dest,
        ),
        after_move(cells, src, dest)[dest] == cells[src],
        after_move(cells, src, dest)[src] is None,
{
}

/// The step that a bot takes when it moves forward, as (columns, rows):
/// the sine of its facing and the negated cosine, each rounded to the
/// nearest whole number, a half counting as a whole. North is up, towards
/// row 0: 0 degrees gives (0, -1), 90 gives (1, 0), 180 gives (0, 1) and
/// 270 gives (-1, 0). Facings in between step along both axes where both
/// components round to a whole; a facing of 360 or more steps like the
/// facing less the full turns.
pub open spec fn forward_delta(facing: u16) -> (int, int) {
    let angle = facing % 360;
    let columns: int = if 30 <= angle <= 150 {
        1
    } else if 210 <= angle <= 330 {
        -1
    } else {
        0
    };
    let rows: int = if angle <= 60 || 300 <= angle {
        -1
    } else if 120 <= angle <= 240 {
        1
    } else {
        0
    };
    (columns, rows)
}

/// Where the bot at `src` comes to stand when it moves forward: the index
/// of the cell one step ahead of it; `OutOfBounds` if `src` names no cell
/// or the step leads off the grid; `NotOccupied` if no bot stands at `src`.
pub open spec fn forward_target(
    width: usize,
    height: usize,
    cells: Seq<Option<BotLocation>>,
    src: int,
) -> Result<int, LocationError> {
    if !(0 <= src < cells.len()) {
        Err(LocationError::OutOfBounds)
    } else {
        match cells[src] {
            None => Err(LocationError::NotOccupied),
            Some(location) => {
                let step = forward_delta(location.facing);
                let from = coord_of(width, src);
                let x = from.x + step.0;
                let y = from.y + step.1;
                if 0 <= x < width && 0 <= y < height {
                    Ok(x + y * width)
                } else {
                    Err(LocationError::OutOfBounds)
                }
            },
        }
    }
}

/// No facing leaves a bot where it is: every step leads to another cell.
pub proof fn lemma_forward_delta_moves(facing: u16)
    ensures
        forward_delta(facing) != (0int, 0int),
        -1 <= forward_delta(facing).0 <= 1,
        -1 <= forward_delta(facing).1 <= 1,
{
}

/// The coordinate `by` steps away from `start`, if it is at least 0 and
/// below `limit`.
fn shifted(start: usize, by: i8, limit: usize) -> (moved: Option<usize>)
    ensures
        moved == (if 0 <= start + by < limit {
            Some((start + by) as usize)
        } else {
            None
        }),
{
    if by < 0 {
        let back: usize = (-(by as i16)) as usize;
        if start >= back && start - back < limit {
            Some(start - back)
        } else {
            None
        }
    } else {
        let ahead: usize = by as usize;
        if ahead < limit && start < limit - ahead {
            Some(start + ahead)
        } else {
            None
        }
    }
}

/// Object responsible for manipulating the board.
/// # Fields
/// board - Board struct
pub struct BoardController {
    pub board: Board,
}

impl BoardController {
    /// Moves a BotLocation to a new index on the board, facing as before.
    /// # Arguments
    /// * 'src_index' - Index of BotLocation to be moved
    /// * 'dest_index' - Index of board to move BotLocation to
    /// # Returns
    /// `OutOfBounds` if either index names no cell, `AlreadyOccupied` if the
    /// destination already has a bot, `NotOccupied` if there is no bot at
    /// the source, or None if the move was made. The destination is looked
    /// at before the bot is taken from the source, so a move that fails
    /// changes nothing.
    pub fn move_bot_by_index(&mut self, src_index: usize, dest_index: usize) -> (res: Option<
        LocationError,
    >)
        requires
            old(self).board.wf(),
        ensures
            final(self).board.wf(),
            old(self).board.same_but_bots(&final(self).board),
            res == move_error(old(self).board.bot_map@, src_index as int, dest_index as int),
            final(self).board.bot_map@ == after_move(
                old(self).board.bot_map@,
                src_index as int,
                dest_index as int,
            ),
    {
        if src_index < self.board.len() && dest_index < self.board.len() {
            match self.board.bot_map.index_is_occupied(dest_index) {
                Ok(is_occupied) => {
                    if is_occupied {
                        Some(LocationError::AlreadyOccupied)
                    } else {
                        match self.board.bot_map.remove_bot_location_at_index(src_index) {
                            Ok(b) => {
                                let bot = *b;
                                self.board.add_bot_location_at_index(bot, dest_index);
                                None
                            },
                            Err(e) => Some(e),
                        }
                    }
                },
                Err(e) => Some(e),
            }
        } else {
            Some(LocationError::OutOfBounds)
        }
    }

    /// Moves the bot forward relative to its current facing.
    /// # Arguments
    /// 'src' - Array index of the bot to be moved
    /// # Returns
    /// `OutOfBounds` if the index names no cell or the step leads off the
    /// board, `NotOccupied` if no bot stands at the index, `AlreadyOccupied`
    /// if a bot stands on the cell ahead, or None if the move was made. A
    /// move that fails changes nothing.
    pub fn move_bot_forward(&mut self, src: usize) -> (res: Option<LocationError>)
        requires
            old(self).board.wf(),
        ensures
            final(self).board.wf(),
            old(self).board.same_but_bots(&final(self).board),
            match forward_target(
                old(self).board.spec_width(),
                old(self).board.spec_height(),
                old(self).board.bot_map@,
                src as int,
            ) {
                Ok(dest) => res == move_error(old(self).board.bot_map@, src as int, dest)
                    && final(self).board.bot_map@ == after_move(
                    old(self).board.bot_map@,
                    src as int,
                    dest,
                ),
                Err(e) => res == Some(e) && final(self).board.bot_map@ == old(self).board.bot_map@,
            },
    {
        match self.board.get_coord_from_index(&src) {
            Ok(src_coord) => {
                match self.board.get_bot_location_at_index(src) {
                    Ok(bot) => {
                        let delta = BoardController::get_forward_coord_delta(bot.get_facing());
                        //Check bounds of board
                        let dest_x = shifted(src_coord.x, delta.0, self.board.get_width());
                        let dest_y = shifted(src_coord.y, delta.1, self.board.get_height());
                        match (dest_x, dest_y) {
                            (Some(x), Some(y)) => {
                                match self.board.get_index_from_coord(&CoordinatePair { x, y }) {
                                    Ok(dest) => self.move_bot_by_index(src, dest),
                                    Err(e) => Some(e),
                                }
                            },
                            _ => Some(LocationError::OutOfBounds),
                        }
                    },
                    Err(e) => Some(e),
                }
            },
            Err(e) => Some(e),
        }
    }

    /// Gets the change in coordinates for a bot moving forward.
    /// # Arguments
    /// * 'facing' - the direction the bot is facing in degrees clockwise from north
    /// # Returns
    /// * (i8, i8) - The change in coordinates if the bot were to move forward.
    /// Note that this is the change relative to the bot's current location,
    /// *not* the final coordinates of the move
    pub fn get_forward_coord_delta(facing: u16) -> (delta: (i8, i8))
        ensures
            (delta.0 as int, delta.1 as int) == forward_delta(facing),
    {
        let angle = facing % 360;
        let delta_x: i8 = if 30 <= angle && angle <= 150 {
            1
        } else if 210 <= angle && angle <= 330 {
            -1
        } else {
            0
        };
        let delta_y: i8 = if angle <= 60 || 300 <= angle {
            -1
        } else if 120 <= angle && angle <= 240 {
            1
        } else {
            0
        };
        (delta_x, delta_y)
    }
}

} // verus!

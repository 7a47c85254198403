use kilobot_sim::board::bot_map::BotLocation;
use kilobot_sim::board::Board;
use kilobot_sim::board::LocationError;
use kilobot_sim::board::EAST;
use kilobot_sim::board::NORTH;
use kilobot_sim::board::SOUTH;
use kilobot_sim::board::WEST;
use kilobot_sim::board_controller::BoardController;
use kilobot_sim::kilobot::new_kilobot;

fn controller(width: usize, height: usize) -> BoardController {
    BoardController { board: Board::new(width, height) }
}

fn uid_at(controller: &BoardController, index: usize) -> Option<u16> {
    match controller.board.get_bot_at_index(index) {
        Ok(bot) => Some(bot.get_uid()),
        Err(_) => None,
    }
}

#[test]
fn move_by_index_carries_the_occupant_and_its_facing() {
    let mut ctl = controller(5, 5);
    let mut bot = new_kilobot(4);
    bot.turn_right();
    let mut expected = new_kilobot(4);
    expected.turn_right();
    assert_eq!(ctl.board.add_bot_location_at_index(BotLocation::new(bot, 135), 6), None);
    assert_eq!(ctl.move_bot_by_index(6, 0), None);
    assert_eq!(ctl.board.index_has_bot(6), Ok(false));
    assert_eq!(
        *ctl.board.get_bot_location_at_index(0).unwrap(),
        BotLocation::new(expected, 135)
    );
    assert_eq!(ctl.board.summary(), (5, 5, 1));
}

#[test]
fn move_onto_occupied_cell_leaves_the_source_alone() {
    let mut ctl = controller(5, 5);
    assert_eq!(ctl.board.add_new_bot_at_index(new_kilobot(1), 6, 90), None);
    assert_eq!(ctl.board.add_new_bot_at_index(new_kilobot(2), 7, 180), None);
    assert_eq!(ctl.move_bot_by_index(6, 7), Some(LocationError::AlreadyOccupied));
    assert_eq!(
        *ctl.board.get_bot_location_at_index(6).unwrap(),
        BotLocation::new(new_kilobot(1), 90)
    );
    assert_eq!(
        *ctl.board.get_bot_location_at_index(7).unwrap(),
        BotLocation::new(new_kilobot(2), 180)
    );
    assert_eq!(ctl.board.summary(), (5, 5, 2));
}

#[test]
fn move_onto_itself_is_a_move_onto_an_occupied_cell() {
    let mut ctl = controller(5, 5);
    assert_eq!(ctl.board.add_new_bot_at_index(new_kilobot(1), 6, 90), None);
    assert_eq!(ctl.move_bot_by_index(6, 6), Some(LocationError::AlreadyOccupied));
    assert_eq!(uid_at(&ctl, 6), Some(1));
}

#[test]
fn move_by_index_errors() {
    let mut ctl = controller(5, 5);
    assert_eq!(ctl.board.add_new_bot_at_index(new_kilobot(1), 6, 90), None);
    assert_eq!(ctl.move_bot_by_index(6, 25), Some(LocationError::OutOfBounds));
    assert_eq!(ctl.move_bot_by_index(25, 6), Some(LocationError::OutOfBounds));
    assert_eq!(ctl.move_bot_by_index(25, 25), Some(LocationError::OutOfBounds));
    assert_eq!(ctl.move_bot_by_index(7, 8), Some(LocationError::NotOccupied));
    assert_eq!(ctl.move_bot_by_index(7, 7), Some(LocationError::NotOccupied));
    assert_eq!(ctl.move_bot_by_index(7, 6), Some(LocationError::AlreadyOccupied));
    assert_eq!(uid_at(&ctl, 6), Some(1));
    assert_eq!(ctl.board.summary(), (5, 5, 1));
}

#[test]
fn forward_delta_of_the_four_directions() {
    assert_eq!(BoardController::get_forward_coord_delta(NORTH), (0, -1));
    assert_eq!(BoardController::get_forward_coord_delta(EAST), (1, 0));
    assert_eq!(BoardController::get_forward_coord_delta(SOUTH), (0, 1));
    assert_eq!(BoardController::get_forward_coord_delta(WEST), (-1, 0));
}

#[test]
fn forward_delta_rounds_sine_and_cosine() {
    for (facing, delta) in [
        (1u16, (0i8, -1i8)),
        (29, (0, -1)),
        (30, (1, -1)),
        (45, (1, -1)),
        (60, (1, -1)),
        (61, (1, 0)),
        (89, (1, 0)),
        (119, (1, 0)),
        (120, (1, 1)),
        (135, (1, 1)),
        (150, (1, 1)),
        (151, (0, 1)),
        (209, (0, 1)),
        (210, (-1, 1)),
        (225, (-1, 1)),
        (240, (-1, 1)),
        (241, (-1, 0)),
        (299, (-1, 0)),
        (300, (-1, -1)),
        (315, (-1, -1)),
        (330, (-1, -1)),
        (331, (0, -1)),
        (359, (0, -1)),
        (360, (0, -1)),
        (450, (1, 0)),
        (540, (0, 1)),
        (630, (-1, 0)),
        (u16::MAX, (0, -1)),
    ] {
        assert_eq!(BoardController::get_forward_coord_delta(facing), delta);
    }
}

#[test]
fn forward_delta_agrees_with_the_trigonometry() {
    for facing in 0u16..720 {
        let angle = facing % 360;
        if [30, 150, 210, 330, 60, 120, 240, 300].contains(&angle) {
            continue;
        }
        let radians = (facing as f64).to_radians();
        let expected = (radians.sin().round() as i8, -(radians.cos().round() as i8));
        assert_eq!(BoardController::get_forward_coord_delta(facing), expected);
    }
}

#[test]
fn move_forward_in_the_four_directions() {
    for (facing, target) in [(NORTH, 7usize), (EAST, 13), (SOUTH, 17), (WEST, 11)] {
        let mut ctl = controller(5, 5);
        assert_eq!(ctl.board.add_new_bot_at_index(new_kilobot(1), 12, facing), None);
        assert_eq!(ctl.move_bot_forward(12), None);
        assert_eq!(ctl.board.index_has_bot(12), Ok(false));
        assert_eq!(
            *ctl.board.get_bot_location_at_index(target).unwrap(),
            BotLocation::new(new_kilobot(1), facing)
        );
    }
}

#[test]
fn move_forward_between_the_directions() {
    for (facing, target) in [(45u16, 8usize), (135, 18), (225, 16), (315, 6)] {
        let mut ctl = controller(5, 5);
        assert_eq!(ctl.board.add_new_bot_at_index(new_kilobot(1), 12, facing), None);
        assert_eq!(ctl.move_bot_forward(12), None);
        assert_eq!(uid_at(&ctl, 12), None);
        assert_eq!(uid_at(&ctl, target), Some(1));
    }
}

#[test]
fn move_forward_off_the_board() {
    for (index, facing) in [
        (2usize, NORTH),
        (14, EAST),
        (22, SOUTH),
        (10, WEST),
        (0, 315),
        (4, 45),
        (24, 135),
        (20, 225),
        (4, NORTH),
        (4, EAST),
    ] {
        let mut ctl = controller(5, 5);
        assert_eq!(ctl.board.add_new_bot_at_index(new_kilobot(1), index, facing), None);
        assert_eq!(ctl.move_bot_forward(index), Some(LocationError::OutOfBounds));
        assert_eq!(
            *ctl.board.get_bot_location_at_index(index).unwrap(),
            BotLocation::new(new_kilobot(1), facing)
        );
        assert_eq!(ctl.board.summary(), (5, 5, 1));
    }
}

#[test]
fn move_forward_does_not_wrap_into_the_next_row() {
    let mut ctl = controller(5, 5);
    assert_eq!(ctl.board.add_new_bot_at_index(new_kilobot(1), 9, EAST), None);
    assert_eq!(ctl.move_bot_forward(9), Some(LocationError::OutOfBounds));
    assert_eq!(uid_at(&ctl, 10), None);
    assert_eq!(uid_at(&ctl, 9), Some(1));
}

#[test]
fn move_forward_errors() {
    let mut ctl = controller(5, 5);
    assert_eq!(ctl.move_bot_forward(25), Some(LocationError::OutOfBounds));
    assert_eq!(ctl.move_bot_forward(12), Some(LocationError::NotOccupied));
    assert_eq!(ctl.board.add_new_bot_at_index(new_kilobot(1), 12, SOUTH), None);
    assert_eq!(ctl.board.add_new_bot_at_index(new_kilobot(2), 17, NORTH), None);
    assert_eq!(ctl.move_bot_forward(12), Some(LocationError::AlreadyOccupied));
    assert_eq!(ctl.move_bot_forward(17), Some(LocationError::AlreadyOccupied));
    assert_eq!(
        *ctl.board.get_bot_location_at_index(12).unwrap(),
        BotLocation::new(new_kilobot(1), SOUTH)
    );
    assert_eq!(
        *ctl.board.get_bot_location_at_index(17).unwrap(),
        BotLocation::new(new_kilobot(2), NORTH)
    );
}

#[test]
fn moves_leave_the_signals_alone() {
    let mut ctl = controller(3, 3);
    let source = kilobot_sim::board::signal_map::SignalSource::new(
        kilobot_sim::board::CoordinatePair::new(1, 1),
        kilobot_sim::board::radius::Radius::from_squared(1),
    );
    assert_eq!(ctl.board.signal_map.add_new_source(source), None);
    let drawn = ctl.board.signal_map.render();
    assert_eq!(ctl.board.add_new_bot_at_index(new_kilobot(1), 4, EAST), None);
    assert_eq!(ctl.move_bot_forward(4), None);
    assert_eq!(ctl.move_bot_by_index(5, 0), None);
    assert_eq!(ctl.board.signal_map.render(), drawn);
    assert_eq!(ctl.board.signal_map.num_sources(), 1);
}

#[test]
fn test_board_controller() {
    let mut board_controller = controller(5, 5);
    assert_eq!(board_controller.board.bot_map.add_new_bot_at_index(new_kilobot(1), 0, 0), None);
    assert_eq!(
        board_controller.board.bot_map.add_new_bot_at_index(new_kilobot(2), 0, 0),
        Some(LocationError::AlreadyOccupied)
    );
    assert_eq!(board_controller.board.bot_map.add_new_bot_at_index(new_kilobot(3), 12, 0), None);
    assert!(board_controller.board.bot_map.remove_bot_location_at_index(0).is_ok());
    assert!(board_controller.board.bot_map.remove_bot_location_at_index(12).is_ok());
    assert_eq!(board_controller.board.bot_map.add_new_bot_at_index(new_kilobot(1), 6, 0), None);

    assert_eq!(board_controller.move_bot_by_index(6, 0), None);
    assert_eq!(uid_at(&board_controller, 0), Some(1));
    assert_eq!(
        board_controller.board.bot_map.add_new_bot_at_index(new_kilobot(3), 12, 180),
        None
    );
    assert_eq!(board_controller.move_bot_by_index(0, 4), None);
    assert_eq!(board_controller.move_bot_by_index(12, 13), None);
    assert_eq!(board_controller.move_bot_by_index(13, 18), None);
    assert_eq!(board_controller.move_bot_by_index(4, 9), None);
    assert_eq!(board_controller.board.summary(), (5, 5, 2));
    assert_eq!(uid_at(&board_controller, 9), Some(1));
    assert_eq!(uid_at(&board_controller, 18), Some(3));

    assert_eq!(
        board_controller.board.bot_map.add_new_bot_at_index(new_kilobot(4), 6, 135),
        None
    );
    assert_eq!(board_controller.move_bot_forward(6), None);
    assert_eq!(board_controller.move_bot_forward(18), None);
    assert_eq!(board_controller.board.summary(), (5, 5, 3));
    assert_eq!(uid_at(&board_controller, 12), Some(4));
    assert_eq!(uid_at(&board_controller, 23), Some(3));

    assert_eq!(board_controller.move_bot_forward(23), Some(LocationError::OutOfBounds));
    assert_eq!(board_controller.board.summary(), (5, 5, 3));
    assert_eq!(
        board_controller.board.bot_map.rows(),
        vec![
            vec![None, None, None, None, None],
            vec![None, None, None, None, Some(1)],
            vec![None, None, Some(4), None, None],
            vec![None, None, None, None, None],
            vec![None, None, None, Some(3), None],
        ]
    );
}

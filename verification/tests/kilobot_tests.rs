use kilobot_sim::kilobot::led_t;
use kilobot_sim::kilobot::messages::Message;
use kilobot_sim::kilobot::messages::MessageType;
use kilobot_sim::kilobot::new_kilobot;
use kilobot_sim::kilobot::rgb;
use kilobot_sim::kilobot::rgb::RGB;
use kilobot_sim::kilobot::MOTOR_MAX_VAL;
use kilobot_sim::kilobot::ROTATION_SPEED;

#[test]
fn test_bot() {
    let mut bot = new_kilobot(0);
    assert_eq!(bot.get_motor_values(), (0, 0));
    bot.move_forward();
    assert_eq!(bot.get_motor_values(), (MOTOR_MAX_VAL, MOTOR_MAX_VAL));
}

#[test]
fn constants() {
    assert_eq!(MOTOR_MAX_VAL, 255);
    assert_eq!(ROTATION_SPEED, 45);
    assert_eq!(rgb::LED_OFF, (0, 0, 0));
    assert_eq!(led_t::LED_OFF, (0, 0, 0));
}

#[test]
fn new_kilobot_is_at_rest() {
    let bot = new_kilobot(42);
    assert_eq!(bot.get_uid(), 42);
    assert_eq!(bot.get_motor_values(), (0, 0));
    assert_eq!(*bot.get_led(), RGB { r: 0, g: 0, b: 0 });
    assert!(!bot.get_message_received());
}

#[test]
fn motors_follow_the_commands() {
    let mut bot = new_kilobot(5);
    bot.turn_left();
    assert_eq!(bot.get_motor_values(), (0, 255));
    bot.turn_right();
    assert_eq!(bot.get_motor_values(), (255, 0));
    bot.move_forward();
    assert_eq!(bot.get_motor_values(), (255, 255));
    bot.stop();
    assert_eq!(bot.get_motor_values(), (0, 0));
    bot.set_motors(17, 200);
    assert_eq!(bot.get_motor_values(), (17, 200));
    assert_eq!(bot.get_uid(), 5);
    assert_eq!(*bot.get_led(), RGB { r: 0, g: 0, b: 0 });
    assert!(!bot.get_message_received());
}

#[test]
fn set_led_changes_the_color_only() {
    let mut bot = new_kilobot(5);
    bot.set_motors(1, 2);
    bot.set_led(10, 20, 30);
    assert_eq!(*bot.get_led(), RGB { r: 10, g: 20, b: 30 });
    assert_eq!(bot.get_motor_values(), (1, 2));
    assert_eq!(bot.get_uid(), 5);
}

#[test]
fn rgb_set_and_get() {
    let mut led = rgb::new_led(1, 2, 3);
    assert_eq!(led, RGB { r: 1, g: 2, b: 3 });
    led.set(RGB { r: 9, g: 8, b: 7 });
    assert_eq!(*led.get(), RGB { r: 9, g: 8, b: 7 });
    assert_eq!((led.r, led.g, led.b), (9, 8, 7));
}

#[test]
fn led_t_set() {
    let mut led = led_t::new_led(1, 2, 3);
    assert_eq!(led.color(), (1, 2, 3));
    led.set(200, 100, 0);
    assert_eq!(led.color(), (200, 100, 0));
    assert_eq!(led, led_t::new_led(200, 100, 0));
}

#[test]
fn generate_crc_sets_zero() {
    let mut msg = Message::new([1, 2, 3, 4, 5, 6, 7, 8, 9], 3);
    assert_eq!(msg.crc(), 0);
    Message::generate_crc(&mut msg);
    assert_eq!(msg.crc(), 0);
    assert_eq!(msg, Message::new([1, 2, 3, 4, 5, 6, 7, 8, 9], 3));
}

#[test]
fn message_type_codes() {
    assert_eq!(MessageType::NORMAL.code(), 0);
    assert_eq!(MessageType::GPS.code(), 1);
    assert_eq!(MessageType::BOOT.code(), 0x80);
    assert_eq!(MessageType::RESET.code(), 0x81);
    assert_eq!(MessageType::SLEEP.code(), 0x82);
    assert_eq!(MessageType::WAKEUP.code(), 0x83);
    assert_eq!(MessageType::CHARGE.code(), 0x84);
    assert_eq!(MessageType::VOLTAGE.code(), 0x85);
    assert_eq!(MessageType::RUN.code(), 0x86);
    assert_eq!(MessageType::READUID.code(), 0x87);
    assert_eq!(MessageType::CALIB.code(), 0x88);
}

//! The messages that bots send each other.
//!
//! A message is 12 bytes long, in three parts: the payload (9 bytes), the
//! type (1 byte), and a CRC.

use vstd::prelude::*;

verus! {

/// Possible message types that can be sent.
#[allow(non_camel_case_types)]
#[derive(Clone, Copy, Debug, PartialEq, Eq, Structural)]
pub enum MessageType {
    NORMAL,
    GPS,
    BOOT,
    RESET,
    SLEEP,
    WAKEUP,
    CHARGE,
    VOLTAGE,
    RUN,
    READUID,
    CALIB,
}

impl MessageType {
    /// The byte that stands for the type in a message: user messages count
    /// up from 0, system messages from 0x80.
    pub open spec fn spec_code(self) -> u8 {
        match self {
            MessageType::NORMAL => 0,
            MessageType::GPS => 1,
            MessageType::BOOT => 0x80,
            MessageType::RESET => 0x81,
            MessageType::SLEEP => 0x82,
            MessageType::WAKEUP => 0x83,
            MessageType::CHARGE => 0x84,
            MessageType::VOLTAGE => 0x85,
            MessageType::RUN => 0x86,
            MessageType::READUID => 0x87,
            MessageType::CALIB => 0x88,
        }
    }

    /// The byte that stands for the type in a message.
    pub fn code(&self) -> (code: u8)
        ensures
            code == self.spec_code(),
    {
        match self {
            MessageType::NORMAL => 0,
            MessageType::GPS => 1,
            MessageType::BOOT => 0x80,
            MessageType::RESET => 0x81,
            MessageType::SLEEP => 0x82,
            MessageType::WAKEUP => 0x83,
            MessageType::CHARGE => 0x84,
            MessageType::VOLTAGE => 0x85,
            MessageType::RUN => 0x86,
            MessageType::READUID => 0x87,
            MessageType::CALIB => 0x88,
        }
    }
}

/// A message that can be transmitted by the bot.
#[derive(Debug, PartialEq, Eq)]
pub struct Message {
    data: [u8; 9],
    msg_type: u8,
    msg_crc: u8,
}

impl Message {
    /// The payload.
    pub closed spec fn spec_data(&self) -> [u8; 9] {
        self.data
    }

    /// The type byte.
    pub closed spec fn spec_type(&self) -> u8 {
        self.msg_type
    }

    /// The CRC.
    pub closed spec fn spec_crc(&self) -> u8 {
        self.msg_crc
    }

    /// A message with the given payload and type, and a CRC of zero.
    pub fn new(data: [u8; 9], msg_type: u8) -> (msg: Message)
        ensures
            msg.spec_data() == data,
            msg.spec_type() == msg_type,
            msg.spec_crc() == 0,
    {
        Message { data, msg_type, msg_crc: 0 }
    }

    /// Generate a CRC for a message. No checksum is computed yet: the CRC
    /// is set to zero, whatever the message holds.
    pub fn generate_crc(msg: &mut Message)
        ensures
            final(msg).spec_crc() == 0,
            final(msg).spec_data() == old(msg).spec_data(),
            final(msg).spec_type() == old(msg).spec_type(),
    {
        msg.msg_crc = 0x00;
    }

    /// The CRC of the message.
    pub fn crc(&self) -> (crc: u8)
        ensures
            crc == self.spec_crc(),
    {
        self.msg_crc
    }
}

} // verus!

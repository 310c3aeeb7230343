//! Framing of the batched physics command buffer.
//!
//! A buffer starts with a 14-byte header: the magic number (4 bytes), the
//! protocol version (2 bytes), the number of commands (4 bytes) and the
//! length of the whole buffer (4 bytes), all in native byte order. Each
//! command follows as one opcode byte and a fixed-size payload:
//!
//! | opcode | command                              | payload |
//! |--------|--------------------------------------|---------|
//! | 1      | apply an impulse at a point          | 53      |
//! | 2      | apply a linear and angular impulse   | 53      |
//! | 3      | add linear and angular velocity      | 53      |
//! | 4      | wake a body                          | 4       |
//!
//! A 53-byte payload is a body id (`i32`), six `f64` values and one wake
//! flag byte; a 4-byte payload is a body id. Floating-point values are kept
//! as their bit patterns here.

use vstd::prelude::*;
use crate::native::{i16_from_native, i32_from_native, u64_from_native, native2, native4, native8, signed16, signed32};

verus! {

/// Magic number that opens every command buffer.
pub const COMMAND_MAGIC: i32 = 0x5341424C;

/// Protocol version this decoder understands.
pub const COMMAND_PROTOCOL_VERSION: i16 = 1;

/// Size of the command buffer header in bytes.
pub const COMMAND_HEADER_SIZE: usize = 14;

/// Why a command buffer header was rejected.
#[derive(Clone, Copy, Debug, PartialEq, Eq, Structural)]
pub enum CommandHeaderError {
    TooShort,
    MagicMismatch,
    VersionMismatch,
    NegativeCount,
    LengthMismatch,
}

impl CommandHeaderError {
    /// A human-readable reason for the rejection.
    pub fn message(&self) -> (m: &'static str)
        ensures
            *self == CommandHeaderError::TooShort ==> m@ == "buffer is shorter than the command header"@,
            *self == CommandHeaderError::MagicMismatch ==> m@ == "command magic does not match"@,
            *self == CommandHeaderError::VersionMismatch ==> m@ == "command protocol version does not match"@,
            *self == CommandHeaderError::NegativeCount ==> m@ == "command count is negative"@,
            *self == CommandHeaderError::LengthMismatch ==> m@ == "declared command length does not match the buffer"@,
    {
        match self {
            CommandHeaderError::TooShort => "buffer is shorter than the command header",
            CommandHeaderError::MagicMismatch => "command magic does not match",
            CommandHeaderError::VersionMismatch => "command protocol version does not match",
            CommandHeaderError::NegativeCount => "command count is negative",
            CommandHeaderError::LengthMismatch => "declared command length does not match the buffer",
        }
    }
}

/// The signed 32-bit number stored at `at`.
pub open spec fn field_i32(data: Seq<u8>, at: int) -> int {
    signed32(native4(data.subrange(at, at + 4)))
}

/// The signed 16-bit number stored at `at`.
pub open spec fn field_i16(data: Seq<u8>, at: int) -> int {
    signed16(native2(data.subrange(at, at + 2)))
}

/// The 64-bit word stored at `at`.
pub open spec fn field_u64(data: Seq<u8>, at: int) -> int {
    native8(data.subrange(at, at + 8))
}

/// What the header check decides for a buffer: the first failing check,
/// in the order length, magic, version, count, declared length.
pub open spec fn header_outcome(data: Seq<u8>) -> Result<usize, CommandHeaderError> {
    if data.len() < COMMAND_HEADER_SIZE {
        Err(CommandHeaderError::TooShort)
    } else if field_i32(data, 0) != COMMAND_MAGIC {
        Err(CommandHeaderError::MagicMismatch)
    } else if field_i16(data, 4) != COMMAND_PROTOCOL_VERSION {
        Err(CommandHeaderError::VersionMismatch)
    } else if field_i32(data, 6) < 0 {
        Err(CommandHeaderError::NegativeCount)
    } else if field_i32(data, 10) < 0 || field_i32(data, 10) != data.len() {
        Err(CommandHeaderError::LengthMismatch)
    } else {
        Ok(field_i32(data, 6) as usize)
    }
}

fn read_i32(data: &[u8], at: usize) -> (r: i32)
    requires
        at + 4 <= data@.len(),
        data@.len() <= usize::MAX,
    ensures
        r == field_i32(data@, at as int),
{
    let b: [u8; 4] = [data[at], data[at + 1], data[at + 2], data[at + 3]];
    assert(b@ =~= data@.subrange(at as int, at + 4));
    i32_from_native(b)
}

fn read_i16(data: &[u8], at: usize) -> (r: i16)
    requires
        at + 2 <= data@.len(),
        data@.len() <= usize::MAX,
    ensures
        r == field_i16(data@, at as int),
{
    let b: [u8; 2] = [data[at], data[at + 1]];
    assert(b@ =~= data@.subrange(at as int, at + 2));
    i16_from_native(b)
}

fn read_u64(data: &[u8], at: usize) -> (r: u64)
    requires
        at + 8 <= data@.len(),
        data@.len() <= usize::MAX,
    ensures
        r == field_u64(data@, at as int),
{
    let b: [u8; 8] = [
        data[at], data[at + 1], data[at + 2], data[at + 3],
        data[at + 4], data[at + 5], data[at + 6], data[at + 7],
    ];
    assert(b@ =~= data@.subrange(at as int, at + 8));
    u64_from_native(b)
}

/// Checks the header of a command buffer and returns the declared number
/// of commands.
pub fn validate_command_header(data: &[u8]) -> (r: Result<usize, CommandHeaderError>)
    ensures
        r == header_outcome(data@),
{
    if data.len() < COMMAND_HEADER_SIZE {
        return Err(CommandHeaderError::TooShort);
    }
    let magic = read_i32(data, 0);
    let version = read_i16(data, 4);
    let command_count = read_i32(data, 6);
    let declared_length = read_i32(data, 10);
    if magic != COMMAND_MAGIC {
        return Err(CommandHeaderError::MagicMismatch);
    }
    if version != COMMAND_PROTOCOL_VERSION {
        return Err(CommandHeaderError::VersionMismatch);
    }
    if command_count < 0 {
        return Err(CommandHeaderError::NegativeCount);
    }
    if declared_length < 0 || declared_length as usize != data.len() {
        return Err(CommandHeaderError::LengthMismatch);
    }
    Ok(command_count as usize)
}


/// Three `f64` values, each kept as its bit pattern.
#[derive(Clone, Copy, Debug, PartialEq, Eq, Structural)]
pub struct VectorBits {
    pub x: u64,
    pub y: u64,
    pub z: u64,
}

/// One decoded command of the buffer.
#[derive(Clone, Copy, Debug, PartialEq, Eq, Structural)]
pub enum PhysicsCommand {
    /// Opcode 1: an impulse applied at a world point.
    ApplyImpulse { id: i32, point: VectorBits, impulse: VectorBits, wake_up: bool },
    /// Opcode 2: a linear and an angular impulse.
    ApplyLinearAndAngularImpulse { id: i32, linear: VectorBits, angular: VectorBits, wake_up: bool },
    /// Opcode 3: velocities added to the body's linear and angular velocity.
    AddLinearAndAngularVelocity { id: i32, linear: VectorBits, angular: VectorBits, wake_up: bool },
    /// Opcode 4: wake the body.
    WakeUp { id: i32 },
}

/// Where decoding stopped.
#[derive(Clone, Copy, Debug, PartialEq, Eq, Structural)]
pub enum CommandBufferStop {
    /// All declared commands were decoded.
    Complete,
    /// The buffer ended before all declared commands.
    BufferEnded,
    /// An opcode that the protocol does not define.
    UnknownOpcode { opcode: u8 },
    /// A command whose payload runs past the end of the buffer.
    Truncated { opcode: u8, expected: usize, found: usize },
}

/// The commands decoded from one buffer, where decoding stopped, and how
/// many bytes it read.
pub struct CommandBatch {
    pub commands: Vec<PhysicsCommand>,
    pub stop: CommandBufferStop,
    pub consumed: usize,
}

/// Payload size of an opcode, or `None` for an undefined opcode.
pub open spec fn payload_length(opcode: u8) -> Option<nat> {
    if 1 <= opcode <= 3 {
        Some(53)
    } else if opcode == 4 {
        Some(4)
    } else {
        None
    }
}

/// Three words at `at`.
pub open spec fn vector_at(data: Seq<u8>, at: int) -> VectorBits {
    VectorBits {
        x: field_u64(data, at) as u64,
        y: field_u64(data, at + 8) as u64,
        z: field_u64(data, at + 16) as u64,
    }
}

/// The command with opcode `opcode` whose payload starts at `at`.
pub open spec fn command_at(data: Seq<u8>, opcode: u8, at: int) -> PhysicsCommand {
    let id = field_i32(data, at) as i32;
    if opcode == 1 {
        PhysicsCommand::ApplyImpulse {
            id,
            point: vector_at(data, at + 4),
            impulse: vector_at(data, at + 28),
            wake_up: data[at + 52] != 0,
        }
    } else if opcode == 2 {
        PhysicsCommand::ApplyLinearAndAngularImpulse {
            id,
            linear: vector_at(data, at + 4),
            angular: vector_at(data, at + 28),
            wake_up: data[at + 52] != 0,
        }
    } else if opcode == 3 {
        PhysicsCommand::AddLinearAndAngularVelocity {
            id,
            linear: vector_at(data, at + 4),
            angular: vector_at(data, at + 28),
            wake_up: data[at + 52] != 0,
        }
    } else {
        PhysicsCommand::WakeUp { id }
    }
}

/// Decoding of `remaining` commands starting at byte `at`: the commands
/// read, where decoding stopped, and the offset after the last byte read.
pub open spec fn commands_from(data: Seq<u8>, at: nat, remaining: nat) -> (Seq<PhysicsCommand>, CommandBufferStop, nat)
    decreases remaining,
{
    if remaining == 0 {
        (Seq::empty(), CommandBufferStop::Complete, at)
    } else if at >= data.len() {
        (Seq::empty(), CommandBufferStop::BufferEnded, at)
    } else {
        let opcode = data[at as int];
        match payload_length(opcode) {
            None => (Seq::empty(), CommandBufferStop::UnknownOpcode { opcode }, at + 1),
            Some(p) => if data.len() - (at + 1) < p {
                (
                    Seq::empty(),
                    CommandBufferStop::Truncated {
                        opcode,
                        expected: p as usize,
                        found: (data.len() - (at + 1)) as usize,
                    },
                    at + 1,
                )
            } else {
                let rest = commands_from(data, at + 1 + p, (remaining - 1) as nat);
                (seq![command_at(data, opcode, (at + 1) as int)].add(rest.0), rest.1, rest.2)
            },
        }
    }
}

/// Decoding of a whole buffer whose header declares `count` commands.
pub open spec fn buffer_commands(data: Seq<u8>, count: nat) -> (Seq<PhysicsCommand>, CommandBufferStop, nat) {
    commands_from(data, COMMAND_HEADER_SIZE as nat, count)
}

fn read_vector(data: &[u8], at: usize) -> (v: VectorBits)
    requires
        at + 24 <= data@.len(),
        data@.len() <= usize::MAX,
    ensures
        v == vector_at(data@, at as int),
{
    let x = read_u64(data, at);
    let y = read_u64(data, at + 8);
    let z = read_u64(data, at + 16);
    VectorBits { x, y, z }
}

fn read_command(data: &[u8], opcode: u8, at: usize) -> (c: PhysicsCommand)
    requires
        payload_length(opcode) is Some,
        at + payload_length(opcode)->0 <= data@.len(),
        data@.len() <= usize::MAX,
    ensures
        c == command_at(data@, opcode, at as int),
        opcode == 1 ==> c == (PhysicsCommand::ApplyImpulse {
            id: field_i32(data@, at as int) as i32,
            point: VectorBits {
                x: field_u64(data@, at + 4) as u64,
                y: field_u64(data@, at + 12) as u64,
                z: field_u64(data@, at + 20) as u64,
            },
            impulse: VectorBits {
                x: field_u64(data@, at + 28) as u64,
                y: field_u64(data@, at + 36) as u64,
                z: field_u64(data@, at + 44) as u64,
            },
            wake_up: data@[at + 52] != 0,
        }),
        opcode == 2 ==> c == (PhysicsCommand::ApplyLinearAndAngularImpulse {
            id: field_i32(data@, at as int) as i32,
            linear: VectorBits {
                x: field_u64(data@, at + 4) as u64,
                y: field_u64(data@, at + 12) as u64,
                z: field_u64(data@, at + 20) as u64,
            },
            angular: VectorBits {
                x: field_u64(data@, at + 28) as u64,
                y: field_u64(data@, at + 36) as u64,
                z: field_u64(data@, at + 44) as u64,
            },
            wake_up: data@[at + 52] != 0,
        }),
        opcode == 3 ==> c == (PhysicsCommand::AddLinearAndAngularVelocity {
            id: field_i32(data@, at as int) as i32,
            linear: VectorBits {
                x: field_u64(data@, at + 4) as u64,
                y: field_u64(data@, at + 12) as u64,
                z: field_u64(data@, at + 20) as u64,
            },
            angular: VectorBits {
                x: field_u64(data@, at + 28) as u64,
                y: field_u64(data@, at + 36) as u64,
                z: field_u64(data@, at + 44) as u64,
            },
            wake_up: data@[at + 52] != 0,
        }),
        opcode == 4 ==> c == (PhysicsCommand::WakeUp { id: field_i32(data@, at as int) as i32 }),
{
    let id = read_i32(data, at);
    if opcode == 4 {
        return PhysicsCommand::WakeUp { id };
    }
    let first = read_vector(data, at + 4);
    let second = read_vector(data, at + 28);
    let wake_up = data[at + 52] != 0;
    if opcode == 1 {
        PhysicsCommand::ApplyImpulse { id, point: first, impulse: second, wake_up }
    } else if opcode == 2 {
        PhysicsCommand::ApplyLinearAndAngularImpulse { id, linear: first, angular: second, wake_up }
    } else {
        PhysicsCommand::AddLinearAndAngularVelocity { id, linear: first, angular: second, wake_up }
    }
}

/// Decodes the commands of a buffer. Commands before the first malformed
/// one are returned; `stop` says why decoding ended.
pub fn decode_command_buffer(data: &[u8]) -> (r: Result<CommandBatch, CommandHeaderError>)
    ensures
        match header_outcome(data@) {
            Err(e) => r == Err::<CommandBatch, CommandHeaderError>(e),
            Ok(count) => r matches Ok(batch) && {
                let decoded = buffer_commands(data@, count as nat);
                &&& batch.commands@ == decoded.0
                &&& batch.stop == decoded.1
                &&& batch.consumed == decoded.2
            },
        },
{
    let command_count = match validate_command_header(data) {
        Ok(c) => c,
        Err(e) => return Err(e),
    };
    let ghost whole = buffer_commands(data@, command_count as nat);
    let mut commands: Vec<PhysicsCommand> = Vec::new();
    let mut offset: usize = COMMAND_HEADER_SIZE;
    let mut commands_read: usize = 0;
    while commands_read < command_count
        invariant
            header_outcome(data@) == Ok::<usize, CommandHeaderError>(command_count),
            whole == buffer_commands(data@, command_count as nat),
            commands_read <= command_count,
            COMMAND_HEADER_SIZE <= offset <= data@.len(),
            data@.len() < 0x8000_0000,
            ({
                let rest = commands_from(data@, offset as nat, (command_count - commands_read) as nat);
                &&& whole.0 == commands@.add(rest.0)
                &&& whole.1 == rest.1
                &&& whole.2 == rest.2
            }),
        decreases command_count - commands_read,
    {
        let ghost rest = commands_from(data@, offset as nat, (command_count - commands_read) as nat);
        if offset >= data.len() {
            assert(commands_from(data@, offset as nat, (command_count - commands_read) as nat).0 =~= Seq::empty());
            assert(whole.0 =~= commands@);
            return Ok(CommandBatch { commands, stop: CommandBufferStop::BufferEnded, consumed: offset });
        }
        let opcode = data[offset];
        offset = offset + 1;
        let payload: usize = if opcode >= 1 && opcode <= 3 {
            53
        } else if opcode == 4 {
            4
        } else {
            assert(whole.0 =~= commands@);
            return Ok(CommandBatch { commands, stop: CommandBufferStop::UnknownOpcode { opcode }, consumed: offset });
        };
        if data.len() - offset < payload {
            assert(whole.0 =~= commands@);
            return Ok(CommandBatch {
                commands,
                stop: CommandBufferStop::Truncated { opcode, expected: payload, found: data.len() - offset },
                consumed: offset,
            });
        }
        let command = read_command(data, opcode, offset);
        let ghost before = commands@;
        commands.push(command);
        offset = offset + payload;
        commands_read = commands_read + 1;
        proof {
            let next = commands_from(data@, offset as nat, (command_count - commands_read) as nat);
            assert(rest.0 =~= seq![command].add(next.0));
            assert(whole.0 =~= commands@.add(next.0));
        }
    }
    assert(whole.0 =~= commands@);
    Ok(CommandBatch { commands, stop: CommandBufferStop::Complete, consumed: offset })
}

} // verus!

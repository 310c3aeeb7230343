use worldengine_rapier::command::{
    decode_command_buffer, validate_command_header, CommandBufferStop, CommandHeaderError, PhysicsCommand,
    VectorBits, COMMAND_HEADER_SIZE, COMMAND_MAGIC, COMMAND_PROTOCOL_VERSION,
};

fn header_for(count: i32, total_len: i32) -> Vec<u8> {
    let mut header = Vec::new();
    header.extend_from_slice(&COMMAND_MAGIC.to_ne_bytes());
    header.extend_from_slice(&COMMAND_PROTOCOL_VERSION.to_ne_bytes());
    header.extend_from_slice(&count.to_ne_bytes());
    header.extend_from_slice(&total_len.to_ne_bytes());
    header
}

fn bits(x: f64, y: f64, z: f64) -> VectorBits {
    VectorBits { x: x.to_bits(), y: y.to_bits(), z: z.to_bits() }
}

#[test]
fn command_header_rejects_version_and_length_mismatches() {
    let mut header = Vec::new();
    header.extend_from_slice(&COMMAND_MAGIC.to_ne_bytes());
    header.extend_from_slice(&COMMAND_PROTOCOL_VERSION.to_ne_bytes());
    header.extend_from_slice(&0_i32.to_ne_bytes());
    header.extend_from_slice(&(COMMAND_HEADER_SIZE as i32).to_ne_bytes());
    assert_eq!(validate_command_header(&header), Ok(0));

    let mut wrong_version = header.clone();
    wrong_version[4..6].copy_from_slice(&2_i16.to_ne_bytes());
    assert!(validate_command_header(&wrong_version).is_err());

    let mut wrong_length = header;
    wrong_length[10..14].copy_from_slice(&999_i32.to_ne_bytes());
    assert!(validate_command_header(&wrong_length).is_err());
    assert!(validate_command_header(&wrong_length[..8]).is_err());
}

#[test]
fn header_errors_name_the_first_failing_check() {
    let good = header_for(3, 14);
    assert_eq!(validate_command_header(&good), Ok(3));
    assert_eq!(validate_command_header(&good[..13]), Err(CommandHeaderError::TooShort));

    let mut bad_magic = good.clone();
    bad_magic[0] ^= 0xFF;
    assert_eq!(validate_command_header(&bad_magic), Err(CommandHeaderError::MagicMismatch));

    let mut bad_version = good.clone();
    bad_version[4..6].copy_from_slice(&7_i16.to_ne_bytes());
    assert_eq!(validate_command_header(&bad_version), Err(CommandHeaderError::VersionMismatch));

    let negative = header_for(-1, 14);
    assert_eq!(validate_command_header(&negative), Err(CommandHeaderError::NegativeCount));

    let wrong_len = header_for(0, 15);
    assert_eq!(validate_command_header(&wrong_len), Err(CommandHeaderError::LengthMismatch));
    let negative_len = header_for(0, -14);
    assert_eq!(validate_command_header(&negative_len), Err(CommandHeaderError::LengthMismatch));
}

#[test]
fn header_error_messages_are_distinct() {
    assert_eq!(CommandHeaderError::TooShort.message(), "buffer is shorter than the command header");
    assert_eq!(CommandHeaderError::LengthMismatch.message(), "declared command length does not match the buffer");
    assert_ne!(CommandHeaderError::MagicMismatch.message(), CommandHeaderError::VersionMismatch.message());
    assert_eq!(CommandHeaderError::NegativeCount.message(), "command count is negative");
}

#[test]
fn decoder_reads_each_opcode() {
    let mut body = Vec::new();
    body.push(1u8);
    body.extend_from_slice(&7_i32.to_ne_bytes());
    for v in [1.0f64, 2.0, 3.0, 4.0, 5.0, 6.0] {
        body.extend_from_slice(&v.to_bits().to_ne_bytes());
    }
    body.push(1u8);
    body.push(4u8);
    body.extend_from_slice(&9_i32.to_ne_bytes());
    body.push(3u8);
    body.extend_from_slice(&(-2_i32).to_ne_bytes());
    for v in [0.5f64, -0.5, 0.25, 8.0, 9.0, 10.0] {
        body.extend_from_slice(&v.to_bits().to_ne_bytes());
    }
    body.push(0u8);
    let total = 14 + body.len();
    let mut data = header_for(3, total as i32);
    data.extend_from_slice(&body);

    let batch = decode_command_buffer(&data).unwrap();
    assert_eq!(batch.stop, CommandBufferStop::Complete);
    assert_eq!(batch.consumed, total);
    assert_eq!(batch.commands.len(), 3);
    assert_eq!(
        batch.commands[0],
        PhysicsCommand::ApplyImpulse { id: 7, point: bits(1.0, 2.0, 3.0), impulse: bits(4.0, 5.0, 6.0), wake_up: true }
    );
    assert_eq!(batch.commands[1], PhysicsCommand::WakeUp { id: 9 });
    assert_eq!(
        batch.commands[2],
        PhysicsCommand::AddLinearAndAngularVelocity {
            id: -2,
            linear: bits(0.5, -0.5, 0.25),
            angular: bits(8.0, 9.0, 10.0),
            wake_up: false,
        }
    );
}

#[test]
fn decoder_stops_at_unknown_opcode_and_truncation() {
    let mut data = header_for(2, 14 + 6);
    data.push(4u8);
    data.extend_from_slice(&5_i32.to_ne_bytes());
    data.push(42u8);
    let batch = decode_command_buffer(&data).unwrap();
    assert_eq!(batch.commands, vec![PhysicsCommand::WakeUp { id: 5 }]);
    assert_eq!(batch.stop, CommandBufferStop::UnknownOpcode { opcode: 42 });

    let mut short = header_for(1, 14 + 3);
    short.push(2u8);
    short.push(0u8);
    short.push(0u8);
    let batch = decode_command_buffer(&short).unwrap();
    assert!(batch.commands.is_empty());
    assert_eq!(batch.stop, CommandBufferStop::Truncated { opcode: 2, expected: 53, found: 2 });

    let ended = header_for(2, 14 + 5);
    let mut ended = ended;
    ended.push(4u8);
    ended.extend_from_slice(&1_i32.to_ne_bytes());
    let batch = decode_command_buffer(&ended).unwrap();
    assert_eq!(batch.commands.len(), 1);
    assert_eq!(batch.stop, CommandBufferStop::BufferEnded);

    assert_eq!(decode_command_buffer(&[0u8; 4]).err(), Some(CommandHeaderError::TooShort));
}

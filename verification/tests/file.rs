use tardi::consts::{Instruction, MachineWord};
use tardi::file::{FileError, decode_program, encode_program, parse_version_to_byte};
use tardi::instr::OpCode;
use tardi::util::{instructions_from_word, patch_jmp, push_jmp};

#[test]
fn round_trip_to_buffer() {
    let mut original_program: Vec<Instruction> = vec![OpCode::Add.into(), OpCode::PushImm.into()];
    original_program.extend_from_slice(&instructions_from_word(123 as MachineWord));
    let offset = push_jmp(&mut original_program, OpCode::Jmp);
    patch_jmp(&mut original_program, offset, 0);
    let original_data = vec![
        12345 as MachineWord,
        67890 as MachineWord,
        0 as MachineWord,
        0 as MachineWord,
    ];

    let buf = encode_program(&original_program, &original_data)
        .expect("encoding to buffer should throw no errors");
    let (decoded_program, decoded_data) =
        decode_program(&buf).expect("decoding known good buffer should thrown no error");
    assert_eq!(
        original_program, decoded_program,
        "program recovered from buffer should match original"
    );
    assert_eq!(
        original_data, decoded_data,
        "data recovered from buffer should match original"
    );
}

#[test]
fn header_layout() {
    let bytes = encode_program(&[0x01, 0x02], &[-2]).unwrap();
    assert_eq!(
        vec![
            0x00, 0x1a, 0xd1, 0xbc, // magic
            0x00, 0x01, 0x00, 0x0b, // version 0.1.0, format 11
            0x00, 0x00, 0x00, 0x11, // int-word and data attached
            0x00, 0x00, 0x00, 0x01, // one data word
            0xfe, 0xff, 0xff, 0xff, // the data word
            0x01, 0x02, // the program
        ],
        bytes
    );
    let bytes = encode_program(&[0x05], &[]).unwrap();
    assert_eq!(0x01, bytes[11]);
    assert_eq!(17, bytes.len());
    assert_eq!((vec![0x05], vec![]), decode_program(&bytes).unwrap());
}

fn header(magic: u32, version: u32, flags: u32, count: u32) -> Vec<u8> {
    let mut v = Vec::new();
    for x in [magic, version, flags, count] {
        v.extend_from_slice(&x.to_be_bytes());
    }
    v
}

#[test]
fn decode_errors() {
    let good = header(0x001A_D1BC, 0x0001_000b, 0x1, 0);
    assert!(decode_program(&good).is_ok());
    assert!(matches!(decode_program(&header(0x001A_D1BD, 0x0001_000b, 0x1, 0)), Err(FileError::InvalidMagic)));
    assert!(matches!(decode_program(&header(0x001A_D1BC, 0x0001_000c, 0x1, 0)), Err(FileError::VersionMissmatch)));
    // Only the format version byte matters.
    assert!(decode_program(&header(0x001A_D1BC, 0x0907_050b, 0x1, 0)).is_ok());
    assert!(matches!(decode_program(&header(0x001A_D1BC, 0x0001_000b, 0x3, 0)), Err(FileError::FlagMismatch)));
    assert!(matches!(decode_program(&header(0x001A_D1BC, 0x0001_000b, 0x0, 0)), Err(FileError::FlagMismatch)));
    // Undefined flag bits are ignored.
    assert!(decode_program(&header(0x001A_D1BC, 0x0001_000b, 0x8000_0001, 0)).is_ok());
    // A data word count needs the data attached flag, and the data words.
    assert!(matches!(decode_program(&header(0x001A_D1BC, 0x0001_000b, 0x1, 1)), Err(FileError::InvalidFormat)));
    assert!(matches!(decode_program(&header(0x001A_D1BC, 0x0001_000b, 0x11, 1)), Err(FileError::InvalidFormat)));
    let mut with_data = header(0x001A_D1BC, 0x0001_000b, 0x11, 1);
    with_data.extend_from_slice(&[7, 0, 0, 0, 9]);
    assert_eq!((vec![9], vec![7]), decode_program(&with_data).unwrap());
    // A file cut short inside its header is truncated.
    assert!(matches!(decode_program(&good[..3]), Err(FileError::InvalidFormat)));
    assert!(matches!(decode_program(&good[..15]), Err(FileError::InvalidFormat)));
    assert!(matches!(decode_program(&good[..4]), Err(FileError::InvalidFormat)));
    assert!(matches!(decode_program(&[]), Err(FileError::InvalidFormat)));
    // The magic number is checked before the length.
    assert!(matches!(decode_program(&[0, 0, 0, 0, 1]), Err(FileError::InvalidMagic)));
}

#[test]
fn io_errors_convert() {
    let e = std::io::Error::from(std::io::ErrorKind::Other);
    assert!(matches!(FileError::from(e), FileError::Io(_)));
}

#[test]
fn version_components_parse_to_bytes() {
    assert_eq!(0, parse_version_to_byte("0"));
    assert_eq!(12, parse_version_to_byte("12"));
    assert_eq!(255, parse_version_to_byte("255"));
    assert_eq!(4, parse_version_to_byte("260"));
}

#[test]
fn error_messages() {
    assert_eq!("invalid magic number", FileError::InvalidMagic.message());
    assert_eq!("feature flags do not match the current build", FileError::FlagMismatch.message());
    assert_eq!("incompatible format version", FileError::VersionMissmatch.message());
    assert_eq!("malformed file format", FileError::InvalidFormat.message());
    let io = FileError::Io(std::io::Error::new(std::io::ErrorKind::Other, "disk on fire"));
    assert_eq!("IO error: disk on fire", io.message());
}

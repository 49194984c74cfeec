//! Encode and decode programs and their input data in the tardi file format.
//!
//! # File format
//!
//! All header values are stored in big endian byte order.
//! The header occupies 16 bytes followed by a flat instruction stream:
//!
//! | Offset | Size    | Field           | Description                                                             |
//! |--------|---------|-----------------|-------------------------------------------------------------------------|
//! | 0      | 4 bytes | Magic           | Always `0x001A_D1BC` as `u32`.                                          |
//! | 4      | 4 bytes | Version         | Crate version as top three bytes, format version as last byte.         |
//! | 8      | 4 bytes | Flags           | [`FileFlags`] feature bits encoded as `u32`.                            |
//! | 12     | 4 bytes | Data word count | Number of input [`MachineWord`]s following the header.                  |
//!
//! After the header the rest of the file is a flat sequence of [`Instruction`]s, one byte each.
//! The first `data_word_count * INSTR_PER_WORD` (four) of them encode the interpreter input data
//! (each word as by [`instructions_from_word`]); the rest is the program bytecode.
//!
//! Decoding a file whose feature flags (excluding [`FLAG_DATA_ATTACHED`]) differ from those
//! of this build is rejected. A non-zero data word count requires [`FLAG_DATA_ATTACHED`].
//!
//! Reading and writing the bytes is left to the caller; the functions here
//! turn a program into the bytes of a file and back.
use crate::consts::{Instruction, MachineWord};
use crate::util::{instructions_from_word, word_bytes, word_from_instructions, word_of};
use vstd::prelude::*;
use vstd::string::StringSliceAdditionalSpecFns;

verus! {

/// `std::io::Error`, the error of a failed read or write.
#[verifier::external_type_specification]
#[verifier::external_body]
pub struct ExIoError(std::io::Error);

/// The first four bytes of every file.
pub const MAGIC: u32 = 0x001A_D1BC;

/// The version of the file layout, stored in the lowest byte of the version field.
pub const FORMAT_VERSION: u32 = 11;

/// Major version of this crate, as written into files.
pub const CRATE_VERSION_MAJOR: &'static str = "0";

/// Minor version of this crate, as written into files.
pub const CRATE_VERSION_MINOR: &'static str = "1";

/// Patch version of this crate, as written into files.
pub const CRATE_VERSION_PATCH: &'static str = "0";

/// The `int-word` build option is set.
pub const FLAG_INT_WORD: u32 = 0x0000_0001;

/// The `long-word` build option is set.
pub const FLAG_LONG_WORD: u32 = 0x0000_0002;

/// The `long-instruction` build option is set.
pub const FLAG_LONG_INSTRUCTION: u32 = 0x0000_0004;

/// The `long-address` build option is set.
pub const FLAG_LONG_ADDRESS: u32 = 0x0000_0008;

/// Input data is attached to the program.
pub const FLAG_DATA_ATTACHED: u32 = 0x0000_0010;

/// All defined flag bits.
pub const ALL_FLAGS: u32 = 0x0000_001f;

/// Represents the set of flags that can be set in a file.
#[derive(Debug, Clone, Copy, PartialEq, Eq, Structural, PartialOrd, Ord, Hash)]
pub struct FileFlags {
    bits: u32,
}

impl FileFlags {
    /// The raw bits of the set.
    pub closed spec fn bits_of(self) -> u32 {
        self.bits
    }

    /// The empty set.
    pub fn empty() -> (f: FileFlags)
        ensures
            f.bits_of() == 0,
    {
        FileFlags { bits: 0 }
    }

    /// The set of the defined flags among `bits`; other bits are dropped.
    pub fn from_bits_truncate(bits: u32) -> (f: FileFlags)
        ensures
            f.bits_of() == bits & ALL_FLAGS,
    {
        FileFlags { bits: bits & ALL_FLAGS }
    }

    /// The raw bits of the set.
    pub fn bits(&self) -> (b: u32)
        ensures
            b == self.bits_of(),
    {
        self.bits
    }

    /// The flags in either set.
    pub fn union(self, other: FileFlags) -> (f: FileFlags)
        ensures
            f.bits_of() == self.bits_of() | other.bits_of(),
    {
        FileFlags { bits: self.bits | other.bits }
    }

    /// The flags of `self` that are not in `other`.
    pub fn difference(self, other: FileFlags) -> (f: FileFlags)
        ensures
            f.bits_of() == self.bits_of() & !other.bits_of(),
    {
        FileFlags { bits: self.bits & !other.bits }
    }

    /// Whether every flag of `other` is in `self`.
    pub fn contains(&self, other: FileFlags) -> (b: bool)
        ensures
            b == (self.bits_of() & other.bits_of() == other.bits_of()),
    {
        self.bits & other.bits == other.bits
    }
}

/// The flags that describe this build: integer machine words, short
/// instructions and addresses.
fn expected_flags() -> (f: FileFlags)
    ensures
        f.bits_of() == FLAG_INT_WORD,
{
    let f = FileFlags::empty().union(FileFlags::from_bits_truncate(FLAG_INT_WORD));
    assert(0u32 | (1u32 & 0x1fu32) == 1u32) by (bit_vector);
    f
}

/// The value of a string of decimal digit bytes.
pub open spec fn decimal_value(s: Seq<u8>) -> int
    decreases s.len(),
{
    if s.len() == 0 {
        0
    } else {
        10 * decimal_value(s.drop_last()) + (s.last() - 48)
    }
}

/// Whether every byte of `s` is a decimal digit.
pub open spec fn all_digits(s: Seq<u8>) -> bool {
    forall|i: int| 0 <= i < s.len() ==> 48 <= #[trigger] s[i] <= 57
}

/// A prefix of a digit string has no larger value than the string.
proof fn lemma_decimal_prefix_le(s: Seq<u8>, i: int)
    requires
        all_digits(s),
        0 <= i <= s.len(),
    ensures
        0 <= decimal_value(s.take(i)) <= decimal_value(s),
    decreases s.len() - i,
{
    if i < s.len() {
        lemma_decimal_prefix_le(s, i + 1);
        assert(s.take(i + 1).drop_last() =~= s.take(i));
        assert(s.take(i + 1).last() == s[i]);
        lemma_decimal_nonnegative(s.take(i));
    } else {
        assert(s.take(i) =~= s);
        lemma_decimal_nonnegative(s);
    }
}

proof fn lemma_decimal_nonnegative(s: Seq<u8>)
    requires
        all_digits(s),
    ensures
        decimal_value(s) >= 0,
    decreases s.len(),
{
    if s.len() > 0 {
        lemma_decimal_nonnegative(s.drop_last());
    }
}

/// Converts the decimal string representation of a number to a byte,
/// keeping the lowest eight bits if the number is larger.
pub fn parse_version_to_byte(s: &str) -> (b: u8)
    requires
        all_digits(s.spec_bytes()),
        decimal_value(s.spec_bytes()) <= u32::MAX,
    ensures
        b == decimal_value(s.spec_bytes()) % 256,
{
    let bytes = s.as_bytes();
    let mut rslt: u32 = 0;
    let mut i: usize = 0;
    while i < bytes.len()
        invariant
            bytes@ == s.spec_bytes(),
            all_digits(bytes@),
            decimal_value(bytes@) <= u32::MAX,
            i <= bytes@.len(),
            rslt == decimal_value(bytes@.take(i as int)),
        decreases bytes@.len() - i,
    {
        proof {
            lemma_decimal_prefix_le(bytes@, i + 1);
            assert(bytes@.take(i + 1).drop_last() =~= bytes@.take(i as int));
        }
        let ch = bytes[i];
        rslt = rslt * 10 + (ch - 48) as u32;
        i = i + 1;
    }
    assert(bytes@.take(i as int) =~= bytes@);
    (rslt % 256) as u8
}

/// The big endian bytes of `v`.
pub open spec fn be32_bytes(v: u32) -> Seq<u8> {
    seq![
        (v / 16777216) as u8,
        ((v / 65536) % 256) as u8,
        ((v / 256) % 256) as u8,
        (v % 256) as u8,
    ]
}

/// The value of the four big endian bytes of `b` from `at`.
pub open spec fn be32_at(b: Seq<u8>, at: int) -> u32 {
    (16777216 * b[at] + 65536 * b[at + 1] + 256 * b[at + 2] + b[at + 3]) as u32
}

/// The version word that this build writes.
pub open spec fn version_word() -> u32 {
    ((decimal_value(CRATE_VERSION_MAJOR.spec_bytes()) % 256) * 16777216 + (decimal_value(
        CRATE_VERSION_MINOR.spec_bytes(),
    ) % 256) * 65536 + (decimal_value(CRATE_VERSION_PATCH.spec_bytes()) % 256) * 256
        + FORMAT_VERSION) as u32
}

/// The bytes of the data words, each as its four instructions.
pub open spec fn words_bytes(data: Seq<MachineWord>) -> Seq<u8>
    decreases data.len(),
{
    if data.len() == 0 {
        Seq::empty()
    } else {
        words_bytes(data.drop_last()) + word_bytes(data.last())
    }
}

/// The flags written for a file with the given input data.
pub open spec fn written_flags(data: Seq<MachineWord>) -> u32 {
    if data.len() == 0 {
        FLAG_INT_WORD
    } else {
        FLAG_INT_WORD | FLAG_DATA_ATTACHED
    }
}

/// The bytes of a file holding `instructions` and the input `data`.
pub open spec fn file_bytes(instructions: Seq<Instruction>, data: Seq<MachineWord>) -> Seq<u8> {
    be32_bytes(MAGIC) + be32_bytes(version_word()) + be32_bytes(written_flags(data)) + be32_bytes(
        data.len() as u32,
    ) + words_bytes(data) + instructions
}

/// Why a file could not be decoded.
#[derive(Debug, Clone, Copy, PartialEq, Eq, Structural)]
pub enum FileErrorKind {
    /// A read or write failed.
    Io,
    InvalidMagic,
    FlagMismatch,
    VersionMissmatch,
    InvalidFormat,
}

/// Errors that can occur when reading or writing a tardi file.
#[derive(Debug)]
pub enum FileError {
    /// An underlying IO error occurred.
    Io(std::io::Error),
    /// The file does not begin with the expected magic number.
    InvalidMagic,
    /// The feature flags stored in the file do not match the current build.
    FlagMismatch,
    /// The format version stored in the file does not match [`FORMAT_VERSION`].
    VersionMissmatch,
    /// The file is malformed (truncated, misaligned, or has an inconsistent data word count).
    InvalidFormat,
}

impl FileError {
    /// The kind of an error, without the payload of an IO error.
    pub open spec fn kind(self) -> FileErrorKind {
        match self {
            FileError::Io(_) => FileErrorKind::Io,
            FileError::InvalidMagic => FileErrorKind::InvalidMagic,
            FileError::FlagMismatch => FileErrorKind::FlagMismatch,
            FileError::VersionMissmatch => FileErrorKind::VersionMissmatch,
            FileError::InvalidFormat => FileErrorKind::InvalidFormat,
        }
    }
}

/// The message of an error that is not an IO error.
pub open spec fn message_of(e: FileError) -> Seq<char> {
    match e {
        FileError::Io(_) => "IO error"@,
        FileError::InvalidMagic => "invalid magic number"@,
        FileError::FlagMismatch => "feature flags do not match the current build"@,
        FileError::VersionMissmatch => "incompatible format version"@,
        FileError::InvalidFormat => "malformed file format"@,
    }
}

/// `format!("IO error: {e}")`: the text of an IO error after a fixed prefix.
#[verifier::external_body]
fn io_error_message(e: &std::io::Error) -> (s: String)
    ensures
        s@.len() >= 10,
        s@.subrange(0, 10) == "IO error: "@,
{
    format!("IO error: {e}")
}

impl FileError {
    /// A description of the error for people.
    pub fn message(&self) -> (s: String)
        ensures
            match self {
                FileError::Io(_) => s@.len() >= 10 && s@.subrange(0, 10) == "IO error: "@,
                _ => s@ == message_of(*self),
            },
    {
        match self {
            FileError::Io(e) => io_error_message(e),
            FileError::InvalidMagic => "invalid magic number".to_owned(),
            FileError::FlagMismatch => "feature flags do not match the current build".to_owned(),
            FileError::VersionMissmatch => "incompatible format version".to_owned(),
            FileError::InvalidFormat => "malformed file format".to_owned(),
        }
    }
}

impl From<std::io::Error> for FileError {
    fn from(e: std::io::Error) -> (r: Self) {
        FileError::Io(e)
    }
}

impl vstd::std_specs::convert::FromSpecImpl<std::io::Error> for FileError {
    open spec fn obeys_from_spec() -> bool {
        true
    }

    open spec fn from_spec(v: std::io::Error) -> Self {
        FileError::Io(v)
    }
}

/// The input words encoded in the first `4 * n` bytes of `raw`.
pub open spec fn words_of(raw: Seq<u8>, n: nat) -> Seq<MachineWord> {
    Seq::new(n, |k: int| word_of(raw.subrange(4 * k, 4 * k + 4)))
}

/// What decoding the bytes `b` of a file gives: the program and the input
/// data, or why the bytes are not a file of this build.
/// Bytes that end inside the header, or before the data words they announce,
/// are a truncated file: `InvalidFormat`.
pub open spec fn decoded(b: Seq<u8>) -> Result<(Seq<Instruction>, Seq<MachineWord>), FileErrorKind> {
    if b.len() < 4 {
        Err(FileErrorKind::InvalidFormat)
    } else if be32_at(b, 0) != MAGIC {
        Err(FileErrorKind::InvalidMagic)
    } else if b.len() < 8 {
        Err(FileErrorKind::InvalidFormat)
    } else if be32_at(b, 4) % 256 != FORMAT_VERSION {
        Err(FileErrorKind::VersionMissmatch)
    } else if b.len() < 12 {
        Err(FileErrorKind::InvalidFormat)
    } else if (be32_at(b, 8) & ALL_FLAGS) & !FLAG_DATA_ATTACHED != FLAG_INT_WORD {
        Err(FileErrorKind::FlagMismatch)
    } else if b.len() < 16 {
        Err(FileErrorKind::InvalidFormat)
    } else if be32_at(b, 12) > 0 && be32_at(b, 8) & FLAG_DATA_ATTACHED == 0 {
        Err(FileErrorKind::InvalidFormat)
    } else if b.len() - 16 < 4 * be32_at(b, 12) {
        Err(FileErrorKind::InvalidFormat)
    } else {
        let raw = b.skip(16);
        let n = be32_at(b, 12) as nat;
        Ok((raw.skip(4 * n as int), words_of(raw, n)))
    }
}

fn push_be32(out: &mut Vec<u8>, v: u32)
    ensures
        final(out)@ == old(out)@ + be32_bytes(v),
{
    out.push((v / 16777216) as u8);
    out.push(((v / 65536) % 256) as u8);
    out.push(((v / 256) % 256) as u8);
    out.push((v % 256) as u8);
    assert(final(out)@ =~= old(out)@ + be32_bytes(v));
}

fn read_be32(b: &[u8], at: usize) -> (v: u32)
    requires
        at + 4 <= b@.len(),
    ensures
        v == be32_at(b@, at as int),
{
    16777216 * (b[at] as u32) + 65536 * (b[at + 1] as u32) + 256 * (b[at + 2] as u32) + (b[at
        + 3] as u32)
}

/// The version word: the crate version in the top three bytes and
/// [`FORMAT_VERSION`] in the lowest.
fn version() -> (v: u32)
    ensures
        v == version_word(),
{
    proof {
        reveal_strlit("0");
        reveal_strlit("1");
        vstd::string::is_ascii_spec_bytes(CRATE_VERSION_MAJOR);
        vstd::string::is_ascii_spec_bytes(CRATE_VERSION_MINOR);
        vstd::string::is_ascii_spec_bytes(CRATE_VERSION_PATCH);
        assert(CRATE_VERSION_MAJOR.spec_bytes() =~= seq![48u8]);
        assert(CRATE_VERSION_MINOR.spec_bytes() =~= seq![49u8]);
        assert(CRATE_VERSION_PATCH.spec_bytes() =~= seq![48u8]);
        assert(decimal_value(seq![48u8].drop_last()) == 0);
        assert(decimal_value(seq![49u8].drop_last()) == 0);
    }
    let major = parse_version_to_byte(CRATE_VERSION_MAJOR) as u32;
    let minor = parse_version_to_byte(CRATE_VERSION_MINOR) as u32;
    let patch = parse_version_to_byte(CRATE_VERSION_PATCH) as u32;
    major * 16777216 + minor * 65536 + patch * 256 + FORMAT_VERSION
}

/// The bytes of a tardi file holding `instructions` and the input `data`.
///
/// # Errors
///
/// - [`FileError::InvalidFormat`] if `data` contains more than `u32::MAX` words.
pub fn encode_program(instructions: &[Instruction], data: &[MachineWord]) -> (r: Result<
    Vec<u8>,
    FileError,
>)
    ensures
        match r {
            Ok(bytes) => data@.len() <= u32::MAX && bytes@ == file_bytes(instructions@, data@),
            Err(e) => data@.len() > u32::MAX && e is InvalidFormat,
        },
{
    if data.len() > 0xffff_ffff {
        return Err(FileError::InvalidFormat);
    }
    let mut out: Vec<u8> = Vec::new();
    push_be32(&mut out, MAGIC);
    push_be32(&mut out, version());
    let mut flags = expected_flags();
    if data.len() > 0 {
        flags = flags.union(FileFlags::from_bits_truncate(FLAG_DATA_ATTACHED));
        assert(1u32 | (0x10u32 & 0x1fu32) == (1u32 | 0x10u32)) by (bit_vector);
    }
    push_be32(&mut out, flags.bits());
    push_be32(&mut out, data.len() as u32);
    let ghost header = out@;
    let mut k: usize = 0;
    while k < data.len()
        invariant
            k <= data@.len(),
            out@ == header + words_bytes(data@.take(k as int)),
        decreases data@.len() - k,
    {
        let parts = instructions_from_word(data[k]);
        out.push(parts[0]);
        out.push(parts[1]);
        out.push(parts[2]);
        out.push(parts[3]);
        assert(data@.take(k + 1).drop_last() =~= data@.take(k as int));
        k = k + 1;
        assert(out@ =~= header + words_bytes(data@.take(k as int)));
    }
    let ghost with_data = out@;
    let mut j: usize = 0;
    while j < instructions.len()
        invariant
            j <= instructions@.len(),
            out@ == with_data + instructions@.take(j as int),
        decreases instructions@.len() - j,
    {
        out.push(instructions[j]);
        j = j + 1;
        assert(out@ =~= with_data + instructions@.take(j as int));
    }
    assert(data@.take(data@.len() as int) =~= data@);
    assert(instructions@.take(instructions@.len() as int) =~= instructions@);
    assert(out@ =~= file_bytes(instructions@, data@));
    Ok(out)
}

/// Decode the bytes of a tardi file into `(program, input)`, ready to pass
/// to an [`Interpreter`](crate::interpreter::Interpreter).
///
/// # Errors
///
/// - [`FileError::InvalidMagic`] if the file does not begin with [`MAGIC`].
/// - [`FileError::VersionMissmatch`] if the format version byte is not [`FORMAT_VERSION`].
/// - [`FileError::FlagMismatch`] if the feature flags differ from those of this build.
/// - [`FileError::InvalidFormat`] if the file is truncated (it ends inside its header, or
///   is too short for its data words), or a non-zero data word count appears without
///   [`FLAG_DATA_ATTACHED`].
///
/// The header fields are checked in order, each as soon as the bytes hold it.
pub fn decode_program(bytes: &[u8]) -> (r: Result<(Vec<Instruction>, Vec<MachineWord>), FileError>)
    ensures
        match r {
            Ok((program, input)) => decoded(bytes@) == Ok::<
                (Seq<Instruction>, Seq<MachineWord>),
                FileErrorKind,
            >((program@, input@)),
            Err(e) => decoded(bytes@) == Err::<(Seq<Instruction>, Seq<MachineWord>), FileErrorKind>(
                e.kind(),
            ),
        },
{
    if bytes.len() < 4 {
        return Err(FileError::InvalidFormat);
    }
    if read_be32(bytes, 0) != MAGIC {
        return Err(FileError::InvalidMagic);
    }
    if bytes.len() < 8 {
        return Err(FileError::InvalidFormat);
    }
    if read_be32(bytes, 4) % 256 != FORMAT_VERSION {
        return Err(FileError::VersionMissmatch);
    }
    if bytes.len() < 12 {
        return Err(FileError::InvalidFormat);
    }
    let flag_bits = read_be32(bytes, 8);
    let file_flags = FileFlags::from_bits_truncate(flag_bits);
    let attached = FileFlags::from_bits_truncate(FLAG_DATA_ATTACHED);
    assert((flag_bits & 0x1fu32) & 0x10u32 == flag_bits & 0x10u32) by (bit_vector);
    assert(0x10u32 & 0x1fu32 == 0x10u32) by (bit_vector);
    if file_flags.difference(attached) != expected_flags() {
        return Err(FileError::FlagMismatch);
    }
    if bytes.len() < 16 {
        return Err(FileError::InvalidFormat);
    }
    let count = read_be32(bytes, 12);
    assert(flag_bits & 0x10u32 == 0u32 || flag_bits & 0x10u32 == 0x10u32) by (bit_vector);
    if count > 0 && !file_flags.contains(attached) {
        return Err(FileError::InvalidFormat);
    }
    let raw_len = bytes.len() - 16;
    if (raw_len as u64) < 4 * (count as u64) {
        return Err(FileError::InvalidFormat);
    }
    let data_len = 4 * (count as usize);
    let ghost raw = bytes@.skip(16);
    let mut input: Vec<MachineWord> = Vec::new();
    let mut k: usize = 0;
    while k < count as usize
        invariant
            raw == bytes@.skip(16),
            bytes@.len() == raw_len + 16,
            bytes@.len() <= usize::MAX,
            data_len == 4 * count,
            data_len <= raw_len,
            k <= count,
            input@ == words_of(raw, k as nat),
        decreases count - k,
    {
        assert(4 * k + 4 <= data_len);
        assert(16 + 4 * k + 4 <= bytes@.len());
        let at = 16 + 4 * k;
        let parts = [bytes[at], bytes[at + 1], bytes[at + 2], bytes[at + 3]];
        assert(parts@ =~= raw.subrange(4 * k, 4 * k + 4));
        input.push(word_from_instructions(parts));
        k = k + 1;
        assert(input@ =~= words_of(raw, k as nat));
    }
    let mut program: Vec<Instruction> = Vec::new();
    let mut j: usize = 16 + data_len;
    while j < bytes.len()
        invariant
            raw == bytes@.skip(16),
            16 + data_len <= j <= bytes@.len(),
            program@ == bytes@.subrange(16 + data_len, j as int),
        decreases bytes@.len() - j,
    {
        program.push(bytes[j]);
        j = j + 1;
        assert(program@ =~= bytes@.subrange(16 + data_len, j as int));
    }
    assert(program@ =~= raw.skip(4 * count));
    Ok((program, input))
}

/// The four bytes written for `v` are read back as `v`.
proof fn lemma_be32_round_trip(b: Seq<u8>, at: int, v: u32)
    requires
        0 <= at,
        at + 4 <= b.len(),
        b.subrange(at, at + 4) == be32_bytes(v),
    ensures
        be32_at(b, at) == v,
{
    let x = v as int;
    assert(b[at] == b.subrange(at, at + 4)[0]);
    assert(b[at + 1] == b.subrange(at, at + 4)[1]);
    assert(b[at + 2] == b.subrange(at, at + 4)[2]);
    assert(b[at + 3] == b.subrange(at, at + 4)[3]);
    vstd::arithmetic::div_mod::lemma_fundamental_div_mod(x, 256);
    vstd::arithmetic::div_mod::lemma_fundamental_div_mod(x / 256, 256);
    vstd::arithmetic::div_mod::lemma_fundamental_div_mod(x / 65536, 256);
    vstd::arithmetic::div_mod::lemma_div_denominator(x, 256, 256);
    vstd::arithmetic::div_mod::lemma_div_denominator(x, 65536, 256);
    assert(x / 16777216 < 256);
}

/// The data words take four bytes each.
proof fn lemma_words_bytes_len(data: Seq<MachineWord>)
    ensures
        words_bytes(data).len() == 4 * data.len(),
    decreases data.len(),
{
    if data.len() > 0 {
        lemma_words_bytes_len(data.drop_last());
    }
}

/// Word `k` of the data is encoded in bytes `4k .. 4k + 4`.
proof fn lemma_words_bytes_at(data: Seq<MachineWord>, k: int)
    requires
        0 <= k < data.len(),
    ensures
        words_bytes(data).subrange(4 * k, 4 * k + 4) == word_bytes(data[k]),
    decreases data.len(),
{
    let front = data.drop_last();
    lemma_words_bytes_len(front);
    if k < data.len() - 1 {
        lemma_words_bytes_at(front, k);
        assert(words_bytes(data).subrange(4 * k, 4 * k + 4) =~= words_bytes(front).subrange(
            4 * k,
            4 * k + 4,
        ));
    } else {
        assert(words_bytes(data).subrange(4 * k, 4 * k + 4) =~= word_bytes(data.last()));
    }
}

/// Decoding the data words of an encoding gives the data back.
proof fn lemma_words_round_trip(data: Seq<MachineWord>, rest: Seq<u8>)
    ensures
        words_of(words_bytes(data) + rest, data.len()) == data,
{
    lemma_words_bytes_len(data);
    let raw = words_bytes(data) + rest;
    assert forall|k: int| 0 <= k < data.len() implies #[trigger] words_of(raw, data.len())[k]
        == data[k] by {
        lemma_words_bytes_at(data, k);
        assert(raw.subrange(4 * k, 4 * k + 4) =~= words_bytes(data).subrange(4 * k, 4 * k + 4));
        crate::util::law_word_round_trip(data[k]);
    }
    assert(words_of(raw, data.len()) =~= data);
}

/// The version word carries [`FORMAT_VERSION`] in its lowest byte.
proof fn lemma_version_format()
    ensures
        version_word() % 256 == FORMAT_VERSION,
{
    let a = decimal_value(CRATE_VERSION_MAJOR.spec_bytes()) % 256;
    let b = decimal_value(CRATE_VERSION_MINOR.spec_bytes()) % 256;
    let c = decimal_value(CRATE_VERSION_PATCH.spec_bytes()) % 256;
    let w = a * 16777216 + b * 65536 + c * 256 + 11;
    assert(0 <= w < 0x1_0000_0000);
    vstd::arithmetic::div_mod::lemma_fundamental_div_mod_converse(
        w,
        256,
        a * 65536 + b * 256 + c,
        11,
    );
}

/// Reading the bytes of a written file gives back the program and the data
/// it was written with.
pub proof fn law_file_round_trip(instructions: Seq<Instruction>, data: Seq<MachineWord>)
    requires
        data.len() <= u32::MAX,
    ensures
        decoded(file_bytes(instructions, data)) == Ok::<
            (Seq<Instruction>, Seq<MachineWord>),
            FileErrorKind,
        >((instructions, data)),
{
    let b = file_bytes(instructions, data);
    let n = data.len() as u32;
    let flags = written_flags(data);
    lemma_words_bytes_len(data);
    assert(b.subrange(0, 4) =~= be32_bytes(MAGIC));
    assert(b.subrange(4, 8) =~= be32_bytes(version_word()));
    assert(b.subrange(8, 12) =~= be32_bytes(flags));
    assert(b.subrange(12, 16) =~= be32_bytes(n));
    lemma_be32_round_trip(b, 0, MAGIC);
    lemma_be32_round_trip(b, 4, version_word());
    lemma_be32_round_trip(b, 8, flags);
    lemma_be32_round_trip(b, 12, n);
    lemma_version_format();
    assert((1u32 & 0x1fu32) & !0x10u32 == 1u32) by (bit_vector);
    assert(((1u32 | 0x10u32) & 0x1fu32) & !0x10u32 == 1u32) by (bit_vector);
    assert((1u32 | 0x10u32) & 0x10u32 != 0u32) by (bit_vector);
    let raw = b.skip(16);
    assert(raw =~= words_bytes(data) + instructions);
    assert(raw.skip(4 * n as int) =~= instructions);
    lemma_words_round_trip(data, instructions);
}

/// The data word count of a file: bytes 12 to 15, big endian.
pub open spec fn count_field(b: Seq<u8>) -> int {
    16777216 * b[12] + 65536 * b[13] + 256 * b[14] + b[15]
}

/// The header of `b` is one that this build reads: it is complete, starts with
/// the bytes `00 1a d1 bc`, its format version byte (byte 7) is 11, the low four
/// flag bits (of byte 11) say integer words and nothing else, the data attached
/// flag (bit 4 of byte 11) is set if there are data words, and the bytes hold
/// all the data words.
pub open spec fn readable_header(b: Seq<u8>) -> bool {
    &&& b.len() >= 16
    &&& b[0] == 0x00 && b[1] == 0x1a && b[2] == 0xd1 && b[3] == 0xbc
    &&& b[7] == 11
    &&& b[11] % 16 == 1
    &&& count_field(b) > 0 ==> (b[11] / 16) % 2 == 1
    &&& b.len() >= 16 + 4 * count_field(b)
}

/// A file decodes exactly when its header is readable; then the program is
/// everything after the data words, and data word `k` is the two's complement
/// value of the four little endian bytes at `16 + 4k`. A file that ends before
/// its magic number is complete is truncated, and one whose first four bytes
/// are not the magic number is rejected for that.
pub proof fn law_decoding_reads_the_header(b: Seq<u8>)
    ensures
        decoded(b) is Ok <==> readable_header(b),
        readable_header(b) ==> decoded(b)->Ok_0.0 == b.skip(16 + 4 * count_field(b)),
        readable_header(b) ==> decoded(b)->Ok_0.1.len() == count_field(b),
        readable_header(b) ==> forall|k: int|
            0 <= k < count_field(b) ==> {
                let v = b[16 + 4 * k] + 256 * b[17 + 4 * k] + 65536 * b[18 + 4 * k] + 16777216 * b[19
                    + 4 * k];
                #[trigger] decoded(b)->Ok_0.1[k] == if v < 0x8000_0000 {
                    v
                } else {
                    v - 0x1_0000_0000
                }
            },
        b.len() < 4 ==> decoded(b) == Err::<(Seq<Instruction>, Seq<MachineWord>), FileErrorKind>(
            FileErrorKind::InvalidFormat,
        ),
        b.len() >= 4 && !(b[0] == 0x00 && b[1] == 0x1a && b[2] == 0xd1 && b[3] == 0xbc)
            ==> decoded(b) == Err::<(Seq<Instruction>, Seq<MachineWord>), FileErrorKind>(
            FileErrorKind::InvalidMagic,
        ),
{
    if b.len() >= 4 {
        assert(be32_at(b, 0) == MAGIC <==> (b[0] == 0x00 && b[1] == 0x1a && b[2] == 0xd1 && b[3]
            == 0xbc));
    }
    if b.len() >= 8 {
        let v = 16777216 * b[4] + 65536 * b[5] + 256 * b[6] + b[7];
        vstd::arithmetic::div_mod::lemma_fundamental_div_mod_converse(
            v,
            256,
            65536 * b[4] + 256 * b[5] + b[6],
            b[7] as int,
        );
        assert(be32_at(b, 4) % 256 == b[7]);
    }
    if b.len() >= 12 {
        let x = be32_at(b, 8);
        let k = 16777216 * b[8] + 65536 * b[9] + 256 * b[10];
        assert(x == k + b[11]);
        assert((x & 0x1fu32) & !0x10u32 == x & 0xfu32) by (bit_vector);
        assert(x & 0xfu32 == x % 16) by (bit_vector);
        assert((x & 0x10u32 == 0u32) <==> ((x / 16) % 2 == 0)) by (bit_vector);
        vstd::arithmetic::div_mod::lemma_fundamental_div_mod_converse(
            x as int,
            16,
            k / 16 + b[11] / 16,
            (b[11] % 16) as int,
        );
        vstd::arithmetic::div_mod::lemma_fundamental_div_mod(b[11] as int, 16);
        assert(x / 16 == k / 16 + b[11] / 16);
        assert((x / 16) % 2 == (b[11] / 16) % 2) by {
            vstd::arithmetic::div_mod::lemma_fundamental_div_mod_converse(
                k / 16 + b[11] / 16,
                2,
                k / 32 + (b[11] / 16) / 2,
                ((b[11] / 16) % 2) as int,
            );
            vstd::arithmetic::div_mod::lemma_fundamental_div_mod((b[11] / 16) as int, 2);
        }
    }
    if readable_header(b) {
        let n = be32_at(b, 12) as nat;
        assert(n == count_field(b));
        let raw = b.skip(16);
        assert forall|k: int| 0 <= k < count_field(b) implies {
            let v = b[16 + 4 * k] + 256 * b[17 + 4 * k] + 65536 * b[18 + 4 * k] + 16777216 * b[19
                + 4 * k];
            #[trigger] decoded(b)->Ok_0.1[k] == if v < 0x8000_0000 {
                v
            } else {
                v - 0x1_0000_0000
            }
        } by {
            let w = raw.subrange(4 * k, 4 * k + 4);
            assert(w[0] == b[16 + 4 * k]);
            assert(w[1] == b[17 + 4 * k]);
            assert(w[2] == b[18 + 4 * k]);
            assert(w[3] == b[19 + 4 * k]);
        }
    }
}

/// Every written file starts with `00 1a d1 bc`, then the version `00 01 00 0b`
/// (crate version 0.1.0, format 11), then the flags `00 00 00 01`, or
/// `00 00 00 11` when data is attached, then the number of data words (big
/// endian); then each data word as its four little endian two's complement
/// bytes, and last the program.
pub proof fn law_written_file_layout(instructions: Seq<Instruction>, data: Seq<MachineWord>)
    requires
        data.len() <= u32::MAX,
    ensures
        ({
            let b = file_bytes(instructions, data);
            &&& b.len() == 16 + 4 * data.len() + instructions.len()
            &&& b.take(11) == seq![0x00u8, 0x1a, 0xd1, 0xbc, 0x00, 0x01, 0x00, 0x0b, 0x00, 0x00, 0x00]
            &&& b[11] == if data.len() == 0 {
                0x01u8
            } else {
                0x11u8
            }
            &&& count_field(b) == data.len()
            &&& b.skip(16 + 4 * data.len() as int) == instructions
            &&& forall|k: int|
                0 <= k < data.len() ==> {
                    let v = b[16 + 4 * k] + 256 * b[17 + 4 * k] + 65536 * b[18 + 4 * k] + 16777216
                        * b[19 + 4 * k];
                    #[trigger] data[k] == if v < 0x8000_0000 {
                        v
                    } else {
                        v - 0x1_0000_0000
                    }
                }
        }),
{
    let b = file_bytes(instructions, data);
    lemma_words_bytes_len(data);
    {
        reveal_strlit("0");
        reveal_strlit("1");
        vstd::string::is_ascii_spec_bytes(CRATE_VERSION_MAJOR);
        vstd::string::is_ascii_spec_bytes(CRATE_VERSION_MINOR);
        vstd::string::is_ascii_spec_bytes(CRATE_VERSION_PATCH);
        assert(CRATE_VERSION_MAJOR.spec_bytes() =~= seq![48u8]);
        assert(CRATE_VERSION_MINOR.spec_bytes() =~= seq![49u8]);
        assert(CRATE_VERSION_PATCH.spec_bytes() =~= seq![48u8]);
        assert(decimal_value(seq![48u8].drop_last()) == 0);
        assert(decimal_value(seq![49u8].drop_last()) == 0);
    }
    assert(version_word() == 0x0001_000b);
    assert(1u32 | 0x10u32 == 0x11u32) by (bit_vector);
    let n = data.len() as u32;
    assert(b.subrange(12, 16) =~= be32_bytes(n));
    lemma_be32_round_trip(b, 12, n);
    assert(b.take(11) =~= seq![0x00u8, 0x1a, 0xd1, 0xbc, 0x00, 0x01, 0x00, 0x0b, 0x00, 0x00, 0x00]);
    assert(b.skip(16 + 4 * data.len() as int) =~= instructions);
    assert forall|k: int| 0 <= k < data.len() implies {
        let v = b[16 + 4 * k] + 256 * b[17 + 4 * k] + 65536 * b[18 + 4 * k] + 16777216 * b[19
            + 4 * k];
        #[trigger] data[k] == if v < 0x8000_0000 {
            v
        } else {
            v - 0x1_0000_0000
        }
    } by {
        lemma_words_bytes_at(data, k);
        let w = words_bytes(data).subrange(4 * k, 4 * k + 4);
        crate::util::law_word_round_trip(data[k]);
        assert(b[16 + 4 * k] == w[0]);
        assert(b[17 + 4 * k] == w[1]);
        assert(b[18 + 4 * k] == w[2]);
        assert(b[19 + 4 * k] == w[3]);
    }
}

} // verus!

//! The outside computations the object store relies on: SHA-1, zlib,
//! hexadecimal text and UTF-8 validation. Each function here makes one call
//! into its crate; its contract is what the crate's documentation and source
//! promise, and nothing in this file is proved.
use sha1::Digest;
use std::io::Read;
use std::io::Write;
use vstd::prelude::*;
use vstd::utf8::*;

verus! {

/// `std::io::Error`, carried through unread.
#[verifier::external_type_specification]
#[verifier::external_body]
pub struct ExIoError(std::io::Error);

/// `hex::FromHexError`, carried through unread.
#[verifier::external_type_specification]
#[verifier::external_body]
pub struct ExFromHexError(hex::FromHexError);

/// `std::str::Utf8Error`, carried through unread.
#[verifier::external_type_specification]
#[verifier::external_body]
pub struct ExUtf8Error(std::str::Utf8Error);

/// The SHA-1 digest of a byte sequence.
pub uninterp spec fn sha1_digest(data: Seq<u8>) -> Seq<u8>;

/// The zlib stream that flate2 writes for `data` at the default level.
pub uninterp spec fn zlib_compressed(data: Seq<u8>) -> Seq<u8>;

/// What flate2 reads out of the zlib stream `data`: `None` where reading fails.
pub uninterp spec fn zlib_decompressed(data: Seq<u8>) -> Option<Seq<u8>>;

/// The lower-case hex digit for a value in `0..16`.
pub open spec fn hex_digit(n: int) -> char {
    if n < 10 {
        (48 + n) as char
    } else {
        (87 + n) as char
    }
}

/// Lower-case hexadecimal text of a byte sequence, two digits per byte,
/// high nibble first.
pub open spec fn hex_lower(data: Seq<u8>) -> Seq<char>
    decreases data.len(),
{
    if data.len() == 0 {
        Seq::empty()
    } else {
        seq![hex_digit(data[0] as int / 16), hex_digit(data[0] as int % 16)] + hex_lower(data.drop_first())
    }
}

/// A hexadecimal digit of either case.
pub open spec fn is_hex_char(c: char) -> bool {
    ('0' <= c && c <= '9') || ('a' <= c && c <= 'f') || ('A' <= c && c <= 'F')
}

/// The value of a hexadecimal digit.
pub open spec fn hex_char_value(c: char) -> int {
    if '0' <= c && c <= '9' {
        c as int - 48
    } else if 'a' <= c && c <= 'f' {
        c as int - 87
    } else {
        c as int - 55
    }
}

/// Text that decodes as hexadecimal: an even number of hex digits.
pub open spec fn is_hex(s: Seq<char>) -> bool {
    &&& s.len() % 2 == 0
    &&& forall|i: int| 0 <= i < s.len() ==> is_hex_char(#[trigger] s[i])
}

/// The bytes that hexadecimal text stands for, two digits per byte.
pub open spec fn hex_value(s: Seq<char>) -> Seq<u8>
    decreases s.len(),
{
    if s.len() < 2 {
        Seq::empty()
    } else {
        seq![(hex_char_value(s[0]) * 16 + hex_char_value(s[1])) as u8] + hex_value(s.skip(2))
    }
}

/// `sha1::Sha1::digest`: the 20-byte SHA-1 digest of `data`, named by
/// `sha1_digest`.
#[verifier::external_body]
pub(crate) fn sha1(data: &[u8]) -> (res: [u8; 20])
    ensures
        res@ == sha1_digest(data@),
{
    sha1::Sha1::digest(data).into()
}

/// `flate2::write::ZlibEncoder` at `Compression::default()` over a `Vec`,
/// fed `data` by `write_all` and closed by `finish`. It succeeds: the
/// encoder only hands its buffer to the `Vec`, whose writes do not fail,
/// and the miniz_oxide backend answers a repeated finish with the end of
/// the stream rather than an error. The stream is the one named
/// `zlib_compressed`, and flate2's decoder reads `data` back out of it.
#[verifier::external_body]
pub(crate) fn zlib_compress(data: &[u8]) -> (res: Result<Vec<u8>, std::io::Error>)
    ensures
        res is Ok,
        res matches Ok(v) ==> v@ == zlib_compressed(data@),
        res matches Ok(v) ==> zlib_decompressed(v@) == Some(data@),
{
    let mut encoder = flate2::write::ZlibEncoder::new(Vec::new(), flate2::Compression::default());
    encoder.write_all(data)?;
    encoder.finish()
}

/// `flate2::read::ZlibDecoder` over `data`, drained with `read_to_end`.
/// It succeeds exactly where `zlib_decompressed` is `Some`, and then
/// returns those bytes.
#[verifier::external_body]
pub(crate) fn zlib_decompress(data: &[u8]) -> (res: Result<Vec<u8>, std::io::Error>)
    ensures
        res is Ok <==> zlib_decompressed(data@) is Some,
        res matches Ok(v) ==> zlib_decompressed(data@) == Some(v@),
{
    let mut decoder = flate2::read::ZlibDecoder::new(data);
    let mut out = Vec::new();
    decoder.read_to_end(&mut out)?;
    Ok(out)
}

/// `hex::encode`: lower-case hex text, two digits per byte.
#[verifier::external_body]
pub(crate) fn hex_encode(data: &[u8]) -> (res: String)
    ensures
        res@ == hex_lower(data@),
{
    hex::encode(data)
}

/// `hex::decode`: succeeds exactly on an even number of hex digits (either
/// case), and then returns the bytes they stand for.
#[verifier::external_body]
pub(crate) fn hex_decode(s: &str) -> (res: Result<Vec<u8>, hex::FromHexError>)
    ensures
        res is Ok <==> is_hex(s@),
        res matches Ok(v) ==> v@ == hex_value(s@),
{
    hex::decode(s)
}

/// `std::str::from_utf8`: succeeds exactly on valid UTF-8, and then the
/// string holds the characters that the bytes encode.
#[verifier::external_body]
pub(crate) fn utf8_str(bytes: &[u8]) -> (res: Result<&str, std::str::Utf8Error>)
    ensures
        res is Ok <==> valid_utf8(bytes@),
        res matches Ok(s) ==> s@ == decode_utf8(bytes@),
{
    std::str::from_utf8(bytes)
}

} // verus!

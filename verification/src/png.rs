//! The header of a PNG file.

use vstd::prelude::*;

verus! {

/// The fewest bytes that hold a size.
pub const HEADER_LEN: usize = 24;

/// The eight bytes that every PNG file starts with.
pub open spec fn signature() -> Seq<u8> {
    seq![0x89u8, 0x50u8, 0x4eu8, 0x47u8, 0x0du8, 0x0au8, 0x1au8, 0x0au8]
}

/// The type of the chunk that gives the size of the image.
pub open spec fn header_chunk() -> Seq<u8> {
    seq![0x49u8, 0x48u8, 0x44u8, 0x52u8]
}

/// The number that four bytes write, the most significant byte first.
pub open spec fn big_endian(bytes: Seq<u8>) -> nat {
    (bytes[0] * 0x100_0000 + bytes[1] * 0x1_0000 + bytes[2] * 0x100 + bytes[3]) as nat
}

/// Whether some bytes start as a PNG file with a header chunk does.
pub open spec fn has_header(bytes: Seq<u8>) -> bool {
    &&& bytes.len() >= HEADER_LEN
    &&& bytes.subrange(0, 8) == signature()
    &&& bytes.subrange(12, 16) == header_chunk()
}

/// The width that the header chunk gives.
pub open spec fn header_width(bytes: Seq<u8>) -> u32 {
    big_endian(bytes.subrange(16, 20)) as u32
}

/// The height that the header chunk gives.
pub open spec fn header_height(bytes: Seq<u8>) -> u32 {
    big_endian(bytes.subrange(20, 24)) as u32
}

/// The size that the header gives, if there is a header and neither side is
/// zero.
pub open spec fn header_dimensions(bytes: Seq<u8>) -> Option<(u32, u32)> {
    if has_header(bytes) && header_width(bytes) != 0 && header_height(bytes) != 0 {
        Some((header_width(bytes), header_height(bytes)))
    } else {
        None
    }
}

/// Why the size of an image is not known.
#[derive(Clone, Copy, Debug, PartialEq, Eq)]
pub enum PngError {
    /// The bytes do not start with a PNG header.
    NotPng,
    /// The header gives a size with a zero side.
    InvalidDimensions { width: u32, height: u32 },
}

/// Reads four bytes as a number, the most significant byte first.
fn read_big_endian(bytes: &[u8], at: usize) -> (number: u32)
    requires
        at + 4 <= bytes@.len(),
    ensures
        number == big_endian(bytes@.subrange(at as int, at + 4)),
{
    let len: usize = bytes.len();
    bytes[at] as u32 * 0x100_0000 + bytes[at + 1] as u32 * 0x1_0000 + bytes[at + 2] as u32 * 0x100
        + bytes[at + 3] as u32
}

/// Reads the size of an image from its PNG header.
pub fn png_dimensions(bytes: &[u8]) -> (size: Result<(u32, u32), PngError>)
    ensures
        size is Ok <==> header_dimensions(bytes@) is Some,
        size matches Ok(size) ==> header_dimensions(bytes@) == Some(size),
        size == Err::<(u32, u32), PngError>(PngError::NotPng) <==> !has_header(bytes@),
        size matches Err(PngError::InvalidDimensions { width, height }) ==> {
            &&& has_header(bytes@)
            &&& width == header_width(bytes@) && height == header_height(bytes@)
            &&& width == 0 || height == 0
        },
{
    if bytes.len() < HEADER_LEN || !starts_with_signature(bytes) || !names_header_chunk(bytes) {
        return Err(PngError::NotPng);
    }
    let width: u32 = read_big_endian(bytes, 16);
    let height: u32 = read_big_endian(bytes, 20);
    if width == 0 || height == 0 {
        return Err(PngError::InvalidDimensions { width, height });
    }
    Ok((width, height))
}

/// Whether the first eight bytes are the PNG signature.
fn starts_with_signature(bytes: &[u8]) -> (found: bool)
    requires
        bytes@.len() >= HEADER_LEN,
    ensures
        found == (bytes@.subrange(0, 8) == signature()),
{
    let found = bytes[0] == 0x89 && bytes[1] == 0x50 && bytes[2] == 0x4e && bytes[3] == 0x47
        && bytes[4] == 0x0d && bytes[5] == 0x0a && bytes[6] == 0x1a && bytes[7] == 0x0a;
    proof {
        let start = bytes@.subrange(0, 8);
        assert(forall|i: int| 0 <= i < 8 ==> #[trigger] start[i] == bytes@[i]);
        if start == signature() {
            assert(start[0] == 0x89 && start[1] == 0x50 && start[2] == 0x4e && start[3] == 0x47);
            assert(start[4] == 0x0d && start[5] == 0x0a && start[6] == 0x1a && start[7] == 0x0a);
        }
        if found {
            assert(start =~= signature());
        }
    }
    found
}

/// Whether the first chunk is the header chunk.
fn names_header_chunk(bytes: &[u8]) -> (found: bool)
    requires
        bytes@.len() >= HEADER_LEN,
    ensures
        found == (bytes@.subrange(12, 16) == header_chunk()),
{
    let found = bytes[12] == 0x49 && bytes[13] == 0x48 && bytes[14] == 0x44 && bytes[15] == 0x52;
    proof {
        let kind = bytes@.subrange(12, 16);
        assert(forall|i: int| 0 <= i < 4 ==> #[trigger] kind[i] == bytes@[i + 12]);
        if kind == header_chunk() {
            assert(kind[0] == 0x49 && kind[1] == 0x48 && kind[2] == 0x44 && kind[3] == 0x52);
        }
        if found {
            assert(kind =~= header_chunk());
        }
    }
    found
}

/// A number as four bytes, the most significant byte first.
pub open spec fn big_endian_bytes(number: u32) -> Seq<u8> {
    seq![
        (number / 0x100_0000) as u8,
        (number / 0x1_0000 % 0x100) as u8,
        (number / 0x100 % 0x100) as u8,
        (number % 0x100) as u8,
    ]
}

/// The size written into a header is the size read from it.
pub proof fn law_header_size_reads_back(
    length: Seq<u8>,
    width: u32,
    height: u32,
    rest: Seq<u8>,
)
    requires
        length.len() == 4,
        width > 0,
        height > 0,
    ensures
        header_dimensions(
            signature() + length + header_chunk() + big_endian_bytes(width) + big_endian_bytes(
                height,
            ) + rest,
        ) == Some((width, height)),
{
    let bytes = signature() + length + header_chunk() + big_endian_bytes(width) + big_endian_bytes(
        height,
    ) + rest;
    assert(bytes.subrange(0, 8) =~= signature());
    assert(bytes.subrange(12, 16) =~= header_chunk());
    assert(bytes.subrange(16, 20) =~= big_endian_bytes(width));
    assert(bytes.subrange(20, 24) =~= big_endian_bytes(height));
    lemma_big_endian(width);
    lemma_big_endian(height);
}

proof fn lemma_big_endian(number: u32)
    ensures
        big_endian(big_endian_bytes(number)) == number,
{
    let high = number / 0x1_0000;
    let low = number / 0x100;
    assert(number / 0x100_0000 == high / 0x100);
    assert(number / 0x1_0000 == low / 0x100);
}

/// A size is read from exactly those bytes that are a PNG signature, four bytes
/// of length, a header chunk's type and the size, neither side of it zero.
pub proof fn law_only_headers_give_a_size(bytes: Seq<u8>)
    ensures
        has_header(bytes) <==> {
            &&& bytes.len() >= 24
            &&& bytes.take(8) == seq![0x89u8, 0x50u8, 0x4eu8, 0x47u8, 0x0du8, 0x0au8, 0x1au8, 0x0au8]
            &&& bytes.subrange(12, 16) == seq![0x49u8, 0x48u8, 0x44u8, 0x52u8]
        },
        header_dimensions(bytes) is Some <==> has_header(bytes) && header_width(bytes) > 0
            && header_height(bytes) > 0,
        header_dimensions(bytes) matches Some(size) ==> size == (
            header_width(bytes),
            header_height(bytes),
        ),
        bytes.len() >= 24 ==> {
            &&& header_width(bytes) == bytes[16] * 0x100_0000 + bytes[17] * 0x1_0000 + bytes[18]
                * 0x100 + bytes[19]
            &&& header_height(bytes) == bytes[20] * 0x100_0000 + bytes[21] * 0x1_0000 + bytes[22]
                * 0x100 + bytes[23]
        },
{
    if bytes.len() >= 24 {
        assert(bytes.take(8) =~= bytes.subrange(0, 8));
        let width = bytes.subrange(16, 20);
        let height = bytes.subrange(20, 24);
        assert(width[0] == bytes[16] && width[1] == bytes[17] && width[2] == bytes[18] && width[3]
            == bytes[19]);
        assert(height[0] == bytes[20] && height[1] == bytes[21] && height[2] == bytes[22]
            && height[3] == bytes[23]);
    }
}

} // verus!

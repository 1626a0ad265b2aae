//! Reading texture files: the container, its format descriptors, and its compressed levels.

use basis_universal::{
    DecodeFlags, LowLevelUastcTranscoder, SliceParametersUastc, TranscoderBlockFormat,
};
use vstd::prelude::*;

verus! {

/// The error of the container parser.
#[verifier::external_type_specification]
#[verifier::external_body]
pub struct ExParseError(ktx2::ParseError);

/// The error of an input or output operation.
#[verifier::external_type_specification]
#[verifier::external_body]
pub struct ExIoError(std::io::Error);

/// The error of the block transcoder.
#[verifier::external_type_specification]
#[verifier::external_body]
pub struct ExTranscodeError(basis_universal::TranscodeError);

/// A little-endian number of four bytes.
pub open spec fn le32(bytes: Seq<u8>, at: int) -> int {
    bytes[at] + 0x100 * bytes[at + 1] + 0x1_0000 * bytes[at + 2] + 0x100_0000 * bytes[at + 3]
}

fn read_le32(bytes: &Vec<u8>, at: usize) -> (value: u64)
    requires
        at + 4 <= bytes.len(),
    ensures
        value == le32(bytes@, at as int),
        value <= u32::MAX,
{
    bytes[at] as u64 + 0x100 * bytes[at + 1] as u64 + 0x1_0000 * bytes[at + 2] as u64 + 0x100_0000
        * bytes[at + 3] as u64
}

/// The size that a format descriptor block gives for itself.
pub open spec fn block_size(data: Seq<u8>) -> int {
    data[6] + 0x100 * data[7]
}

/// A format descriptor block starts `data`: it is not empty, and not cut off.
pub open spec fn block_starts(data: Seq<u8>) -> bool {
    data.len() >= 8 && block_size(data) != 0 && block_size(data) <= data.len()
}

/// The number of format descriptor blocks at the start of `data` that are at least as long as their
/// headers.
pub open spec fn sound_blocks(data: Seq<u8>) -> nat
    decreases data.len(),
{
    if block_starts(data) && block_size(data) >= 8 {
        1 + sound_blocks(data.skip(block_size(data)))
    } else {
        0
    }
}

/// No format descriptor block in `data` is shorter than its header.
pub open spec fn blocks_sound(data: Seq<u8>) -> bool
    decreases data.len(),
{
    block_starts(data) ==> block_size(data) >= 8 && blocks_sound(data.skip(block_size(data)))
}

/// The format descriptors of a texture file, where they lie inside the file.
pub open spec fn descriptors_of(bytes: Seq<u8>) -> Seq<u8> {
    if bytes.len() < 80 {
        seq![]
    } else {
        let start = le32(bytes, 48) + 4;
        let end = le32(bytes, 48) + le32(bytes, 52);
        if start <= end < bytes.len() {
            bytes.subrange(start, end)
        } else {
            seq![]
        }
    }
}

/// The number of format descriptor blocks of a texture file that can be walked.
pub open spec fn num_descriptors(bytes: Seq<u8>) -> nat {
    sound_blocks(descriptors_of(bytes))
}

/// All format descriptors of a texture file can be walked.
pub open spec fn descriptors_sound(bytes: Seq<u8>) -> bool {
    blocks_sound(descriptors_of(bytes))
}

/// Counts the format descriptor blocks of a texture file that can be walked, and tests that all of
/// them can be.
pub fn check_descriptors(bytes: &Vec<u8>) -> (found: (usize, bool))
    ensures
        found.0 == num_descriptors(bytes@),
        found.1 == descriptors_sound(bytes@),
{
    if bytes.len() < 80 {
        return (0, true);
    }
    let offset: u64 = read_le32(bytes, 48);
    let length: u64 = read_le32(bytes, 52);
    if length < 4 || offset + length >= bytes.len() as u64 {
        return (0, true);
    }
    let end: usize = (offset + length) as usize;
    let mut start: usize = (offset + 4) as usize;
    let mut count: usize = 0;
    let ghost all = descriptors_of(bytes@);
    loop
        invariant
            start <= end <= bytes.len(),
            count <= start,
            all == descriptors_of(bytes@),
            count + sound_blocks(bytes@.subrange(start as int, end as int)) == sound_blocks(all),
            blocks_sound(bytes@.subrange(start as int, end as int)) == blocks_sound(all),
        decreases end - start,
    {
        let ghost data = bytes@.subrange(start as int, end as int);
        if end - start < 8 {
            return (count, true);
        }
        let size: usize = bytes[start + 6] as usize + 0x100 * bytes[start + 7] as usize;
        assert(size == block_size(data));
        if size == 0 || end - start < size {
            return (count, true);
        }
        if size < 8 {
            return (count, false);
        }
        proof {
            assert(data.skip(size as int) =~= bytes@.subrange(start + size, end as int));
        }
        start = start + size;
        count = count + 1;
    }
}

/// What a texture file holds: its format, size and compression scheme (zero where there is none),
/// its format descriptor blocks as `((vendor, type, version), data)`, up to one that is shorter
/// than its header, and its levels with their uncompressed sizes.
pub struct Ktx2View {
    pub format: u32,
    pub width: u32,
    pub height: u32,
    pub scheme: u32,
    pub blocks: Seq<((u32, u32, u16), Seq<u8>)>,
    pub levels: Seq<(Seq<u8>, u64)>,
}

/// What `ktx2::Reader` reads out of a texture file; nothing where it rejects the file.
pub uninterp spec fn ktx2_contents(bytes: Seq<u8>) -> Option<Ktx2View>;

/// What a texture file holds.
pub struct Ktx2File {
    pub format: u32,
    pub width: u32,
    pub height: u32,
    pub scheme: u32,
    pub blocks: Vec<((u32, u32, u16), Vec<u8>)>,
    pub levels: Vec<(Vec<u8>, u64)>,
}

impl View for Ktx2File {
    type V = Ktx2View;

    open spec fn view(&self) -> Ktx2View {
        Ktx2View {
            format: self.format,
            width: self.width,
            height: self.height,
            scheme: self.scheme,
            blocks: self.blocks@.map_values(|b: ((u32, u32, u16), Vec<u8>)| (b.0, b.1@)),
            levels: self.levels@.map_values(|l: (Vec<u8>, u64)| (l.0@, l.1)),
        }
    }
}

/// `ktx2::Reader::new` checks a texture file; the reader then gives its header, its levels and
/// its format descriptor blocks. Walking the blocks panics at one that is shorter than its header,
/// so that only the blocks before are taken.
#[verifier::external_body]
fn parse_ktx2(bytes: &Vec<u8>, num_blocks: usize) -> (result: Result<Ktx2File, ktx2::ParseError>)
    requires
        num_blocks == num_descriptors(bytes@),
    ensures
        match result {
            Ok(file) => ktx2_contents(bytes@) == Some(file@),
            Err(_) => ktx2_contents(bytes@) is None,
        },
{
    let reader = ktx2::Reader::new(bytes.as_slice())?;
    let header = reader.header();
    Ok(Ktx2File {
        format: header.format.map_or(0, |f| f.value()),
        width: header.pixel_width,
        height: header.pixel_height,
        scheme: header.supercompression_scheme.map_or(0, |s| s.value()),
        blocks: reader.dfd_blocks().take(num_blocks).map(|b| {
            ((b.header.vendor_id, b.header.descriptor_type, b.header.version_number), b.data.to_vec())
        }).collect(),
        levels: reader.levels().map(|l| (l.data.to_vec(), l.uncompressed_byte_length)).collect(),
    })
}

/// Reads a texture file.
pub fn read_ktx2(bytes: &Vec<u8>) -> (result: Result<Ktx2File, ktx2::ParseError>)
    ensures
        match result {
            Ok(file) => ktx2_contents(bytes@) == Some(file@),
            Err(_) => ktx2_contents(bytes@) is None,
        },
{
    let (num_blocks, _) = check_descriptors(bytes);
    parse_ktx2(bytes, num_blocks)
}

/// A basic format descriptor can be parsed: its block dimensions, which are stored less one, are
/// below 256.
pub open spec fn basic_sound(data: Seq<u8>) -> bool {
    data.len() >= 16 ==> data[4] < 255 && data[5] < 255 && data[6] < 255 && data[7] < 255
}

/// Tests that a basic format descriptor can be parsed.
pub fn check_basic(data: &Vec<u8>) -> (sound: bool)
    ensures
        sound == basic_sound(data@),
{
    data.len() < 16 || (data[4] < 255 && data[5] < 255 && data[6] < 255 && data[7] < 255)
}

/// The channel of the first sample of a basic format descriptor: sixteen bytes of header stand
/// before the samples, and a sample of sixteen bytes holds its length less one in its third byte
/// and its channel in the low half of its fourth.
pub open spec fn first_channel(data: Seq<u8>) -> Option<u8> {
    if data.len() >= 32 && data[18] != 255 {
        Some((data[19] % 16) as u8)
    } else {
        None
    }
}

/// `ktx2::DfdBlockBasic::parse` parses a basic format descriptor, whose first byte is the colour
/// model; `sample_information` gives its samples. It panics for a block dimension of 256.
#[verifier::external_body]
pub(crate) fn parse_basic(data: &Vec<u8>) -> (result: Result<(u8, Option<u8>), ktx2::ParseError>)
    requires
        basic_sound(data@),
    ensures
        match result {
            Ok((model, channel)) => data@.len() >= 16 && model == data@[0] && channel
                == first_channel(data@),
            Err(_) => data@.len() < 16,
        },
{
    let basic = ktx2::DfdBlockBasic::parse(data)?;
    let model = basic.header.color_model.map_or(0, |m| m.value());
    Ok((model, basic.sample_information().next().map(|s| s.channel_type)))
}

/// What `zstd::stream::copy_decode` decompresses; nothing where it rejects the data.
pub uninterp spec fn zstd_decoded(data: Seq<u8>) -> Option<Seq<u8>>;

/// `zstd::stream::copy_decode` decompresses data and appends it. Where it rejects the data, part
/// of it may have been appended.
#[verifier::external_body]
pub(crate) fn zstd_decode(data: &Vec<u8>, output: &mut Vec<u8>) -> (result: Result<
    (),
    std::io::Error,
>)
    ensures
        match result {
            Ok(_) => zstd_decoded(data@) matches Some(decoded) && final(output)@ == old(output)@
                + decoded,
            Err(_) => zstd_decoded(data@) is None,
        },
{
    zstd::stream::copy_decode(data.as_slice(), output)
}

/// The number of blocks of four pixels that hold `pixels` pixels.
pub open spec fn blocks_for(pixels: u32) -> int {
    (pixels + 3) / 4
}

/// A block format to transcode to.
#[derive(Clone, Copy, PartialEq, Eq, Structural, Debug)]
pub enum BlockFormat {
    Bc5,
    Bc7,
}

/// The blocks of a level.
#[derive(Clone, Copy, PartialEq, Eq, Structural, Debug)]
pub struct LevelBlocks {
    pub blocks_x: u32,
    pub blocks_y: u32,
    pub width: u32,
    pub height: u32,
    pub has_alpha: bool,
}

impl LevelBlocks {
    /// The blocks cover the level, and the transcoder can count their bytes.
    pub open spec fn wf(self) -> bool {
        &&& self.width > 0
        &&& self.height > 0
        &&& self.width <= u32::MAX - 3
        &&& self.height <= u32::MAX - 3
        &&& self.blocks_x == blocks_for(self.width)
        &&& self.blocks_y == blocks_for(self.height)
        &&& 16 * (self.blocks_x * self.blocks_y) <= u32::MAX
    }
}

/// The blocks of a level with the given size.
pub fn blocks_at(width: u32, height: u32, has_alpha: bool) -> (blocks: LevelBlocks)
    requires
        0 < width <= u32::MAX - 3,
        0 < height <= u32::MAX - 3,
    ensures
        blocks.blocks_x == blocks_for(width),
        blocks.blocks_y == blocks_for(height),
        blocks.width == width,
        blocks.height == height,
        blocks.has_alpha == has_alpha,
{
    LevelBlocks {
        blocks_x: (width + 3) / 4,
        blocks_y: (height + 3) / 4,
        width,
        height,
        has_alpha,
    }
}

/// `LowLevelUastcTranscoder::transcode_slice` accepts the blocks of a level.
pub uninterp spec fn uastc_accepted(
    data: Seq<u8>,
    blocks: LevelBlocks,
    format: BlockFormat,
) -> bool;

/// What `LowLevelUastcTranscoder::transcode_slice` makes of the blocks of a level that it accepts,
/// with two channels.
pub uninterp spec fn bc5_transcoded(data: Seq<u8>, blocks: LevelBlocks) -> Seq<u8>;

/// `basis_universal::LowLevelUastcTranscoder::transcode_slice` transcodes the blocks of a level.
/// It fails where the data is too short for the blocks, and its output has sixteen bytes for each
/// block. What it accepts, and its output with two channels, is computed in whole numbers, for any
/// quality. Its output with all channels depends on how the machine rounds, and nothing but its
/// length is stated of it.
#[verifier::external_body]
pub(crate) fn uastc_transcode(
    data: &[u8],
    blocks: LevelBlocks,
    high_quality: bool,
    format: BlockFormat,
) -> (result: Result<Vec<u8>, basis_universal::TranscodeError>)
    requires
        blocks.wf(),
        data@.len() <= u32::MAX,
    ensures
        match result {
            Ok(output) => {
                &&& uastc_accepted(data@, blocks, format)
                &&& output@.len() == 16 * (blocks.blocks_x * blocks.blocks_y)
                &&& data@.len() >= 16 * (blocks.blocks_x * blocks.blocks_y)
                &&& format is Bc5 ==> output@ == bc5_transcoded(data@, blocks)
            },
            Err(_) => !uastc_accepted(data@, blocks, format),
        },
{
    let params = SliceParametersUastc {
        num_blocks_x: blocks.blocks_x,
        num_blocks_y: blocks.blocks_y,
        has_alpha: blocks.has_alpha,
        original_width: blocks.width,
        original_height: blocks.height,
    };
    let format = match format {
        BlockFormat::Bc5 => TranscoderBlockFormat::BC5,
        BlockFormat::Bc7 => TranscoderBlockFormat::BC7,
    };
    let mut flags = DecodeFlags::empty();
    flags.set(DecodeFlags::HIGH_QUALITY, high_quality);
    LowLevelUastcTranscoder::new().transcode_slice(data, params, flags, format)
}

/// `output` is what the transcoder returned when it was given the blocks of a level and asked for
/// high quality. Only a call of the transcoder shows this of any bytes.
pub open(crate) spec fn is_transcoded(
    data: Seq<u8>,
    blocks: LevelBlocks,
    format: BlockFormat,
    output: Seq<u8>,
) -> bool {
    exists|given: &[u8], made: Result<Vec<u8>, basis_universal::TranscodeError>|
        #[trigger] call_ensures(uastc_transcode, (given, blocks, true, format), made) && given@
            == data && (made matches Ok(bytes) && bytes@ == output)
}

/// A format descriptor block gives its size in its seventh and eighth bytes, and the next block
/// follows it: a block in front of others is one more, and one that is shorter than its header of
/// eight bytes ends the walk.
pub proof fn blocks_follow_one_another(block: Seq<u8>, rest: Seq<u8>)
    requires
        block.len() >= 8,
    ensures
        sound_blocks(Seq::<u8>::empty()) == 0,
        blocks_sound(Seq::<u8>::empty()),
        block.len() == block[6] + 0x100 * block[7] ==> sound_blocks(block + rest) == 1
            + sound_blocks(rest) && blocks_sound(block + rest) == blocks_sound(rest),
        0 < block[6] + 0x100 * block[7] < 8 ==> sound_blocks(block + rest) == 0 && !blocks_sound(
            block + rest,
        ),
{
    let data = block + rest;
    assert(data[6] == block[6] && data[7] == block[7]);
    if block.len() == block_size(data) {
        assert(data.skip(block.len() as int) =~= rest);
    }
}

/// The format descriptors stand where the header says: their offset is in the four bytes from 48
/// on, their length in the next four, and the first four of them are the length again.
pub proof fn descriptors_stand_where_the_header_says(
    bytes: Seq<u8>,
    offset: int,
    length: int,
)
    requires
        80 <= bytes.len(),
        offset == bytes[48] + 256 * (bytes[49] + 256 * (bytes[50] + 256 * bytes[51])),
        length == bytes[52] + 256 * (bytes[53] + 256 * (bytes[54] + 256 * bytes[55])),
        4 <= length,
        offset + length < bytes.len(),
    ensures
        descriptors_of(bytes) == bytes.subrange(offset + 4, offset + length),
{
}

} // verus!

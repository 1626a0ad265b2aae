//! Decoding textures into levels that can be uploaded.

use crate::textures::ktx2_file::{
    blocks_at, check_basic, check_descriptors, parse_basic, read_ktx2, uastc_transcode, zstd_decode,
    BlockFormat, Ktx2File, LevelBlocks,
};
#[allow(unused_imports)]
use crate::textures::ktx2_file::{
    basic_sound, bc5_transcoded, blocks_for, descriptors_sound, first_channel, is_transcoded,
    ktx2_contents, uastc_accepted, zstd_decoded, Ktx2View,
};
use crate::vk::{FORMAT_BC5_UNORM_BLOCK, FORMAT_BC7_SRGB_BLOCK, FORMAT_R8G8B8A8_SRGB};
#[allow(unused_imports)]
use vstd::arithmetic::div_mod::lemma_div_denominator;
#[allow(unused_imports)]
use vstd::arithmetic::power2::{lemma2_to64, lemma_pow2_pos, lemma_pow2_unfold, pow2};
use vstd::prelude::*;

verus! {

/// The compression scheme of the levels of a texture file.
pub const SCHEME_ZSTANDARD: u32 = 2;

/// The colour model of UASTC blocks.
pub const COLOUR_MODEL_UASTC: u8 = 166;

/// The channel of colours with alpha.
pub const CHANNEL_UASTC_RGBA: u8 = 3;

/// The channel of normal maps.
pub const CHANNEL_UASTC_RRRG: u8 = 5;

/// A texture that cannot be decoded.
pub enum TextureError {
    /// The file cannot be read.
    Ktx2(ktx2::ParseError),
    /// The levels are not compressed with Zstandard.
    UnsupportedCompression(u32),
    /// A format descriptor cannot be parsed.
    Descriptor(DescriptorFault),
    /// A level cannot be decompressed.
    Io(std::io::Error),
    /// A level is not as long as the file says.
    LevelSize,
    /// There are more levels than a texture can have, or a level is too large.
    LevelTooLarge,
    /// A level cannot be transcoded.
    Transcode(basis_universal::TranscodeError),
}

/// Format descriptors that do not describe UASTC blocks.
#[derive(Clone, Copy, PartialEq, Eq, Structural, Debug)]
pub enum DescriptorFault {
    /// The descriptor is cut off.
    Truncated,
    /// The descriptor gives a block dimension that cannot be stored.
    BlockDimension,
    UnsupportedColourModel,
    NoSampleInformation,
    /// A format descriptor is shorter than its header.
    Malformed,
    NoBasicDescriptor,
}

/// What the format descriptors of a texture say of its blocks.
#[derive(Clone, Copy, PartialEq, Eq, Structural, Debug)]
pub struct TextureKind {
    pub has_alpha: bool,
    pub is_normal_map: bool,
}

/// The header of a basic format descriptor.
pub open spec fn is_basic(header: (u32, u32, u16)) -> bool {
    header == (0u32, 0u32, 2u16)
}

/// What a basic format descriptor says.
pub open spec fn basic_kind(data: Seq<u8>) -> Result<TextureKind, DescriptorFault> {
    if !basic_sound(data) {
        Err(DescriptorFault::BlockDimension)
    } else if data.len() < 16 {
        Err(DescriptorFault::Truncated)
    } else if data[0] != COLOUR_MODEL_UASTC {
        Err(DescriptorFault::UnsupportedColourModel)
    } else {
        match first_channel(data) {
            Some(channel) => Ok(
                TextureKind {
                    has_alpha: channel == CHANNEL_UASTC_RGBA,
                    is_normal_map: channel == CHANNEL_UASTC_RRRG,
                },
            ),
            None => Err(DescriptorFault::NoSampleInformation),
        }
    }
}

/// What the first `n` format descriptor blocks say: the last basic one counts, and the first
/// fault ends the search; nothing where none is basic.
pub open spec fn blocks_kind(blocks: Seq<((u32, u32, u16), Seq<u8>)>, n: nat) -> Result<
    Option<TextureKind>,
    DescriptorFault,
>
    decreases n,
{
    if n == 0 {
        Ok(None)
    } else {
        match blocks_kind(blocks, (n - 1) as nat) {
            Err(fault) => Err(fault),
            Ok(kind) => if is_basic(blocks[n - 1].0) {
                match basic_kind(blocks[n - 1].1) {
                    Ok(found) => Ok(Some(found)),
                    Err(fault) => Err(fault),
                }
            } else {
                Ok(kind)
            },
        }
    }
}

/// What the format descriptors of a texture say. Where they are not sound, a malformed descriptor
/// follows those that are given.
pub open spec fn texture_kind_of(
    blocks: Seq<((u32, u32, u16), Seq<u8>)>,
    sound: bool,
) -> Result<TextureKind, DescriptorFault> {
    match blocks_kind(blocks, blocks.len()) {
        Ok(kind) => if !sound {
            Err(DescriptorFault::Malformed)
        } else {
            match kind {
                Some(kind) => Ok(kind),
                None => Err(DescriptorFault::NoBasicDescriptor),
            }
        },
        Err(fault) => Err(fault),
    }
}

fn read_basic(data: &Vec<u8>) -> (result: Result<TextureKind, DescriptorFault>)
    ensures
        result == basic_kind(data@),
{
    if !check_basic(data) {
        return Err(DescriptorFault::BlockDimension);
    }
    match parse_basic(data) {
        Ok((model, channel)) => {
            if model != COLOUR_MODEL_UASTC {
                return Err(DescriptorFault::UnsupportedColourModel);
            }
            match channel {
                Some(channel) => Ok(
                    TextureKind {
                        has_alpha: channel == CHANNEL_UASTC_RGBA,
                        is_normal_map: channel == CHANNEL_UASTC_RRRG,
                    },
                ),
                None => Err(DescriptorFault::NoSampleInformation),
            }
        },
        Err(_) => Err(DescriptorFault::Truncated),
    }
}

/// Finds out what kind of texture the format descriptors describe. Where they are not sound, a
/// malformed descriptor follows those of the file.
pub fn texture_kind(file: &Ktx2File, sound: bool) -> (result: Result<
    TextureKind,
    DescriptorFault,
>)
    ensures
        result == texture_kind_of(file@.blocks, sound),
{
    let mut kind: Option<TextureKind> = None;
    let mut i: usize = 0;
    while i < file.blocks.len()
        invariant
            i <= file.blocks.len(),
            blocks_kind(file@.blocks, i as nat) == Ok::<Option<TextureKind>, DescriptorFault>(kind),
        decreases file.blocks.len() - i,
    {
        let block = &file.blocks[i];
        assert(file@.blocks[i as int] == (block.0, block.1@));
        if block.0.0 == 0 && block.0.1 == 0 && block.0.2 == 2 {
            match read_basic(&block.1) {
                Ok(found) => {
                    kind = Some(found);
                },
                Err(fault) => {
                    proof {
                        fault_stays(file@.blocks, (i + 1) as nat, file@.blocks.len());
                    }
                    return Err(fault);
                },
            }
        }
        i += 1;
    }
    if !sound {
        return Err(DescriptorFault::Malformed);
    }
    match kind {
        Some(kind) => Ok(kind),
        None => Err(DescriptorFault::NoBasicDescriptor),
    }
}

proof fn fault_stays(blocks: Seq<((u32, u32, u16), Seq<u8>)>, m: nat, n: nat)
    requires
        m <= n,
        blocks_kind(blocks, m) is Err,
    ensures
        blocks_kind(blocks, n) == blocks_kind(blocks, m),
    decreases n,
{
    if m < n {
        fault_stays(blocks, m, (n - 1) as nat);
    }
}

/// The data of a level, decompressed and as long as the file says.
pub open spec fn level_data(level: (Seq<u8>, u64)) -> Option<Seq<u8>> {
    match zstd_decoded(level.0) {
        Some(data) => if data.len() == level.1 {
            Some(data)
        } else {
            None
        },
        None => None,
    }
}

/// Half a size, `i` times over.
pub open spec fn level_size(size: u32, i: nat) -> u32
    decreases i,
{
    if i == 0 {
        size
    } else {
        (level_size(size, (i - 1) as nat) / 2) as u32
    }
}

/// The blocks of level `i` of a texture.
pub open spec fn level_blocks(view: Ktx2View, kind: TextureKind, i: nat) -> LevelBlocks {
    let (width, height) = (level_size(view.width, i), level_size(view.height, i));
    LevelBlocks {
        blocks_x: blocks_for(width) as u32,
        blocks_y: blocks_for(height) as u32,
        width,
        height,
        has_alpha: kind.has_alpha,
    }
}

/// The format that the levels are transcoded to: normal maps have two channels.
pub open spec fn block_format(kind: TextureKind) -> BlockFormat {
    if kind.is_normal_map {
        BlockFormat::Bc5
    } else {
        BlockFormat::Bc7
    }
}

/// Level `i` has no pixels.
pub open spec fn level_empty(view: Ktx2View, i: nat) -> bool {
    level_size(view.width, i) == 0 || level_size(view.height, i) == 0
}

/// Level `i` can be handed to the transcoder.
pub open spec fn level_fits(view: Ktx2View, kind: TextureKind, i: nat) -> bool {
    &&& i < 32
    &&& level_empty(view, i) || (level_blocks(view, kind, i).wf() && (level_data(
        view.levels[i as int],
    )->0).len() <= u32::MAX)
}

/// The transcoder accepts level `i`.
pub open spec fn level_accepted(view: Ktx2View, kind: TextureKind, i: nat) -> bool {
    uastc_accepted(
        level_data(view.levels[i as int])->0,
        level_blocks(view, kind, i),
        block_format(kind),
    )
}

/// `output` is what level `i` is transcoded to: what the transcoder returned, sixteen bytes for
/// each block. Normal maps are transcoded in whole numbers; the bytes of colours depend on how the
/// machine rounds.
pub open spec fn level_output(
    view: Ktx2View,
    kind: TextureKind,
    i: nat,
    output: Seq<u8>,
) -> bool {
    let blocks = level_blocks(view, kind, i);
    &&& output.len() == 16 * (blocks.blocks_x * blocks.blocks_y)
    &&& is_transcoded(
        level_data(view.levels[i as int])->0,
        blocks,
        block_format(kind),
        output,
    )
    &&& kind.is_normal_map ==> output == bc5_transcoded(
        level_data(view.levels[i as int])->0,
        blocks,
    )
}

/// The first `n` levels are decompressed without fault.
pub open spec fn levels_decoded(view: Ktx2View, n: int) -> bool {
    forall|i: int| 0 <= i < n ==> level_data(#[trigger] view.levels[i]) is Some
}

/// Level `i` is transcoded without fault, or has no pixels.
pub open spec fn level_done(view: Ktx2View, kind: TextureKind, i: int) -> bool {
    level_fits(view, kind, i as nat) && (level_empty(view, i as nat) || level_accepted(
        view,
        kind,
        i as nat,
    ))
}

/// Level `i` cannot be handed to the transcoder.
pub open spec fn level_too_large(view: Ktx2View, kind: TextureKind, i: int) -> bool {
    !level_fits(view, kind, i as nat)
}

/// The transcoder fails on level `i`.
pub open spec fn level_fails(view: Ktx2View, kind: TextureKind, i: int) -> bool {
    level_fits(view, kind, i as nat) && !level_done(view, kind, i)
}

/// The first `n` levels are transcoded without fault.
pub open spec fn levels_done(view: Ktx2View, kind: TextureKind, n: int) -> bool {
    forall|i: int| 0 <= i < n ==> #[trigger] level_done(view, kind, i)
}

/// The levels with pixels among the first `n`, in order.
pub open spec fn visible_levels(view: Ktx2View, n: nat) -> Seq<nat>
    decreases n,
{
    if n == 0 {
        seq![]
    } else if level_empty(view, (n - 1) as nat) {
        visible_levels(view, (n - 1) as nat)
    } else {
        visible_levels(view, (n - 1) as nat).push((n - 1) as nat)
    }
}

/// `mips` are the transcoded levels with pixels among the first `n`, in order.
pub open spec fn are_mips(view: Ktx2View, kind: TextureKind, n: nat, mips: Seq<Seq<u8>>) -> bool {
    let visible = visible_levels(view, n);
    &&& mips.len() == visible.len()
    &&& forall|k: int|
        0 <= k < mips.len() ==> level_output(view, kind, visible[k], #[trigger] mips[k])
}

/// A texture that is ready to be uploaded.
pub struct DecodedTexture {
    pub width: u32,
    pub height: u32,
    pub format: i32,
    pub mip_levels: Vec<Vec<u8>>,
}

/// The levels as sequences of bytes.
pub open spec fn level_views(levels: Seq<Vec<u8>>) -> Seq<Seq<u8>> {
    levels.map_values(|l: Vec<u8>| l@)
}

/// The first level that cannot be decompressed gives this error.
pub open spec fn decode_fault(view: Ktx2View, e: TextureError) -> bool {
    match e {
        TextureError::Io(_) => exists|i: int|
            0 <= i < view.levels.len() && levels_decoded(view, i) && zstd_decoded(
                (#[trigger] view.levels[i]).0,
            ) is None,
        TextureError::LevelSize => exists|i: int|
            0 <= i < view.levels.len() && levels_decoded(view, i) && zstd_decoded(
                (#[trigger] view.levels[i]).0,
            ) is Some && level_data(view.levels[i]) is None,
        _ => false,
    }
}

/// The first level that cannot be transcoded gives this error.
pub open spec fn transcode_fault(view: Ktx2View, kind: TextureKind, e: TextureError) -> bool {
    match e {
        TextureError::LevelTooLarge => exists|i: int|
            0 <= i < view.levels.len() && levels_done(view, kind, i) && #[trigger] level_too_large(
                view,
                kind,
                i,
            ),
        TextureError::Transcode(_) => exists|i: int|
            0 <= i < view.levels.len() && levels_done(view, kind, i) && #[trigger] level_fails(
                view,
                kind,
                i,
            ),
        _ => false,
    }
}

/// Decompresses the levels of a texture.
pub fn decode_levels(file: &Ktx2File) -> (result: Result<Vec<Vec<u8>>, TextureError>)
    ensures
        match result {
            Ok(levels) => {
                &&& levels_decoded(file@, file@.levels.len() as int)
                &&& levels.len() == file@.levels.len()
                &&& forall|i: int|
                    0 <= i < levels.len() ==> level_data(file@.levels[i]) == Some(
                        (#[trigger] levels@[i])@,
                    )
            },
            Err(e) => decode_fault(file@, e),
        },
{
    let mut levels: Vec<Vec<u8>> = Vec::with_capacity(file.levels.len());
    let mut i: usize = 0;
    while i < file.levels.len()
        invariant
            i <= file.levels.len(),
            levels.len() == i,
            forall|k: int|
                0 <= k < i ==> level_data(file@.levels[k]) == Some((#[trigger] levels@[k])@),
        decreases file.levels.len() - i,
    {
        let level = &file.levels[i];
        let mut data: Vec<u8> = Vec::new();
        proof {
            assert(file@.levels[i as int] == (level.0@, level.1));
            assert forall|k: int| 0 <= k < i implies level_data(#[trigger] file@.levels[k]) is Some by {
                assert(level_data(file@.levels[k]) == Some(levels@[k]@));
            }
        }
        match zstd_decode(&level.0, &mut data) {
            Ok(_) => {},
            Err(e) => {
                return Err(TextureError::Io(e));
            },
        }
        assert(Seq::<u8>::empty() + zstd_decoded(level.0@)->0 =~= zstd_decoded(level.0@)->0);
        if data.len() as u64 != level.1 {
            return Err(TextureError::LevelSize);
        }
        levels.push(data);
        i += 1;
    }
    proof {
        assert forall|k: int| 0 <= k < file@.levels.len() implies level_data(
            #[trigger] file@.levels[k],
        ) is Some by {
            assert(level_data(file@.levels[k]) == Some(levels@[k]@));
        }
    }
    Ok(levels)
}

/// Puts what the transcoder made of a level behind the levels before, or gives its error.
pub fn keep_level(
    mips: &mut Vec<Vec<u8>>,
    transcoded: Result<Vec<u8>, basis_universal::TranscodeError>,
) -> (result: Result<(), TextureError>)
    ensures
        match transcoded {
            Ok(output) => {
                &&& result == Ok::<(), TextureError>(())
                &&& final(mips)@ == old(mips)@.push(output)
            },
            Err(e) => {
                &&& result == Err::<(), TextureError>(TextureError::Transcode(e))
                &&& final(mips)@ == old(mips)@
            },
        },
{
    match transcoded {
        Ok(output) => {
            mips.push(output);
            Ok(())
        },
        Err(e) => Err(TextureError::Transcode(e)),
    }
}

/// Transcodes the levels of a texture; levels without pixels are left out.
pub fn transcode_levels(file: &Ktx2File, kind: TextureKind, levels: &Vec<Vec<u8>>) -> (result: Result<
    Vec<Vec<u8>>,
    TextureError,
>)
    requires
        levels.len() == file@.levels.len(),
        forall|i: int|
            0 <= i < levels.len() ==> level_data(file@.levels[i]) == Some((#[trigger] levels@[i])@),
    ensures
        match result {
            Ok(mips) => {
                &&& levels_done(file@, kind, levels.len() as int)
                &&& are_mips(file@, kind, levels@.len(), level_views(mips@))
            },
            Err(e) => transcode_fault(file@, kind, e),
        },
{
    let mut mips: Vec<Vec<u8>> = Vec::new();
    let mut width: u32 = file.width;
    let mut height: u32 = file.height;
    let format: BlockFormat = if kind.is_normal_map {
        BlockFormat::Bc5
    } else {
        BlockFormat::Bc7
    };
    let mut i: usize = 0;
    assert(level_views(mips@) =~= seq![]);
    while i < levels.len()
        invariant
            i <= levels.len() == file@.levels.len(),
            forall|i: int|
                0 <= i < levels.len() ==> level_data(file@.levels[i]) == Some(
                    (#[trigger] levels@[i])@,
                ),
            format == block_format(kind),
            width == level_size(file@.width, i as nat),
            height == level_size(file@.height, i as nat),
            levels_done(file@, kind, i as int),
            are_mips(file@, kind, i as nat, level_views(mips@)),
        decreases levels.len() - i,
    {
        let data = &levels[i];
        if i >= 32 {
            assert(level_too_large(file@, kind, i as int));
            return Err(TextureError::LevelTooLarge);
        }
        if width != 0 && height != 0 {
            if width > u32::MAX - 3 || height > u32::MAX - 3 {
                assert(level_too_large(file@, kind, i as int));
                return Err(TextureError::LevelTooLarge);
            }
            let blocks = blocks_at(width, height, kind.has_alpha);
            assert(blocks == level_blocks(file@, kind, i as nat));
            assert(blocks.blocks_x * blocks.blocks_y <= 0x4000_0000 * 0x4000_0000)
                by (nonlinear_arith)
                requires
                    blocks.blocks_x <= 0x4000_0000,
                    blocks.blocks_y <= 0x4000_0000,
            ;
            if blocks.blocks_x as u64 * blocks.blocks_y as u64 > u32::MAX as u64 / 16
                || data.len() as u64 > u32::MAX as u64 {
                assert(level_too_large(file@, kind, i as int));
                return Err(TextureError::LevelTooLarge);
            }
            let ghost before = mips@;
            let transcoded = uastc_transcode(data.as_slice(), blocks, true, format);
            match keep_level(&mut mips, transcoded) {
                Ok(_) => {},
                Err(e) => {
                    assert(level_fails(file@, kind, i as int));
                    return Err(e);
                },
            }
            proof {
                let (views, now) = (level_views(before), level_views(mips@));
                assert(now =~= views.push(mips@.last()@));
                assert forall|k: int| 0 <= k < now.len() implies level_output(
                    file@,
                    kind,
                    visible_levels(file@, (i + 1) as nat)[k],
                    #[trigger] now[k],
                ) by {
                    if k < views.len() {
                        assert(now[k] == views[k]);
                    }
                }
            }
        }
        assert(level_done(file@, kind, i as int));
        width = width / 2;
        height = height / 2;
        i += 1;
    }
    Ok(mips)
}

/// Decodes a texture file with UASTC blocks.
pub fn decode_texture(bytes: &Vec<u8>) -> (result: Result<DecodedTexture, TextureError>)
    ensures
        match result {
            Ok(texture) => ktx2_contents(bytes@) matches Some(view) && {
                &&& view.scheme == SCHEME_ZSTANDARD
                &&& texture_kind_of(view.blocks, descriptors_sound(bytes@)) matches Ok(kind) && {
                    &&& levels_decoded(view, view.levels.len() as int)
                    &&& levels_done(view, kind, view.levels.len() as int)
                    &&& texture.width == view.width
                    &&& texture.height == view.height
                    &&& texture.format == (if kind.is_normal_map {
                        FORMAT_BC5_UNORM_BLOCK
                    } else {
                        FORMAT_BC7_SRGB_BLOCK
                    })
                    &&& are_mips(view, kind, view.levels.len(), level_views(texture.mip_levels@))
                    &&& forall|k: int|
                        0 <= k < texture.mip_levels.len() ==> is_level(
                            view,
                            kind,
                            k,
                            (#[trigger] texture.mip_levels@[k])@,
                        )
                }
            },
            Err(TextureError::Ktx2(_)) => ktx2_contents(bytes@) is None,
            Err(e) => ktx2_contents(bytes@) matches Some(view) && {
                let kind = texture_kind_of(view.blocks, descriptors_sound(bytes@));
                match e {
                    TextureError::UnsupportedCompression(scheme) => view.scheme == scheme && scheme
                        != SCHEME_ZSTANDARD,
                    TextureError::Descriptor(fault) => view.scheme == SCHEME_ZSTANDARD && kind
                        == Err::<TextureKind, DescriptorFault>(fault),
                    _ => view.scheme == SCHEME_ZSTANDARD && (kind matches Ok(kind) && (decode_fault(
                        view,
                        e,
                    ) || (levels_decoded(view, view.levels.len() as int) && transcode_fault(
                        view,
                        kind,
                        e,
                    )))),
                }
            },
        },
{
    let file = match read_ktx2(bytes) {
        Ok(file) => file,
        Err(e) => {
            return Err(TextureError::Ktx2(e));
        },
    };
    if file.scheme != SCHEME_ZSTANDARD {
        return Err(TextureError::UnsupportedCompression(file.scheme));
    }
    let (_, sound) = check_descriptors(bytes);
    let kind: TextureKind = match texture_kind(&file, sound) {
        Ok(kind) => kind,
        Err(fault) => {
            return Err(TextureError::Descriptor(fault));
        },
    };
    let levels = match decode_levels(&file) {
        Ok(levels) => levels,
        Err(e) => {
            return Err(e);
        },
    };
    let mip_levels = match transcode_levels(&file, kind, &levels) {
        Ok(mips) => mips,
        Err(e) => {
            return Err(e);
        },
    };
    proof {
        let views = level_views(mip_levels@);
        levels_are_transcoded(file@, kind, views);
        assert forall|k: int| 0 <= k < mip_levels.len() implies is_level(
            file@,
            kind,
            k,
            (#[trigger] mip_levels@[k])@,
        ) by {
            assert(views[k] == mip_levels@[k]@);
        }
    }
    Ok(
        DecodedTexture {
            width: file.width,
            height: file.height,
            format: if kind.is_normal_map {
                FORMAT_BC5_UNORM_BLOCK
            } else {
                FORMAT_BC7_SRGB_BLOCK
            },
            mip_levels,
        },
    )
}

/// The Vulkan format of a format of a texture file that is used as it is; nothing for formats
/// that are not supported.
pub fn ktx_to_vulkan_format(format: u32) -> (result: Option<i32>)
    ensures
        result == (if format == 43 {
            Some(FORMAT_R8G8B8A8_SRGB)
        } else {
            None
        }),
{
    if format == 43 {
        Some(FORMAT_R8G8B8A8_SRGB)
    } else {
        None
    }
}

/// The format of a texture that may not name one: colours with alpha are assumed.
pub fn format_or_default(format: u32) -> (result: Option<i32>)
    ensures
        result == (if format == 0 || format == 43 {
            Some(FORMAT_R8G8B8A8_SRGB)
        } else {
            None
        }),
{
    if format == 0 {
        Some(FORMAT_R8G8B8A8_SRGB)
    } else {
        ktx_to_vulkan_format(format)
    }
}

/// A texture whose levels are used as they are; nothing where its format is not supported.
pub fn plain_texture(file: Ktx2File) -> (texture: Option<DecodedTexture>)
    ensures
        texture is Some <==> file@.format == 43,
        texture matches Some(t) ==> {
            &&& t.width == file@.width
            &&& t.height == file@.height
            &&& t.format == FORMAT_R8G8B8A8_SRGB
            &&& level_views(t.mip_levels@) == file@.levels.map_values(|l: (Seq<u8>, u64)| l.0)
        },
{
    let format: i32 = match ktx_to_vulkan_format(file.format) {
        Some(format) => format,
        None => {
            return None;
        },
    };
    let mut mip_levels: Vec<Vec<u8>> = Vec::with_capacity(file.levels.len());
    let mut i: usize = 0;
    while i < file.levels.len()
        invariant
            i <= file.levels.len(),
            mip_levels.len() == i,
            forall|k: int| 0 <= k < i ==> (#[trigger] mip_levels@[k])@ == file.levels@[k].0@,
        decreases file.levels.len() - i,
    {
        let data = file.levels[i].0.clone();
        assert(data@ =~= file.levels@[i as int].0@);
        mip_levels.push(data);
        i += 1;
    }
    assert(level_views(mip_levels@) =~= file@.levels.map_values(|l: (Seq<u8>, u64)| l.0));
    Some(DecodedTexture { width: file.width, height: file.height, format, mip_levels })
}

/// The size of a level is that of the texture, divided by two for each level before it.
pub proof fn level_sizes_halve(size: u32, i: nat)
    ensures
        level_size(size, i) == size as int / pow2(i) as int,
    decreases i,
{
    lemma2_to64();
    lemma_pow2_pos(i);
    if i > 0 {
        level_sizes_halve(size, (i - 1) as nat);
        lemma_pow2_pos((i - 1) as nat);
        lemma_pow2_unfold(i);
        let half = pow2((i - 1) as nat) as int;
        lemma_div_denominator(size as int, half, 2);
        assert(level_size(size, i) == size as int / half / 2);
        assert(half * 2 == pow2(i));
        assert(size as int / half / 2 == size as int / pow2(i) as int);
    } else {
        assert(pow2(0) == 1);
        assert(size as int / 1 == size);
    }
}

/// The levels with pixels come first.
proof fn visible_levels_first(view: Ktx2View, n: nat)
    ensures
        visible_levels(view, n).len() <= n,
        forall|k: int|
            0 <= k < visible_levels(view, n).len() ==> #[trigger] visible_levels(view, n)[k] == k,
        forall|k: nat|
            k < n ==> (#[trigger] level_empty(view, k) <==> k >= visible_levels(view, n).len()),
    decreases n,
{
    if n > 0 {
        let m = (n - 1) as nat;
        visible_levels_first(view, m);
        let before = visible_levels(view, m);
        assert(n > 1 && level_empty(view, (m - 1) as nat) ==> level_empty(view, m)) by {
            if n > 1 {
                assert(level_size(view.width, m) == level_size(view.width, (m - 1) as nat) / 2);
                assert(level_size(view.height, m) == level_size(view.height, (m - 1) as nat) / 2);
            }
        }
        if before.len() < m {
            assert(level_empty(view, (m - 1) as nat));
        }
    }
}

/// `output` is what the transcoder made of level `k`, whose size is divided by two `k` times, in
/// blocks of four by four pixels: as BC5 for normal maps, and as BC7 for colours.
pub open spec fn made_of_level(
    view: Ktx2View,
    kind: TextureKind,
    k: int,
    blocks: LevelBlocks,
    output: Seq<u8>,
) -> bool {
    &&& blocks.width == view.width as int / pow2(k as nat) as int
    &&& blocks.height == view.height as int / pow2(k as nat) as int
    &&& 4 * blocks.blocks_x - 3 <= blocks.width <= 4 * blocks.blocks_x
    &&& 4 * blocks.blocks_y - 3 <= blocks.height <= 4 * blocks.blocks_y
    &&& blocks.has_alpha == kind.has_alpha
    &&& zstd_decoded(view.levels[k].0) matches Some(data) && {
        &&& data.len() == view.levels[k].1
        &&& kind.is_normal_map ==> is_transcoded(data, blocks, BlockFormat::Bc5, output) && output
            == bc5_transcoded(data, blocks)
        &&& !kind.is_normal_map ==> is_transcoded(data, blocks, BlockFormat::Bc7, output)
    }
    &&& output.len() == 16 * (blocks.blocks_x * blocks.blocks_y)
}

/// `output` is what the transcoder made of level `k`.
pub open spec fn is_level(view: Ktx2View, kind: TextureKind, k: int, output: Seq<u8>) -> bool {
    exists|blocks: LevelBlocks| #[trigger] made_of_level(view, kind, k, blocks, output)
}

/// Level `k` of a decoded texture is what the transcoder made of the decompressed level `k` of the
/// file, at its size in pixels and with blocks of four by four, as BC5 for normal maps and as BC7
/// for colours. All levels are there down to the last one with a pixel.
pub proof fn levels_are_transcoded(
    view: Ktx2View,
    kind: TextureKind,
    mips: Seq<Seq<u8>>,
)
    requires
        levels_decoded(view, view.levels.len() as int),
        levels_done(view, kind, view.levels.len() as int),
        are_mips(view, kind, view.levels.len(), mips),
    ensures
        forall|k: int|
            0 <= k < view.levels.len() ==> (#[trigger] (view.width as int / pow2(k as nat) as int)
                > 0 && view.height as int / pow2(k as nat) as int > 0 <==> k < mips.len()),
        forall|k: int|
            0 <= k < mips.len() ==> k < view.levels.len() && is_level(view, kind, k, #[trigger] mips[k]),
{
    let n = view.levels.len();
    visible_levels_first(view, n);
    assert forall|k: int| 0 <= k < n implies (#[trigger] (view.width as int / pow2(
        k as nat,
    ) as int) > 0 && view.height as int / pow2(k as nat) as int > 0 <==> k < mips.len()) by {
        level_sizes_halve(view.width, k as nat);
        level_sizes_halve(view.height, k as nat);
        assert(level_empty(view, k as nat) <==> k >= mips.len());
    }
    assert forall|k: int| 0 <= k < mips.len() implies k < view.levels.len() && is_level(
        view,
        kind,
        k,
        #[trigger] mips[k],
    ) by {
        level_sizes_halve(view.width, k as nat);
        level_sizes_halve(view.height, k as nat);
        assert(visible_levels(view, n)[k] == k);
        assert(level_output(view, kind, k as nat, mips[k]));
        assert(level_data(view.levels[k]) is Some);
        assert(level_done(view, kind, k));
        assert(!level_empty(view, k as nat));
        let blocks = level_blocks(view, kind, k as nat);
        assert(blocks.wf());
        assert(made_of_level(view, kind, k, blocks, mips[k]));
    }
}

/// What kind of texture it is, the last basic descriptor says: its first byte is the colour model
/// of UASTC, and the low half of the byte at 19 is the channel, three for colours with alpha and
/// five for normal maps.
pub proof fn kind_of_last_descriptor(blocks: Seq<((u32, u32, u16), Seq<u8>)>, sound: bool)
    ensures
        texture_kind_of(blocks, sound) matches Ok(kind) ==> sound && exists|i: int|
            {
                &&& 0 <= i < blocks.len()
                &&& (#[trigger] blocks[i]).0 == (0u32, 0u32, 2u16)
                &&& forall|j: int|
                    i < j < blocks.len() ==> (#[trigger] blocks[j]).0 != (0u32, 0u32, 2u16)
                &&& blocks[i].1.len() >= 32
                &&& blocks[i].1[0] == 166
                &&& kind.has_alpha <==> blocks[i].1[19] % 16 == 3
                &&& kind.is_normal_map <==> blocks[i].1[19] % 16 == 5
            },
{
    if texture_kind_of(blocks, sound) is Ok {
        last_basic(blocks, blocks.len());
    }
}

proof fn last_basic(blocks: Seq<((u32, u32, u16), Seq<u8>)>, n: nat)
    requires
        n <= blocks.len(),
        blocks_kind(blocks, n) is Ok,
    ensures
        match blocks_kind(blocks, n)->Ok_0 {
            Some(kind) => exists|i: int|
                {
                    &&& 0 <= i < n
                    &&& (#[trigger] blocks[i]).0 == (0u32, 0u32, 2u16)
                    &&& forall|j: int| i < j < n ==> (#[trigger] blocks[j]).0 != (0u32, 0u32, 2u16)
                    &&& basic_kind(blocks[i].1) == Ok::<TextureKind, DescriptorFault>(kind)
                },
            None => forall|j: int| 0 <= j < n ==> (#[trigger] blocks[j]).0 != (0u32, 0u32, 2u16),
        },
    decreases n,
{
    if n > 0 {
        last_basic(blocks, (n - 1) as nat);
        if is_basic(blocks[n - 1].0) {
            assert(blocks[n - 1].0 == (0u32, 0u32, 2u16));
        } else if blocks_kind(blocks, n)->Ok_0 is Some {
            let kind = blocks_kind(blocks, n)->Ok_0->0;
            let i = choose|i: int|
                {
                    &&& 0 <= i < n - 1
                    &&& (#[trigger] blocks[i]).0 == (0u32, 0u32, 2u16)
                    &&& forall|j: int|
                        i < j < n - 1 ==> (#[trigger] blocks[j]).0 != (0u32, 0u32, 2u16)
                    &&& basic_kind(blocks[i].1) == Ok::<TextureKind, DescriptorFault>(kind)
                };
            assert(blocks[i].0 == (0u32, 0u32, 2u16));
        }
    }
}

/// What is read of a texture file is compressed with Zstandard, the second scheme of the format,
/// and comes out in the formats 141 for normal maps and 146 for colours.
pub proof fn textures_come_out_as_blocks(kind: TextureKind)
    ensures
        SCHEME_ZSTANDARD == 2,
        FORMAT_BC5_UNORM_BLOCK == 141,
        FORMAT_BC7_SRGB_BLOCK == 146,
        FORMAT_R8G8B8A8_SRGB == 43,
        block_format(kind) is Bc5 <==> kind.is_normal_map,
{
}

} // verus!

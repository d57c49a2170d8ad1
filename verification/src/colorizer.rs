//! Colorization strategies: mapping one column's voxel attributes to a packed
//! 32-bit color.
//!
//! Every strategy is a pure function of the column attributes, so colorizing
//! the same region data twice always yields identical pixels.

use vstd::prelude::*;

verus! {

/// The visible attributes of one world column.
#[derive(Clone, Copy, PartialEq, Eq, Structural, Debug)]
pub struct Column {
    /// Height of the top visible block.
    pub height: u8,
    /// Identifier of the top visible block type.
    pub block: u16,
    /// Recorded light level at the top of the column, 0 to 15.
    pub light: u8,
    /// Identifier of the biome the column lies in.
    pub biome: u8,
}

/// The closed set of colorization strategies. `Unknown` is a sentinel for an
/// invalid selection and is rejected before any rendering starts.
#[derive(Clone, Copy, PartialEq, Eq, Structural, Debug)]
pub enum Colorizer {
    Simple,
    Light,
    Biome,
    Height,
    Terrain,
    Unknown,
}

/// Packs opaque-alpha color channels into one 32-bit value, `0xAARRGGBB`.
pub open spec fn pack_argb(r: int, g: int, b: int) -> int {
    255 * 0x1000000 + r * 0x10000 + g * 0x100 + b
}

/// Flat color derived from the block type alone.
pub open spec fn spec_simple_color(block: u16) -> int {
    pack_argb((block * 31) % 256, (block * 97) % 256, (block * 61) % 256)
}

/// One channel scaled by a light level: brightness between 16/31 and 31/31.
pub open spec fn spec_scale_channel(ch: int, light: u8) -> int {
    ch * ((light % 16) + 16) / 31
}

/// The block color with every channel scaled by the light level.
pub open spec fn spec_light_color(block: u16, light: u8) -> int {
    pack_argb(
        spec_scale_channel((block * 31) % 256, light),
        spec_scale_channel((block * 97) % 256, light),
        spec_scale_channel((block * 61) % 256, light),
    )
}

/// Flat color keyed by the biome identifier, ignoring height and light.
pub open spec fn spec_biome_color(biome: u8) -> int {
    pack_argb((biome * 37) % 256, (biome * 73) % 256, (biome * 17) % 256)
}

/// Gradient color derived from the height scalar.
pub open spec fn spec_height_color(height: u8) -> int {
    pack_argb(height as int, 255 - height, (height * 2) % 256)
}

/// Composite: block and height colors blended channel-wise, then scaled by
/// the light level.
pub open spec fn spec_terrain_color(c: Column) -> int {
    pack_argb(
        spec_scale_channel((((c.block * 31) % 256) + c.height) / 2, c.light),
        spec_scale_channel((((c.block * 97) % 256) + (255 - c.height)) / 2, c.light),
        spec_scale_channel((((c.block * 61) % 256) + ((c.height * 2) % 256)) / 2, c.light),
    )
}

/// The color a strategy gives one column. `Unknown` never reaches rendering;
/// its value here is a fixed transparent black.
pub open spec fn spec_colorize(cz: Colorizer, c: Column) -> u32 {
    match cz {
        Colorizer::Simple => spec_simple_color(c.block) as u32,
        Colorizer::Light => spec_light_color(c.block, c.light) as u32,
        Colorizer::Biome => spec_biome_color(c.biome) as u32,
        Colorizer::Height => spec_height_color(c.height) as u32,
        Colorizer::Terrain => spec_terrain_color(c) as u32,
        Colorizer::Unknown => 0u32,
    }
}

/// The pixels of a whole region under a strategy, one per column, in the
/// column order of the input.
pub open spec fn spec_colorize_region(cz: Colorizer, cols: Seq<Column>) -> Seq<u32> {
    Seq::new(cols.len(), |k: int| spec_colorize(cz, cols[k]))
}

/// Packs opaque-alpha color channels into one 32-bit value.
fn pack(r: u32, g: u32, b: u32) -> (c: u32)
    requires
        r < 256,
        g < 256,
        b < 256,
    ensures
        c == pack_argb(r as int, g as int, b as int),
{
    255u32 * 0x1000000 + r * 0x10000 + g * 0x100 + b
}

/// Scales one channel by a light level.
fn scale_channel(ch: u32, light: u8) -> (r: u32)
    requires
        ch < 256,
    ensures
        r == spec_scale_channel(ch as int, light),
        r < 256,
{
    let f: u32 = ((light % 16) as u32) + 16;
    assert(ch * f <= 255 * 31) by (nonlinear_arith)
        requires
            ch <= 255 && f <= 31,
    ;
    ch * f / 31
}

/// Applies one colorization strategy to one column.
pub fn colorize(cz: Colorizer, c: Column) -> (color: u32)
    requires
        cz != Colorizer::Unknown,
    ensures
        color == spec_colorize(cz, c),
{
    match cz {
        Colorizer::Simple => {
            pack((c.block as u32 * 31) % 256, (c.block as u32 * 97) % 256, (c.block as u32 * 61)
                % 256)
        },
        Colorizer::Light => {
            pack(
                scale_channel((c.block as u32 * 31) % 256, c.light),
                scale_channel((c.block as u32 * 97) % 256, c.light),
                scale_channel((c.block as u32 * 61) % 256, c.light),
            )
        },
        Colorizer::Biome => {
            pack((c.biome as u32 * 37) % 256, (c.biome as u32 * 73) % 256, (c.biome as u32 * 17)
                % 256)
        },
        Colorizer::Height => {
            pack(c.height as u32, 255 - (c.height as u32), (c.height as u32 * 2) % 256)
        },
        Colorizer::Terrain => {
            pack(
                scale_channel((((c.block as u32 * 31) % 256) + c.height as u32) / 2, c.light),
                scale_channel((((c.block as u32 * 97) % 256) + (255 - c.height as u32)) / 2, c.light),
                scale_channel(
                    (((c.block as u32 * 61) % 256) + ((c.height as u32 * 2) % 256)) / 2,
                    c.light,
                ),
            )
        },
        Colorizer::Unknown => {
            // unreachable: ruled out by the precondition
            proof {
                assert(false);
            }
            0
        },
    }
}

/// Colorizes a whole region: one pixel per column, in column order.
///
/// The result is a pure function of the strategy and the column data, so two
/// calls on the same input yield identical pixel buffers.
pub fn colorize_region(cz: Colorizer, cols: &Vec<Column>) -> (px: Vec<u32>)
    requires
        cz != Colorizer::Unknown,
    ensures
        px@ == spec_colorize_region(cz, cols@),
        px@.len() == cols@.len(),
{
    let mut px: Vec<u32> = Vec::new();
    let mut k: usize = 0;
    while k < cols.len()
        invariant
            0 <= k <= cols@.len(),
            cz != Colorizer::Unknown,
            px@.len() == k,
            forall|j: int| 0 <= j < k ==> px@[j] == spec_colorize(cz, cols@[j]),
        decreases cols@.len() - k,
    {
        let c: u32 = colorize(cz, cols[k]);
        px.push(c);
        k += 1;
    }
    assert(px@ =~= spec_colorize_region(cz, cols@));
    px
}

/// Maps the command's strategy flags to a `Colorizer`, first flag wins;
/// `Unknown` when none is set.
pub fn select_colorizer(simple: bool, light: bool, biome: bool, height: bool, terrain: bool) -> (cz:
    Colorizer)
    ensures
        cz == (if simple {
            Colorizer::Simple
        } else if light {
            Colorizer::Light
        } else if biome {
            Colorizer::Biome
        } else if height {
            Colorizer::Height
        } else if terrain {
            Colorizer::Terrain
        } else {
            Colorizer::Unknown
        }),
{
    if simple {
        Colorizer::Simple
    } else if light {
        Colorizer::Light
    } else if biome {
        Colorizer::Biome
    } else if height {
        Colorizer::Height
    } else if terrain {
        Colorizer::Terrain
    } else {
        Colorizer::Unknown
    }
}

} // verus!

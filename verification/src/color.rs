//! Decode herdr's packed-`u32` wire colors into concrete RGB triples.
//!
//! The server encodes each cell color with a tag in the top byte:
//! - tag `0x00`: a named color in the low byte (`0x00` = Reset,
//!   `0x01..=0x10` = the 16 ANSI names), where `Reset` defers to the
//!   client's default foreground/background.
//! - tag `0x01`: an indexed (xterm 256) color in the low byte.
//! - tag `0x02`: a 24-bit RGB color in the low three bytes.

use vstd::prelude::*;

verus! {

/// RGB color as three 8-bit channels.
pub type Rgb = (u8, u8, u8);

/// Default foreground used for `Reset` foreground cells.
pub const DEFAULT_FG: Rgb = (205, 214, 244);

/// Default background used for `Reset` background cells.
pub const DEFAULT_BG: Rgb = (30, 30, 46);

/// The 16 ANSI colors (xterm-style defaults), indexed `0..=15`.
pub open spec fn spec_ansi16(index: int) -> Rgb {
    if index == 0 { (0, 0, 0) }
    else if index == 1 { (205, 0, 0) }
    else if index == 2 { (0, 205, 0) }
    else if index == 3 { (205, 205, 0) }
    else if index == 4 { (0, 0, 238) }
    else if index == 5 { (205, 0, 205) }
    else if index == 6 { (0, 205, 205) }
    else if index == 7 { (229, 229, 229) }
    else if index == 8 { (127, 127, 127) }
    else if index == 9 { (255, 0, 0) }
    else if index == 10 { (0, 255, 0) }
    else if index == 11 { (255, 255, 0) }
    else if index == 12 { (92, 92, 255) }
    else if index == 13 { (255, 0, 255) }
    else if index == 14 { (0, 255, 255) }
    else { (255, 255, 255) }
}

/// Looks up one of the 16 ANSI colors.
pub fn ansi16(index: u8) -> (c: Rgb)
    requires
        index < 16,
    ensures
        c == spec_ansi16(index as int),
{
    match index {
        0 => (0, 0, 0),
        1 => (205, 0, 0),
        2 => (0, 205, 0),
        3 => (205, 205, 0),
        4 => (0, 0, 238),
        5 => (205, 0, 205),
        6 => (0, 205, 205),
        7 => (229, 229, 229),
        8 => (127, 127, 127),
        9 => (255, 0, 0),
        10 => (0, 255, 0),
        11 => (255, 255, 0),
        12 => (92, 92, 255),
        13 => (255, 0, 255),
        14 => (0, 255, 255),
        _ => (255, 255, 255),
    }
}

/// One step of the 6-level xterm color cube: 0 stays 0, any other level
/// `v` maps to `55 + 40 * v`.
pub open spec fn spec_cube_component(value: int) -> int {
    if value == 0 { 0 } else { 55 + value * 40 }
}

fn cube_component(value: u8) -> (c: u8)
    requires
        value <= 5,
    ensures
        c == spec_cube_component(value as int),
{
    if value == 0 {
        0
    } else {
        55 + value * 40
    }
}

/// The xterm 256-color palette: the 16 ANSI colors, then the 6x6x6 cube,
/// then a 24-step grayscale ramp `8, 18, ..., 238`.
pub open spec fn spec_indexed_to_rgb(index: int) -> Rgb {
    if index < 16 {
        spec_ansi16(index)
    } else if index <= 231 {
        let i: int = index - 16;
        (
            spec_cube_component(i / 36) as u8,
            spec_cube_component((i % 36) / 6) as u8,
            spec_cube_component(i % 6) as u8,
        )
    } else {
        let level: u8 = (8 + 10 * (index - 232)) as u8;
        (level, level, level)
    }
}

/// Converts an xterm 256-color index to RGB.
pub fn indexed_to_rgb(index: u8) -> (c: Rgb)
    ensures
        c == spec_indexed_to_rgb(index as int),
{
    if index <= 15 {
        ansi16(index)
    } else if index <= 231 {
        let i: u8 = index - 16;
        let r: u8 = i / 36;
        let g: u8 = (i % 36) / 6;
        let b: u8 = i % 6;
        (cube_component(r), cube_component(g), cube_component(b))
    } else {
        // Grayscale ramp 232..=255 -> 8, 18, ... 238.
        let level: u8 = 8 + 10 * (index - 232);
        (level, level, level)
    }
}

/// The tag byte of a packed wire color.
pub open spec fn color_tag(packed: u32) -> int {
    packed as int / 0x100_0000
}

/// The low byte of a packed wire color.
pub open spec fn low_byte(packed: u32) -> int {
    packed as int % 0x100
}

/// What a packed wire color stands for, with `default` standing in for
/// `Reset` and for any tag or name the scheme does not define.
pub open spec fn spec_decode(packed: u32, default: Rgb) -> Rgb {
    let tag: int = color_tag(packed);
    let low: int = low_byte(packed);
    if tag == 0 {
        if 1 <= low <= 0x10 {
            spec_ansi16(low - 1)
        } else {
            default
        }
    } else if tag == 1 {
        spec_indexed_to_rgb(low)
    } else if tag == 2 {
        (
            ((packed as int / 0x1_0000) % 0x100) as u8,
            ((packed as int / 0x100) % 0x100) as u8,
            low as u8,
        )
    } else {
        default
    }
}

/// Decodes a packed wire color into RGB, falling back to `default` when the
/// color resolves to `Reset`.
pub fn decode(packed: u32, default: Rgb) -> (c: Rgb)
    ensures
        c == spec_decode(packed, default),
{
    proof {
        assert(packed >> 24 == packed / 0x100_0000) by (bit_vector);
        assert(packed & 0xFF == packed % 0x100) by (bit_vector);
        assert((packed >> 16) & 0xFF == (packed / 0x1_0000) % 0x100) by (bit_vector);
        assert((packed >> 8) & 0xFF == (packed / 0x100) % 0x100) by (bit_vector);
    }
    let tag: u32 = packed >> 24;
    let low: u8 = (packed & 0xFF) as u8;
    match tag {
        0x00 => {
            if low == 0 {
                default
            } else if low <= 0x10 {
                ansi16(low - 1)
            } else {
                default
            }
        },
        0x01 => indexed_to_rgb(low),
        0x02 => {
            let r: u8 = ((packed >> 16) & 0xFF) as u8;
            let g: u8 = ((packed >> 8) & 0xFF) as u8;
            let b: u8 = low;
            (r, g, b)
        },
        _ => default,
    }
}

/// The `0x00RRGGBB` word of an RGB triple.
pub open spec fn spec_pack_rgb(c: Rgb) -> u32 {
    (c.0 as int * 0x1_0000 + c.1 as int * 0x100 + c.2 as int) as u32
}

/// The RGB triple stored in the low three bytes of a pixel word.
pub open spec fn spec_unpack_rgb(packed: u32) -> Rgb {
    (
        ((packed as int / 0x1_0000) % 0x100) as u8,
        ((packed as int / 0x100) % 0x100) as u8,
        (packed as int % 0x100) as u8,
    )
}

/// Packs an RGB triple into the `0x00RRGGBB` layout softbuffer expects.
pub fn pack_rgb(c: Rgb) -> (p: u32)
    ensures
        p == spec_pack_rgb(c),
        p < 0x100_0000,
{
    let (r, g, b) = c;
    let p: u32 = ((r as u32) << 16) | ((g as u32) << 8) | (b as u32);
    proof {
        let (r32, g32, b32) = (r as u32, g as u32, b as u32);
        assert(r32 < 256 && g32 < 256 && b32 < 256 ==> (r32 << 16) | (g32 << 8) | b32
            == r32 * 0x1_0000 + g32 * 0x100 + b32) by (bit_vector);
    }
    p
}

/// Reads the RGB triple back out of a `0x00RRGGBB` pixel word; the top
/// byte is ignored.
pub fn unpack_rgb(packed: u32) -> (c: Rgb)
    ensures
        c == spec_unpack_rgb(packed),
{
    proof {
        assert((packed >> 16) & 0xFF == (packed / 0x1_0000) % 0x100) by (bit_vector);
        assert((packed >> 8) & 0xFF == (packed / 0x100) % 0x100) by (bit_vector);
        assert(packed & 0xFF == packed % 0x100) by (bit_vector);
    }
    (((packed >> 16) & 0xFF) as u8, ((packed >> 8) & 0xFF) as u8, (packed & 0xFF) as u8)
}

/// The channel-wise floor average of two colors.
pub open spec fn spec_dim(fg: Rgb, bg: Rgb) -> Rgb {
    (
        ((fg.0 + bg.0) / 2) as u8,
        ((fg.1 + bg.1) / 2) as u8,
        ((fg.2 + bg.2) / 2) as u8,
    )
}

/// Blends `fg` toward `bg` by half, used for the `DIM` modifier.
pub fn dim(fg: Rgb, bg: Rgb) -> (c: Rgb)
    ensures
        c == spec_dim(fg, bg),
{
    (
        ((fg.0 as u16 + bg.0 as u16) / 2) as u8,
        ((fg.1 as u16 + bg.1 as u16) / 2) as u8,
        ((fg.2 as u16 + bg.2 as u16) / 2) as u8,
    )
}

/// One channel of `fg` laid over `bg` with coverage `a` out of 255.
pub open spec fn spec_mix(f: u8, b: u8, a: u8) -> u8 {
    ((f * a + b * (255 - a)) / 255) as u8
}

/// `fg` laid over `bg` with coverage `a` out of 255, channel by channel.
pub open spec fn spec_blend(bg: Rgb, fg: Rgb, a: u8) -> Rgb {
    (spec_mix(fg.0, bg.0, a), spec_mix(fg.1, bg.1, a), spec_mix(fg.2, bg.2, a))
}

/// Mixes one channel: `(f * a + b * (255 - a)) / 255`.
pub fn mix_channel(f: u8, b: u8, a: u8) -> (m: u8)
    ensures
        m == spec_mix(f, b, a),
{
    let a32: u32 = a as u32;
    let inv: u32 = 255 - a32;
    proof {
        assert(f * a + b * (255 - a) <= 255 * 255) by (nonlinear_arith)
            requires
                f <= 255,
                b <= 255,
                a <= 255,
        ;
    }
    ((f as u32 * a32 + b as u32 * inv) / 255) as u8
}

/// Alpha-blends `fg` over `bg` with coverage `a` (`0..=255`).
pub fn blend(bg: Rgb, fg: Rgb, a: u8) -> (c: Rgb)
    ensures
        c == spec_blend(bg, fg, a),
{
    (mix_channel(fg.0, bg.0, a), mix_channel(fg.1, bg.1, a), mix_channel(fg.2, bg.2, a))
}

/// Packing is lossless: unpacking a packed color gives the color back, and
/// packing the channels of a pixel word whose top byte is clear gives the
/// word back.
pub proof fn lemma_pack_unpack_roundtrip(c: Rgb, packed: u32)
    ensures
        spec_unpack_rgb(spec_pack_rgb(c)) == c,
        packed < 0x100_0000 ==> spec_pack_rgb(spec_unpack_rgb(packed)) == packed,
{
}

/// The RGB tag carries its three channels verbatim: decoding
/// `0x02RRGGBB` yields `(RR, GG, BB)` whatever the default.
pub proof fn lemma_rgb_tag_roundtrip(c: Rgb, default: Rgb)
    ensures
        spec_decode((0x200_0000 + spec_pack_rgb(c)) as u32, default) == c,
{
}

/// Every color the named scheme or an unknown tag leaves undefined falls
/// back to the default: `Reset` (`0x00000000`) is always the default.
pub proof fn lemma_reset_is_default(default: Rgb)
    ensures
        spec_decode(0, default) == default,
{
}

/// Full coverage paints the foreground exactly and zero coverage keeps
/// the background exactly.
pub proof fn lemma_blend_extremes(bg: Rgb, fg: Rgb)
    ensures
        spec_blend(bg, fg, 255) == fg,
        spec_blend(bg, fg, 0) == bg,
{
}

/// Channel `k` (0 red, 1 green, 2 blue) of a color.
pub open spec fn channel(c: Rgb, k: int) -> int {
    if k == 0 { c.0 as int } else if k == 1 { c.1 as int } else { c.2 as int }
}

/// The named ANSI colors follow the ANSI numbering: in a color name
/// `1 + i`, bit 0 of `i % 8` stands for red, bit 1 for green and bit 2 for
/// blue. A chromatic name (`i % 8` between 1 and 6) has its named channels
/// at the color's peak and the others below it; names 0, 7, 8 and 15 are
/// grays (black, light gray, dark gray, white); and each bright name
/// (`i + 8`) is at least as bright as its normal one, channel by channel.
pub proof fn lemma_named_colors_follow_ansi_bits(i: int, k: int, default: Rgb)
    requires
        0 <= i < 16,
        0 <= k < 3,
    ensures
        ({
            let c = spec_decode((1 + i) as u32, default);
            let peak = if c.0 >= c.1 && c.0 >= c.2 { c.0 as int } else if c.1 >= c.2 { c.1 as int } else { c.2 as int };
            let bit = ((i % 8) / if k == 0 { 1int } else if k == 1 { 2int } else { 4int }) % 2 == 1;
            &&& 1 <= i % 8 <= 6 ==> (bit <==> channel(c, k) == peak) && peak > 0
            &&& (i % 8 == 0 || i % 8 == 7) ==> c.0 == c.1 && c.1 == c.2
            &&& i < 8 ==> channel(c, k) <= channel(spec_decode((9 + i) as u32, default), k)
        }),
        spec_decode(1, default) == (0u8, 0u8, 0u8),
        spec_decode(16, default) == (255u8, 255u8, 255u8),
        spec_decode(9, default).0 < spec_decode(8, default).0,
{
}

/// The 16 named colors are xterm's defaults: black, red, green, yellow,
/// blue, magenta, cyan and light gray, then dark gray and their bright
/// forms.
pub proof fn lemma_named_colors_are_xterm(i: int, default: Rgb)
    requires
        0 <= i < 16,
    ensures
        spec_decode((1 + i) as u32, default) == seq![
            (0u8, 0u8, 0u8),
            (205u8, 0u8, 0u8),
            (0u8, 205u8, 0u8),
            (205u8, 205u8, 0u8),
            (0u8, 0u8, 238u8),
            (205u8, 0u8, 205u8),
            (0u8, 205u8, 205u8),
            (229u8, 229u8, 229u8),
            (127u8, 127u8, 127u8),
            (255u8, 0u8, 0u8),
            (0u8, 255u8, 0u8),
            (255u8, 255u8, 0u8),
            (92u8, 92u8, 255u8),
            (255u8, 0u8, 255u8),
            (0u8, 255u8, 255u8),
            (255u8, 255u8, 255u8),
        ][i],
{
}

/// A named color and the indexed color of the same ANSI number are the
/// same color: indexes `0..16` of the 256-color palette are the named
/// colors.
pub proof fn lemma_indexed_extends_named(i: int, default: Rgb)
    requires
        0 <= i < 16,
    ensures
        spec_decode((0x100_0000 + i) as u32, default) == spec_decode((1 + i) as u32, default),
{
}

/// The 256-color palette past the named colors is xterm's: index
/// `16 + 36 r + 6 g + b` (each level below 6) has the cube levels
/// `0, 95, 135, 175, 215, 255` of `r`, `g` and `b` as its channels, and
/// index `232 + k` is the gray `8 + 10 k`.
pub proof fn lemma_indexed_palette_is_xterm(r: int, g: int, b: int, k: int, default: Rgb)
    requires
        0 <= r < 6,
        0 <= g < 6,
        0 <= b < 6,
        0 <= k < 24,
    ensures
        ({
            let level = |v: int| seq![0int, 95, 135, 175, 215, 255][v];
            let c = spec_decode((0x100_0000 + 16 + 36 * r + 6 * g + b) as u32, default);
            c.0 == level(r) && c.1 == level(g) && c.2 == level(b)
        }),
        spec_decode((0x100_0000 + 232 + k) as u32, default) == ((8 + 10 * k) as u8, (8 + 10 * k) as u8, (8 + 10 * k) as u8),
{
    let i = 36 * r + 6 * g + b;
    assert(i / 36 == r && (i % 36) / 6 == g && i % 6 == b) by (nonlinear_arith)
        requires
            i == 36 * r + 6 * g + b,
            0 <= r < 6,
            0 <= g < 6,
            0 <= b < 6,
    ;
    lemma_indexed_tag(16 + i);
    lemma_indexed_tag(232 + k);
    assert(spec_indexed_to_rgb(16 + i) == (
        spec_cube_component(r) as u8,
        spec_cube_component(g) as u8,
        spec_cube_component(b) as u8,
    ));
}

/// A packed indexed color `0x01_0000NN` decodes as palette entry `NN`.
proof fn lemma_indexed_tag(n: int)
    requires
        0 <= n < 256,
    ensures
        forall|default: Rgb| #[trigger] spec_decode((0x100_0000 + n) as u32, default) == spec_indexed_to_rgb(n),
{
    let p = (0x100_0000 + n) as u32;
    assert(color_tag(p) == 1);
    assert(low_byte(p) == n);
}

} // verus!

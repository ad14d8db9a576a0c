use vstd::prelude::*;

verus! {

/// Number of colour themes; each has a dark and a light variant.
pub const THEME_COUNT: usize = 14;

/// Theme used for an unknown theme id: theme 3 in its dark variant.
pub const FALLBACK_THEME: usize = 3;

/// sRGB colours of every theme variant, six per variant in the order background,
/// primary, accent, foreground, muted, border. Variant `2 * id` is the dark variant
/// of theme `id` and `2 * id + 1` its light variant.
pub const THEME_HEX: [u32; 168] = [
    0x2D1028, 0xFF88EB, 0xFF64A9, 0xF3EBF0, 0x968991, 0x4D2842,
    0xFAEEF6, 0xB5007A, 0x8B0057, 0x2C2329, 0x796C74, 0xD098B8,
    0x0E1830, 0x31A4FA, 0x0067AB, 0xD9E5F0, 0x71889B, 0x283858,
    0xE0EEF8, 0x004DA8, 0x007BA0, 0x10202C, 0x526578, 0x90B0D8,
    0x0C1030, 0x10922C, 0xFFDA24, 0xDBE7DB, 0x839283, 0x283858,
    0xDEF0DE, 0x005A00, 0xD4B000, 0x1A202C, 0x586379, 0x88C888,
    0x151805, 0x7D9100, 0x99B741, 0xDBDFCD, 0x828968, 0x3F4720,
    0xD0D8B8, 0x6C7E00, 0xBEE05F, 0x33391D, 0x53593B, 0x283010,
    0x1A0818, 0xFF5FFF, 0xFFC273, 0xF2EBF1, 0x8F7E8D, 0x482840,
    0xF8EEFF, 0xA800B0, 0x6B0097, 0x1A0D1C, 0x726270, 0xD098C0,
    0x140001, 0xFFB000, 0xFFAD00, 0xFBF2F1, 0x996C69, 0x4C1013,
    0xF5E8E4, 0xA00000, 0xC07000, 0x1E0C0C, 0x825D5C, 0xD08878,
    0x1A1A20, 0xB0B6BF, 0x33363A, 0xE6EAF1, 0x7B7F85, 0x383840,
    0xECEEF2, 0x282D34, 0xC0C4CC, 0x16181C, 0x6D7176, 0xC0C0C8,
    0x1E1028, 0xC497F7, 0x84AAFF, 0xC2D3F5, 0x90A0C0, 0x382850,
    0xE6E9F0, 0x7F00CC, 0x1E66F5, 0x3C3F5A, 0x6A738B, 0xA088C0,
    0x101828, 0x6BB1CA, 0xDD9700, 0xE4D5B1, 0x6C6151, 0x282038,
    0xD5C4A1, 0x1A5E72, 0xAA6C00, 0x3A3A4A, 0x6B5E48, 0xA89868,
    0x10101C, 0xDF6B93, 0xC1A2E7, 0xDCDDFB, 0x635883, 0x302838,
    0xEEE4D4, 0x8B2252, 0x5C3F87, 0x3A3049, 0x89839D, 0xC8B898,
    0x1C1828, 0xB38EFF, 0xF860CD, 0xF8F6FE, 0x48619A, 0x382848,
    0xE8E4F5, 0x6020C0, 0xCC0088, 0x1A1B28, 0x48619A, 0xB098C8,
    0x0C0C0C, 0xFF6E00, 0xFF9736, 0xEFEDEA, 0x7F7F7F, 0x2C2C2C,
    0xF0EAE0, 0xC04800, 0xA03000, 0x0C0C0C, 0x5D5D5D, 0xD0C8B8,
    0x101840, 0x4E83DE, 0xDB898B, 0xD0D8F0, 0x6878A0, 0x283060,
    0xD8E8F8, 0x1840A0, 0xA02020, 0x080820, 0x486090, 0x98A8C8,
    0x101838, 0x4E83DE, 0xDB898B, 0xF1F1F1, 0x67788D, 0x283058,
    0xD0DFEE, 0x1A4A9A, 0xA04040, 0x001830, 0x54698A, 0x98A8C8,
];

/// Chart colours of every theme variant in OKLCh, four per variant, each as
/// lightness and chroma in thousandths followed by the hue in degrees (variants
/// ordered as in [`THEME_HEX`]).
pub const THEME_CHART: [u16; 336] = [
    750, 180, 340, 700, 150, 25, 650, 120, 300, 800, 200, 350,
    380, 220, 340, 520, 260, 310, 450, 200, 358, 580, 150, 325,
    650, 260, 250, 680, 240, 195, 730, 200, 225, 600, 260, 270,
    320, 240, 250, 480, 220, 195, 400, 200, 270, 550, 180, 215,
    650, 280, 145, 880, 200, 92, 600, 260, 158, 760, 240, 112,
    350, 220, 145, 550, 280, 88, 420, 180, 162, 520, 200, 130,
    680, 280, 118, 760, 260, 122, 620, 240, 135, 820, 200, 100,
    330, 200, 118, 500, 260, 105, 400, 180, 135, 550, 160, 118,
    780, 280, 328, 900, 220, 88, 600, 180, 300, 720, 220, 340,
    360, 280, 328, 500, 220, 295, 420, 260, 350, 580, 180, 315,
    580, 300, 22, 820, 200, 78, 480, 280, 22, 720, 220, 35,
    340, 280, 22, 500, 240, 45, 400, 260, 10, 550, 220, 32,
    780, 60, 250, 650, 50, 100, 550, 60, 280, 880, 30, 180,
    220, 12, 260, 400, 10, 230, 320, 8, 280, 520, 8, 250,
    760, 140, 305, 750, 130, 265, 700, 140, 190, 740, 150, 130,
    350, 260, 300, 450, 240, 258, 400, 200, 180, 520, 180, 145,
    650, 220, 222, 760, 240, 80, 600, 200, 200, 720, 220, 55,
    350, 180, 222, 480, 260, 72, 400, 180, 148, 500, 200, 8,
    620, 260, 0, 680, 240, 300, 580, 220, 20, 650, 200, 332,
    360, 180, 5, 420, 220, 295, 400, 140, 195, 520, 200, 80,
    740, 180, 295, 720, 220, 340, 720, 180, 170, 780, 150, 75,
    340, 260, 295, 450, 280, 340, 400, 220, 170, 520, 180, 290,
    650, 280, 50, 750, 240, 35, 700, 220, 68, 580, 300, 42,
    380, 260, 42, 520, 280, 60, 300, 50, 50, 550, 220, 55,
    600, 260, 264, 560, 240, 22, 650, 240, 240, 680, 220, 32,
    300, 260, 264, 400, 280, 22, 360, 240, 242, 500, 220, 38,
    600, 260, 258, 680, 240, 20, 650, 240, 240, 650, 220, 38,
    300, 220, 258, 460, 240, 18, 360, 200, 240, 520, 180, 32,
];

/// A chart colour in OKLCh: lightness and chroma in thousandths, hue in degrees.
#[derive(Clone, Copy, Debug)]
pub struct ChartColor {
    pub l_milli: u16,
    pub c_milli: u16,
    pub hue_deg: u16,
}

/// The colours of one theme variant: six sRGB hex colours (`0xRRGGBB`) and four chart
/// colours for the overlay depths.
#[derive(Clone, Copy, Debug)]
pub struct ThemeColors {
    pub background: u32,
    pub primary: u32,
    pub accent: u32,
    pub foreground: u32,
    pub muted: u32,
    pub border: u32,
    pub chart: [ChartColor; 4],
}

/// The variant shown for theme `id` in the given mode; an unknown id shows the
/// fallback theme in its dark variant.
pub open spec fn theme_slot(id: int, dark: bool) -> int {
    if 0 <= id < THEME_COUNT {
        2 * id + if dark { 0int } else { 1int }
    } else {
        2 * FALLBACK_THEME
    }
}

/// Colours of theme `id` in dark or light mode, read from the theme tables; an unknown
/// id yields the dark variant of the fallback theme.
pub fn theme_colors(id: usize, dark: bool) -> (r: ThemeColors)
    ensures
        ({
            let s = theme_slot(id as int, dark);
            &&& r.background == THEME_HEX@[6 * s]
            &&& r.primary == THEME_HEX@[6 * s + 1]
            &&& r.accent == THEME_HEX@[6 * s + 2]
            &&& r.foreground == THEME_HEX@[6 * s + 3]
            &&& r.muted == THEME_HEX@[6 * s + 4]
            &&& r.border == THEME_HEX@[6 * s + 5]
            &&& forall|k: int|
                0 <= k < 4 ==> {
                    &&& (#[trigger] r.chart@[k]).l_milli == THEME_CHART@[12 * s + 3 * k]
                    &&& r.chart@[k].c_milli == THEME_CHART@[12 * s + 3 * k + 1]
                    &&& r.chart@[k].hue_deg == THEME_CHART@[12 * s + 3 * k + 2]
                }
        }),
{
    let slot: usize = if id < THEME_COUNT {
        2 * id + if dark { 0 } else { 1 }
    } else {
        2 * FALLBACK_THEME
    };
    let h = 6 * slot;
    let c = 12 * slot;
    let chart = [
        ChartColor { l_milli: THEME_CHART[c], c_milli: THEME_CHART[c + 1], hue_deg: THEME_CHART[c + 2] },
        ChartColor { l_milli: THEME_CHART[c + 3], c_milli: THEME_CHART[c + 4], hue_deg: THEME_CHART[c + 5] },
        ChartColor { l_milli: THEME_CHART[c + 6], c_milli: THEME_CHART[c + 7], hue_deg: THEME_CHART[c + 8] },
        ChartColor { l_milli: THEME_CHART[c + 9], c_milli: THEME_CHART[c + 10], hue_deg: THEME_CHART[c + 11] },
    ];
    ThemeColors {
        background: THEME_HEX[h],
        primary: THEME_HEX[h + 1],
        accent: THEME_HEX[h + 2],
        foreground: THEME_HEX[h + 3],
        muted: THEME_HEX[h + 4],
        border: THEME_HEX[h + 5],
        chart,
    }
}

/// Red, green and blue bytes of an sRGB hex colour `0xRRGGBB`.
pub fn srgb_hex_channels(hex: u32) -> (r: (u8, u8, u8))
    ensures
        r.0 == (hex >> 16) & 0xFF,
        r.1 == (hex >> 8) & 0xFF,
        r.2 == hex & 0xFF,
{
    let red = (hex >> 16) & 0xFF;
    let green = (hex >> 8) & 0xFF;
    let blue = hex & 0xFF;
    proof {
        assert(red <= 0xFF) by (bit_vector)
            requires red == (hex >> 16) & 0xFF;
        assert(green <= 0xFF) by (bit_vector)
            requires green == (hex >> 8) & 0xFF;
        assert(blue <= 0xFF) by (bit_vector)
            requires blue == hex & 0xFF;
    }
    (red as u8, green as u8, blue as u8)
}

/// Distinct (theme, mode) choices show distinct variants, and an unknown theme id
/// shows the same variant as the fallback theme in dark mode.
pub proof fn law_theme_slots(id1: int, dark1: bool, id2: int, dark2: bool)
    ensures
        0 <= theme_slot(id1, dark1) < 2 * THEME_COUNT,
        (0 <= id1 < THEME_COUNT && 0 <= id2 < THEME_COUNT && (id1 != id2 || dark1 != dark2)) ==> theme_slot(
            id1,
            dark1,
        ) != theme_slot(id2, dark2),
        !(0 <= id1 < THEME_COUNT) ==> theme_slot(id1, dark1) == theme_slot(FALLBACK_THEME as int, true),
{
}

} // verus!

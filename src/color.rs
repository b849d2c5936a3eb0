//! Colours as sampled from the screen, their hex text and their HSL form.
use vstd::prelude::*;
use crate::text::{decimal, digit_char, digit_to_char, push_char, push_decimal};

verus! {

/// An 8-bit-per-channel RGB colour.
#[derive(Clone, Copy, Debug, PartialEq, Eq, Structural)]
pub struct Rgb {
    pub r: u8,
    pub g: u8,
    pub b: u8,
}

/// Denominator of the lightness fraction: lightness is `(max + min) / 510`.
pub const LIGHT_DEN: u32 = 510;

pub open spec fn channel_max(c: Rgb) -> int {
    if c.r >= c.g && c.r >= c.b {
        c.r as int
    } else if c.g >= c.b {
        c.g as int
    } else {
        c.b as int
    }
}

pub open spec fn channel_min(c: Rgb) -> int {
    if c.r <= c.g && c.r <= c.b {
        c.r as int
    } else if c.g <= c.b {
        c.g as int
    } else {
        c.b as int
    }
}

/// Hue in degrees as a fraction `(numerator, denominator)`: the six-way
/// formula on the dominant channel, shifted into `[0, 360)`.
pub open spec fn hue_fraction(c: Rgb) -> (int, int) {
    let mx = channel_max(c);
    let d = mx - channel_min(c);
    let (r, g, b) = (c.r as int, c.g as int, c.b as int);
    if d == 0 {
        (0, 1)
    } else if mx == r {
        if g >= b {
            (60 * (g - b), d)
        } else {
            (60 * (g - b) + 360 * d, d)
        }
    } else if mx == g {
        (60 * (b - r) + 120 * d, d)
    } else {
        (60 * (r - g) + 240 * d, d)
    }
}

/// Saturation as a fraction: `delta / (1 - |2L - 1|)`, and zero for greys.
pub open spec fn saturation_fraction(c: Rgb) -> (int, int) {
    let mx = channel_max(c);
    let mn = channel_min(c);
    let d = mx - mn;
    if d == 0 {
        (0, 1)
    } else if mx + mn <= 255 {
        (d, mx + mn)
    } else {
        (d, 510 - (mx + mn))
    }
}

/// Numerator of the lightness fraction over `LIGHT_DEN`.
pub open spec fn lightness_numerator(c: Rgb) -> int {
    channel_max(c) + channel_min(c)
}

/// HSL of a colour held exactly, as fractions.
#[derive(Clone, Copy, Debug, PartialEq, Eq, Structural)]
pub struct Hsl {
    /// Hue in degrees is `hue_num / hue_den`.
    pub hue_num: u32,
    pub hue_den: u32,
    /// Saturation in `[0, 1]` is `sat_num / sat_den`.
    pub sat_num: u32,
    pub sat_den: u32,
    /// Lightness in `[0, 1]` is `light_num / LIGHT_DEN`.
    pub light_num: u32,
}

pub open spec fn is_hsl_of(h: Hsl, c: Rgb) -> bool {
    &&& h.hue_num as int == hue_fraction(c).0
    &&& h.hue_den as int == hue_fraction(c).1
    &&& h.sat_num as int == saturation_fraction(c).0
    &&& h.sat_den as int == saturation_fraction(c).1
    &&& h.light_num as int == lightness_numerator(c)
}

/// `n / d` rounded to the nearest integer, halves upwards.
pub open spec fn round_fraction(n: int, d: int) -> int {
    (2 * n + d) / (2 * d)
}

/// The text `#RRGGBB` with upper-case hex digits.
pub open spec fn hex_of(c: Rgb) -> Seq<char> {
    seq![
        '#',
        digit_char((c.r / 16) as nat),
        digit_char((c.r % 16) as nat),
        digit_char((c.g / 16) as nat),
        digit_char((c.g % 16) as nat),
        digit_char((c.b / 16) as nat),
        digit_char((c.b % 16) as nat),
    ]
}

/// The text `RGB(r, g, b)`.
pub open spec fn rgb_text_of(c: Rgb) -> Seq<char> {
    seq!['R', 'G', 'B', '('] + decimal(c.r as nat) + seq![',', ' '] + decimal(c.g as nat) + seq![
        ',',
        ' ',
    ] + decimal(c.b as nat) + seq![')']
}

/// The text `HSL(h, s%, l%)` with each value rounded to a whole number.
pub open spec fn hsl_text_of(c: Rgb) -> Seq<char> {
    let h = round_fraction(hue_fraction(c).0, hue_fraction(c).1);
    let s = round_fraction(100 * saturation_fraction(c).0, saturation_fraction(c).1);
    let l = round_fraction(100 * lightness_numerator(c), LIGHT_DEN as int);
    seq!['H', 'S', 'L', '('] + decimal(h as nat) + seq![',', ' '] + decimal(s as nat) + seq![
        '%',
        ',',
        ' ',
    ] + decimal(l as nat) + seq!['%', ')']
}

/// Hue in `[0, 360)`, saturation and lightness in `[0, 1]`, and a grey has
/// saturation exactly zero.
pub proof fn lemma_hsl_ranges(c: Rgb)
    ensures
        hue_fraction(c).1 > 0,
        0 <= hue_fraction(c).0 < 360 * hue_fraction(c).1,
        saturation_fraction(c).1 > 0,
        0 <= saturation_fraction(c).0 <= saturation_fraction(c).1,
        0 <= lightness_numerator(c) <= LIGHT_DEN,
        (c.r == c.g && c.g == c.b) ==> saturation_fraction(c).0 == 0,
{
}

fn max_channel(c: Rgb) -> (m: u8)
    ensures
        m as int == channel_max(c),
{
    if c.r >= c.g && c.r >= c.b {
        c.r
    } else if c.g >= c.b {
        c.g
    } else {
        c.b
    }
}

fn min_channel(c: Rgb) -> (m: u8)
    ensures
        m as int == channel_min(c),
{
    if c.r <= c.g && c.r <= c.b {
        c.r
    } else if c.g <= c.b {
        c.g
    } else {
        c.b
    }
}

/// `n / d` rounded to the nearest integer, halves upwards.
fn round_div(n: u32, d: u32) -> (q: u32)
    requires
        d > 0,
        n <= 1_000_000,
        d <= 1_000_000,
    ensures
        q as int == round_fraction(n as int, d as int),
{
    (2 * n + d) / (2 * d)
}

impl Rgb {
    /// Converts to HSL with the standard formula, exactly.
    pub fn to_hsl(&self) -> (h: Hsl)
        ensures
            is_hsl_of(h, *self),
    {
        let mx = max_channel(*self) as u32;
        let mn = min_channel(*self) as u32;
        let d = mx - mn;
        let (r, g, b) = (self.r as u32, self.g as u32, self.b as u32);
        let (hue_num, hue_den) = if d == 0 {
            (0u32, 1u32)
        } else if mx == r {
            if g >= b {
                (60 * (g - b), d)
            } else {
                (360 * d - 60 * (b - g), d)
            }
        } else if mx == g {
            if b >= r {
                (120 * d + 60 * (b - r), d)
            } else {
                (120 * d - 60 * (r - b), d)
            }
        } else {
            if r >= g {
                (240 * d + 60 * (r - g), d)
            } else {
                (240 * d - 60 * (g - r), d)
            }
        };
        let (sat_num, sat_den) = if d == 0 {
            (0u32, 1u32)
        } else if mx + mn <= 255 {
            (d, mx + mn)
        } else {
            (d, 510 - (mx + mn))
        };
        Hsl { hue_num, hue_den, sat_num, sat_den, light_num: mx + mn }
    }

    /// The hex text `#RRGGBB`, upper case.
    pub fn to_hex(&self) -> (s: String)
        ensures
            s@ == hex_of(*self),
    {
        let mut s = String::new();
        push_char(&mut s, '#');
        push_char(&mut s, digit_to_char(self.r as u32 / 16));
        push_char(&mut s, digit_to_char(self.r as u32 % 16));
        push_char(&mut s, digit_to_char(self.g as u32 / 16));
        push_char(&mut s, digit_to_char(self.g as u32 % 16));
        push_char(&mut s, digit_to_char(self.b as u32 / 16));
        push_char(&mut s, digit_to_char(self.b as u32 % 16));
        assert(s@ =~= hex_of(*self));
        s
    }

    /// The text `RGB(r, g, b)`.
    pub fn rgb_text(&self) -> (s: String)
        ensures
            s@ == rgb_text_of(*self),
    {
        let mut s = String::new();
        push_char(&mut s, 'R');
        push_char(&mut s, 'G');
        push_char(&mut s, 'B');
        push_char(&mut s, '(');
        push_decimal(&mut s, self.r as u32);
        push_char(&mut s, ',');
        push_char(&mut s, ' ');
        push_decimal(&mut s, self.g as u32);
        push_char(&mut s, ',');
        push_char(&mut s, ' ');
        push_decimal(&mut s, self.b as u32);
        push_char(&mut s, ')');
        assert(s@ =~= rgb_text_of(*self));
        s
    }

    /// The text `HSL(h, s%, l%)`, each value rounded to a whole number.
    pub fn hsl_text(&self) -> (s: String)
        ensures
            s@ == hsl_text_of(*self),
    {
        let hsl = self.to_hsl();
        proof {
            lemma_hsl_ranges(*self);
        }
        let h = round_div(hsl.hue_num, hsl.hue_den);
        let sat = round_div(100 * hsl.sat_num, hsl.sat_den);
        let l = round_div(100 * hsl.light_num, LIGHT_DEN);
        let mut s = String::new();
        push_char(&mut s, 'H');
        push_char(&mut s, 'S');
        push_char(&mut s, 'L');
        push_char(&mut s, '(');
        push_decimal(&mut s, h);
        push_char(&mut s, ',');
        push_char(&mut s, ' ');
        push_decimal(&mut s, sat);
        push_char(&mut s, '%');
        push_char(&mut s, ',');
        push_char(&mut s, ' ');
        push_decimal(&mut s, l);
        push_char(&mut s, '%');
        push_char(&mut s, ')');
        assert(s@ =~= hsl_text_of(*self));
        s
    }
}

} // verus!

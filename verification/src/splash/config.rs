//! Colours and window settings of the splash screen, read from the strings
//! that the build fixes.

use vstd::prelude::*;
use vstd::string::StringSliceAdditionalSpecFns;
use vstd::utf8::is_continuation_byte;

verus! {

/// A colour given by its red, green and blue channels.
#[derive(Debug, Clone, Copy)]
pub struct Color {
    pub r: u8,
    pub g: u8,
    pub b: u8,
}

/// The value of `b` read as one hexadecimal digit (either case), as
/// `char::to_digit(16)` reads it.
pub open spec fn hex_digit_value(b: u8) -> Option<u8> {
    if 48 <= b <= 57 {
        Some((b - 48) as u8)
    } else if 97 <= b <= 102 {
        Some((b - 87) as u8)
    } else if 65 <= b <= 70 {
        Some((b - 55) as u8)
    } else {
        None
    }
}

/// What `u8::from_str_radix(s, 16)` gives for the two-byte string `s = [hi, lo]`:
/// an optional leading `+` followed by hexadecimal digits; anything else is an error.
pub open spec fn hex_pair_value(hi: u8, lo: u8) -> Option<u8> {
    if hi == PLUS {
        hex_digit_value(lo)
    } else {
        match (hex_digit_value(hi), hex_digit_value(lo)) {
            (Some(h), Some(l)) => Some((h * 16 + l) as u8),
            _ => None,
        }
    }
}

/// One channel of a colour: the pair's value, or 0 where the pair does not parse.
pub open spec fn channel_value(hi: u8, lo: u8) -> u8 {
    match hex_pair_value(hi, lo) {
        Some(v) => v,
        None => 0,
    }
}

/// The bytes of a colour string with one leading `#` removed, if there is one.
pub open spec fn strip_hash(bytes: Seq<u8>) -> Seq<u8> {
    if bytes.len() > 0 && bytes[0] == HASH {
        bytes.drop_first()
    } else {
        bytes
    }
}

/// The byte ranges `0..2`, `2..4` and `4..6` of `digits` can be sliced out of
/// a string: the string is long enough and each end lies on a character boundary.
pub open spec fn hex_sliceable(digits: Seq<u8>) -> bool {
    &&& digits.len() >= 6
    &&& !is_continuation_byte(digits[2])
    &&& !is_continuation_byte(digits[4])
    &&& (digits.len() == 6 || !is_continuation_byte(digits[6]))
}

/// The colour that the UTF-8 bytes of a hex colour string describe.
pub open spec fn color_of_hex(bytes: Seq<u8>) -> Color {
    let d = strip_hash(bytes);
    Color {
        r: channel_value(d[0], d[1]),
        g: channel_value(d[2], d[3]),
        b: channel_value(d[4], d[5]),
    }
}

/// ASCII `#`.
pub const HASH: u8 = 35;

/// ASCII `+`.
pub const PLUS: u8 = 43;

fn hex_digit(b: u8) -> (v: Option<u8>)
    ensures
        v == hex_digit_value(b),
{
    if 48 <= b && b <= 57 {
        Some(b - 48)
    } else if 97 <= b && b <= 102 {
        Some(b - 87)
    } else if 65 <= b && b <= 70 {
        Some(b - 55)
    } else {
        None
    }
}

fn hex_channel(hi: u8, lo: u8) -> (v: u8)
    ensures
        v == channel_value(hi, lo),
{
    if hi == PLUS {
        match hex_digit(lo) {
            Some(l) => l,
            None => 0,
        }
    } else {
        match (hex_digit(hi), hex_digit(lo)) {
            (Some(h), Some(l)) => h * 16 + l,
            _ => 0,
        }
    }
}

impl Color {
    /// Reads a colour from six hexadecimal digits, with or without a leading `#`.
    /// A channel whose two digits do not parse is 0.
    pub fn from_hex(hex: &str) -> (color: Color)
        requires
            hex_sliceable(strip_hash(hex.spec_bytes())),
        ensures
            color == color_of_hex(hex.spec_bytes()),
    {
        let bytes = hex.as_bytes();
        let start: usize = if bytes.len() > 0 && bytes[0] == HASH {
            1
        } else {
            0
        };
        let ghost d = strip_hash(bytes@);
        assert(forall|i: int| 0 <= i < d.len() ==> d[i] == bytes@[start + i]);
        let r = hex_channel(bytes[start], bytes[start + 1]);
        let g = hex_channel(bytes[start + 2], bytes[start + 3]);
        let b = hex_channel(bytes[start + 4], bytes[start + 5]);
        Color { r, g, b }
    }

    /// The channels in the order red, green, blue.
    pub fn to_egui(&self) -> (rgb: [u8; 3])
        ensures
            rgb@ == seq![self.r, self.g, self.b],
    {
        [self.r, self.g, self.b]
    }
}

/// The lower-case hexadecimal digit for a value below 16.
pub open spec fn lower_hex_digit(v: u8) -> u8 {
    if v < 10 {
        (48 + v) as u8
    } else {
        (87 + v) as u8
    }
}

/// The six lower-case hexadecimal digits `rrggbb` of a colour.
pub open spec fn hex_of_color(c: Color) -> Seq<u8> {
    seq![
        lower_hex_digit(c.r / 16),
        lower_hex_digit(c.r % 16),
        lower_hex_digit(c.g / 16),
        lower_hex_digit(c.g % 16),
        lower_hex_digit(c.b / 16),
        lower_hex_digit(c.b % 16),
    ]
}

proof fn lemma_channel_of_lower_hex(v: u8)
    ensures
        channel_value(lower_hex_digit(v / 16), lower_hex_digit(v % 16)) == v,
{
    assert(v / 16 < 16 && v % 16 < 16);
    assert(v == (v / 16) * 16 + v % 16);
}

/// A leading `#` changes nothing: a colour string reads the same with and
/// without it, and can be sliced with it exactly when it can without it.
pub proof fn lemma_hash_prefix_is_optional(digits: Seq<u8>)
    requires
        digits.len() == 0 || digits[0] != HASH,
    ensures
        strip_hash(seq![HASH] + digits) == strip_hash(digits),
        hex_sliceable(strip_hash(seq![HASH] + digits)) == hex_sliceable(strip_hash(digits)),
        color_of_hex(seq![HASH] + digits) == color_of_hex(digits),
{
    assert((seq![HASH] + digits).drop_first() =~= digits);
}

/// Every colour is read back from its six lower-case hexadecimal digits,
/// written with or without a leading `#`.
pub proof fn lemma_hex_round_trip(c: Color)
    ensures
        hex_sliceable(strip_hash(hex_of_color(c))),
        color_of_hex(hex_of_color(c)) == c,
        hex_sliceable(strip_hash(seq![HASH] + hex_of_color(c))),
        color_of_hex(seq![HASH] + hex_of_color(c)) == c,
{
    lemma_channel_of_lower_hex(c.r);
    lemma_channel_of_lower_hex(c.g);
    lemma_channel_of_lower_hex(c.b);
    let d = hex_of_color(c);
    assert(strip_hash(d) == d);
    lemma_hash_prefix_is_optional(d);
}

/// A pair of hexadecimal digits, each `0`-`9`, `a`-`f` or `A`-`F`, reads
/// as sixteen times the first digit's value plus the second's, where `0`-`9`
/// are worth 0 to 9 and both `a`-`f` and `A`-`F` are worth 10 to 15.
pub proof fn lemma_hex_pair_reads_both_cases(hi: u8, lo: u8)
    requires
        (48 <= hi <= 57 || 97 <= hi <= 102 || 65 <= hi <= 70),
        (48 <= lo <= 57 || 97 <= lo <= 102 || 65 <= lo <= 70),
    ensures
        channel_value(hi, lo) == 16 * (if hi <= 57 {
            hi - 48
        } else if hi <= 70 {
            hi - 55
        } else {
            hi - 87
        }) + (if lo <= 57 {
            lo - 48
        } else if lo <= 70 {
            lo - 55
        } else {
            lo - 87
        }),
{
}

/// A pair that is not two hexadecimal digits reads as `u8::from_str_radix`
/// reads it: a leading `+` followed by one digit gives that digit's value,
/// and anything else gives 0.
pub proof fn lemma_hex_pair_otherwise(hi: u8, lo: u8)
    requires
        !((48 <= hi <= 57 || 97 <= hi <= 102 || 65 <= hi <= 70) && (48 <= lo <= 57 || 97 <= lo
            <= 102 || 65 <= lo <= 70)),
    ensures
        hi == 43 && 48 <= lo <= 57 ==> channel_value(hi, lo) == lo - 48,
        hi == 43 && 97 <= lo <= 102 ==> channel_value(hi, lo) == lo - 87,
        hi == 43 && 65 <= lo <= 70 ==> channel_value(hi, lo) == lo - 55,
        !(hi == 43 && (48 <= lo <= 57 || 97 <= lo <= 102 || 65 <= lo <= 70)) ==> channel_value(
            hi,
            lo,
        ) == 0,
{
}

/// The byte with ASCII upper-case letters turned to lower case.
pub open spec fn ascii_lower(b: u8) -> u8 {
    if 65 <= b <= 90 {
        (b + 32) as u8
    } else {
        b
    }
}

/// Case does not matter: a colour string reads the same as the string with
/// its ASCII letters turned to lower case.
pub proof fn lemma_hex_case_insensitive(bytes: Seq<u8>)
    requires
        bytes.len() >= 7,
    ensures
        color_of_hex(bytes) == color_of_hex(
            Seq::new(bytes.len(), |i: int| ascii_lower(bytes[i])),
        ),
{
    let lower = Seq::new(bytes.len(), |i: int| ascii_lower(bytes[i]));
    assert(lower[0] == HASH <==> bytes[0] == HASH);
    let d = strip_hash(bytes);
    let e = strip_hash(lower);
    assert forall|i: int| 0 <= i < 6 implies #[trigger] e[i] == ascii_lower(d[i]) by {
        if bytes[0] == HASH {
            assert(e[i] == lower[i + 1]);
        } else {
            assert(e[i] == lower[i]);
        }
    }
}

/// The six upper-case hexadecimal digits `RRGGBB` of a colour.
pub open spec fn upper_hex_of_color(c: Color) -> Seq<u8> {
    let digit = |v: int| if v < 10 { (48 + v) as u8 } else { (55 + v) as u8 };
    seq![
        digit(c.r as int / 16),
        digit(c.r as int % 16),
        digit(c.g as int / 16),
        digit(c.g as int % 16),
        digit(c.b as int / 16),
        digit(c.b as int % 16),
    ]
}

/// Every colour is read back from its six upper-case hexadecimal digits,
/// written with or without a leading `#`.
pub proof fn lemma_upper_hex_round_trip(c: Color)
    ensures
        hex_sliceable(strip_hash(upper_hex_of_color(c))),
        color_of_hex(upper_hex_of_color(c)) == c,
        color_of_hex(seq![HASH] + upper_hex_of_color(c)) == c,
{
    let d = upper_hex_of_color(c);
    assert(c.r == (c.r / 16) * 16 + c.r % 16);
    assert(c.g == (c.g / 16) * 16 + c.g % 16);
    assert(c.b == (c.b / 16) * 16 + c.b % 16);
    assert(strip_hash(d) == d);
    lemma_hash_prefix_is_optional(d);
}

/// The splash window's width where the configured one does not parse.
pub const DEFAULT_WINDOW_WIDTH: u32 = 480;

/// The splash window's height where the configured one does not parse.
pub const DEFAULT_WINDOW_HEIGHT: u32 = 360;

/// An ASCII decimal digit.
pub open spec fn is_decimal_digit(b: u8) -> bool {
    48 <= b <= 57
}

/// The number that a string of ASCII decimal digits writes, most significant first.
pub open spec fn decimal_value(digits: Seq<u8>) -> nat
    decreases digits.len(),
{
    if digits.len() == 0 {
        0
    } else {
        decimal_value(digits.drop_last()) * 10 + (digits.last() - 48) as nat
    }
}

/// The bytes of a number with one leading `+` removed, if there is one.
pub open spec fn strip_plus(bytes: Seq<u8>) -> Seq<u8> {
    if bytes.len() > 0 && bytes[0] == PLUS {
        bytes.drop_first()
    } else {
        bytes
    }
}

/// What `str::parse::<u32>` gives for a string with these UTF-8 bytes: an
/// optional `+` followed by at least one decimal digit and nothing else, whose
/// value fits in a `u32`.
pub open spec fn u32_of_decimal(bytes: Seq<u8>) -> Option<u32> {
    let digits = strip_plus(bytes);
    if digits.len() > 0 && (forall|i: int| 0 <= i < digits.len() ==> is_decimal_digit(#[trigger] digits[i]))
        && decimal_value(digits) <= u32::MAX {
        Some(decimal_value(digits) as u32)
    } else {
        None
    }
}

/// The parsed number, or `default` where the string does not parse.
pub open spec fn u32_of_decimal_or(bytes: Seq<u8>, default: u32) -> u32 {
    match u32_of_decimal(bytes) {
        Some(v) => v,
        None => default,
    }
}

/// The decimal digits of `n`, most significant first, with no leading zero
/// (a single `0` for zero), as `n.to_string()` writes them.
pub open spec fn decimal_of(n: nat) -> Seq<u8>
    decreases n,
{
    if n < 10 {
        seq![(48 + n) as u8]
    } else {
        decimal_of(n / 10).push((48 + n % 10) as u8)
    }
}

proof fn lemma_decimal_of_value(n: nat)
    ensures
        decimal_of(n).len() > 0,
        decimal_of(n)[0] != PLUS,
        forall|i: int| 0 <= i < decimal_of(n).len() ==> is_decimal_digit(#[trigger] decimal_of(n)[i]),
        decimal_value(decimal_of(n)) == n,
    decreases n,
{
    if n < 10 {
        assert(decimal_of(n).drop_last() =~= Seq::<u8>::empty());
        assert(decimal_value(Seq::<u8>::empty()) == 0);
        assert(decimal_of(n).last() == (48 + n) as u8);
    } else {
        lemma_decimal_of_value(n / 10);
        let d = decimal_of(n);
        assert(d.drop_last() =~= decimal_of(n / 10));
        assert(n % 10 < 10);
        assert(d.last() == (48 + n % 10) as u8);
        assert(d.last() - 48 == n % 10);
        assert(n == (n / 10) * 10 + n % 10);
    }
}

/// Every `u32` written in decimal parses back to itself, so a window size
/// given in decimal is taken as written.
pub proof fn lemma_decimal_round_trip(n: u32)
    ensures
        u32_of_decimal(decimal_of(n as nat)) == Some(n),
        u32_of_decimal_or(decimal_of(n as nat), DEFAULT_WINDOW_WIDTH) == n,
        u32_of_decimal_or(decimal_of(n as nat), DEFAULT_WINDOW_HEIGHT) == n,
{
    lemma_decimal_of_value(n as nat);
    assert(strip_plus(decimal_of(n as nat)) == decimal_of(n as nat));
}

/// A size with no digits, or with any byte other than a decimal digit
/// (but for one leading `+`), does not parse.
pub proof fn lemma_decimal_rejects(bytes: Seq<u8>, i: int)
    requires
        0 <= i < bytes.len(),
        !(48 <= bytes[i] <= 57),
        !(i == 0 && bytes[0] == 43 && bytes.len() > 1),
    ensures
        u32_of_decimal(bytes) is None,
        u32_of_decimal(Seq::<u8>::empty()) is None,
        u32_of_decimal(seq![43u8]) is None,
{
    let digits = strip_plus(bytes);
    if bytes[0] == PLUS && bytes.len() > 1 {
        assert(digits[i - 1] == bytes[i]);
    } else if bytes[0] == PLUS {
        assert(digits.len() == 0);
    } else {
        assert(digits[i] == bytes[i]);
    }
    assert(seq![43u8].drop_first().len() == 0);
}

/// One leading `+` changes nothing: a size reads the same with and without it.
pub proof fn lemma_plus_sign_is_optional(digits: Seq<u8>)
    requires
        digits.len() > 0,
        digits[0] != 43,
    ensures
        u32_of_decimal(seq![43u8] + digits) == u32_of_decimal(digits),
{
    assert((seq![43u8] + digits).drop_first() =~= digits);
}

proof fn lemma_leading_zero_value(digits: Seq<u8>)
    ensures
        decimal_value(seq![48u8] + digits) == decimal_value(digits),
    decreases digits.len(),
{
    let z = seq![48u8] + digits;
    if digits.len() == 0 {
        assert(z.drop_last() =~= Seq::<u8>::empty());
        assert(decimal_value(Seq::<u8>::empty()) == 0);
        assert(z.last() == 48);
    } else {
        assert(z.drop_last() =~= seq![48u8] + digits.drop_last());
        assert(z.last() == digits.last());
        lemma_leading_zero_value(digits.drop_last());
    }
}

/// Leading zeros change nothing: `0` followed by a size reads as the size.
pub proof fn lemma_leading_zero_is_ignored(digits: Seq<u8>)
    requires
        digits.len() > 0,
        digits[0] != 43,
    ensures
        u32_of_decimal(seq![48u8] + digits) == u32_of_decimal(digits),
{
    let z = seq![48u8] + digits;
    lemma_leading_zero_value(digits);
    assert(strip_plus(z) == z);
    assert(strip_plus(digits) == digits);
    if forall|i: int| 0 <= i < digits.len() ==> is_decimal_digit(#[trigger] digits[i]) {
        assert forall|i: int| 0 <= i < z.len() implies is_decimal_digit(#[trigger] z[i]) by {
            if i > 0 {
                assert(z[i] == digits[i - 1]);
            }
        }
    } else {
        let j = choose|j: int| 0 <= j < digits.len() && !is_decimal_digit(#[trigger] digits[j]);
        assert(z[j + 1] == digits[j]);
    }
}

/// A longer run of digits never writes a smaller number than its prefix.
proof fn lemma_decimal_value_prefix(digits: Seq<u8>, k: int)
    requires
        0 <= k <= digits.len(),
        forall|i: int| 0 <= i < digits.len() ==> is_decimal_digit(#[trigger] digits[i]),
    ensures
        decimal_value(digits.take(k)) <= decimal_value(digits),
    decreases digits.len(),
{
    if k < digits.len() {
        let rest = digits.drop_last();
        assert(rest.take(k) =~= digits.take(k));
        lemma_decimal_value_prefix(rest, k);
    } else {
        assert(digits.take(k) =~= digits);
    }
}

/// Reads a `u32` as `str::parse::<u32>` does, `None` where that gives an error.
fn parse_u32(s: &str) -> (v: Option<u32>)
    ensures
        v == u32_of_decimal(s.spec_bytes()),
{
    let bytes = s.as_bytes();
    let len = bytes.len();
    let start: usize = if len > 0 && bytes[0] == PLUS {
        1
    } else {
        0
    };
    let ghost digits = strip_plus(bytes@);
    assert(digits =~= bytes@.subrange(start as int, len as int));
    if start == len {
        return None;
    }
    let mut value: u64 = 0;
    let mut i: usize = start;
    while i < len
        invariant
            start <= i <= len,
            len == bytes@.len(),
            bytes@ == s.spec_bytes(),
            digits == strip_plus(s.spec_bytes()),
            digits =~= bytes@.subrange(start as int, len as int),
            forall|j: int| 0 <= j < i - start ==> is_decimal_digit(#[trigger] digits[j]),
            value == decimal_value(digits.take(i - start)),
            value <= u32::MAX,
        decreases len - i,
    {
        let b = bytes[i];
        if b < 48 || b > 57 {
            assert(!is_decimal_digit(digits[i - start]));
            return None;
        }
        let ghost k = i - start;
        assert(digits.take(k + 1).drop_last() =~= digits.take(k));
        let next = value * 10 + (b - 48) as u64;
        if next > u32::MAX as u64 {
            proof {
                if forall|j: int| 0 <= j < digits.len() ==> is_decimal_digit(#[trigger] digits[j]) {
                    lemma_decimal_value_prefix(digits, k + 1);
                }
            }
            return None;
        }
        value = next;
        i = i + 1;
    }
    assert(digits.take(len - start) =~= digits);
    Some(value as u32)
}

/// The splash screen's settings.
pub struct SplashConfig {
    pub bg_color: Color,
    pub text_color: Color,
    pub progress_color: Color,
    pub window_title: String,
    pub window_width: u32,
    pub window_height: u32,
    pub project_name: String,
    pub project_version: String,
}

impl SplashConfig {
    /// Builds the settings from the strings that the build environment fixes:
    /// colours are read by `Color::from_hex`, and a width or height that does
    /// not parse as a `u32` is 480 or 360.
    pub fn from_env(
        bg_color: &str,
        text_color: &str,
        progress_color: &str,
        window_title: &str,
        window_width: &str,
        window_height: &str,
        project_name: &str,
        project_version: &str,
    ) -> (config: SplashConfig)
        requires
            hex_sliceable(strip_hash(bg_color.spec_bytes())),
            hex_sliceable(strip_hash(text_color.spec_bytes())),
            hex_sliceable(strip_hash(progress_color.spec_bytes())),
        ensures
            config.bg_color == color_of_hex(bg_color.spec_bytes()),
            config.text_color == color_of_hex(text_color.spec_bytes()),
            config.progress_color == color_of_hex(progress_color.spec_bytes()),
            config.window_title@ == window_title@,
            config.window_width == u32_of_decimal_or(window_width.spec_bytes(), DEFAULT_WINDOW_WIDTH),
            config.window_height == u32_of_decimal_or(
                window_height.spec_bytes(),
                DEFAULT_WINDOW_HEIGHT,
            ),
            config.project_name@ == project_name@,
            config.project_version@ == project_version@,
    {
        let width = match parse_u32(window_width) {
            Some(w) => w,
            None => DEFAULT_WINDOW_WIDTH,
        };
        let height = match parse_u32(window_height) {
            Some(h) => h,
            None => DEFAULT_WINDOW_HEIGHT,
        };
        SplashConfig {
            bg_color: Color::from_hex(bg_color),
            text_color: Color::from_hex(text_color),
            progress_color: Color::from_hex(progress_color),
            window_title: window_title.to_owned(),
            window_width: width,
            window_height: height,
            project_name: project_name.to_owned(),
            project_version: project_version.to_owned(),
        }
    }
}

} // verus!

use vstd::prelude::*;

use crate::error::HighlightError;

verus! {

/// The escape character that starts every sequence.
pub const ESC: u8 = 0x1b;

/// `[`, which follows the escape character.
pub const BRACKET: u8 = 0x5b;

/// `m`, which ends a rendition sequence.
pub const SGR_END: u8 = 0x6d;

/// `;`, between the parameters of a sequence.
pub const SEP: u8 = 0x3b;

/// The ASCII digit `0`.
pub const DIGIT_0: u8 = 0x30;

/// `ESC [ params m`: an ANSI "select graphic rendition" sequence.
pub open spec fn sgr(params: Seq<u8>) -> Seq<u8> {
    seq![ESC, BRACKET] + params + seq![SGR_END]
}

/// `ESC[0m`: back to the terminal's default rendering.
pub open spec fn reset_code() -> Seq<u8> {
    sgr(seq![DIGIT_0])
}

/// `ESC[1m`: bold.
pub open spec fn bold_code() -> Seq<u8> {
    sgr(seq![digit(1)])
}

/// The standard foreground sequence of each named colour.
pub open spec fn named_colour_code(name: Seq<char>) -> Option<Seq<u8>> {
    if name == "red"@ {
        Some(sgr(seq![digit(3), digit(1)]))
    } else if name == "green"@ {
        Some(sgr(seq![digit(3), digit(2)]))
    } else if name == "blue"@ {
        Some(sgr(seq![digit(3), digit(4)]))
    } else if name == "yellow"@ {
        Some(sgr(seq![digit(3), digit(3)]))
    } else if name == "cyan"@ {
        Some(sgr(seq![digit(3), digit(6)]))
    } else if name == "magenta"@ {
        Some(sgr(seq![digit(3), digit(5)]))
    } else if name == "white"@ {
        Some(sgr(seq![digit(3), digit(7)]))
    } else {
        None
    }
}

/// The ASCII character of a decimal digit.
pub open spec fn digit(d: nat) -> u8 {
    (48 + d) as u8
}

/// The ASCII decimal digits of `n`, without leading zeros.
pub open spec fn decimal(n: nat) -> Seq<u8>
    decreases n,
{
    if n < 10 {
        seq![digit(n)]
    } else {
        decimal(n / 10).push(digit(n % 10))
    }
}

/// `ESC[38;2;R;G;Bm`: a 24-bit foreground colour.
pub open spec fn true_colour_code(red: nat, green: nat, blue: nat) -> Seq<u8> {
    sgr(seq![digit(3), digit(8), SEP, digit(2), SEP] + decimal(red) + seq![SEP] + decimal(green) + seq![
        SEP,
    ] + decimal(blue))
}

/// The value of one hex digit, either case.
pub open spec fn hex_digit_value(c: char) -> Option<nat> {
    let v = c as u32;
    if 48 <= v <= 57 {
        Some((v - 48) as nat)
    } else if 97 <= v <= 102 {
        Some((v - 87) as nat)
    } else if 65 <= v <= 70 {
        Some((v - 55) as nat)
    } else {
        None
    }
}

pub open spec fn all_hex_digits(d: Seq<char>) -> bool {
    forall|i: int| 0 <= i < d.len() ==> #[trigger] hex_digit_value(d[i]) is Some
}

/// The number that a run of hex digits spells, most significant first.
pub open spec fn hex_number(d: Seq<char>) -> nat
    decreases d.len(),
{
    if d.len() == 0 {
        0
    } else {
        let last = match hex_digit_value(d.last()) {
            Some(v) => v,
            None => 0,
        };
        hex_number(d.drop_last()) * 16 + last
    }
}

pub open spec fn has_hex_prefix(s: Seq<char>) -> bool {
    s.len() >= 2 && s[0] == '0' && s[1] == 'x'
}

/// A hex literal is `0x` followed by one to six hex digits, so that it
/// always fits in 24 bits.
pub open spec fn hex_literal_value(s: Seq<char>) -> Option<nat> {
    if has_hex_prefix(s) && 3 <= s.len() <= 8 && all_hex_digits(s.skip(2)) {
        Some(hex_number(s.skip(2)))
    } else {
        None
    }
}

/// The escape sequence for a colour specification that has already been
/// folded to lower case, or `None` when there is none.
pub open spec fn format_code_of(colour: Seq<char>, bold: bool) -> Option<Seq<u8>> {
    let prefix = if bold {
        bold_code()
    } else {
        seq![]
    };
    match named_colour_code(colour) {
        Some(code) => Some(prefix + code),
        None => match hex_literal_value(colour) {
            Some(v) => Some(prefix + true_colour_code(v / 65536, v / 256 % 256, v % 256)),
            None => None,
        },
    }
}

/// `r` is what resolving the (lower-case) `colour` with `bold` yields: the
/// code when there is one, else `InvalidHexLiteral` for a `0x` string and
/// `UnknownColour` for anything else, each carrying `colour`.
pub open spec fn resolves_to(
    colour: Seq<char>,
    bold: bool,
    r: Result<Vec<u8>, HighlightError>,
) -> bool {
    match r {
        Ok(code) => format_code_of(colour, bold) == Some(code@),
        Err(HighlightError::InvalidHexLiteral { literal }) => {
            &&& format_code_of(colour, bold) is None
            &&& has_hex_prefix(colour)
            &&& literal@ == colour
        },
        Err(HighlightError::UnknownColour { colour: c }) => {
            &&& format_code_of(colour, bold) is None
            &&& !has_hex_prefix(colour)
            &&& c@ == colour
        },
        Err(_) => false,
    }
}

pub open spec fn pow16(k: nat) -> nat
    decreases k,
{
    if k == 0 {
        1
    } else {
        16 * pow16((k - 1) as nat)
    }
}

proof fn lemma_pow16_bound(k: nat)
    requires
        k <= 6,
    ensures
        pow16(k) <= 16777216,
        k <= 5 ==> pow16(k) <= 1048576,
{
    reveal_with_fuel(pow16, 7);
}

/// Whether two strings hold the same characters.
pub fn str_eq(a: &str, b: &str) -> (r: bool)
    ensures
        r == (a@ == b@),
{
    let n = a.unicode_len();
    let m = b.unicode_len();
    if n != m {
        return false;
    }
    let mut i: usize = 0;
    while i < n
        invariant
            n == a@.len(),
            m == b@.len(),
            n == m,
            i <= n,
            forall|j: int| 0 <= j < i ==> a@[j] == b@[j],
        decreases n - i,
    {
        if a.get_char(i) != b.get_char(i) {
            return false;
        }
        i = i + 1;
    }
    assert(a@ =~= b@);
    true
}

/// `ESC [ p m`.
fn sgr_single(p: u8) -> (r: Vec<u8>)
    ensures
        r@ == sgr(seq![p]),
{
    let mut v: Vec<u8> = Vec::new();
    v.push(ESC);
    v.push(BRACKET);
    v.push(p);
    v.push(SGR_END);
    assert(v@ =~= sgr(seq![p]));
    v
}

/// The sequence that ends a highlight, `ESC[0m`.
pub fn reset_sequence() -> (r: Vec<u8>)
    ensures
        r@ == reset_code(),
{
    sgr_single(DIGIT_0)
}

/// `ESC [ p q m`.
fn sgr_pair(p: u8, q: u8) -> (r: Vec<u8>)
    ensures
        r@ == sgr(seq![p, q]),
{
    let mut v: Vec<u8> = Vec::new();
    v.push(ESC);
    v.push(BRACKET);
    v.push(p);
    v.push(q);
    v.push(SGR_END);
    assert(v@ =~= sgr(seq![p, q]));
    v
}

/// The escape sequence of a named colour, if `name` is one.
pub fn named_colour(name: &str) -> (r: Option<Vec<u8>>)
    ensures
        match r {
            Some(code) => named_colour_code(name@) == Some(code@),
            None => named_colour_code(name@) is None,
        },
{
    if str_eq(name, "red") {
        Some(sgr_pair((DIGIT_0 + 3), (DIGIT_0 + 1)))
    } else if str_eq(name, "green") {
        Some(sgr_pair((DIGIT_0 + 3), (DIGIT_0 + 2)))
    } else if str_eq(name, "blue") {
        Some(sgr_pair((DIGIT_0 + 3), (DIGIT_0 + 4)))
    } else if str_eq(name, "yellow") {
        Some(sgr_pair((DIGIT_0 + 3), (DIGIT_0 + 3)))
    } else if str_eq(name, "cyan") {
        Some(sgr_pair((DIGIT_0 + 3), (DIGIT_0 + 6)))
    } else if str_eq(name, "magenta") {
        Some(sgr_pair((DIGIT_0 + 3), (DIGIT_0 + 5)))
    } else if str_eq(name, "white") {
        Some(sgr_pair((DIGIT_0 + 3), (DIGIT_0 + 7)))
    } else {
        None
    }
}

/// Appends the decimal digits of `n`.
fn push_decimal(out: &mut Vec<u8>, n: u8)
    ensures
        final(out)@ == old(out)@ + decimal(n as nat),
{
    let ghost start = out@;
    if n >= 100 {
        out.push(DIGIT_0 + n / 100);
    }
    if n >= 10 {
        out.push(DIGIT_0 + n / 10 % 10);
    }
    out.push(DIGIT_0 + n % 10);
    proof {
        let k = n as nat;
        if k >= 100 {
            assert(k / 10 >= 10 && k / 10 < 100);
            assert(k / 10 / 10 == k / 100);
            assert(decimal(k / 10 / 10) == seq![digit(k / 100)]);
            assert(decimal(k / 10) =~= seq![digit(k / 100), digit(k / 10 % 10)]);
        } else if k >= 10 {
            assert(decimal(k / 10) == seq![digit(k / 10)]);
            assert(k / 10 % 10 == k / 10);
        }
        assert(out@ =~= start + decimal(k));
    }
}

/// `ESC[38;2;R;G;Bm` for the given channels.
pub fn true_colour(red: u8, green: u8, blue: u8) -> (r: Vec<u8>)
    ensures
        r@ == true_colour_code(red as nat, green as nat, blue as nat),
{
    let mut v: Vec<u8> = Vec::new();
    v.push(ESC);
    v.push(BRACKET);
    v.push((DIGIT_0 + 3));
    v.push((DIGIT_0 + 8));
    v.push(SEP);
    v.push((DIGIT_0 + 2));
    v.push(SEP);
    push_decimal(&mut v, red);
    v.push(SEP);
    push_decimal(&mut v, green);
    v.push(SEP);
    push_decimal(&mut v, blue);
    v.push(SGR_END);
    assert(v@ =~= true_colour_code(red as nat, green as nat, blue as nat));
    v
}

/// The value of one hex digit, either case.
fn hex_digit(c: char) -> (r: Option<u32>)
    ensures
        match r {
            Some(d) => hex_digit_value(c) == Some(d as nat) && d < 16,
            None => hex_digit_value(c) is None,
        },
{
    let v = c as u32;
    if 48 <= v && v <= 57 {
        Some(v - 48)
    } else if 97 <= v && v <= 102 {
        Some(v - 87)
    } else if 65 <= v && v <= 70 {
        Some(v - 55)
    } else {
        None
    }
}

/// Splits a hex literal `0xRRGGBB` into its red, green and blue bytes.
/// The literal is `0x` followed by one to six hex digits (either case);
/// anything else is an `InvalidHexLiteral` error.
pub fn hex_to_rgb(hex: &str) -> (r: Result<(u8, u8, u8), HighlightError>)
    ensures
        match r {
            Ok((red, green, blue)) => hex_literal_value(hex@) matches Some(v) && red == v / 65536
                && green == v / 256 % 256 && blue == v % 256,
            Err(HighlightError::InvalidHexLiteral { literal }) => hex_literal_value(hex@) is None
                && literal@ == hex@,
            Err(_) => false,
        },
{
    let n = hex.unicode_len();
    if n < 3 || n > 8 || hex.get_char(0) != '0' || hex.get_char(1) != 'x' {
        return Err(HighlightError::InvalidHexLiteral { literal: hex.to_owned() });
    }
    let mut value: u32 = 0;
    let mut i: usize = 2;
    while i < n
        invariant
            3 <= n <= 8,
            n == hex@.len(),
            has_hex_prefix(hex@),
            2 <= i <= n,
            all_hex_digits(hex@.subrange(2, i as int)),
            value as nat == hex_number(hex@.subrange(2, i as int)),
            value < pow16((i - 2) as nat),
        decreases n - i,
    {
        let c = hex.get_char(i);
        match hex_digit(c) {
            None => {
                assert(hex@.skip(2)[i - 2] == hex@[i as int]);
                return Err(HighlightError::InvalidHexLiteral { literal: hex.to_owned() });
            },
            Some(d) => {
                let ghost old_digits = hex@.subrange(2, i as int);
                let ghost digits = hex@.subrange(2, i + 1);
                proof {
                    lemma_pow16_bound((i - 2) as nat);
                    assert(digits.drop_last() =~= old_digits);
                    assert(digits.last() == c);
                    assert((value as nat) * 16 + d < pow16((i - 2) as nat) * 16) by (nonlinear_arith)
                        requires
                            value < pow16((i - 2) as nat),
                            d < 16,
                    ;
                    assert(forall|j: int|
                        0 <= j < digits.len() ==> #[trigger] digits[j] == if j < old_digits.len() {
                            old_digits[j]
                        } else {
                            c
                        });
                }
                value = value * 16 + d;
                i = i + 1;
            },
        }
    }
    proof {
        assert(hex@.subrange(2, n as int) =~= hex@.skip(2));
        lemma_pow16_bound((n - 2) as nat);
    }
    Ok(((value / 65536) as u8, (value / 256 % 256) as u8, (value % 256) as u8))
}

/// What `str::to_lowercase` makes of a string.
pub uninterp spec fn lower_of(s: Seq<char>) -> Seq<char>;

/// Relies on `str::to_lowercase`: Unicode lower case, which depends on the
/// characters alone.
#[verifier::external_body]
fn lowercase(s: &str) -> (r: String)
    ensures
        r@ == lower_of(s@),
{
    s.to_lowercase()
}

/// Resolves a colour specification that is already in lower case: a named
/// colour gives its standard code, `0x` followed by one to six hex digits
/// gives a 24-bit code, and `bold` puts the bold sequence in front of
/// either.
pub fn resolve_lowered(colour: &str, bold: bool) -> (r: Result<Vec<u8>, HighlightError>)
    ensures
        resolves_to(colour@, bold, r),
{
    let mut code: Vec<u8> = if bold {
        sgr_single(DIGIT_0 + 1)
    } else {
        Vec::new()
    };
    match named_colour(colour) {
        Some(mut named) => {
            code.append(&mut named);
            Ok(code)
        },
        None => {
            if colour.unicode_len() >= 2 && colour.get_char(0) == '0' && colour.get_char(1) == 'x' {
                match hex_to_rgb(colour) {
                    Ok((red, green, blue)) => {
                        let mut rgb = true_colour(red, green, blue);
                        code.append(&mut rgb);
                        Ok(code)
                    },
                    Err(e) => Err(e),
                }
            } else {
                Err(HighlightError::UnknownColour { colour: colour.to_owned() })
            }
        },
    }
}

/// Resolves a colour specification and the bold flag into the escape
/// sequence that opens a highlight. Colour names are matched without regard
/// to case: the specification is folded to lower case first.
pub fn get_format_code(colour: &str, bold: bool) -> (r: Result<Vec<u8>, HighlightError>)
    ensures
        resolves_to(lower_of(colour@), bold, r),
{
    let lowered = lowercase(colour);
    resolve_lowered(lowered.as_str(), bold)
}

} // verus!

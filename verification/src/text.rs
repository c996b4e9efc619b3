//! Text forms: numbers and point values as they are typed on a command line,
//! time tags and file names as they are shown.

use vstd::prelude::*;
use crate::asdu::ie::Cp56Time2a;
use crate::points::value_matches;
use crate::wire::{DoublePointWire, PointKind, PointValue};

verus! {

// ---------------------------------------------------------------------------
// Reading numbers
// ---------------------------------------------------------------------------

/// The value of a digit in the radix.
pub open spec fn digit_value(c: char, radix: int) -> Option<int> {
    let v = if '0' <= c <= '9' {
        c as int - '0' as int
    } else if 'a' <= c <= 'f' {
        c as int - 'a' as int + 10
    } else if 'A' <= c <= 'F' {
        c as int - 'A' as int + 10
    } else {
        radix
    };
    if v < radix {
        Some(v)
    } else {
        None
    }
}

/// The number that a string of digits spells.
pub open spec fn number_of(s: Seq<char>, radix: int) -> Option<int>
    decreases s.len(),
{
    if s.len() == 0 {
        Some(0)
    } else {
        match (number_of(s.drop_last(), radix), digit_value(s.last(), radix)) {
            (Some(front), Some(d)) => Some(front * radix + d),
            _ => None,
        }
    }
}

/// The number that at least one digit spells, if it is at most `max`.
pub open spec fn bounded(s: Seq<char>, radix: int, max: int) -> Option<int> {
    match number_of(s, radix) {
        Some(v) => if s.len() > 0 && v <= max {
            Some(v)
        } else {
            None
        },
        None => None,
    }
}

/// An unsigned number, which may have a plus sign in front.
pub open spec fn unsigned(s: Seq<char>, radix: int, max: int) -> Option<int> {
    if s.len() > 0 && s[0] == '+' {
        bounded(s.skip(1), radix, max)
    } else {
        bounded(s, radix, max)
    }
}

/// A decimal 16-bit signed number, which may have a sign in front.
pub open spec fn signed(s: Seq<char>) -> Option<int> {
    if s.len() > 0 && s[0] == '-' {
        match bounded(s.skip(1), 10, 32768) {
            Some(v) => Some(-v),
            None => None,
        }
    } else {
        unsigned(s, 10, 32767)
    }
}

/// What is not a number within the bound does not become one by more digits.
proof fn lemma_longer(s: Seq<char>, n: int, radix: int, max: int)
    requires
        radix >= 1,
        max >= 0,
        0 <= n <= s.len(),
        number_of(s.take(n), radix) matches Some(v) ==> v > max,
    ensures
        number_of(s, radix) matches Some(v) ==> v > max,
    decreases s.len() - n,
{
    if n < s.len() {
        assert(s.take(n + 1).drop_last() =~= s.take(n));
        if let Some(v) = number_of(s.take(n), radix) {
            assert(v * radix >= v) by (nonlinear_arith)
                requires
                    radix >= 1,
                    v >= 0,
            ;
        }
        lemma_longer(s, n + 1, radix, max);
    } else {
        assert(s.take(n) =~= s);
    }
}

fn digit(c: char, radix: u32) -> (r: Option<u32>)
    requires
        radix == 10 || radix == 16,
    ensures
        match r {
            Some(d) => digit_value(c, radix as int) == Some(d as int) && d < radix,
            None => digit_value(c, radix as int) is None,
        },
{
    let v: u32 = if '0' <= c && c <= '9' {
        c as u32 - '0' as u32
    } else if 'a' <= c && c <= 'f' {
        c as u32 - 'a' as u32 + 10
    } else if 'A' <= c && c <= 'F' {
        c as u32 - 'A' as u32 + 10
    } else {
        radix
    };
    if v < radix {
        Some(v)
    } else {
        None
    }
}

/// Read the digits from position `from` on.
fn read_digits(s: &str, from: usize, radix: u32, max: u32) -> (r: Option<u32>)
    requires
        from <= s@.len(),
        radix == 10 || radix == 16,
        max <= 65535,
    ensures
        match r {
            Some(v) => bounded(s@.skip(from as int), radix as int, max as int) == Some(v as int)
                && v <= max,
            None => bounded(s@.skip(from as int), radix as int, max as int) is None,
        },
{
    let n: usize = s.unicode_len();
    let ghost digits = s@.skip(from as int);
    if from == n {
        return None;
    }
    let mut v: u32 = 0;
    let mut i: usize = from;
    while i < n
        invariant
            from <= i <= n,
            n == s@.len(),
            digits == s@.skip(from as int),
            radix == 10 || radix == 16,
            v <= max <= 65535,
            number_of(digits.take(i - from), radix as int) == Some(v as int),
        decreases n - i,
    {
        let ghost k = i - from;
        assert(digits.take(k + 1).drop_last() =~= digits.take(k));
        assert(digits[k] == s@[i as int]);
        match digit(s.get_char(i), radix) {
            Some(d) => {
                assert(v * radix <= 65535 * 16) by (nonlinear_arith)
                    requires
                        v <= 65535,
                        radix <= 16,
                ;
                v = v * radix + d;
                if v > max {
                    proof { lemma_longer(digits, k + 1, radix as int, max as int); }
                    return None;
                }
            },
            None => {
                proof { lemma_longer(digits, k + 1, radix as int, max as int); }
                return None;
            },
        }
        i += 1;
    }
    assert(digits.take(n - from) =~= digits);
    Some(v)
}

fn read_unsigned(s: &str, from: usize, radix: u32, max: u32) -> (r: Option<u32>)
    requires
        from <= s@.len(),
        radix == 10 || radix == 16,
        max <= 65535,
    ensures
        match r {
            Some(v) => unsigned(s@.skip(from as int), radix as int, max as int) == Some(v as int)
                && v <= max,
            None => unsigned(s@.skip(from as int), radix as int, max as int) is None,
        },
{
    if from < s.unicode_len() && s.get_char(from) == '+' {
        assert(s@.skip(from as int).skip(1) =~= s@.skip(from + 1));
        read_digits(s, from + 1, radix, max)
    } else {
        read_digits(s, from, radix, max)
    }
}

fn read_i16(s: &str) -> (r: Option<i16>)
    ensures
        match r {
            Some(v) => signed(s@) == Some(v as int),
            None => signed(s@) is None,
        },
{
    assert(s@.skip(0) =~= s@);
    if s.unicode_len() > 0 && s.get_char(0) == '-' {
        match read_digits(s, 1, 10, 32768) {
            Some(v) => Some((-(v as i32)) as i16),
            None => None,
        }
    } else {
        match read_unsigned(s, 0, 10, 32767) {
            Some(v) => Some(v as i16),
            None => None,
        }
    }
}

// ---------------------------------------------------------------------------
// Command-line values
// ---------------------------------------------------------------------------

/// Why a text is refused.
#[derive(Debug, Clone, Copy, PartialEq, Eq, Structural)]
pub enum TextError {
    InvalidHexNof,
    InvalidNof,
    ExpectedBool,
    ExpectedDoublePoint,
    ExpectedFloat,
    ExpectedI16,
    UnknownKind,
}

impl TextError {
    pub fn message(self) -> (s: &'static str)
        ensures
            s@ == (match self {
                TextError::InvalidHexNof => "invalid hex NOF"@,
                TextError::InvalidNof => "invalid NOF"@,
                TextError::ExpectedBool => "expected true/false"@,
                TextError::ExpectedDoublePoint => "expected off/on/intermediate/indeterminate"@,
                TextError::ExpectedFloat => "expected float"@,
                TextError::ExpectedI16 => "expected i16"@,
                TextError::UnknownKind => "unknown kind"@,
            }),
    {
        match self {
            TextError::InvalidHexNof => "invalid hex NOF",
            TextError::InvalidNof => "invalid NOF",
            TextError::ExpectedBool => "expected true/false",
            TextError::ExpectedDoublePoint => "expected off/on/intermediate/indeterminate",
            TextError::ExpectedFloat => "expected float",
            TextError::ExpectedI16 => "expected i16",
            TextError::UnknownKind => "unknown kind",
        }
    }
}

/// Whether a name of file is written in hexadecimal.
pub open spec fn is_hex(s: Seq<char>) -> bool {
    s.len() >= 2 && s[0] == '0' && (s[1] == 'x' || s[1] == 'X')
}

/// The name of file that a text gives: hexadecimal behind `0x`, else decimal.
pub open spec fn nof_of(s: Seq<char>) -> core::result::Result<int, TextError> {
    if is_hex(s) {
        match unsigned(s.skip(2), 16, 65535) {
            Some(v) => Ok(v),
            None => Err(TextError::InvalidHexNof),
        }
    } else {
        match unsigned(s, 10, 65535) {
            Some(v) => Ok(v),
            None => Err(TextError::InvalidNof),
        }
    }
}

/// Parse a name of file (decimal or 0xNNNN hex).
pub fn parse_nof(s: &str) -> (r: core::result::Result<u16, TextError>)
    ensures
        match r {
            Ok(v) => nof_of(s@) == Ok::<int, TextError>(v as int),
            Err(e) => nof_of(s@) == Err::<int, TextError>(e),
        },
{
    assert(s@.skip(0) =~= s@);
    let hex: bool = s.unicode_len() >= 2 && s.get_char(0) == '0' && (s.get_char(1) == 'x'
        || s.get_char(1) == 'X');
    if hex {
        match read_unsigned(s, 2, 16, 65535) {
            Some(v) => Ok(v as u16),
            None => Err(TextError::InvalidHexNof),
        }
    } else {
        match read_unsigned(s, 0, 10, 65535) {
            Some(v) => Ok(v as u16),
            None => Err(TextError::InvalidNof),
        }
    }
}

/// The character in lower case; where `dashes` fold, a dash is an underscore.
/// No other character has one of the letters of this module as its lower case.
pub open spec fn folded_char(c: char, dashes: bool) -> char {
    if 'A' <= c <= 'Z' {
        (c as int + 32) as char
    } else if dashes && c == '-' {
        '_'
    } else {
        c
    }
}

/// The text in lower case, with dashes as underscores where they fold.
pub open spec fn folded(s: Seq<char>, dashes: bool) -> Seq<char> {
    Seq::new(s.len(), |i: int| folded_char(s[i], dashes))
}

fn folds_to(s: &str, dashes: bool, word: &str) -> (b: bool)
    ensures
        b == (folded(s@, dashes) == word@),
{
    let n: usize = s.unicode_len();
    if n != word.unicode_len() {
        return false;
    }
    let mut i: usize = 0;
    while i < n
        invariant
            i <= n,
            n == s@.len(),
            n == word@.len(),
            forall|j: int| 0 <= j < i ==> folded(s@, dashes)[j] == #[trigger] word@[j],
        decreases n - i,
    {
        let c: char = s.get_char(i);
        let code: u32 = if 'A' <= c && c <= 'Z' {
            c as u32 + 32
        } else if dashes && c == '-' {
            '_' as u32
        } else {
            c as u32
        };
        if code != word.get_char(i) as u32 {
            assert(folded(s@, dashes)[i as int] != word@[i as int]);
            return false;
        }
        i += 1;
    }
    assert(folded(s@, dashes) =~= word@);
    true
}

/// The double-point state that a text names.
pub open spec fn double_point_of(s: Seq<char>) -> Option<DoublePointWire> {
    let word = folded(s, false);
    if word == "off"@ || word == "false"@ || word == "0"@ {
        Some(DoublePointWire::Off)
    } else if word == "on"@ || word == "true"@ || word == "1"@ {
        Some(DoublePointWire::On)
    } else if word == "intermediate"@ {
        Some(DoublePointWire::Intermediate)
    } else if word == "indeterminate"@ {
        Some(DoublePointWire::Indeterminate)
    } else {
        None
    }
}

fn read_double_point(s: &str) -> (r: Option<DoublePointWire>)
    ensures
        r == double_point_of(s@),
{
    if folds_to(s, false, "off") || folds_to(s, false, "false") || folds_to(s, false, "0") {
        Some(DoublePointWire::Off)
    } else if folds_to(s, false, "on") || folds_to(s, false, "true") || folds_to(s, false, "1") {
        Some(DoublePointWire::On)
    } else if folds_to(s, false, "intermediate") {
        Some(DoublePointWire::Intermediate)
    } else if folds_to(s, false, "indeterminate") {
        Some(DoublePointWire::Indeterminate)
    } else {
        None
    }
}

/// The kind that a text names: `sp_na` and so on, in any case, with dashes or
/// underscores.
pub open spec fn kind_of(s: Seq<char>) -> Option<PointKind> {
    let word = folded(s, true);
    if word == "sp_na"@ {
        Some(PointKind::SpNa)
    } else if word == "sp_tb"@ {
        Some(PointKind::SpTb)
    } else if word == "dp_na"@ {
        Some(PointKind::DpNa)
    } else if word == "dp_tb"@ {
        Some(PointKind::DpTb)
    } else if word == "me_na"@ {
        Some(PointKind::MeNa)
    } else if word == "me_td"@ {
        Some(PointKind::MeTd)
    } else if word == "me_nb"@ {
        Some(PointKind::MeNb)
    } else if word == "me_te"@ {
        Some(PointKind::MeTe)
    } else if word == "me_nc"@ {
        Some(PointKind::MeNc)
    } else if word == "me_tf"@ {
        Some(PointKind::MeTf)
    } else {
        None
    }
}

fn read_kind(s: &str) -> (r: Option<PointKind>)
    ensures
        r == kind_of(s@),
{
    if folds_to(s, true, "sp_na") {
        Some(PointKind::SpNa)
    } else if folds_to(s, true, "sp_tb") {
        Some(PointKind::SpTb)
    } else if folds_to(s, true, "dp_na") {
        Some(PointKind::DpNa)
    } else if folds_to(s, true, "dp_tb") {
        Some(PointKind::DpTb)
    } else if folds_to(s, true, "me_na") {
        Some(PointKind::MeNa)
    } else if folds_to(s, true, "me_td") {
        Some(PointKind::MeTd)
    } else if folds_to(s, true, "me_nb") {
        Some(PointKind::MeNb)
    } else if folds_to(s, true, "me_te") {
        Some(PointKind::MeTe)
    } else if folds_to(s, true, "me_nc") {
        Some(PointKind::MeNc)
    } else if folds_to(s, true, "me_tf") {
        Some(PointKind::MeTf)
    } else {
        None
    }
}

/// The value that a text gives for a point of the kind. `number` is the
/// binary32 bit pattern of the floating-point number that the text spells, if
/// it spells one.
pub open spec fn value_of_text(kind: Seq<char>, value: Seq<char>, number: Option<u32>) -> core::result::Result<
    PointValue,
    TextError,
> {
    match kind_of(kind) {
        Some(PointKind::SpNa) | Some(PointKind::SpTb) => if value == "true"@ {
            Ok(PointValue::Single(true))
        } else if value == "false"@ {
            Ok(PointValue::Single(false))
        } else {
            Err(TextError::ExpectedBool)
        },
        Some(PointKind::DpNa) | Some(PointKind::DpTb) => match double_point_of(value) {
            Some(d) => Ok(PointValue::Double(d)),
            None => Err(TextError::ExpectedDoublePoint),
        },
        Some(PointKind::MeNa) | Some(PointKind::MeTd) => match number {
            Some(bits) => Ok(PointValue::Normalized(bits)),
            None => Err(TextError::ExpectedFloat),
        },
        Some(PointKind::MeNb) | Some(PointKind::MeTe) => match signed(value) {
            Some(v) => Ok(PointValue::Scaled(v as i16)),
            None => Err(TextError::ExpectedI16),
        },
        Some(PointKind::MeNc) | Some(PointKind::MeTf) => match number {
            Some(bits) => Ok(PointValue::Float(bits)),
            None => Err(TextError::ExpectedFloat),
        },
        None => Err(TextError::UnknownKind),
    }
}

fn is_text(s: &str, word: &str) -> (b: bool)
    ensures
        b == (s@ == word@),
{
    let n: usize = s.unicode_len();
    if n != word.unicode_len() {
        return false;
    }
    let mut i: usize = 0;
    while i < n
        invariant
            i <= n,
            n == s@.len(),
            n == word@.len(),
            forall|j: int| 0 <= j < i ==> s@[j] == #[trigger] word@[j],
        decreases n - i,
    {
        if s.get_char(i) != word.get_char(i) {
            return false;
        }
        i += 1;
    }
    assert(s@ =~= word@);
    true
}

/// Parse the value for a point. `number` is the binary32 bit pattern of the
/// floating-point number that `value` spells, if it spells one.
pub fn parse_point_value(kind: &str, value: &str, number: Option<u32>) -> (r: core::result::Result<
    PointValue,
    TextError,
>)
    ensures
        r == value_of_text(kind@, value@, number),
{
    match read_kind(kind) {
        Some(PointKind::SpNa) | Some(PointKind::SpTb) => if is_text(value, "true") {
            Ok(PointValue::Single(true))
        } else if is_text(value, "false") {
            Ok(PointValue::Single(false))
        } else {
            Err(TextError::ExpectedBool)
        },
        Some(PointKind::DpNa) | Some(PointKind::DpTb) => match read_double_point(value) {
            Some(d) => Ok(PointValue::Double(d)),
            None => Err(TextError::ExpectedDoublePoint),
        },
        Some(PointKind::MeNa) | Some(PointKind::MeTd) => match number {
            Some(bits) => Ok(PointValue::Normalized(bits)),
            None => Err(TextError::ExpectedFloat),
        },
        Some(PointKind::MeNb) | Some(PointKind::MeTe) => match read_i16(value) {
            Some(v) => Ok(PointValue::Scaled(v)),
            None => Err(TextError::ExpectedI16),
        },
        Some(PointKind::MeNc) | Some(PointKind::MeTf) => match number {
            Some(bits) => Ok(PointValue::Float(bits)),
            None => Err(TextError::ExpectedFloat),
        },
        None => Err(TextError::UnknownKind),
    }
}

// ---------------------------------------------------------------------------
// Writing numbers
// ---------------------------------------------------------------------------

/// The character for a digit, capital letters above 9.
pub open spec fn digit_char(d: int) -> char {
    if d < 10 {
        ('0' as int + d) as char
    } else {
        ('A' as int + d - 10) as char
    }
}

/// The decimal digits of a number.
pub open spec fn decimal(n: int) -> Seq<char>
    decreases n,
{
    if n < 10 {
        seq![digit_char(n)]
    } else {
        decimal(n / 10).push(digit_char(n % 10))
    }
}

/// The decimal digits of a number, with zeros in front up to the width.
pub open spec fn padded(n: int, width: int) -> Seq<char> {
    let digits = decimal(n);
    if digits.len() < width {
        Seq::new((width - digits.len()) as nat, |i: int| '0') + digits
    } else {
        digits
    }
}

fn digit_text(d: u32) -> (s: &'static str)
    requires
        d < 16,
    ensures
        s@ == seq![digit_char(d as int)],
{
    proof {
        reveal_strlit("0");
        reveal_strlit("1");
        reveal_strlit("2");
        reveal_strlit("3");
        reveal_strlit("4");
        reveal_strlit("5");
        reveal_strlit("6");
        reveal_strlit("7");
        reveal_strlit("8");
        reveal_strlit("9");
        reveal_strlit("A");
        reveal_strlit("B");
        reveal_strlit("C");
        reveal_strlit("D");
        reveal_strlit("E");
        reveal_strlit("F");
    }
    let s: &'static str = match d {
        0 => "0",
        1 => "1",
        2 => "2",
        3 => "3",
        4 => "4",
        5 => "5",
        6 => "6",
        7 => "7",
        8 => "8",
        9 => "9",
        10 => "A",
        11 => "B",
        12 => "C",
        13 => "D",
        14 => "E",
        _ => "F",
    };
    assert(s@ =~= seq![digit_char(d as int)]);
    s
}

fn decimal_text(n: u32) -> (s: String)
    ensures
        s@ == decimal(n as int),
    decreases n,
{
    if n < 10 {
        String::from_str(digit_text(n))
    } else {
        let mut s: String = decimal_text(n / 10);
        s.append(digit_text(n % 10));
        assert(s@ =~= decimal(n as int));
        s
    }
}

fn append_padded(s: &mut String, n: u32, width: usize)
    ensures
        final(s)@ == old(s)@ + padded(n as int, width as int),
{
    proof { reveal_strlit("0"); }
    let digits: String = decimal_text(n);
    let have: usize = digits.as_str().unicode_len();
    if have < width {
        let mut i: usize = 0;
        let lack: usize = width - have;
        assert(s@ =~= old(s)@ + Seq::new(0, |j: int| '0'));
        while i < lack
            invariant
                i <= lack,
                "0"@ == seq!['0'],
                s@ == old(s)@ + Seq::new(i as nat, |j: int| '0'),
            decreases lack - i,
        {
            s.append("0");
            assert(s@ =~= old(s)@ + Seq::new((i + 1) as nat, |j: int| '0'));
            i += 1;
        }
    }
    s.append(digits.as_str());
    assert(s@ =~= old(s)@ + padded(n as int, width as int));
}

/// A time tag in the form `20yy-mm-ddThh:mm:ss.mmmZ`.
pub open spec fn stamp(t: Cp56Time2a) -> Seq<char> {
    "20"@ + padded(t.year as int, 2) + "-"@ + padded(t.month as int, 2) + "-"@ + padded(
        t.day as int,
        2,
    ) + "T"@ + padded(t.hour as int, 2) + ":"@ + padded(t.minute as int, 2) + ":"@ + padded(
        t.milliseconds as int / 1000,
        2,
    ) + "."@ + padded(t.milliseconds as int % 1000, 3) + "Z"@
}

/// Show a time tag in the form `20yy-mm-ddThh:mm:ss.mmmZ`.
pub fn timestamp_text(t: &Cp56Time2a) -> (s: String)
    ensures
        s@ == stamp(*t),
{
    let mut s: String = String::from_str("20");
    append_padded(&mut s, t.year as u32, 2);
    s.append("-");
    append_padded(&mut s, t.month as u32, 2);
    s.append("-");
    append_padded(&mut s, t.day as u32, 2);
    s.append("T");
    append_padded(&mut s, t.hour as u32, 2);
    s.append(":");
    append_padded(&mut s, t.minute as u32, 2);
    s.append(":");
    append_padded(&mut s, t.milliseconds as u32 / 1000, 2);
    s.append(".");
    append_padded(&mut s, t.milliseconds as u32 % 1000, 3);
    s.append("Z");
    s
}

/// The four hexadecimal digits of a name of file.
pub open spec fn hex4(n: int) -> Seq<char> {
    seq![
        digit_char(n / 4096),
        digit_char(n / 256 % 16),
        digit_char(n / 16 % 16),
        digit_char(n % 16),
    ]
}

/// The file name under which a transferred file is stored.
pub fn upload_name(nof: u16) -> (s: String)
    ensures
        s@ == "upload_"@ + hex4(nof as int) + ".bin"@,
{
    let n: u32 = nof as u32;
    let mut s: String = String::from_str("upload_");
    s.append(digit_text(n / 4096));
    s.append(digit_text(n / 256 % 16));
    s.append(digit_text(n / 16 % 16));
    s.append(digit_text(n % 16));
    s.append(".bin");
    assert(s@ =~= "upload_"@ + hex4(nof as int) + ".bin"@);
    s
}

// ---------------------------------------------------------------------------
// Laws
// ---------------------------------------------------------------------------

/// One more hexadecimal digit.
proof fn lemma_hex_digit(s: Seq<char>, v: int, d: int)
    requires
        number_of(s, 16) == Some(v),
        0 <= d < 16,
    ensures
        number_of(s.push(digit_char(d)), 16) == Some(v * 16 + d),
{
    assert(s.push(digit_char(d)).drop_last() =~= s);
    assert(digit_value(digit_char(d), 16) == Some(d));
}

/// Reading the hexadecimal form of a name of file gives the name back.
pub proof fn law_hex_round_trip(nof: u16)
    ensures
        nof_of("0x"@ + hex4(nof as int)) == Ok::<int, TextError>(nof as int),
{
    let n = nof as int;
    let (a, b, c, d) = (n / 4096, n / 256 % 16, n / 16 % 16, n % 16);
    let s0 = Seq::<char>::empty();
    let s1 = s0.push(digit_char(a));
    let s2 = s1.push(digit_char(b));
    let s3 = s2.push(digit_char(c));
    let s4 = s3.push(digit_char(d));
    lemma_hex_digit(s0, 0, a);
    lemma_hex_digit(s1, a, b);
    lemma_hex_digit(s2, a * 16 + b, c);
    lemma_hex_digit(s3, (a * 16 + b) * 16 + c, d);
    assert(((a * 16 + b) * 16 + c) * 16 + d == n);
    assert(hex4(n) =~= s4);
    reveal_strlit("0x");
    let s = "0x"@ + hex4(n);
    assert(s.skip(2) =~= s4);
    assert(s4[0] == digit_char(a) && s4[0] != '+');
}

/// Reading the decimal form of a name of file gives the name back.
pub proof fn law_decimal_round_trip(nof: u16)
    ensures
        nof_of(decimal(nof as int)) == Ok::<int, TextError>(nof as int),
{
    lemma_decimal(nof as int);
}

proof fn lemma_decimal(n: int)
    requires
        n >= 0,
    ensures
        number_of(decimal(n), 10) == Some(n),
        decimal(n).len() > 0,
        forall|i: int| 0 <= i < decimal(n).len() ==> '0' <= #[trigger] decimal(n)[i] <= '9',
    decreases n,
{
    reveal_with_fuel(number_of, 2);
    if n < 10 {
        assert(decimal(n).drop_last() =~= Seq::<char>::empty());
    } else {
        lemma_decimal(n / 10);
        assert(decimal(n).drop_last() =~= decimal(n / 10));
    }
}

/// A value that a text gives for a point has the shape of the point's kind.
pub proof fn law_parsed_value_matches(kind: Seq<char>, value: Seq<char>, number: Option<u32>)
    requires
        value_of_text(kind, value, number) is Ok,
    ensures
        kind_of(kind) is Some,
        value_matches(kind_of(kind)->0, value_of_text(kind, value, number)->Ok_0),
{
}

proof fn lemma_two_digits(n: int)
    requires
        0 <= n < 100,
    ensures
        padded(n, 2).len() == 2,
        padded(n, 2)[0] as int == 48 + n / 10,
        padded(n, 2)[1] as int == 48 + n % 10,
{
    reveal_with_fuel(decimal, 3);
}

proof fn lemma_three_digits(n: int)
    requires
        0 <= n < 1000,
    ensures
        padded(n, 3).len() == 3,
        padded(n, 3)[0] as int == 48 + n / 100,
        padded(n, 3)[1] as int == 48 + (n / 10) % 10,
        padded(n, 3)[2] as int == 48 + n % 10,
{
    reveal_with_fuel(decimal, 4);
}

/// The text of a time tag, character by character: `20yy-mm-ddThh:mm:ss.mmmZ`.
pub proof fn law_stamp(t: Cp56Time2a)
    requires
        t.year < 100,
        t.month < 100,
        t.day < 100,
        t.hour < 100,
        t.minute < 100,
    ensures
        ({
            let s = stamp(t);
            let two = |at: int, n: int| s[at] as int == 48 + n / 10 && s[at + 1] as int == 48 + n % 10;
            let ms = t.milliseconds as int;
            &&& s.len() == 24
            &&& s[0] == '2' && s[1] == '0' && s[4] == '-' && s[7] == '-' && s[10] == 'T'
            &&& s[13] == ':' && s[16] == ':' && s[19] == '.' && s[23] == 'Z'
            &&& two(2, t.year as int)
            &&& two(5, t.month as int)
            &&& two(8, t.day as int)
            &&& two(11, t.hour as int)
            &&& two(14, t.minute as int)
            &&& two(17, ms / 1000)
            &&& s[20] as int == 48 + (ms % 1000) / 100
            &&& s[21] as int == 48 + (ms / 10) % 10
            &&& s[22] as int == 48 + ms % 10
        }),
{
    let date = stamp_date(t);
    let clock = stamp_clock(t);
    let fraction = stamp_fraction(t);
    lemma_stamp_date(t);
    lemma_stamp_clock(t);
    lemma_stamp_fraction(t);
    let (hh, mm) = (padded(t.hour as int, 2), padded(t.minute as int, 2));
    let ss = padded(t.milliseconds as int / 1000, 2);
    let fff = padded(t.milliseconds as int % 1000, 3);
    let c1 = "T"@ + hh;
    let c2 = c1 + ":"@;
    let c3 = c2 + mm;
    let c4 = c3 + ":"@;
    lemma_assoc(date, "T"@, hh);
    lemma_assoc(date, c1, ":"@);
    lemma_assoc(date, c2, mm);
    lemma_assoc(date, c3, ":"@);
    lemma_assoc(date, c4, ss);
    let front = date + clock;
    lemma_assoc(front, "."@, fff);
    lemma_assoc(front, "."@ + fff, "Z"@);
    let s = stamp(t);
    assert(s == front + fraction);
    assert forall|i: int| 0 <= i < 10 implies (#[trigger] s[i]) == date[i] by {}
    assert forall|i: int| 10 <= i < 19 implies (#[trigger] s[i]) == clock[i - 10] by {}
    assert forall|i: int| 19 <= i < 24 implies (#[trigger] s[i]) == fraction[i - 19] by {}
}

proof fn lemma_assoc(a: Seq<char>, b: Seq<char>, c: Seq<char>)
    ensures
        (a + b) + c == a + (b + c),
{
    assert((a + b) + c =~= a + (b + c));
}

spec fn stamp_date(t: Cp56Time2a) -> Seq<char> {
    "20"@ + padded(t.year as int, 2) + "-"@ + padded(t.month as int, 2) + "-"@ + padded(
        t.day as int,
        2,
    )
}

spec fn stamp_clock(t: Cp56Time2a) -> Seq<char> {
    "T"@ + padded(t.hour as int, 2) + ":"@ + padded(t.minute as int, 2) + ":"@ + padded(
        t.milliseconds as int / 1000,
        2,
    )
}

spec fn stamp_fraction(t: Cp56Time2a) -> Seq<char> {
    "."@ + padded(t.milliseconds as int % 1000, 3) + "Z"@
}

proof fn lemma_stamp_date(t: Cp56Time2a)
    requires
        t.year < 100,
        t.month < 100,
        t.day < 100,
    ensures
        ({
            let s = stamp_date(t);
            let two = |at: int, n: int| s[at] as int == 48 + n / 10 && s[at + 1] as int == 48 + n % 10;
            &&& s.len() == 10
            &&& s[0] == '2' && s[1] == '0' && s[4] == '-' && s[7] == '-'
            &&& two(2, t.year as int)
            &&& two(5, t.month as int)
            &&& two(8, t.day as int)
        }),
{
    reveal_strlit("20");
    reveal_strlit("-");
    lemma_two_digits(t.year as int);
    lemma_two_digits(t.month as int);
    lemma_two_digits(t.day as int);
}

proof fn lemma_stamp_clock(t: Cp56Time2a)
    requires
        t.hour < 100,
        t.minute < 100,
    ensures
        ({
            let s = stamp_clock(t);
            let two = |at: int, n: int| s[at] as int == 48 + n / 10 && s[at + 1] as int == 48 + n % 10;
            &&& s.len() == 9
            &&& s[0] == 'T' && s[3] == ':' && s[6] == ':'
            &&& two(1, t.hour as int)
            &&& two(4, t.minute as int)
            &&& two(7, t.milliseconds as int / 1000)
        }),
{
    reveal_strlit("T");
    reveal_strlit(":");
    lemma_two_digits(t.hour as int);
    lemma_two_digits(t.minute as int);
    lemma_two_digits(t.milliseconds as int / 1000);
}

proof fn lemma_stamp_fraction(t: Cp56Time2a)
    ensures
        ({
            let s = stamp_fraction(t);
            let ms = t.milliseconds as int;
            &&& s.len() == 5
            &&& s[0] == '.' && s[4] == 'Z'
            &&& s[1] as int == 48 + (ms % 1000) / 100
            &&& s[2] as int == 48 + (ms / 10) % 10
            &&& s[3] as int == 48 + ms % 10
        }),
{
    reveal_strlit(".");
    reveal_strlit("Z");
    lemma_three_digits(t.milliseconds as int % 1000);
    lemma_low_digits(t.milliseconds as int);
}

proof fn lemma_low_digits(ms: int)
    requires
        ms >= 0,
    ensures
        ((ms % 1000) / 10) % 10 == (ms / 10) % 10,
        (ms % 1000) % 10 == ms % 10,
{
    let (q, r) = (ms / 1000, ms % 1000);
    assert(ms / 10 == 100 * q + r / 10);
}

/// The digits of a name of file, from the highest: 0 to 9, then A to F.
pub proof fn law_hex_digits(nof: u16)
    ensures
        ({
            let n = nof as int;
            let h = hex4(n);
            let digit = |c: char, d: int| c as int == (if d < 10 {
                48 + d
            } else {
                55 + d
            });
            &&& h.len() == 4
            &&& digit(h[0], n / 4096)
            &&& digit(h[1], (n / 256) % 16)
            &&& digit(h[2], (n / 16) % 16)
            &&& digit(h[3], n % 16)
        }),
{
}

/// A number grows by a digit at its end, and what holds no digit is no number.
pub proof fn law_number_grows(s: Seq<char>, c: char)
    ensures
        number_of(Seq::empty(), 10) == Some(0int),
        ({
            let d = c as int - 48;
            &&& 48 <= c as int <= 57 ==> number_of(s.push(c), 10) == (match number_of(s, 10) {
                Some(v) => Some(v * 10 + d),
                None => None,
            })
            &&& !(48 <= c as int <= 57) ==> number_of(s.push(c), 10) is None
        }),
        ({
            let d = if c as int <= 57 {
                c as int - 48
            } else if c as int <= 70 {
                c as int - 55
            } else {
                c as int - 87
            };
            let hex = 48 <= c as int <= 57 || 65 <= c as int <= 70 || 97 <= c as int <= 102;
            &&& hex ==> number_of(s.push(c), 16) == (match number_of(s, 16) {
                Some(v) => Some(v * 16 + d),
                None => None,
            })
            &&& !hex ==> number_of(s.push(c), 16) is None
        }),
{
    assert(s.push(c).drop_last() =~= s);
}

/// A name of file: hexadecimal behind `0x` or `0X`, else decimal, from 0 to
/// 65535, with a plus sign in front or without.
pub proof fn law_nof(s: Seq<char>)
    requires
        s.len() >= 3,
        s[0] != '+',
    ensures
        s[0] == '0' && (s[1] == 'x' || s[1] == 'X') && s[2] != '+' ==> nof_of(s) == (match number_of(
            s.skip(2),
            16,
        ) {
            Some(v) => if v <= 65535 {
                Ok::<int, TextError>(v)
            } else {
                Err(TextError::InvalidHexNof)
            },
            None => Err(TextError::InvalidHexNof),
        }),
        !(s[0] == '0' && (s[1] == 'x' || s[1] == 'X')) ==> nof_of(s) == (match number_of(s, 10) {
            Some(v) => if v <= 65535 {
                Ok::<int, TextError>(v)
            } else {
                Err(TextError::InvalidNof)
            },
            None => Err(TextError::InvalidNof),
        }),
{
}

/// A signed number: digits up to 32767, or a minus sign and digits up to 32768.
pub proof fn law_signed(s: Seq<char>)
    requires
        s.len() > 0,
        s[0] != '-',
        s[0] != '+',
    ensures
        signed(s) == (match number_of(s, 10) {
            Some(v) => if v <= 32767 {
                Some(v)
            } else {
                None
            },
            None => None,
        }),
        signed(seq!['-'] + s) == (match number_of(s, 10) {
            Some(v) => if v <= 32768 {
                Some(-v)
            } else {
                None
            },
            None => None,
        }),
{
    assert((seq!['-'] + s).skip(1) =~= s);
}

/// The words for the kinds, in any case and with a dash or an underscore.
pub proof fn law_kind_words(s: Seq<char>)
    ensures
        ({
            let w = folded(s, true);
            &&& w == "sp_na"@ ==> kind_of(s) == Some(PointKind::SpNa)
            &&& w == "sp_tb"@ ==> kind_of(s) == Some(PointKind::SpTb)
            &&& w == "dp_na"@ ==> kind_of(s) == Some(PointKind::DpNa)
            &&& w == "dp_tb"@ ==> kind_of(s) == Some(PointKind::DpTb)
            &&& w == "me_na"@ ==> kind_of(s) == Some(PointKind::MeNa)
            &&& w == "me_td"@ ==> kind_of(s) == Some(PointKind::MeTd)
            &&& w == "me_nb"@ ==> kind_of(s) == Some(PointKind::MeNb)
            &&& w == "me_te"@ ==> kind_of(s) == Some(PointKind::MeTe)
            &&& w == "me_nc"@ ==> kind_of(s) == Some(PointKind::MeNc)
            &&& w == "me_tf"@ ==> kind_of(s) == Some(PointKind::MeTf)
        }),
        forall|i: int| #![trigger s[i]]
            0 <= i < s.len() ==> folded(s, true)[i] as int == (if 65 <= s[i] as int <= 90 {
                s[i] as int + 32
            } else if s[i] == '-' {
                95
            } else {
                s[i] as int
            }),
        folded(s, true).len() == s.len(),
{
    reveal_strlit("sp_na");
    reveal_strlit("sp_tb");
    reveal_strlit("dp_na");
    reveal_strlit("dp_tb");
    reveal_strlit("me_na");
    reveal_strlit("me_td");
    reveal_strlit("me_nb");
    reveal_strlit("me_te");
    reveal_strlit("me_nc");
    reveal_strlit("me_tf");
    assert("sp_na"@[0] == 's' && "sp_na"@[3] == 'n' && "sp_na"@[4] == 'a');
    assert("sp_tb"@[0] == 's' && "sp_tb"@[3] == 't' && "sp_tb"@[4] == 'b');
    assert("dp_na"@[0] == 'd' && "dp_na"@[3] == 'n' && "dp_na"@[4] == 'a');
    assert("dp_tb"@[0] == 'd' && "dp_tb"@[3] == 't' && "dp_tb"@[4] == 'b');
    assert("me_na"@[0] == 'm' && "me_na"@[3] == 'n' && "me_na"@[4] == 'a');
    assert("me_td"@[0] == 'm' && "me_td"@[3] == 't' && "me_td"@[4] == 'd');
    assert("me_nb"@[0] == 'm' && "me_nb"@[3] == 'n' && "me_nb"@[4] == 'b');
    assert("me_te"@[0] == 'm' && "me_te"@[3] == 't' && "me_te"@[4] == 'e');
    assert("me_nc"@[0] == 'm' && "me_nc"@[3] == 'n' && "me_nc"@[4] == 'c');
    assert("me_tf"@[0] == 'm' && "me_tf"@[3] == 't' && "me_tf"@[4] == 'f');
}

/// The words for the states of a double point, in any case.
pub proof fn law_double_point_words(s: Seq<char>)
    ensures
        ({
            let w = folded(s, false);
            &&& w == "off"@ || w == "false"@ || w == "0"@ ==> double_point_of(s) == Some(
                DoublePointWire::Off,
            )
            &&& w == "on"@ || w == "true"@ || w == "1"@ ==> double_point_of(s) == Some(
                DoublePointWire::On,
            )
            &&& w == "intermediate"@ ==> double_point_of(s) == Some(DoublePointWire::Intermediate)
            &&& w == "indeterminate"@ ==> double_point_of(s) == Some(
                DoublePointWire::Indeterminate,
            )
        }),
{
    reveal_strlit("off");
    reveal_strlit("false");
    reveal_strlit("0");
    reveal_strlit("on");
    reveal_strlit("true");
    reveal_strlit("1");
    reveal_strlit("intermediate");
    reveal_strlit("indeterminate");
    assert("0"@[0] == '0' && "1"@[0] == '1');
    assert("off"@.len() == 3 && "false"@.len() == 5 && "0"@.len() == 1 && "on"@.len() == 2);
    assert("true"@.len() == 4 && "1"@.len() == 1 && "intermediate"@.len() == 12);
    assert("indeterminate"@.len() == 13);
}

/// What a text means for a point, by the kind: exactly `true` or `false` for a
/// single point, a word for a double point, a signed number for a scaled value,
/// and the number that was read for the others.
pub proof fn law_value_texts(kind: Seq<char>, value: Seq<char>, number: Option<u32>, k: PointKind)
    requires
        kind_of(kind) == Some(k),
    ensures
        ({
            let r = value_of_text(kind, value, number);
            match k {
                PointKind::SpNa | PointKind::SpTb => {
                    &&& value == "true"@ ==> r == Ok::<PointValue, TextError>(
                        PointValue::Single(true),
                    )
                    &&& value == "false"@ ==> r == Ok::<PointValue, TextError>(
                        PointValue::Single(false),
                    )
                    &&& value != "true"@ && value != "false"@ ==> r == Err::<PointValue, TextError>(
                        TextError::ExpectedBool,
                    )
                },
                PointKind::DpNa | PointKind::DpTb => match double_point_of(value) {
                    Some(d) => r == Ok::<PointValue, TextError>(PointValue::Double(d)),
                    None => r == Err::<PointValue, TextError>(TextError::ExpectedDoublePoint),
                },
                PointKind::MeNb | PointKind::MeTe => match signed(value) {
                    Some(v) => r matches Ok(PointValue::Scaled(s)) && (-32768 <= v <= 32767 ==> s == v),
                    None => r == Err::<PointValue, TextError>(TextError::ExpectedI16),
                },
                PointKind::MeNa | PointKind::MeTd => match number {
                    Some(bits) => r == Ok::<PointValue, TextError>(PointValue::Normalized(bits)),
                    None => r == Err::<PointValue, TextError>(TextError::ExpectedFloat),
                },
                PointKind::MeNc | PointKind::MeTf => match number {
                    Some(bits) => r == Ok::<PointValue, TextError>(PointValue::Float(bits)),
                    None => r == Err::<PointValue, TextError>(TextError::ExpectedFloat),
                },
            }
        }),
{
    reveal_strlit("true");
    reveal_strlit("false");
    assert("true"@.len() == 4 && "false"@.len() == 5);
}

} // verus!

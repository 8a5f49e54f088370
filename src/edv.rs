use vstd::prelude::*;
use crate::utilities::{angle_difference, minimum_angle_difference, Satellite};

verus! {

/// Where a satellite appears from the observer, in millidegrees.
#[derive(Clone, Copy, Debug, PartialEq, Eq)]
pub struct LookAngles {
    pub elevation: i32,
    pub azimuth: i32,
}

/// One catalog entry: a satellite's code and its two element lines.
#[derive(Debug)]
pub struct TwoLineElement {
    pub pseudo_random_noise: u16,
    pub line1: Vec<u8>,
    pub line2: Vec<u8>,
}


/// A byte that `str::trim` removes: ASCII white space.
pub open spec fn is_blank(b: u8) -> bool {
    b == 32u8 || (9u8 <= b <= 13u8)
}

pub open spec fn is_sign(b: u8) -> bool {
    b == 43u8 || b == 45u8
}

/// Start of columns `lo..hi` with leading white space skipped.
pub open spec fn trim_start(s: Seq<u8>, lo: int, hi: int) -> int
    decreases hi - lo,
{
    if lo < hi && is_blank(s[lo]) {
        trim_start(s, lo + 1, hi)
    } else {
        lo
    }
}

/// End of columns `lo..hi` with trailing white space skipped.
pub open spec fn trim_end(s: Seq<u8>, lo: int, hi: int) -> int
    decreases hi - lo,
{
    if lo < hi && is_blank(s[hi - 1]) {
        trim_end(s, lo, hi - 1)
    } else {
        hi
    }
}

/// Bytes `a..b` spell a decimal number: an optional sign, then digits with
/// at most one point, at least one digit.
pub open spec fn decimal_at(s: Seq<u8>, a: int, b: int) -> bool {
    let c = if a < b && is_sign(s[a]) { a + 1 } else { a };
    &&& forall|i: int| c <= i < b ==> is_digit(#[trigger] s[i]) || s[i] == 46u8
    &&& forall|i: int, j: int| c <= i < j < b ==> !(#[trigger] s[i] == 46u8 && #[trigger] s[j] == 46u8)
    &&& exists|i: int| c <= i < b && is_digit(#[trigger] s[i])
}

/// Bytes `a..b` spell an integer: an optional sign, then one or more digits.
pub open spec fn integer_at(s: Seq<u8>, a: int, b: int) -> bool {
    let c = if a < b && is_sign(s[a]) { a + 1 } else { a };
    &&& c < b
    &&& forall|i: int| c <= i < b ==> is_digit(#[trigger] s[i])
}

/// Bytes `a..b` do not spell a negative integer other than zero.
pub open spec fn not_negative_at(s: Seq<u8>, a: int, b: int) -> bool {
    !(a + 1 < b && s[a] == 45u8 && (forall|i: int| a + 1 <= i < b ==> is_digit(#[trigger] s[i]))
        && exists|i: int| a + 1 <= i < b && #[trigger] s[i] != 48u8)
}

/// Bytes `a..b` are digits only (none at all is allowed).
pub open spec fn digits_at(s: Seq<u8>, a: int, b: int) -> bool {
    forall|i: int| a <= i < b ==> is_digit(#[trigger] s[i])
}

/// Columns `lo..hi`, trimmed, spell a decimal number.
pub open spec fn decimal_field(s: Seq<u8>, lo: int, hi: int) -> bool {
    let a = trim_start(s, lo, hi);
    decimal_at(s, a, trim_end(s, a, hi))
}

pub open spec fn integer_field(s: Seq<u8>, lo: int, hi: int) -> bool {
    let a = trim_start(s, lo, hi);
    integer_at(s, a, trim_end(s, a, hi))
}

pub open spec fn not_negative_field(s: Seq<u8>, lo: int, hi: int) -> bool {
    let a = trim_start(s, lo, hi);
    not_negative_at(s, a, trim_end(s, a, hi))
}

pub open spec fn digits_field(s: Seq<u8>, lo: int, hi: int) -> bool {
    let a = trim_start(s, lo, hi);
    digits_at(s, a, trim_end(s, a, hi))
}

pub open spec fn is_ascii_line(s: Seq<u8>) -> bool {
    forall|i: int| 0 <= i < s.len() ==> #[trigger] s[i] < 128u8
}

/// First element line, as the orbit propagator reads it: ASCII, at least 61
/// bytes; catalog number (2..7), epoch day (20..32) and first derivative of
/// the mean motion (33..43) decimal numbers; epoch year (18..20) and the
/// mantissas of the second derivative (44..50) and of the drag term (54..59)
/// not negative; the exponent of the second derivative (50..52) an integer.
pub open spec fn is_first_element_line(s: Seq<u8>) -> bool {
    &&& s.len() >= 61
    &&& is_ascii_line(s)
    &&& decimal_field(s, 2, 7)
    &&& not_negative_field(s, 18, 20)
    &&& decimal_field(s, 20, 32)
    &&& decimal_field(s, 33, 43)
    &&& not_negative_field(s, 44, 50)
    &&& integer_field(s, 50, 52)
    &&& not_negative_field(s, 54, 59)
}

/// Second element line, as the orbit propagator reads it: ASCII, at least 63
/// bytes; inclination (8..16), node (17..25), argument of perigee (34..42),
/// mean anomaly (43..51) and mean motion (52..63) decimal numbers; the
/// eccentricity's decimals (26..33) digits only.
pub open spec fn is_second_element_line(s: Seq<u8>) -> bool {
    &&& s.len() >= 63
    &&& is_ascii_line(s)
    &&& decimal_field(s, 8, 16)
    &&& decimal_field(s, 17, 25)
    &&& digits_field(s, 26, 33)
    &&& decimal_field(s, 34, 42)
    &&& decimal_field(s, 43, 51)
    &&& decimal_field(s, 52, 63)
}


impl TwoLineElement {
    /// An entry, where both element lines can be read.
    pub fn new(pseudo_random_noise: u16, line1: Vec<u8>, line2: Vec<u8>) -> (r: Option<
        TwoLineElement,
    >)
        ensures
            r is Some <==> is_first_element_line(line1@) && is_second_element_line(line2@),
            r matches Some(t) ==> t.pseudo_random_noise == pseudo_random_noise && t.line1@
                == line1@ && t.line2@ == line2@,
    {
        if first_element_line_ok(&line1) && second_element_line_ok(&line2) {
            Some(TwoLineElement { pseudo_random_noise, line1, line2 })
        } else {
            None
        }
    }
}


fn is_blank_exec(b: u8) -> (r: bool)
    ensures
        r == is_blank(b),
{
    b == 32u8 || (9u8 <= b && b <= 13u8)
}

fn trim_start_exec(s: &Vec<u8>, lo: usize, hi: usize) -> (r: usize)
    requires
        lo <= hi <= s@.len(),
    ensures
        r == trim_start(s@, lo as int, hi as int),
        lo <= r <= hi,
{
    let mut i = lo;
    while i < hi && is_blank_exec(s[i])
        invariant
            lo <= i <= hi <= s@.len(),
            trim_start(s@, i as int, hi as int) == trim_start(s@, lo as int, hi as int),
        decreases hi - i,
    {
        i = i + 1;
    }
    i
}

fn trim_end_exec(s: &Vec<u8>, lo: usize, hi: usize) -> (r: usize)
    requires
        lo <= hi <= s@.len(),
    ensures
        r == trim_end(s@, lo as int, hi as int),
        lo <= r <= hi,
{
    let mut j = hi;
    while lo < j && is_blank_exec(s[j - 1])
        invariant
            lo <= j <= hi <= s@.len(),
            trim_end(s@, lo as int, j as int) == trim_end(s@, lo as int, hi as int),
        decreases j - lo,
    {
        j = j - 1;
    }
    j
}

fn decimal_at_exec(s: &Vec<u8>, a: usize, b: usize) -> (r: bool)
    requires
        a <= b <= s@.len(),
    ensures
        r == decimal_at(s@, a as int, b as int),
{
    let c = if a < b && (s[a] == 43u8 || s[a] == 45u8) {
        a + 1
    } else {
        a
    };
    let mut seen_digit = false;
    let mut seen_point = false;
    let mut i = c;
    while i < b
        invariant
            c <= i <= b <= s@.len(),
            c == (if a < b && is_sign(s@[a as int]) { a + 1 } else { a as int }),
            forall|k: int| c <= k < i ==> is_digit(#[trigger] s@[k]) || s@[k] == 46u8,
            forall|k: int, m: int|
                c <= k < m < i ==> !(#[trigger] s@[k] == 46u8 && #[trigger] s@[m] == 46u8),
            seen_point == exists|k: int| c <= k < i && #[trigger] s@[k] == 46u8,
            seen_digit == exists|k: int| c <= k < i && is_digit(#[trigger] s@[k]),
        decreases b - i,
    {
        let x = s[i];
        if x == 46u8 {
            if seen_point {
                return false;
            }
            seen_point = true;
        } else if 48u8 <= x && x <= 57u8 {
            seen_digit = true;
        } else {
            return false;
        }
        i = i + 1;
    }
    seen_digit
}

fn integer_at_exec(s: &Vec<u8>, a: usize, b: usize) -> (r: bool)
    requires
        a <= b <= s@.len(),
    ensures
        r == integer_at(s@, a as int, b as int),
{
    let c = if a < b && (s[a] == 43u8 || s[a] == 45u8) {
        a + 1
    } else {
        a
    };
    if c >= b {
        return false;
    }
    digits_at_exec(s, c, b)
}

fn digits_at_exec(s: &Vec<u8>, a: usize, b: usize) -> (r: bool)
    requires
        a <= b <= s@.len(),
    ensures
        r == digits_at(s@, a as int, b as int),
{
    let mut i = a;
    while i < b
        invariant
            a <= i <= b <= s@.len(),
            forall|k: int| a <= k < i ==> is_digit(#[trigger] s@[k]),
        decreases b - i,
    {
        if !(48u8 <= s[i] && s[i] <= 57u8) {
            return false;
        }
        i = i + 1;
    }
    true
}

fn not_negative_at_exec(s: &Vec<u8>, a: usize, b: usize) -> (r: bool)
    requires
        a <= b <= s@.len(),
    ensures
        r == not_negative_at(s@, a as int, b as int),
{
    if !(a < b && b - a > 1 && s[a] == 45u8) {
        return true;
    }
    if !digits_at_exec(s, a + 1, b) {
        return true;
    }
    let mut i = a + 1;
    while i < b
        invariant
            a + 1 <= i <= b <= s@.len(),
            a + 1 < b,
            s@[a as int] == 45u8,
            forall|k: int| a + 1 <= k < b ==> is_digit(#[trigger] s@[k]),
            forall|k: int| a + 1 <= k < i ==> #[trigger] s@[k] == 48u8,
        decreases b - i,
    {
        if s[i] != 48u8 {
            assert(s@[i as int] != 48u8);
            return false;
        }
        i = i + 1;
    }
    true
}

fn decimal_field_exec(s: &Vec<u8>, lo: usize, hi: usize) -> (r: bool)
    requires
        lo <= hi <= s@.len(),
    ensures
        r == decimal_field(s@, lo as int, hi as int),
{
    let a = trim_start_exec(s, lo, hi);
    let b = trim_end_exec(s, a, hi);
    decimal_at_exec(s, a, b)
}

fn integer_field_exec(s: &Vec<u8>, lo: usize, hi: usize) -> (r: bool)
    requires
        lo <= hi <= s@.len(),
    ensures
        r == integer_field(s@, lo as int, hi as int),
{
    let a = trim_start_exec(s, lo, hi);
    let b = trim_end_exec(s, a, hi);
    integer_at_exec(s, a, b)
}

fn not_negative_field_exec(s: &Vec<u8>, lo: usize, hi: usize) -> (r: bool)
    requires
        lo <= hi <= s@.len(),
    ensures
        r == not_negative_field(s@, lo as int, hi as int),
{
    let a = trim_start_exec(s, lo, hi);
    let b = trim_end_exec(s, a, hi);
    not_negative_at_exec(s, a, b)
}

fn digits_field_exec(s: &Vec<u8>, lo: usize, hi: usize) -> (r: bool)
    requires
        lo <= hi <= s@.len(),
    ensures
        r == digits_field(s@, lo as int, hi as int),
{
    let a = trim_start_exec(s, lo, hi);
    let b = trim_end_exec(s, a, hi);
    digits_at_exec(s, a, b)
}

fn ascii_line_exec(s: &Vec<u8>) -> (r: bool)
    ensures
        r == is_ascii_line(s@),
{
    let mut i: usize = 0;
    while i < s.len()
        invariant
            i <= s@.len(),
            forall|k: int| 0 <= k < i ==> #[trigger] s@[k] < 128u8,
        decreases s@.len() - i,
    {
        if s[i] >= 128u8 {
            return false;
        }
        i = i + 1;
    }
    true
}

fn first_element_line_ok(s: &Vec<u8>) -> (r: bool)
    ensures
        r == is_first_element_line(s@),
{
    s.len() >= 61 && ascii_line_exec(s) && decimal_field_exec(s, 2, 7) && not_negative_field_exec(
        s,
        18,
        20,
    ) && decimal_field_exec(s, 20, 32) && decimal_field_exec(s, 33, 43)
        && not_negative_field_exec(s, 44, 50) && integer_field_exec(s, 50, 52)
        && not_negative_field_exec(s, 54, 59)
}

fn second_element_line_ok(s: &Vec<u8>) -> (r: bool)
    ensures
        r == is_second_element_line(s@),
{
    s.len() >= 63 && ascii_line_exec(s) && decimal_field_exec(s, 8, 16) && decimal_field_exec(
        s,
        17,
        25,
    ) && digits_field_exec(s, 26, 33) && decimal_field_exec(s, 34, 42) && decimal_field_exec(
        s,
        43,
        51,
    ) && decimal_field_exec(s, 52, 63)
}


#[derive(Clone, Copy, Debug, PartialEq, Eq)]
pub enum CatalogError {
    /// The first line of the record that starts at this line is not a
    /// satellite code (decimal digits, at most 65535).
    BadIdentifier(usize),
    /// This line should be an element line of a record and is missing or
    /// cannot be read (see `is_first_element_line`, `is_second_element_line`).
    BadElementLine(usize),
}

/// The pieces of `s` between newline bytes (one more than there are newlines).
pub open spec fn split_lines(s: Seq<u8>) -> Seq<Seq<u8>>
    decreases s.len(),
{
    if s.len() == 0 {
        seq![Seq::<u8>::empty()]
    } else {
        let rest = split_lines(s.drop_last());
        if s.last() == 10u8 {
            rest.push(Seq::<u8>::empty())
        } else {
            rest.update(rest.len() - 1, rest.last().push(s.last()))
        }
    }
}

pub open spec fn is_digit(b: u8) -> bool {
    48u8 <= b <= 57u8
}

/// The number that decimal digits `s` spell.
pub open spec fn decimal_value(s: Seq<u8>) -> int
    decreases s.len(),
{
    if s.len() == 0 {
        0
    } else {
        decimal_value(s.drop_last()) * 10 + (s.last() - 48u8)
    }
}

/// `s` is a satellite code: one or more decimal digits worth at most 65535.
pub open spec fn is_identifier(s: Seq<u8>) -> bool {
    &&& s.len() > 0
    &&& forall|i: int| 0 <= i < s.len() ==> is_digit(#[trigger] s[i])
    &&& decimal_value(s) <= 0xffff
}

/// The lines of a catalog text; a final empty line (the text ends in a
/// newline) is no record.
pub open spec fn catalog_lines(s: Seq<u8>) -> Seq<Seq<u8>> {
    let l = split_lines(s);
    if l.len() > 0 && l.last().len() == 0 {
        l.drop_last()
    } else {
        l
    }
}

/// Line `i` of `lines`, or the empty line past the end.
pub open spec fn line_or_empty(lines: Seq<Seq<u8>>, i: int) -> Seq<u8> {
    if 0 <= i < lines.len() {
        lines[i]
    } else {
        Seq::<u8>::empty()
    }
}

/// Number of three-line records (the last one may be short).
pub open spec fn record_count(lines: Seq<Seq<u8>>) -> int {
    (lines.len() as int + 2) / 3
}

/// Entry `k` of the catalog read from `lines` matches `t`.
pub open spec fn is_record(lines: Seq<Seq<u8>>, k: int, t: TwoLineElement) -> bool {
    &&& t.pseudo_random_noise as int == decimal_value(lines[3 * k])
    &&& t.line1@ == line_or_empty(lines, 3 * k + 1)
    &&& t.line2@ == line_or_empty(lines, 3 * k + 2)
}

/// What is wrong with record `k` of `lines`, checking its lines in order.
pub open spec fn record_error(lines: Seq<Seq<u8>>, k: int) -> Option<CatalogError> {
    if !is_identifier(lines[3 * k]) {
        Some(CatalogError::BadIdentifier((3 * k) as usize))
    } else if !is_first_element_line(line_or_empty(lines, 3 * k + 1)) {
        Some(CatalogError::BadElementLine((3 * k + 1) as usize))
    } else if !is_second_element_line(line_or_empty(lines, 3 * k + 2)) {
        Some(CatalogError::BadElementLine((3 * k + 2) as usize))
    } else {
        None
    }
}

/// The reported satellite is below the mask, or away from where it should be.
pub open spec fn observation_flags(
    s: Satellite,
    expected: LookAngles,
    min_elevation: u8,
    allowed_azimuth_deviation: u32,
    allowed_elevation_deviation: u32,
) -> bool {
    ||| s.elevation < min_elevation
    ||| angle_difference(expected.azimuth as int, s.azimuth * 1000) > allowed_azimuth_deviation
    ||| angle_difference(expected.elevation as int, s.elevation * 1000)
        > allowed_elevation_deviation
}

/// Splits `text` into lines.
fn split_lines_exec(text: &[u8]) -> (r: Vec<Vec<u8>>)
    ensures
        r@.len() == split_lines(text@).len(),
        forall|i: int| 0 <= i < r@.len() ==> (#[trigger] r@[i])@ == split_lines(text@)[i],
{
    let mut lines: Vec<Vec<u8>> = Vec::new();
    let mut current: Vec<u8> = Vec::new();
    let mut i: usize = 0;
    while i < text.len()
        invariant
            i <= text@.len(),
            lines@.len() + 1 == split_lines(text@.take(i as int)).len(),
            forall|k: int|
                0 <= k < lines@.len() ==> (#[trigger] lines@[k])@ == split_lines(
                    text@.take(i as int),
                )[k],
            current@ == split_lines(text@.take(i as int)).last(),
        decreases text@.len() - i,
    {
        assert(text@.take(i as int + 1).drop_last() == text@.take(i as int));
        let b = text[i];
        if b == 10u8 {
            lines.push(current);
            current = Vec::new();
        } else {
            current.push(b);
        }
        i = i + 1;
    }
    assert(text@.take(i as int) == text@);
    lines.push(current);
    lines
}

/// Reads a satellite code, or `None` where the line is not one.
fn parse_identifier(s: &Vec<u8>) -> (r: Option<u16>)
    ensures
        r is Some <==> is_identifier(s@),
        r matches Some(v) ==> v as int == decimal_value(s@),
{
    if s.len() == 0 {
        return None;
    }
    let mut value: u32 = 0;
    let mut i: usize = 0;
    while i < s.len()
        invariant
            i <= s@.len(),
            forall|k: int| 0 <= k < i ==> is_digit(#[trigger] s@[k]),
            value as int == decimal_value(s@.take(i as int)),
            value <= 0xffff,
        decreases s@.len() - i,
    {
        assert(s@.take(i as int + 1).drop_last() == s@.take(i as int));
        let b = s[i];
        if b < 48u8 || b > 57u8 {
            return None;
        }
        let next: u32 = value * 10 + (b - 48u8) as u32;
        if next > 0xffff {
            proof {
                lemma_decimal_value_grows(s@, i as int + 1);
            }
            return None;
        }
        value = next;
        i = i + 1;
    }
    assert(s@.take(i as int) == s@);
    Some(value as u16)
}

/// Adding digits never makes a prefix's value smaller.
proof fn lemma_decimal_value_grows(s: Seq<u8>, k: int)
    requires
        0 <= k <= s.len(),
        forall|i: int| 0 <= i < k ==> is_digit(#[trigger] s[i]),
    ensures
        (forall|i: int| 0 <= i < s.len() ==> is_digit(#[trigger] s[i])) ==> decimal_value(s.take(k))
            <= decimal_value(s),
    decreases s.len() - k,
{
    if (forall|i: int| 0 <= i < s.len() ==> is_digit(#[trigger] s[i])) && k < s.len() {
        lemma_decimal_value_grows(s, k + 1);
        assert(s.take(k + 1).drop_last() == s.take(k));
        lemma_decimal_value_nonneg(s.take(k));
    }
    if k == s.len() {
        assert(s.take(k) == s);
    }
}

proof fn lemma_decimal_value_nonneg(s: Seq<u8>)
    requires
        forall|i: int| 0 <= i < s.len() ==> is_digit(#[trigger] s[i]),
    ensures
        decimal_value(s) >= 0,
    decreases s.len(),
{
    if s.len() > 0 {
        lemma_decimal_value_nonneg(s.drop_last());
    }
}

/// Copies a line.
fn copy_line(line: &Vec<u8>) -> (r: Vec<u8>)
    ensures
        r@ == line@,
{
    let r = line.clone();
    assert(r@ =~= line@);
    r
}

/// Reads a catalog: records of three lines, a satellite code and the two
/// element lines (missing element lines of a short last record read as empty).
pub fn parse_catalog(text: &[u8]) -> (r: Result<Vec<TwoLineElement>, CatalogError>)
    ensures
        ({
            let lines = catalog_lines(text@);
            &&& r is Ok <==> forall|k: int|
                0 <= k < record_count(lines) ==> #[trigger] record_error(lines, k) is None
            &&& r matches Ok(v) ==> {
                &&& v@.len() == record_count(lines)
                &&& forall|k: int| 0 <= k < v@.len() ==> is_record(lines, k, #[trigger] v@[k])
            }
            &&& r matches Err(e) ==> exists|k: int|
                0 <= k < record_count(lines) && #[trigger] record_error(lines, k) == Some(e)
                    && forall|j: int| 0 <= j < k ==> #[trigger] record_error(lines, j) is None
        }),
{
    let mut lines = split_lines_exec(text);
    if lines.len() > 0 && lines[lines.len() - 1].len() == 0 {
        lines.pop();
    }
    let ghost spec_lines = catalog_lines(text@);
    assert(lines@.len() == spec_lines.len());
    let n = lines.len();
    let mut records: Vec<TwoLineElement> = Vec::new();
    let mut idx: usize = 0;
    while idx < n
        invariant
            n == lines@.len(),
            n == spec_lines.len(),
            spec_lines == catalog_lines(text@),
            forall|i: int| 0 <= i < n ==> (#[trigger] lines@[i])@ == spec_lines[i],
            idx % 3 == 0,
            idx <= n + 2,
            records@.len() == idx / 3,
            forall|k: int| 0 <= k < idx / 3 ==> #[trigger] record_error(spec_lines, k) is None,
            forall|k: int| 0 <= k < records@.len() ==> is_record(spec_lines, k, #[trigger] records@[k]),
        decreases n + 2 - idx,
    {
        let ghost k = idx as int / 3;
        assert(3 * k == idx);
        assert(k < record_count(spec_lines));
        let prn = match parse_identifier(&lines[idx]) {
            Some(v) => v,
            None => {
                assert(record_error(spec_lines, k) == Some(CatalogError::BadIdentifier(idx)));
                return Err(CatalogError::BadIdentifier(idx));
            },
        };
        let line1 = if idx + 1 < n {
            copy_line(&lines[idx + 1])
        } else {
            Vec::new()
        };
        let line2 = if idx + 2 < n {
            copy_line(&lines[idx + 2])
        } else {
            Vec::new()
        };
        assert(line1@ =~= line_or_empty(spec_lines, idx + 1));
        assert(line2@ =~= line_or_empty(spec_lines, idx + 2));
        if !first_element_line_ok(&line1) {
            assert(record_error(spec_lines, k) == Some(CatalogError::BadElementLine((idx + 1) as usize)));
            return Err(CatalogError::BadElementLine(idx + 1));
        }
        if !second_element_line_ok(&line2) {
            assert(record_error(spec_lines, k) == Some(CatalogError::BadElementLine((idx + 2) as usize)));
            return Err(CatalogError::BadElementLine(idx + 2));
        }
        let t = TwoLineElement { pseudo_random_noise: prn, line1, line2 };
        assert(is_record(spec_lines, k, t));
        assert(record_error(spec_lines, k) is None);
        records.push(t);
        idx = idx + 3;
    }
    Ok(records)
}

/// Checks reported satellite positions against those its orbital elements
/// predict. Satellites missing from the catalog cannot be checked and are
/// passed over.
pub struct OrbitPositionsMethod {
    pub two_line_elements: Vec<TwoLineElement>,
    /// Elevation mask, whole degrees.
    pub min_elevation: u8,
    /// Millidegrees.
    pub allowed_azimuth_deviation: u32,
    /// Millidegrees.
    pub allowed_elevation_deviation: u32,
}

impl OrbitPositionsMethod {
    /// The catalog has an entry for `prn`.
    pub open spec fn in_catalog(&self, prn: u16) -> bool {
        exists|i: int|
            0 <= i < self.two_line_elements@.len()
                && (#[trigger] self.two_line_elements@[i]).pseudo_random_noise == prn
    }

    /// A satellite in the catalog that is below the elevation mask, or that
    /// has a prediction and disagrees with it.
    pub open spec fn satellite_flagged(&self, s: Satellite, expected: Option<LookAngles>) -> bool {
        &&& self.in_catalog(s.pseudo_random_noise)
        &&& (s.elevation < self.min_elevation || match expected {
            Some(e) => observation_flags(
                s,
                e,
                self.min_elevation,
                self.allowed_azimuth_deviation,
                self.allowed_elevation_deviation,
            ),
            None => false,
        })
    }

    pub fn new(
        min_elevation: u8,
        allowed_azimuth_deviation: u32,
        allowed_elevation_deviation: u32,
    ) -> (r: OrbitPositionsMethod)
        ensures
            r.two_line_elements@.len() == 0,
            r.min_elevation == min_elevation,
            r.allowed_azimuth_deviation == allowed_azimuth_deviation,
            r.allowed_elevation_deviation == allowed_elevation_deviation,
    {
        OrbitPositionsMethod {
            two_line_elements: Vec::new(),
            min_elevation,
            allowed_azimuth_deviation,
            allowed_elevation_deviation,
        }
    }

    /// A method whose catalog is read from `catalog` (see `parse_catalog`).
    pub fn from_catalog(
        min_elevation: u8,
        allowed_azimuth_deviation: u32,
        allowed_elevation_deviation: u32,
        catalog: &[u8],
    ) -> (r: Result<OrbitPositionsMethod, CatalogError>)
        ensures
            ({
                let lines = catalog_lines(catalog@);
                &&& r is Ok <==> forall|k: int|
                    0 <= k < record_count(lines) ==> #[trigger] record_error(lines, k) is None
                &&& r matches Ok(m) ==> {
                    &&& m.min_elevation == min_elevation
                    &&& m.allowed_azimuth_deviation == allowed_azimuth_deviation
                    &&& m.allowed_elevation_deviation == allowed_elevation_deviation
                    &&& m.two_line_elements@.len() == record_count(lines)
                    &&& forall|k: int|
                        0 <= k < record_count(lines) ==> is_record(
                            lines,
                            k,
                            #[trigger] m.two_line_elements@[k],
                        )
                }
                &&& r matches Err(e) ==> exists|k: int|
                    0 <= k < record_count(lines) && #[trigger] record_error(lines, k) == Some(e)
                        && forall|j: int| 0 <= j < k ==> #[trigger] record_error(lines, j) is None
            }),
    {
        match parse_catalog(catalog) {
            Ok(two_line_elements) => Ok(OrbitPositionsMethod {
                two_line_elements,
                min_elevation,
                allowed_azimuth_deviation,
                allowed_elevation_deviation,
            }),
            Err(e) => Err(e),
        }
    }

    /// Reads `catalog` (see `parse_catalog`) and appends its entries.
    /// On a malformed record nothing is added.
    pub fn load_two_line_elements(&mut self, catalog: &[u8]) -> (r: Result<(), CatalogError>)
        ensures
            final(self).min_elevation == old(self).min_elevation,
            final(self).allowed_azimuth_deviation == old(self).allowed_azimuth_deviation,
            final(self).allowed_elevation_deviation == old(self).allowed_elevation_deviation,
            ({
                let lines = catalog_lines(catalog@);
                &&& r is Ok <==> forall|k: int|
                    0 <= k < record_count(lines) ==> #[trigger] record_error(lines, k) is None
                &&& r is Ok ==> {
                    &&& final(self).two_line_elements@.len() == old(self).two_line_elements@.len()
                        + record_count(lines)
                    &&& final(self).two_line_elements@.subrange(
                        0,
                        old(self).two_line_elements@.len() as int,
                    ) == old(self).two_line_elements@
                    &&& forall|k: int|
                        0 <= k < record_count(lines) ==> is_record(
                            lines,
                            k,
                            #[trigger] final(self).two_line_elements@[old(
                                self,
                            ).two_line_elements@.len() + k],
                        )
                }
                &&& r is Err ==> final(self).two_line_elements@ == old(self).two_line_elements@
            }),
    {
        match parse_catalog(catalog) {
            Ok(mut records) => {
                let ghost before = self.two_line_elements@;
                let ghost added = records@;
                self.two_line_elements.append(&mut records);
                assert(self.two_line_elements@.subrange(0, before.len() as int) =~= before);
                assert forall|k: int| 0 <= k < added.len() implies #[trigger] self.two_line_elements@[before.len() + k] == added[k] by {}
                Ok(())
            },
            Err(e) => Err(e),
        }
    }

    /// The first catalog entry for `prn`.
    pub fn get_two_line_element(&self, pseudo_random_noise: u16) -> (r: Option<&TwoLineElement>)
        ensures
            r is None <==> !self.in_catalog(pseudo_random_noise),
            r matches Some(t) ==> exists|i: int|
                0 <= i < self.two_line_elements@.len() && *t == #[trigger] self.two_line_elements@[i]
                    && t.pseudo_random_noise == pseudo_random_noise && forall|k: int|
                    0 <= k < i ==> (#[trigger] self.two_line_elements@[k]).pseudo_random_noise
                        != pseudo_random_noise,
    {
        let mut i: usize = 0;
        while i < self.two_line_elements.len()
            invariant
                i <= self.two_line_elements@.len(),
                forall|k: int|
                    0 <= k < i ==> (#[trigger] self.two_line_elements@[k]).pseudo_random_noise
                        != pseudo_random_noise,
            decreases self.two_line_elements@.len() - i,
        {
            if self.two_line_elements[i].pseudo_random_noise == pseudo_random_noise {
                return Some(&self.two_line_elements[i]);
            }
            i = i + 1;
        }
        None
    }

    /// Whether one reported satellite disagrees with where it should be.
    pub fn observation_is_spoofed(&self, satellite: &Satellite, expected: LookAngles) -> (r: bool)
        ensures
            r == observation_flags(
                *satellite,
                expected,
                self.min_elevation,
                self.allowed_azimuth_deviation,
                self.allowed_elevation_deviation,
            ),
    {
        let azimuth_diff = minimum_angle_difference(
            expected.azimuth,
            satellite.azimuth as i32 * 1000,
        );
        let elevation_diff = minimum_angle_difference(
            expected.elevation,
            satellite.elevation as i32 * 1000,
        );
        satellite.elevation < self.min_elevation || azimuth_diff as u32
            > self.allowed_azimuth_deviation || elevation_diff as u32
            > self.allowed_elevation_deviation
    }

    /// `expected[i]` is where `satellites[i]` should appear, as its catalog
    /// entry predicts for the fix's time and place (`None` where no prediction
    /// could be made). True when some satellite in the catalog with a
    /// prediction is flagged.
    pub fn detect_spoofing_attack(
        &self,
        satellites: &[Satellite],
        expected: &[Option<LookAngles>],
    ) -> (r: bool)
        requires
            satellites@.len() == expected@.len(),
        ensures
            r == exists|i: int|
                0 <= i < satellites@.len() && self.satellite_flagged(
                    #[trigger] satellites@[i],
                    expected@[i],
                ),
    {
        let mut i: usize = 0;
        while i < satellites.len()
            invariant
                satellites@.len() == expected@.len(),
                i <= satellites@.len(),
                forall|k: int|
                    0 <= k < i ==> !self.satellite_flagged(#[trigger] satellites@[k], expected@[k]),
            decreases satellites@.len() - i,
        {
            let satellite = &satellites[i];
            if self.get_two_line_element(satellite.pseudo_random_noise).is_some() {
                if satellite.elevation < self.min_elevation {
                    return true;
                }
                if let Some(e) = expected[i] {
                    if self.observation_is_spoofed(satellite, e) {
                        return true;
                    }
                }
            }
            i = i + 1;
        }
        false
    }
}

} // verus!

//! Version numbers.

use crate::text::chars_of;
use vstd::prelude::*;

verus! {

/// `ash::vk::make_api_version` packs the parts of a version into one number: three bits for the
/// variant, seven for the major, ten for the minor version and twelve for the patch.
pub assume_specification[ ash::vk::make_api_version ](
    variant: u32,
    major: u32,
    minor: u32,
    patch: u32,
) -> (version: u32)
    ensures
        version == (variant << 29u32) | (major << 22u32) | (minor << 12u32) | patch,
;

/// `ash::vk::api_version_major` reads the major part of a version.
pub assume_specification[ ash::vk::api_version_major ](version: u32) -> (major: u32)
    ensures
        major == (version >> 22u32) & 0x7fu32,
;

/// `ash::vk::api_version_minor` reads the minor part of a version.
pub assume_specification[ ash::vk::api_version_minor ](version: u32) -> (minor: u32)
    ensures
        minor == (version >> 12u32) & 0x3ffu32,
;

/// The parts of a version, packed.
pub open spec fn packed(major: u32, minor: u32, patch: u32) -> u32 {
    (0u32 << 29u32) | (major << 22u32) | (minor << 12u32) | patch
}

/// The major part of a version.
pub open spec fn major_of(version: u32) -> u32 {
    (version >> 22u32) & 0x7fu32
}

/// The minor part of a version.
pub open spec fn minor_of(version: u32) -> u32 {
    (version >> 12u32) & 0x3ffu32
}

/// The patch of a version.
pub open spec fn patch_of(version: u32) -> u32 {
    version & 0xfffu32
}

/// The parts of a version can be read again.
pub proof fn packed_parts(major: u32, minor: u32, patch: u32)
    requires
        major < 0x80,
        minor < 0x400,
        patch < 0x1000,
    ensures
        major_of(packed(major, minor, patch)) == major,
        minor_of(packed(major, minor, patch)) == minor,
        patch_of(packed(major, minor, patch)) == patch,
        packed(major, minor, patch) == major * 0x40_0000 + minor * 0x1000 + patch,
{
    let version = packed(major, minor, patch);
    assert(version == major * 0x40_0000 + minor * 0x1000 + patch) by (bit_vector)
        requires
            version == (0u32 << 29u32) | (major << 22u32) | (minor << 12u32) | patch,
            major < 0x80,
            minor < 0x400,
            patch < 0x1000,
    ;
    assert(((version >> 22u32) & 0x7fu32) == major && ((version >> 12u32) & 0x3ffu32) == minor && (
    version & 0xfffu32) == patch) by (bit_vector)
        requires
            version == (0u32 << 29u32) | (major << 22u32) | (minor << 12u32) | patch,
            major < 0x80,
            minor < 0x400,
            patch < 0x1000,
    ;
}

/// A decimal digit.
pub open spec fn is_digit(c: char) -> bool {
    '0' <= c <= '9'
}

/// The number that decimal digits stand for.
pub open spec fn digits_value(digits: Seq<char>) -> nat
    decreases digits.len(),
{
    if digits.len() == 0 {
        0
    } else {
        digits_value(digits.drop_last()) * 10 + (digits.last() as nat - '0' as nat) as nat
    }
}

/// The digits of a number, which may have a plus sign in front.
pub open spec fn digits_of(text: Seq<char>) -> Seq<char> {
    if text.len() > 0 && text[0] == '+' {
        text.skip(1)
    } else {
        text
    }
}

/// The text is a number: there are digits and nothing else, and their value can be stored.
pub open spec fn is_number(text: Seq<char>) -> bool {
    let digits = digits_of(text);
    &&& digits.len() > 0
    &&& forall|i: int| 0 <= i < digits.len() ==> is_digit(#[trigger] digits[i])
    &&& digits_value(digits) <= u32::MAX
}

/// The number of a text.
pub open spec fn number_of(text: Seq<char>) -> Option<u32> {
    if is_number(text) {
        Some(digits_value(digits_of(text)) as u32)
    } else {
        None
    }
}

proof fn digits_value_grows(digits: Seq<char>, m: int, n: int)
    requires
        0 <= m <= n <= digits.len(),
    ensures
        digits_value(digits.take(m)) <= digits_value(digits.take(n)),
    decreases n,
{
    if m < n {
        digits_value_grows(digits, m, n - 1);
        assert(digits.take(n).drop_last() =~= digits.take(n - 1));
    }
}

/// The items `start..end` of a slice.
pub fn subslice<T>(slice: &[T], start: usize, end: usize) -> (part: &[T])
    requires
        start <= end <= slice@.len(),
    ensures
        part@ == slice@.subrange(start as int, end as int),
{
    vstd::slice::slice_subrange(slice, start, end)
}

/// Reads a decimal number; nothing where the text is none or its value is too large.
pub fn parse_num(text: &[char]) -> (number: Option<u32>)
    ensures
        number == number_of(text@),
{
    let digits: &[char] = if text.len() > 0 && text[0] == '+' {
        subslice(text, 1, text.len())
    } else {
        text
    };
    assert(digits@ =~= digits_of(text@));
    if digits.len() == 0 {
        return None;
    }
    let mut value: u32 = 0;
    let mut i: usize = 0;
    while i < digits.len()
        invariant
            i <= digits@.len(),
            digits@ == digits_of(text@),
            value == digits_value(digits@.take(i as int)),
            forall|k: int| 0 <= k < i ==> is_digit(#[trigger] digits@[k]),
        decreases digits@.len() - i,
    {
        let c: char = digits[i];
        if c < '0' || c > '9' {
            assert(!is_digit(digits@[i as int]));
            return None;
        }
        let digit: u32 = c as u32 - '0' as u32;
        proof {
            assert(digits@.take(i + 1).drop_last() =~= digits@.take(i as int));
            digits_value_grows(digits@, i + 1, digits@.len() as int);
            assert(digits@.take(digits@.len() as int) =~= digits@);
        }
        if value > (u32::MAX - digit) / 10 {
            return None;
        }
        value = value * 10 + digit;
        i += 1;
    }
    assert(digits@.take(digits@.len() as int) =~= digits@);
    Some(value)
}

/// The place of the first dot from `from` on, or the end of the text.
pub open spec fn next_dot(text: Seq<char>, from: int) -> int
    decreases text.len() - from,
{
    if from >= text.len() || text[from] == '.' {
        from
    } else {
        next_dot(text, from + 1)
    }
}

/// The version of a text: its first three parts, which dots separate.
pub open spec fn version_of(text: Seq<char>) -> Option<u32> {
    let first = next_dot(text, 0);
    let second = next_dot(text, first + 1);
    let third = next_dot(text, second + 1);
    if first >= text.len() || second >= text.len() {
        None
    } else {
        match (
            number_of(text.subrange(0, first)),
            number_of(text.subrange(first + 1, second)),
            number_of(text.subrange(second + 1, third)),
        ) {
            (Some(major), Some(minor), Some(patch)) => Some(packed(major, minor, patch)),
            _ => None,
        }
    }
}

/// Finds the first dot from `from` on, or the end of the text.
pub fn find_dot(text: &Vec<char>, from: usize) -> (dot: usize)
    requires
        from <= text.len(),
    ensures
        from <= dot <= text.len(),
        dot == next_dot(text@, from as int),
{
    let mut i: usize = from;
    while i < text.len() && text[i] != '.'
        invariant
            from <= i <= text.len(),
            next_dot(text@, from as int) == next_dot(text@, i as int),
        decreases text.len() - i,
    {
        i += 1;
    }
    i
}

/// Reads a version such as `1.2.3`; nothing where one of the three parts is missing or is not a
/// number.
pub fn parse_version(version: &str) -> (number: Option<u32>)
    ensures
        number == version_of(version@),
{
    let text: Vec<char> = chars_of(version);
    let first: usize = find_dot(&text, 0);
    if first >= text.len() {
        return None;
    }
    let second: usize = find_dot(&text, first + 1);
    if second >= text.len() {
        return None;
    }
    let third: usize = find_dot(&text, second + 1);
    let major: Option<u32> = parse_num(subslice(text.as_slice(), 0, first));
    let minor: Option<u32> = parse_num(subslice(text.as_slice(), first + 1, second));
    let patch: Option<u32> = parse_num(subslice(text.as_slice(), second + 1, third));
    match (major, minor, patch) {
        (Some(major), Some(minor), Some(patch)) => Some(
            ash::vk::make_api_version(0, major, minor, patch),
        ),
        _ => None,
    }
}

/// The version of a package, from its three parts.
pub fn pkg_version(major: &str, minor: &str, patch: &str) -> (version: Option<u32>)
    ensures
        version == match (number_of(major@), number_of(minor@), number_of(patch@)) {
            (Some(major), Some(minor), Some(patch)) => Some(packed(major, minor, patch)),
            _ => None,
        },
{
    let major: Option<u32> = parse_num(chars_of(major).as_slice());
    let minor: Option<u32> = parse_num(chars_of(minor).as_slice());
    let patch: Option<u32> = parse_num(chars_of(patch).as_slice());
    match (major, minor, patch) {
        (Some(major), Some(minor), Some(patch)) => Some(
            ash::vk::make_api_version(0, major, minor, patch),
        ),
        _ => None,
    }
}

/// The first dot from a place on: nothing before it is one.
pub proof fn next_dot_is_first(text: Seq<char>, from: int)
    requires
        0 <= from <= text.len(),
    ensures
        from <= next_dot(text, from) <= text.len(),
        next_dot(text, from) < text.len() ==> text[next_dot(text, from)] == '.',
        forall|i: int| from <= i < next_dot(text, from) ==> #[trigger] text[i] != '.',
    decreases text.len() - from,
{
    if from < text.len() && text[from] != '.' {
        next_dot_is_first(text, from + 1);
    }
}

/// A decimal digit stands for its distance from zero, and a digit behind a number multiplies the
/// number by ten and is added to it.
pub proof fn digits_are_decimal(digits: Seq<char>, digit: char)
    requires
        '0' <= digit <= '9',
    ensures
        digits_value(seq![]) == 0,
        digits_value(digits.push(digit)) == 10 * digits_value(digits) + (digit as int - 48),
        0 <= digit as int - 48 <= 9,
{
    assert(digits.push(digit).drop_last() =~= digits);
}

/// Three numbers with dots between them are a version with these parts; with fewer than three
/// there is none.
pub proof fn versions_have_three_parts(major: Seq<char>, minor: Seq<char>, patch: Seq<char>)
    requires
        !major.contains('.'),
        !minor.contains('.'),
        !patch.contains('.'),
    ensures
        ({
            let text = major + seq!['.'] + minor + seq!['.'] + patch;
            match (number_of(major), number_of(minor), number_of(patch)) {
                (Some(a), Some(b), Some(c)) => {
                    &&& version_of(text) == Some(packed(a, b, c))
                    &&& a < 0x80 && b < 0x400 && c < 0x1000 ==> version_of(text) == Some(
                        (a * 0x40_0000 + b * 0x1000 + c) as u32,
                    )
                },
                _ => version_of(text) is None,
            }
        }),
        version_of(major + seq!['.'] + minor) is None,
{
    let text = major + seq!['.'] + minor + seq!['.'] + patch;
    let (m, n) = (major.len() as int, minor.len() as int);
    assert(text.subrange(0, m) =~= major);
    assert(text.subrange(m + 1, m + 1 + n) =~= minor);
    assert(text.subrange(m + n + 2, text.len() as int) =~= patch);
    next_dot_is(text, 0, m, major);
    next_dot_is(text, m + 1, m + 1 + n, minor);
    next_dot_is(text, m + n + 2, text.len() as int, patch);
    match (number_of(major), number_of(minor), number_of(patch)) {
        (Some(a), Some(b), Some(c)) => {
            if a < 0x80 && b < 0x400 && c < 0x1000 {
                packed_parts(a, b, c);
            }
        },
        _ => {},
    }
    let two = major + seq!['.'] + minor;
    assert(two.subrange(0, m) =~= major);
    assert(two.subrange(m + 1, two.len() as int) =~= minor);
    next_dot_is(two, 0, m, major);
    next_dot_is(two, m + 1, two.len() as int, minor);
}

proof fn next_dot_is(text: Seq<char>, from: int, to: int, part: Seq<char>)
    requires
        0 <= from <= to <= text.len(),
        text.subrange(from, to) == part,
        !part.contains('.'),
        to == text.len() || text[to] == '.',
    ensures
        next_dot(text, from) == to,
{
    next_dot_is_first(text, from);
    let dot = next_dot(text, from);
    if dot < to {
        assert(part[dot - from] == '.');
    }
    if to < dot {
        assert(text[to] != '.');
    }
}

} // verus!

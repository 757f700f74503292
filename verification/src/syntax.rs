//! The parts of attribute syntax that the bit-packing macros read, held as
//! plain values: the name a meta item is keyed by, its form, and the integer
//! literals, ranges and paths it carries.
use vstd::prelude::*;
use vstd::string::StrSliceExecFns;

verus! {

/// An end of a range expression, as written.
#[derive(Debug, Clone, Copy, PartialEq, Eq, Structural)]
pub enum RangeEnd {
    /// The range is open on this side.
    Missing,
    /// An integer literal: its value, or `None` where it does not parse as a `u32`.
    Int(Option<u32>),
    /// Any other expression.
    Other,
}

/// The value of a `name = value` meta item, as far as the macros read it.
#[derive(Debug, Clone)]
pub enum MetaValue {
    /// An integer literal: its value, or `None` where it does not parse as a `u32`.
    Int(Option<u32>),
    /// A range `start..end` (`closed` for `start..=end`).
    Range { start: RangeEnd, end: RangeEnd, closed: bool },
    /// A path: the name of its last segment, or `None` where it has no segment.
    Path(Option<String>),
    /// Any other expression.
    Other,
}

/// The form of a meta item.
#[derive(Debug, Clone)]
pub enum MetaKind {
    /// A bare path, `name`.
    Path,
    /// A list, `name(...)`.
    List,
    /// A name-value pair, `name = value`.
    NameValue(MetaValue),
}

/// One meta item of an attribute's argument list.
#[derive(Debug, Clone)]
pub struct Meta {
    /// The item's path when it is a single identifier.
    pub ident: Option<String>,
    pub kind: MetaKind,
}

/// One attribute on a field.
#[derive(Debug, Clone)]
pub struct Attribute {
    /// The attribute's path when it is a single identifier.
    pub ident: Option<String>,
    /// Its arguments read as a comma-separated list of meta items, or `None`
    /// where they do not read as one.
    pub args: Option<Vec<Meta>>,
}

/// The meta item is keyed by the identifier `name`.
pub open spec fn ident_is(ident: Option<String>, name: Seq<char>) -> bool {
    ident matches Some(id) && id@ == name
}

/// The two strings hold the same characters.
pub fn str_eq(a: &str, b: &str) -> (r: bool)
    ensures
        r == (a@ == b@),
{
    let n = a.unicode_len();
    if n != b.unicode_len() {
        return false;
    }
    let mut i: usize = 0;
    while i < n
        invariant
            n == a@.len(),
            n == b@.len(),
            i <= n,
            forall|j: int| 0 <= j < i ==> a@[j] == b@[j],
        decreases n - i,
    {
        if a.get_char(i) != b.get_char(i) {
            return false;
        }
        i = i + 1;
    }
    assert(a@ =~= b@);
    true
}

/// Whether an optional identifier is `name`.
pub fn ident_eq(ident: &Option<String>, name: &str) -> (r: bool)
    ensures
        r == ident_is(*ident, name@),
{
    match ident {
        Some(id) => str_eq(id.as_str(), name),
        None => false,
    }
}

/// An ASCII decimal digit.
pub open spec fn is_digit(c: char) -> bool {
    '0' <= c && c <= '9'
}

/// The number that a string of decimal digits denotes.
pub open spec fn decimal_value(digits: Seq<char>) -> nat
    decreases digits.len(),
{
    if digits.len() == 0 {
        0
    } else {
        decimal_value(digits.drop_last()) * 10 + (digits.last() as nat - '0' as nat) as nat
    }
}

/// Every character is a decimal digit.
pub open spec fn all_digits(digits: Seq<char>) -> bool {
    forall|i: int| 0 <= i < digits.len() ==> is_digit(#[trigger] digits[i])
}

/// The characters after one optional leading `+`.
pub open spec fn without_plus(s: Seq<char>) -> Seq<char> {
    if s.len() > 0 && s[0] == '+' {
        s.drop_first()
    } else {
        s
    }
}

/// What `str::parse::<u32>` gives: an optional leading `+`, then one or more
/// decimal digits denoting a number that fits in a `u32`.
pub open spec fn parse_u32_spec(s: Seq<char>) -> Option<u32> {
    let digits = without_plus(s);
    if digits.len() > 0 && all_digits(digits) && decimal_value(digits) <= u32::MAX {
        Some(decimal_value(digits) as u32)
    } else {
        None
    }
}

/// Reads the characters of `s` from index `from` on as `str::parse::<u32>` does.
pub fn parse_u32(s: &str, from: usize) -> (r: Option<u32>)
    requires
        from <= s@.len(),
    ensures
        r == parse_u32_spec(s@.subrange(from as int, s@.len() as int)),
{
    let ghost rest = s@.subrange(from as int, s@.len() as int);
    let n = s.unicode_len();
    let mut i = from;
    if i < n && s.get_char(i) == '+' {
        i = i + 1;
    }
    let ghost digits = s@.subrange(i as int, n as int);
    assert(digits =~= without_plus(rest));
    if i == n {
        return None;
    }
    let start = i;
    let mut value: u32 = 0;
    let mut overflow = false;
    while i < n
        invariant
            n == s@.len(),
            start < n,
            start <= i <= n,
            digits == s@.subrange(start as int, n as int),
            digits == without_plus(s@.subrange(from as int, s@.len() as int)),
            forall|j: int| start <= j < i ==> is_digit(#[trigger] s@[j]),
            overflow ==> decimal_value(s@.subrange(start as int, i as int)) > u32::MAX,
            !overflow ==> value == decimal_value(s@.subrange(start as int, i as int)),
        decreases n - i,
    {
        let c = s.get_char(i);
        if !('0' <= c && c <= '9') {
            assert(digits[i - start] == c);
            assert(!is_digit(digits[i - start]));
            assert(!all_digits(digits));
            return None;
        }
        let d = (c as u32) - ('0' as u32);
        assert(s@.subrange(start as int, i + 1).drop_last() =~= s@.subrange(start as int, i as int));
        if !overflow {
            match value.checked_mul(10) {
                Some(v10) => match v10.checked_add(d) {
                    Some(v) => {
                        value = v;
                    },
                    None => {
                        overflow = true;
                    },
                },
                None => {
                    overflow = true;
                },
            }
        }
        i = i + 1;
    }
    assert(s@.subrange(start as int, n as int) =~= digits);
    assert forall|j: int| 0 <= j < digits.len() implies is_digit(#[trigger] digits[j]) by {
        assert(digits[j] == s@[start + j]);
    }
    assert(all_digits(digits));
    if overflow {
        None
    } else {
        Some(value)
    }
}

} // verus!

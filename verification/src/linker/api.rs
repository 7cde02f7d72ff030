//! The linker script helpers on text, as the parser's callers use them.
use vstd::prelude::*;

use crate::linker::numbers::{parse_number_exec, parse_size_exec, size_overflows, size_overflows_exec, size_value};
use crate::linker::parser::{
    RegionView, extract_value_chars, extract_value_spec, parse_region_line_chars, region_line,
    region_line_panics, region_view, remove_comments_chars, strip_comments,
};
use crate::models::MemoryRegion;
use crate::text::{chars_of, string_of};

verus! {

/// Parse a number: hexadecimal with a `0x`/`0X` prefix, else decimal
/// (surrounding whitespace ignored).
pub fn parse_number(s: &str) -> (r: Option<u64>)
    ensures
        r == crate::linker::numbers::parse_number(s@),
{
    let c = chars_of(s);
    parse_number_exec(c.as_slice())
}

/// Parse a size: a number with an optional K/M suffix, or `a + b` /
/// `a - b` of sizes (subtraction saturating at 0), optionally in parentheses.
pub fn parse_size(s: &str) -> (r: Option<u64>)
    requires
        !size_overflows(s@),
    ensures
        r matches Some(v) ==> size_value(s@) == Some(v as int),
        r is None ==> size_value(s@) is None,
{
    let c = chars_of(s);
    parse_size_exec(c.as_slice())
}

/// Whether `parse_size(s)` would exceed 64 bits.
pub fn size_would_overflow(s: &str) -> (r: bool)
    ensures
        r == size_overflows(s@),
{
    let c = chars_of(s);
    size_overflows_exec(c.as_slice())
}

/// Remove `/* */` and `//` comments.
pub fn remove_comments(content: &str) -> (r: String)
    ensures
        r@ == strip_comments(content@),
{
    let c = chars_of(content);
    let out = remove_comments_chars(c.as_slice());
    string_of(out.as_slice())
}

/// The value after `keyword =` in a region line (up to `,`, `}` or `;`, trimmed).
pub fn extract_value(line: &str, keyword: &str) -> (r: Option<String>)
    ensures
        r matches Some(v) ==> extract_value_spec(line@, keyword@) == Some(v@),
        r is None ==> extract_value_spec(line@, keyword@) is None,
{
    let l = chars_of(line);
    let k = chars_of(keyword);
    match extract_value_chars(l.as_slice(), k.as_slice()) {
        Some(v) => Some(string_of(v.as_slice())),
        None => None,
    }
}

/// Parse one region definition line, e.g.
/// `FLASH (rx) : ORIGIN = 0x08000000, LENGTH = 512K`.
pub fn parse_region_line(line: &str) -> (r: Option<MemoryRegion>)
    requires
        !region_line_panics(line@),
    ensures
        r matches Some(reg) ==> region_line(line@) == Some(region_view(reg)),
        r is None ==> region_line(line@) is None,
{
    let l = chars_of(line);
    parse_region_line_chars(l.as_slice())
}

} // verus!

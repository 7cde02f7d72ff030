//! GNU LD linker script parser for the `MEMORY` command.
//!
//! Parses region definitions such as
//! `FLASH (rx) : ORIGIN = 0x00027000, LENGTH = 0x90000`, with hexadecimal or
//! decimal numbers, K/M size suffixes, `a + b` / `a - b` sizes, the keyword
//! spellings ORIGIN/org/o and LENGTH/len/l, optional attributes, and C-style
//! (`/* */`) and line (`//`) comments.
use vstd::prelude::*;

use crate::linker::numbers::{
    lemma_size_value_bounds, lemma_trim_len, parse_number, parse_number_exec, parse_size_exec,
    size_overflows, size_value,
};
use crate::models::MemoryRegion;
use crate::text::{
    char_alphanumeric, char_index_at_byte, char_index_of_byte, chars_of, find, find_chars,
    find_chars_from, find_from, is_alphanumeric, is_whitespace, is_ws, lemma_find_from_props,
    matches_at, skip_ws, string_of, sub_chars, trim, trim_chars, trim_start, utf8_len,
    utf8_len_exec,
};

verus! {

/// Errors of linker script parsing.
#[derive(Debug, Clone, Copy, PartialEq, Eq, Structural)]
pub enum LinkerError {
    /// The text holds no `MEMORY` keyword
    NoMemoryBlock,
    /// No `{` follows `MEMORY`
    NoOpeningBrace,
    /// The `{` after `MEMORY` is never closed
    NoClosingBrace,
    /// The block defines no region of non-zero length
    NoValidRegions,
}

pub open spec fn linker_error_message(e: LinkerError) -> Seq<char> {
    match e {
        LinkerError::NoMemoryBlock => "No MEMORY block found in linker script"@,
        LinkerError::NoOpeningBrace => "No opening brace found for MEMORY block"@,
        LinkerError::NoClosingBrace => "No closing brace found for MEMORY block"@,
        LinkerError::NoValidRegions => "No valid memory regions found in MEMORY block"@,
    }
}

impl LinkerError {
    /// The error's message.
    pub fn message(&self) -> (r: &'static str)
        ensures
            r@ == linker_error_message(*self),
    {
        match self {
            LinkerError::NoMemoryBlock => "No MEMORY block found in linker script",
            LinkerError::NoOpeningBrace => "No opening brace found for MEMORY block",
            LinkerError::NoClosingBrace => "No closing brace found for MEMORY block",
            LinkerError::NoValidRegions => "No valid memory regions found in MEMORY block",
        }
    }
}

// ---------------------------------------------------------------------------
// Comments
// ---------------------------------------------------------------------------

/// `s` with `/* ... */` comments replaced by a space (an unterminated one
/// removes the rest of the text) and `// ...` comments removed up to, but not
/// including, the end of the line.
pub open spec fn strip_comments(s: Seq<char>) -> Seq<char>
    decreases s.len(),
{
    if s.len() == 0 {
        Seq::empty()
    } else if s.len() >= 2 && s[0] == '/' && s[1] == '*' {
        match find_from(s, seq!['*', '/'], 2) {
            Some(j) => {
                proof {
                    lemma_find_from_props(s, seq!['*', '/'], 2);
                }
                seq![' '] + strip_comments(s.skip(j + 2))
            },
            None => Seq::empty(),
        }
    } else if s.len() >= 2 && s[0] == '/' && s[1] == '/' {
        match find_from(s, seq!['\n'], 2) {
            Some(k) => {
                proof {
                    lemma_find_from_props(s, seq!['\n'], 2);
                }
                seq!['\n'] + strip_comments(s.skip(k + 1))
            },
            None => Seq::empty(),
        }
    } else {
        seq![s[0]] + strip_comments(s.skip(1))
    }
}

/// Remove C-style comments `/* ... */` and line comments `// ...`.
pub fn remove_comments_chars(content: &[char]) -> (r: Vec<char>)
    ensures
        r@ == strip_comments(content@),
{
    let ghost s = content@;
    let mut out: Vec<char> = Vec::new();
    let mut i: usize = 0;
    assert(s.skip(0) =~= s);
    let star_slash: Vec<char> = vec!['*', '/'];
    let newline: Vec<char> = vec!['\n'];
    assert(star_slash@ =~= seq!['*', '/']);
    assert(newline@ =~= seq!['\n']);
    while i < content.len()
        invariant
            i <= s.len(),
            s == content@,
            star_slash@ == seq!['*', '/'],
            newline@ == seq!['\n'],
            out@ + strip_comments(s.skip(i as int)) == strip_comments(s),
        decreases s.len() - i,
    {
        let ghost t = s.skip(i as int);
        if i + 1 < content.len() && content[i] == '/' && content[i + 1] == '*' {
            let f = find_chars_from(content, star_slash.as_slice(), i + 2);
            proof {
                lemma_find_from_shift(s, seq!['*', '/'], i as int, 2);
                lemma_find_from_props(s, seq!['*', '/'], i + 2);
            }
            match f {
                Some(j) => {
                    out.push(' ');
                    proof {
                        assert(t.skip(j - i + 2) =~= s.skip(j + 2));
                        assert(out@ + strip_comments(s.skip(j + 2)) =~= strip_comments(s));
                    }
                    i = j + 2;
                },
                None => {
                    proof {
                        assert(strip_comments(t) =~= Seq::<char>::empty());
                        assert(out@ =~= strip_comments(s));
                    }
                    return out;
                },
            }
        } else if i + 1 < content.len() && content[i] == '/' && content[i + 1] == '/' {
            let f = find_chars_from(content, newline.as_slice(), i + 2);
            proof {
                lemma_find_from_shift(s, seq!['\n'], i as int, 2);
                lemma_find_from_props(s, seq!['\n'], i + 2);
            }
            match f {
                Some(k) => {
                    out.push('\n');
                    proof {
                        assert(t.skip(k - i + 1) =~= s.skip(k + 1));
                        assert(out@ + strip_comments(s.skip(k + 1)) =~= strip_comments(s));
                    }
                    i = k + 1;
                },
                None => {
                    proof {
                        assert(out@ =~= strip_comments(s));
                    }
                    return out;
                },
            }
        } else {
            out.push(content[i]);
            proof {
                assert(t.skip(1) =~= s.skip(i + 1));
                assert(t[0] == s[i as int]);
                assert(out@ + strip_comments(s.skip(i + 1)) =~= strip_comments(s));
            }
            i = i + 1;
        }
    }
    proof {
        assert(s.skip(i as int) =~= Seq::<char>::empty());
        assert(out@ =~= strip_comments(s));
    }
    out
}

/// Searching a suffix of `s` finds the same occurrences, shifted.
proof fn lemma_find_from_shift(s: Seq<char>, p: Seq<char>, i: int, from: int)
    requires
        0 <= i <= s.len(),
        0 <= from,
    ensures
        find_from(s.skip(i), p, from) == (match find_from(s, p, i + from) {
            Some(k) => Some(k - i),
            None => None::<int>,
        }),
    decreases s.len() - i - from + 1,
{
    let t = s.skip(i);
    if from + p.len() > t.len() {
    } else {
        assert(t.subrange(from, from + p.len()) =~= s.subrange(i + from, i + from + p.len()));
        if matches_at(t, p, from) {
        } else {
            lemma_find_from_shift(s, p, i, from + 1);
        }
    }
}

// ---------------------------------------------------------------------------
// The MEMORY block
// ---------------------------------------------------------------------------

/// Index (in characters) of the `}` that closes the first brace of `t`,
/// scanning from `i` with the given nesting depth.
pub open spec fn closing_brace(t: Seq<char>, i: int, depth: int) -> Option<int>
    decreases t.len() - i,
{
    if i < 0 || i >= t.len() {
        None
    } else if t[i] == '{' {
        closing_brace(t, i + 1, depth + 1)
    } else if t[i] == '}' {
        if depth - 1 == 0 {
            Some(i)
        } else {
            closing_brace(t, i + 1, depth - 1)
        }
    } else {
        closing_brace(t, i + 1, depth)
    }
}

/// Find the position (counted in characters) of the matching closing brace.
pub fn find_matching_brace(t: &[char]) -> (r: Option<usize>)
    ensures
        r matches Some(k) ==> closing_brace(t@, 0, 0) == Some(k as int) && k < t@.len(),
        r is None ==> closing_brace(t@, 0, 0) is None,
{
    let mut depth: i128 = 0;
    let mut i: usize = 0;
    while i < t.len()
        invariant
            i <= t.len(),
            -(i as int) <= depth <= i,
            closing_brace(t@, 0, 0) == closing_brace(t@, i as int, depth as int),
        decreases t.len() - i,
    {
        let c = t[i];
        if c == '{' {
            depth = depth + 1;
        } else if c == '}' {
            depth = depth - 1;
            if depth == 0 {
                return Some(i);
            }
        }
        i = i + 1;
    }
    None
}

/// Where the `MEMORY` block is, as character indices into the text:
/// `(block start, brace position, closing brace position)` relative to the
/// text starting at `MEMORY`; or the error.
pub open spec fn memory_block_parts(c: Seq<char>) -> Result<(int, int, int), LinkerError> {
    match find(c, "MEMORY"@) {
        None => Err(LinkerError::NoMemoryBlock),
        Some(start) => {
            let c2 = c.skip(start);
            match find(c2, seq!['{']) {
                None => Err(LinkerError::NoOpeningBrace),
                Some(bs) => match closing_brace(c2.skip(bs), 0, 0) {
                    None => Err(LinkerError::NoClosingBrace),
                    Some(be) => Ok((start, bs, be)),
                },
            }
        },
    }
}

/// The byte offset (within the text from `MEMORY`) where the block's contents end:
/// the brace's byte offset plus the closing brace's position counted in characters.
pub open spec fn block_end_byte(c: Seq<char>, start: int, bs: int, be: int) -> int {
    utf8_len(c.skip(start).take(bs)) + be
}

/// Whether slicing out the block would panic: its end byte is not a character boundary.
pub open spec fn block_slice_panics(c: Seq<char>) -> bool {
    memory_block_parts(c) matches Ok((start, bs, be)) && char_index_of_byte(
        c.skip(start),
        block_end_byte(c, start, bs, be),
    ) is None
}

/// The contents of the `MEMORY { ... }` block (between the braces).
pub open spec fn memory_block(c: Seq<char>) -> Result<Seq<char>, LinkerError> {
    match memory_block_parts(c) {
        Err(e) => Err(e),
        Ok((start, bs, be)) => {
            let c2 = c.skip(start);
            Ok(c2.subrange(bs + 1, char_index_of_byte(c2, block_end_byte(c, start, bs, be))->0))
        },
    }
}

proof fn lemma_brace_found(t: Seq<char>, i: int, depth: int)
    requires
        0 <= i,
    ensures
        closing_brace(t, i, depth) matches Some(k) ==> i <= k < t.len() && t[k] == '}',
    decreases t.len() - i,
{
    if i < t.len() {
        if t[i] == '{' {
            lemma_brace_found(t, i + 1, depth + 1);
        } else if t[i] == '}' {
            if depth - 1 != 0 {
                lemma_brace_found(t, i + 1, depth - 1);
            }
        } else {
            lemma_brace_found(t, i + 1, depth);
        }
    }
}

/// Extract the contents of the `MEMORY { ... }` block.
pub fn extract_memory_block(c: &[char]) -> (r: Result<Vec<char>, LinkerError>)
    requires
        !block_slice_panics(c@),
    ensures
        match r {
            Ok(v) => memory_block(c@) == Ok::<Seq<char>, LinkerError>(v@),
            Err(e) => memory_block(c@) == Err::<Seq<char>, LinkerError>(e),
        },
{
    let kw = chars_of("MEMORY");
    let start = match find_chars(c, kw.as_slice()) {
        Some(k) => k,
        None => {
            return Err(LinkerError::NoMemoryBlock);
        },
    };
    proof {
        lemma_find_from_props(c@, "MEMORY"@, 0);
    }
    let c2 = sub_chars(c, start, c.len());
    assert(c2@ =~= c@.skip(start as int));
    let brace: Vec<char> = vec!['{'];
    assert(brace@ =~= seq!['{']);
    let bs = match find_chars(c2.as_slice(), brace.as_slice()) {
        Some(k) => k,
        None => {
            return Err(LinkerError::NoOpeningBrace);
        },
    };
    proof {
        lemma_find_from_props(c2@, seq!['{'], 0);
    }
    let tail = sub_chars(c2.as_slice(), bs, c2.len());
    assert(tail@ =~= c2@.skip(bs as int));
    let be = match find_matching_brace(tail.as_slice()) {
        Some(k) => k,
        None => {
            return Err(LinkerError::NoClosingBrace);
        },
    };
    proof {
        lemma_brace_found(tail@, 0, 0);
        assert(matches_at(c2@, seq!['{'], bs as int));
        assert(c2@[bs as int] == '{');
        assert(be >= 1) by {
            if be == 0 {
                assert(tail@[0] == '{');
            }
        }
    }
    let head = sub_chars(c2.as_slice(), 0, bs);
    assert(head@ =~= c2@.take(bs as int));
    let bs_bytes = utf8_len_exec(head.as_slice());
    // The end byte of the block; when it does not fit in usize it is past every boundary.
    let end_byte_wide: u128 = bs_bytes + be as u128;
    proof {
        crate::text::lemma_utf8_len_take_mono(c2@, bs as int, c2@.len() as int);
        assert(c2@.take(c2@.len() as int) =~= c2@);
    }
    let end_char = char_index_at_byte(c2.as_slice(), end_byte_wide);
    let end_char = end_char.unwrap();
    proof {
        if end_char <= bs {
            crate::text::lemma_utf8_len_take_mono(c2@, end_char as int, bs as int);
        }
    }
    Ok(sub_chars(c2.as_slice(), bs + 1, end_char))
}

// ---------------------------------------------------------------------------
// Lines
// ---------------------------------------------------------------------------

/// `str::lines`: pieces split at `\n`, each losing one `\r` before its `\n`;
/// a final `\n` does not start an empty line.
pub open spec fn lines(s: Seq<char>) -> Seq<Seq<char>>
    decreases s.len(),
{
    if s.len() == 0 {
        Seq::empty()
    } else {
        match find(s, seq!['\n']) {
            None => seq![s],
            Some(k) => {
                proof {
                    lemma_find_from_props(s, seq!['\n'], 0);
                }
                let line = s.take(k);
                let line = if line.len() > 0 && line.last() == '\r' {
                    line.drop_last()
                } else {
                    line
                };
                seq![line] + lines(s.skip(k + 1))
            },
        }
    }
}

// ---------------------------------------------------------------------------
// Region lines
// ---------------------------------------------------------------------------

/// Index of the first character that ends a region name (`:`, `(` or whitespace).
pub open spec fn name_end(t: Seq<char>, i: int) -> int
    decreases t.len() - i,
{
    if i < 0 || i >= t.len() {
        t.len() as int
    } else if t[i] == ':' || t[i] == '(' || is_ws(t[i]) {
        i
    } else {
        name_end(t, i + 1)
    }
}

/// The value after `keyword` and `=` in `line`, trimmed and cut at the first
/// `,` (else `}`, else `;`). The keyword must not follow a letter, digit or
/// `_`; that character is looked up at the keyword's byte offset minus one,
/// counted in characters.
pub open spec fn extract_value_spec(line: Seq<char>, kw: Seq<char>) -> Option<Seq<char>> {
    match find(line, kw) {
        None => None,
        Some(kc) => {
            let b = utf8_len(line.take(kc));
            if b > 0 && b - 1 >= line.len() {
                None
            } else if b > 0 && (char_alphanumeric(line[b - 1]) || line[b - 1] == '_') {
                None
            } else {
                let rest = line.skip(kc + kw.len());
                match find(rest, seq!['=']) {
                    None => None,
                    Some(eq) => {
                        let vs = trim_start(rest.skip(eq + 1));
                        let end = match find(vs, seq![',']) {
                            Some(e) => e,
                            None => match find(vs, seq!['}']) {
                                Some(e) => e,
                                None => match find(vs, seq![';']) {
                                    Some(e) => e,
                                    None => vs.len() as int,
                                },
                            },
                        };
                        Some(trim(vs.take(end)))
                    },
                }
            }
        },
    }
}

/// First of the keywords `kws[i..]` whose value parses as a number.
pub open spec fn origin_from(line: Seq<char>, kws: Seq<Seq<char>>, i: int) -> Option<u64>
    decreases kws.len() - i,
{
    if i < 0 || i >= kws.len() {
        None
    } else {
        match extract_value_spec(line, kws[i]) {
            Some(v) => match parse_number(v) {
                Some(n) => Some(n),
                None => origin_from(line, kws, i + 1),
            },
            None => origin_from(line, kws, i + 1),
        }
    }
}

/// First of the keywords `kws[i..]` whose value parses as a size.
pub open spec fn size_from(line: Seq<char>, kws: Seq<Seq<char>>, i: int) -> Option<int>
    decreases kws.len() - i,
{
    if i < 0 || i >= kws.len() {
        None
    } else {
        match extract_value_spec(line, kws[i]) {
            Some(v) => match size_value(v) {
                Some(n) => Some(n),
                None => size_from(line, kws, i + 1),
            },
            None => size_from(line, kws, i + 1),
        }
    }
}

/// Whether evaluating the sizes of `kws[i..]` in order overflows before one succeeds.
pub open spec fn size_from_overflows(line: Seq<char>, kws: Seq<Seq<char>>, i: int) -> bool
    decreases kws.len() - i,
{
    if i < 0 || i >= kws.len() {
        false
    } else {
        match extract_value_spec(line, kws[i]) {
            Some(v) => size_overflows(v) || (size_value(v) is None && size_from_overflows(
                line,
                kws,
                i + 1,
            )),
            None => size_from_overflows(line, kws, i + 1),
        }
    }
}

pub open spec fn origin_keywords() -> Seq<Seq<char>> {
    seq!["ORIGIN"@, "org"@, "o"@]
}

pub open spec fn length_keywords() -> Seq<Seq<char>> {
    seq!["LENGTH"@, "len"@, "l"@]
}

/// A region as plain values: (name, origin, length, attributes).
pub type RegionView = (Seq<char>, u64, u64, Seq<char>);

pub open spec fn region_view(r: MemoryRegion) -> RegionView {
    (r.name@, r.origin, r.length, r.attributes@)
}

/// The attributes between the first `(` and the first `)` of `t`, trimmed
/// (empty when either is missing).
pub open spec fn attributes_of(t: Seq<char>) -> Seq<char> {
    match (find(t, seq!['(']), find(t, seq![')'])) {
        (Some(a), Some(b)) => trim(t.subrange(a + 1, b)),
        _ => Seq::empty(),
    }
}

/// Whether the attribute slice would panic: the first `)` comes before the first `(`.
pub open spec fn attributes_panic(t: Seq<char>) -> bool {
    match (find(t, seq!['(']), find(t, seq![')'])) {
        (Some(a), Some(b)) => b < a + 1,
        _ => false,
    }
}

/// The region defined by one line, if the line defines one.
pub open spec fn region_line(line: Seq<char>) -> Option<RegionView> {
    let t = trim(line);
    let name = trim(t.take(name_end(t, 0)));
    if t.len() == 0 || name.len() == 0 {
        None
    } else {
        match origin_from(t, origin_keywords(), 0) {
            None => None,
            Some(origin) => match size_from(t, length_keywords(), 0) {
                None => None,
                Some(length) => Some((name, origin, length as u64, attributes_of(t))),
            },
        }
    }
}

/// Whether parsing the line panics (misplaced parentheses, or a size that overflows).
pub open spec fn region_line_panics(line: Seq<char>) -> bool {
    let t = trim(line);
    let name = trim(t.take(name_end(t, 0)));
    t.len() > 0 && name.len() > 0 && (attributes_panic(t) || (origin_from(
        t,
        origin_keywords(),
        0,
    ) is Some && size_from_overflows(t, length_keywords(), 0)))
}

/// Regions of non-zero length defined by the lines, in order.
pub open spec fn regions_of_lines(ls: Seq<Seq<char>>) -> Seq<RegionView>
    decreases ls.len(),
{
    if ls.len() == 0 {
        Seq::empty()
    } else {
        let rest = regions_of_lines(ls.drop_last());
        match region_line(ls.last()) {
            Some(r) => if r.2 == 0 {
                rest
            } else {
                rest.push(r)
            },
            None => rest,
        }
    }
}

/// Whether parsing `content` panics.
pub open spec fn linker_content_panics(content: Seq<char>) -> bool {
    let c = strip_comments(content);
    block_slice_panics(c) || match memory_block(c) {
        Ok(b) => some_line_panics(b),
        Err(_) => false,
    }
}

/// Whether parsing some line of the block `b` panics.
pub open spec fn some_line_panics(b: Seq<char>) -> bool {
    exists|i: int| 0 <= i < lines(b).len() && region_line_panics(#[trigger] lines(b)[i])
}

/// The regions of a linker script's `MEMORY` block, or the error.
pub open spec fn memory_regions(content: Seq<char>) -> Result<Seq<RegionView>, LinkerError> {
    match memory_block(strip_comments(content)) {
        Err(e) => Err(e),
        Ok(b) => {
            let rs = regions_of_lines(lines(b));
            if rs.len() == 0 {
                Err(LinkerError::NoValidRegions)
            } else {
                Ok(rs)
            }
        },
    }
}


// ---------------------------------------------------------------------------
// Executable parsing of lines and regions
// ---------------------------------------------------------------------------

pub open spec fn lines_view(v: Seq<Vec<char>>) -> Seq<Seq<char>> {
    v.map_values(|l: Vec<char>| l@)
}

/// `str::lines` on characters.
pub fn split_lines(s: &[char]) -> (r: Vec<Vec<char>>)
    ensures
        lines_view(r@) == lines(s@),
{
    let ghost sv = s@;
    let mut out: Vec<Vec<char>> = Vec::new();
    let mut i: usize = 0;
    let newline: Vec<char> = vec!['\n'];
    assert(newline@ =~= seq!['\n']);
    assert(sv.skip(0) =~= sv);
    while i < s.len()
        invariant
            i <= s.len(),
            sv == s@,
            newline@ == seq!['\n'],
            lines_view(out@) + lines(sv.skip(i as int)) == lines(sv),
        decreases s.len() - i,
    {
        let ghost t = sv.skip(i as int);
        let f = find_chars_from(s, newline.as_slice(), i);
        proof {
            lemma_find_from_shift(sv, seq!['\n'], i as int, 0);
            lemma_find_from_props(sv, seq!['\n'], i as int);
        }
        match f {
            None => {
                let line = sub_chars(s, i, s.len());
                let ghost before = lines_view(out@);
                out.push(line);
                proof {
                    assert(line@ =~= t);
                    assert(lines(t) == seq![t]);
                    assert(lines_view(out@) =~= before + seq![t]);
                    assert(sv.skip(s.len() as int) =~= Seq::<char>::empty());
                    assert(lines_view(out@) + lines(sv.skip(s.len() as int)) =~= lines(sv));
                }
                i = s.len();
            },
            Some(k) => {
                let mut end = k;
                if end > i && s[end - 1] == '\r' {
                    end = end - 1;
                }
                let line = sub_chars(s, i, end);
                let ghost before = lines_view(out@);
                out.push(line);
                proof {
                    let kk = k - i;
                    assert(t.take(kk) =~= sv.subrange(i as int, k as int));
                    assert(t.skip(kk + 1) =~= sv.skip(k + 1));
                    let l0 = t.take(kk);
                    let l1 = if l0.len() > 0 && l0.last() == '\r' {
                        l0.drop_last()
                    } else {
                        l0
                    };
                    assert(line@ =~= l1);
                    assert(lines(t) == seq![l1] + lines(t.skip(kk + 1)));
                    assert(lines_view(out@) =~= before + seq![l1]);
                    assert(lines_view(out@) + lines(sv.skip(k + 1)) =~= lines(sv));
                }
                i = k + 1;
            },
        }
    }
    proof {
        assert(sv.skip(i as int) =~= Seq::<char>::empty());
        assert(lines_view(out@) =~= lines(sv));
    }
    out
}

fn name_end_exec(t: &[char]) -> (r: usize)
    ensures
        r == name_end(t@, 0),
        r <= t.len(),
{
    let mut i: usize = 0;
    while i < t.len()
        invariant
            i <= t.len(),
            name_end(t@, 0) == name_end(t@, i as int),
        decreases t.len() - i,
    {
        let c = t[i];
        if c == ':' || c == '(' || is_whitespace(c) {
            return i;
        }
        i = i + 1;
    }
    i
}

fn find_char_exec(t: &[char], c: char) -> (r: Option<usize>)
    ensures
        r matches Some(k) ==> find(t@, seq![c]) == Some(k as int) && k < t@.len(),
        r is None ==> find(t@, seq![c]) is None,
{
    let p: Vec<char> = vec![c];
    assert(p@ =~= seq![c]);
    let r = find_chars(t, p.as_slice());
    proof {
        lemma_find_from_props(t@, seq![c], 0);
    }
    r
}

/// Extract the value after a keyword and `=` sign.
pub fn extract_value_chars(line: &[char], kw: &[char]) -> (r: Option<Vec<char>>)
    ensures
        r matches Some(v) ==> extract_value_spec(line@, kw@) == Some(v@),
        r is None ==> extract_value_spec(line@, kw@) is None,
{
    let kc = match find_chars(line, kw) {
        Some(k) => k,
        None => {
            return None;
        },
    };
    proof {
        lemma_find_from_props(line@, kw@, 0);
    }
    let pre = sub_chars(line, 0, kc);
    assert(pre@ =~= line@.take(kc as int));
    let b = utf8_len_exec(pre.as_slice());
    if b > 0 {
        if b - 1 >= line.len() as u128 {
            return None;
        }
        let prev = line[(b - 1) as usize];
        if is_alphanumeric(prev) || prev == '_' {
            return None;
        }
    }
    let rest = sub_chars(line, kc + kw.len(), line.len());
    assert(rest@ =~= line@.skip(kc + kw@.len()));
    let eq = match find_char_exec(rest.as_slice(), '=') {
        Some(e) => e,
        None => {
            return None;
        },
    };
    let after = sub_chars(rest.as_slice(), eq + 1, rest.len());
    assert(after@ =~= rest@.skip(eq + 1));
    let vstart = skip_ws(after.as_slice(), 0);
    let vs = sub_chars(after.as_slice(), vstart, after.len());
    proof {
        assert(after@.skip(0) =~= after@);
        assert(vs@ =~= after@.skip(vstart as int));
    }
    let end = match find_char_exec(vs.as_slice(), ',') {
        Some(e) => e,
        None => match find_char_exec(vs.as_slice(), '}') {
            Some(e) => e,
            None => match find_char_exec(vs.as_slice(), ';') {
                Some(e) => e,
                None => vs.len(),
            },
        },
    };
    let v = sub_chars(vs.as_slice(), 0, end);
    assert(v@ =~= vs@.take(end as int));
    Some(trim_chars(v.as_slice()))
}

pub open spec fn keywords_view(k: Seq<Vec<char>>) -> Seq<Seq<char>> {
    k.map_values(|w: Vec<char>| w@)
}

fn origin_keywords_exec() -> (r: Vec<Vec<char>>)
    ensures
        keywords_view(r@) == origin_keywords(),
{
    let r: Vec<Vec<char>> = vec![chars_of("ORIGIN"), chars_of("org"), chars_of("o")];
    assert(keywords_view(r@) =~= origin_keywords());
    r
}

fn length_keywords_exec() -> (r: Vec<Vec<char>>)
    ensures
        keywords_view(r@) == length_keywords(),
{
    let r: Vec<Vec<char>> = vec![chars_of("LENGTH"), chars_of("len"), chars_of("l")];
    assert(keywords_view(r@) =~= length_keywords());
    r
}

/// Extract the address value given after one of the keywords.
fn extract_address_value(line: &[char], kws: &Vec<Vec<char>>) -> (r: Option<u64>)
    ensures
        r == origin_from(line@, keywords_view(kws@), 0),
{
    let ghost k = keywords_view(kws@);
    let mut i: usize = 0;
    while i < kws.len()
        invariant
            i <= kws@.len(),
            k == keywords_view(kws@),
            origin_from(line@, k, 0) == origin_from(line@, k, i as int),
        decreases kws.len() - i,
    {
        assert(k[i as int] == kws@[i as int]@);
        if let Some(v) = extract_value_chars(line, kws[i].as_slice()) {
            if let Some(n) = parse_number_exec(v.as_slice()) {
                return Some(n);
            }
        }
        i = i + 1;
    }
    None
}

/// Extract the size value given after one of the keywords.
fn extract_size_value(line: &[char], kws: &Vec<Vec<char>>) -> (r: Option<u64>)
    requires
        !size_from_overflows(line@, keywords_view(kws@), 0),
    ensures
        r matches Some(n) ==> size_from(line@, keywords_view(kws@), 0) == Some(n as int),
        r is None ==> size_from(line@, keywords_view(kws@), 0) is None,
{
    let ghost k = keywords_view(kws@);
    let mut i: usize = 0;
    while i < kws.len()
        invariant
            i <= kws@.len(),
            k == keywords_view(kws@),
            size_from(line@, k, 0) == size_from(line@, k, i as int),
            !size_from_overflows(line@, k, i as int),
        decreases kws.len() - i,
    {
        assert(k[i as int] == kws@[i as int]@);
        if let Some(v) = extract_value_chars(line, kws[i].as_slice()) {
            if let Some(n) = parse_size_exec(v.as_slice()) {
                return Some(n);
            }
        }
        i = i + 1;
    }
    None
}

/// Parse a single memory region line.
pub fn parse_region_line_chars(line: &[char]) -> (r: Option<MemoryRegion>)
    requires
        !region_line_panics(line@),
    ensures
        r matches Some(reg) ==> region_line(line@) == Some(region_view(reg)),
        r is None ==> region_line(line@) is None,
{
    let t = trim_chars(line);
    if t.len() == 0 {
        return None;
    }
    let ne = name_end_exec(t.as_slice());
    let name_part = sub_chars(t.as_slice(), 0, ne);
    assert(name_part@ =~= t@.take(ne as int));
    let name = trim_chars(name_part.as_slice());
    if name.len() == 0 {
        return None;
    }
    let attributes: Vec<char> = match find_char_exec(t.as_slice(), '(') {
        Some(a) => match find_char_exec(t.as_slice(), ')') {
            Some(b) => {
                let inner = sub_chars(t.as_slice(), a + 1, b);
                trim_chars(inner.as_slice())
            },
            None => Vec::new(),
        },
        None => Vec::new(),
    };
    assert(attributes@ =~= attributes_of(t@));
    let okw = origin_keywords_exec();
    let origin = match extract_address_value(t.as_slice(), &okw) {
        Some(o) => o,
        None => {
            return None;
        },
    };
    let lkw = length_keywords_exec();
    let length = match extract_size_value(t.as_slice(), &lkw) {
        Some(l) => l,
        None => {
            return None;
        },
    };
    Some(
        MemoryRegion {
            name: string_of(name.as_slice()),
            origin,
            length,
            attributes: string_of(attributes.as_slice()),
        },
    )
}

/// Whether the line would make region parsing panic.
fn region_line_would_panic(line: &[char]) -> (r: bool)
    ensures
        r == region_line_panics(line@),
{
    let t = trim_chars(line);
    if t.len() == 0 {
        return false;
    }
    let ne = name_end_exec(t.as_slice());
    let name_part = sub_chars(t.as_slice(), 0, ne);
    assert(name_part@ =~= t@.take(ne as int));
    let name = trim_chars(name_part.as_slice());
    if name.len() == 0 {
        return false;
    }
    if let Some(a) = find_char_exec(t.as_slice(), '(') {
        if let Some(b) = find_char_exec(t.as_slice(), ')') {
            if b < a + 1 {
                return true;
            }
        }
    }
    let okw = origin_keywords_exec();
    if extract_address_value(t.as_slice(), &okw).is_none() {
        return false;
    }
    let lkw = length_keywords_exec();
    size_overflow_from(t.as_slice(), &lkw)
}

fn size_overflow_from(line: &[char], kws: &Vec<Vec<char>>) -> (r: bool)
    ensures
        r == size_from_overflows(line@, keywords_view(kws@), 0),
{
    let ghost k = keywords_view(kws@);
    let mut i: usize = 0;
    while i < kws.len()
        invariant
            i <= kws@.len(),
            k == keywords_view(kws@),
            size_from_overflows(line@, k, 0) == size_from_overflows(line@, k, i as int),
        decreases kws.len() - i,
    {
        assert(k[i as int] == kws@[i as int]@);
        if let Some(v) = extract_value_chars(line, kws[i].as_slice()) {
            if crate::linker::numbers::size_overflows_exec(v.as_slice()) {
                return true;
            }
            if parse_size_exec(v.as_slice()).is_some() {
                return false;
            }
        }
        i = i + 1;
    }
    false
}

pub open spec fn regions_view(v: Seq<MemoryRegion>) -> Seq<RegionView> {
    v.map_values(|r: MemoryRegion| region_view(r))
}

/// Whether parsing `content` would panic in the text slicing or in 64-bit
/// size arithmetic; `parse_memory_regions` accepts exactly the other texts.
pub fn linker_content_would_panic(content: &str) -> (r: bool)
    ensures
        r == linker_content_panics(content@),
{
    let raw = chars_of(content);
    let c = remove_comments_chars(raw.as_slice());
    if block_slice_would_panic(c.as_slice()) {
        return true;
    }
    match extract_memory_block(c.as_slice()) {
        Err(_) => false,
        Ok(b) => {
            let ls = split_lines(b.as_slice());
            let mut i: usize = 0;
            while i < ls.len()
                invariant
                    i <= ls@.len(),
                    lines_view(ls@) == lines(b@),
                    memory_block(c@) == Ok::<Seq<char>, LinkerError>(b@),
                    c@ == strip_comments(content@),
                    !block_slice_panics(c@),
                    forall|j: int| 0 <= j < i ==> !region_line_panics(#[trigger] lines(b@)[j]),
                decreases ls.len() - i,
            {
                assert(lines(b@)[i as int] == ls@[i as int]@);
                if region_line_would_panic(ls[i].as_slice()) {
                    assert(region_line_panics(lines(b@)[i as int]));
                    assert(some_line_panics(b@));
                    return true;
                }
                i = i + 1;
            }
            false
        },
    }
}

fn block_slice_would_panic(c: &[char]) -> (r: bool)
    ensures
        r == block_slice_panics(c@),
{
    let kw = chars_of("MEMORY");
    let start = match find_chars(c, kw.as_slice()) {
        Some(k) => k,
        None => {
            return false;
        },
    };
    proof {
        lemma_find_from_props(c@, "MEMORY"@, 0);
    }
    let c2 = sub_chars(c, start, c.len());
    assert(c2@ =~= c@.skip(start as int));
    let bs = match find_char_exec(c2.as_slice(), '{') {
        Some(k) => k,
        None => {
            return false;
        },
    };
    let tail = sub_chars(c2.as_slice(), bs, c2.len());
    assert(tail@ =~= c2@.skip(bs as int));
    let be = match find_matching_brace(tail.as_slice()) {
        Some(k) => k,
        None => {
            return false;
        },
    };
    let head = sub_chars(c2.as_slice(), 0, bs);
    assert(head@ =~= c2@.take(bs as int));
    let bs_bytes = utf8_len_exec(head.as_slice());
    char_index_at_byte(c2.as_slice(), bs_bytes + be as u128).is_none()
}

/// Parse memory regions from linker script content.
///
/// Removes comments, finds the `MEMORY { ... }` block and parses each of its
/// lines; regions of zero length are skipped. Fails when there is no block, it
/// is not closed, or it defines no region.
pub fn parse_memory_regions(content: &str) -> (r: Result<Vec<MemoryRegion>, LinkerError>)
    requires
        !linker_content_panics(content@),
    ensures
        match r {
            Ok(v) => memory_regions(content@) == Ok::<Seq<RegionView>, LinkerError>(
                regions_view(v@),
            ),
            Err(e) => memory_regions(content@) == Err::<Seq<RegionView>, LinkerError>(e),
        },
{
    let raw = chars_of(content);
    let c = remove_comments_chars(raw.as_slice());
    let block = match extract_memory_block(c.as_slice()) {
        Ok(b) => b,
        Err(e) => {
            return Err(e);
        },
    };
    let ls = split_lines(block.as_slice());
    let mut regions: Vec<MemoryRegion> = Vec::new();
    let ghost lv = lines(block@);
    let mut i: usize = 0;
    while i < ls.len()
        invariant
            i <= ls@.len(),
            lines_view(ls@) == lv,
            lv == lines(block@),
            memory_block(c@) == Ok::<Seq<char>, LinkerError>(block@),
            c@ == strip_comments(content@),
            !linker_content_panics(content@),
            regions_view(regions@) == regions_of_lines(lv.take(i as int)),
        decreases ls.len() - i,
    {
        assert(lv[i as int] == ls@[i as int]@);
        assert(memory_block(strip_comments(content@)) == Ok::<Seq<char>, LinkerError>(block@));
        assert(!region_line_panics(lines(block@)[i as int]));
        let ghost before = regions_view(regions@);
        proof {
            assert(lv.take(i + 1).drop_last() =~= lv.take(i as int));
            assert(lv.take(i + 1).last() == lv[i as int]);
        }
        if let Some(region) = parse_region_line_chars(ls[i].as_slice()) {
            if region.length != 0 {
                regions.push(region);
                assert(regions_view(regions@) =~= before.push(region_view(region)));
            }
        }
        i = i + 1;
    }
    assert(lv.take(ls.len() as int) =~= lv);
    if regions.len() == 0 {
        return Err(LinkerError::NoValidRegions);
    }
    Ok(regions)
}

} // verus!

//! Numbers in linker scripts: hexadecimal and decimal integers, sizes with
//! K/M suffixes and simple `a + b` / `a - b` expressions.
use vstd::prelude::*;

use crate::text::{
    ends_with, ends_with_chars, find, find_chars, lemma_find_from_props, matches_at, starts_with,
    starts_with_chars, sub_chars, trim, trim_chars, trim_end, trim_start,
};

verus! {

// ---------------------------------------------------------------------------
// Integers (what `u64::from_str_radix` and `str::parse::<u64>` accept)
// ---------------------------------------------------------------------------

/// Value of the digit `c` in base `radix`, if it is one.
pub open spec fn digit_value(c: char, radix: nat) -> Option<nat> {
    let v: int = if '0' <= c && c <= '9' {
        c as int - '0' as int
    } else if 'a' <= c && c <= 'z' {
        c as int - 'a' as int + 10
    } else if 'A' <= c && c <= 'Z' {
        c as int - 'A' as int + 10
    } else {
        36
    };
    if v < radix {
        Some(v as nat)
    } else {
        None
    }
}

/// Value of the digit string `d` in base `radix` (unbounded), if every character is a digit.
pub open spec fn digits_value(d: Seq<char>, radix: nat) -> Option<nat>
    decreases d.len(),
{
    if d.len() == 0 {
        Some(0)
    } else {
        match (digits_value(d.drop_last(), radix), digit_value(d.last(), radix)) {
            (Some(v), Some(x)) => Some(v * radix + x),
            _ => None,
        }
    }
}

/// A letter in upper case (other characters stay as they are).
pub open spec fn upper_char(c: char) -> char {
    if 'a' <= c && c <= 'z' {
        ((c as u32) - 32) as char
    } else {
        c
    }
}

/// Hexadecimal digits take their standard values: `0`-`9` are 0 to 9, and
/// `a`-`f` and `A`-`F` are 10 to 15; nothing else is a hexadecimal digit.
pub proof fn law_hex_digit_values(c: char)
    ensures
        '0' <= c && c <= '9' ==> digit_value(c, 16) == Some((c as u32 - 48) as nat),
        'a' <= c && c <= 'f' ==> digit_value(c, 16) == Some((c as u32 - 87) as nat),
        'A' <= c && c <= 'F' ==> digit_value(c, 16) == Some((c as u32 - 55) as nat),
        !('0' <= c && c <= '9') && !('a' <= c && c <= 'f') && !('A' <= c && c <= 'F')
            ==> digit_value(c, 16) is None,
{
}

/// Digit strings read the same in either case: upper-casing the letters of
/// a number leaves its value (in any base) unchanged.
pub proof fn law_digits_case_insensitive(d: Seq<char>, radix: nat)
    ensures
        digits_value(d.map_values(|c: char| upper_char(c)), radix) == digits_value(d, radix),
    decreases d.len(),
{
    let u = d.map_values(|c: char| upper_char(c));
    if d.len() > 0 {
        law_digits_case_insensitive(d.drop_last(), radix);
        assert(u.drop_last() =~= d.drop_last().map_values(|c: char| upper_char(c)));
        let c = d.last();
        assert(u.last() == upper_char(c));
        if 'a' <= c && c <= 'z' {
            let x = ((c as u32) - 32) as char;
            assert((x as u32) == (c as u32) - 32);
            assert('A' <= x && x <= 'Z');
        }
    }
}

/// `u64::from_str_radix(s, radix).ok()`: an optional `+`, then at least one
/// digit, with a value that fits in 64 bits.
pub open spec fn parse_uint(s: Seq<char>, radix: nat) -> Option<u64> {
    if s.len() == 0 {
        None
    } else {
        let d = if s[0] == '+' {
            s.skip(1)
        } else {
            s
        };
        if d.len() == 0 {
            None
        } else {
            match digits_value(d, radix) {
                Some(v) => if v <= u64::MAX {
                    Some(v as u64)
                } else {
                    None
                },
                None => None,
            }
        }
    }
}

fn digit_value_exec(c: char, radix: u32) -> (r: Option<u32>)
    requires
        2 <= radix <= 36,
    ensures
        r matches Some(v) ==> digit_value(c, radix as nat) == Some(v as nat),
        r is None ==> digit_value(c, radix as nat) is None,
{
    let u = c as u32;
    let v: u32 = if '0' <= c && c <= '9' {
        u - ('0' as u32)
    } else if 'a' <= c && c <= 'z' {
        u - ('a' as u32) + 10
    } else if 'A' <= c && c <= 'Z' {
        u - ('A' as u32) + 10
    } else {
        36
    };
    if v < radix {
        Some(v)
    } else {
        None
    }
}

/// `u64::from_str_radix(s, radix).ok()` on characters.
pub fn parse_uint_exec(s: &[char], radix: u32) -> (r: Option<u64>)
    requires
        2 <= radix <= 36,
    ensures
        r == parse_uint(s@, radix as nat),
{
    if s.len() == 0 {
        return None;
    }
    let start: usize = if s[0] == '+' {
        1
    } else {
        0
    };
    let ghost d = if s@[0] == '+' {
        s@.skip(1)
    } else {
        s@
    };
    assert(d =~= s@.skip(start as int));
    if s.len() - start == 0 {
        return None;
    }
    let mut acc: u128 = 0;
    let mut over = false;
    let mut i = start;
    assert(d.take(0) =~= Seq::<char>::empty());
    while i < s.len()
        invariant
            start <= i <= s.len(),
            d == s@.skip(start as int),
            s@.len() > 0,
            d.len() > 0,
            d == (if s@[0] == '+' {
                s@.skip(1)
            } else {
                s@
            }),
            2 <= radix <= 36,
            digits_value(d.take(i - start), radix as nat) is Some,
            !over ==> acc == digits_value(d.take(i - start), radix as nat)->0 && acc <= u64::MAX,
            over ==> digits_value(d.take(i - start), radix as nat)->0 > u64::MAX,
        decreases s.len() - i,
    {
        let dv = digit_value_exec(s[i], radix);
        let ghost pre = d.take(i - start);
        let ghost nxt = d.take(i + 1 - start);
        proof {
            assert(nxt.drop_last() =~= pre);
            assert(nxt.last() == s@[i as int]);
        }
        match dv {
            None => {
                proof {
                    assert(digits_value(nxt, radix as nat) is None);
                    lemma_digits_none_extends(d, radix as nat, i + 1 - start);
                    assert((if s@[0] == '+' {
                        s@.skip(1)
                    } else {
                        s@
                    }) == d);
                    assert(d.len() > 0);
                }
                return None;
            },
            Some(x) => {
                if !over {
                    assert(acc * (radix as u128) + (x as u128) <= 36 * 0xFFFF_FFFF_FFFF_FFFFu128 + 36)
                        by (nonlinear_arith)
                        requires
                            acc <= u64::MAX,
                            radix <= 36,
                            x < 36,
                    ;
                    let next = acc * (radix as u128) + (x as u128);
                    if next > u64::MAX as u128 {
                        over = true;
                    } else {
                        acc = next;
                    }
                } else {
                    proof {
                        let v = digits_value(pre, radix as nat)->0;
                        assert(v * radix + x >= v) by (nonlinear_arith)
                            requires
                                radix >= 2,
                                v >= 0,
                                x >= 0,
                        ;
                    }
                }
            },
        }
        i = i + 1;
    }
    assert(d.take(s.len() - start) =~= d);
    if over {
        None
    } else {
        Some(acc as u64)
    }
}

proof fn lemma_digits_none_extends(d: Seq<char>, radix: nat, k: int)
    requires
        0 <= k <= d.len(),
        digits_value(d.take(k), radix) is None,
    ensures
        digits_value(d, radix) is None,
    decreases d.len() - k,
{
    if k < d.len() {
        assert(d.take(k + 1).drop_last() =~= d.take(k));
        lemma_digits_none_extends(d, radix, k + 1);
    } else {
        assert(d.take(k) =~= d);
    }
}

/// `parse_number`: after trimming, hexadecimal with a `0x`/`0X` prefix or decimal.
pub open spec fn parse_number(s: Seq<char>) -> Option<u64> {
    let t = trim(s);
    if starts_with(t, seq!['0', 'x']) || starts_with(t, seq!['0', 'X']) {
        parse_uint(t.skip(2), 16)
    } else {
        parse_uint(t, 10)
    }
}

/// Parse a number (hex or decimal).
///
/// Supports hexadecimal (`0x1000`, `0X1000`) and decimal (`4096`).
pub fn parse_number_exec(s: &[char]) -> (r: Option<u64>)
    ensures
        r == parse_number(s@),
{
    let t = trim_chars(s);
    let p1: Vec<char> = vec!['0', 'x'];
    let p2: Vec<char> = vec!['0', 'X'];
    if starts_with_chars(t.as_slice(), p1.as_slice()) || starts_with_chars(
        t.as_slice(),
        p2.as_slice(),
    ) {
        let rest = sub_chars(t.as_slice(), 2, t.len());
        assert(rest@ =~= t@.skip(2));
        parse_uint_exec(rest.as_slice(), 16)
    } else {
        parse_uint_exec(t.as_slice(), 10)
    }
}

// ---------------------------------------------------------------------------
// Sizes
// ---------------------------------------------------------------------------

pub proof fn lemma_trim_len(s: Seq<char>)
    ensures
        trim(s).len() <= s.len(),
        trim_start(s).len() <= s.len(),
{
    lemma_trim_start_len(s);
    lemma_trim_end_len(trim_start(s));
}

pub proof fn lemma_trim_start_len(s: Seq<char>)
    ensures
        trim_start(s).len() <= s.len(),
    decreases s.len(),
{
    if s.len() > 0 {
        lemma_trim_start_len(s.drop_first());
    }
}

pub proof fn lemma_trim_end_len(s: Seq<char>)
    ensures
        trim_end(s).len() <= s.len(),
    decreases s.len(),
{
    if s.len() > 0 {
        lemma_trim_end_len(s.drop_last());
    }
}

/// Removes one pair of enclosing parentheses after trimming.
pub open spec fn strip_parens(s: Seq<char>) -> Seq<char> {
    let t = trim(s);
    if t.len() >= 2 && t[0] == '(' && t.last() == ')' {
        trim(t.subrange(1, t.len() - 1))
    } else {
        t
    }
}

pub proof fn lemma_strip_parens_len(s: Seq<char>)
    ensures
        strip_parens(s).len() <= s.len(),
{
    lemma_trim_len(s);
    let t = trim(s);
    if t.len() >= 2 && t[0] == '(' && t.last() == ')' {
        lemma_trim_len(t.subrange(1, t.len() - 1));
    }
}

/// Index of the last occurrence of `c` in `s`.
pub open spec fn rfind_char(s: Seq<char>, c: char) -> Option<int>
    decreases s.len(),
{
    if s.len() == 0 {
        None
    } else if s.last() == c {
        Some(s.len() - 1)
    } else {
        rfind_char(s.drop_last(), c)
    }
}

/// Whether an operator found at `pos` splits an expression: it is not at the
/// start and does not directly follow `0x`.
pub open spec fn operator_at(t: Seq<char>, pos: Option<int>) -> bool {
    pos matches Some(p) && p > 0 && !ends_with(t.take(p), seq!['0', 'x'])
}

/// Which rule `parse_size` applies to the stripped text `t`:
/// 1 addition, 2 subtraction, 3 `K` suffix, 4 `M` suffix, 5 plain number.
pub open spec fn size_rule(t: Seq<char>) -> int {
    if operator_at(t, find(t, seq!['+'])) {
        1
    } else if operator_at(t, find(t, seq!['-'])) {
        2
    } else if t.len() > 0 && (t.last() == 'K' || t.last() == 'k') {
        3
    } else if t.len() > 0 && (t.last() == 'M' || t.last() == 'm') {
        4
    } else {
        5
    }
}

/// How `parse_expression` splits `t`: at the first `+`, else at the last `-`
/// (a `-` in first position gives no split).
pub open spec fn expr_split(t: Seq<char>) -> Option<(Seq<char>, Seq<char>)> {
    match find(t, seq!['+']) {
        Some(p) => Some((t.take(p), t.skip(p + 1))),
        None => match rfind_char(t, '-') {
            Some(p) => if p == 0 {
                None
            } else {
                Some((t.take(p), t.skip(p + 1)))
            },
            None => None,
        },
    }
}

pub proof fn lemma_find_bound(t: Seq<char>, p: Seq<char>)
    requires
        p.len() == 1,
    ensures
        find(t, p) matches Some(k) ==> 0 <= k < t.len(),
{
    lemma_find_from_props(t, p, 0);
}

pub proof fn lemma_rfind_bound(t: Seq<char>, c: char)
    ensures
        rfind_char(t, c) matches Some(k) ==> 0 <= k < t.len() && t[k] == c,
        rfind_char(t, c) is None ==> forall|i: int| 0 <= i < t.len() ==> t[i] != c,
    decreases t.len(),
{
    if t.len() > 0 {
        lemma_rfind_bound(t.drop_last(), c);
        if rfind_char(t, c) is None {
            assert forall|i: int| 0 <= i < t.len() implies t[i] != c by {
                if i < t.len() - 1 {
                    assert(t.drop_last()[i] == t[i]);
                }
            }
        }
    }
}

pub proof fn lemma_split_shorter(t: Seq<char>)
    ensures
        expr_split(t) matches Some((l, r)) ==> l.len() < t.len() && r.len() < t.len(),
{
    lemma_find_bound(t, seq!['+']);
    lemma_rfind_bound(t, '-');
}

/// Value `parse_size` computes for `s` (as a mathematical integer), if any.
///
/// Sizes are plain numbers, numbers with a `K` (x1024) or `M` (x1048576)
/// suffix in either case, or `a + b` / `a - b` of sizes (subtraction stops at 0),
/// optionally in parentheses.
pub open spec fn size_value(s: Seq<char>) -> Option<int>
    decreases s.len(),
{
    let t = strip_parens(s);
    let rule = size_rule(t);
    proof {
        lemma_strip_parens_len(s);
        lemma_split_shorter(t);
    }
    if rule == 1 || rule == 2 {
        match expr_split(t) {
            None => None,
            Some((l, r)) => {
                proof {
                    lemma_trim_len(l);
                    lemma_trim_len(r);
                }
                match size_value(trim(l)) {
                    None => None,
                    Some(a) => match size_value(trim(r)) {
                        None => None,
                        Some(b) => Some(
                            if rule == 1 {
                                a + b
                            } else if a >= b {
                                a - b
                            } else {
                                0
                            },
                        ),
                    },
                }
            },
        }
    } else if rule == 3 {
        match parse_number(t.drop_last()) {
            Some(n) => Some(n * 1024),
            None => None,
        }
    } else if rule == 4 {
        match parse_number(t.drop_last()) {
            Some(n) => Some(n * 1048576),
            None => None,
        }
    } else {
        match parse_number(t) {
            Some(n) => Some(n as int),
            None => None,
        }
    }
}

/// Whether evaluating `parse_size` on `s` overflows 64-bit arithmetic (which
/// panics): a `K`/`M` multiplication or an addition whose result does not fit.
pub open spec fn size_overflows(s: Seq<char>) -> bool
    decreases s.len(),
{
    let t = strip_parens(s);
    let rule = size_rule(t);
    proof {
        lemma_strip_parens_len(s);
        lemma_split_shorter(t);
    }
    if rule == 1 || rule == 2 {
        match expr_split(t) {
            None => false,
            Some((l, r)) => {
                proof {
                    lemma_trim_len(l);
                    lemma_trim_len(r);
                }
                ||| size_overflows(trim(l))
                ||| (size_value(trim(l)) is Some && size_overflows(trim(r)))
                ||| (rule == 1 && size_value(trim(l)) is Some && size_value(trim(r)) is Some
                    && size_value(trim(l))->0 + size_value(trim(r))->0 > u64::MAX)
            },
        }
    } else if rule == 3 {
        parse_number(t.drop_last()) matches Some(n) && n * 1024 > u64::MAX
    } else if rule == 4 {
        parse_number(t.drop_last()) matches Some(n) && n * 1048576 > u64::MAX
    } else {
        false
    }
}

pub proof fn lemma_size_value_bounds(s: Seq<char>)
    requires
        !size_overflows(s),
    ensures
        size_value(s) matches Some(v) ==> 0 <= v <= u64::MAX,
    decreases s.len(),
{
    let t = strip_parens(s);
    lemma_strip_parens_len(s);
    lemma_split_shorter(t);
    let rule = size_rule(t);
    if rule == 1 || rule == 2 {
        if let Some((l, r)) = expr_split(t) {
            lemma_trim_len(l);
            lemma_trim_len(r);
            lemma_size_value_bounds(trim(l));
            if size_value(trim(l)) is Some {
                lemma_size_value_bounds(trim(r));
            }
        }
    }
}

fn rfind_char_exec(s: &[char], c: char) -> (r: Option<usize>)
    ensures
        r matches Some(k) ==> rfind_char(s@, c) == Some(k as int),
        r is None ==> rfind_char(s@, c) is None,
{
    let mut j = s.len();
    assert(s@.take(j as int) =~= s@);
    while j > 0
        invariant
            j <= s.len(),
            rfind_char(s@, c) == rfind_char(s@.take(j as int), c),
        decreases j,
    {
        assert(s@.take(j as int).drop_last() =~= s@.take(j - 1));
        assert(s@.take(j as int).last() == s@[j - 1]);
        if s[j - 1] == c {
            return Some(j - 1);
        }
        j = j - 1;
    }
    None
}

fn strip_parens_exec(s: &[char]) -> (r: Vec<char>)
    ensures
        r@ == strip_parens(s@),
{
    let t = trim_chars(s);
    if t.len() >= 2 && t[0] == '(' && t[t.len() - 1] == ')' {
        let inner = sub_chars(t.as_slice(), 1, t.len() - 1);
        trim_chars(inner.as_slice())
    } else {
        t
    }
}

fn operator_at_exec(t: &[char], pos: Option<usize>) -> (r: bool)
    requires
        pos matches Some(p) ==> p <= t.len(),
    ensures
        r == operator_at(
            t@,
            match pos {
                Some(p) => Some(p as int),
                None => None,
            },
        ),
{
    match pos {
        Some(p) => {
            if p == 0 {
                return false;
            }
            let pre = sub_chars(t, 0, p);
            assert(pre@ =~= t@.take(p as int));
            let ox: Vec<char> = vec!['0', 'x'];
            !ends_with_chars(pre.as_slice(), ox.as_slice())
        },
        None => false,
    }
}

fn find_one(t: &[char], c: char) -> (r: Option<usize>)
    ensures
        r matches Some(k) ==> find(t@, seq![c]) == Some(k as int) && k < t@.len(),
        r is None ==> find(t@, seq![c]) is None,
{
    let p: Vec<char> = vec![c];
    assert(p@ =~= seq![c]);
    let r = find_chars(t, p.as_slice());
    proof {
        lemma_find_bound(t@, seq![c]);
    }
    r
}

/// Parse a size value with optional K/M suffix, or a simple `a + b` / `a - b`
/// expression of sizes.
pub fn parse_size_exec(s: &[char]) -> (r: Option<u64>)
    requires
        !size_overflows(s@),
    ensures
        r matches Some(v) ==> size_value(s@) == Some(v as int),
        r is None ==> size_value(s@) is None,
    decreases s@.len(),
{
    proof {
        lemma_strip_parens_len(s@);
    }
    let t = strip_parens_exec(s);
    let ghost tt = t@;
    proof {
        lemma_split_shorter(tt);
    }
    let plus = find_one(t.as_slice(), '+');
    let minus = find_one(t.as_slice(), '-');
    let is_plus = operator_at_exec(t.as_slice(), plus);
    let is_minus = !is_plus && operator_at_exec(t.as_slice(), minus);
    if is_plus || is_minus {
        // parse_expression
        let split: Option<usize> = match plus {
            Some(p) => Some(p),
            None => match rfind_char_exec(t.as_slice(), '-') {
                Some(p) => if p == 0 {
                    None
                } else {
                    Some(p)
                },
                None => None,
            },
        };
        proof {
            lemma_rfind_bound(tt, '-');
        }
        assert(split matches Some(p) ==> p < t.len());
        match split {
            None => None,
            Some(p) => {
                let l = sub_chars(t.as_slice(), 0, p);
                let r = sub_chars(t.as_slice(), p + 1, t.len());
                assert(l@ =~= tt.take(p as int));
                assert(r@ =~= tt.skip(p + 1));
                let lt = trim_chars(l.as_slice());
                let rt = trim_chars(r.as_slice());
                proof {
                    lemma_trim_len(l@);
                    lemma_trim_len(r@);
                }
                let a = parse_size_exec(lt.as_slice());
                match a {
                    None => None,
                    Some(a) => {
                        let b = parse_size_exec(rt.as_slice());
                        match b {
                            None => None,
                            Some(b) => {
                                if is_plus {
                                    Some(a + b)
                                } else {
                                    Some(a.saturating_sub(b))
                                }
                            },
                        }
                    },
                }
            },
        }
    } else if t.len() > 0 && (t[t.len() - 1] == 'K' || t[t.len() - 1] == 'k') {
        let num = sub_chars(t.as_slice(), 0, t.len() - 1);
        assert(num@ =~= tt.drop_last());
        match parse_number_exec(num.as_slice()) {
            Some(n) => Some(n * 1024),
            None => None,
        }
    } else if t.len() > 0 && (t[t.len() - 1] == 'M' || t[t.len() - 1] == 'm') {
        let num = sub_chars(t.as_slice(), 0, t.len() - 1);
        assert(num@ =~= tt.drop_last());
        match parse_number_exec(num.as_slice()) {
            Some(n) => Some(n * 1024 * 1024),
            None => None,
        }
    } else {
        parse_number_exec(t.as_slice())
    }
}


/// Whether evaluating `parse_size` on `s` overflows.
pub fn size_overflows_exec(s: &[char]) -> (r: bool)
    ensures
        r == size_overflows(s@),
    decreases s@.len(),
{
    proof {
        lemma_strip_parens_len(s@);
    }
    let t = strip_parens_exec(s);
    let ghost tt = t@;
    proof {
        lemma_split_shorter(tt);
    }
    let plus = find_one(t.as_slice(), '+');
    let minus = find_one(t.as_slice(), '-');
    let is_plus = operator_at_exec(t.as_slice(), plus);
    let is_minus = !is_plus && operator_at_exec(t.as_slice(), minus);
    if is_plus || is_minus {
        let split: Option<usize> = match plus {
            Some(p) => Some(p),
            None => match rfind_char_exec(t.as_slice(), '-') {
                Some(p) => if p == 0 {
                    None
                } else {
                    Some(p)
                },
                None => None,
            },
        };
        proof {
            lemma_rfind_bound(tt, '-');
        }
        assert(split matches Some(p) ==> p < t.len());
        match split {
            None => false,
            Some(p) => {
                let l = sub_chars(t.as_slice(), 0, p);
                let r = sub_chars(t.as_slice(), p + 1, t.len());
                assert(l@ =~= tt.take(p as int));
                assert(r@ =~= tt.skip(p + 1));
                let lt = trim_chars(l.as_slice());
                let rt = trim_chars(r.as_slice());
                proof {
                    lemma_trim_len(l@);
                    lemma_trim_len(r@);
                }
                if size_overflows_exec(lt.as_slice()) {
                    return true;
                }
                let a = parse_size_exec(lt.as_slice());
                match a {
                    None => false,
                    Some(a) => {
                        if size_overflows_exec(rt.as_slice()) {
                            return true;
                        }
                        match parse_size_exec(rt.as_slice()) {
                            None => false,
                            Some(b) => is_plus && a as u128 + b as u128 > u64::MAX as u128,
                        }
                    },
                }
            },
        }
    } else if t.len() > 0 && (t[t.len() - 1] == 'K' || t[t.len() - 1] == 'k') {
        let num = sub_chars(t.as_slice(), 0, t.len() - 1);
        assert(num@ =~= tt.drop_last());
        match parse_number_exec(num.as_slice()) {
            Some(n) => n as u128 * 1024 > u64::MAX as u128,
            None => false,
        }
    } else if t.len() > 0 && (t[t.len() - 1] == 'M' || t[t.len() - 1] == 'm') {
        let num = sub_chars(t.as_slice(), 0, t.len() - 1);
        assert(num@ =~= tt.drop_last());
        match parse_number_exec(num.as_slice()) {
            Some(n) => n as u128 * 1048576 > u64::MAX as u128,
            None => false,
        }
    } else {
        false
    }
}

} // verus!

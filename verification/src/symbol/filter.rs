//! Symbol filtering by type, binding, size, address and section.
use vstd::prelude::*;

use crate::models::{Symbol, SymbolBinding, SymbolType};
use crate::text::str_eq;

verus! {

/// Filter for selecting symbols by various criteria.
#[derive(Debug, Clone)]
pub struct SymbolFilter {
    pub criteria: FilterCriteria,
}

/// Criteria for symbol filtering (all are ANDed together).
#[derive(Debug, Clone)]
pub struct FilterCriteria {
    /// Only include symbols of these types
    pub types: Option<Vec<SymbolType>>,
    /// Only include symbols with these bindings
    pub bindings: Option<Vec<SymbolBinding>>,
    /// Minimum symbol size in bytes
    pub size_min: Option<u64>,
    /// Maximum symbol size in bytes
    pub size_max: Option<u64>,
    /// Minimum address
    pub address_min: Option<u64>,
    /// Maximum address
    pub address_max: Option<u64>,
    /// Only include symbols in these sections (by the symbol's section name;
    /// a symbol of no known section is left out)
    pub section_names: Option<Vec<String>>,
}

impl Default for FilterCriteria {
    /// No criterion: every symbol passes.
    fn default() -> (r: Self)
        ensures
            r.types is None,
            r.bindings is None,
            r.size_min is None,
            r.size_max is None,
            r.address_min is None,
            r.address_max is None,
            r.section_names is None,
    {
        FilterCriteria {
            types: None,
            bindings: None,
            size_min: None,
            size_max: None,
            address_min: None,
            address_max: None,
            section_names: None,
        }
    }
}

/// Whether `s` meets every criterion of `c`.
pub open spec fn passes(c: FilterCriteria, s: Symbol) -> bool {
    &&& (c.types matches Some(ts) ==> ts@.contains(s.symbol_type))
    &&& (c.bindings matches Some(bs) ==> bs@.contains(s.binding))
    &&& (c.size_min matches Some(m) ==> s.size >= m)
    &&& (c.size_max matches Some(m) ==> s.size <= m)
    &&& (c.address_min matches Some(m) ==> s.address >= m)
    &&& (c.address_max matches Some(m) ==> s.address <= m)
    &&& (c.section_names matches Some(ns) ==> in_sections(ns@, s))
}

/// The symbol's section is one of the sections named `ns`.
pub open spec fn in_sections(ns: Seq<String>, s: Symbol) -> bool {
    s.section_name matches Some(n) && exists|k: int| 0 <= k < ns.len() && #[trigger] ns[k]@ == n@
}

/// The symbols of `s` that pass `c`, in order.
pub open spec fn selected(c: FilterCriteria, s: Seq<Symbol>) -> Seq<Symbol>
    decreases s.len(),
{
    if s.len() == 0 {
        Seq::empty()
    } else if passes(c, s.last()) {
        selected(c, s.drop_last()).push(s.last())
    } else {
        selected(c, s.drop_last())
    }
}

fn has_type(v: &Vec<SymbolType>, t: SymbolType) -> (r: bool)
    ensures
        r == v@.contains(t),
{
    let mut i: usize = 0;
    while i < v.len()
        invariant
            i <= v@.len(),
            forall|k: int| 0 <= k < i ==> v@[k] != t,
        decreases v.len() - i,
    {
        if v[i] == t {
            assert(v@[i as int] == t);
            return true;
        }
        i = i + 1;
    }
    false
}

fn has_binding(v: &Vec<SymbolBinding>, b: SymbolBinding) -> (r: bool)
    ensures
        r == v@.contains(b),
{
    let mut i: usize = 0;
    while i < v.len()
        invariant
            i <= v@.len(),
            forall|k: int| 0 <= k < i ==> v@[k] != b,
        decreases v.len() - i,
    {
        if v[i] == b {
            assert(v@[i as int] == b);
            return true;
        }
        i = i + 1;
    }
    false
}

fn has_section(ns: &Vec<String>, n: &str) -> (r: bool)
    ensures
        r == exists|k: int| 0 <= k < ns@.len() && #[trigger] ns@[k]@ == n@,
{
    let mut i: usize = 0;
    while i < ns.len()
        invariant
            i <= ns@.len(),
            forall|k: int| 0 <= k < i ==> ns@[k]@ != n@,
        decreases ns.len() - i,
    {
        if str_eq(ns[i].as_str(), n) {
            return true;
        }
        i = i + 1;
    }
    false
}

impl SymbolFilter {
    /// Create a new filter with the given criteria.
    pub fn new(criteria: FilterCriteria) -> (r: Self)
        ensures
            r.criteria == criteria,
    {
        SymbolFilter { criteria }
    }

    /// Filter symbols, returning only those matching all criteria, in order.
    pub fn filter<'a>(&self, symbols: &'a [Symbol]) -> (r: Vec<&'a Symbol>)
        ensures
            r@.len() == selected(self.criteria, symbols@).len(),
            forall|i: int| 0 <= i < r@.len() ==> *r@[i] == selected(self.criteria, symbols@)[i],
    {
        let mut out: Vec<&'a Symbol> = Vec::new();
        let mut i: usize = 0;
        while i < symbols.len()
            invariant
                i <= symbols@.len(),
                out@.len() == selected(self.criteria, symbols@.take(i as int)).len(),
                forall|k: int| 0 <= k < out@.len() ==> *out@[k] == selected(
                    self.criteria,
                    symbols@.take(i as int),
                )[k],
            decreases symbols.len() - i,
        {
            assert(symbols@.take(i + 1).drop_last() =~= symbols@.take(i as int));
            let s = &symbols[i];
            if self.matches(s) {
                out.push(s);
            }
            i = i + 1;
        }
        assert(symbols@.take(symbols@.len() as int) =~= symbols@);
        out
    }

    /// Whether the symbol meets every criterion.
    pub fn matches(&self, symbol: &Symbol) -> (r: bool)
        ensures
            r == passes(self.criteria, *symbol),
    {
        if let Some(types) = &self.criteria.types {
            if !has_type(types, symbol.symbol_type) {
                return false;
            }
        }
        if let Some(bindings) = &self.criteria.bindings {
            if !has_binding(bindings, symbol.binding) {
                return false;
            }
        }
        if let Some(min_size) = self.criteria.size_min {
            if symbol.size < min_size {
                return false;
            }
        }
        if let Some(max_size) = self.criteria.size_max {
            if symbol.size > max_size {
                return false;
            }
        }
        if let Some(min_addr) = self.criteria.address_min {
            if symbol.address < min_addr {
                return false;
            }
        }
        if let Some(max_addr) = self.criteria.address_max {
            if symbol.address > max_addr {
                return false;
            }
        }
        if let Some(names) = &self.criteria.section_names {
            match &symbol.section_name {
                Some(n) => {
                    if !has_section(names, n.as_str()) {
                        return false;
                    }
                },
                None => {
                    return false;
                },
            }
        }
        true
    }
}

/// A filter keeps exactly the symbols that meet every criterion: each kept
/// symbol passes, each passing symbol is kept, and nothing else is.
pub proof fn law_filter_keeps_exactly_passing(c: FilterCriteria, s: Seq<Symbol>)
    ensures
        forall|x: Symbol| #[trigger] selected(c, s).contains(x) <==> (s.contains(x) && passes(c, x)),
    decreases s.len(),
{
    if s.len() > 0 {
        law_filter_keeps_exactly_passing(c, s.drop_last());
        assert(s =~= s.drop_last().push(s.last()));
        assert forall|x: Symbol| #[trigger] selected(c, s).contains(x) <==> (s.contains(x) && passes(c, x)) by {
            let t = s.drop_last();
            if s.contains(x) && x != s.last() {
                let k = choose|k: int| 0 <= k < s.len() && s[k] == x;
                assert(t[k] == x);
            }
            if t.contains(x) {
                let k = choose|k: int| 0 <= k < t.len() && t[k] == x;
                assert(s[k] == x);
            }
            if selected(c, s).contains(x) && passes(c, s.last()) && x != s.last() {
                let u = selected(c, t).push(s.last());
                let k = choose|k: int| 0 <= k < u.len() && u[k] == x;
                assert(selected(c, t)[k] == x);
            }
            if passes(c, s.last()) {
                let u = selected(c, t).push(s.last());
                assert(u[u.len() - 1] == s.last());
                if selected(c, t).contains(x) {
                    let k = choose|k: int| 0 <= k < selected(c, t).len() && selected(c, t)[k] == x;
                    assert(u[k] == x);
                }
            }
        }
    }
}

/// With no criterion every symbol passes, so nothing is filtered out.
pub proof fn law_empty_criteria_keep_everything(c: FilterCriteria, s: Seq<Symbol>)
    requires
        c.types is None,
        c.bindings is None,
        c.size_min is None,
        c.size_max is None,
        c.address_min is None,
        c.address_max is None,
        c.section_names is None,
    ensures
        selected(c, s) == s,
    decreases s.len(),
{
    if s.len() > 0 {
        law_empty_criteria_keep_everything(c, s.drop_last());
        assert(s.drop_last().push(s.last()) =~= s);
    }
}

/// With section names given, every kept symbol lies in one of the named
/// sections, and a symbol of any other section (or of none) is left out.
pub proof fn law_section_filter_keeps_only_listed_sections(c: FilterCriteria, s: Seq<Symbol>)
    requires
        c.section_names is Some,
    ensures
        forall|x: Symbol|
            #[trigger] selected(c, s).contains(x) ==> (x.section_name matches Some(n) && exists|k: int|
                0 <= k < c.section_names->0@.len() && #[trigger] c.section_names->0@[k]@ == n@),
{
    law_filter_keeps_exactly_passing(c, s);
}

} // verus!

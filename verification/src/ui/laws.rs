//! What the explorer's keys promise over any state: quitting, leaving or
//! confirming a search, choosing tabs, toggling help, and the moves that one
//! key undoes.
use vstd::prelude::*;

use crate::ui::explorer::{ExplorerData, Key, NavV, ViewTab, next_section_v, prev_section_v, rescroll_v, step, tab_for};

verus! {

/// Outside a search, `q` and `Esc` quit and change nothing.
pub proof fn law_quit_keys_quit(n: NavV, d: ExplorerData, k: Key)
    requires
        !n.search_mode,
        k == Key::Char('q') || k == Key::Esc,
    ensures
        step(n, d, k) == (n, false),
{
}

/// While searching, `Esc` clears the query and its results and leaves search
/// mode; the explorer goes on.
pub proof fn law_escape_clears_search(n: NavV, d: ExplorerData)
    requires
        n.search_mode,
    ensures
        !step(n, d, Key::Esc).0.search_mode,
        step(n, d, Key::Esc).0.search_query.len() == 0,
        step(n, d, Key::Esc).0.fuzzy_results.len() == 0,
        step(n, d, Key::Esc).0.file_fuzzy_results.len() == 0,
        step(n, d, Key::Esc).0.current_tab == n.current_tab,
        step(n, d, Key::Esc).1,
{
}

/// While searching, `Enter` leaves search mode and keeps the query, its
/// results and the selection.
pub proof fn law_enter_keeps_search(n: NavV, d: ExplorerData)
    requires
        n.search_mode,
    ensures
        step(n, d, Key::Enter) == (NavV { search_mode: false, ..n }, true),
{
}

/// Outside a search, the number keys choose a tab directly and clear the search.
pub proof fn law_number_keys_choose_tabs(n: NavV, d: ExplorerData)
    requires
        !n.search_mode,
    ensures
        step(n, d, Key::Char('1')).0.current_tab == ViewTab::Memory,
        step(n, d, Key::Char('2')).0.current_tab == ViewTab::Symbols,
        step(n, d, Key::Char('3')).0.current_tab == ViewTab::Files,
        step(n, d, Key::Char('4')).0.current_tab == ViewTab::Statistics,
        step(n, d, Key::Char('5')).0.current_tab == ViewTab::RegionExplorer,
        step(n, d, Key::Char('6')).0.current_tab == ViewTab::VectorTable,
        step(n, d, Key::Char('2')).0.search_query.len() == 0,
        step(n, d, Key::Char('3')).0.search_query.len() == 0,
{
}

/// The navigation after pressing `k` `count` times.
pub open spec fn presses(n: NavV, d: ExplorerData, k: Key, count: nat) -> NavV
    decreases count,
{
    if count == 0 {
        n
    } else {
        step(presses(n, d, k, (count - 1) as nat), d, k).0
    }
}

/// One `Tab` press outside a search: the next tab, still not searching.
proof fn lemma_tab_press(m: NavV, d: ExplorerData)
    requires
        !m.search_mode,
    ensures
        step(m, d, Key::Tab).0.current_tab == tab_for(m.current_tab, Key::Tab),
        !step(m, d, Key::Tab).0.search_mode,
{
}

/// The tab reached after `i` presses of `Tab` from `t`.
pub open spec fn tab_after(t: ViewTab, i: nat) -> ViewTab
    decreases i,
{
    if i == 0 {
        t
    } else {
        tab_for(tab_after(t, (i - 1) as nat), Key::Tab)
    }
}

proof fn lemma_presses_tab(n: NavV, d: ExplorerData, i: nat)
    requires
        !n.search_mode,
    ensures
        presses(n, d, Key::Tab, i).current_tab == tab_after(n.current_tab, i),
        !presses(n, d, Key::Tab, i).search_mode,
    decreases i,
{
    if i > 0 {
        lemma_presses_tab(n, d, (i - 1) as nat);
        lemma_tab_press(presses(n, d, Key::Tab, (i - 1) as nat), d);
    }
}

/// Outside a search, `Tab` visits the six tabs in turn: six presses come back
/// to the tab where they started.
pub proof fn law_tab_cycles_through_six_tabs(n: NavV, d: ExplorerData)
    requires
        !n.search_mode,
    ensures
        presses(n, d, Key::Tab, 6).current_tab == n.current_tab,
        forall|i: nat| 0 < i < 6 ==> #[trigger] presses(n, d, Key::Tab, i).current_tab != n.current_tab,
{
    lemma_presses_tab(n, d, 6);
    assert(tab_after(n.current_tab, 6) == n.current_tab) by {
        reveal_with_fuel(tab_after, 7);
    }
    assert forall|i: nat| 0 < i < 6 implies #[trigger] presses(n, d, Key::Tab, i).current_tab
        != n.current_tab by {
        lemma_presses_tab(n, d, i);
        reveal_with_fuel(tab_after, 6);
    }
}

/// Outside a search, pressing `h` twice shows the same view as before.
pub proof fn law_help_toggles(n: NavV, d: ExplorerData)
    requires
        !n.search_mode,
    ensures
        step(n, d, Key::Char('h')).0.show_help == !n.show_help,
        step(step(n, d, Key::Char('h')).0, d, Key::Char('h')).0 == n,
{
    assert(step(step(n, d, Key::Char('h')).0, d, Key::Char('h')).0 =~= n);
}

/// In the region explorer, zooming in and then out comes back to the same
/// zoom level, with the map scrolled to the selected symbol at that level.
pub proof fn law_zoom_in_then_out(n: NavV, d: ExplorerData)
    requires
        !n.search_mode,
        n.current_tab == ViewTab::RegionExplorer,
        n.region_zoom_level < 3,
    ensures
        step(n, d, Key::Char('z')).0.region_zoom_level == n.region_zoom_level + 1,
        step(step(n, d, Key::Char('z')).0, d, Key::Char('Z')).0 == rescroll_v(n, d),
{
    assert(step(step(n, d, Key::Char('z')).0, d, Key::Char('Z')).0 =~= rescroll_v(n, d));
}

/// `Down` and `Up` in the section list.
proof fn lemma_section_keys(m: NavV, d: ExplorerData)
    requires
        !m.search_mode,
        m.current_tab == ViewTab::Memory,
    ensures
        step(m, d, Key::Down).0 == next_section_v(m, d),
        step(m, d, Key::Up).0 == prev_section_v(m, d),
{
}

/// In the section list, moving down and then up returns to the same section,
/// and so does moving up and then down.
pub proof fn law_down_then_up_returns(n: NavV, d: ExplorerData)
    requires
        !n.search_mode,
        n.current_tab == ViewTab::Memory,
        n.selected_section < d.sections@.len() <= usize::MAX,
    ensures
        step(step(n, d, Key::Down).0, d, Key::Up).0.selected_section == n.selected_section,
        step(step(n, d, Key::Up).0, d, Key::Down).0.selected_section == n.selected_section,
{
    let len = d.sections@.len();
    let i = n.selected_section;
    lemma_section_keys(n, d);
    let a = next_section_v(n, d);
    let b = prev_section_v(n, d);
    lemma_section_keys(a, d);
    lemma_section_keys(b, d);
    if i + 1 < len {
        assert((i + 1) % (len as int) == i + 1) by (nonlinear_arith)
            requires
                0 <= i,
                i + 1 < len,
        ;
        assert(a.selected_section == i + 1);
    } else {
        assert((i + 1) % (len as int) == 0) by (nonlinear_arith)
            requires
                i + 1 == len,
        ;
        assert(a.selected_section == 0);
    }
    assert(prev_section_v(a, d).selected_section == i);
    if i == 0 {
        assert((len as int) % (len as int) == 0) by (nonlinear_arith)
            requires
                len > 0,
        ;
        assert(b.selected_section == len - 1);
    } else {
        assert(((i - 1) + 1) % (len as int) == i) by (nonlinear_arith)
            requires
                0 < i < len,
        ;
        assert(b.selected_section == i - 1);
    }
    assert(next_section_v(b, d).selected_section == i);
}

} // verus!

//! What the laws share.

use vstd::prelude::*;

use crate::tabs::{distinct_tabs, lemma_tab_index_is, tab_index, TabState};
use crate::workspace::Workspace;

verus! {

/// The window shows the tab at `i`.
pub open spec fn shows(w: Workspace, i: int) -> bool {
    &&& w.wf()
    &&& 0 <= i < w.tabs.tabs@.len()
    &&& w.tabs.active_tab_id == Some(w.tabs.tabs@[i].id)
}

/// A tab stands where it stands.
pub proof fn lemma_tab_at(tabs: Seq<TabState>, i: int)
    requires
        distinct_tabs(tabs),
        0 <= i < tabs.len(),
    ensures
        tab_index(tabs, tabs[i].id) == i,
{
    lemma_tab_index_is(tabs, tabs[i].id, i);
}

/// The tab that a window shows is the active one.
pub proof fn lemma_shown(w: Workspace, i: int)
    requires
        shows(w, i),
    ensures
        w.tabs.active_index() == i,
        w.tabs.active() == Some(w.tabs.tabs@[i]),
{
    lemma_tab_at(w.tabs.tabs@, i);
}

}

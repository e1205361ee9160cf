//! The state of a browsing session: which endpoints the search query lets
//! through, which of them is selected, and where the focus is.

use crate::model::{ApiSpec, ApiSpecView, Endpoint, EndpointView};
use crate::text::{
    lowercase, occurs_in, str_contains, str_to_lowercase, string_pop, string_push, texts,
};
use vstd::arithmetic::div_mod::{
    lemma_add_mod_noop_right, lemma_mod_bound, lemma_mod_self_0, lemma_small_mod,
};
use vstd::prelude::*;

verus! {

/// The pane that navigation acts on.
#[derive(Debug, Clone, Copy, PartialEq, Eq, Structural)]
pub enum Focus {
    List,
    Detail,
}

/// The session state.
pub struct App {
    pub spec: ApiSpec,
    /// An index into `filtered_indices`, not into the endpoints.
    pub selected_index: usize,
    pub should_quit: bool,
    pub focus: Focus,
    pub detail_scroll: u16,
    pub search_mode: bool,
    pub search_query: String,
    /// The indices of the endpoints that the query lets through, ascending.
    pub filtered_indices: Vec<usize>,
}

/// What an [`App`] holds.
pub struct AppView {
    pub spec: ApiSpecView,
    pub selected_index: int,
    pub should_quit: bool,
    pub focus: Focus,
    pub detail_scroll: int,
    pub search_mode: bool,
    pub search_query: Seq<char>,
    pub filtered_indices: Seq<int>,
}

impl View for App {
    type V = AppView;

    open spec fn view(&self) -> AppView {
        AppView {
            spec: self.spec@,
            selected_index: self.selected_index as int,
            should_quit: self.should_quit,
            focus: self.focus,
            detail_scroll: self.detail_scroll as int,
            search_mode: self.search_mode,
            search_query: self.search_query@,
            filtered_indices: index_views(self.filtered_indices@),
        }
    }
}

/// A list of indices as mathematical integers.
pub open spec fn index_views(s: Seq<usize>) -> Seq<int> {
    s.map_values(|i: usize| i as int)
}

/// The paths of a list of endpoints.
pub open spec fn paths_of(endpoints: Seq<EndpointView>) -> Seq<Seq<char>> {
    endpoints.map_values(|e: EndpointView| e.path)
}

/// The query lets a path through, given the lower-case forms of both: the
/// query is empty, or its lower-case form occurs in that of the path.
pub open spec fn lets_through(
    lowered_path: Seq<char>,
    query: Seq<char>,
    lowered_query: Seq<char>,
) -> bool {
    query.len() == 0 || occurs_in(lowered_query, lowered_path)
}

/// The query lets a path through: it is empty, or it occurs in the path
/// when both are taken in lower case.
pub open spec fn matches(path: Seq<char>, query: Seq<char>) -> bool {
    lets_through(lowercase(path), query, lowercase(query))
}

/// The lower-case forms of paths.
pub open spec fn lowered(paths: Seq<Seq<char>>) -> Seq<Seq<char>> {
    paths.map_values(|p: Seq<char>| lowercase(p))
}

/// The indices of the paths that the query lets through, ascending, given
/// the lower-case forms of the paths and of the query.
pub open spec fn filtered_lowered(
    lowered_paths: Seq<Seq<char>>,
    query: Seq<char>,
    lowered_query: Seq<char>,
) -> Seq<int>
    decreases lowered_paths.len(),
{
    if lowered_paths.len() == 0 {
        Seq::empty()
    } else {
        let earlier = filtered_lowered(lowered_paths.drop_last(), query, lowered_query);
        if lets_through(lowered_paths.last(), query, lowered_query) {
            earlier.push(lowered_paths.len() - 1)
        } else {
            earlier
        }
    }
}

/// The indices of the paths that the query lets through, ascending.
pub open spec fn filtered(paths: Seq<Seq<char>>, query: Seq<char>) -> Seq<int>
    decreases paths.len(),
{
    if paths.len() == 0 {
        Seq::empty()
    } else {
        let earlier = filtered(paths.drop_last(), query);
        if matches(paths.last(), query) {
            earlier.push(paths.len() - 1)
        } else {
            earlier
        }
    }
}

/// The selection after the list it points into has become `len` long: it
/// stays where it is valid, else it falls back to the last entry, or to 0
/// in an empty list.
pub open spec fn clamped(selected: int, len: int) -> int {
    if selected < len {
        selected
    } else if len == 0 {
        0
    } else {
        len - 1
    }
}

impl AppView {
    /// The invariant of a session: the filtered indices are those that the
    /// query lets through, and the selection points into them, or is 0 when
    /// there are none.
    pub open spec fn wf(self) -> bool {
        &&& self.filtered_indices == filtered(paths_of(self.spec.endpoints), self.search_query)
        &&& 0 <= self.selected_index
        &&& self.filtered_indices.len() > 0 ==> self.selected_index < self.filtered_indices.len()
        &&& self.filtered_indices.len() == 0 ==> self.selected_index == 0
    }

    /// The state a session starts in.
    pub open spec fn initial(spec: ApiSpecView) -> AppView {
        AppView {
            spec,
            selected_index: 0,
            should_quit: false,
            focus: Focus::List,
            detail_scroll: 0,
            search_mode: false,
            search_query: Seq::empty(),
            filtered_indices: Seq::new(spec.endpoints.len(), |i: int| i),
        }
    }

    /// The selected endpoint, if the selection points at one.
    pub open spec fn selected_endpoint(self) -> Option<EndpointView> {
        if 0 <= self.selected_index < self.filtered_indices.len() && 0
            <= self.filtered_indices[self.selected_index] < self.spec.endpoints.len() {
            Some(self.spec.endpoints[self.filtered_indices[self.selected_index]])
        } else {
            None
        }
    }

    /// The state after a step to the next filtered entry: the selection
    /// advances by one modulo the number of entries, so from the last entry
    /// to the first, and the detail scroll returns to 0; nothing changes
    /// when nothing is listed.
    pub open spec fn select_next(self) -> AppView {
        if self.filtered_indices.len() > 0 {
            AppView {
                selected_index: (self.selected_index + 1) % (self.filtered_indices.len() as int),
                detail_scroll: 0,
                ..self
            }
        } else {
            self
        }
    }

    /// The state after a step to the previous filtered entry: the selection
    /// retreats, from the first entry to the last, and the detail scroll
    /// returns to 0; nothing changes when nothing is listed.
    pub open spec fn select_previous(self) -> AppView {
        if self.filtered_indices.len() > 0 {
            AppView {
                selected_index: if self.selected_index == 0 {
                    self.filtered_indices.len() - 1
                } else {
                    self.selected_index - 1
                },
                detail_scroll: 0,
                ..self
            }
        } else {
            self
        }
    }

    /// The state with the filtered indices derived anew from the query, and
    /// the selection clamped to them.
    pub open spec fn refiltered(self) -> AppView {
        let indices = filtered(paths_of(self.spec.endpoints), self.search_query);
        AppView {
            filtered_indices: indices,
            selected_index: clamped(self.selected_index, indices.len() as int),
            ..self
        }
    }

    /// The state with the query being edited and the focus on the list.
    pub open spec fn enter_search_mode(self) -> AppView {
        AppView { search_mode: true, focus: Focus::List, ..self }
    }

    /// The state after editing is given up: the query is dropped and the
    /// filter derived anew.
    pub open spec fn cancel_search(self) -> AppView {
        AppView { search_mode: false, search_query: Seq::empty(), ..self }.refiltered()
    }

    /// The state after editing is finished: the query and its filter stay.
    pub open spec fn confirm_search(self) -> AppView {
        AppView { search_mode: false, ..self }
    }

    /// The state after `c` is typed: the query grows by `c` and the filter
    /// is derived anew.
    pub open spec fn search_push_char(self, c: char) -> AppView {
        AppView { search_query: self.search_query.push(c), ..self }.refiltered()
    }

    /// The state after a character is erased: the query loses its last
    /// character, if it has one, and the filter is derived anew.
    pub open spec fn search_pop_char(self) -> AppView {
        AppView {
            search_query: if self.search_query.len() > 0 {
                self.search_query.drop_last()
            } else {
                self.search_query
            },
            ..self
        }.refiltered()
    }

    /// The state after the filter is cleared: the query is dropped, the
    /// filter derived anew, and the first entry selected.
    pub open spec fn clear_search(self) -> AppView {
        AppView {
            selected_index: 0,
            ..AppView { search_query: Seq::empty(), ..self }.refiltered()
        }
    }

    /// The state in which the event loop is asked to stop.
    pub open spec fn quit(self) -> AppView {
        AppView { should_quit: true, ..self }
    }

    /// The state with the focus on the detail pane.
    pub open spec fn focus_detail(self) -> AppView {
        AppView { focus: Focus::Detail, ..self }
    }

    /// The state with the focus on the list pane.
    pub open spec fn focus_list(self) -> AppView {
        AppView { focus: Focus::List, ..self }
    }

    /// The state with the detail pane one line further down, as far as
    /// the offset can count.
    pub open spec fn scroll_down(self) -> AppView {
        AppView {
            detail_scroll: if self.detail_scroll < u16::MAX {
                self.detail_scroll + 1
            } else {
                self.detail_scroll
            },
            ..self
        }
    }

    /// The state with the detail pane one line further up; at 0 it stays.
    pub open spec fn scroll_up(self) -> AppView {
        AppView {
            detail_scroll: if self.detail_scroll > 0 {
                self.detail_scroll - 1
            } else {
                0
            },
            ..self
        }
    }
}

/// Filtering paths is filtering their lower-case forms by the lower-case
/// form of the query.
pub proof fn lemma_filtered_lowered(paths: Seq<Seq<char>>, query: Seq<char>)
    ensures
        filtered(paths, query) == filtered_lowered(lowered(paths), query, lowercase(query)),
    decreases paths.len(),
{
    if paths.len() > 0 {
        lemma_filtered_lowered(paths.drop_last(), query);
        assert(lowered(paths).drop_last() =~= lowered(paths.drop_last()));
    }
}

/// Decides whether the query lets a path through, given the lower-case
/// forms of both.
pub fn query_lets_through(lowered_path: &str, query: &str, lowered_query: &str) -> (keep: bool)
    ensures
        keep == lets_through(lowered_path@, query@, lowered_query@),
{
    query.is_empty() || str_contains(lowered_path, lowered_query)
}

/// Lists the indices of the paths that the query lets through, ascending,
/// given the lower-case forms of the paths and of the query.
pub fn filter_lowered(lowered_paths: &Vec<String>, query: &str, lowered_query: &str) -> (indices:
    Vec<usize>)
    ensures
        index_views(indices@) == filtered_lowered(texts(lowered_paths@), query@, lowered_query@),
{
    let ghost all = texts(lowered_paths@);
    let mut indices: Vec<usize> = Vec::new();
    let mut i: usize = 0;
    assert(all.take(0) =~= Seq::<Seq<char>>::empty());
    assert(index_views(indices@) =~= Seq::empty());
    while i < lowered_paths.len()
        invariant
            i <= lowered_paths.len(),
            all == texts(lowered_paths@),
            index_views(indices@) == filtered_lowered(all.take(i as int), query@, lowered_query@),
        decreases lowered_paths.len() - i,
    {
        let ghost before = index_views(indices@);
        assert(all.take(i + 1).drop_last() =~= all.take(i as int));
        assert(all.take(i + 1).last() == lowered_paths@[i as int]@);
        if query_lets_through(lowered_paths[i].as_str(), query, lowered_query) {
            indices.push(i);
            assert(index_views(indices@) =~= before.push(i as int));
        }
        i = i + 1;
    }
    assert(all.take(lowered_paths.len() as int) =~= all);
    indices
}

/// The filtered indices ascend strictly and are positions of paths.
pub proof fn lemma_filtered_ascends(paths: Seq<Seq<char>>, query: Seq<char>)
    ensures
        filtered(paths, query).len() <= paths.len(),
        forall|i: int|
            0 <= i < filtered(paths, query).len() ==> 0 <= (#[trigger] filtered(paths, query)[i])
                < paths.len(),
        forall|i: int, j: int|
            0 <= i < j < filtered(paths, query).len() ==> (#[trigger] filtered(paths, query)[i])
                < (#[trigger] filtered(paths, query)[j]),
    decreases paths.len(),
{
    if paths.len() > 0 {
        lemma_filtered_ascends(paths.drop_last(), query);
    }
}

/// An index is among the filtered ones exactly when the query lets its path
/// through.
pub proof fn lemma_filtered_contains(paths: Seq<Seq<char>>, query: Seq<char>, k: int)
    ensures
        filtered(paths, query).contains(k) <==> 0 <= k < paths.len() && matches(paths[k], query),
    decreases paths.len(),
{
    if paths.len() > 0 {
        let earlier = filtered(paths.drop_last(), query);
        lemma_filtered_contains(paths.drop_last(), query, k);
        if matches(paths.last(), query) {
            let all = earlier.push(paths.len() - 1);
            if earlier.contains(k) {
                let i = choose|i: int| 0 <= i < earlier.len() && earlier[i] == k;
                assert(all[i] == k);
            }
            if k == paths.len() - 1 {
                assert(all[earlier.len() as int] == k);
            }
            if all.contains(k) {
                let i = choose|i: int| 0 <= i < all.len() && all[i] == k;
                if i < earlier.len() {
                    assert(earlier[i] == k);
                }
            }
        }
        if 0 <= k < paths.len() - 1 {
            assert(paths.drop_last()[k] == paths[k]);
        }
    }
}

/// The empty query lets every endpoint through: the filtered indices are
/// the full ascending range.
pub proof fn lemma_empty_query_keeps_all(paths: Seq<Seq<char>>, query: Seq<char>)
    requires
        query.len() == 0,
    ensures
        filtered(paths, query) == Seq::new(paths.len(), |i: int| i),
    decreases paths.len(),
{
    if paths.len() > 0 {
        lemma_empty_query_keeps_all(paths.drop_last(), query);
    }
    assert(filtered(paths, query) =~= Seq::new(paths.len(), |i: int| i));
}

/// Deriving the filter twice from one query gives what deriving it once
/// gives.
pub proof fn lemma_refilter_idempotent(v: AppView)
    ensures
        v.refiltered().refiltered() == v.refiltered(),
{
}

/// Deriving the filter establishes the session invariant.
pub proof fn lemma_refiltered_wf(v: AppView)
    requires
        0 <= v.selected_index,
    ensures
        v.refiltered().wf(),
{
}

/// The session after `n` steps to the next entry.
pub open spec fn after_next(v: AppView, n: nat) -> AppView
    decreases n,
{
    if n == 0 {
        v
    } else {
        after_next(v, (n - 1) as nat).select_next()
    }
}

/// The session after `n` steps of scrolling up.
pub open spec fn after_scroll_up(v: AppView, n: nat) -> AppView
    decreases n,
{
    if n == 0 {
        v
    } else {
        after_scroll_up(v, (n - 1) as nat).scroll_up()
    }
}

/// From the first entry, `k` steps forward within the list lead to entry
/// `k`.
pub proof fn lemma_next_counts(v: AppView, k: nat)
    requires
        v.selected_index == 0,
        k < v.filtered_indices.len(),
    ensures
        after_next(v, k).selected_index == k,
        after_next(v, k).filtered_indices == v.filtered_indices,
    decreases k,
{
    if k > 0 {
        lemma_next_counts(v, (k - 1) as nat);
        lemma_small_mod(k, v.filtered_indices.len());
    }
}

/// Selection wraps forward: from the first of `n` entries, `n` steps to the
/// next entry lead back to the first.
pub proof fn lemma_next_wraps(v: AppView)
    requires
        v.selected_index == 0,
    ensures
        after_next(v, v.filtered_indices.len()).selected_index == 0,
{
    let n = v.filtered_indices.len();
    if n > 0 {
        lemma_next_counts(v, (n - 1) as nat);
        lemma_mod_self_0(n as int);
    }
}

/// Selection wraps backward: from the first of `n` entries, one step to the
/// previous entry leads to the last.
pub proof fn lemma_previous_wraps(v: AppView)
    requires
        v.selected_index == 0,
        v.filtered_indices.len() > 0,
    ensures
        v.select_previous().selected_index == v.filtered_indices.len() - 1,
{
}

/// A step of the selection that has an entry to go to puts the detail
/// scroll back to 0.
pub proof fn lemma_selection_resets_scroll(v: AppView)
    requires
        v.filtered_indices.len() > 0,
    ensures
        v.select_next().detail_scroll == 0,
        v.select_previous().detail_scroll == 0,
{
}

/// Scrolling up from 0 stays at 0, however often it is repeated.
pub proof fn lemma_scroll_floor(v: AppView, n: nat)
    requires
        v.detail_scroll == 0,
    ensures
        after_scroll_up(v, n).detail_scroll == 0,
    decreases n,
{
    if n > 0 {
        lemma_scroll_floor(v, (n - 1) as nat);
    }
}

/// Steps of the selection keep the session invariant.
pub proof fn lemma_selection_keeps_wf(v: AppView)
    requires
        v.wf(),
    ensures
        v.select_next().wf(),
        v.select_previous().wf(),
{
    if v.filtered_indices.len() > 0 {
        lemma_mod_bound(v.selected_index + 1, v.filtered_indices.len() as int);
    }
}

impl App {
    /// Starts a session on a normalised description: nothing is filtered
    /// out, and the first endpoint is selected.
    pub fn new(spec: ApiSpec) -> (app: App)
        ensures
            app@ == AppView::initial(spec@),
            app.spec == spec,
            app@.wf(),
    {
        let endpoint_count = spec.endpoints.len();
        let mut filtered_indices: Vec<usize> = Vec::new();
        let mut i: usize = 0;
        while i < endpoint_count
            invariant
                i <= endpoint_count,
                filtered_indices@.len() == i,
                forall|k: int| 0 <= k < i ==> #[trigger] filtered_indices@[k] == k,
            decreases endpoint_count - i,
        {
            filtered_indices.push(i);
            i = i + 1;
        }
        assert(index_views(filtered_indices@) =~= Seq::new(endpoint_count as nat, |k: int| k));
        let search_query = String::new();
        proof {
            assert(spec@.endpoints.len() == endpoint_count);
            lemma_empty_query_keeps_all(paths_of(spec@.endpoints), search_query@);
        }
        App {
            spec,
            selected_index: 0,
            should_quit: false,
            focus: Focus::List,
            detail_scroll: 0,
            search_mode: false,
            search_query,
            filtered_indices,
        }
    }

    /// Moves the selection to the next filtered entry, wrapping from the
    /// last to the first; does nothing when nothing is listed.
    pub fn select_next(&mut self)
        ensures
            final(self)@ == old(self)@.select_next(),
            final(self).spec == old(self).spec,
            old(self)@.wf() ==> final(self)@.wf(),
    {
        let len = self.filtered_indices.len();
        if len > 0 {
            proof {
                lemma_add_mod_noop_right(1, self.selected_index as int, len as int);
                lemma_mod_bound(self.selected_index as int, len as int);
                lemma_mod_bound(self.selected_index as int + 1, len as int);
            }
            self.selected_index = (self.selected_index % len + 1) % len;
            self.detail_scroll = 0;
        }
    }

    /// Moves the selection to the previous filtered entry, wrapping from
    /// the first to the last; does nothing when nothing is listed.
    pub fn select_previous(&mut self)
        ensures
            final(self)@ == old(self)@.select_previous(),
            final(self).spec == old(self).spec,
            old(self)@.wf() ==> final(self)@.wf(),
    {
        let len = self.filtered_indices.len();
        if len > 0 {
            self.selected_index = if self.selected_index == 0 {
                len - 1
            } else {
                self.selected_index - 1
            };
            self.detail_scroll = 0;
        }
    }

    /// The endpoint that the selection points at, through the filtered
    /// indices.
    pub open spec fn selected(&self) -> Option<Endpoint> {
        if self.selected_index < self.filtered_indices@.len()
            && self.filtered_indices@[self.selected_index as int] < self.spec.endpoints@.len() {
            Some(self.spec.endpoints@[self.filtered_indices@[self.selected_index as int] as int])
        } else {
            None
        }
    }

    /// The endpoint that the selection points at, through the filtered
    /// indices; nothing when it points at none.
    pub fn selected_endpoint(&self) -> (r: Option<&Endpoint>)
        ensures
            match r {
                Some(e) => self.selected() == Some(*e) && self@.selected_endpoint() == Some(e@),
                None => self.selected().is_none() && self@.selected_endpoint().is_none(),
            },
    {
        if self.selected_index < self.filtered_indices.len() {
            let idx = self.filtered_indices[self.selected_index];
            if idx < self.spec.endpoints.len() {
                Some(&self.spec.endpoints[idx])
            } else {
                None
            }
        } else {
            None
        }
    }

    /// Starts editing the search query, with the focus on the list.
    pub fn enter_search_mode(&mut self)
        ensures
            final(self)@ == old(self)@.enter_search_mode(),
            final(self).spec == old(self).spec,
            old(self)@.wf() ==> final(self)@.wf(),
    {
        self.search_mode = true;
        self.focus = Focus::List;
    }

    /// Leaves search mode and drops the query, which lets every endpoint
    /// through again.
    pub fn cancel_search(&mut self)
        ensures
            final(self)@ == old(self)@.cancel_search(),
            final(self).spec == old(self).spec,
            final(self)@.wf(),
    {
        self.search_mode = false;
        self.search_query = String::new();
        self.update_filtered_indices();
    }

    /// Leaves search mode and keeps the query and its filter.
    pub fn confirm_search(&mut self)
        ensures
            final(self)@ == old(self)@.confirm_search(),
            final(self).spec == old(self).spec,
            old(self)@.wf() ==> final(self)@.wf(),
    {
        self.search_mode = false;
    }

    /// Appends a character to the query and derives the filter anew.
    pub fn search_push_char(&mut self, c: char)
        ensures
            final(self)@ == old(self)@.search_push_char(c),
            final(self).spec == old(self).spec,
            final(self)@.wf(),
    {
        string_push(&mut self.search_query, c);
        self.update_filtered_indices();
    }

    /// Removes the last character of the query, if it has one, and derives
    /// the filter anew.
    pub fn search_pop_char(&mut self)
        ensures
            final(self)@ == old(self)@.search_pop_char(),
            final(self).spec == old(self).spec,
            final(self)@.wf(),
    {
        string_pop(&mut self.search_query);
        self.update_filtered_indices();
    }

    /// Drops the query, derives the filter anew and selects the first
    /// entry.
    pub fn clear_search(&mut self)
        ensures
            final(self)@ == old(self)@.clear_search(),
            final(self).spec == old(self).spec,
            final(self)@.wf(),
    {
        self.search_query = String::new();
        self.update_filtered_indices();
        self.selected_index = 0;
    }

    /// Derives the filtered indices from the query from scratch, and clamps
    /// the selection to them.
    pub fn update_filtered_indices(&mut self)
        ensures
            final(self)@ == old(self)@.refiltered(),
            final(self).spec == old(self).spec,
            final(self)@.wf(),
    {
        let lowered_query = str_to_lowercase(self.search_query.as_str());
        let ghost paths = paths_of(self.spec@.endpoints);
        let mut lowered_paths: Vec<String> = Vec::new();
        let mut i: usize = 0;
        while i < self.spec.endpoints.len()
            invariant
                i <= self.spec.endpoints.len(),
                lowered_paths@.len() == i,
                forall|j: int|
                    0 <= j < i ==> (#[trigger] lowered_paths@[j])@ == lowercase(
                        self.spec.endpoints@[j]@.path,
                    ),
            decreases self.spec.endpoints.len() - i,
        {
            lowered_paths.push(str_to_lowercase(self.spec.endpoints[i].path.as_str()));
            i = i + 1;
        }
        let indices = filter_lowered(
            &lowered_paths,
            self.search_query.as_str(),
            lowered_query.as_str(),
        );
        proof {
            assert(texts(lowered_paths@) =~= lowered(paths));
            lemma_filtered_lowered(paths, self.search_query@);
        }
        self.filtered_indices = indices;
        if self.selected_index >= self.filtered_indices.len() {
            self.selected_index = if self.filtered_indices.len() == 0 {
                0
            } else {
                self.filtered_indices.len() - 1
            };
        }
    }

    /// Asks the event loop to stop.
    pub fn quit(&mut self)
        ensures
            final(self)@ == old(self)@.quit(),
            final(self).spec == old(self).spec,
            old(self)@.wf() ==> final(self)@.wf(),
    {
        self.should_quit = true;
    }

    /// Gives the focus to the detail pane.
    pub fn focus_detail(&mut self)
        ensures
            final(self)@ == old(self)@.focus_detail(),
            final(self).spec == old(self).spec,
            old(self)@.wf() ==> final(self)@.wf(),
    {
        self.focus = Focus::Detail;
    }

    /// Gives the focus to the list pane.
    pub fn focus_list(&mut self)
        ensures
            final(self)@ == old(self)@.focus_list(),
            final(self).spec == old(self).spec,
            old(self)@.wf() ==> final(self)@.wf(),
    {
        self.focus = Focus::List;
    }

    /// Scrolls the detail pane down by one line; the offset saturates at
    /// the largest value it can hold.
    pub fn scroll_down(&mut self)
        ensures
            final(self)@ == old(self)@.scroll_down(),
            final(self).spec == old(self).spec,
            old(self)@.wf() ==> final(self)@.wf(),
    {
        if self.detail_scroll < u16::MAX {
            self.detail_scroll = self.detail_scroll + 1;
        }
    }

    /// Scrolls the detail pane up by one line; the offset stays at 0 when
    /// it is 0.
    pub fn scroll_up(&mut self)
        ensures
            final(self)@ == old(self)@.scroll_up(),
            final(self).spec == old(self).spec,
            old(self)@.wf() ==> final(self)@.wf(),
    {
        if self.detail_scroll > 0 {
            self.detail_scroll = self.detail_scroll - 1;
        }
    }
}

} // verus!

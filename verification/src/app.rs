//! Application state: focus, selection, scrolling and branch search, and how
//! each event changes them.

pub mod model;
pub mod laws;
pub mod panes;

use vstd::prelude::*;
use std::collections::HashMap;
use std::path::PathBuf;
use crate::strings::{chars_of, contains_text, lowercase, occurs_at, pop_char, push_char, text_contains, to_lowercase};
use crate::git::types::{BranchInfo, CommitId, RepoData};
use crate::git::ancestry::branch_commits;
use crate::graph::{build_graph, graph_rows};
use crate::graph::types::{GraphRow, RowModel};
use crate::idmap::id_map_insert;
use crate::events::{key_to_action, Action, AppEvent, KeyCode, KeyEvent};
use crate::ui::theme::Theme;
use crate::app::model::{
    action_model, advance_search_model, branch_names, clamp_index, event_model, finish_reload_model,
    initial_model, list_len_model, move_selection_model, move_to_model, reload_model, row_index,
    row_models, search_key_model, select_branch_model, update_search_model, AppModel,
};

verus! {

/// Which pane has the keyboard.
#[derive(Clone, Copy, PartialEq, Eq, Structural, Debug)]
pub enum Focus {
    BranchList,
    CommitGraph,
    Help,
}

/// How a branch row should be highlighted with respect to the active search.
#[derive(Clone, Copy, PartialEq, Eq, Structural, Debug)]
pub enum SearchHighlight {
    /// A branch that matches the query but is not the current focus.
    Match,
    /// The branch the `n`/`N` cursor is currently sitting on.
    Active,
}

/// The highlight of branch `idx`: none without a query or without matches;
/// `Active` when the match cursor `active_idx` points at it; `Match` when it
/// is among the matches; none otherwise.
pub open spec fn search_highlight_of(idx: usize, query: Seq<char>, matches: Seq<usize>, active_idx: usize) -> Option<SearchHighlight> {
    if query.len() == 0 || matches.len() == 0 {
        None
    } else if active_idx < matches.len() && matches[active_idx as int] == idx {
        Some(SearchHighlight::Active)
    } else if matches.contains(idx) {
        Some(SearchHighlight::Match)
    } else {
        None
    }
}

/// Decides how branch `idx` should be highlighted given the search query,
/// the matching branch indices and the active match cursor.
pub fn compute_search_highlight(idx: usize, query: &str, matches: &[usize], active_idx: usize) -> (r: Option<SearchHighlight>)
    ensures
        r == search_highlight_of(idx, query@, matches@, active_idx),
{
    if query.is_empty() || matches.len() == 0 {
        return None;
    }
    if active_idx < matches.len() && matches[active_idx] == idx {
        return Some(SearchHighlight::Active);
    }
    let mut i: usize = 0;
    while i < matches.len()
        invariant
            i <= matches@.len(),
            forall|j: int| 0 <= j < i ==> matches@[j] != idx,
            !(active_idx < matches@.len() && matches@[active_idx as int] == idx),
            query@.len() != 0,
            matches@.len() != 0,
        decreases matches@.len() - i,
    {
        if matches[i] == idx {
            assert(matches@[i as int] == idx);
            assert(matches@.contains(idx));
            return Some(SearchHighlight::Match);
        }
        i += 1;
    }
    None
}

/// The scroll offset that keeps `selected` inside a viewport of `height`
/// rows, moving as little as possible from `offset`.
pub open spec fn visible_offset(offset: usize, selected: usize, height: usize) -> usize {
    if height == 0 {
        offset
    } else if selected < offset {
        selected
    } else if selected >= offset + height {
        (selected + 1 - height) as usize
    } else {
        offset
    }
}

/// Returns an offset that keeps `selected` within the viewport of `height`
/// rows starting at `offset`, moving as little as possible.
pub fn keep_selection_visible(offset: usize, selected: usize, height: usize) -> (r: usize)
    requires
        height == 0 || selected < offset || offset + height <= usize::MAX,
    ensures
        r == visible_offset(offset, selected, height),
        height > 0 ==> r <= selected < r + height,
        height > 0 && offset <= selected < offset + height ==> r == offset,
{
    if height == 0 {
        return offset;
    }
    if selected < offset {
        selected
    } else if selected >= offset + height {
        selected - (height - 1)
    } else {
        offset
    }
}

/// Positions of the texts of `texts` that contain `needle`, in order.
pub open spec fn positions_containing(texts: Seq<Seq<char>>, needle: Seq<char>) -> Seq<usize>
    decreases texts.len(),
{
    if texts.len() == 0 {
        Seq::empty()
    } else {
        let rest = positions_containing(texts.drop_last(), needle);
        if contains_text(texts.last(), needle) {
            rest.push((texts.len() - 1) as usize)
        } else {
            rest
        }
    }
}

/// The character views of a list of strings.
pub open spec fn texts_of(names: Seq<String>) -> Seq<Seq<char>> {
    names.map_values(|n: String| n@)
}

/// The lowercased views of a list of strings.
pub open spec fn lowercased(names: Seq<String>) -> Seq<Seq<char>> {
    names.map_values(|n: String| lowercase(n@))
}

/// Indices of the (already lowercased) names that contain the (already
/// lowercased) query.
pub fn matching_lowercase_indices(lower_names: &[String], lower_query: &str) -> (r: Vec<usize>)
    ensures
        r@ == positions_containing(texts_of(lower_names@), lower_query@),
{
    let q = chars_of(lower_query);
    let mut r: Vec<usize> = Vec::new();
    let mut i: usize = 0;
    while i < lower_names.len()
        invariant
            i <= lower_names@.len(),
            q@ == lower_query@,
            r@ == positions_containing(texts_of(lower_names@.take(i as int)), lower_query@),
        decreases lower_names@.len() - i,
    {
        let name = chars_of(lower_names[i].as_str());
        proof {
            let t = texts_of(lower_names@.take(i + 1));
            assert(t.drop_last() =~= texts_of(lower_names@.take(i as int)));
            assert(t.last() == lower_names@[i as int]@);
        }
        if text_contains(&name, &q) {
            r.push(i);
        }
        i += 1;
    }
    assert(lower_names@.take(i as int) =~= lower_names@);
    r
}

/// Branch indices whose lowercased name contains the lowercased query.
pub fn matching_branch_indices(names: &[String], query: &str) -> (r: Vec<usize>)
    ensures
        r@ == positions_containing(lowercased(names@), lowercase(query@)),
        query@.len() == 0 ==> r@ == Seq::new(names@.len(), |i: int| i as usize),
{
    let q = to_lowercase(query);
    let mut lower: Vec<String> = Vec::new();
    let mut i: usize = 0;
    while i < names.len()
        invariant
            i <= names@.len(),
            lower@.len() == i,
            forall|j: int| 0 <= j < i ==> lower@[j]@ == lowercase(names@[j]@),
        decreases names@.len() - i,
    {
        lower.push(to_lowercase(names[i].as_str()));
        i += 1;
    }
    assert(texts_of(lower@) =~= lowercased(names@));
    let r = matching_lowercase_indices(lower.as_slice(), q.as_str());
    proof {
        if query@.len() == 0 {
            assert(q@ =~= Seq::<char>::empty());
            law_empty_needle_matches_all(lowercased(names@));
        }
    }
    r
}

/// Every text contains the empty text, so an empty query matches every
/// position.
pub proof fn law_empty_needle_matches_all(texts: Seq<Seq<char>>)
    ensures
        positions_containing(texts, Seq::empty()) == Seq::new(texts.len(), |i: int| i as usize),
    decreases texts.len(),
{
    if texts.len() > 0 {
        law_empty_needle_matches_all(texts.drop_last());
        assert(texts.last().subrange(0, 0) =~= Seq::<char>::empty());
        assert(occurs_at(texts.last(), Seq::empty(), 0));
        assert(positions_containing(texts, Seq::empty()) =~= Seq::new(texts.len(), |i: int| i as usize));
    }
}

/// Matches come in increasing order and each is a position of a text that
/// contains the needle.
pub proof fn law_matches_are_ordered_positions(texts: Seq<Seq<char>>, needle: Seq<char>)
    requires
        texts.len() <= usize::MAX,
    ensures
        forall|a: int, b: int|
            0 <= a < b < positions_containing(texts, needle).len() ==> positions_containing(texts, needle)[a]
                < positions_containing(texts, needle)[b],
        forall|a: int|
            0 <= a < positions_containing(texts, needle).len() ==> {
                let p = #[trigger] positions_containing(texts, needle)[a] as int;
                0 <= p < texts.len() && contains_text(texts[p], needle)
            },
    decreases texts.len(),
{
    if texts.len() > 0 {
        let rest = texts.drop_last();
        law_matches_are_ordered_positions(rest, needle);
        let pr = positions_containing(rest, needle);
        let all = positions_containing(texts, needle);
        assert(all == (if contains_text(texts.last(), needle) {
            pr.push((texts.len() - 1) as usize)
        } else {
            pr
        }));
        assert forall|a: int| 0 <= a < pr.len() implies pr[a] < texts.len() - 1 by {
            let p = pr[a] as int;
            assert(0 <= p < rest.len());
        }
        assert forall|a: int| 0 <= a < all.len() implies
            0 <= all[a] < texts.len() && contains_text(texts[all[a] as int], needle) by {
            if a < pr.len() {
                assert(all[a] == pr[a]);
                let p = pr[a] as int;
                assert(0 <= p < rest.len() && contains_text(rest[p], needle));
                assert(texts[p] == rest[p]);
            } else {
                assert(all[a] == texts.len() - 1);
            }
        }
        assert forall|a: int, b: int| 0 <= a < b < all.len() implies all[a] < all[b] by {
            if b < pr.len() {
                assert(all[a] == pr[a] && all[b] == pr[b]);
            } else {
                assert(all[a] == pr[a]);
                assert(all[b] == texts.len() - 1);
            }
        }
    }
}


/// Declares `std::path::PathBuf` to Verus as an opaque type: the state
/// carries the repository path through to the caller, who reads the
/// repository again from it, without looking inside.
#[verifier::external_type_specification]
#[verifier::external_body]
pub struct ExPathBuf(std::path::PathBuf);

/// What the caller has to do after an event.
#[derive(Clone, Copy, PartialEq, Eq, Structural, Debug)]
pub enum Effect {
    /// Nothing: draw the next frame.
    Continue,
    /// Leave the application.
    Quit,
    /// Read the repository again and hand it to [`App::finish_reload`].
    Reload(ReloadCause),
}

/// Why the repository is read again.
#[derive(Clone, Copy, PartialEq, Eq, Structural, Debug)]
pub enum ReloadCause {
    /// The user asked for a refresh.
    Refresh,
    /// The user switched between local and all branches.
    ToggleAll,
}

/// The application state.
pub struct App {
    pub repo_path: PathBuf,
    pub show_all: bool,
    pub max_commits: usize,
    /// Resolved colour palette.
    pub theme: Theme,
    pub repo_data: RepoData,
    pub graph_rows: Vec<GraphRow>,
    /// Lookup from commit id to its index in `graph_rows`.
    pub graph_index: HashMap<CommitId, usize>,
    pub focus: Focus,
    pub branch_offset: usize,
    pub branch_selected: usize,
    pub graph_offset: usize,
    pub graph_selected: usize,
    /// Commits of the selected branch, newest first.
    pub active_branch_oids: Vec<CommitId>,
    pub search_mode: bool,
    pub search_query: String,
    /// Indices into `repo_data.branches`.
    pub search_matches: Vec<usize>,
    pub search_match_idx: usize,
    pub status_msg: Option<String>,
}

/// Maps every row's commit id to its position (the last one wins).
fn index_graph_rows(rows: &Vec<GraphRow>) -> (r: HashMap<CommitId, usize>)
    ensures
        r@ == row_index(row_models(rows@)),
{
    let mut m: HashMap<CommitId, usize> = HashMap::new();
    let mut i: usize = 0;
    assert(row_models(rows@.take(0)) =~= Seq::<RowModel>::empty());
    while i < rows.len()
        invariant
            i <= rows@.len(),
            m@ == row_index(row_models(rows@.take(i as int))),
        decreases rows@.len() - i,
    {
        proof {
            let t = row_models(rows@.take(i + 1));
            assert(t.drop_last() =~= row_models(rows@.take(i as int)));
            assert(t.last() == rows@[i as int]@);
        }
        id_map_insert(&mut m, rows[i].oid, i);
        i += 1;
    }
    assert(rows@.take(i as int) =~= rows@);
    m
}

/// Builds the rows of a loaded repository and their index.
fn layout(repo_data: &RepoData) -> (r: (Vec<GraphRow>, HashMap<CommitId, usize>))
    ensures
        row_models(r.0@) == graph_rows(repo_data@.topo_order, repo_data@.commits),
        r.1@ == row_index(graph_rows(repo_data@.topo_order, repo_data@.commits)),
{
    let rows = build_graph(repo_data.topo_order.as_slice(), &repo_data.commits, &repo_data.oid_to_branches);
    assert(row_models(rows@) =~= graph_rows(repo_data@.topo_order, repo_data@.commits));
    let index = index_graph_rows(&rows);
    (rows, index)
}

impl App {
    /// The application state for a freshly loaded repository, with the
    /// first branch selected.
    pub fn new(
        repo_path: PathBuf,
        show_all: bool,
        max_commits: usize,
        no_color: bool,
        repo_data: RepoData,
    ) -> (app: App)
        ensures
            app@ == initial_model(repo_path, show_all, max_commits, no_color, repo_data@),
    {
        let (graph_rows, graph_index) = layout(&repo_data);
        let mut app = App {
            repo_path,
            show_all,
            max_commits,
            theme: Theme::new(no_color),
            repo_data,
            graph_rows,
            graph_index,
            focus: Focus::BranchList,
            branch_offset: 0,
            branch_selected: 0,
            graph_offset: 0,
            graph_selected: 0,
            active_branch_oids: Vec::new(),
            search_mode: false,
            search_query: String::new(),
            search_matches: Vec::new(),
            search_match_idx: 0,
            status_msg: None,
        };
        app.select_branch(0);
        app
    }

    /// Shows the history of branch `idx`.
    fn select_branch(&mut self, idx: usize)
        ensures
            final(self)@ == select_branch_model(old(self)@, idx as int),
    {
        if idx >= self.repo_data.branches.len() {
            self.active_branch_oids = Vec::new();
            assert(self@ =~= select_branch_model(old(self)@, idx as int));
            return;
        }
        let tip = self.repo_data.branches[idx].tip_oid;
        self.active_branch_oids = branch_commits(&self.repo_data.topo_order, &self.repo_data.commits, tip);
        self.graph_selected = 0;
        self.graph_offset = 0;
        assert(self@ =~= select_branch_model(old(self)@, idx as int));
    }

    /// Takes in the repository read again.
    pub fn reload(&mut self, repo_data: RepoData)
        ensures
            final(self)@ == reload_model(old(self)@, repo_data@),
    {
        let ghost m = self@;
        let (graph_rows, graph_index) = layout(&repo_data);
        self.repo_data = repo_data;
        self.graph_rows = graph_rows;
        self.graph_index = graph_index;
        let n = self.repo_data.branches.len();
        let last = if n > 0 { n - 1 } else { 0 };
        let sel = if self.branch_selected < last { self.branch_selected } else { last };
        self.branch_selected = sel;
        if sel < self.branch_offset {
            self.branch_offset = sel;
        }
        self.select_branch(sel);
        self.search_query = String::new();
        self.search_matches = Vec::new();
        self.status_msg = Some(String::from_str("Refreshed"));
        assert(self@ =~= reload_model(m, repo_data@));
    }

    /// Takes in the repository read again after an [`Effect::Reload`].
    pub fn finish_reload(&mut self, repo_data: RepoData, cause: ReloadCause)
        ensures
            final(self)@ == finish_reload_model(old(self)@, repo_data@, cause),
    {
        let ghost m = self@;
        self.reload(repo_data);
        match cause {
            ReloadCause::Refresh => {},
            ReloadCause::ToggleAll => {
                self.status_msg = Some(
                    if self.show_all {
                        String::from_str("Showing all branches (local + remote)")
                    } else {
                        String::from_str("Showing local branches only")
                    },
                );
                assert(self@ =~= finish_reload_model(m, repo_data@, cause));
            },
        }
    }
}


impl App {
    /// The selected branch, if the cursor is on one.
    pub fn selected_branch(&self) -> (r: Option<&BranchInfo>)
        ensures
            match r {
                Some(b) => self.branch_selected < self.repo_data.branches@.len()
                    && *b == self.repo_data.branches@[self.branch_selected as int],
                None => self.branch_selected >= self.repo_data.branches@.len(),
            },
    {
        if self.branch_selected < self.repo_data.branches.len() {
            Some(&self.repo_data.branches[self.branch_selected])
        } else {
            None
        }
    }

    /// The search highlight of branch `idx`.
    pub fn search_highlight(&self, idx: usize) -> (r: Option<SearchHighlight>)
        ensures
            r == search_highlight_of(idx, self.search_query@, self.search_matches@, self.search_match_idx),
    {
        compute_search_highlight(idx, self.search_query.as_str(), self.search_matches.as_slice(), self.search_match_idx)
    }

    /// The commit under the commit cursor, if any.
    pub fn selected_commit_oid(&self) -> (r: Option<CommitId>)
        ensures
            r == (if self.graph_selected < self.active_branch_oids@.len() {
                Some(self.active_branch_oids@[self.graph_selected as int])
            } else {
                None
            }),
    {
        if self.graph_selected < self.active_branch_oids.len() {
            Some(self.active_branch_oids[self.graph_selected])
        } else {
            None
        }
    }

    /// Reacts to an event and says what the caller has to do next.
    pub fn handle_event(&mut self, event: AppEvent) -> (r: Effect)
        ensures
            (final(self)@, r) == event_model(old(self)@, event),
    {
        match event {
            AppEvent::Tick => Effect::Continue,
            AppEvent::Key(key) => {
                if self.search_mode {
                    self.handle_search_key(key);
                    return Effect::Continue;
                }
                match key_to_action(key) {
                    None => Effect::Continue,
                    Some(action) => {
                        if self.focus == Focus::Help {
                            if action == Action::Escape || action == Action::Help || action == Action::Quit {
                                self.focus = Focus::BranchList;
                            }
                            return Effect::Continue;
                        }
                        self.handle_action(action)
                    },
                }
            },
        }
    }

    fn handle_action(&mut self, action: Action) -> (r: Effect)
        ensures
            (final(self)@, r) == action_model(old(self)@, action),
    {
        let ghost m = self@;
        self.status_msg = None;
        let ghost m0 = self@;
        assert(m0 =~= AppModel { status_msg: None, ..m });
        match action {
            Action::Quit => {
                return Effect::Quit;
            },
            Action::Help => {
                self.focus = Focus::Help;
            },
            Action::Refresh => {
                return Effect::Reload(ReloadCause::Refresh);
            },
            Action::ToggleAll => {
                self.show_all = !self.show_all;
                return Effect::Reload(ReloadCause::ToggleAll);
            },
            Action::Search => {
                self.search_mode = true;
                self.search_query = String::new();
                self.search_matches = Vec::new();
            },
            Action::SearchNext => self.advance_search(true),
            Action::SearchPrev => self.advance_search(false),
            Action::ClearSearch => {
                self.search_query = String::new();
                self.search_matches = Vec::new();
            },
            Action::Escape => {
                if self.focus == Focus::CommitGraph {
                    self.focus = Focus::BranchList;
                } else {
                    self.search_query = String::new();
                    self.search_matches = Vec::new();
                }
            },
            Action::SelectBranch | Action::Enter => {
                if self.focus == Focus::BranchList {
                    self.focus = Focus::CommitGraph;
                }
            },
            Action::MoveUp => self.move_selection(-1),
            Action::MoveDown => self.move_selection(1),
            Action::PageUp => self.move_selection(-10),
            Action::PageDown => self.move_selection(10),
            Action::Top => self.move_to(0),
            Action::Bottom => {
                let len = self.list_len();
                if len > 0 {
                    self.move_to(len - 1);
                }
            },
            Action::Char(_) | Action::Backspace => {},
        }
        assert(self@ =~= action_model(m, action).0);
        Effect::Continue
    }

    /// Number of rows in the focused list.
    fn list_len(&self) -> (r: usize)
        ensures
            r == list_len_model(self@),
    {
        match self.focus {
            Focus::CommitGraph => self.active_branch_oids.len(),
            _ => self.repo_data.branches.len(),
        }
    }

    /// Moves the cursor of the focused list by `delta` rows.
    fn move_selection(&mut self, delta: i64)
        requires
            -10 <= delta <= 10,
        ensures
            final(self)@ == move_selection_model(old(self)@, delta as int),
    {
        let ghost m = self@;
        match self.focus {
            Focus::BranchList => {
                let len = self.repo_data.branches.len();
                if len == 0 {
                    return;
                }
                let new = step_index(self.branch_selected, delta, len);
                if new != self.branch_selected {
                    self.branch_selected = new;
                    self.select_branch(new);
                }
            },
            Focus::CommitGraph => {
                let len = self.active_branch_oids.len();
                if len == 0 {
                    return;
                }
                self.graph_selected = step_index(self.graph_selected, delta, len);
                assert(self@ =~= move_selection_model(m, delta as int));
            },
            Focus::Help => {},
        }
    }

    /// Moves the cursor of the focused list to row `idx` (or the last row).
    fn move_to(&mut self, idx: usize)
        ensures
            final(self)@ == move_to_model(old(self)@, idx as int),
    {
        let ghost m = self@;
        match self.focus {
            Focus::BranchList => {
                let len = self.repo_data.branches.len();
                if len == 0 {
                    return;
                }
                self.branch_selected = if idx < len - 1 { idx } else { len - 1 };
                self.select_branch(self.branch_selected);
            },
            Focus::CommitGraph => {
                let len = self.active_branch_oids.len();
                if len == 0 {
                    return;
                }
                self.graph_selected = if idx < len - 1 { idx } else { len - 1 };
                assert(self@ =~= move_to_model(m, idx as int));
            },
            Focus::Help => {},
        }
    }

    /// Handles a key while the search prompt is open.
    fn handle_search_key(&mut self, key: KeyEvent)
        ensures
            final(self)@ == search_key_model(old(self)@, key),
    {
        let ghost m = self@;
        match key.code {
            KeyCode::Esc => {
                self.search_mode = false;
                self.search_query = String::new();
                self.search_matches = Vec::new();
                assert(self@ =~= search_key_model(m, key));
            },
            KeyCode::Enter => {
                self.search_mode = false;
                if self.search_matches.len() > 0 {
                    let first = self.search_matches[0];
                    self.branch_selected = first;
                    self.select_branch(first);
                }
                assert(self@ =~= search_key_model(m, key));
            },
            KeyCode::Backspace => {
                pop_char(&mut self.search_query);
                self.update_search();
            },
            KeyCode::Char(c) => {
                push_char(&mut self.search_query, c);
                self.update_search();
            },
            _ => {},
        }
    }

    /// Re-runs the search on the current query.
    fn update_search(&mut self)
        ensures
            final(self)@ == update_search_model(old(self)@),
    {
        let ghost m = self@;
        let mut names: Vec<String> = Vec::new();
        let mut i: usize = 0;
        while i < self.repo_data.branches.len()
            invariant
                i <= self.repo_data.branches@.len(),
                names@.len() == i,
                forall|j: int| 0 <= j < i ==> names@[j]@ == self.repo_data.branches@[j].name@,
            decreases self.repo_data.branches@.len() - i,
        {
            names.push(self.repo_data.branches[i].name.clone());
            i += 1;
        }
        let matches = matching_branch_indices(names.as_slice(), self.search_query.as_str());
        assert(lowercased(names@) =~= lowercased(branch_names(m)));
        self.search_matches = matches;
        self.search_match_idx = 0;
        if self.search_matches.len() > 0 {
            let first = self.search_matches[0];
            self.branch_selected = first;
            self.select_branch(first);
        }
        assert(self@ =~= update_search_model(m));
    }

    /// Steps the match cursor forward (or back) and selects that branch.
    fn advance_search(&mut self, forward: bool)
        ensures
            final(self)@ == advance_search_model(old(self)@, if forward { 1 } else { -1 }),
    {
        let ghost m = self@;
        let len = self.search_matches.len();
        if len == 0 {
            return;
        }
        let cur = self.search_match_idx % len;
        let idx = if forward {
            if cur + 1 == len { 0 } else { cur + 1 }
        } else {
            if cur == 0 { len - 1 } else { cur - 1 }
        };
        proof {
            let d: int = if forward { 1 } else { -1 };
            let sidx = m.search_match_idx as int;
            let n = len as int;
            let q = sidx / n;
            vstd::arithmetic::div_mod::lemma_fundamental_div_mod(sidx, n);
            assert(sidx == q * n + cur) by (nonlinear_arith)
                requires sidx == n * (sidx / n) + sidx % n, q == sidx / n, cur == sidx % n;
            if forward {
                if cur + 1 == len {
                    assert(sidx + d == (q + 1) * n + 0) by (nonlinear_arith)
                        requires sidx == q * n + cur, cur + 1 == n, d == 1;
                    vstd::arithmetic::div_mod::lemma_fundamental_div_mod_converse(sidx + d, n, q + 1, 0);
                } else {
                    vstd::arithmetic::div_mod::lemma_fundamental_div_mod_converse(sidx + d, n, q, cur + 1);
                }
            } else {
                if cur == 0 {
                    assert(sidx + d == (q - 1) * n + (n - 1)) by (nonlinear_arith)
                        requires sidx == q * n + cur, cur == 0, d == -1;
                    vstd::arithmetic::div_mod::lemma_fundamental_div_mod_converse(sidx + d, n, q - 1, n - 1);
                } else {
                    vstd::arithmetic::div_mod::lemma_fundamental_div_mod_converse(sidx + d, n, q, cur - 1);
                }
            }
            assert(idx == (sidx + d) % n);
        }
        self.search_match_idx = idx;
        let b = self.search_matches[idx];
        self.branch_selected = b;
        self.select_branch(b);
    }

    /// Scrolls the branch list so that the cursor stays in a viewport of
    /// `viewport_height` rows.
    pub fn scroll_branch_list(&mut self, viewport_height: usize)
        requires
            viewport_height == 0 || old(self).branch_selected < old(self).branch_offset
                || old(self).branch_offset + viewport_height <= usize::MAX,
        ensures
            final(self)@ == (AppModel {
                branch_offset: visible_offset(old(self).branch_offset, old(self).branch_selected, viewport_height),
                ..old(self)@
            }),
    {
        let ghost m = self@;
        self.branch_offset = keep_selection_visible(self.branch_offset, self.branch_selected, viewport_height);
        assert(self@ =~= (AppModel { branch_offset: self.branch_offset, ..m }));
    }

    /// Scrolls the commit list so that the cursor stays in a viewport of
    /// `viewport_height` rows.
    pub fn scroll_graph(&mut self, viewport_height: usize)
        requires
            viewport_height == 0 || old(self).graph_selected < old(self).graph_offset
                || old(self).graph_offset + viewport_height <= usize::MAX,
        ensures
            final(self)@ == (AppModel {
                graph_offset: visible_offset(old(self).graph_offset, old(self).graph_selected, viewport_height),
                ..old(self)@
            }),
    {
        let ghost m = self@;
        self.graph_offset = keep_selection_visible(self.graph_offset, self.graph_selected, viewport_height);
        assert(self@ =~= (AppModel { graph_offset: self.graph_offset, ..m }));
    }
}

/// `sel + delta` kept within `0 ..= len - 1`.
fn step_index(sel: usize, delta: i64, len: usize) -> (r: usize)
    requires
        len > 0,
        -10 <= delta <= 10,
    ensures
        r == clamp_index(sel as int, delta as int, len as int),
{
    if delta < 0 {
        let d = (0 - delta) as usize;
        let down = if sel < d { 0 } else { sel - d };
        if down > len - 1 { len - 1 } else { down }
    } else {
        let d = delta as usize;
        if sel > len - 1 || d > (len - 1) - sel { len - 1 } else { sel + d }
    }
}


} // verus!

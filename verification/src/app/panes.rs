//! What the commit and detail panes show: the part of the shown history
//! inside the viewport, each commit with its place in the graph, and the
//! lines describing the commit under the cursor.

use vstd::prelude::*;
use crate::app::{App, Focus};
use crate::app::model::AppModel;
use crate::app::laws::{law_shown_commits_have_rows, rows_match_repo};
use crate::git::oid::oid_hex_prefix;
use crate::git::time::{format_relative_time_with_now, relative_time_text};
use crate::git::types::{BranchInfo, CommitId, CommitInfo};
use crate::graph::render::{prefix_text, render_graph_prefix};
use crate::idmap::id_map_get;
use crate::strings::{chars_of, decimal, push_char};
use crate::ui::layout::{message_room, total_width};
use crate::ui::text::{
    branch_marker, branch_marker_text, branch_name_color, branch_name_text, detail_label, divergence_marks, oid_text,
    parents_line, parents_text, row_labels,
};
use crate::ui::theme::{truncate_str, truncate_text, Color, Theme};

verus! {

/// A commit row of the commit pane.
pub struct ShownCommit {
    /// Position in the shown history.
    pub index: usize,
    pub oid: CommitId,
    /// Whether the row is drawn highlighted as the cursor row.
    pub selected: bool,
    /// The graph glyphs drawn before the commit.
    pub prefix: String,
}

/// The mathematical content of a commit row.
pub struct ShownCommitModel {
    pub index: int,
    pub oid: CommitId,
    pub selected: bool,
    pub prefix: Seq<char>,
}

impl View for ShownCommit {
    type V = ShownCommitModel;

    open spec fn view(&self) -> ShownCommitModel {
        ShownCommitModel {
            index: self.index as int,
            oid: self.oid,
            selected: self.selected,
            prefix: self.prefix@,
        }
    }
}

/// The graph glyphs of commit `o`: those of its row, found through the
/// index, or a lone node when the index leads to no row.
pub open spec fn shown_prefix(m: AppModel, o: CommitId) -> Seq<char> {
    if m.graph_index.contains_key(o) && m.graph_index[o] < m.graph_rows.len() {
        prefix_text(m.graph_rows[m.graph_index[o] as int])
    } else {
        seq!['●', ' ']
    }
}

/// The row drawn for position `idx` of the shown history; it is highlighted
/// when it is under the commit cursor and the commit pane has the focus.
pub open spec fn shown_entry(m: AppModel, idx: int) -> ShownCommitModel {
    let o = m.active_branch_oids[idx];
    ShownCommitModel {
        index: idx,
        oid: o,
        selected: idx == m.graph_selected && m.focus == Focus::CommitGraph,
        prefix: shown_prefix(m, o),
    }
}

/// How many positions of the shown history a viewport of `height` rows
/// scrolled to the commit offset covers.
pub open spec fn window_len(m: AppModel, height: nat) -> nat {
    let len = m.active_branch_oids.len();
    if m.graph_offset >= len {
        0
    } else if height < len - m.graph_offset {
        height
    } else {
        (len - m.graph_offset) as nat
    }
}

/// The rows for the first `k` positions from the commit offset, leaving out
/// a commit the repository did not load.
pub open spec fn shown_rows_upto(m: AppModel, k: nat) -> Seq<ShownCommitModel>
    decreases k,
{
    if k == 0 {
        Seq::empty()
    } else {
        let rest = shown_rows_upto(m, (k - 1) as nat);
        let idx = m.graph_offset + k - 1;
        if m.repo.commits.contains_key(m.active_branch_oids[idx]) {
            rest.push(shown_entry(m, idx))
        } else {
            rest
        }
    }
}

/// The rows the commit pane draws in a viewport of `height` rows.
pub open spec fn shown_rows(m: AppModel, height: nat) -> Seq<ShownCommitModel> {
    shown_rows_upto(m, window_len(m, height))
}

impl App {
    /// The commit rows to draw in a viewport of `height` rows, in order.
    pub fn shown_commits(&self, height: usize) -> (r: Vec<ShownCommit>)
        requires
            forall|i: int| 0 <= i < self.graph_rows@.len() ==> #[trigger] self.graph_rows@[i].col < usize::MAX,
        ensures
            r@.map_values(|s: ShownCommit| s@) == shown_rows(self@, height as nat),
    {
        let ghost m = self@;
        let len = self.active_branch_oids.len();
        let start = self.graph_offset;
        let count: usize = if start >= len {
            0
        } else if height < len - start {
            height
        } else {
            len - start
        };
        let mut out: Vec<ShownCommit> = Vec::new();
        let mut k: usize = 0;
        while k < count
            invariant
                m == self@,
                count == window_len(m, height as nat),
                start == self.graph_offset,
                len == self.active_branch_oids@.len(),
                count > 0 ==> start + count <= len,
                k <= count,
                out@.map_values(|s: ShownCommit| s@) == shown_rows_upto(m, k as nat),
                forall|i: int| 0 <= i < self.graph_rows@.len() ==> #[trigger] self.graph_rows@[i].col < usize::MAX,
            decreases count - k,
        {
            let idx = start + k;
            let oid = self.active_branch_oids[idx];
            let ghost before = out@.map_values(|s: ShownCommit| s@);
            if id_map_get(&self.repo_data.commits, &oid).is_some() {
                let prefix = match id_map_get(&self.graph_index, &oid) {
                    Some(i) => {
                        if *i < self.graph_rows.len() {
                            assert(m.graph_rows[*i as int] == self.graph_rows@[*i as int]@);
                            render_graph_prefix(&self.graph_rows[*i])
                        } else {
                            let mut s = String::new();
                            push_char(&mut s, '●');
                            push_char(&mut s, ' ');
                            assert(s@ =~= seq!['●', ' ']);
                            s
                        }
                    },
                    None => {
                        let mut s = String::new();
                        push_char(&mut s, '●');
                        push_char(&mut s, ' ');
                        assert(s@ =~= seq!['●', ' ']);
                        s
                    },
                };
                assert(prefix@ == shown_prefix(m, oid));
                let selected = idx == self.graph_selected && self.focus == Focus::CommitGraph;
                let row = ShownCommit { index: idx, oid, selected, prefix };
                assert(row@ == shown_entry(m, idx as int));
                out.push(row);
                assert(out@.map_values(|s: ShownCommit| s@) =~= before.push(shown_entry(m, idx as int)));
            }
            k += 1;
        }
        out
    }
}

/// A line of the detail pane.
pub enum DetailLine {
    /// A field: its label, drawn dimmed, then its value in `color`.
    Field { label: String, value: String, color: Color },
    /// An empty line.
    Blank,
    /// The commit message.
    Message(String),
    /// The branch labels pointing at the commit.
    Labels(Vec<String>),
}

/// The mathematical content of a detail line.
pub enum DetailLineModel {
    Field { label: Seq<char>, value: Seq<char>, color: Color },
    Blank,
    Message(Seq<char>),
    Labels(Seq<Seq<char>>),
}

/// The character views of a list of strings.
pub open spec fn texts_view(v: Seq<String>) -> Seq<Seq<char>> {
    v.map_values(|t: String| t@)
}

impl View for DetailLine {
    type V = DetailLineModel;

    open spec fn view(&self) -> DetailLineModel {
        match self {
            DetailLine::Field { label, value, color } => DetailLineModel::Field {
                label: label@,
                value: value@,
                color: *color,
            },
            DetailLine::Blank => DetailLineModel::Blank,
            DetailLine::Message(t) => DetailLineModel::Message(t@),
            DetailLine::Labels(v) => DetailLineModel::Labels(texts_view(v@)),
        }
    }
}

/// The detail lines of commit `c` with id `oid`: its full id, author, age
/// and, when it has any, its parents; then a blank line and the message;
/// then, when branches point at it, a blank line and their labels.
pub open spec fn commit_detail_lines(
    theme: Theme,
    oid: CommitId,
    c: CommitInfo,
    labels: Option<Seq<Seq<char>>>,
    now: i64,
) -> Seq<DetailLineModel> {
    let fields = seq![
        DetailLineModel::Field { label: "commit  "@, value: oid_hex_prefix(oid, 40), color: theme.hash },
        DetailLineModel::Field { label: "author  "@, value: c.author@, color: theme.local },
        DetailLineModel::Field { label: "date    "@, value: relative_time_text(c.time, now), color: theme.dim },
    ];
    let parents = if c.parent_oids@.len() > 0 {
        seq![DetailLineModel::Field { label: "parents "@, value: parents_line(c.parent_oids@), color: theme.dim }]
    } else {
        Seq::empty()
    };
    let message = seq![DetailLineModel::Blank, DetailLineModel::Message(c.message@)];
    let tail = match labels {
        Some(ls) => seq![
            DetailLineModel::Blank,
            DetailLineModel::Labels(ls.map_values(|l: Seq<char>| "["@ + l + "]"@)),
        ],
        None => Seq::empty(),
    };
    fields + parents + message + tail
}

/// The detail pane: the lines of the commit under the commit cursor, or
/// nothing when the cursor is on no loaded commit.
pub open spec fn detail_lines_model(m: AppModel, now: i64) -> Seq<DetailLineModel> {
    if m.graph_selected < m.active_branch_oids.len() && m.repo.commits.contains_key(
        m.active_branch_oids[m.graph_selected as int],
    ) {
        let oid = m.active_branch_oids[m.graph_selected as int];
        commit_detail_lines(
            m.theme,
            oid,
            m.repo.commits[oid],
            if m.repo.oid_to_branches.contains_key(oid) {
                Some(texts_view(m.repo.oid_to_branches[oid]@))
            } else {
                None
            },
            now,
        )
    } else {
        Seq::empty()
    }
}

impl App {
    /// The lines of the detail pane, with `now` the current time.
    pub fn detail_lines(&self, now: i64) -> (r: Vec<DetailLine>)
        ensures
            r@.map_values(|l: DetailLine| l@) == detail_lines_model(self@, now),
    {
        let ghost m = self@;
        let mut out: Vec<DetailLine> = Vec::new();
        let oid = match self.selected_commit_oid() {
            Some(o) => o,
            None => {
                assert(out@.map_values(|l: DetailLine| l@) =~= detail_lines_model(m, now));
                return out;
            },
        };
        let commit = match id_map_get(&self.repo_data.commits, &oid) {
            Some(c) => c,
            None => {
                assert(out@.map_values(|l: DetailLine| l@) =~= detail_lines_model(m, now));
                return out;
            },
        };
        let theme = &self.theme;
        out.push(DetailLine::Field { label: String::from_str("commit  "), value: oid_text(oid), color: theme.hash });
        out.push(DetailLine::Field { label: String::from_str("author  "), value: commit.author.clone(), color: theme.local });
        out.push(DetailLine::Field {
            label: String::from_str("date    "),
            value: format_relative_time_with_now(commit.time, now),
            color: theme.dim,
        });
        if commit.parent_oids.len() > 0 {
            out.push(DetailLine::Field {
                label: String::from_str("parents "),
                value: parents_text(&commit.parent_oids),
                color: theme.dim,
            });
        }
        out.push(DetailLine::Blank);
        out.push(DetailLine::Message(commit.message.clone()));
        let ghost labels_model: Option<Seq<Seq<char>>> = None;
        match id_map_get(&self.repo_data.oid_to_branches, &oid) {
            Some(names) => {
                let mut labels: Vec<String> = Vec::new();
                let mut i: usize = 0;
                while i < names.len()
                    invariant
                        i <= names@.len(),
                        labels@.len() == i,
                        forall|j: int| 0 <= j < i ==> #[trigger] labels@[j]@ == "["@ + names@[j]@ + "]"@,
                    decreases names@.len() - i,
                {
                    labels.push(detail_label(names[i].as_str()));
                    i += 1;
                }
                assert(texts_view(labels@) =~= texts_view(names@).map_values(|l: Seq<char>| "["@ + l + "]"@));
                proof {
                    labels_model = Some(texts_view(names@));
                }
                out.push(DetailLine::Blank);
                out.push(DetailLine::Labels(labels));
            },
            None => {},
        }
        proof {
            reveal_strlit("commit  ");
            reveal_strlit("author  ");
            reveal_strlit("date    ");
            reveal_strlit("parents ");
        }
        assert(out@.map_values(|l: DetailLine| l@) =~= commit_detail_lines(m.theme, oid, *commit, labels_model, now));
        out
    }
}

/// The texts of a commit row after its graph glyphs.
pub struct CommitRowText {
    /// Labels of the first two branches at the commit, each `"[name] "`.
    pub labels: Vec<String>,
    /// The short id and a space.
    pub id: String,
    /// The message, cut to the room left in the row.
    pub message: String,
    /// A space and the commit's age.
    pub age: String,
}

/// The mathematical content of a commit row's texts.
pub struct CommitRowTextModel {
    pub labels: Seq<Seq<char>>,
    pub id: Seq<char>,
    pub message: Seq<char>,
    pub age: Seq<char>,
}

impl View for CommitRowText {
    type V = CommitRowTextModel;

    open spec fn view(&self) -> CommitRowTextModel {
        CommitRowTextModel {
            labels: texts_view(self.labels@),
            id: self.id@,
            message: self.message@,
            age: self.age@,
        }
    }
}

/// The row labels of the branch names at a commit: the first two, each as
/// `"[name] "`.
pub open spec fn row_label_texts(names: Option<Seq<Seq<char>>>) -> Seq<Seq<char>> {
    match names {
        Some(ns) => ns.take(if ns.len() < 2 { ns.len() as int } else { 2 }).map_values(|n: Seq<char>| "["@ + n + "] "@),
        None => Seq::empty(),
    }
}

/// The texts of the row of commit `c` drawn after the glyphs `prefix` in a
/// row `width` columns wide: its labels, its short id, the message cut to
/// the columns the glyphs, labels, id and eight for the age leave, and the
/// age.
pub open spec fn commit_row_model(
    prefix: Seq<char>,
    names: Option<Seq<Seq<char>>>,
    c: CommitInfo,
    width: usize,
    now: i64,
) -> CommitRowTextModel {
    let labels = row_label_texts(names);
    let id = c.short_id@ + " "@;
    let used = total_width(prefix.map_values(|ch: char| seq![ch]) + labels + seq![id]);
    let room: nat = if used + 8 < width { (width - used - 8) as nat } else { 0 };
    CommitRowTextModel {
        labels,
        id,
        message: truncate_text(c.message@, room),
        age: " "@ + relative_time_text(c.time, now),
    }
}

/// The texts of a commit row, given its glyphs, the branch names at the
/// commit, the row's width and the current time.
pub fn commit_row_text(
    prefix: &str,
    names: Option<&Vec<String>>,
    commit: &CommitInfo,
    width: usize,
    now: i64,
) -> (r: CommitRowText)
    ensures
        r@ == commit_row_model(
            prefix@,
            match names {
                Some(ns) => Some(texts_view(ns@)),
                None => None,
            },
            *commit,
            width,
            now,
        ),
{
    let glyphs = chars_of(prefix);
    let mut parts: Vec<String> = Vec::new();
    let mut i: usize = 0;
    while i < glyphs.len()
        invariant
            i <= glyphs@.len(),
            parts@.len() == i,
            forall|j: int| 0 <= j < i ==> #[trigger] parts@[j]@ == seq![glyphs@[j]],
        decreases glyphs@.len() - i,
    {
        let mut g = String::new();
        push_char(&mut g, glyphs[i]);
        assert(g@ =~= seq![glyphs@[i as int]]);
        parts.push(g);
        i += 1;
    }
    let ghost glyph_texts = parts@;
    let labels: Vec<String> = match names {
        Some(ns) => row_labels(ns),
        None => Vec::new(),
    };
    let ghost label_model = row_label_texts(
        match names {
            Some(ns) => Some(texts_view(ns@)),
            None => None,
        },
    );
    assert(texts_view(labels@) =~= label_model);
    let mut k: usize = 0;
    while k < labels.len()
        invariant
            k <= labels@.len(),
            parts@.len() == glyph_texts.len() + k,
            forall|j: int| 0 <= j < glyph_texts.len() ==> #[trigger] parts@[j] == glyph_texts[j],
            forall|j: int| 0 <= j < k ==> #[trigger] parts@[glyph_texts.len() + j]@ == labels@[j]@,
        decreases labels@.len() - k,
    {
        parts.push(labels[k].clone());
        k += 1;
    }
    let mut id = commit.short_id.clone();
    push_char(&mut id, ' ');
    parts.push(id.clone());
    proof {
        reveal_strlit(" ");
        assert(id@ =~= commit.short_id@ + " "@);
        let whole = prefix@.map_values(|ch: char| seq![ch]) + label_model + seq![id@];
        let g = glyph_texts.len() as int;
        let n = labels@.len() as int;
        assert(parts@.len() == whole.len());
        assert forall|j: int| 0 <= j < parts@.len() implies #[trigger] parts@[j]@ == whole[j] by {
            if j < g {
                assert(parts@[j] == glyph_texts[j]);
            } else if j < g + n {
                assert(parts@[g + (j - g)]@ == labels@[j - g]@);
                assert(texts_view(labels@)[j - g] == label_model[j - g]);
            }
        }
        assert(parts@.map_values(|p: String| p@) =~= whole);
    }
    let room = message_room(width, &parts);
    let message = truncate_str(commit.message.as_str(), room);
    let mut age = String::from_str(" ");
    let when = format_relative_time_with_now(commit.time, now);
    age.append(when.as_str());
    CommitRowText { labels, id, message, age }
}

/// The texts of a branch row of the branch pane.
pub struct BranchRowText {
    /// `"* "` for HEAD, `"↑ "` for a remote branch, else two spaces.
    pub marker: String,
    /// The name, cut to the pane's width less twelve columns.
    pub name: String,
    /// The colour of the marker and the name.
    pub name_color: Color,
    /// Whether the name is drawn bold (the HEAD branch).
    pub bold: bool,
    /// The commits ahead of and behind the upstream, when it has diverged.
    pub divergence: Option<(Option<String>, Option<String>)>,
    /// A space and the age of the tip.
    pub age: String,
}

/// The mathematical content of a branch row's texts.
pub struct BranchRowTextModel {
    pub marker: Seq<char>,
    pub name: Seq<char>,
    pub name_color: Color,
    pub bold: bool,
    pub divergence: Option<(Option<Seq<char>>, Option<Seq<char>>)>,
    pub age: Seq<char>,
}

/// The character view of an optional string.
pub open spec fn opt_view(s: Option<String>) -> Option<Seq<char>> {
    match s {
        Some(t) => Some(t@),
        None => None,
    }
}

impl View for BranchRowText {
    type V = BranchRowTextModel;

    open spec fn view(&self) -> BranchRowTextModel {
        BranchRowTextModel {
            marker: self.marker@,
            name: self.name@,
            name_color: self.name_color,
            bold: self.bold,
            divergence: match self.divergence {
                Some((up, down)) => Some((opt_view(up), opt_view(down))),
                None => None,
            },
            age: self.age@,
        }
    }
}

/// The divergence marks of a branch: nothing when unknown or level;
/// otherwise `↑n` for commits ahead and `↓n` for commits behind, each only
/// when non-zero.
pub open spec fn divergence_text(ahead_behind: Option<(usize, usize)>) -> Option<(Option<Seq<char>>, Option<Seq<char>>)> {
    match ahead_behind {
        Some((a, b)) => if a > 0 || b > 0 {
            Some((
                if a > 0 { Some("↑"@ + decimal(a as nat)) } else { None },
                if b > 0 { Some("↓"@ + decimal(b as nat)) } else { None },
            ))
        } else {
            None
        },
        None => None,
    }
}

/// The texts of the row of branch `b` in a pane `width` columns wide.
pub open spec fn branch_row_model(theme: Theme, b: BranchInfo, width: usize, now: i64) -> BranchRowTextModel {
    BranchRowTextModel {
        marker: branch_marker_text(b.is_head, b.is_remote),
        name: truncate_text(b.name@, if width > 12 { (width - 12) as nat } else { 0 }),
        name_color: if b.is_head {
            theme.head
        } else if b.is_remote {
            theme.remote
        } else {
            theme.local
        },
        bold: b.is_head,
        divergence: divergence_text(b.ahead_behind),
        age: " "@ + relative_time_text(b.tip_time, now),
    }
}

/// The texts of a branch row, given the pane's width and the current time.
pub fn branch_row_text(theme: &Theme, branch: &BranchInfo, width: usize, now: i64) -> (r: BranchRowText)
    ensures
        r@ == branch_row_model(*theme, *branch, width, now),
{
    let marker = String::from_str(branch_marker(branch.is_head, branch.is_remote));
    let name = branch_name_text(branch.name.as_str(), width);
    let name_color = branch_name_color(theme, branch.is_head, branch.is_remote);
    let divergence = divergence_marks(branch.ahead_behind);
    let mut age = String::from_str(" ");
    let when = format_relative_time_with_now(branch.tip_time, now);
    age.append(when.as_str());
    proof {
        reveal_strlit(" ");
    }
    let r = BranchRowText { marker, name, name_color, bold: branch.is_head, divergence, age };
    assert(r@.divergence == divergence_text(branch.ahead_behind));
    r
}

/// When the rows are those of the loaded repository, the commit pane draws
/// every position of its viewport, each commit with the glyphs of its own
/// graph row: no commit is left out and none falls back to a lone node.
pub proof fn law_viewport_rows_are_graph_rows(m: AppModel, height: nat)
    requires
        rows_match_repo(m),
        m.repo.topo_order.len() <= usize::MAX,
    ensures
        shown_rows(m, height).len() == window_len(m, height),
        forall|k: int|
            0 <= k < window_len(m, height) ==> {
                let row = #[trigger] shown_rows(m, height)[k];
                &&& row.index == m.graph_offset + k
                &&& row.oid == m.active_branch_oids[m.graph_offset + k]
                &&& row.prefix == prefix_text(m.graph_rows[m.graph_index[row.oid] as int])
                &&& m.graph_rows[m.graph_index[row.oid] as int].oid == row.oid
            },
{
    law_shown_commits_have_rows(m);
    lemma_rows_upto_full(m, window_len(m, height));
}

proof fn lemma_rows_upto_full(m: AppModel, k: nat)
    requires
        rows_match_repo(m),
        k == 0 || m.graph_offset + k <= m.active_branch_oids.len(),
        forall|j: int|
            0 <= j < m.active_branch_oids.len() ==> {
                let o = #[trigger] m.active_branch_oids[j];
                &&& m.graph_index.contains_key(o)
                &&& m.graph_index[o] < m.graph_rows.len()
                &&& m.graph_rows[m.graph_index[o] as int].oid == o
            },
    ensures
        shown_rows_upto(m, k).len() == k,
        forall|i: int|
            0 <= i < k ==> {
                let row = #[trigger] shown_rows_upto(m, k)[i];
                &&& row.index == m.graph_offset + i
                &&& row.oid == m.active_branch_oids[m.graph_offset + i]
                &&& row.prefix == prefix_text(m.graph_rows[m.graph_index[row.oid] as int])
                &&& m.graph_rows[m.graph_index[row.oid] as int].oid == row.oid
            },
    decreases k,
{
    if k > 0 {
        lemma_rows_upto_full(m, (k - 1) as nat);
        let idx = m.graph_offset + k - 1;
        let o = m.active_branch_oids[idx];
        assert(m.repo.commits.contains_key(o));
        let prev = shown_rows_upto(m, (k - 1) as nat);
        assert forall|i: int| 0 <= i < k implies {
            let row = #[trigger] shown_rows_upto(m, k)[i];
            &&& row.index == m.graph_offset + i
            &&& row.oid == m.active_branch_oids[m.graph_offset + i]
            &&& row.prefix == prefix_text(m.graph_rows[m.graph_index[row.oid] as int])
            &&& m.graph_rows[m.graph_index[row.oid] as int].oid == row.oid
        } by {
            if i < k - 1 {
                assert(shown_rows_upto(m, k)[i] == prev[i]);
            }
        }
    }
}

} // verus!

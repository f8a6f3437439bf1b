//! The text shown in the panes.

use vstd::prelude::*;
use crate::git::oid::{oid_hex_prefix, push_oid_hex};
use crate::git::types::CommitId;
use crate::strings::{chars_of, decimal, push_char, push_decimal};
use crate::ui::theme::{truncate_path, truncate_path_text, truncate_str, truncate_text, Color, Theme};

verus! {

/// The title bar: program name, the repository path shortened to fit
/// `width - 20` characters, and which branches are shown.
pub open spec fn title_bar_text(repo_path: Seq<char>, width: usize, show_all: bool) -> Seq<char> {
    let room: nat = if width > 20 { (width - 20) as nat } else { 0 };
    " gitopo  "@ + truncate_path_text(repo_path, room) + (if show_all { " [all]"@ } else { " [local]"@ }) + "  "@
}

/// The text of the title bar.
pub fn title_text(repo_path: &str, width: usize, show_all: bool) -> (r: String)
    ensures
        r@ == title_bar_text(repo_path@, width, show_all),
{
    let room = if width > 20 { width - 20 } else { 0 };
    let mut s = String::from_str(" gitopo  ");
    let shown = truncate_path(repo_path, room);
    s.append(shown.as_str());
    s.append(if show_all { " [all]" } else { " [local]" });
    s.append("  ");
    s
}

/// The key reminder shown in the status bar.
pub open spec fn key_hint() -> Seq<char> {
    " [?] help  [/] search  [a] toggle all  [r] refresh  [q] quit"@
}

/// The status bar: the status message when there is one, else the key
/// reminder followed by the current query, if any.
pub open spec fn status_bar_text(status_msg: Option<Seq<char>>, query: Seq<char>) -> Seq<char> {
    match status_msg {
        Some(m) => m,
        None => key_hint() + if query.len() > 0 {
            "  search: \""@ + query + "\""@
        } else {
            Seq::empty()
        },
    }
}

/// The text of the status bar.
pub fn status_text(status_msg: Option<&str>, search_query: &str) -> (r: String)
    ensures
        r@ == status_bar_text(
            match status_msg {
                Some(m) => Some(m@),
                None => None,
            },
            search_query@,
        ),
{
    match status_msg {
        Some(m) => m.to_owned(),
        None => {
            let mut s = String::from_str(" [?] help  [/] search  [a] toggle all  [r] refresh  [q] quit");
            if !search_query.is_empty() {
                s.append("  search: \"");
                s.append(search_query);
                s.append("\"");
            }
            s
        },
    }
}

/// The title of the branch pane, e.g. `" Branches (8) "`.
pub fn branch_list_title(count: usize) -> (r: String)
    ensures
        r@ == " Branches ("@ + decimal(count as nat) + ") "@,
{
    let mut s = String::from_str(" Branches (");
    push_decimal(&mut s, count as u64);
    s.append(") ");
    s
}

/// The title of the commit pane, e.g. `" main (47 commits) "`.
pub fn commit_list_title(branch_name: &str, count: usize) -> (r: String)
    ensures
        r@ == " "@ + branch_name@ + " ("@ + decimal(count as nat) + " commits) "@,
{
    let mut s = String::from_str(" ");
    s.append(branch_name);
    s.append(" (");
    push_decimal(&mut s, count as u64);
    s.append(" commits) ");
    s
}

/// The marker in front of a branch name: `* ` for HEAD, `↑ ` for a remote
/// branch, blank otherwise.
pub open spec fn branch_marker_text(is_head: bool, is_remote: bool) -> Seq<char> {
    if is_head {
        "* "@
    } else if is_remote {
        "↑ "@
    } else {
        "  "@
    }
}

/// The marker in front of a branch name.
pub fn branch_marker(is_head: bool, is_remote: bool) -> (r: &'static str)
    ensures
        r@ == branch_marker_text(is_head, is_remote),
{
    if is_head {
        "* "
    } else if is_remote {
        "↑ "
    } else {
        "  "
    }
}

/// The colour of a branch name: HEAD, remote and local branches each have
/// their own.
pub fn branch_name_color(theme: &Theme, is_head: bool, is_remote: bool) -> (c: Color)
    ensures
        c == (if is_head {
            theme.head
        } else if is_remote {
            theme.remote
        } else {
            theme.local
        }),
{
    if is_head {
        theme.head
    } else if is_remote {
        theme.remote
    } else {
        theme.local
    }
}

/// How far a branch has diverged from its upstream: nothing when unknown or
/// level; otherwise `↑n` for commits ahead and `↓n` for commits behind,
/// each only when non-zero.
pub fn divergence_marks(ahead_behind: Option<(usize, usize)>) -> (r: Option<(Option<String>, Option<String>)>)
    ensures
        match ahead_behind {
            Some((a, b)) if a > 0 || b > 0 => match r {
                Some((up, down)) => (match up {
                    Some(t) => a > 0 && t@ == "↑"@ + decimal(a as nat),
                    None => a == 0,
                }) && (match down {
                    Some(t) => b > 0 && t@ == "↓"@ + decimal(b as nat),
                    None => b == 0,
                }),
                None => false,
            },
            _ => r is None,
        },
{
    match ahead_behind {
        Some((a, b)) => {
            if a == 0 && b == 0 {
                return None;
            }
            let up = if a > 0 {
                let mut s = String::from_str("↑");
                push_decimal(&mut s, a as u64);
                Some(s)
            } else {
                None
            };
            let down = if b > 0 {
                let mut s = String::from_str("↓");
                push_decimal(&mut s, b as u64);
                Some(s)
            } else {
                None
            };
            Some((up, down))
        },
        None => None,
    }
}

/// A branch label on a commit row, e.g. `"[main] "`.
pub fn row_label(name: &str) -> (r: String)
    ensures
        r@ == "["@ + name@ + "] "@,
{
    let mut s = String::from_str("[");
    s.append(name);
    s.append("] ");
    s
}

/// The labels shown on a commit row: the first two branch names at that
/// commit, each as `"[name] "`.
pub fn row_labels(names: &Vec<String>) -> (r: Vec<String>)
    ensures
        r@.len() == (if names@.len() < 2 { names@.len() } else { 2 }),
        forall|i: int| 0 <= i < r@.len() ==> #[trigger] r@[i]@ == "["@ + names@[i]@ + "] "@,
{
    let n = if names.len() < 2 { names.len() } else { 2 };
    let mut r: Vec<String> = Vec::new();
    let mut i: usize = 0;
    while i < n
        invariant
            i <= n <= names@.len(),
            r@.len() == i,
            forall|j: int| 0 <= j < i ==> #[trigger] r@[j]@ == "["@ + names@[j]@ + "] "@,
        decreases n - i,
    {
        r.push(row_label(names[i].as_str()));
        i += 1;
    }
    r
}

/// A branch name in the branch pane, cut to the pane's width less twelve
/// columns for the marker, the divergence and the time.
pub fn branch_name_text(name: &str, width: usize) -> (r: String)
    ensures
        r@ == truncate_text(name@, if width > 12 { (width - 12) as nat } else { 0 }),
{
    truncate_str(name, if width > 12 { width - 12 } else { 0 })
}

/// A branch label in the detail pane, e.g. `"[main]"`.
pub fn detail_label(name: &str) -> (r: String)
    ensures
        r@ == "["@ + name@ + "]"@,
{
    let mut s = String::from_str("[");
    s.append(name);
    s.append("]");
    s
}

/// The full 40-digit id of a commit.
pub fn oid_text(id: CommitId) -> (r: String)
    ensures
        r@ == oid_hex_prefix(id, 40),
{
    let mut s = String::new();
    push_oid_hex(&mut s, id, 40);
    s
}

/// The parents line of the detail pane: the first seven digits of each
/// parent, separated by two spaces.
pub open spec fn parents_line(parents: Seq<CommitId>) -> Seq<char>
    decreases parents.len(),
{
    if parents.len() == 0 {
        Seq::empty()
    } else if parents.len() == 1 {
        oid_hex_prefix(parents[0], 7)
    } else {
        parents_line(parents.drop_last()) + "  "@ + oid_hex_prefix(parents.last(), 7)
    }
}

/// The parents line of the detail pane.
pub fn parents_text(parents: &Vec<CommitId>) -> (r: String)
    ensures
        r@ == parents_line(parents@),
{
    let mut s = String::new();
    let mut i: usize = 0;
    while i < parents.len()
        invariant
            i <= parents@.len(),
            s@ == parents_line(parents@.take(i as int)),
        decreases parents@.len() - i,
    {
        proof {
            assert(parents@.take(i + 1).drop_last() =~= parents@.take(i as int));
            assert(parents@.take(i + 1).last() == parents@[i as int]);
        }
        if i > 0 {
            s.append("  ");
        } else {
            assert(parents@.take(1)[0] == parents@[0]);
            assert(s@ =~= Seq::<char>::empty());
        }
        push_oid_hex(&mut s, parents[i], 7);
        proof {
            if i == 0 {
                assert(s@ =~= parents_line(parents@.take(1)));
            }
        }
        i += 1;
    }
    assert(parents@.take(i as int) =~= parents@);
    s
}

/// The search prompt: `/`, the query, and how many branches match with the
/// position of the match cursor, e.g. `"/auth (2/5)"`.
pub open spec fn search_prompt(query: Seq<char>, match_count: usize, match_idx: usize) -> Seq<char> {
    "/"@ + query + if match_count == 0 {
        " (no matches)"@
    } else {
        " ("@ + decimal((match_idx + 1) as nat) + "/"@ + decimal(match_count as nat) + ")"@
    }
}

/// The text of the search prompt.
pub fn search_prompt_text(query: &str, match_count: usize, match_idx: usize) -> (r: String)
    requires
        match_idx < usize::MAX,
    ensures
        r@ == search_prompt(query@, match_count, match_idx),
{
    let mut s = String::from_str("/");
    s.append(query);
    if match_count == 0 {
        s.append(" (no matches)");
    } else {
        s.append(" (");
        push_decimal(&mut s, (match_idx + 1) as u64);
        s.append("/");
        push_decimal(&mut s, match_count as u64);
        s.append(")");
    }
    s
}

/// A key name in the help screen: indented by two spaces and padded with
/// spaces to at least 18 characters.
pub open spec fn keybind_label_text(key: Seq<char>) -> Seq<char> {
    "  "@ + key + Seq::new(if key.len() < 18 { (18 - key.len()) as nat } else { 0 }, |i: int| ' ')
}

/// The key name column of a line of the help screen.
pub fn keybind_label(key: &str) -> (r: String)
    ensures
        r@ == keybind_label_text(key@),
{
    let n = chars_of(key).len();
    let mut s = String::from_str("  ");
    s.append(key);
    let pad = if n < 18 { 18 - n } else { 0 };
    let ghost base = s@;
    let mut i: usize = 0;
    while i < pad
        invariant
            i <= pad,
            s@ == base + Seq::new(i as nat, |j: int| ' '),
        decreases pad - i,
    {
        push_char(&mut s, ' ');
        assert(s@ =~= base + Seq::new((i + 1) as nat, |j: int| ' '));
        i += 1;
    }
    assert(s@ =~= keybind_label_text(key@));
    s
}

} // verus!

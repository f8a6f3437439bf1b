use gitopo::app::{compute_search_highlight, keep_selection_visible, matching_branch_indices, SearchHighlight};

fn names(list: &[&str]) -> Vec<String> {
    list.iter().map(|s| s.to_string()).collect()
}

#[test]
fn matching_is_case_insensitive_substring() {
    let n = names(&["main", "feature/Auth", "release/payments"]);
    assert_eq!(matching_branch_indices(&n, "auth"), vec![1]);
    assert_eq!(matching_branch_indices(&n, "MAIN"), vec![0]);
    // Substring, not prefix
    assert_eq!(matching_branch_indices(&n, "ment"), vec![2]);
}

#[test]
fn empty_query_matches_everything() {
    let n = names(&["a", "b", "c"]);
    assert_eq!(matching_branch_indices(&n, ""), vec![0, 1, 2]);
}

#[test]
fn no_match_yields_empty() {
    let n = names(&["main", "dev"]);
    assert!(matching_branch_indices(&n, "zzz").is_empty());
}

#[test]
fn highlight_none_without_query_or_matches() {
    assert_eq!(compute_search_highlight(0, "", &[0, 1], 0), None);
    assert_eq!(compute_search_highlight(0, "x", &[], 0), None);
}

#[test]
fn highlight_marks_active_and_other_matches() {
    let matches = vec![2, 5, 7];
    // active cursor on the second match (index 5)
    assert_eq!(compute_search_highlight(5, "x", &matches, 1), Some(SearchHighlight::Active));
    // other matched branches are plain matches
    assert_eq!(compute_search_highlight(2, "x", &matches, 1), Some(SearchHighlight::Match));
    assert_eq!(compute_search_highlight(7, "x", &matches, 1), Some(SearchHighlight::Match));
    // a non-matching branch gets nothing
    assert_eq!(compute_search_highlight(3, "x", &matches, 1), None);
}

#[test]
fn keep_visible_scrolls_to_follow_selection() {
    // Already in view: offset unchanged.
    assert_eq!(keep_selection_visible(0, 3, 10), 0);
    // Selection above the window: snap offset up to it.
    assert_eq!(keep_selection_visible(5, 2, 10), 2);
    // Selection below the window: scroll just enough to reveal it.
    assert_eq!(keep_selection_visible(0, 12, 10), 3);
    // Exactly at the bottom edge stays put.
    assert_eq!(keep_selection_visible(0, 9, 10), 0);
    // First row past the bottom edge scrolls by one.
    assert_eq!(keep_selection_visible(0, 10, 10), 1);
}

#[test]
fn keep_visible_zero_height_is_noop() {
    // A collapsed pane must not panic or move the offset.
    assert_eq!(keep_selection_visible(7, 3, 0), 7);
}

#[test]
fn highlight_handles_out_of_range_active_idx() {
    // active_idx past the end must not panic and must not mark Active
    let matches = vec![1, 4];
    assert_eq!(compute_search_highlight(1, "x", &matches, 9), Some(SearchHighlight::Match));
}

#[test]
fn matching_lowercases_non_ascii_names() {
    let n = names(&["ÄRGER", "other"]);
    assert_eq!(matching_branch_indices(&n, "ärg"), vec![0]);
}

#[test]
fn matching_query_longer_than_every_name_finds_nothing() {
    let n = names(&["ab", "abc"]);
    assert_eq!(matching_branch_indices(&n, "abcd"), Vec::<usize>::new());
    assert_eq!(matching_branch_indices(&n, "bc"), vec![1]);
}

#[test]
fn keep_visible_result_always_shows_selection() {
    for offset in 0..6usize {
        for selected in 0..12usize {
            for height in 1..5usize {
                let r = keep_selection_visible(offset, selected, height);
                assert!(r <= selected && selected < r + height);
            }
        }
    }
}

#[test]
fn keep_visible_near_the_top_of_usize() {
    assert_eq!(keep_selection_visible(0, usize::MAX, 10), usize::MAX - 9);
}

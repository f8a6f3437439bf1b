use gitopo::git::types::CommitId;
use gitopo::ui::layout::{
    cursor_row, help_popup_area, inner_height, message_room, pane_areas, search_popup_area, visible_window, Rect,
};
use gitopo::ui::text::{
    branch_list_title, branch_marker, branch_name_color, commit_list_title, detail_label, divergence_marks,
    keybind_label, oid_text, parents_text, row_label, search_prompt_text, status_text, title_text,
};
use gitopo::ui::text::{branch_name_text, row_labels};
use gitopo::ui::theme::Theme;

#[test]
fn title_shows_path_and_mode() {
    assert_eq!(title_text("/work/repo", 80, false), " gitopo  /work/repo [local]  ");
    assert_eq!(title_text("/work/repo", 80, true), " gitopo  /work/repo [all]  ");
    assert_eq!(title_text("/very/long/path/repo", 28, true), " gitopo  …/repo [all]  ");
    assert_eq!(title_text("/x", 10, false), " gitopo   [local]  ");
}

#[test]
fn status_prefers_the_message() {
    assert_eq!(status_text(Some("Refreshed"), "abc"), "Refreshed");
    assert_eq!(
        status_text(None, ""),
        " [?] help  [/] search  [a] toggle all  [r] refresh  [q] quit"
    );
    assert_eq!(
        status_text(None, "feat"),
        " [?] help  [/] search  [a] toggle all  [r] refresh  [q] quit  search: \"feat\""
    );
}

#[test]
fn pane_titles() {
    assert_eq!(branch_list_title(8), " Branches (8) ");
    assert_eq!(commit_list_title("main", 47), " main (47 commits) ");
    assert_eq!(commit_list_title("", 0), "  (0 commits) ");
}

#[test]
fn branch_markers_and_colours() {
    let t = Theme::color();
    assert_eq!(branch_marker(true, false), "* ");
    assert_eq!(branch_marker(false, true), "↑ ");
    assert_eq!(branch_marker(false, false), "  ");
    assert_eq!(branch_name_color(&t, true, false), t.head);
    assert_eq!(branch_name_color(&t, false, true), t.remote);
    assert_eq!(branch_name_color(&t, false, false), t.local);
}

#[test]
fn divergence_shows_only_non_zero_counts() {
    assert_eq!(divergence_marks(None), None);
    assert_eq!(divergence_marks(Some((0, 0))), None);
    assert_eq!(divergence_marks(Some((3, 0))), Some((Some("↑3".to_string()), None)));
    assert_eq!(
        divergence_marks(Some((2, 15))),
        Some((Some("↑2".to_string()), Some("↓15".to_string())))
    );
}

#[test]
fn labels_and_ids() {
    assert_eq!(row_label("main"), "[main] ");
    assert_eq!(detail_label("main"), "[main]");
    let a = CommitId { hi: 0x1234_5678_9abc_def0, mid: 1, lo: 2 };
    let b = CommitId { hi: 0xabcd_ef01_2345_6789, mid: 0, lo: 0 };
    assert_eq!(oid_text(a), "123456789abcdef0000000000000000100000002");
    assert_eq!(parents_text(&vec![a, b]), "1234567  abcdef0");
    assert_eq!(parents_text(&vec![b]), "abcdef0");
    assert_eq!(parents_text(&vec![]), "");
}

#[test]
fn search_prompt_counts_matches() {
    assert_eq!(search_prompt_text("auth", 0, 0), "/auth (no matches)");
    assert_eq!(search_prompt_text("auth", 5, 1), "/auth (2/5)");
}

#[test]
fn help_key_column_is_padded() {
    assert_eq!(keybind_label("q"), format!("  {:18}", "q"));
    assert_eq!(keybind_label("j / ↓"), format!("  {:18}", "j / ↓"));
    let long = "a key name that is long";
    assert_eq!(keybind_label(long), format!("  {}", long));
}

#[test]
fn windows_and_cursor_rows() {
    assert_eq!(visible_window(2, 5, 4), (2, 2));
    assert_eq!(visible_window(0, 3, 10), (0, 3));
    assert_eq!(cursor_row(5, 2), Some(3));
    assert_eq!(cursor_row(1, 2), None);
    assert_eq!(inner_height(10), 8);
    assert_eq!(inner_height(1), 0);
}

#[test]
fn message_room_leaves_space_for_the_time() {
    let parts = vec!["● │ ".to_string(), "[main] ".to_string(), "a3f2c1d ".to_string()];
    // widths 4 + 7 + 8 = 19, plus 8 for the time
    assert_eq!(message_room(40, &parts), 13);
    assert_eq!(message_room(27, &parts), 0);
    assert_eq!(message_room(10, &parts), 0);
    let wide = vec!["日本".to_string()];
    assert_eq!(message_room(20, &wide), 8);
}

#[test]
fn popups_are_centred() {
    let area = Rect { x: 0, y: 0, width: 100, height: 40 };
    assert_eq!(search_popup_area(area), Some(Rect { x: 20, y: 36, width: 60, height: 3 }));
    assert_eq!(search_popup_area(Rect { x: 0, y: 0, width: 7, height: 40 }), None);
    assert_eq!(search_popup_area(Rect { x: 0, y: 0, width: 20, height: 3 }), None);
    assert_eq!(help_popup_area(area), Rect { x: 20, y: 9, width: 60, height: 22 });
    assert_eq!(
        help_popup_area(Rect { x: 2, y: 1, width: 30, height: 10 }),
        Rect { x: 2, y: 1, width: 30, height: 10 }
    );
}

#[test]
fn commit_rows_show_at_most_two_labels() {
    let names = vec!["main".to_string(), "origin/main".to_string(), "tag".to_string()];
    assert_eq!(row_labels(&names), vec!["[main] ".to_string(), "[origin/main] ".to_string()]);
    assert_eq!(row_labels(&vec!["x".to_string()]), vec!["[x] ".to_string()]);
    assert_eq!(branch_name_text("feature/payments", 20), "feature…");
    assert_eq!(branch_name_text("main", 10), "");
}

#[test]
fn main_screen_panes() {
    let p = pane_areas(Rect { x: 0, y: 0, width: 100, height: 42 });
    assert_eq!(p.title, Rect { x: 0, y: 0, width: 100, height: 1 });
    assert_eq!(p.status, Rect { x: 0, y: 41, width: 100, height: 1 });
    assert_eq!(p.branches, Rect { x: 0, y: 1, width: 30, height: 40 });
    assert_eq!(p.commits, Rect { x: 30, y: 1, width: 70, height: 26 });
    assert_eq!(p.details, Rect { x: 30, y: 27, width: 70, height: 14 });
}

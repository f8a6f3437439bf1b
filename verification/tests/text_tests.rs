use gitopo::ui::theme::{truncate_path, truncate_str, Color, Theme};

#[test]
fn truncate_str_handles_fit_overflow_and_zero() {
    assert_eq!(truncate_str("hello", 5), "hello");
    assert_eq!(truncate_str("hello!", 5), "hell…");
    assert_eq!(truncate_str("anything", 0), "");
    // Counts chars, not bytes — must not split multibyte glyphs
    assert_eq!(truncate_str("héllo", 3), "hé…");
}

#[test]
fn truncate_path_shortens_to_last_component() {
    assert_eq!(truncate_path("short", 10), "short");
    assert_eq!(truncate_path("aaaa/bbbb/cc", 8), "…/cc");
    assert_eq!(truncate_path("C:\\Users\\someone\\repo", 12), "…/repo");
}

#[test]
fn no_color_theme_is_all_reset() {
    let t = Theme::no_color();
    assert_eq!(t.head, Color::Reset);
    assert_eq!(t.selected_bg, Color::Reset);
    assert_eq!(t.border_focused, Color::Reset);
    assert_eq!(t.search_active_bg, Color::Reset);
}

#[test]
fn color_theme_is_not_reset() {
    let t = Theme::color();
    assert_ne!(t.head, Color::Reset);
    assert_ne!(t.border_focused, Color::Reset);
    assert_ne!(t.search_match, Color::Reset);
}

#[test]
fn new_selects_palette_by_flag() {
    assert_eq!(Theme::new(true).head, Color::Reset);
    assert_ne!(Theme::new(false).head, Color::Reset);
}

#[test]
fn truncate_str_keeps_one_char_room_for_the_ellipsis() {
    assert_eq!(truncate_str("ab", 1), "…");
    assert_eq!(truncate_str("a", 1), "a");
    assert_eq!(truncate_str("", 3), "");
}

#[test]
fn truncate_path_counts_characters_and_separators() {
    // One separator: no "…/" form, cut by characters.
    assert_eq!(truncate_path("abcdef/ghij", 6), "abcde…");
    // "…/" is two characters plus the component; when that does not fit,
    // the path is cut by characters.
    assert_eq!(truncate_path("a/b/longcomponent", 10), "a/b/longc…");
    // Multibyte characters count once each.
    assert_eq!(truncate_path("ab/cd/éé", 8), "ab/cd/éé");
    assert_eq!(truncate_path("éé", 2), "éé");
    assert_eq!(truncate_path("éééé", 3), "éé…");
    assert_eq!(truncate_path("é/é/éé", 6), "é/é/éé");
    assert_eq!(truncate_path("é/é/éé", 5), "…/éé");
    assert_eq!(truncate_path("é/é/éé", 3), "é/…");
}

#[test]
fn color_palette_values() {
    let t = Theme::color();
    assert_eq!(t.head, Color::Rgb(100, 220, 100));
    assert_eq!(t.text_strong, Color::White);
    assert_eq!(t.search_active_bg, Color::Rgb(80, 70, 30));
}

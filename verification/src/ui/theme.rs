//! Colour palette and text truncation for display.

use vstd::prelude::*;
use crate::strings::{chars_of, push_char};

verus! {

/// A terminal colour: the terminal's default, white, or an RGB triple.
#[derive(Clone, Copy, PartialEq, Eq, Structural, Debug)]
pub enum Color {
    Reset,
    White,
    Rgb(u8, u8, u8),
}

/// Colour palette for the UI. When colour is disabled every colour collapses
/// to [`Color::Reset`], so the terminal's default foreground/background is
/// used.
#[derive(Clone, Copy, PartialEq, Eq, Structural, Debug)]
pub struct Theme {
    pub head: Color,
    pub local: Color,
    pub remote: Color,
    pub selected_bg: Color,
    pub dim: Color,
    pub graph_node: Color,
    pub graph_line: Color,
    pub tag: Color,
    pub ahead: Color,
    pub behind: Color,
    pub border_focused: Color,
    pub border_unfocused: Color,
    pub title: Color,
    /// Foreground for emphasised text (commit messages, headings).
    pub text_strong: Color,
    /// Full commit hash colour in the detail pane.
    pub hash: Color,
    /// Background tint for the title bar.
    pub title_bar_bg: Color,
    /// Background tint for the status bar.
    pub status_bar_bg: Color,
    /// Foreground for the search-match marker in the branch list.
    pub search_match: Color,
    /// Background highlight for the active search match.
    pub search_active_bg: Color,
}

/// The full-colour palette.
pub open spec fn color_palette() -> Theme {
    Theme {
        head: Color::Rgb(100, 220, 100),
        local: Color::Rgb(130, 180, 255),
        remote: Color::Rgb(255, 180, 80),
        selected_bg: Color::Rgb(40, 55, 75),
        dim: Color::Rgb(120, 120, 130),
        graph_node: Color::Rgb(180, 140, 255),
        graph_line: Color::Rgb(80, 80, 100),
        tag: Color::Rgb(255, 220, 80),
        ahead: Color::Rgb(100, 220, 180),
        behind: Color::Rgb(255, 120, 100),
        border_focused: Color::Rgb(100, 160, 255),
        border_unfocused: Color::Rgb(60, 60, 80),
        title: Color::Rgb(200, 200, 220),
        text_strong: Color::White,
        hash: Color::Rgb(255, 200, 100),
        title_bar_bg: Color::Rgb(25, 28, 38),
        status_bar_bg: Color::Rgb(20, 22, 30),
        search_match: Color::Rgb(255, 230, 120),
        search_active_bg: Color::Rgb(80, 70, 30),
    }
}

/// The palette in which every colour is the terminal default.
pub open spec fn reset_palette() -> Theme {
    Theme {
        head: Color::Reset,
        local: Color::Reset,
        remote: Color::Reset,
        selected_bg: Color::Reset,
        dim: Color::Reset,
        graph_node: Color::Reset,
        graph_line: Color::Reset,
        tag: Color::Reset,
        ahead: Color::Reset,
        behind: Color::Reset,
        border_focused: Color::Reset,
        border_unfocused: Color::Reset,
        title: Color::Reset,
        text_strong: Color::Reset,
        hash: Color::Reset,
        title_bar_bg: Color::Reset,
        status_bar_bg: Color::Reset,
        search_match: Color::Reset,
        search_active_bg: Color::Reset,
    }
}

impl Theme {
    /// The full-colour palette used by default.
    pub fn color() -> (t: Self)
        ensures
            t == color_palette(),
    {
        Theme {
            head: Color::Rgb(100, 220, 100),
            local: Color::Rgb(130, 180, 255),
            remote: Color::Rgb(255, 180, 80),
            selected_bg: Color::Rgb(40, 55, 75),
            dim: Color::Rgb(120, 120, 130),
            graph_node: Color::Rgb(180, 140, 255),
            graph_line: Color::Rgb(80, 80, 100),
            tag: Color::Rgb(255, 220, 80),
            ahead: Color::Rgb(100, 220, 180),
            behind: Color::Rgb(255, 120, 100),
            border_focused: Color::Rgb(100, 160, 255),
            border_unfocused: Color::Rgb(60, 60, 80),
            title: Color::Rgb(200, 200, 220),
            text_strong: Color::White,
            hash: Color::Rgb(255, 200, 100),
            title_bar_bg: Color::Rgb(25, 28, 38),
            status_bar_bg: Color::Rgb(20, 22, 30),
            search_match: Color::Rgb(255, 230, 120),
            search_active_bg: Color::Rgb(80, 70, 30),
        }
    }

    /// A palette where every colour is [`Color::Reset`], i.e. no styling.
    pub fn no_color() -> (t: Self)
        ensures
            t == reset_palette(),
    {
        let r = Color::Reset;
        Theme {
            head: r,
            local: r,
            remote: r,
            selected_bg: r,
            dim: r,
            graph_node: r,
            graph_line: r,
            tag: r,
            ahead: r,
            behind: r,
            border_focused: r,
            border_unfocused: r,
            title: r,
            text_strong: r,
            hash: r,
            title_bar_bg: r,
            status_bar_bg: r,
            search_match: r,
            search_active_bg: r,
        }
    }

    /// Select the palette for the given colour mode.
    pub fn new(no_color: bool) -> (t: Self)
        ensures
            t == (if no_color { reset_palette() } else { color_palette() }),
    {
        if no_color {
            Self::no_color()
        } else {
            Self::color()
        }
    }
}

/// `s` cut to at most `max` characters: when it is longer, its first
/// `max - 1` characters followed by `…`.
pub open spec fn truncate_text(s: Seq<char>, max: nat) -> Seq<char> {
    if max == 0 {
        Seq::empty()
    } else if s.len() <= max {
        s
    } else {
        s.take(max - 1).push('…')
    }
}

/// The characters `v[from..to]` appended to `out`.
fn push_range(out: &mut String, v: &Vec<char>, from: usize, to: usize)
    requires
        from <= to <= v@.len(),
    ensures
        final(out)@ == old(out)@ + v@.subrange(from as int, to as int),
{
    let mut i = from;
    while i < to
        invariant
            from <= i <= to,
            to <= v@.len(),
            out@ == old(out)@ + v@.subrange(from as int, i as int),
        decreases to - i,
    {
        push_char(out, v[i]);
        assert(out@ =~= old(out)@ + v@.subrange(from as int, i + 1));
        i += 1;
    }
}

/// Truncate `s` to at most `max` characters (Unicode scalar values).
/// If truncated, the last character is replaced with '…'.
pub fn truncate_str(s: &str, max: usize) -> (r: String)
    ensures
        r@ == truncate_text(s@, max as nat),
{
    if max == 0 {
        return String::new();
    }
    let v = chars_of(s);
    if v.len() <= max {
        return s.to_owned();
    }
    let mut out = String::new();
    push_range(&mut out, &v, 0, max - 1);
    push_char(&mut out, '…');
    assert(v@.subrange(0, max - 1) =~= v@.take(max - 1));
    out
}

/// Path separators: `/` and `\`.
pub open spec fn is_path_sep(c: char) -> bool {
    c == '/' || c == '\\'
}

/// Number of path separators in `s`.
pub open spec fn sep_count(s: Seq<char>) -> nat
    decreases s.len(),
{
    if s.len() == 0 {
        0
    } else {
        sep_count(s.drop_last()) + if is_path_sep(s.last()) { 1nat } else { 0nat }
    }
}

/// The characters after the last separator (all of `s` if it has none).
pub open spec fn last_component(s: Seq<char>) -> Seq<char>
    decreases s.len(),
{
    if s.len() == 0 {
        s
    } else if is_path_sep(s.last()) {
        Seq::empty()
    } else {
        last_component(s.drop_last()).push(s.last())
    }
}

/// A path shortened for display: kept when it has at most `max` characters;
/// else, when it has at least two separators, `…/` and its last component if
/// that has at most `max` characters; else cut by [`truncate_text`].
pub open spec fn truncate_path_text(path: Seq<char>, max: nat) -> Seq<char> {
    let short = seq!['…', '/'] + last_component(path);
    if path.len() <= max {
        path
    } else if sep_count(path) <= 1 {
        truncate_text(path, max)
    } else if short.len() <= max {
        short
    } else {
        truncate_text(path, max)
    }
}

/// Shorten a file-system path for display. Shows the last component prefixed
/// with "…/" when the full path exceeds `max` characters.
pub fn truncate_path(path: &str, max: usize) -> (r: String)
    ensures
        r@ == truncate_path_text(path@, max as nat),
{
    let v = chars_of(path);
    if v.len() <= max {
        return path.to_owned();
    }
    let mut seps: usize = 0;
    let mut start: usize = 0;
    let mut i: usize = 0;
    while i < v.len()
        invariant
            i <= v@.len(),
            start <= i,
            seps == sep_count(v@.take(i as int)),
            seps <= i,
            last_component(v@.take(i as int)) == v@.subrange(start as int, i as int),
        decreases v@.len() - i,
    {
        proof {
            assert(v@.take(i + 1).drop_last() =~= v@.take(i as int));
            assert(v@.take(i + 1).last() == v@[i as int]);
        }
        if v[i] == '/' || v[i] == '\\' {
            seps += 1;
            start = i + 1;
            assert(v@.subrange(start as int, i + 1) =~= Seq::<char>::empty());
        } else {
            assert(v@.subrange(start as int, i + 1) =~= v@.subrange(start as int, i as int).push(v@[i as int]));
        }
        i += 1;
    }
    assert(v@.take(i as int) =~= v@);
    if seps <= 1 {
        return truncate_str(path, max);
    }
    let mut short = String::new();
    push_char(&mut short, '…');
    push_char(&mut short, '/');
    push_range(&mut short, &v, start, v.len());
    assert(short@ =~= seq!['…', '/'] + last_component(path@));
    let rest: usize = v.len() - start;
    if max >= 2 && rest <= max - 2 {
        short
    } else {
        truncate_str(path, max)
    }
}

} // verus!

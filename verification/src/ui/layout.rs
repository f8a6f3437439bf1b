//! Geometry of the panes: visible windows of the lists, room left for a
//! commit message, and the placement of the pop-ups.

use vstd::prelude::*;
use ratatui::layout::{Constraint as TuiConstraint, Direction as TuiDirection, Layout, Rect as TuiRect};

verus! {

/// A rectangle of terminal cells.
#[derive(Clone, Copy, PartialEq, Eq, Structural, Debug)]
pub struct Rect {
    pub x: u16,
    pub y: u16,
    pub width: u16,
    pub height: u16,
}

/// How a layout divides an area.
#[derive(Clone, Copy, PartialEq, Eq, Structural, Debug)]
pub enum Direction {
    Horizontal,
    Vertical,
}

/// The size asked for one part of a layout.
#[derive(Clone, Copy, PartialEq, Eq, Structural, Debug)]
pub enum Constraint {
    /// Exactly this many cells.
    Length(u16),
    /// At least this many cells.
    Min(u16),
    /// This percentage of the area.
    Percentage(u16),
}

/// Where `r` starts along `direction`.
pub open spec fn start_along(r: Rect, direction: Direction) -> int {
    match direction {
        Direction::Horizontal => r.x as int,
        Direction::Vertical => r.y as int,
    }
}

/// Where `r` ends along `direction`.
pub open spec fn end_along(r: Rect, direction: Direction) -> int {
    match direction {
        Direction::Horizontal => r.x + r.width,
        Direction::Vertical => r.y + r.height,
    }
}

/// Whether `r` ends within the coordinate range of a terminal cell.
pub open spec fn fits_screen(r: Rect) -> bool {
    r.x + r.width <= u16::MAX && r.y + r.height <= u16::MAX
}

/// Sum of the percentages among `constraints`.
pub open spec fn percent_sum(constraints: Seq<Constraint>) -> int
    decreases constraints.len(),
{
    if constraints.len() == 0 {
        0
    } else {
        percent_sum(constraints.drop_last()) + match constraints.last() {
            Constraint::Percentage(p) => p as int,
            _ => 0,
        }
    }
}

/// Whether the constraints take up the whole area: one of them is a
/// minimum, which grows to take what the others leave, or they are all
/// percentages adding up to a hundred.
pub open spec fn fills_area(constraints: Seq<Constraint>) -> bool {
    ||| exists|i: int| 0 <= i < constraints.len() && #[trigger] constraints[i] is Min
    ||| (forall|i: int| 0 <= i < constraints.len() ==> #[trigger] constraints[i] is Percentage)
        && percent_sum(constraints) == 100
}

/// Whether `parts` can be what a split of `area` along `direction` under
/// `constraints` gives: one part per constraint, each spanning the whole of
/// `area` across the direction of the split (same column and width for a
/// vertical split, same row and height for a horizontal one); and, for an
/// area within the screen's coordinates, the parts laid end to end from the
/// start of the area, the last one ending at the end of the area when the
/// constraints fill it.
pub open spec fn is_split_of(area: Rect, direction: Direction, constraints: Seq<Constraint>, parts: Seq<Rect>) -> bool {
    &&& parts.len() == constraints.len()
    &&& forall|i: int|
        #![trigger parts[i]]
        0 <= i < parts.len() ==> match direction {
            Direction::Horizontal => parts[i].y == area.y && parts[i].height == area.height,
            Direction::Vertical => parts[i].x == area.x && parts[i].width == area.width,
        }
    &&& fits_screen(area) ==> {
        &&& parts.len() > 0 ==> start_along(parts[0], direction) == start_along(area, direction)
        &&& forall|i: int|
            0 < i < parts.len() ==> start_along(#[trigger] parts[i], direction) == end_along(
                parts[i - 1],
                direction,
            )
        &&& parts.len() > 0 && fills_area(constraints) ==> end_along(parts[parts.len() - 1], direction)
            == end_along(area, direction)
    }
}

/// Calls ratatui's `Layout::split` with the default layout settings: no
/// margin, no spacing, `Flex::Start`. The source builds one segment per
/// constraint and gives each the area's position and extent across the
/// split direction. Along the split, the segments' boundaries are solver
/// variables that the spacers between them share; the solver must keep
/// them in order inside the area, and asks at near-required strength for an
/// empty first spacer and at a tenth of required for inner spacers of the
/// spacing (zero), both stronger than all the segment constraints used
/// here together, so every optimum lays the parts end to end from the start
/// (the documentation: `Flex::Start` aligns items to the start, and the
/// spacing is the number of cells between items). The trailing spacer only
/// grows weakly, so a minimum segment, which grows more strongly, or
/// percentages adding to a hundred leave it empty. How long each part is
/// otherwise, and which optimum the cassowary solver picks between equally
/// good ones (its choice can differ from one process to the next), is left
/// unsaid. The positions are stated only for areas whose end fits in the
/// `u16` coordinates, as ratatui's own rectangles do.
#[verifier::external_body]
fn split_area(area: Rect, direction: Direction, constraints: &Vec<Constraint>) -> (r: Vec<Rect>)
    ensures
        is_split_of(area, direction, constraints@, r@),
{
    let dir = match direction {
        Direction::Horizontal => TuiDirection::Horizontal,
        Direction::Vertical => TuiDirection::Vertical,
    };
    let cs: Vec<TuiConstraint> = constraints.iter().map(|c| match *c {
        Constraint::Length(n) => TuiConstraint::Length(n),
        Constraint::Min(n) => TuiConstraint::Min(n),
        Constraint::Percentage(n) => TuiConstraint::Percentage(n),
    }).collect();
    let whole = TuiRect { x: area.x, y: area.y, width: area.width, height: area.height };
    let parts = Layout::default().direction(dir).constraints(cs).split(whole);
    parts.iter().map(|p| Rect { x: p.x, y: p.y, width: p.width, height: p.height }).collect()
}

/// The areas of the main screen.
#[derive(Clone, Copy, PartialEq, Eq, Structural, Debug)]
pub struct Panes {
    pub title: Rect,
    pub branches: Rect,
    pub commits: Rect,
    pub details: Rect,
    pub status: Rect,
}

/// The constraints of the main screen's rows: a title bar and a status bar
/// of one row each, the panes between them.
pub open spec fn screen_rows() -> Seq<Constraint> {
    seq![Constraint::Length(1), Constraint::Min(0), Constraint::Length(1)]
}

/// The constraints of the main screen's columns: the branch pane on the
/// left 30%, the commit and detail panes on the right 70%.
pub open spec fn screen_columns() -> Seq<Constraint> {
    seq![Constraint::Percentage(30), Constraint::Percentage(70)]
}

/// The constraints of the right column: the commit pane above (65%) the
/// detail pane (35%).
pub open spec fn right_column() -> Seq<Constraint> {
    seq![Constraint::Percentage(65), Constraint::Percentage(35)]
}

/// The main screen, as laid out by ratatui's solver: the title bar, the
/// middle rows and the status bar from top to bottom, the middle split into
/// the branch pane and, to its right, a column holding the commit pane
/// above the detail pane.
pub fn pane_areas(area: Rect) -> (r: Panes)
    ensures
        exists|rows: Seq<Rect>, cols: Seq<Rect>, right: Seq<Rect>|
            #![trigger is_split_of(area, Direction::Vertical, screen_rows(), rows), is_split_of(rows[1], Direction::Horizontal, screen_columns(), cols), is_split_of(cols[1], Direction::Vertical, right_column(), right)]
            {
                &&& is_split_of(area, Direction::Vertical, screen_rows(), rows)
                &&& is_split_of(rows[1], Direction::Horizontal, screen_columns(), cols)
                &&& is_split_of(cols[1], Direction::Vertical, right_column(), right)
                &&& r == (Panes { title: rows[0], branches: cols[0], commits: right[0], details: right[1], status: rows[2] })
            },
        fits_screen(area) ==> {
            &&& r.title.x == area.x && r.title.width == area.width && r.title.y == area.y
            &&& r.status.x == area.x && r.status.width == area.width
            &&& r.status.y + r.status.height == area.y + area.height
            &&& r.branches.x == area.x && r.branches.y == r.title.y + r.title.height
            &&& r.status.y == r.branches.y + r.branches.height
            &&& r.commits.x == r.branches.x + r.branches.width && r.commits.y == r.branches.y
            &&& r.commits.x + r.commits.width == area.x + area.width
            &&& r.details.x == r.commits.x && r.details.width == r.commits.width
            &&& r.details.y == r.commits.y + r.commits.height
            &&& r.details.y + r.details.height == r.branches.y + r.branches.height
        },
{
    let rows = split_area(area, Direction::Vertical, &vec![Constraint::Length(1), Constraint::Min(0), Constraint::Length(1)]);
    let cols = split_area(rows[1], Direction::Horizontal, &vec![Constraint::Percentage(30), Constraint::Percentage(70)]);
    let right = split_area(cols[1], Direction::Vertical, &vec![Constraint::Percentage(65), Constraint::Percentage(35)]);
    let r = Panes { title: rows[0], branches: cols[0], commits: right[0], details: right[1], status: rows[2] };
    assert(rows@.len() == 3);
    assert(is_split_of(area, Direction::Vertical, screen_rows(), rows@));
    assert(is_split_of(rows@[1], Direction::Horizontal, screen_columns(), cols@));
    assert(is_split_of(cols@[1], Direction::Vertical, right_column(), right@));
    proof {
        lemma_screen_constraints_fill();
        if fits_screen(area) {
            assert(start_along(rows@[1], Direction::Vertical) == end_along(rows@[0], Direction::Vertical));
            assert(start_along(rows@[2], Direction::Vertical) == end_along(rows@[1], Direction::Vertical));
            assert(fits_screen(rows@[1]));
            assert(start_along(cols@[1], Direction::Horizontal) == end_along(cols@[0], Direction::Horizontal));
            assert(fits_screen(cols@[1]));
            assert(start_along(right@[1], Direction::Vertical) == end_along(right@[0], Direction::Vertical));
        }
    }
    r
}

/// The constraints of the main screen fill what they divide.
proof fn lemma_screen_constraints_fill()
    ensures
        fills_area(screen_rows()),
        fills_area(screen_columns()),
        fills_area(right_column()),
{
    assert(screen_rows()[1] is Min);
    reveal_with_fuel(percent_sum, 3);
    assert(percent_sum(screen_columns()) == 100);
    assert(percent_sum(right_column()) == 100);
}

/// The rows of a list shown in a viewport of `height` rows scrolled to
/// `offset`: from `offset` up to `offset + height`, cut at the end of the
/// list. Returns the first row and the number of rows.
pub fn visible_window(offset: usize, height: usize, count: usize) -> (r: (usize, usize))
    requires
        offset + height <= usize::MAX,
        offset <= count || offset + height <= count,
    ensures
        r.0 == offset,
        r.1 == (if offset + height < count { height as int } else { count - offset }),
{
    let end = if offset + height < count { offset + height } else { count };
    (offset, end - offset)
}

/// Where the cursor sits within the visible rows, if it is not above them.
pub fn cursor_row(selected: usize, first_visible: usize) -> (r: Option<usize>)
    ensures
        r == (if selected >= first_visible { Some((selected - first_visible) as usize) } else { None }),
{
    if selected >= first_visible {
        Some(selected - first_visible)
    } else {
        None
    }
}

/// The rows inside a bordered pane of `height` rows.
pub fn inner_height(height: u16) -> (r: usize)
    ensures
        r == (if height >= 2 { height - 2 } else { 0 }),
{
    if height >= 2 { (height - 2) as usize } else { 0 }
}

/// Display width of a text in terminal columns, as the `unicode-width`
/// crate measures it.
pub uninterp spec fn display_width(s: Seq<char>) -> nat;

/// Calls `UnicodeWidthStr::width`. Its result depends on the text alone and
/// is named [`display_width`]; the Unicode width tables are left unsaid.
#[verifier::external_body]
pub fn text_width(s: &str) -> (r: usize)
    ensures
        r == display_width(s@),
{
    unicode_width::UnicodeWidthStr::width(s)
}

/// Sum of the display widths of the texts.
pub open spec fn total_width(parts: Seq<Seq<char>>) -> nat
    decreases parts.len(),
{
    if parts.len() == 0 {
        0
    } else {
        total_width(parts.drop_last()) + display_width(parts.last())
    }
}

/// The columns left for a commit message in a row `max_width` columns wide
/// once the texts before it and 8 columns for its timestamp are taken
/// (none when they do not fit).
pub fn message_room(max_width: usize, parts: &Vec<String>) -> (r: usize)
    ensures
        r == (if total_width(parts@.map_values(|p: String| p@)) + 8 < max_width {
            (max_width - total_width(parts@.map_values(|p: String| p@)) - 8) as int
        } else {
            0
        }),
{
    let ghost texts = parts@.map_values(|p: String| p@);
    let mut used: usize = 0;
    let mut i: usize = 0;
    while i < parts.len()
        invariant
            i <= parts@.len(),
            texts == parts@.map_values(|p: String| p@),
            used == total_width(texts.take(i as int)),
        decreases parts@.len() - i,
    {
        let w = text_width(parts[i].as_str());
        proof {
            assert(texts.take(i + 1).drop_last() =~= texts.take(i as int));
            assert(texts.take(i + 1).last() == parts@[i as int]@);
        }
        if w > max_width || used > max_width - w {
            proof {
                lemma_total_width_prefix(texts, i + 1);
            }
            return 0;
        }
        used = used + w;
        i += 1;
    }
    assert(texts.take(i as int) =~= texts);
    if used < max_width && max_width - used > 8 {
        max_width - used - 8
    } else {
        0
    }
}

/// A prefix of the texts is never wider than all of them.
proof fn lemma_total_width_prefix(texts: Seq<Seq<char>>, k: int)
    requires
        0 <= k <= texts.len(),
    ensures
        total_width(texts.take(k)) <= total_width(texts),
    decreases texts.len() - k,
{
    if k < texts.len() {
        lemma_total_width_prefix(texts, k + 1);
        assert(texts.take(k + 1).drop_last() =~= texts.take(k));
    } else {
        assert(texts.take(k) =~= texts);
    }
}

/// The search pop-up: three rows at the bottom of the screen, at most 60
/// columns wide and centred; none when the screen is lower than four rows
/// or narrower than eight columns.
pub fn search_popup_area(area: Rect) -> (r: Option<Rect>)
    requires
        area.height >= 4 && area.width >= 8 ==> area.x + (area.width - (if area.width < 60 {
            area.width
        } else {
            60
        })) / 2 <= u16::MAX && area.y + area.height <= u16::MAX,
    ensures
        match r {
            Some(p) => {
                &&& area.height >= 4 && area.width >= 8
                &&& p.width == (if area.width < 60 { area.width } else { 60 })
                &&& p.height == 3
                &&& p.x == area.x + (area.width - p.width) / 2
                &&& p.y == area.y + area.height - 4
            },
            None => area.height < 4 || area.width < 8,
        },
{
    if area.height < 4 || area.width < 8 {
        return None;
    }
    let popup_width = if area.width < 60 { area.width } else { 60 };
    Some(Rect {
        x: area.x + (area.width - popup_width) / 2,
        y: area.y + area.height - 3 - 1,
        width: popup_width,
        height: 3,
    })
}

/// The help pop-up: at most 60 columns by 22 rows, centred.
pub fn help_popup_area(area: Rect) -> (r: Rect)
    requires
        area.x + (area.width - (if area.width < 60 { area.width } else { 60 })) / 2 <= u16::MAX,
        area.y + (area.height - (if area.height < 22 { area.height } else { 22 })) / 2 <= u16::MAX,
    ensures
        r.width == (if area.width < 60 { area.width } else { 60 }),
        r.height == (if area.height < 22 { area.height } else { 22 }),
        r.x == area.x + (area.width - r.width) / 2,
        r.y == area.y + (area.height - r.height) / 2,
{
    let popup_width = if area.width < 60 { area.width } else { 60 };
    let popup_height = if area.height < 22 { area.height } else { 22 };
    Rect {
        x: area.x + (area.width - popup_width) / 2,
        y: area.y + (area.height - popup_height) / 2,
        width: popup_width,
        height: popup_height,
    }
}

} // verus!

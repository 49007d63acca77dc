//! A scrollable, holdable list of text rows, shown through a small viewport.
//!
//! The vertical offset counts rows back from the newest row, so an offset of
//! zero always shows the latest content; the horizontal offset counts display
//! columns from the left.

use crate::width::{clip, str_cols, str_width, string_window};
use std::ops::Range;
use vstd::prelude::*;

verus! {

#[verifier::external_type_specification]
#[verifier::external_body]
pub struct ExStyle(tui::style::Style);

/// Relies on the derived `Clone` of `tui::style::Style`, a `Copy` type: the clone equals the value cloned.
pub assume_specification[ <tui::style::Style as Clone>::clone ](s: &tui::style::Style) -> (r:
    tui::style::Style)
    ensures
        r == *s,
;

/// Scroll position of a list, and whether it is held in place.
#[derive(Clone, Copy, Debug, PartialEq, Eq, Structural)]
pub struct Coord {
    pub x: usize,
    pub y: usize,
    pub hold: bool,
}

impl Default for Coord {
    fn default() -> (r: Coord)
        ensures
            r == (Coord { x: 0, y: 0, hold: false }),
    {
        Coord { x: 0, y: 0, hold: false }
    }
}

/// A navigation key, as lists and the proxy tree understand it.
#[derive(Clone, Copy, Debug, PartialEq, Eq, Structural)]
pub enum ListNavEvent {
    Up,
    Down,
    Left,
    Right,
    Enter,
    Back,
}

/// A piece of text drawn in one style.
#[derive(Clone, Debug)]
pub struct StyledSpan {
    pub content: String,
    pub style: tui::style::Style,
}

impl View for StyledSpan {
    type V = (Seq<char>, tui::style::Style);

    open spec fn view(&self) -> (Seq<char>, tui::style::Style) {
        (self.content@, self.style)
    }
}

/// One row of a list: styled spans, or raw text.
#[derive(Clone, Debug)]
pub enum MovableListItem {
    Spans(Vec<StyledSpan>),
    Raw(String),
}

/// What a row holds, as contracts speak of it.
pub enum RowView {
    Spans(Seq<(Seq<char>, tui::style::Style)>),
    Raw(Seq<char>),
}

pub open spec fn spans_view(v: Seq<StyledSpan>) -> Seq<(Seq<char>, tui::style::Style)> {
    v.map_values(|s: StyledSpan| s@)
}

impl View for MovableListItem {
    type V = RowView;

    open spec fn view(&self) -> RowView {
        match self {
            MovableListItem::Spans(v) => RowView::Spans(spans_view(v@)),
            MovableListItem::Raw(s) => RowView::Raw(s@),
        }
    }
}

pub open spec fn max_usize() -> int {
    usize::MAX as int
}

/// Total width of spans, saturating at the largest `usize`.
pub open spec fn spans_cols(v: Seq<(Seq<char>, tui::style::Style)>) -> int
    decreases v.len(),
{
    if v.len() == 0 {
        0
    } else {
        let s = spans_cols(v.drop_last()) + str_cols(v.last().0) as int;
        if s > max_usize() {
            max_usize()
        } else {
            s
        }
    }
}

/// Display width of a row.
pub open spec fn row_cols(r: RowView) -> int {
    match r {
        RowView::Spans(v) => spans_cols(v),
        RowView::Raw(s) => str_cols(s) as int,
    }
}

pub open spec fn sat_sub(a: int, b: int) -> int {
    if a >= b {
        a - b
    } else {
        0
    }
}

/// Each span is clipped to the part of `[lo, hi)` that falls on it.
pub open spec fn clip_spans(v: Seq<(Seq<char>, tui::style::Style)>, lo: int, hi: int) -> Seq<
    (Seq<char>, tui::style::Style),
> {
    Seq::new(
        v.len(),
        |k: int|
            {
                let base = spans_cols(v.take(k));
                (clip(v[k].0, sat_sub(lo, base), sat_sub(hi, base)), v[k].1)
            },
    )
}

/// A row with no characters at all.
pub open spec fn row_is_blank(r: RowView) -> bool {
    match r {
        RowView::Spans(v) => spans_blank(v),
        RowView::Raw(s) => s.len() == 0,
    }
}

pub open spec fn spans_blank(v: Seq<(Seq<char>, tui::style::Style)>) -> bool {
    forall|k: int| 0 <= k < v.len() ==> (#[trigger] v[k]).0.len() == 0
}

/// Clipping to an empty column range leaves no characters.
pub proof fn lemma_clip_row_empty_range(r: RowView, lo: int)
    ensures
        row_is_blank(clip_row(r, lo, lo)),
{
    match r {
        RowView::Spans(v) => {
            assert forall|k: int| 0 <= k < v.len() implies (#[trigger] clip_spans(v, lo, lo)[k]).0.len()
                == 0 by {
                crate::width::lemma_clip_empty_range(v[k].0, sat_sub(lo, spans_cols(v.take(k))));
            }
        },
        RowView::Raw(s) => {
            crate::width::lemma_clip_empty_range(s, lo);
        },
    }
}

/// A row clipped to the display columns `[lo, hi)`.
pub open spec fn clip_row(r: RowView, lo: int, hi: int) -> RowView {
    match r {
        RowView::Spans(v) => RowView::Spans(clip_spans(v, lo, hi)),
        RowView::Raw(s) => RowView::Raw(clip(s, lo, hi)),
    }
}

/// Glyph shown in place of a row whose content lies wholly outside the window.
pub open spec fn more_marker() -> RowView {
    RowView::Raw(seq!['\u{25c0}'])
}

/// What the viewport shows of a row in the columns `[lo, hi)`.
pub open spec fn shown_row(r: RowView, lo: int, hi: int) -> RowView {
    if row_cols(r) != 0 && row_cols(clip_row(r, lo, hi)) == 0 {
        more_marker()
    } else {
        clip_row(r, lo, hi)
    }
}

impl MovableListItem {
    /// Display width of the row.
    pub fn width(&self) -> (r: usize)
        ensures
            r == row_cols(self@),
            row_is_blank(self@) ==> r == 0,
    {
        match self {
            MovableListItem::Raw(x) => str_width(x.as_str()),
            MovableListItem::Spans(v) => spans_width(v),
        }
    }

    /// Clips the row to the display columns of `range`.
    pub fn range(&mut self, range: &Range<usize>)
        ensures
            final(self)@ == clip_row(old(self)@, range.start as int, range.end as int),
    {
        let lo = range.start;
        let hi = range.end;
        let clipped = match &*self {
            MovableListItem::Raw(x) => MovableListItem::Raw(string_window(x, lo, hi)),
            MovableListItem::Spans(v) => MovableListItem::Spans(spans_window(v, lo, hi)),
        };
        *self = clipped;
    }
}

fn spans_width(v: &Vec<StyledSpan>) -> (r: usize)
    ensures
        r == spans_cols(spans_view(v@)),
        row_is_blank(RowView::Spans(spans_view(v@))) ==> r == 0,
{
    let mut acc: usize = 0;
    let mut i: usize = 0;
    while i < v.len()
        invariant
            i <= v@.len(),
            row_is_blank(RowView::Spans(spans_view(v@))) ==> acc == 0,
            acc == spans_cols(spans_view(v@).take(i as int)),
        decreases v@.len() - i,
    {
        let w = str_width(v[i].content.as_str());
        proof {
            assert(spans_view(v@).take(i + 1).drop_last() =~= spans_view(v@).take(i as int));
            if row_is_blank(RowView::Spans(spans_view(v@))) {
                let sv = spans_view(v@);
                assert(0 <= i < sv.len());
                assert(sv[i as int].0.len() == 0);
                assert(sv[i as int].0 == v@[i as int].content@);
            }
        }
        acc = acc.saturating_add(w);
        i = i + 1;
    }
    proof {
        assert(spans_view(v@).take(v@.len() as int) =~= spans_view(v@));
    }
    acc
}

fn spans_window(v: &Vec<StyledSpan>, lo: usize, hi: usize) -> (r: Vec<StyledSpan>)
    ensures
        spans_view(r@) == clip_spans(spans_view(v@), lo as int, hi as int),
{
    let ghost sv = spans_view(v@);
    let mut out: Vec<StyledSpan> = Vec::new();
    let mut base: usize = 0;
    let mut i: usize = 0;
    while i < v.len()
        invariant
            i <= v@.len(),
            sv == spans_view(v@),
            base == spans_cols(sv.take(i as int)),
            out@.len() == i,
            forall|k: int| 0 <= k < i ==> #[trigger] out@[k]@ == clip_spans(sv, lo as int, hi as int)[k],
        decreases v@.len() - i,
    {
        let span = &v[i];
        let content = string_window(&span.content, lo.saturating_sub(base), hi.saturating_sub(base));
        out.push(StyledSpan { content, style: span.style });
        let w = str_width(span.content.as_str());
        proof {
            assert(sv.take(i + 1).drop_last() =~= sv.take(i as int));
        }
        base = base.saturating_add(w);
        i = i + 1;
    }
    proof {
        assert(spans_view(out@) =~= clip_spans(sv, lo as int, hi as int));
    }
    out
}

/// Largest width among rows, 0 for none.
pub open spec fn max_cols(rows: Seq<RowView>) -> int
    decreases rows.len(),
{
    if rows.len() == 0 {
        0
    } else {
        let m = max_cols(rows.drop_last());
        let w = row_cols(rows.last());
        if w > m {
            w
        } else {
            m
        }
    }
}

/// Row that the viewport shows first: the one `y` back from the newest,
/// or the oldest when `y` reaches past it.
pub open spec fn first_shown(y: int, num: int) -> int {
    if y >= num {
        sat_sub(num, 1)
    } else {
        y
    }
}

/// How many rows a viewport of `height` rows shows.
pub open spec fn shown_count(y: int, num: int, height: int) -> int {
    let avail = num - first_shown(y, num);
    if height < avail {
        height
    } else {
        avail
    }
}

/// Scroll position after one navigation key, on a list of `len` rows whose
/// widest row is `wid` columns.
pub open spec fn nav_offset(o: Coord, len: int, wid: int, e: ListNavEvent) -> Coord {
    match e {
        ListNavEvent::Up => Coord { y: if o.y + 1 < len { (o.y + 1) as usize } else { o.y }, ..o },
        ListNavEvent::Down => Coord { y: sat_sub(o.y as int, 1) as usize, ..o },
        ListNavEvent::Left => Coord { x: sat_sub(o.x as int, 1) as usize, ..o },
        ListNavEvent::Right => Coord { x: if o.x + 1 < wid { (o.x + 1) as usize } else { o.x }, ..o },
        _ => o,
    }
}

/// The rows of a list and its scroll position.
#[derive(Clone, Debug)]
pub struct MovableListState {
    pub offset: Coord,
    pub items: Vec<MovableListItem>,
}

impl MovableListState {
    pub open spec fn rows(&self) -> Seq<RowView> {
        self.items@.map_values(|i: MovableListItem| i@)
    }

    /// An empty list at the tail, not held.
    pub fn new() -> (r: MovableListState)
        ensures
            r.offset == (Coord { x: 0, y: 0, hold: false }),
            r.items@.len() == 0,
    {
        MovableListState { offset: Coord::default(), items: Vec::new() }
    }

    /// Number of rows.
    pub fn len(&self) -> (r: usize)
        ensures
            r == self.items@.len(),
    {
        self.items.len()
    }

    pub fn _is_empty(&self) -> (r: bool)
        ensures
            r == (self.items@.len() == 0),
    {
        self.items.len() == 0
    }

    /// Position shown to the user: the line counted from the oldest row.
    pub fn current_pos(&self) -> (r: Coord)
        ensures
            r.x == self.offset.x,
            r.y == sat_sub(self.items@.len() as int, self.offset.y as int),
            r.hold == self.offset.hold,
    {
        let x = self.offset.x;
        let y = self.len().saturating_sub(self.offset.y);
        Coord { x, y, hold: self.offset.hold }
    }

    /// Appends a row; the scroll position is left as it is.
    pub fn push(&mut self, item: MovableListItem)
        ensures
            final(self).offset == old(self).offset,
            final(self).items@ == old(self).items@.push(item),
    {
        self.items.push(item);
    }

    /// Replaces the rows with those of `other`; the scroll position and the
    /// hold flag are left as they are.
    pub fn merge(&mut self, other: MovableListState)
        ensures
            final(self).offset == old(self).offset,
            final(self).items@ == other.items@,
    {
        self.items = other.items;
    }

    /// Flips the hold flag.
    pub fn toggle(&mut self)
        ensures
            final(self).offset == (Coord { hold: !old(self).offset.hold, ..old(self).offset }),
            final(self).items == old(self).items,
    {
        self.offset.hold = !self.offset.hold;
    }

    /// Releases the hold and returns to the newest row, leftmost column.
    pub fn end(&mut self)
        ensures
            final(self).offset == (Coord { x: 0, y: 0, hold: false }),
            final(self).items == old(self).items,
    {
        self.offset = Coord { x: 0, y: 0, hold: false };
    }

    /// Width of the widest row.
    pub fn max_width(&self) -> (r: usize)
        ensures
            r == max_cols(self.rows()),
    {
        let mut m: usize = 0;
        let mut i: usize = 0;
        while i < self.items.len()
            invariant
                i <= self.items@.len(),
                m == max_cols(self.rows().take(i as int)),
            decreases self.items@.len() - i,
        {
            let w = self.items[i].width();
            proof {
                assert(self.rows().take(i + 1).drop_last() =~= self.rows().take(i as int));
            }
            if w > m {
                m = w;
            }
            i = i + 1;
        }
        proof {
            assert(self.rows().take(self.items@.len() as int) =~= self.rows());
        }
        m
    }

    /// Moves the scroll position one row or column, staying within
    /// `[0, rows)` back from the newest row and `[0, widest row)` from the left.
    pub fn handle(&mut self, event: ListNavEvent)
        ensures
            final(self).items == old(self).items,
            final(self).offset.hold == old(self).offset.hold,
            final(self).offset == nav_offset(old(self).offset, old(self).items@.len() as int, max_cols(old(self).rows()), event),
    {
        match event {
            ListNavEvent::Up => {
                if self.offset.y < self.items.len() && self.offset.y + 1 < self.items.len() {
                    self.offset.y = self.offset.y + 1;
                }
            },
            ListNavEvent::Down => {
                self.offset.y = self.offset.y.saturating_sub(1);
            },
            ListNavEvent::Left => {
                self.offset.x = self.offset.x.saturating_sub(1);
            },
            ListNavEvent::Right => {
                let wid = self.max_width();
                if self.offset.x < wid && self.offset.x + 1 < wid {
                    self.offset.x = self.offset.x + 1;
                }
            },
            _ => {},
        }
    }

    /// The rows that a viewport of `height` rows and `width` columns shows,
    /// newest first, each clipped to the columns `[x, x + width)`.
    pub fn visible_rows(&self, height: usize, width: usize) -> (r: Vec<MovableListItem>)
        ensures
            ({
                let num = self.items@.len() as int;
                let y0 = first_shown(self.offset.y as int, num);
                let lo = self.offset.x as int;
                let hi = if lo + width > max_usize() { max_usize() } else { lo + width };
                &&& r@.len() == shown_count(self.offset.y as int, num, height as int)
                &&& forall|k: int|
                    0 <= k < r@.len() ==> #[trigger] r@[k]@ == shown_row(
                        self.rows()[num - 1 - (y0 + k)],
                        lo,
                        hi,
                    )
            }),
    {
        let num = self.items.len();
        let y0 = if self.offset.y >= num {
            num.saturating_sub(1)
        } else {
            self.offset.y
        };
        let lo = self.offset.x;
        let hi = lo.saturating_add(width);
        let count = if height < num - y0 {
            height
        } else {
            num - y0
        };
        let range = Range { start: lo, end: hi };
        let mut out: Vec<MovableListItem> = Vec::new();
        let mut k: usize = 0;
        while k < count
            invariant
                num == self.items@.len(),
                y0 == first_shown(self.offset.y as int, num as int),
                count == shown_count(self.offset.y as int, num as int, height as int),
                count + y0 <= num,
                range.start == lo,
                range.end == hi,
                lo == self.offset.x,
                hi == (if lo + width > max_usize() { max_usize() } else { lo + width }),
                k <= count,
                out@.len() == k,
                forall|j: int|
                    0 <= j < k ==> #[trigger] out@[j]@ == shown_row(
                        self.rows()[num - 1 - (y0 + j)],
                        lo as int,
                        hi as int,
                    ),
                width == 0 ==> forall|j: int|
                    0 <= j < k && row_cols(self.rows()[num - 1 - (y0 + j)]) != 0
                        ==> #[trigger] out@[j]@ == more_marker(),
            decreases count - k,
        {
            let item = &self.items[num - 1 - (y0 + k)];
            let full = item.width();
            let mut row = match item {
                MovableListItem::Raw(x) => MovableListItem::Raw(x.clone()),
                MovableListItem::Spans(v) => MovableListItem::Spans(copy_spans(v)),
            };
            let ghost idx = num - 1 - (y0 + k);
            assert(row@ == self.rows()[idx]);
            row.range(&range);
            proof {
                if width == 0 {
                    lemma_clip_row_empty_range(self.rows()[idx], lo as int);
                }
            }
            if full != 0 && row.width() == 0 {
                proof {
                    reveal_strlit("\u{25c0}");
                }
                let marker = String::from_str("\u{25c0}");
                assert(marker@ =~= seq!['\u{25c0}']);
                row = MovableListItem::Raw(marker);
            }
            assert(row@ == shown_row(self.rows()[idx], lo as int, hi as int));
            out.push(row);
            k = k + 1;
        }
        out
    }
}

/// A titled view of a list, as a frame draws it.
#[derive(Clone, Debug)]
pub struct MovableList<'a> {
    pub title: String,
    pub state: &'a MovableListState,
}

impl<'a> MovableList<'a> {
    pub fn new(title: String, state: &'a MovableListState) -> (r: MovableList<'a>)
        ensures
            r.title@ == title@,
            *r.state == *state,
    {
        MovableList { title, state }
    }

    /// The rows to draw in an area of `height` by `width` cells: two rows and
    /// two columns go to the border.
    pub fn rows(&self, height: u16, width: u16) -> (r: Vec<MovableListItem>)
        ensures
            r@.len() == shown_count(
                self.state.offset.y as int,
                self.state.items@.len() as int,
                sat_sub(height as int, 2),
            ),
            forall|k: int|
                0 <= k < r@.len() ==> #[trigger] r@[k]@ == shown_row(
                    self.state.rows()[self.state.items@.len() - 1 - (first_shown(
                        self.state.offset.y as int,
                        self.state.items@.len() as int,
                    ) + k)],
                    self.state.offset.x as int,
                    if self.state.offset.x + width > max_usize() { max_usize() } else { self.state.offset.x + width },
                ),
    {
        let h = (height as usize).saturating_sub(2);
        self.state.visible_rows(h, width as usize)
    }
}

fn copy_spans(v: &Vec<StyledSpan>) -> (r: Vec<StyledSpan>)
    ensures
        spans_view(r@) == spans_view(v@),
{
    let mut out: Vec<StyledSpan> = Vec::new();
    let mut i: usize = 0;
    while i < v.len()
        invariant
            i <= v@.len(),
            out@.len() == i,
            forall|k: int| 0 <= k < i ==> #[trigger] out@[k]@ == v@[k]@,
        decreases v@.len() - i,
    {
        out.push(StyledSpan { content: v[i].content.clone(), style: v[i].style });
        i = i + 1;
    }
    proof {
        assert(spans_view(out@) =~= spans_view(v@));
    }
    out
}

} // verus!

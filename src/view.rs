//! The contract every widget meets, the sizing policy, and the node that
//! carries the layout fields around a widget's own content.
use vstd::prelude::*;

verus! {

/// How a widget's measured size follows from its parent's constraint.
#[derive(Clone, Copy, PartialEq, Eq, Structural)]
pub enum Dimension {
    /// Take the whole constraint.
    MatchParent,
    /// Take the size of the content, at most the constraint.
    WrapContent,
    /// A fixed size, at most the constraint.
    Absolute(u16),
}

/// One terminal output operation of a redraw.
#[derive(Clone, Debug, PartialEq, Eq)]
pub enum Draw {
    /// Move the cursor to column `x`, row `y`.
    Goto(u16, u16),
    /// Print `n` blanks.
    Blank(u16),
    /// Print the characters.
    Print(Vec<char>),
    SaveCursor,
    RestoreCursor,
}

/// A drawing operation with its text as a sequence.
pub enum DrawView {
    Goto(u16, u16),
    Blank(u16),
    Print(Seq<char>),
    SaveCursor,
    RestoreCursor,
}

impl View for Draw {
    type V = DrawView;

    open spec fn view(&self) -> DrawView {
        match self {
            Draw::Goto(x, y) => DrawView::Goto(*x, *y),
            Draw::Blank(n) => DrawView::Blank(*n),
            Draw::Print(t) => DrawView::Print(t@),
            Draw::SaveCursor => DrawView::SaveCursor,
            Draw::RestoreCursor => DrawView::RestoreCursor,
        }
    }
}

/// The operations of `s`, each by its view.
pub open spec fn ops_view(s: Seq<Draw>) -> Seq<DrawView> {
    s.map_values(|d: Draw| d@)
}

/// Append `part` to `out`.
pub fn append_ops(out: &mut Vec<Draw>, part: Vec<Draw>)
    ensures
        ops_view(final(out)@) == ops_view(old(out)@) + ops_view(part@),
{
    let ghost added = part@;
    let mut part = part;
    out.append(&mut part);
    assert(ops_view(out@) =~= ops_view(old(out)@) + ops_view(added));
}

/// `m` respects the constraint `c`: under a definite constraint the measured
/// size is definite and no larger.
pub open spec fn within(c: Option<u16>, m: Option<u16>) -> bool {
    match c {
        Some(c) => m is Some && m->0 <= c,
        None => true,
    }
}

/// A size read with the absent size as zero.
pub open spec fn or_zero(m: Option<u16>) -> int {
    match m {
        Some(v) => v as int,
        None => 0,
    }
}

/// Measured size of a widget without a content size under `d`.
pub open spec fn dim_measure(d: Dimension, c: Option<u16>) -> Option<u16> {
    match d {
        Dimension::Absolute(n) => match c {
            Some(c) => Some(if n <= c { n } else { c }),
            None => Some(n),
        },
        _ => c,
    }
}

/// Measured size of a widget without a content size: an absolute size is
/// clamped to the constraint, any other size takes the constraint.
pub fn measure_dim(d: Dimension, c: Option<u16>) -> (r: Option<u16>)
    ensures
        r == dim_measure(d, c),
        within(c, r),
{
    match d {
        Dimension::Absolute(n) => match c {
            Some(c) => Some(if n <= c { n } else { c }),
            None => Some(n),
        },
        _ => c,
    }
}

/// Measured size of a widget whose content needs `natural` cells under `d`.
pub open spec fn content_measure(d: Dimension, c: Option<u16>, natural: u16) -> Option<u16> {
    match d {
        Dimension::WrapContent => dim_measure(Dimension::Absolute(natural), c),
        _ => dim_measure(d, c),
    }
}

/// Measured size of a widget whose content needs `natural` cells: under
/// `WrapContent` the content size clamped to the constraint.
pub fn measure_content(d: Dimension, c: Option<u16>, natural: u16) -> (r: Option<u16>)
    ensures
        r == content_measure(d, c, natural),
        within(c, r),
{
    match d {
        Dimension::WrapContent => measure_dim(Dimension::Absolute(natural), c),
        _ => measure_dim(d, c),
    }
}

/// The measure / layout / redraw contract of every widget.
pub trait ViewTrait: Sized {
    /// Measured width, absent until a measure under a definite constraint.
    spec fn spec_width(&self) -> Option<u16>;

    spec fn spec_height(&self) -> Option<u16>;

    /// Column of the top-left corner.
    spec fn spec_left(&self) -> u16;

    /// Row of the top-left corner.
    spec fn spec_top(&self) -> u16;

    /// A re-render is pending.
    spec fn spec_dirty(&self) -> bool;

    /// Measuring hands the width constraint back unchanged.
    spec fn fills_width(&self) -> bool;

    spec fn fills_height(&self) -> bool;

    /// Measured, with every part that layout and redraw read.
    spec fn ready(&self) -> bool;

    /// What `redraw` emits.
    spec fn spec_redraw(&self) -> Seq<DrawView>;

    /// Measuring and laying out leave the widget's own state as in `before`:
    /// its sizing policy and content, or for a container its children's
    /// arrangement.
    spec fn keeps_state(&self, before: Self) -> bool;

    /// What measuring `before` under (`width_spec`, `height_spec`) makes of
    /// it: the widget's own sizing rule, and for a container what each child
    /// was measured with.
    spec fn measure_post(&self, before: Self, width_spec: Option<u16>, height_spec: Option<u16>) -> bool;

    /// What laying `before` out at (`left`, `top`) makes of it: for a
    /// container, where each child went.
    spec fn layout_post(&self, before: Self, top: u16, left: u16) -> bool;

    fn measure(&mut self, width_spec: Option<u16>, height_spec: Option<u16>)
        ensures
            within(width_spec, final(self).spec_width()),
            within(height_spec, final(self).spec_height()),
            old(self).fills_width() ==> final(self).spec_width() == width_spec,
            old(self).fills_height() ==> final(self).spec_height() == height_spec,
            final(self).fills_width() == old(self).fills_width(),
            final(self).fills_height() == old(self).fills_height(),
            final(self).spec_left() == old(self).spec_left(),
            final(self).spec_top() == old(self).spec_top(),
            final(self).spec_dirty() == old(self).spec_dirty(),
            final(self).keeps_state(*old(self)),
            final(self).measure_post(*old(self), width_spec, height_spec),
            width_spec is Some && height_spec is Some ==> final(self).ready(),
    ;

    fn layout(&mut self, top: u16, left: u16)
        requires
            old(self).ready(),
        ensures
            final(self).ready(),
            !final(self).spec_dirty(),
            final(self).spec_left() == left,
            final(self).spec_top() == top,
            final(self).keeps_state(*old(self)),
            final(self).layout_post(*old(self), top, left),
            final(self).spec_width() == old(self).spec_width(),
            final(self).spec_height() == old(self).spec_height(),
            final(self).fills_width() == old(self).fills_width(),
            final(self).fills_height() == old(self).fills_height(),
    ;

    fn is_dirty(&self) -> (r: bool)
        ensures
            r == self.spec_dirty(),
    ;

    fn get_measured_width(&self) -> (r: Option<u16>)
        ensures
            r == self.spec_width(),
    ;

    fn get_measured_height(&self) -> (r: Option<u16>)
        ensures
            r == self.spec_height(),
    ;

    fn redraw(&self) -> (r: Vec<Draw>)
        requires
            self.ready(),
        ensures
            ops_view(r@) == self.spec_redraw(),
    ;
}

/// A widget node: position, measured size, dirty flag and the widget's own
/// content.
pub struct Widget<T> {
    pub width: Dimension,
    pub height: Dimension,
    pub x: u16,
    pub y: u16,
    pub w: Option<u16>,
    pub h: Option<u16>,
    pub dirty: bool,
    pub content: T,
}

impl<T> Widget<T> {
    /// Measure as a widget without a content size.
    pub fn measure_leaf(&mut self, width_spec: Option<u16>, height_spec: Option<u16>)
        ensures
            final(self).w == dim_measure(old(self).width, width_spec),
            final(self).h == dim_measure(old(self).height, height_spec),
            final(self).width == old(self).width,
            final(self).height == old(self).height,
            final(self).x == old(self).x,
            final(self).y == old(self).y,
            final(self).dirty == old(self).dirty,
            final(self).content == old(self).content,
    {
        self.w = measure_dim(self.width, width_spec);
        self.h = measure_dim(self.height, height_spec);
    }

    /// Take the position and clear the dirty flag.
    pub fn layout_leaf(&mut self, top: u16, left: u16)
        ensures
            final(self).x == left,
            final(self).y == top,
            !final(self).dirty,
            final(self).w == old(self).w,
            final(self).h == old(self).h,
            final(self).width == old(self).width,
            final(self).height == old(self).height,
            final(self).content == old(self).content,
    {
        self.x = left;
        self.y = top;
        self.dirty = false;
    }
}

/// Position, sizes and flags of `a` and `b` agree.
pub open spec fn same_frame<T, U>(a: Widget<T>, b: Widget<U>) -> bool {
    &&& a.width == b.width
    &&& a.height == b.height
    &&& a.x == b.x
    &&& a.y == b.y
    &&& a.w == b.w
    &&& a.h == b.h
    &&& a.dirty == b.dirty
}

/// A copy of the characters.
pub(crate) fn copy_chars(v: &Vec<char>) -> (r: Vec<char>)
    ensures
        r@ == v@,
{
    let mut r: Vec<char> = Vec::new();
    let mut i: usize = 0;
    while i < v.len()
        invariant
            i <= v@.len(),
            r@ == v@.subrange(0, i as int),
        decreases v@.len() - i,
    {
        r.push(v[i]);
        i = i + 1;
    }
    assert(r@ =~= v@);
    r
}

} // verus!

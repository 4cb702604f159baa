//! A container whose children all share one rectangle, of which one is shown.
use vstd::prelude::*;
use crate::view::{Dimension, Draw, DrawView, ops_view, ViewTrait, Widget, within};
use crate::linear::{any_dirty, lemma_same_dirty};

verus! {

/// Keyed children over one rectangle; only the `current` one is drawn.
pub struct FrameLayout<C> {
    pub children: Vec<(String, C)>,
    pub current: Option<String>,
}

/// No key of `s` occurs twice.
pub open spec fn keys_unique<C>(s: Seq<(String, C)>) -> bool {
    forall|i: int, j: int| 0 <= i < j < s.len() ==> (#[trigger] s[i]).0@ != (#[trigger] s[j]).0@
}

/// Index of the child under `key` among the first `n`, or -1.
pub open spec fn find_key<C>(s: Seq<(String, C)>, key: Seq<char>, n: int) -> int
    decreases n,
{
    if n <= 0 {
        -1
    } else if s[n - 1].0@ == key {
        n - 1
    } else {
        find_key(s, key, n - 1)
    }
}

/// The children of `s`, without their keys.
pub open spec fn frame_children<C>(s: Seq<(String, C)>) -> Seq<C> {
    s.map_values(|p: (String, C)| p.1)
}

proof fn lemma_find_key<C>(s: Seq<(String, C)>, key: Seq<char>, n: int)
    requires
        0 <= n <= s.len(),
    ensures
        -1 <= find_key(s, key, n) < n,
        find_key(s, key, n) >= 0 ==> s[find_key(s, key, n)].0@ == key,
        find_key(s, key, n) == -1 <==> forall|k: int| 0 <= k < n ==> (#[trigger] s[k]).0@ != key,
    decreases n,
{
    if n > 0 {
        lemma_find_key(s, key, n - 1);
    }
}

/// `c` is `widget` measured with (`w`, `h`) into `mid`, then laid out at
/// (`x`, `y`), its own state kept throughout.
pub open spec fn measured_and_placed<C: ViewTrait>(
    c: C,
    widget: C,
    mid: C,
    w: Option<u16>,
    h: Option<u16>,
    x: u16,
    y: u16,
) -> bool {
    &&& mid.measure_post(widget, w, h)
    &&& mid.keeps_state(widget)
    &&& c.layout_post(mid, y, x)
    &&& c.keeps_state(mid)
}

impl<C: ViewTrait> Widget<FrameLayout<C>> {
    /// Index of the child under `key`, or -1.
    pub open spec fn index_of(&self, key: Seq<char>) -> int {
        find_key(self.content.children@, key, self.content.children@.len() as int)
    }

    /// An empty frame that fills its parent.
    pub fn new() -> (r: Self)
        ensures
            r.width == Dimension::MatchParent,
            r.height == Dimension::MatchParent,
            r.x == 1,
            r.y == 1,
            r.w is None,
            r.h is None,
            r.dirty,
            r.content.children@.len() == 0,
            r.content.current is None,
    {
        Widget {
            width: Dimension::MatchParent,
            height: Dimension::MatchParent,
            x: 1,
            y: 1,
            w: None,
            h: None,
            dirty: true,
            content: FrameLayout { children: Vec::new(), current: None },
        }
    }

    fn find(&self, key: &String) -> (r: Option<usize>)
        ensures
            match r {
                Some(i) => i == self.index_of(key@) && i < self.content.children@.len(),
                None => self.index_of(key@) == -1,
            },
    {
        let n = self.content.children.len();
        let mut i: usize = n;
        while i > 0
            invariant
                n == self.content.children@.len(),
                i <= n,
                find_key(self.content.children@, key@, n as int) == find_key(self.content.children@, key@, i as int),
            decreases i,
        {
            if self.content.children[i - 1].0 == *key {
                return Some(i - 1);
            }
            i = i - 1;
        }
        None
    }

    /// Show the child under `key` from now on, mark the frame itself dirty,
    /// and redraw.
    pub fn current(&mut self, key: String) -> (r: Vec<Draw>)
        requires
            old(self).ready(),
        ensures
            final(self).content.current == Some(key),
            final(self).content.children == old(self).content.children,
            final(self).dirty,
            final(self).w == old(self).w,
            final(self).h == old(self).h,
            final(self).x == old(self).x,
            final(self).y == old(self).y,
            ops_view(r@) == final(self).spec_redraw(),
    {
        self.content.current = Some(key);
        self.dirty = true;
        self.redraw()
    }

    /// Add `widget` under `key`, replacing the child already there; the widget
    /// is measured and placed on the frame's rectangle.
    pub fn insert(&mut self, key: String, widget: C)
        requires
            old(self).w is Some,
            old(self).h is Some,
            keys_unique(old(self).content.children@),
        ensures
            keys_unique(final(self).content.children@),
            final(self).w == old(self).w,
            final(self).h == old(self).h,
            final(self).x == old(self).x,
            final(self).y == old(self).y,
            final(self).content.current == old(self).content.current,
            final(self).index_of(key@) >= 0,
            ({
                let c = final(self).content.children@[final(self).index_of(key@)].1;
                &&& c.ready()
                &&& !c.spec_dirty()
                &&& c.spec_left() == old(self).x
                &&& c.spec_top() == old(self).y
                &&& within(old(self).w, c.spec_width())
                &&& within(old(self).h, c.spec_height())
                &&& c.fills_width() == widget.fills_width()
                &&& c.fills_height() == widget.fills_height()
                &&& exists|mid: C| #[trigger] measured_and_placed(c, widget, mid, old(self).w, old(self).h,
                    old(self).x, old(self).y)
            }),
            old(self).index_of(key@) >= 0 ==> final(self).content.children@
                == old(self).content.children@.update(old(self).index_of(key@),
                    final(self).content.children@[old(self).index_of(key@)]),
            old(self).index_of(key@) == -1 ==> final(self).content.children@
                == old(self).content.children@.push(final(self).content.children@.last()),
    {
        let ghost old_widget = widget;
        let mut widget = widget;
        widget.measure(self.w, self.h);
        let ghost mid = widget;
        widget.layout(self.y, self.x);
        assert(measured_and_placed(widget, old_widget, mid, self.w, self.h, self.x, self.y));
        let ghost before = self.content.children@;
        proof { lemma_find_key(before, key@, before.len() as int); }
        match self.find(&key) {
            Some(i) => {
                self.content.children.set(i, (key, widget));
                proof {
                    let s = self.content.children@;
                    lemma_find_key(s, key@, s.len() as int);
                    assert forall|k: int| 0 <= k < s.len() && k != i implies (#[trigger] s[k]).0@ == before[k].0@ by {}
                    assert(find_key(s, key@, s.len() as int) == i) by {
                        lemma_find_unique(s, key@, i as int, s.len() as int);
                    }
                }
            },
            None => {
                self.content.children.push((key, widget));
                proof {
                    let s = self.content.children@;
                    let n = before.len() as int;
                    assert(s[n].0@ == key@);
                    assert(find_key(s, key@, n + 1) == n);
                }
            },
        }
    }
}

proof fn lemma_find_unique<C>(s: Seq<(String, C)>, key: Seq<char>, i: int, n: int)
    requires
        0 <= i < n <= s.len(),
        keys_unique(s),
        s[i].0@ == key,
    ensures
        find_key(s, key, n) == i,
    decreases n,
{
    if n - 1 > i {
        assert(s[i].0@ != s[n - 1].0@);
        lemma_find_unique(s, key, i, n - 1);
    }
}

impl<C: ViewTrait> ViewTrait for Widget<FrameLayout<C>> {
    open spec fn spec_width(&self) -> Option<u16> {
        self.w
    }

    open spec fn spec_height(&self) -> Option<u16> {
        self.h
    }

    open spec fn spec_left(&self) -> u16 {
        self.x
    }

    open spec fn spec_top(&self) -> u16 {
        self.y
    }

    open spec fn spec_dirty(&self) -> bool {
        any_dirty(frame_children(self.content.children@))
    }

    open spec fn fills_width(&self) -> bool {
        true
    }

    open spec fn fills_height(&self) -> bool {
        true
    }

    open spec fn ready(&self) -> bool {
        &&& self.w is Some
        &&& self.h is Some
        &&& forall|k: int| 0 <= k < self.content.children@.len() ==> (#[trigger] self.content.children@[k]).1.ready()
    }

    open spec fn keeps_state(&self, before: Self) -> bool {
        &&& self.width == before.width
        &&& self.height == before.height
        &&& self.content.current == before.content.current
        &&& self.content.children@.len() == before.content.children@.len()
        &&& forall|k: int| 0 <= k < self.content.children@.len()
            ==> (#[trigger] self.content.children@[k]).0 == before.content.children@[k].0
    }

    /// The frame takes the constraint, and every child is measured with it.
    open spec fn measure_post(&self, before: Self, width_spec: Option<u16>, height_spec: Option<u16>) -> bool {
        &&& self.w == width_spec
        &&& self.h == height_spec
        &&& self.content.children@.len() == before.content.children@.len()
        &&& forall|k: int| 0 <= k < self.content.children@.len()
            ==> (#[trigger] self.content.children@[k]).1.measure_post(before.content.children@[k].1, width_spec, height_spec)
    }

    /// Every child is laid out at the frame's corner.
    open spec fn layout_post(&self, before: Self, top: u16, left: u16) -> bool {
        &&& self.content.children@.len() == before.content.children@.len()
        &&& forall|k: int| 0 <= k < self.content.children@.len() ==> {
            let c = (#[trigger] self.content.children@[k]).1;
            &&& c.layout_post(before.content.children@[k].1, top, left)
            &&& c.spec_left() == left
            &&& c.spec_top() == top
        }
    }

    open spec fn spec_redraw(&self) -> Seq<DrawView> {
        match self.content.current {
            Some(key) => if self.index_of(key@) >= 0 {
                self.content.children@[self.index_of(key@)].1.spec_redraw()
            } else {
                Seq::empty()
            },
            None => Seq::empty(),
        }
    }

    /// Every child gets the frame's own constraint.
    fn measure(&mut self, width_spec: Option<u16>, height_spec: Option<u16>) {
        self.w = width_spec;
        self.h = height_spec;
        let n = self.content.children.len();
        let mut i: usize = 0;
        while i < n
            invariant
                n == self.content.children@.len(),
                i <= n,
                self.w == width_spec,
                self.h == height_spec,
                forall|k: int| 0 <= k < i ==> (#[trigger] self.content.children@[k]).1.measure_post(
                    old(self).content.children@[k].1, width_spec, height_spec),
                forall|k: int| 0 <= k < n ==> (#[trigger] self.content.children@[k]).1.spec_dirty()
                    == old(self).content.children@[k].1.spec_dirty(),
                forall|k: int| i <= k < n ==> self.content.children@[k] == old(self).content.children@[k],
                self.x == old(self).x,
                self.y == old(self).y,
                self.width == old(self).width,
                self.height == old(self).height,
                self.content.current == old(self).content.current,
                n == old(self).content.children@.len(),
                forall|k: int| 0 <= k < n ==> (#[trigger] self.content.children@[k]).0 == old(self).content.children@[k].0,
                width_spec is Some && height_spec is Some ==> forall|k: int| 0 <= k < i ==> (#[trigger] self.content.children@[k]).1.ready(),
            decreases n - i,
        {
            let ghost before = self.content.children@;
            self.content.children[i].1.measure(width_spec, height_spec);
            proof {
                assert(self.content.children@ =~= before.update(i as int, self.content.children@[i as int]));
            }
            i = i + 1;
        }
        proof {
            let a = frame_children(self.content.children@);
            let b = frame_children(old(self).content.children@);
            assert forall|k: int| 0 <= k < a.len() implies (#[trigger] a[k]).spec_dirty() == b[k].spec_dirty() by {
                assert(a[k] == self.content.children@[k].1);
                assert(b[k] == old(self).content.children@[k].1);
            }
            lemma_same_dirty(a, b);
        }
    }

    /// Every child is placed on the frame's rectangle.
    fn layout(&mut self, top: u16, left: u16) {
        self.x = left;
        self.y = top;
        self.dirty = false;
        let n = self.content.children.len();
        let mut i: usize = 0;
        while i < n
            invariant
                n == self.content.children@.len(),
                n == old(self).content.children@.len(),
                i <= n,
                self.w == old(self).w,
                self.h == old(self).h,
                self.x == left,
                self.y == top,
                !self.dirty,
                self.width == old(self).width,
                self.height == old(self).height,
                self.content.current == old(self).content.current,
                forall|k: int| 0 <= k < n ==> (#[trigger] self.content.children@[k]).0 == old(self).content.children@[k].0,
                self.w is Some,
                self.h is Some,
                forall|k: int| i <= k < n ==> self.content.children@[k] == old(self).content.children@[k],
                forall|k: int| 0 <= k < n ==> (#[trigger] self.content.children@[k]).1.ready(),
                forall|k: int| 0 <= k < i ==> !(#[trigger] self.content.children@[k]).1.spec_dirty(),
                forall|k: int| 0 <= k < i ==> {
                    let c = (#[trigger] self.content.children@[k]).1;
                    &&& c.layout_post(old(self).content.children@[k].1, top, left)
                    &&& c.spec_left() == left
                    &&& c.spec_top() == top
                },
            decreases n - i,
        {
            assert(self.content.children@[i as int] == old(self).content.children@[i as int]);
            let ghost before = self.content.children@;
            self.content.children[i].1.layout(top, left);
            proof {
                assert(self.content.children@ =~= before.update(i as int, self.content.children@[i as int]));
            }
            i = i + 1;
        }
        proof {
            let s = frame_children(self.content.children@);
            assert forall|k: int| 0 <= k < s.len() implies !(#[trigger] s[k]).spec_dirty() by {
                assert(s[k] == self.content.children@[k].1);
            }
        }
    }

    fn is_dirty(&self) -> (r: bool) {
        let n = self.content.children.len();
        let mut dirty = false;
        let mut i: usize = 0;
        let ghost s = frame_children(self.content.children@);
        while i < n
            invariant
                n == self.content.children@.len(),
                s == frame_children(self.content.children@),
                i <= n,
                dirty == exists|k: int| 0 <= k < i && (#[trigger] s[k]).spec_dirty(),
            decreases n - i,
        {
            let d = self.content.children[i].1.is_dirty();
            assert(s[i as int] == self.content.children@[i as int].1);
            dirty = dirty || d;
            i = i + 1;
        }
        dirty
    }

    fn get_measured_width(&self) -> (r: Option<u16>) {
        self.w
    }

    fn get_measured_height(&self) -> (r: Option<u16>) {
        self.h
    }

    /// Only the current child is drawn.
    fn redraw(&self) -> (r: Vec<Draw>) {
        match &self.content.current {
            Some(key) => match self.find(key) {
                Some(i) => self.content.children[i].1.redraw(),
                None => {
                    let r = Vec::new();
                    assert(ops_view(r@) =~= Seq::empty());
                    r
                },
            },
            None => {
                let r = Vec::new();
                assert(ops_view(r@) =~= Seq::empty());
                r
            },
        }
    }
}

} // verus!

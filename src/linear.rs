//! A container that lays its children out one after the other along an axis.
use vstd::prelude::*;
use crate::view::{Dimension, Draw, DrawView, ops_view, append_ops, ViewTrait, Widget, within, or_zero, dim_measure, measure_dim};

verus! {

/// The axis along which a linear layout flows.
#[derive(Clone, Copy, PartialEq, Eq, Structural)]
pub enum Orientation {
    Vertical,
    Horizontal,
}

/// Children laid out one after the other along `orientation`.
pub struct LinearLayout<C> {
    pub orientation: Orientation,
    pub children: Vec<C>,
}

/// Size of `c` along the axis `o`.
pub open spec fn primary<C: ViewTrait>(o: Orientation, c: C) -> Option<u16> {
    if o == Orientation::Horizontal {
        c.spec_width()
    } else {
        c.spec_height()
    }
}

/// Of a width `w` and a height `h`, the one along `o`.
pub open spec fn along(o: Orientation, w: Option<u16>, h: Option<u16>) -> Option<u16> {
    if o == Orientation::Horizontal {
        w
    } else {
        h
    }
}

/// Size of `c` across the axis `o`.
pub open spec fn cross<C: ViewTrait>(o: Orientation, c: C) -> Option<u16> {
    if o == Orientation::Horizontal {
        c.spec_height()
    } else {
        c.spec_width()
    }
}

/// `c` takes whatever it is given along the axis `o`.
pub open spec fn fills_primary<C: ViewTrait>(o: Orientation, c: C) -> bool {
    if o == Orientation::Horizontal {
        c.fills_width()
    } else {
        c.fills_height()
    }
}

/// Sum of the sizes of the first `n` children along `o`, an absent size as zero.
pub open spec fn primary_sum<C: ViewTrait>(o: Orientation, s: Seq<C>, n: int) -> int
    decreases n,
{
    if n <= 0 {
        0
    } else {
        primary_sum(o, s, n - 1) + or_zero(primary(o, s[n - 1]))
    }
}

/// Largest size of the first `n` children across `o`, an absent size as zero.
pub open spec fn cross_max<C: ViewTrait>(o: Orientation, s: Seq<C>, n: int) -> int
    decreases n,
{
    if n <= 0 {
        0
    } else {
        let m = cross_max(o, s, n - 1);
        let c = or_zero(cross(o, s[n - 1]));
        if m < c { c } else { m }
    }
}

/// Sum of the definite sizes among the first `n` of `first`.
pub open spec fn known_sum(first: Seq<Option<u16>>, n: int) -> int
    decreases n,
{
    if n <= 0 {
        0
    } else {
        known_sum(first, n - 1) + or_zero(first[n - 1])
    }
}

/// Number of absent sizes among the first `n` of `first`.
pub open spec fn elastic_count(first: Seq<Option<u16>>, n: int) -> int
    decreases n,
{
    if n <= 0 {
        0
    } else {
        elastic_count(first, n - 1) + if first[n - 1] is None { 1int } else { 0int }
    }
}

/// Sum of the constraints handed out in the distribution pass: a definite
/// size is handed back, an absent one gets `share`.
pub open spec fn bound_sum(first: Seq<Option<u16>>, share: int, n: int) -> int
    decreases n,
{
    if n <= 0 {
        0
    } else {
        bound_sum(first, share, n - 1) + match first[n - 1] {
            Some(v) => v as int,
            None => share,
        }
    }
}

proof fn lemma_bound_sum(first: Seq<Option<u16>>, share: int, n: int)
    requires
        0 <= n,
        0 <= share,
    ensures
        bound_sum(first, share, n) == known_sum(first, n) + share * elastic_count(first, n),
        0 <= elastic_count(first, n) <= n,
        0 <= known_sum(first, n),
    decreases n,
{
    if n > 0 {
        lemma_bound_sum(first, share, n - 1);
        assert(share * elastic_count(first, n) == share * elastic_count(first, n - 1) + if first[n
            - 1] is None { share } else { 0 }) by (nonlinear_arith)
            requires
                elastic_count(first, n) == elastic_count(first, n - 1) + if first[n - 1] is None {
                    1int
                } else {
                    0int
                },
        ;
    }
}

proof fn lemma_bound_sum_mono(first: Seq<Option<u16>>, share: int, i: int, n: int)
    requires
        0 <= i <= n,
        0 <= share,
    ensures
        bound_sum(first, share, i) <= bound_sum(first, share, n),
    decreases n - i,
{
    if i < n {
        lemma_bound_sum_mono(first, share, i, n - 1);
    }
}

proof fn lemma_share(remaining: int, count: int)
    requires
        0 <= remaining,
        0 < count,
    ensures
        (remaining / count) * count <= remaining,
        0 <= remaining / count,
{
    assert((remaining / count) * count <= remaining) by (nonlinear_arith)
        requires
            0 <= remaining,
            0 < count,
    ;
}

/// What the children of `s` emit, one after the other.
pub open spec fn redraw_all<C: ViewTrait>(s: Seq<C>, n: int) -> Seq<DrawView>
    decreases n,
{
    if n <= 0 {
        Seq::empty()
    } else {
        redraw_all(s, n - 1) + s[n - 1].spec_redraw()
    }
}

/// `n` kept within a terminal coordinate.
pub open spec fn sat16(n: int) -> u16 {
    if n <= 65535 { n as u16 } else { 65535 }
}

/// Sizes along `o` that the children of `mid` reported without a constraint.
pub open spec fn natural_sizes<C: ViewTrait>(o: Orientation, mid: Seq<C>) -> Seq<Option<u16>> {
    mid.map_values(|c: C| primary(o, c))
}

/// What each elastic child gets: the room that the natural sizes leave of
/// the constraint `max_p`, divided by the number of elastic children,
/// rounded down; nothing without a constraint or when no room is left.
pub open spec fn elastic_share(max_p: Option<u16>, first: Seq<Option<u16>>) -> int {
    let count = elastic_count(first, first.len() as int);
    let natural = sat16(known_sum(first, first.len() as int)) as int;
    match max_p {
        Some(m) => if count > 0 && m > natural { (m - natural) / count } else { 0 },
        None => 0,
    }
}

/// The constraint along the axis of child `k`: its natural size, or the
/// share when it has none, cut to what `taken` leaves of `max_p`.
pub open spec fn child_room(max_p: Option<u16>, first: Seq<Option<u16>>, share: int, taken: int, k: int) -> u16 {
    let base = match first[k] {
        Some(v) => v as int,
        None => share,
    };
    match max_p {
        Some(m) => if base > m - taken { (m - taken) as u16 } else { base as u16 },
        None => base as u16,
    }
}

/// `c` is `from` measured with `room` along `o` and `across` across it.
pub open spec fn measured_with<C: ViewTrait>(o: Orientation, c: C, from: C, room: u16, across: Option<u16>) -> bool {
    if o == Orientation::Horizontal {
        c.measure_post(from, Some(room), across)
    } else {
        c.measure_post(from, across, Some(room))
    }
}

/// The children `s` came from `before` through `mid`: each was measured
/// without a constraint into `mid`, then with its room along the axis and
/// `max_c` across; the children that fill get exactly the share.
pub open spec fn children_measured<C: ViewTrait>(
    o: Orientation,
    before: Seq<C>,
    mid: Seq<C>,
    s: Seq<C>,
    max_p: Option<u16>,
    max_c: Option<u16>,
) -> bool {
    let first = natural_sizes(o, mid);
    let share = elastic_share(max_p, first);
    &&& mid.len() == before.len()
    &&& s.len() == before.len()
    &&& forall|k: int| 0 <= k < before.len() ==> (#[trigger] mid[k]).measure_post(before[k], None, None)
    &&& forall|k: int| 0 <= k < before.len() ==> measured_with(o, #[trigger] s[k], mid[k],
        child_room(max_p, first, share, primary_sum(o, s, k), k), max_c)
    &&& forall|k: int| 0 <= k < before.len() && fills_primary(o, #[trigger] before[k])
        ==> primary(o, s[k]) == Some(share as u16)
}

/// What measuring a linear layout makes of it.
pub open spec fn linear_measure_post<C: ViewTrait>(
    after: Widget<LinearLayout<C>>,
    before: Widget<LinearLayout<C>>,
    width_spec: Option<u16>,
    height_spec: Option<u16>,
) -> bool {
    let o = before.content.orientation;
    let s = after.content.children@;
    let max_p = max_primary(before, width_spec, height_spec);
    let max_c = max_cross(before, width_spec, height_spec);
    &&& exists|mid: Seq<C>| #[trigger] children_measured(o, before.content.children@, mid, s, max_p, max_c)
    &&& along(o, after.w, after.h) == Some(sat16(primary_sum(o, s, s.len() as int)))
    &&& along(o, after.h, after.w) == Some(cross_max(o, s, s.len() as int) as u16)
    &&& max_p is Some ==> primary_sum(o, s, s.len() as int) <= max_p->0
}

/// Constraint of a linear layout along its axis.
pub open spec fn max_primary<C>(v: Widget<LinearLayout<C>>, width_spec: Option<u16>, height_spec: Option<u16>) -> Option<u16> {
    if v.content.orientation == Orientation::Horizontal {
        dim_measure(v.width, width_spec)
    } else {
        dim_measure(v.height, height_spec)
    }
}

/// Constraint of a linear layout across its axis.
pub open spec fn max_cross<C>(v: Widget<LinearLayout<C>>, width_spec: Option<u16>, height_spec: Option<u16>) -> Option<u16> {
    if v.content.orientation == Orientation::Horizontal {
        dim_measure(v.height, height_spec)
    } else {
        dim_measure(v.width, width_spec)
    }
}

fn primary_size<C: ViewTrait>(o: Orientation, c: &C) -> (r: Option<u16>)
    ensures
        r == primary(o, *c),
{
    if o == Orientation::Horizontal {
        c.get_measured_width()
    } else {
        c.get_measured_height()
    }
}

fn cross_size<C: ViewTrait>(o: Orientation, c: &C) -> (r: Option<u16>)
    ensures
        r == cross(o, *c),
{
    if o == Orientation::Horizontal {
        c.get_measured_height()
    } else {
        c.get_measured_width()
    }
}

fn size_or_zero(m: Option<u16>) -> (r: u16)
    ensures
        r == or_zero(m),
{
    match m {
        Some(v) => v,
        None => 0,
    }
}

proof fn lemma_prefix_first(a: Seq<Option<u16>>, b: Seq<Option<u16>>, share: int, n: int)
    requires
        0 <= n <= a.len(),
        n <= b.len(),
        forall|k: int| 0 <= k < n ==> a[k] == b[k],
    ensures
        known_sum(a, n) == known_sum(b, n),
        elastic_count(a, n) == elastic_count(b, n),
        bound_sum(a, share, n) == bound_sum(b, share, n),
    decreases n,
{
    if n > 0 {
        lemma_prefix_first(a, b, share, n - 1);
    }
}

proof fn lemma_primary_sum_nonneg<C: ViewTrait>(o: Orientation, s: Seq<C>, n: int)
    ensures
        primary_sum(o, s, n) >= 0,
    decreases n,
{
    if n > 0 {
        lemma_primary_sum_nonneg(o, s, n - 1);
    }
}

proof fn lemma_prefix_sums<C: ViewTrait>(o: Orientation, s: Seq<C>, t: Seq<C>, n: int)
    requires
        0 <= n <= s.len(),
        n <= t.len(),
        forall|k: int| 0 <= k < n ==> s[k] == t[k],
    ensures
        primary_sum(o, s, n) == primary_sum(o, t, n),
        cross_max(o, s, n) == cross_max(o, t, n),
    decreases n,
{
    if n > 0 {
        lemma_prefix_sums(o, s, t, n - 1);
    }
}

impl<C: ViewTrait> Widget<LinearLayout<C>> {
    /// An empty layout along `orientation`.
    pub fn new(orientation: Orientation, width: Dimension, height: Dimension) -> (r: Self)
        ensures
            r.width == width,
            r.height == height,
            r.x == 0,
            r.y == 0,
            r.w is None,
            r.h is None,
            r.dirty,
            r.content.orientation == orientation,
            r.content.children@.len() == 0,
    {
        Widget {
            width,
            height,
            x: 0,
            y: 0,
            w: None,
            h: None,
            dirty: true,
            content: LinearLayout { orientation, children: Vec::new() },
        }
    }

    /// Append a child after the last one.
    pub fn push(&mut self, widget: C)
        ensures
            final(self).content.children@ == old(self).content.children@.push(widget),
            final(self).content.orientation == old(self).content.orientation,
            final(self).width == old(self).width,
            final(self).height == old(self).height,
            final(self).x == old(self).x,
            final(self).y == old(self).y,
            final(self).w == old(self).w,
            final(self).h == old(self).h,
            final(self).dirty == old(self).dirty,
    {
        self.content.children.push(widget);
    }

    /// Two-pass measurement. Every child is first measured without a
    /// constraint; the room left along the axis is then split evenly, by
    /// integer division, among the children that reported no size, and every
    /// child is measured again with its own size or its share along the axis,
    /// never past the room that is left, and the layout's constraint across
    /// it. The layout takes the sum of its children along the axis and their
    /// largest size across it.
    ///
    /// Under a definite constraint the children never take more than it
    /// along the axis, and the children that fill the room they are given all
    /// end with the same size.
    #[verifier::rlimit(100)]
    #[verifier::spinoff_prover]
    pub fn measure_linear(&mut self, width_spec: Option<u16>, height_spec: Option<u16>)
        ensures
            linear_measure_post(*final(self), *old(self), width_spec, height_spec),
            forall|k: int| 0 <= k < old(self).content.children@.len() ==>
                (#[trigger] final(self).content.children@[k]).spec_dirty() == old(self).content.children@[k].spec_dirty(),
            final(self).content.orientation == old(self).content.orientation,
            final(self).width == old(self).width,
            final(self).height == old(self).height,
            final(self).x == old(self).x,
            final(self).y == old(self).y,
            final(self).dirty == old(self).dirty,
            final(self).content.children@.len() == old(self).content.children@.len(),
            forall|k: int| 0 <= k < old(self).content.children@.len() ==>
                fills_primary(old(self).content.orientation, #[trigger] final(self).content.children@[k])
                == fills_primary(old(self).content.orientation, old(self).content.children@[k]),
            forall|k: int| 0 <= k < old(self).content.children@.len() ==>
                within(max_cross(*old(self), width_spec, height_spec),
                    cross(old(self).content.orientation, #[trigger] final(self).content.children@[k])),
            max_primary(*old(self), width_spec, height_spec) is Some ==> {
                let o = old(self).content.orientation;
                let s = final(self).content.children@;
                &&& primary_sum(o, s, s.len() as int) <= max_primary(*old(self), width_spec, height_spec)->0
                &&& along(o, final(self).w, final(self).h) == Some(primary_sum(o, s, s.len() as int) as u16)
            },
            forall|i: int, j: int|
                0 <= i < old(self).content.children@.len() && 0 <= j < old(self).content.children@.len()
                && fills_primary(old(self).content.orientation, #[trigger] old(self).content.children@[i])
                && fills_primary(old(self).content.orientation, #[trigger] old(self).content.children@[j])
                ==> primary(old(self).content.orientation, final(self).content.children@[i])
                    == primary(old(self).content.orientation, final(self).content.children@[j]),
            final(self).w is Some,
            final(self).h is Some,
            along(old(self).content.orientation, final(self).h, final(self).w)
                == Some(cross_max(old(self).content.orientation, final(self).content.children@,
                    final(self).content.children@.len() as int) as u16),
            within(width_spec, final(self).w),
            within(height_spec, final(self).h),
            width_spec is Some && height_spec is Some ==> forall|k: int|
                0 <= k < final(self).content.children@.len() ==> (#[trigger] final(self).content.children@[k]).ready(),
    {
        let o = self.content.orientation;
        let max_w = measure_dim(self.width, width_spec);
        let max_h = measure_dim(self.height, height_spec);
        let max_p = if o == Orientation::Horizontal { max_w } else { max_h };
        let max_c = if o == Orientation::Horizontal { max_h } else { max_w };
        let n = self.content.children.len();
        let ghost first: Seq<Option<u16>> = Seq::empty();
        let mut natural: u16 = 0;
        let mut count: usize = 0;
        let mut i: usize = 0;
        while i < n
            invariant
                o == old(self).content.orientation,
                self.content.orientation == o,
                self.width == old(self).width,
                self.height == old(self).height,
                self.x == old(self).x,
                self.y == old(self).y,
                self.dirty == old(self).dirty,
                n == self.content.children@.len(),
                n == old(self).content.children@.len(),
                i <= n,
                first.len() == i,
                forall|k: int| 0 <= k < i ==> first[k] == primary(o, #[trigger] self.content.children@[k]),
                forall|k: int| 0 <= k < n ==> fills_primary(o, #[trigger] self.content.children@[k])
                    == fills_primary(o, old(self).content.children@[k]),
                forall|k: int| 0 <= k < i && fills_primary(o, #[trigger] self.content.children@[k])
                    ==> first[k] is None,
                natural == (if known_sum(first, i as int) <= 65535 { known_sum(first, i as int) } else { 65535 }),
                forall|k: int| 0 <= k < i ==> (#[trigger] self.content.children@[k]).measure_post(
                    old(self).content.children@[k], None, None),
                forall|k: int| i <= k < n ==> self.content.children@[k] == old(self).content.children@[k],
                forall|k: int| 0 <= k < n ==> (#[trigger] self.content.children@[k]).spec_dirty()
                    == old(self).content.children@[k].spec_dirty(),
                count == elastic_count(first, i as int),
            decreases n - i,
        {
            proof { lemma_bound_sum(first, 0, i as int); }
            let ghost before = self.content.children@;
            assert(before[i as int] == old(self).content.children@[i as int]);
            self.content.children[i].measure(None, None);
            proof {
                assert(self.content.children@ =~= before.update(i as int, self.content.children@[i as int]));
            }
            let p = primary_size(o, &self.content.children[i]);
            natural = natural.saturating_add(size_or_zero(p));
            if p.is_none() {
                count = count + 1;
            }
            proof {
                let prev = first;
                first = first.push(p);
                lemma_prefix_first(first, prev, 0, i as int);
            }
            i = i + 1;
        }
        let ghost mid = self.content.children@;
        assert(first =~= natural_sizes(o, mid));
        assert forall|k: int| 0 <= k < n && fills_primary(o, #[trigger] old(self).content.children@[k])
            implies first[k] is None by {
            assert(fills_primary(o, self.content.children@[k]));
        }
        proof { lemma_bound_sum(first, 0, n as int); }
        let remaining: u16 = match max_p {
            Some(m) => m.saturating_sub(natural),
            None => 0,
        };
        let share: u16 = if count == 0 { 0 } else { (remaining as usize / count) as u16 };
        proof {
            if count > 0 {
                lemma_share(remaining as int, count as int);
            }
            lemma_bound_sum(first, share as int, n as int);
            if max_p is Some && known_sum(first, n as int) <= max_p->0 {
                assert(share as int * count as int <= remaining as int);
                assert(bound_sum(first, share as int, n as int) <= max_p->0);
            }
        }
        assert(share as int == elastic_share(max_p, first));
        let mut total_p: u16 = 0;
        let mut total_c: u16 = 0;
        i = 0;
        while i < n
            invariant
                o == old(self).content.orientation,
                self.content.orientation == o,
                self.width == old(self).width,
                self.height == old(self).height,
                self.x == old(self).x,
                self.y == old(self).y,
                self.dirty == old(self).dirty,
                max_p == max_primary(*old(self), width_spec, height_spec),
                max_c == max_cross(*old(self), width_spec, height_spec),
                n == self.content.children@.len(),
                n == mid.len(),
                i <= n,
                first.len() == n,
                forall|k: int| 0 <= k < n ==> first[k] == primary(o, #[trigger] mid[k]),
                forall|k: int| i <= k < n ==> self.content.children@[k] == mid[k],
                forall|k: int| 0 <= k < n ==> fills_primary(o, #[trigger] self.content.children@[k])
                    == fills_primary(o, old(self).content.children@[k]),
                forall|k: int| 0 <= k < n && fills_primary(o, #[trigger] old(self).content.children@[k])
                    ==> first[k] is None,
                max_p is None ==> share == 0,
                max_p is Some && known_sum(first, n as int) <= max_p->0 ==> bound_sum(first, share as int, n as int) <= max_p->0,
                max_p is Some && known_sum(first, n as int) > max_p->0 ==> share == 0,
                first == natural_sizes(o, mid),
                forall|k: int| 0 <= k < n ==> (#[trigger] self.content.children@[k]).spec_dirty()
                    == old(self).content.children@[k].spec_dirty(),
                share as int == elastic_share(max_p, first),
                forall|k: int| 0 <= k < n ==> (#[trigger] mid[k]).measure_post(old(self).content.children@[k], None, None),
                total_p == sat16(primary_sum(o, self.content.children@, i as int)),
                forall|k: int| 0 <= k < i ==> measured_with(o, #[trigger] self.content.children@[k], mid[k],
                    child_room(max_p, first, share as int, primary_sum(o, self.content.children@, k), k), max_c),
                forall|k: int| 0 <= k < i && fills_primary(o, #[trigger] old(self).content.children@[k])
                    ==> primary(o, self.content.children@[k]) == Some(share),
                max_p is Some ==> {
                    &&& total_p as int == primary_sum(o, self.content.children@, i as int)
                    &&& total_p <= max_p->0
                    &&& primary_sum(o, self.content.children@, i as int) <= bound_sum(first, share as int, i as int)
                },
                total_c as int == cross_max(o, self.content.children@, i as int),
                forall|k: int| 0 <= k < i && first[k] is None && fills_primary(o, #[trigger] self.content.children@[k])
                    ==> primary(o, self.content.children@[k]) == Some(share),
                forall|k: int| 0 <= k < i ==> within(max_c, cross(o, #[trigger] self.content.children@[k])),
                max_c is Some ==> total_c <= max_c->0,
                width_spec is Some && height_spec is Some ==> forall|k: int|
                    0 <= k < i ==> (#[trigger] self.content.children@[k]).ready(),
            decreases n - i,
        {
            proof {
                lemma_bound_sum_mono(first, share as int, i as int + 1, n as int);
            }
            let f = primary_size(o, &self.content.children[i]);
            assert(self.content.children@[i as int] == mid[i as int]);
            assert(first[i as int] == primary(o, mid[i as int]));
            let mut p_spec: u16 = match f {
                Some(v) => v,
                None => share,
            };
            match max_p {
                Some(m) => {
                    if p_spec > m - total_p {
                        p_spec = m - total_p;
                    }
                },
                None => {},
            }
            let ghost before = self.content.children@;
            if o == Orientation::Horizontal {
                self.content.children[i].measure(Some(p_spec), max_c);
            } else {
                self.content.children[i].measure(max_c, Some(p_spec));
            }
            let p = primary_size(o, &self.content.children[i]);
            let c = cross_size(o, &self.content.children[i]);
            let ghost old_total = total_p;
            let pz = size_or_zero(p);
            total_p = total_p.saturating_add(pz);
            let cz = size_or_zero(c);
            if total_c < cz {
                total_c = cz;
            }
            proof {
                let s = self.content.children@;
                let c_old = before[i as int];
                let c_new = s[i as int];
                assert(within(Some(p_spec), primary(o, c_new)));
                assert(fills_primary(o, c_old) ==> primary(o, c_new) == Some(p_spec));
                assert(fills_primary(o, c_new) == fills_primary(o, c_old));
                assert(f == first[i as int]);
                assert(bound_sum(first, share as int, i as int + 1) == bound_sum(first, share as int, i as int)
                    + match first[i as int] { Some(v) => v as int, None => share as int });
                assert(s =~= before.update(i as int, s[i as int]));
                assert forall|k: int| 0 <= k < i implies primary(o, #[trigger] s[k]) == primary(o, before[k]) by {}
                assert(primary_sum(o, s, i as int) == primary_sum(o, before, i as int)) by {
                    lemma_prefix_sums(o, s, before, i as int);
                }
                assert(cross_max(o, s, i as int) == cross_max(o, before, i as int)) by {
                    lemma_prefix_sums(o, s, before, i as int);
                }
                assert(c_old == mid[i as int]);
                assert(p_spec == child_room(max_p, first, share as int, primary_sum(o, s, i as int), i as int));
                assert(measured_with(o, s[i as int], mid[i as int], p_spec, max_c));
                assert forall|k: int| 0 <= k < i implies measured_with(o, #[trigger] s[k], mid[k],
                    child_room(max_p, first, share as int, primary_sum(o, s, k), k), max_c) by {
                    lemma_prefix_sums(o, s, before, k);
                    assert(s[k] == before[k]);
                }
                assert(fills_primary(o, old(self).content.children@[i as int]) ==> first[i as int] is None);
                assert(primary_sum(o, s, i as int + 1) == primary_sum(o, s, i as int) + or_zero(primary(o, s[i as int])));
                assert(p == primary(o, s[i as int]));
                lemma_primary_sum_nonneg(o, s, i as int);
                assert(total_p as int == if old_total + pz > 65535 { 65535 } else { old_total + pz });
            }
            i = i + 1;
        }
        if o == Orientation::Horizontal {
            self.w = Some(total_p);
            self.h = Some(total_c);
        } else {
            self.w = Some(total_c);
            self.h = Some(total_p);
        }
        assert(children_measured(o, old(self).content.children@, mid, self.content.children@, max_p, max_c));
    }
}

/// Some child of `s` has a re-render pending.
pub open spec fn any_dirty<C: ViewTrait>(s: Seq<C>) -> bool {
    exists|k: int| 0 <= k < s.len() && (#[trigger] s[k]).spec_dirty()
}

/// Children with the same pending re-renders give the same answer.
pub proof fn lemma_same_dirty<C: ViewTrait>(s: Seq<C>, t: Seq<C>)
    requires
        s.len() == t.len(),
        forall|k: int| 0 <= k < s.len() ==> (#[trigger] s[k]).spec_dirty() == t[k].spec_dirty(),
    ensures
        any_dirty(s) == any_dirty(t),
{
    if any_dirty(t) {
        let k = choose|k: int| 0 <= k < t.len() && (#[trigger] t[k]).spec_dirty();
        assert(s[k].spec_dirty());
    }
}

/// The position of the child at index `k` of `s`, once laid out from
/// (`left`, `top`): right after the children before it along `o`.
pub open spec fn placed<C: ViewTrait>(o: Orientation, top: u16, left: u16, s: Seq<C>, k: int, c: C) -> bool {
    if o == Orientation::Horizontal {
        c.spec_left() == child_offset(o, left, s, k) && c.spec_top() == top
    } else {
        c.spec_top() == child_offset(o, top, s, k) && c.spec_left() == left
    }
}

/// Column at which the child at index `k` of `s` is laid out.
pub open spec fn child_left<C: ViewTrait>(o: Orientation, left: u16, s: Seq<C>, k: int) -> u16 {
    if o == Orientation::Horizontal { child_offset(o, left, s, k) } else { left }
}

/// Row at which the child at index `k` of `s` is laid out.
pub open spec fn child_top<C: ViewTrait>(o: Orientation, top: u16, s: Seq<C>, k: int) -> u16 {
    if o == Orientation::Horizontal { top } else { child_offset(o, top, s, k) }
}

/// The child at index `k` of `s` was laid out by its own rule at its place.
pub open spec fn laid_out<C: ViewTrait>(o: Orientation, top: u16, left: u16, s: Seq<C>, k: int, c: C) -> bool {
    c.layout_post(s[k], child_top(o, top, s, k), child_left(o, left, s, k))
}

/// `start` advanced by the sizes along `o` of the first `k` children of `s`,
/// kept on screen.
pub open spec fn child_offset<C: ViewTrait>(o: Orientation, start: u16, s: Seq<C>, k: int) -> u16
    decreases k,
{
    if k <= 0 {
        start
    } else {
        let prev = child_offset(o, start, s, k - 1);
        let next = prev + or_zero(primary(o, s[k - 1]));
        if next <= 65535 { next as u16 } else { 65535 }
    }
}

impl<C: ViewTrait> Widget<LinearLayout<C>> {
    /// Place the children one after the other from (`left`, `top`), each
    /// advanced by the size of the one before along the axis.
    pub fn layout_linear(&mut self, top: u16, left: u16)
        requires
            old(self).ready(),
        ensures
            final(self).ready(),
            !final(self).spec_dirty(),
            final(self).x == left,
            final(self).y == top,
            final(self).width == old(self).width,
            final(self).height == old(self).height,
            final(self).w == old(self).w,
            final(self).h == old(self).h,
            final(self).content.orientation == old(self).content.orientation,
            final(self).content.children@.len() == old(self).content.children@.len(),
            forall|k: int| 0 <= k < old(self).content.children@.len() ==> placed(old(self).content.orientation,
                top, left, old(self).content.children@, k, #[trigger] final(self).content.children@[k]),
            forall|k: int| 0 <= k < old(self).content.children@.len() ==> laid_out(old(self).content.orientation,
                top, left, old(self).content.children@, k, #[trigger] final(self).content.children@[k]),
    {
        self.x = left;
        self.y = top;
        self.dirty = false;
        let o = self.content.orientation;
        let mut x = left;
        let mut y = top;
        let n = self.content.children.len();
        let mut i: usize = 0;
        while i < n
            invariant
                n == self.content.children@.len(),
                n == old(self).content.children@.len(),
                i <= n,
                o == self.content.orientation,
                o == old(self).content.orientation,
                self.w == old(self).w,
                self.h == old(self).h,
                self.x == left,
                self.y == top,
                self.width == old(self).width,
                self.height == old(self).height,
                self.w is Some,
                self.h is Some,
                forall|k: int| i <= k < n ==> self.content.children@[k] == old(self).content.children@[k],
                forall|k: int| 0 <= k < n ==> (#[trigger] self.content.children@[k]).ready(),
                forall|k: int| 0 <= k < i ==> !(#[trigger] self.content.children@[k]).spec_dirty(),
                o == Orientation::Horizontal ==> x == child_offset(o, left, old(self).content.children@, i as int) && y == top,
                o != Orientation::Horizontal ==> y == child_offset(o, top, old(self).content.children@, i as int) && x == left,
                forall|k: int| 0 <= k < i ==> placed(o, top, left, old(self).content.children@, k,
                    #[trigger] self.content.children@[k]),
                forall|k: int| 0 <= k < i ==> laid_out(o, top, left, old(self).content.children@, k,
                    #[trigger] self.content.children@[k]),
            decreases n - i,
        {
            assert(self.content.children@[i as int] == old(self).content.children@[i as int]);
            let ghost before = self.content.children@;
            self.content.children[i].layout(y, x);
            proof {
                assert(self.content.children@ =~= before.update(i as int, self.content.children@[i as int]));
            }
            if o == Orientation::Horizontal {
                x = x.saturating_add(size_or_zero(self.content.children[i].get_measured_width()));
            } else {
                y = y.saturating_add(size_or_zero(self.content.children[i].get_measured_height()));
            }
            i = i + 1;
        }
    }
}

impl<C: ViewTrait> ViewTrait for Widget<LinearLayout<C>> {
    open spec fn spec_width(&self) -> Option<u16> {
        self.w
    }

    open spec fn spec_height(&self) -> Option<u16> {
        self.h
    }

    open spec fn spec_left(&self) -> u16 {
        self.x
    }

    open spec fn spec_top(&self) -> u16 {
        self.y
    }

    open spec fn spec_dirty(&self) -> bool {
        any_dirty(self.content.children@)
    }

    open spec fn fills_width(&self) -> bool {
        false
    }

    open spec fn fills_height(&self) -> bool {
        false
    }

    open spec fn ready(&self) -> bool {
        &&& self.w is Some
        &&& self.h is Some
        &&& forall|k: int| 0 <= k < self.content.children@.len() ==> (#[trigger] self.content.children@[k]).ready()
    }

    open spec fn keeps_state(&self, before: Self) -> bool {
        &&& self.width == before.width
        &&& self.height == before.height
        &&& self.content.orientation == before.content.orientation
        &&& self.content.children@.len() == before.content.children@.len()
    }

    open spec fn measure_post(&self, before: Self, width_spec: Option<u16>, height_spec: Option<u16>) -> bool {
        linear_measure_post(*self, before, width_spec, height_spec)
    }

    /// Each child sits right after the ones before it along the axis.
    open spec fn layout_post(&self, before: Self, top: u16, left: u16) -> bool {
        &&& self.content.children@.len() == before.content.children@.len()
        &&& forall|k: int| 0 <= k < before.content.children@.len() ==> placed(before.content.orientation,
            top, left, before.content.children@, k, #[trigger] self.content.children@[k])
        &&& forall|k: int| 0 <= k < before.content.children@.len() ==> laid_out(before.content.orientation,
            top, left, before.content.children@, k, #[trigger] self.content.children@[k])
    }

    open spec fn spec_redraw(&self) -> Seq<DrawView> {
        redraw_all(self.content.children@, self.content.children@.len() as int)
    }

    fn measure(&mut self, width_spec: Option<u16>, height_spec: Option<u16>) {
        self.measure_linear(width_spec, height_spec);
        proof {
            lemma_same_dirty(self.content.children@, old(self).content.children@);
        }
    }

    fn layout(&mut self, top: u16, left: u16) {
        self.layout_linear(top, left);
    }

    fn is_dirty(&self) -> (r: bool) {
        let n = self.content.children.len();
        let mut dirty = false;
        let mut i: usize = 0;
        while i < n
            invariant
                n == self.content.children@.len(),
                i <= n,
                dirty == exists|k: int| 0 <= k < i && (#[trigger] self.content.children@[k]).spec_dirty(),
            decreases n - i,
        {
            let d = self.content.children[i].is_dirty();
            dirty = dirty || d;
            i = i + 1;
        }
        dirty
    }

    fn get_measured_width(&self) -> (r: Option<u16>) {
        self.w
    }

    fn get_measured_height(&self) -> (r: Option<u16>) {
        self.h
    }

    fn redraw(&self) -> (r: Vec<Draw>) {
        let n = self.content.children.len();
        let mut out: Vec<Draw> = Vec::new();
        assert(ops_view(out@) =~= Seq::empty());
        let mut i: usize = 0;
        while i < n
            invariant
                n == self.content.children@.len(),
                i <= n,
                self.ready(),
                ops_view(out@) == redraw_all(self.content.children@, i as int),
            decreases n - i,
        {
            let part = self.content.children[i].redraw();
            append_ops(&mut out, part);
            i = i + 1;
        }
        out
    }
}

} // verus!

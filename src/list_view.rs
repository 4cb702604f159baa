//! A static list of items under optional group headers.
use vstd::prelude::*;
use crate::view::{content_measure, Dimension, Draw, DrawView, ViewTrait, Widget, ops_view, measure_content, same_frame, copy_chars};
use crate::text::{visible_len, visible_len_chars, chars_of};
use crate::buffered::rows_drawn;

verus! {

/// Groups in the order they came, each under its header (none for the
/// ungrouped bucket) with its items in the order they came.
pub struct ListView {
    pub items: Vec<(Option<String>, Vec<String>)>,
}

/// A group by its header and items as sequences.
pub type GroupView = (Option<Seq<char>>, Seq<Seq<char>>);

pub open spec fn header_view(g: Option<String>) -> Option<Seq<char>> {
    match g {
        Some(s) => Some(s@),
        None => None,
    }
}

impl View for ListView {
    type V = Seq<GroupView>;

    open spec fn view(&self) -> Seq<GroupView> {
        self.items@.map_values(|g: (Option<String>, Vec<String>)|
            (header_view(g.0), g.1@.map_values(|s: String| s@)))
    }
}

/// No header twice, and no item twice within a group.
pub open spec fn list_wf(gs: Seq<GroupView>) -> bool {
    &&& forall|i: int, j: int| 0 <= i < j < gs.len() ==> (#[trigger] gs[i]).0 != (#[trigger] gs[j]).0
    &&& forall|i: int, a: int, b: int| 0 <= i < gs.len() && 0 <= a < b < gs[i].1.len()
        ==> (#[trigger] gs[i].1[a]) != (#[trigger] gs[i].1[b])
}

/// Index of the group under `key`, or -1.
pub open spec fn find_group(gs: Seq<GroupView>, key: Option<Seq<char>>) -> int {
    if exists|i: int| 0 <= i < gs.len() && (#[trigger] gs[i]).0 == key {
        choose|i: int| 0 <= i < gs.len() && (#[trigger] gs[i]).0 == key
    } else {
        -1
    }
}

/// The groups once a group under `key` is there: a new one comes last, empty.
pub open spec fn with_group(gs: Seq<GroupView>, key: Option<Seq<char>>) -> Seq<GroupView> {
    if find_group(gs, key) >= 0 {
        gs
    } else {
        gs.push((key, Seq::empty()))
    }
}

/// The groups once `item` is under `key`: the group is made if missing, and
/// an item already there stays once.
pub open spec fn with_item(gs: Seq<GroupView>, item: Seq<char>, key: Option<Seq<char>>) -> Seq<GroupView> {
    let i = find_group(gs, key);
    if i >= 0 {
        if gs[i].1.contains(item) {
            gs
        } else {
            gs.update(i, (key, gs[i].1.push(item)))
        }
    } else {
        gs.push((key, seq![item]))
    }
}

/// The text of an item's row: indented by two columns under a header.
pub open spec fn item_row(grouped: bool, item: Seq<char>) -> Seq<char> {
    if grouped {
        seq![' ', ' '] + item
    } else {
        item
    }
}

/// The rows of one group: its header if it has one, then its items.
pub open spec fn group_rows(g: GroupView) -> Seq<Seq<char>> {
    let head: Seq<Seq<char>> = match g.0 {
        Some(h) => seq![h],
        None => Seq::empty(),
    };
    head + g.1.map_values(|it: Seq<char>| item_row(g.0 is Some, it))
}

/// The rows of the first `n` groups.
pub open spec fn list_rows(gs: Seq<GroupView>, n: int) -> Seq<Seq<char>>
    decreases n,
{
    if n <= 0 {
        Seq::empty()
    } else {
        list_rows(gs, n - 1) + group_rows(gs[n - 1])
    }
}

/// Widest of the first `n` rows, in visible columns.
pub open spec fn rows_width(rows: Seq<Seq<char>>, n: int) -> int
    decreases n,
{
    if n <= 0 {
        0
    } else {
        let m = rows_width(rows, n - 1);
        let c = visible_len(rows[n - 1]) as int;
        if m < c { c } else { m }
    }
}

/// `n` kept within a terminal coordinate.
pub open spec fn clamp16(n: int) -> u16 {
    if n <= 65535 { n as u16 } else { 65535 }
}

/// All rows of a list.
pub open spec fn all_rows(gs: Seq<GroupView>) -> Seq<Seq<char>> {
    list_rows(gs, gs.len() as int)
}

/// Blank the first `n` rows of the rectangle.
pub open spec fn blank_rows(x: u16, y: u16, w: u16, n: int) -> Seq<DrawView>
    decreases n,
{
    if n <= 0 {
        Seq::empty()
    } else {
        blank_rows(x, y, w, n - 1) + seq![
            DrawView::Goto(x, (y + n - 1) as u16),
            DrawView::Blank(w),
            DrawView::Goto(x, (y + n - 1) as u16),
        ]
    }
}

/// Print the first `n` rows, one per screen row from `y`.
pub open spec fn print_rows(rows: Seq<Seq<char>>, x: u16, y: u16, n: int) -> Seq<DrawView>
    decreases n,
{
    if n <= 0 {
        Seq::empty()
    } else {
        print_rows(rows, x, y, n - 1) + seq![DrawView::Goto(x, (y + n - 1) as u16), DrawView::Print(rows[n - 1])]
    }
}

/// Rows printed from row `y`: all of them, down to the last row of the screen.
pub open spec fn rows_printed(y: u16, count: int) -> int {
    if y + count <= 65536 {
        count
    } else {
        65536 - y
    }
}

/// What a list draws: its rectangle blanked, then its rows, between a save
/// and a restore of the cursor.
pub open spec fn list_redraw(v: Widget<ListView>) -> Seq<DrawView> {
    let rows = all_rows(v.content@);
    seq![DrawView::SaveCursor]
        + blank_rows(v.x, v.y, v.w->0, rows_drawn(v.y, v.h->0))
        + print_rows(rows, v.x, v.y, rows_printed(v.y, rows.len() as int))
        + seq![DrawView::RestoreCursor]
}

fn same_header(a: &Option<String>, b: &Option<String>) -> (r: bool)
    ensures
        r == (header_view(*a) == header_view(*b)),
{
    match (a, b) {
        (Some(a), Some(b)) => *a == *b,
        (None, None) => true,
        _ => false,
    }
}

fn has_item(items: &Vec<String>, item: &String) -> (r: bool)
    ensures
        r == items@.map_values(|s: String| s@).contains(item@),
{
    let ghost v = items@.map_values(|s: String| s@);
    let mut i: usize = 0;
    while i < items.len()
        invariant
            i <= items@.len(),
            v == items@.map_values(|s: String| s@),
            forall|k: int| 0 <= k < i ==> v[k] != item@,
        decreases items@.len() - i,
    {
        if items[i] == *item {
            assert(v[i as int] == item@);
            return true;
        }
        i = i + 1;
    }
    false
}

fn copy_string_chars(s: &String) -> (r: Vec<char>)
    ensures
        r@ == s@,
{
    chars_of(s.as_str())
}

impl Widget<ListView> {
    /// Index of the group under `key`, if there is one.
    fn group_index(&self, key: &Option<String>) -> (r: Option<usize>)
        requires
            list_wf(self.content@),
        ensures
            match r {
                Some(i) => i == find_group(self.content@, header_view(*key)) && i < self.content@.len(),
                None => find_group(self.content@, header_view(*key)) == -1,
            },
    {
        let ghost gs = self.content@;
        let ghost k = header_view(*key);
        let mut i: usize = 0;
        while i < self.content.items.len()
            invariant
                i <= self.content.items@.len(),
                gs == self.content@,
                gs.len() == self.content.items@.len(),
                k == header_view(*key),
                list_wf(gs),
                forall|j: int| 0 <= j < i ==> (#[trigger] gs[j]).0 != k,
            decreases self.content.items@.len() - i,
        {
            if same_header(&self.content.items[i].0, key) {
                proof {
                    assert(gs[i as int].0 == k);
                    let c = choose|j: int| 0 <= j < gs.len() && (#[trigger] gs[j]).0 == k;
                    if c != i as int {
                        if c < i {
                            assert(gs[c].0 != k);
                        } else {
                            assert(gs[i as int].0 != gs[c].0);
                        }
                    }
                }
                return Some(i);
            }
            i = i + 1;
        }
        None
    }

    /// An empty list as wide as its content that fills its parent's height.
    pub fn new() -> (r: Self)
        ensures
            r.width == Dimension::WrapContent,
            r.height == Dimension::MatchParent,
            r.x == 0,
            r.y == 0,
            r.w is None,
            r.h is None,
            r.dirty,
            r.content@.len() == 0,
    {
        let r = Widget {
            width: Dimension::WrapContent,
            height: Dimension::MatchParent,
            x: 0,
            y: 0,
            w: None,
            h: None,
            dirty: true,
            content: ListView { items: Vec::new() },
        };
        assert(r.content@ =~= Seq::empty());
        r
    }

    /// The list with the ungrouped bucket present.
    pub fn with_none_group(self) -> (r: Self)
        requires
            list_wf(self.content@),
        ensures
            list_wf(r.content@),
            r.content@ == with_group(self.content@, None),
            same_frame(r, self),
    {
        let mut r = self;
        r.add_key(None);
        r
    }

    /// Add an empty group under `group`, unless it is there.
    pub fn add_group(&mut self, group: String)
        requires
            list_wf(old(self).content@),
        ensures
            list_wf(final(self).content@),
            final(self).content@ == with_group(old(self).content@, Some(group@)),
            same_frame(*final(self), *old(self)),
    {
        self.add_key(Some(group));
    }

    fn add_key(&mut self, key: Option<String>)
        requires
            list_wf(old(self).content@),
        ensures
            list_wf(final(self).content@),
            final(self).content@ == with_group(old(self).content@, header_view(key)),
            same_frame(*final(self), *old(self)),
    {
        match self.group_index(&key) {
            Some(_) => {},
            None => {
                let ghost before = self.content@;
                let ghost k = header_view(key);
                self.content.items.push((key, Vec::new()));
                proof {
                    let after = self.content@;
                    assert(after[before.len() as int].1 =~= Seq::empty());
                    assert(after =~= before.push((k, Seq::empty())));
                }
            },
        }
    }

    /// Put `item` under `group`, making the group if missing; an equal item
    /// already there stays once. The list is marked dirty.
    pub fn insert(&mut self, item: String, group: Option<String>)
        requires
            list_wf(old(self).content@),
        ensures
            list_wf(final(self).content@),
            final(self).content@ == with_item(old(self).content@, item@, header_view(group)),
            final(self).dirty,
            final(self).width == old(self).width,
            final(self).height == old(self).height,
            final(self).x == old(self).x,
            final(self).y == old(self).y,
            final(self).w == old(self).w,
            final(self).h == old(self).h,
    {
        let ghost before = self.content@;
        let ghost k = header_view(group);
        match self.group_index(&group) {
            Some(i) => {
                if !has_item(&self.content.items[i].1, &item) {
                    let ghost old_items = before[i as int].1;
                    self.content.items[i].1.push(item);
                    proof {
                        let after = self.content@;
                        assert(after[i as int].1 =~= old_items.push(item@));
                        assert(after[i as int].0 == k);
                        assert(after =~= before.update(i as int, (k, old_items.push(item@))));
                        assert forall|g: int, a: int, b: int| 0 <= g < after.len() && 0 <= a < b < after[g].1.len()
                            implies (#[trigger] after[g].1[a]) != (#[trigger] after[g].1[b]) by {
                            if g == i && b == old_items.len() {
                                assert(old_items[a] == after[g].1[a]);
                            }
                        }
                    }
                }
            },
            None => {
                let mut items: Vec<String> = Vec::new();
                items.push(item);
                self.content.items.push((group, items));
                proof {
                    let after = self.content@;
                    assert(after[before.len() as int].1 =~= seq![item@]);
                    assert(after =~= before.push((k, seq![item@])));
                }
            },
        }
        self.dirty = true;
    }

    /// The rows the list shows, header and items, in order.
    pub fn rows(&self) -> (r: Vec<Vec<char>>)
        ensures
            r@.map_values(|l: Vec<char>| l@) == all_rows(self.content@),
    {
        let ghost gs = self.content@;
        let mut r: Vec<Vec<char>> = Vec::new();
        let n = self.content.items.len();
        let mut i: usize = 0;
        while i < n
            invariant
                n == self.content.items@.len(),
                gs == self.content@,
                i <= n,
                r@.map_values(|l: Vec<char>| l@) == list_rows(gs, i as int),
            decreases n - i,
        {
            let ghost prev = r@.map_values(|l: Vec<char>| l@);
            let grouped = self.content.items[i].0.is_some();
            match &self.content.items[i].0 {
                Some(h) => r.push(copy_string_chars(h)),
                None => {},
            }
            let ghost mid = r@.map_values(|l: Vec<char>| l@);
            let items = &self.content.items[i].1;
            let mut j: usize = 0;
            while j < items.len()
                invariant
                    j <= items@.len(),
                    i < n,
                    n == gs.len(),
                    grouped == (gs[i as int].0 is Some),
                    gs[i as int].1 == items@.map_values(|s: String| s@),
                    r@.map_values(|l: Vec<char>| l@) == mid + gs[i as int].1.subrange(0, j as int).map_values(
                        |it: Seq<char>| item_row(grouped, it)),
                decreases items@.len() - j,
            {
                let mut row: Vec<char> = Vec::new();
                if grouped {
                    row.push(' ');
                    row.push(' ');
                }
                let mut text = copy_string_chars(&items[j]);
                row.append(&mut text);
                proof {
                    assert(row@ == item_row(grouped, gs[i as int].1[j as int]));
                }
                let ghost before_push = r@.map_values(|l: Vec<char>| l@);
                let ghost row_view = row@;
                r.push(row);
                proof {
                    assert(r@.map_values(|l: Vec<char>| l@) =~= before_push.push(row_view));
                    assert(gs[i as int].1.subrange(0, j as int + 1) =~= gs[i as int].1.subrange(0, j as int).push(gs[i as int].1[j as int]));
                    assert(r@.map_values(|l: Vec<char>| l@) =~= mid + gs[i as int].1.subrange(0, j as int + 1).map_values(
                        |it: Seq<char>| item_row(grouped, it)));
                }
                j = j + 1;
            }
            proof {
                assert(gs[i as int].1.subrange(0, items@.len() as int) =~= gs[i as int].1);
                let head: Seq<Seq<char>> = match gs[i as int].0 {
                    Some(h) => seq![h],
                    None => Seq::empty(),
                };
                assert(mid =~= prev + head);
                assert(r@.map_values(|l: Vec<char>| l@) =~= list_rows(gs, i as int + 1));
            }
            i = i + 1;
        }
        r
    }
}

fn draw_list(v: &Widget<ListView>) -> (r: Vec<Draw>)
    requires
        v.w is Some,
        v.h is Some,
    ensures
        ops_view(r@) == list_redraw(*v),
{
    let rows = v.rows();
    let ghost rv = rows@.map_values(|l: Vec<char>| l@);
    let w = v.w.unwrap();
    let h = v.h.unwrap();
    let mut r: Vec<Draw> = Vec::new();
    r.push(Draw::SaveCursor);
    let blank: u16 = if v.y as u32 + h as u32 <= 65536 { h } else { (65535 - v.y) + 1 };
    let mut k: u16 = 0;
    while k < blank
        invariant
            k <= blank,
            blank as int == rows_drawn(v.y, h),
            w == v.w->0,
            ops_view(r@) == seq![DrawView::SaveCursor] + blank_rows(v.x, v.y, w, k as int),
        decreases blank - k,
    {
        let ghost prev = r@;
        r.push(Draw::Goto(v.x, v.y + k));
        r.push(Draw::Blank(w));
        r.push(Draw::Goto(v.x, v.y + k));
        let ghost row = (v.y + k) as u16;
        assert(ops_view(r@) =~= ops_view(prev) + seq![DrawView::Goto(v.x, row), DrawView::Blank(w), DrawView::Goto(v.x, row)]);
        assert(blank_rows(v.x, v.y, w, k as int + 1) == blank_rows(v.x, v.y, w, k as int)
            + seq![DrawView::Goto(v.x, row), DrawView::Blank(w), DrawView::Goto(v.x, row)]);
        assert(ops_view(r@) =~= seq![DrawView::SaveCursor] + blank_rows(v.x, v.y, w, k as int + 1));
        k = k + 1;
    }
    let ghost after_blank = ops_view(r@);
    let count = rows.len();
    let shown: usize = if count <= 65536 - v.y as usize { count } else { 65536 - v.y as usize };
    let mut i: usize = 0;
    while i < shown
        invariant
            i <= shown,
            shown as int == rows_printed(v.y, count as int),
            count == rows@.len(),
            rv == rows@.map_values(|l: Vec<char>| l@),
            ops_view(r@) == after_blank + print_rows(rv, v.x, v.y, i as int),
        decreases shown - i,
    {
        let ghost prev = r@;
        r.push(Draw::Goto(v.x, v.y + i as u16));
        r.push(Draw::Print(copy_chars(&rows[i])));
        let ghost row = (v.y + i) as u16;
        assert(rv[i as int] == rows@[i as int]@);
        assert(ops_view(r@) =~= ops_view(prev) + seq![DrawView::Goto(v.x, row), DrawView::Print(rv[i as int])]);
        assert(print_rows(rv, v.x, v.y, i as int + 1) == print_rows(rv, v.x, v.y, i as int)
            + seq![DrawView::Goto(v.x, row), DrawView::Print(rv[i as int])]);
        assert(ops_view(r@) =~= after_blank + print_rows(rv, v.x, v.y, i as int + 1));
        i = i + 1;
    }
    r.push(Draw::RestoreCursor);
    assert(ops_view(r@) =~= list_redraw(*v));
    r
}

impl ViewTrait for Widget<ListView> {
    open spec fn spec_width(&self) -> Option<u16> {
        self.w
    }

    open spec fn spec_height(&self) -> Option<u16> {
        self.h
    }

    open spec fn spec_left(&self) -> u16 {
        self.x
    }

    open spec fn spec_top(&self) -> u16 {
        self.y
    }

    open spec fn spec_dirty(&self) -> bool {
        self.dirty
    }

    open spec fn fills_width(&self) -> bool {
        self.width is MatchParent
    }

    open spec fn fills_height(&self) -> bool {
        self.height is MatchParent
    }

    open spec fn ready(&self) -> bool {
        self.w is Some && self.h is Some
    }

    open spec fn keeps_state(&self, before: Self) -> bool {
        self.width == before.width && self.height == before.height && self.content == before.content
    }

    /// Under `WrapContent` as wide as the widest row in visible columns and
    /// as high as the rows.
    open spec fn measure_post(&self, before: Self, width_spec: Option<u16>, height_spec: Option<u16>) -> bool {
        let rows = all_rows(before.content@);
        &&& self.w == content_measure(before.width, width_spec, clamp16(rows_width(rows, rows.len() as int)))
        &&& self.h == content_measure(before.height, height_spec, clamp16(rows.len() as int))
    }

    open spec fn layout_post(&self, before: Self, top: u16, left: u16) -> bool {
        self.x == left && self.y == top && self.content == before.content
    }

    open spec fn spec_redraw(&self) -> Seq<DrawView> {
        list_redraw(*self)
    }

    /// As wide as the widest row and as high as the rows under
    /// `WrapContent`, visible columns only.
    fn measure(&mut self, width_spec: Option<u16>, height_spec: Option<u16>) {
        let (nw, nh) = self.natural_size();
        self.w = measure_content(self.width, width_spec, nw);
        self.h = measure_content(self.height, height_spec, nh);
    }

    fn layout(&mut self, top: u16, left: u16) {
        self.layout_leaf(top, left);
    }

    fn is_dirty(&self) -> (r: bool) {
        self.dirty
    }

    fn get_measured_width(&self) -> (r: Option<u16>) {
        self.w
    }

    fn get_measured_height(&self) -> (r: Option<u16>) {
        self.h
    }

    fn redraw(&self) -> (r: Vec<Draw>) {
        draw_list(self)
    }
}

impl Widget<ListView> {
    /// Widest row in visible columns and number of rows, each kept within a
    /// terminal coordinate.
    pub fn natural_size(&self) -> (r: (u16, u16))
        ensures
            r.0 == clamp16(rows_width(all_rows(self.content@), all_rows(self.content@).len() as int)),
            r.1 == clamp16(all_rows(self.content@).len() as int),
    {
        let rows = self.rows();
        let ghost rv = rows@.map_values(|l: Vec<char>| l@);
        let mut width: usize = 0;
        let mut i: usize = 0;
        while i < rows.len()
            invariant
                i <= rows@.len(),
                rv == rows@.map_values(|l: Vec<char>| l@),
                width == rows_width(rv, i as int),
            decreases rows@.len() - i,
        {
            let c = visible_len_chars(&rows[i]);
            if width < c {
                width = c;
            }
            i = i + 1;
        }
        let nw: u16 = if width <= 65535 { width as u16 } else { 65535 };
        let nh: u16 = if rows.len() <= 65535 { rows.len() as u16 } else { 65535 };
        (nw, nh)
    }
}

} // verus!

//! A deduplicated, paginated scrollback of messages.
use vstd::prelude::*;
use crate::view::{dim_measure, Dimension, Draw, DrawView, ViewTrait, Widget, ops_view, copy_chars};
use crate::text::chars_of;

verus! {

/// The display lines of a text: `str::lines` on it.
pub uninterp spec fn lines_of(s: Seq<char>) -> Seq<Seq<char>>;

/// Relies on `str::lines`: the text split at its line endings, each line
/// without its terminator.
#[verifier::external_body]
fn split_lines(s: &str) -> (r: Vec<String>)
    ensures
        r@.map_values(|l: String| l@) == lines_of(s@),
{
    s.lines().map(str::to_owned).collect()
}

/// The display lines of `message`, as characters.
fn display_lines(message: &String) -> (r: Vec<Vec<char>>)
    ensures
        r@.map_values(|l: Vec<char>| l@) == lines_of(message@),
{
    let texts = split_lines(message.as_str());
    let ghost want = texts@.map_values(|l: String| l@);
    let mut r: Vec<Vec<char>> = Vec::new();
    let mut i: usize = 0;
    while i < texts.len()
        invariant
            i <= texts@.len(),
            want == texts@.map_values(|l: String| l@),
            r@.map_values(|l: Vec<char>| l@) == want.subrange(0, i as int),
        decreases texts@.len() - i,
    {
        let ghost before = r@.map_values(|l: Vec<char>| l@);
        let line = chars_of(texts[i].as_str());
        r.push(line);
        assert(r@.map_values(|l: Vec<char>| l@) =~= before.push(want[i as int]));
        assert(want.subrange(0, i as int + 1) =~= want.subrange(0, i as int).push(want[i as int]));
        i = i + 1;
    }
    assert(want.subrange(0, texts@.len() as int) =~= want);
    r
}

/// Messages in arrival order, no two equal, and the display lines of all of
/// them; `view` counts the display lines hidden below the window.
///
/// A message is held as its displayed text, and two messages are the same
/// when their texts are: distinct messages that display alike are kept once.
pub struct BufferedWin {
    pub buf: Vec<String>,
    pub lines: Vec<Vec<char>>,
    pub view: usize,
}

/// The display lines of `msgs`, message after message.
pub open spec fn all_lines(msgs: Seq<Seq<char>>) -> Seq<Seq<char>>
    decreases msgs.len(),
{
    if msgs.len() == 0 {
        Seq::empty()
    } else {
        all_lines(msgs.drop_last()) + lines_of(msgs.last())
    }
}

/// A scrollback by its messages, display lines and offset.
pub struct BufferedView {
    pub msgs: Seq<Seq<char>>,
    pub lines: Seq<Seq<char>>,
    pub view: nat,
}

impl View for BufferedWin {
    type V = BufferedView;

    open spec fn view(&self) -> BufferedView {
        BufferedView {
            msgs: self.buf@.map_values(|m: String| m@),
            lines: self.lines@.map_values(|l: Vec<char>| l@),
            view: self.view as nat,
        }
    }
}

impl BufferedView {
    /// No message twice, and the lines are those of the messages.
    pub open spec fn wf(self) -> bool {
        &&& forall|i: int, j: int| 0 <= i < j < self.msgs.len() ==> self.msgs[i] != self.msgs[j]
        &&& self.lines == all_lines(self.msgs)
    }

    /// Receiving `m`: nothing happens when an equal message is there,
    /// otherwise it is appended with its lines.
    pub open spec fn recv(self, m: Seq<char>) -> BufferedView {
        if self.msgs.contains(m) {
            self
        } else {
            BufferedView { msgs: self.msgs.push(m), lines: self.lines + lines_of(m), ..self }
        }
    }

    /// Largest offset for a window `h` rows high.
    pub open spec fn max_offset(self, h: nat) -> nat {
        if self.lines.len() < h {
            0
        } else {
            (self.lines.len() - h) as nat
        }
    }

    /// One page back, at most to the oldest line.
    pub open spec fn page_up(self, h: nat) -> BufferedView {
        if self.lines.len() < h {
            self
        } else {
            let max = (self.lines.len() - h) as nat;
            BufferedView { view: if self.view + h < max { self.view + h } else { max }, ..self }
        }
    }

    /// One page forward, at most to the newest line.
    pub open spec fn page_down(self, h: nat) -> BufferedView {
        BufferedView { view: if self.view > h { (self.view - h) as nat } else { 0 }, ..self }
    }

    /// `k` pages back.
    pub open spec fn page_up_times(self, h: nat, k: nat) -> BufferedView
        decreases k,
    {
        if k == 0 {
            self
        } else {
            self.page_up(h).page_up_times(h, (k - 1) as nat)
        }
    }
}

/// Receiving a message twice leaves the scrollback as receiving it once.
pub proof fn recv_twice_is_recv_once(s: BufferedView, m: Seq<char>)
    ensures
        s.recv(m).recv(m) == s.recv(m),
        s.recv(m).recv(m).lines.len() == s.recv(m).lines.len(),
{
    if !s.msgs.contains(m) {
        assert(s.recv(m).msgs[s.msgs.len() as int] == m);
    }
}

/// Paging back, any number of times, never moves past the oldest line when
/// there are more lines than rows, and does not move at all otherwise.
pub proof fn page_up_stays_in_range(s: BufferedView, h: nat, k: nat)
    ensures
        s.lines.len() >= h && k > 0 ==> s.page_up_times(h, k).view <= s.lines.len() - h,
        s.lines.len() < h ==> s.page_up_times(h, k).view == s.view,
        s.page_up_times(h, k).lines == s.lines,
    decreases k,
{
    if k > 0 {
        page_up_stays_in_range(s.page_up(h), h, (k - 1) as nat);
        if s.lines.len() >= h && k > 1 {
            lemma_page_up_in_range(s.page_up(h), h, (k - 1) as nat);
        }
    }
}

proof fn lemma_page_up_in_range(s: BufferedView, h: nat, k: nat)
    requires
        s.lines.len() >= h,
        s.view <= s.lines.len() - h,
    ensures
        s.page_up_times(h, k).view <= s.lines.len() - h,
        s.page_up_times(h, k).lines == s.lines,
    decreases k,
{
    if k > 0 {
        lemma_page_up_in_range(s.page_up(h), h, (k - 1) as nat);
    }
}

/// Paging forward never takes the offset past the newest line: it drops by
/// one page or stops at zero.
pub proof fn page_down_stays_in_range(s: BufferedView, h: nat)
    ensures
        s.page_down(h).view <= s.view,
        s.view <= h ==> s.page_down(h).view == 0,
        s.view > h ==> s.page_down(h).view == s.view - h,
{
}

/// First display line shown: with more lines than rows, the window ends
/// `view` lines above the newest one.
pub open spec fn first_shown(count: int, h: int, view: int) -> int {
    if count > h && count - h - view > 0 {
        count - h - view
    } else {
        0
    }
}

/// Rows drawn from row `y` for a window `h` rows high, the last row of the
/// screen being the limit.
pub open spec fn rows_drawn(y: u16, h: u16) -> int {
    if y + h <= 65536 {
        h as int
    } else {
        65536 - y
    }
}

/// Row `k` of the window: blank it, then print its line if there is one.
pub open spec fn row_ops(lines: Seq<Seq<char>>, first: int, x: u16, y: u16, w: u16, k: int) -> Seq<DrawView> {
    let row = (y + k) as u16;
    seq![DrawView::Goto(x, row), DrawView::Blank(w), DrawView::Goto(x, row)] + if first + k < lines.len() {
        seq![DrawView::Print(lines[first + k])]
    } else {
        Seq::empty()
    }
}

/// The first `n` rows of the window.
pub open spec fn window_rows(lines: Seq<Seq<char>>, first: int, x: u16, y: u16, w: u16, n: int) -> Seq<DrawView>
    decreases n,
{
    if n <= 0 {
        Seq::empty()
    } else {
        window_rows(lines, first, x, y, w, n - 1) + row_ops(lines, first, x, y, w, n - 1)
    }
}

/// What a scrollback draws: each row blanked and filled from the lines in
/// view, between a save and a restore of the cursor.
pub open spec fn window_redraw(v: Widget<BufferedWin>) -> Seq<DrawView> {
    let l = v.content@.lines;
    let h = v.h->0;
    seq![DrawView::SaveCursor]
        + window_rows(l, first_shown(l.len() as int, h as int, v.content.view as int), v.x, v.y, v.w->0, rows_drawn(v.y, h))
        + seq![DrawView::RestoreCursor]
}

/// A scrollback that receives messages and pages through them.
pub trait Window: ViewTrait {
    /// Messages, lines and offset.
    spec fn scrollback(&self) -> BufferedView;

    /// Rows of the window, once measured.
    spec fn rows(&self) -> Option<u16>;

    /// Take a message unless one with the same text is there; redraw when
    /// `print` and the message was new.
    fn recv_message(&mut self, message: &String, print: bool) -> (r: Vec<Draw>)
        requires
            old(self).scrollback().wf(),
            print && !old(self).scrollback().msgs.contains(message@) ==> old(self).ready(),
        ensures
            final(self).scrollback().wf(),
            final(self).scrollback() == old(self).scrollback().recv(message@),
            final(self).rows() == old(self).rows(),
            old(self).ready() ==> final(self).ready(),
            print && !old(self).scrollback().msgs.contains(message@) ==> ops_view(r@) == final(self).spec_redraw(),
            !print || old(self).scrollback().msgs.contains(message@) ==> r@.len() == 0,
    ;

    /// One page back and redraw.
    fn page_up(&mut self) -> (r: Vec<Draw>)
        requires
            old(self).scrollback().wf(),
            old(self).ready(),
        ensures
            final(self).scrollback().wf(),
            final(self).scrollback() == old(self).scrollback().page_up(old(self).rows()->0 as nat),
            final(self).rows() == old(self).rows(),
            final(self).ready(),
            old(self).scrollback().lines.len() < old(self).rows()->0 ==> r@.len() == 0,
            old(self).scrollback().lines.len() >= old(self).rows()->0 ==> ops_view(r@) == final(self).spec_redraw(),
    ;

    /// One page forward and redraw.
    fn page_down(&mut self) -> (r: Vec<Draw>)
        requires
            old(self).scrollback().wf(),
            old(self).ready(),
        ensures
            final(self).scrollback().wf(),
            final(self).scrollback() == old(self).scrollback().page_down(old(self).rows()->0 as nat),
            final(self).rows() == old(self).rows(),
            final(self).ready(),
            ops_view(r@) == final(self).spec_redraw(),
    ;
}

impl Widget<BufferedWin> {
    /// An empty scrollback that fills its parent.
    pub fn new() -> (r: Self)
        ensures
            r.width == Dimension::MatchParent,
            r.height == Dimension::MatchParent,
            r.x == 0,
            r.y == 0,
            r.w is None,
            r.h is None,
            r.dirty,
            r.content@.wf(),
            r.content@.msgs.len() == 0,
            r.content@.view == 0,
    {
        let r = Widget {
            width: Dimension::MatchParent,
            height: Dimension::MatchParent,
            x: 0,
            y: 0,
            w: None,
            h: None,
            dirty: true,
            content: BufferedWin { buf: Vec::new(), lines: Vec::new(), view: 0 },
        };
        assert(r.content@.msgs =~= Seq::empty());
        assert(r.content@.lines =~= Seq::empty());
        r
    }

    /// A message with the text of `message` is already held.
    pub fn contains(&self, message: &String) -> (r: bool)
        ensures
            r == self.content@.msgs.contains(message@),
    {
        let n = self.content.buf.len();
        let mut i: usize = 0;
        while i < n
            invariant
                n == self.content.buf@.len(),
                i <= n,
                forall|k: int| 0 <= k < i ==> self.content.buf@[k]@ != message@,
            decreases n - i,
        {
            if self.content.buf[i] == *message {
                assert(self.content@.msgs[i as int] == message@);
                return true;
            }
            i = i + 1;
        }
        proof {
            if self.content@.msgs.contains(message@) {
                let k = choose|k: int| 0 <= k < self.content@.msgs.len() && self.content@.msgs[k] == message@;
                assert(self.content.buf@[k]@ == message@);
            }
        }
        false
    }

    fn draw_window(&self) -> (r: Vec<Draw>)
        requires
            self.w is Some,
            self.h is Some,
        ensures
            ops_view(r@) == window_redraw(*self),
    {
        let h = self.h.unwrap();
        let w = self.w.unwrap();
        let count = self.content.lines.len();
        let ghost l = self.content@.lines;
        let first: usize = if count > h as usize && count - h as usize > self.content.view {
            count - h as usize - self.content.view
        } else {
            0
        };
        let rows: u16 = if self.y as u32 + h as u32 <= 65536 { h } else { (65535 - self.y) + 1 };
        let mut r: Vec<Draw> = Vec::new();
        r.push(Draw::SaveCursor);
        let mut k: u16 = 0;
        while k < rows
            invariant
                k <= rows,
                rows as int == rows_drawn(self.y, h),
                h == self.h->0,
                w == self.w->0,
                l == self.content@.lines,
                count == l.len(),
                first as int == first_shown(count as int, h as int, self.content.view as int),
                ops_view(r@) == seq![DrawView::SaveCursor] + window_rows(l, first as int, self.x, self.y, w, k as int),
            decreases rows - k,
        {
            let ghost prev = r@;
            let row: u16 = self.y + k;
            r.push(Draw::Goto(self.x, row));
            r.push(Draw::Blank(w));
            r.push(Draw::Goto(self.x, row));
            if first < count && k as usize <= count - 1 - first {
                r.push(Draw::Print(copy_chars(&self.content.lines[first + k as usize])));
            }
            proof {
                let ro = row_ops(l, first as int, self.x, self.y, w, k as int);
                if first + k < count {
                    assert(l[first + k] == self.content.lines@[first + k]@);
                }
                assert(ops_view(r@) =~= ops_view(prev) + ro);
                assert(window_rows(l, first as int, self.x, self.y, w, k as int + 1)
                    == window_rows(l, first as int, self.x, self.y, w, k as int) + ro);
                assert(ops_view(r@) =~= seq![DrawView::SaveCursor] + window_rows(l, first as int, self.x, self.y, w, k as int + 1));
            }
            k = k + 1;
        }
        r.push(Draw::RestoreCursor);
        assert(ops_view(r@) =~= window_redraw(*self));
        r
    }
}

impl ViewTrait for Widget<BufferedWin> {
    open spec fn spec_width(&self) -> Option<u16> {
        self.w
    }

    open spec fn spec_height(&self) -> Option<u16> {
        self.h
    }

    open spec fn spec_left(&self) -> u16 {
        self.x
    }

    open spec fn spec_top(&self) -> u16 {
        self.y
    }

    open spec fn spec_dirty(&self) -> bool {
        self.dirty
    }

    open spec fn fills_width(&self) -> bool {
        !(self.width is Absolute)
    }

    open spec fn fills_height(&self) -> bool {
        !(self.height is Absolute)
    }

    open spec fn ready(&self) -> bool {
        self.w is Some && self.h is Some
    }

    open spec fn keeps_state(&self, before: Self) -> bool {
        self.width == before.width && self.height == before.height && self.content == before.content
    }

    open spec fn measure_post(&self, before: Self, width_spec: Option<u16>, height_spec: Option<u16>) -> bool {
        &&& self.w == dim_measure(before.width, width_spec)
        &&& self.h == dim_measure(before.height, height_spec)
    }

    open spec fn layout_post(&self, before: Self, top: u16, left: u16) -> bool {
        self.x == left && self.y == top && self.content == before.content
    }

    open spec fn spec_redraw(&self) -> Seq<DrawView> {
        window_redraw(*self)
    }

    fn measure(&mut self, width_spec: Option<u16>, height_spec: Option<u16>) {
        self.measure_leaf(width_spec, height_spec);
    }

    fn layout(&mut self, top: u16, left: u16) {
        self.layout_leaf(top, left);
    }

    fn is_dirty(&self) -> (r: bool) {
        self.dirty
    }

    fn get_measured_width(&self) -> (r: Option<u16>) {
        self.w
    }

    fn get_measured_height(&self) -> (r: Option<u16>) {
        self.h
    }

    fn redraw(&self) -> (r: Vec<Draw>) {
        self.draw_window()
    }
}

impl Window for Widget<BufferedWin> {
    open spec fn scrollback(&self) -> BufferedView {
        self.content@
    }

    open spec fn rows(&self) -> Option<u16> {
        self.h
    }

    fn recv_message(&mut self, message: &String, print: bool) -> (r: Vec<Draw>) {
        if self.contains(message) {
            return Vec::new();
        }
        let ghost before = self.content@;
        let mut added = display_lines(message);
        let ghost added_lines = added@.map_values(|l: Vec<char>| l@);
        self.content.lines.append(&mut added);
        self.content.buf.push(message.clone());
        proof {
            let after = self.content@;
            assert(after.lines =~= before.lines + added_lines);
            assert(after.msgs =~= before.msgs.push(message@));
            assert(after.msgs.drop_last() =~= before.msgs);
            assert forall|i: int, j: int| 0 <= i < j < after.msgs.len() implies after.msgs[i] != after.msgs[j] by {
                if j == before.msgs.len() {
                    assert(before.msgs[i] == after.msgs[i]);
                }
            }
        }
        if print {
            self.draw_window()
        } else {
            Vec::new()
        }
    }

    fn page_up(&mut self) -> (r: Vec<Draw>) {
        let h = self.h.unwrap() as usize;
        let count = self.content.lines.len();
        if count < h {
            return Vec::new();
        }
        let max = count - h;
        if self.content.view < max && max - self.content.view > h {
            self.content.view = self.content.view + h;
        } else {
            self.content.view = max;
        }
        proof {
            assert(self.content@.lines == old(self).content@.lines);
            assert(self.content@.msgs == old(self).content@.msgs);
        }
        self.draw_window()
    }

    fn page_down(&mut self) -> (r: Vec<Draw>) {
        let h = self.h.unwrap() as usize;
        if self.content.view > h {
            self.content.view = self.content.view - h;
        } else {
            self.content.view = 0;
        }
        proof {
            assert(self.content@.lines == old(self).content@.lines);
            assert(self.content@.msgs == old(self).content@.msgs);
        }
        self.draw_window()
    }
}

} // verus!

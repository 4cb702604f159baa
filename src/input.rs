//! A single-line text editor with a code-point cursor and a history of
//! submitted lines.
use vstd::prelude::*;
use vstd::utf8::{encode_utf8, encode_scalar, char_is_scalar};
use crate::view::{dim_measure, Dimension, Draw, DrawView, ViewTrait, Widget, ops_view, copy_chars, same_frame};

verus! {

/// Edit state of a line editor. The cursor counts code points, never bytes.
pub struct Input {
    pub buf: Vec<char>,
    /// The line being typed, kept while the history is browsed.
    pub tmp_buf: Option<Vec<char>>,
    /// Typed characters are not echoed.
    pub password: bool,
    pub history: Vec<Vec<char>>,
    pub history_index: usize,
    pub cursor: usize,
}

/// Bytes that `c` takes in UTF-8.
pub open spec fn utf8_width(c: char) -> nat {
    if (c as u32) < 0x80 {
        1
    } else if (c as u32) < 0x800 {
        2
    } else if (c as u32) < 0x10000 {
        3
    } else {
        4
    }
}

/// Bytes that the first `n` characters of `s` take in UTF-8.
pub open spec fn utf8_prefix_len(s: Seq<char>, n: int) -> nat
    decreases n,
{
    if n <= 0 {
        0
    } else {
        utf8_prefix_len(s, n - 1) + utf8_width(s[n - 1])
    }
}

proof fn lemma_scalar_width(c: char)
    ensures
        encode_scalar(c as u32).len() == utf8_width(c),
{
    char_is_scalar(c);
}

proof fn lemma_encode_concat(a: Seq<char>, b: Seq<char>)
    ensures
        encode_utf8(a + b).len() == encode_utf8(a).len() + encode_utf8(b).len(),
    decreases a.len(),
{
    if a.len() > 0 {
        assert((a + b).drop_first() =~= a.drop_first() + b);
        lemma_encode_concat(a.drop_first(), b);
    } else {
        assert(a + b =~= b);
    }
}

/// The byte offset of a code point is the length of the UTF-8 encoding of
/// the text before it: it starts at zero and each character adds its
/// encoded length, one byte for ASCII and two to four for the others.
pub proof fn byte_offset_is_utf8_length(s: Seq<char>, n: int)
    requires
        0 <= n <= s.len(),
    ensures
        utf8_prefix_len(s, n) == encode_utf8(s.subrange(0, n)).len(),
        utf8_prefix_len(s, 0) == 0,
        n < s.len() ==> utf8_prefix_len(s, n + 1) == utf8_prefix_len(s, n) + encode_scalar(s[n] as u32).len(),
        n < s.len() && (s[n] as u32) >= 0x80 ==> utf8_prefix_len(s, n + 1) >= utf8_prefix_len(s, n) + 2,
    decreases n,
{
    if n > 0 {
        byte_offset_is_utf8_length(s, n - 1);
        assert(s.subrange(0, n) =~= s.subrange(0, n - 1) + seq![s[n - 1]]);
        lemma_encode_concat(s.subrange(0, n - 1), seq![s[n - 1]]);
        lemma_scalar_width(s[n - 1]);
        let one = seq![s[n - 1]];
        assert(one.drop_first() =~= Seq::<char>::empty());
        assert(encode_utf8(Seq::<char>::empty()) == Seq::<u8>::empty());
        assert(one[0] == s[n - 1]);
        assert(encode_utf8(one) == encode_scalar(one[0] as u32) + encode_utf8(one.drop_first()));
        assert(encode_utf8(one).len() == encode_scalar(s[n - 1] as u32).len());
    } else {
        assert(s.subrange(0, 0) =~= Seq::<char>::empty());
    }
    if n < s.len() {
        lemma_scalar_width(s[n]);
    }
}

fn char_utf8_width(c: char) -> (r: usize)
    ensures
        r == utf8_width(c),
{
    let u = c as u32;
    if u < 0x80 {
        1
    } else if u < 0x800 {
        2
    } else if u < 0x10000 {
        3
    } else {
        4
    }
}

impl Input {
    /// Cursor and history index stay within their sequences.
    pub open spec fn wf(&self) -> bool {
        &&& self.cursor <= self.buf@.len()
        &&& self.history_index <= self.history@.len()
    }

    /// Byte offset, in the buffer's UTF-8 encoding, of the code point at
    /// position `cursor`.
    pub fn byte_index(&self, cursor: usize) -> (r: usize)
        requires
            cursor <= self.buf@.len(),
            self.buf@.len() < usize::MAX / 4,
        ensures
            r == utf8_prefix_len(self.buf@, cursor as int),
    {
        let mut byte_index: usize = 0;
        let mut i: usize = 0;
        while i < cursor
            invariant
                i <= cursor,
                cursor <= self.buf@.len(),
                self.buf@.len() < usize::MAX / 4,
                byte_index == utf8_prefix_len(self.buf@, i as int),
                byte_index <= 4 * i,
            decreases cursor - i,
        {
            byte_index = byte_index + char_utf8_width(self.buf[i]);
            i = i + 1;
        }
        byte_index
    }

    /// Number of bytes of the buffer in UTF-8.
    pub fn byte_len(&self) -> (r: usize)
        requires
            self.buf@.len() < usize::MAX / 4,
        ensures
            r == utf8_prefix_len(self.buf@, self.buf@.len() as int),
    {
        self.byte_index(self.buf.len())
    }
}

/// An `Input` with its text as sequences.
pub struct InputView {
    pub buf: Seq<char>,
    pub tmp_buf: Option<Seq<char>>,
    pub password: bool,
    pub history: Seq<Seq<char>>,
    pub history_index: nat,
    pub cursor: nat,
}

impl View for Input {
    type V = InputView;

    open spec fn view(&self) -> InputView {
        InputView {
            buf: self.buf@,
            tmp_buf: match self.tmp_buf {
                Some(t) => Some(t@),
                None => None,
            },
            password: self.password,
            history: self.history@.map_values(|h: Vec<char>| h@),
            history_index: self.history_index as nat,
            cursor: self.cursor as nat,
        }
    }
}

/// Characters that end a word, besides the blank.
pub open spec fn is_separator(c: char) -> bool {
    c == '/' || c == '\\' || c == '\'' || c == '"' || c == '&' || c == '(' || c == ')' || c == '*'
        || c == ',' || c == ';' || c == '<' || c == '=' || c == '>' || c == '?' || c == '@' || c == '['
        || c == ']' || c == '^' || c == '{' || c == '|' || c == '}'
}

/// What the backward scan has seen so far.
#[derive(Clone, Copy, PartialEq, Eq, Structural)]
pub enum WordParserState {
    Init,
    Space,
    Separator,
    Word,
}

/// Where the word before position `i` starts, scanning backward in `state`:
/// blanks are skipped, then either a run of separators or a run of other
/// characters is taken.
pub open spec fn word_start(s: Seq<char>, i: int, state: WordParserState) -> int
    decreases i,
{
    if i <= 0 {
        0
    } else {
        let c = s[i - 1];
        match state {
            WordParserState::Init | WordParserState::Space => if c == ' ' {
                word_start(s, i - 1, WordParserState::Space)
            } else if is_separator(c) {
                word_start(s, i - 1, WordParserState::Separator)
            } else {
                word_start(s, i - 1, WordParserState::Word)
            },
            WordParserState::Separator => if is_separator(c) {
                word_start(s, i - 1, WordParserState::Separator)
            } else {
                i
            },
            WordParserState::Word => if c == ' ' || is_separator(c) {
                i
            } else {
                word_start(s, i - 1, WordParserState::Word)
            },
        }
    }
}

proof fn lemma_word_start_bounds(s: Seq<char>, i: int, state: WordParserState)
    requires
        0 <= i,
    ensures
        0 <= word_start(s, i, state) <= i,
    decreases i,
{
    if i > 0 {
        lemma_word_start_bounds(s, i - 1, WordParserState::Space);
        lemma_word_start_bounds(s, i - 1, WordParserState::Separator);
        lemma_word_start_bounds(s, i - 1, WordParserState::Word);
    }
}

impl InputView {
    pub open spec fn wf(self) -> bool {
        &&& self.cursor <= self.buf.len()
        &&& self.history_index <= self.history.len()
    }

    pub open spec fn key(self, c: char) -> InputView {
        InputView { buf: self.buf.insert(self.cursor as int, c), cursor: self.cursor + 1, ..self }
    }

    pub open spec fn backspace(self) -> InputView {
        if self.cursor > 0 {
            InputView { buf: self.buf.remove(self.cursor - 1), cursor: (self.cursor - 1) as nat, ..self }
        } else {
            self
        }
    }

    pub open spec fn delete(self) -> InputView {
        if self.cursor < self.buf.len() {
            InputView { buf: self.buf.remove(self.cursor as int), ..self }
        } else {
            self
        }
    }

    pub open spec fn delete_word(self) -> InputView {
        let start = word_start(self.buf, self.cursor as int, WordParserState::Init);
        InputView {
            buf: self.buf.subrange(0, start) + self.buf.subrange(self.cursor as int, self.buf.len() as int),
            cursor: start as nat,
            ..self
        }
    }

    pub open spec fn home(self) -> InputView {
        InputView { cursor: 0, ..self }
    }

    pub open spec fn end(self) -> InputView {
        InputView { cursor: self.buf.len(), ..self }
    }

    pub open spec fn left(self) -> InputView {
        if self.cursor > 0 {
            InputView { cursor: (self.cursor - 1) as nat, ..self }
        } else {
            self
        }
    }

    pub open spec fn right(self) -> InputView {
        if self.cursor < self.buf.len() {
            InputView { cursor: self.cursor + 1, ..self }
        } else {
            self
        }
    }

    /// Empty line, no kept line, echo on; the history stays.
    pub open spec fn clear(self) -> InputView {
        InputView { buf: Seq::empty(), cursor: 0, tmp_buf: None, password: false, ..self }
    }

    pub open spec fn password_mode(self) -> InputView {
        InputView { password: true, ..self.clear() }
    }

    /// Outside password mode the line joins the history and browsing starts
    /// again past its end; then the editor is cleared.
    pub open spec fn validate(self) -> InputView {
        if self.password {
            self.clear()
        } else {
            InputView {
                history: self.history.push(self.buf),
                history_index: self.history.len() + 1,
                ..self
            }.clear()
        }
    }

    /// One entry back in the history; the first step keeps the line being
    /// typed.
    pub open spec fn previous(self) -> InputView {
        if self.history_index == 0 {
            self
        } else {
            let i = (self.history_index - 1) as nat;
            InputView {
                tmp_buf: if self.tmp_buf is None { Some(self.buf) } else { self.tmp_buf },
                history_index: i,
                buf: self.history[i as int],
                cursor: self.history[i as int].len(),
                ..self
            }
        }
    }

    /// One entry forward in the history; past the newest entry the kept line
    /// comes back.
    pub open spec fn next(self) -> InputView {
        if self.history_index >= self.history.len() {
            self
        } else {
            let i = self.history_index + 1;
            let b = if i == self.history.len() {
                match self.tmp_buf {
                    Some(t) => t,
                    None => Seq::empty(),
                }
            } else {
                self.history[i as int]
            };
            InputView {
                tmp_buf: if i == self.history.len() { None } else { self.tmp_buf },
                history_index: i,
                buf: b,
                cursor: b.len(),
                ..self
            }
        }
    }
}

/// After two lines have been submitted, two steps back in the history and two
/// steps forward bring back the line that was being typed.
pub proof fn history_round_trip(s: InputView, first: Seq<char>, second: Seq<char>, typed: Seq<char>)
    requires
        s.wf(),
        !s.password,
    ensures
        ({
            let a = InputView { buf: first, cursor: first.len(), ..s }.validate();
            let b = InputView { buf: second, cursor: second.len(), ..a }.validate();
            let c = InputView { buf: typed, cursor: typed.len(), ..b };
            &&& c.previous().buf == second
            &&& c.previous().previous().buf == first
            &&& c.previous().previous().next().buf == second
            &&& c.previous().previous().next().next().buf == typed
            &&& c.previous().previous().next().next().tmp_buf is None
        }),
{
}

/// Column of the cursor: `x` advanced by `cursor` code points, kept on screen.
pub open spec fn cursor_column(x: u16, cursor: nat) -> u16 {
    if x + cursor <= 65535 {
        (x + cursor) as u16
    } else {
        65535
    }
}

/// Blank the line and leave the cursor at its start.
pub open spec fn input_clear_ops(v: Widget<Input>) -> Seq<DrawView> {
    seq![DrawView::Goto(v.x, v.y), DrawView::Blank(v.w->0), DrawView::Goto(v.x, v.y)]
}

/// Blank the line, print the buffer, put the cursor at its code point.
pub open spec fn input_redraw(v: Widget<Input>) -> Seq<DrawView> {
    input_clear_ops(v) + seq![
        DrawView::Print(v.content.buf@),
        DrawView::Goto(cursor_column(v.x, v.content.cursor as nat), v.y),
    ]
}

/// What an edit draws: nothing in password mode, else the whole line.
pub open spec fn input_echo(v: Widget<Input>) -> Seq<DrawView> {
    if v.content.password {
        Seq::empty()
    } else {
        input_redraw(v)
    }
}

impl Widget<Input> {
    /// An empty editor one row high that fills its parent's width.
    pub fn new() -> (r: Self)
        ensures
            r.width == Dimension::MatchParent,
            r.height == Dimension::Absolute(1),
            r.x == 0,
            r.y == 0,
            r.w is None,
            r.h is None,
            r.dirty,
            r.content.wf(),
            r.content@ == (InputView {
                buf: Seq::empty(),
                tmp_buf: None,
                password: false,
                history: Seq::empty(),
                history_index: 0,
                cursor: 0,
            }),
    {
        let r = Widget {
            width: Dimension::MatchParent,
            height: Dimension::Absolute(1),
            x: 0,
            y: 0,
            w: None,
            h: None,
            dirty: true,
            content: Input {
                buf: Vec::new(),
                tmp_buf: None,
                password: false,
                history: Vec::new(),
                history_index: 0,
                cursor: 0,
            },
        };
        assert(r.content@.history =~= Seq::empty());
        r
    }

    fn draw_line(&self) -> (r: Vec<Draw>)
        requires
            self.w is Some,
        ensures
            ops_view(r@) == input_redraw(*self),
    {
        let mut r: Vec<Draw> = Vec::new();
        r.push(Draw::Goto(self.x, self.y));
        r.push(Draw::Blank(self.w.unwrap()));
        r.push(Draw::Goto(self.x, self.y));
        r.push(Draw::Print(copy_chars(&self.content.buf)));
        let column: u16 = if self.content.cursor <= (65535 - self.x) as usize {
            self.x + self.content.cursor as u16
        } else {
            65535
        };
        r.push(Draw::Goto(column, self.y));
        assert(ops_view(r@) =~= input_redraw(*self));
        r
    }

    fn draw_clear(&self) -> (r: Vec<Draw>)
        requires
            self.w is Some,
        ensures
            ops_view(r@) == input_clear_ops(*self),
    {
        let mut r: Vec<Draw> = Vec::new();
        r.push(Draw::Goto(self.x, self.y));
        r.push(Draw::Blank(self.w.unwrap()));
        r.push(Draw::Goto(self.x, self.y));
        assert(ops_view(r@) =~= input_clear_ops(*self));
        r
    }

    fn echo(&self) -> (r: Vec<Draw>)
        requires
            !self.content.password ==> self.w is Some,
        ensures
            ops_view(r@) == input_echo(*self),
    {
        if self.content.password {
            let r = Vec::new();
            assert(ops_view(r@) =~= Seq::empty());
            r
        } else {
            self.draw_line()
        }
    }

    /// Insert `c` at the cursor and move the cursor past it.
    pub fn key(&mut self, c: char) -> (r: Vec<Draw>)
        requires
            old(self).content.wf(),
            !old(self).content.password ==> old(self).w is Some,
            old(self).content.buf@.len() < usize::MAX,
        ensures
            final(self).content.wf(),
            final(self).content@ == old(self).content@.key(c),
            same_frame(*final(self), *old(self)),
            ops_view(r@) == input_echo(*final(self)),
    {
        self.content.buf.insert(self.content.cursor, c);
        self.content.cursor = self.content.cursor + 1;
        self.echo()
    }

    /// Remove the code point before the cursor, if any.
    pub fn backspace(&mut self) -> (r: Vec<Draw>)
        requires
            old(self).content.wf(),
            !old(self).content.password ==> old(self).w is Some,
        ensures
            final(self).content.wf(),
            final(self).content@ == old(self).content@.backspace(),
            same_frame(*final(self), *old(self)),
            ops_view(r@) == input_echo(*final(self)),
    {
        if self.content.cursor > 0 {
            self.content.buf.remove(self.content.cursor - 1);
            self.content.cursor = self.content.cursor - 1;
        }
        self.echo()
    }

    /// Remove the code point at the cursor, if any.
    pub fn delete(&mut self) -> (r: Vec<Draw>)
        requires
            old(self).content.wf(),
            !old(self).content.password ==> old(self).w is Some,
        ensures
            final(self).content.wf(),
            final(self).content@ == old(self).content@.delete(),
            same_frame(*final(self), *old(self)),
            ops_view(r@) == input_echo(*final(self)),
    {
        if self.content.cursor < self.content.buf.len() {
            self.content.buf.remove(self.content.cursor);
        }
        self.echo()
    }

    /// Remove the word before the cursor: blanks right before it, then a run
    /// of separators or a run of word characters.
    pub fn backward_delete_word(&mut self) -> (r: Vec<Draw>)
        requires
            old(self).content.wf(),
            !old(self).content.password ==> old(self).w is Some,
        ensures
            final(self).content.wf(),
            final(self).content@ == old(self).content@.delete_word(),
            same_frame(*final(self), *old(self)),
            ops_view(r@) == input_echo(*final(self)),
    {
        let cursor = self.content.cursor;
        let mut state = WordParserState::Init;
        let mut start: usize = cursor;
        let mut done = false;
        while start > 0 && !done
            invariant
                cursor == self.content.cursor,
                cursor <= self.content.buf@.len(),
                start <= cursor,
                done ==> start as int == word_start(self.content.buf@, cursor as int, WordParserState::Init),
                !done ==> word_start(self.content.buf@, start as int, state)
                    == word_start(self.content.buf@, cursor as int, WordParserState::Init),
            decreases start, if done { 0int } else { 1int },
        {
            let c = self.content.buf[start - 1];
            let sep = is_separator_char(c);
            match state {
                WordParserState::Init | WordParserState::Space => {
                    state = if c == ' ' {
                        WordParserState::Space
                    } else if sep {
                        WordParserState::Separator
                    } else {
                        WordParserState::Word
                    };
                    start = start - 1;
                },
                WordParserState::Separator => {
                    if sep {
                        start = start - 1;
                    } else {
                        done = true;
                    }
                },
                WordParserState::Word => {
                    if c == ' ' || sep {
                        done = true;
                    } else {
                        start = start - 1;
                    }
                },
            }
        }
        proof {
            lemma_word_start_bounds(self.content.buf@, cursor as int, WordParserState::Init);
        }
        let ghost old_buf = self.content.buf@;
        let mut tail = self.content.buf.split_off(cursor);
        self.content.buf.truncate(start);
        self.content.buf.append(&mut tail);
        self.content.cursor = start;
        assert(self.content.buf@ =~= old_buf.subrange(0, start as int) + old_buf.subrange(cursor as int, old_buf.len() as int));
        self.echo()
    }

    /// Move the cursor to the start of the line.
    pub fn home(&mut self) -> (r: Vec<Draw>)
        requires
            old(self).content.wf(),
            !old(self).content.password ==> old(self).w is Some,
        ensures
            final(self).content.wf(),
            final(self).content@ == old(self).content@.home(),
            same_frame(*final(self), *old(self)),
            ops_view(r@) == input_echo(*final(self)),
    {
        self.content.cursor = 0;
        self.echo()
    }

    /// Move the cursor past the last code point.
    pub fn end(&mut self) -> (r: Vec<Draw>)
        requires
            old(self).content.wf(),
            !old(self).content.password ==> old(self).w is Some,
        ensures
            final(self).content.wf(),
            final(self).content@ == old(self).content@.end(),
            same_frame(*final(self), *old(self)),
            ops_view(r@) == input_echo(*final(self)),
    {
        self.content.cursor = self.content.buf.len();
        self.echo()
    }

    /// Move the cursor one code point left, if it can.
    pub fn left(&mut self) -> (r: Vec<Draw>)
        requires
            old(self).content.wf(),
            !old(self).content.password ==> old(self).w is Some,
        ensures
            final(self).content.wf(),
            final(self).content@ == old(self).content@.left(),
            same_frame(*final(self), *old(self)),
            ops_view(r@) == input_echo(*final(self)),
    {
        if self.content.cursor > 0 {
            self.content.cursor = self.content.cursor - 1;
        }
        self.echo()
    }

    /// Move the cursor one code point right, if it can.
    pub fn right(&mut self) -> (r: Vec<Draw>)
        requires
            old(self).content.wf(),
            !old(self).content.password ==> old(self).w is Some,
        ensures
            final(self).content.wf(),
            final(self).content@ == old(self).content@.right(),
            same_frame(*final(self), *old(self)),
            ops_view(r@) == input_echo(*final(self)),
    {
        if self.content.cursor < self.content.buf.len() {
            self.content.cursor = self.content.cursor + 1;
        }
        self.echo()
    }

    /// Empty the line, drop the kept line, leave password mode and blank the
    /// row.
    pub fn clear(&mut self) -> (r: Vec<Draw>)
        requires
            old(self).content.wf(),
            old(self).w is Some,
        ensures
            final(self).content.wf(),
            final(self).content@ == old(self).content@.clear(),
            same_frame(*final(self), *old(self)),
            ops_view(r@) == input_clear_ops(*final(self)),
    {
        self.content.buf.clear();
        self.content.cursor = 0;
        self.content.tmp_buf = None;
        self.content.password = false;
        self.draw_clear()
    }

    /// Clear, then take input without echo behind a prompt.
    pub fn password(&mut self) -> (r: Vec<Draw>)
        requires
            old(self).content.wf(),
            old(self).w is Some,
        ensures
            final(self).content.wf(),
            final(self).content@ == old(self).content@.password_mode(),
            same_frame(*final(self), *old(self)),
            ops_view(r@) == input_clear_ops(*final(self)) + seq![DrawView::Print(password_prompt())],
    {
        let mut r = self.clear();
        self.content.password = true;
        r.push(Draw::Print(vec!['p', 'a', 's', 's', 'w', 'o', 'r', 'd', ':', ' ']));
        assert(ops_view(r@) =~= input_clear_ops(*self) + seq![DrawView::Print(password_prompt())]);
        r
    }

    /// Hand the line over, with whether it was typed in password mode; outside
    /// password mode it joins the history. The editor is then cleared.
    pub fn validate(&mut self) -> (r: (Vec<char>, bool, Vec<Draw>))
        requires
            old(self).content.wf(),
            old(self).w is Some,
        ensures
            final(self).content.wf(),
            final(self).content@ == old(self).content@.validate(),
            r.0@ == old(self).content.buf@,
            r.1 == old(self).content.password,
            same_frame(*final(self), *old(self)),
            ops_view(r.2@) == input_clear_ops(*final(self)),
    {
        if !self.content.password {
            let line = copy_chars(&self.content.buf);
            self.content.history.push(line);
            self.content.history_index = self.content.history.len();
        }
        let buf = copy_chars(&self.content.buf);
        let password = self.content.password;
        let ops = self.clear();
        assert(self.content@.history =~= old(self).content@.validate().history);
        (buf, password, ops)
    }

    /// Step back in the history and redraw.
    pub fn previous(&mut self) -> (r: Vec<Draw>)
        requires
            old(self).content.wf(),
            old(self).w is Some,
        ensures
            final(self).content.wf(),
            final(self).content@ == old(self).content@.previous(),
            same_frame(*final(self), *old(self)),
            old(self).content.history_index == 0 ==> r@.len() == 0,
            old(self).content.history_index > 0 ==> ops_view(r@) == input_redraw(*final(self)),
    {
        if self.content.history_index == 0 {
            return Vec::new();
        }
        if self.content.tmp_buf.is_none() {
            self.content.tmp_buf = Some(copy_chars(&self.content.buf));
        }
        self.content.history_index = self.content.history_index - 1;
        self.content.buf = copy_chars(&self.content.history[self.content.history_index]);
        self.content.cursor = self.content.buf.len();
        assert(self.content@.history =~= old(self).content@.history);
        self.draw_line()
    }

    /// Step forward in the history and redraw.
    pub fn next(&mut self) -> (r: Vec<Draw>)
        requires
            old(self).content.wf(),
            old(self).w is Some,
        ensures
            final(self).content.wf(),
            final(self).content@ == old(self).content@.next(),
            same_frame(*final(self), *old(self)),
            old(self).content.history_index == old(self).content.history@.len() ==> r@.len() == 0,
            old(self).content.history_index < old(self).content.history@.len()
                ==> ops_view(r@) == input_redraw(*final(self)),
    {
        if self.content.history_index == self.content.history.len() {
            return Vec::new();
        }
        self.content.history_index = self.content.history_index + 1;
        if self.content.history_index == self.content.history.len() {
            self.content.buf = match self.content.tmp_buf.take() {
                Some(t) => t,
                None => Vec::new(),
            };
        } else {
            self.content.buf = copy_chars(&self.content.history[self.content.history_index]);
        }
        self.content.cursor = self.content.buf.len();
        assert(self.content@.history =~= old(self).content@.history);
        self.draw_line()
    }
}

/// The prompt shown in password mode.
pub open spec fn password_prompt() -> Seq<char> {
    seq!['p', 'a', 's', 's', 'w', 'o', 'r', 'd', ':', ' ']
}

fn is_separator_char(c: char) -> (r: bool)
    ensures
        r == is_separator(c),
{
    c == '/' || c == '\\' || c == '\'' || c == '"' || c == '&' || c == '(' || c == ')' || c == '*'
        || c == ',' || c == ';' || c == '<' || c == '=' || c == '>' || c == '?' || c == '@' || c == '['
        || c == ']' || c == '^' || c == '{' || c == '|' || c == '}'
}

impl ViewTrait for Widget<Input> {
    open spec fn spec_width(&self) -> Option<u16> {
        self.w
    }

    open spec fn spec_height(&self) -> Option<u16> {
        self.h
    }

    open spec fn spec_left(&self) -> u16 {
        self.x
    }

    open spec fn spec_top(&self) -> u16 {
        self.y
    }

    open spec fn spec_dirty(&self) -> bool {
        self.dirty
    }

    open spec fn fills_width(&self) -> bool {
        !(self.width is Absolute)
    }

    open spec fn fills_height(&self) -> bool {
        !(self.height is Absolute)
    }

    open spec fn ready(&self) -> bool {
        self.w is Some && self.h is Some
    }

    open spec fn keeps_state(&self, before: Self) -> bool {
        self.width == before.width && self.height == before.height && self.content == before.content
    }

    open spec fn measure_post(&self, before: Self, width_spec: Option<u16>, height_spec: Option<u16>) -> bool {
        &&& self.w == dim_measure(before.width, width_spec)
        &&& self.h == dim_measure(before.height, height_spec)
    }

    open spec fn layout_post(&self, before: Self, top: u16, left: u16) -> bool {
        self.x == left && self.y == top && self.content == before.content
    }

    open spec fn spec_redraw(&self) -> Seq<DrawView> {
        input_redraw(*self)
    }

    fn measure(&mut self, width_spec: Option<u16>, height_spec: Option<u16>) {
        self.measure_leaf(width_spec, height_spec);
    }

    fn layout(&mut self, top: u16, left: u16) {
        self.layout_leaf(top, left);
    }

    fn is_dirty(&self) -> (r: bool) {
        self.dirty
    }

    fn get_measured_width(&self) -> (r: Option<u16>) {
        self.w
    }

    fn get_measured_height(&self) -> (r: Option<u16>) {
        self.h
    }

    fn redraw(&self) -> (r: Vec<Draw>) {
        self.draw_line()
    }
}

} // verus!

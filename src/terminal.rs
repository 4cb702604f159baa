//! Terminal bytes for drawing operations: termion's cursor sequences, blanks
//! and text.
use vstd::prelude::*;
use crate::text::{ESC, is_csi, chars_of};
use crate::view::{Draw, DrawView, ops_view};

verus! {

/// The decimal digit of `d`.
pub open spec fn digit(d: nat) -> char {
    if d == 0 { '0' } else if d == 1 { '1' } else if d == 2 { '2' } else if d == 3 { '3' } else if d == 4 { '4' }
    else if d == 5 { '5' } else if d == 6 { '6' } else if d == 7 { '7' } else if d == 8 { '8' } else { '9' }
}

/// `n` in decimal, without leading zeros.
pub open spec fn decimal(n: nat) -> Seq<char>
    decreases n,
{
    if n < 10 {
        seq![digit(n)]
    } else {
        decimal(n / 10).push(digit(n % 10))
    }
}

/// The sequence that moves the cursor to column `x`, row `y`: escape, `[`,
/// the row, `;`, the column, `H`.
pub open spec fn goto_seq(x: u16, y: u16) -> Seq<char> {
    seq![ESC, '['] + decimal(y as nat) + seq![';'] + decimal(x as nat) + seq!['H']
}

/// Relies on termion's `From<Goto> for String`: the cursor-position sequence
/// with the row first, both in decimal.
#[verifier::external_body]
fn goto_text(x: u16, y: u16) -> (r: String)
    ensures
        r@ == goto_seq(x, y),
{
    String::from(termion::cursor::Goto(x, y))
}

/// Relies on termion's `Display` for `cursor::Save`: escape, `[`, `s`.
#[verifier::external_body]
fn save_text() -> (r: String)
    ensures
        r@ == seq![ESC, '[', 's'],
{
    format!("{}", termion::cursor::Save)
}

/// Relies on termion's `Display` for `cursor::Restore`: escape, `[`, `u`.
#[verifier::external_body]
fn restore_text() -> (r: String)
    ensures
        r@ == seq![ESC, '[', 'u'],
{
    format!("{}", termion::cursor::Restore)
}

/// Relies on `FromIterator<char> for String`: the characters in order.
#[verifier::external_body]
fn string_of(v: &Vec<char>) -> (r: String)
    ensures
        r@ == v@,
{
    v.iter().collect()
}

/// `n` blanks.
pub open spec fn blanks(n: nat) -> Seq<char> {
    Seq::new(n, |i: int| ' ')
}

/// The text of one operation.
pub open spec fn op_text(d: DrawView) -> Seq<char> {
    match d {
        DrawView::Goto(x, y) => goto_seq(x, y),
        DrawView::Blank(n) => blanks(n as nat),
        DrawView::Print(t) => t,
        DrawView::SaveCursor => seq![ESC, '[', 's'],
        DrawView::RestoreCursor => seq![ESC, '[', 'u'],
    }
}

/// The text of the first `n` operations, one after the other.
pub open spec fn ops_text(ops: Seq<DrawView>, n: int) -> Seq<char>
    decreases n,
{
    if n <= 0 {
        Seq::empty()
    } else {
        ops_text(ops, n - 1) + op_text(ops[n - 1])
    }
}

fn push_all(out: &mut Vec<char>, t: &Vec<char>)
    ensures
        final(out)@ == old(out)@ + t@,
{
    let mut i: usize = 0;
    while i < t.len()
        invariant
            i <= t@.len(),
            out@ == old(out)@ + t@.subrange(0, i as int),
        decreases t@.len() - i,
    {
        out.push(t[i]);
        i = i + 1;
        assert(out@ =~= old(out)@ + t@.subrange(0, i as int));
    }
    assert(t@.subrange(0, t@.len() as int) =~= t@);
}

/// The terminal text of `ops`, ready to be written and flushed.
pub fn encode(ops: &Vec<Draw>) -> (r: String)
    ensures
        r@ == ops_text(ops_view(ops@), ops@.len() as int),
{
    let ghost v = ops_view(ops@);
    let mut out: Vec<char> = Vec::new();
    let mut i: usize = 0;
    while i < ops.len()
        invariant
            i <= ops@.len(),
            v == ops_view(ops@),
            out@ == ops_text(v, i as int),
        decreases ops@.len() - i,
    {
        match &ops[i] {
            Draw::Goto(x, y) => push_all(&mut out, &chars_of(goto_text(*x, *y).as_str())),
            Draw::Blank(n) => {
                let ghost start = out@;
                let mut k: u16 = 0;
                while k < *n
                    invariant
                        k <= *n,
                        out@ == start + blanks(k as nat),
                    decreases *n - k,
                {
                    out.push(' ');
                    k = k + 1;
                    assert(out@ =~= start + blanks(k as nat));
                }
            },
            Draw::Print(t) => push_all(&mut out, t),
            Draw::SaveCursor => push_all(&mut out, &chars_of(save_text().as_str())),
            Draw::RestoreCursor => push_all(&mut out, &chars_of(restore_text().as_str())),
        }
        assert(v[i as int] == ops@[i as int]@);
        i = i + 1;
    }
    string_of(&out)
}

proof fn lemma_decimal_digits(n: nat)
    ensures
        decimal(n).len() >= 1,
        forall|k: int| 0 <= k < decimal(n).len() ==> '0' <= #[trigger] decimal(n)[k] && decimal(n)[k] <= '9',
    decreases n,
{
    if n >= 10 {
        lemma_decimal_digits(n / 10);
    }
}

/// A cursor move is a control sequence, so it takes no column on screen.
pub proof fn goto_is_control_sequence(x: u16, y: u16)
    ensures
        is_csi(goto_seq(x, y)),
{
    lemma_decimal_digits(x as nat);
    lemma_decimal_digits(y as nat);
    let a = goto_seq(x, y);
    let dy = decimal(y as nat);
    let dx = decimal(x as nat);
    assert forall|k: int| 2 <= k < a.len() - 1 implies crate::text::is_csi_inner(#[trigger] a[k]) by {
        if k < 2 + dy.len() {
            assert(a[k] == dy[k - 2]);
        } else if k == 2 + dy.len() {
            assert(a[k] == ';');
        } else {
            assert(a[k] == dx[k - 3 - dy.len()]);
        }
    }
}

} // verus!

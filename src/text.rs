//! Visible width of strings that carry terminal control sequences.
use vstd::prelude::*;
use vstd::std_specs::iter::IteratorSpec;

verus! {

pub const ESC: char = '\x1b';

/// A parameter or intermediate byte of a control sequence.
pub open spec fn is_csi_inner(c: char) -> bool {
    '\x20' <= c && c <= '\x3f'
}

/// A final byte of a control sequence.
pub open spec fn is_csi_final(c: char) -> bool {
    '\x40' <= c && c <= '\x7e'
}

/// Columns left in `s` from index `i`, scanning plain text.
pub open spec fn visible_from(s: Seq<char>, i: int) -> nat
    decreases s.len() - i, 1int,
{
    if i < 0 || i >= s.len() {
        0
    } else if s[i] == ESC {
        if i + 1 >= s.len() {
            0
        } else if s[i + 1] == '[' {
            visible_in_csi(s, i + 2)
        } else {
            visible_from(s, i + 2)
        }
    } else {
        1 + visible_from(s, i + 1)
    }
}

/// Columns left in `s` from index `i`, scanning the body of a control sequence:
/// parameter and intermediate bytes are skipped, and the next character ends it.
pub open spec fn visible_in_csi(s: Seq<char>, i: int) -> nat
    decreases s.len() - i, 0int,
{
    if i < 0 || i >= s.len() {
        0
    } else if is_csi_inner(s[i]) {
        visible_in_csi(s, i + 1)
    } else {
        visible_from(s, i + 1)
    }
}

/// Number of terminal columns that `s` occupies once printed.
pub open spec fn visible_len(s: Seq<char>) -> nat {
    visible_from(s, 0)
}

/// The characters of `s`, in order.
pub(crate) fn chars_of(s: &str) -> (r: Vec<char>)
    ensures
        r@ == s@,
{
    broadcast use vstd::string::axiom_spec_iter, vstd::string::next_postcondition;
    let mut it = s.chars();
    let mut r: Vec<char> = Vec::new();
    loop
        invariant
            r@ + it.remaining() == s@,
        ensures
            r@ == s@,
        decreases s@.len() - r@.len(),
    {
        match it.next() {
            Some(c) => {
                r.push(c);
                assert(r@ + it.remaining() =~= s@);
            },
            None => {
                assert(r@ =~= s@);
                break;
            },
        }
    }
    r
}

/// Counts the columns a string occupies on screen: a control sequence
/// (escape, `[`, parameter and intermediate bytes, a final byte) takes none,
/// an escape followed by another character takes none, every other character
/// takes one.
pub fn term_string_visible_len(string: &str) -> (r: usize)
    ensures
        r == visible_len(string@),
{
    visible_len_chars(&chars_of(string))
}

/// `term_string_visible_len` on characters.
pub fn visible_len_chars(s: &Vec<char>) -> (r: usize)
    ensures
        r == visible_len(s@),
{
    let n = s.len();
    let mut len: usize = 0;
    let mut i: usize = 0;
    let mut in_csi = false;
    while i < n
        invariant
            n == s@.len(),
            i <= n,
            len <= i,
            in_csi ==> len + visible_in_csi(s@, i as int) == visible_len(s@),
            !in_csi ==> len + visible_from(s@, i as int) == visible_len(s@),
        decreases n - i,
    {
        let c = s[i];
        if in_csi {
            if !('\x20' <= c && c <= '\x3f') {
                in_csi = false;
            }
            i = i + 1;
        } else if c == ESC {
            if i + 1 < n && s[i + 1] == '[' {
                in_csi = true;
            }
            i = if i + 1 < n { i + 2 } else { i + 1 };
        } else {
            len = len + 1;
            i = i + 1;
        }
    }
    len
}

/// A complete control sequence: escape, `[`, parameter and intermediate
/// bytes, then one final byte.
pub open spec fn is_csi(a: Seq<char>) -> bool {
    &&& a.len() >= 3
    &&& a[0] == ESC
    &&& a[1] == '['
    &&& is_csi_final(a[a.len() - 1])
    &&& forall|k: int| 2 <= k < a.len() - 1 ==> is_csi_inner(#[trigger] a[k])
}

/// Text without any escape character.
pub open spec fn is_plain(t: Seq<char>) -> bool {
    forall|k: int| 0 <= k < t.len() ==> #[trigger] t[k] != ESC
}

proof fn lemma_csi_body(s: Seq<char>, end: int, j: int)
    requires
        2 <= j < end < s.len() + 1,
        is_csi_final(s[end - 1]),
        forall|k: int| j <= k < end - 1 ==> is_csi_inner(#[trigger] s[k]),
    ensures
        visible_in_csi(s, j) == visible_from(s, end),
    decreases end - j,
{
    if j < end - 1 {
        lemma_csi_body(s, end, j + 1);
    }
}

/// A control sequence that starts at `i` takes no column.
proof fn lemma_skip_csi(s: Seq<char>, a: Seq<char>, i: int)
    requires
        is_csi(a),
        0 <= i,
        i + a.len() <= s.len(),
        s.subrange(i, i + a.len()) == a,
    ensures
        visible_from(s, i) == visible_from(s, i + a.len()),
{
    assert(s[i] == a[0]);
    assert(s[i + 1] == a[1]);
    assert(s[i + a.len() - 1] == a[a.len() - 1]);
    assert forall|k: int| i + 2 <= k < i + a.len() - 1 implies is_csi_inner(#[trigger] s[k]) by {
        assert(s[k] == a[k - i]);
    }
    lemma_csi_body(s, i + a.len(), i + 2);
}

/// Plain text of length `n` that starts at `i` takes `n` columns.
proof fn lemma_skip_plain(s: Seq<char>, i: int, n: int)
    requires
        0 <= i,
        0 <= n,
        i + n <= s.len(),
        forall|k: int| i <= k < i + n ==> #[trigger] s[k] != ESC,
    ensures
        visible_from(s, i) == n + visible_from(s, i + n),
    decreases n,
{
    if n > 0 {
        lemma_skip_plain(s, i + 1, n - 1);
    }
}

/// Visible text framed by control sequences, in either order, or by none,
/// occupies as many columns as it has characters.
pub proof fn visible_len_ignores_control_sequences(a: Seq<char>, t: Seq<char>, b: Seq<char>)
    requires
        is_csi(a) || a.len() == 0,
        is_csi(b) || b.len() == 0,
        is_plain(t),
    ensures
        visible_len(a + t + b) == t.len(),
{
    let s = a + t + b;
    assert(s.subrange(0, a.len() as int) =~= a);
    if a.len() > 0 {
        lemma_skip_csi(s, a, 0);
    }
    assert forall|k: int| a.len() <= k < a.len() + t.len() implies #[trigger] s[k] != ESC by {
        assert(s[k] == t[k - a.len()]);
    }
    lemma_skip_plain(s, a.len() as int, t.len() as int);
    assert(s.subrange((a.len() + t.len()) as int, s.len() as int) =~= b);
    if b.len() > 0 {
        lemma_skip_csi(s, b, (a.len() + t.len()) as int);
    }
}

} // verus!

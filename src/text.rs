//! Small verified helpers on character strings.
use vstd::prelude::*;
use vstd::string::{StrSliceExecFns, StringExecFns};

verus! {

/// Whether `s` and `t` hold the same characters.
pub fn same_text(s: &str, t: &str) -> (r: bool)
    ensures
        r == (s@ == t@),
{
    let n = s.unicode_len();
    if n != t.unicode_len() {
        return false;
    }
    let mut i: usize = 0;
    while i < n
        invariant
            n == s@.len(),
            n == t@.len(),
            i <= n,
            forall|k: int| 0 <= k < i ==> s@[k] == t@[k],
        decreases n - i,
    {
        if s.get_char(i) != t.get_char(i) {
            return false;
        }
        i = i + 1;
    }
    assert(s@ =~= t@);
    true
}


/// `s` without one pair of enclosing double quotes, where it has them.
pub open spec fn unquoted(s: Seq<char>) -> Seq<char> {
    if s.len() >= 2 && s[0] == '"' && s.last() == '"' {
        s.subrange(1, s.len() - 1)
    } else {
        s
    }
}

/// Whether `s[i]`, `s[i + 1]` are the two characters `\` and `n`.
pub open spec fn escaped_newline_at(s: Seq<char>, i: int) -> bool {
    0 <= i && i + 1 < s.len() && s[i] == '\\' && s[i + 1] == 'n'
}

/// The pieces of `s` between the two-character markers `\n`, in order.
/// There is always at least one piece.
pub open spec fn lines_of(s: Seq<char>) -> Seq<Seq<char>>
    decreases s.len(),
{
    if s.len() == 0 {
        seq![Seq::<char>::empty()]
    } else if escaped_newline_at(s, s.len() - 2) {
        lines_of(s.take(s.len() - 2)).push(Seq::<char>::empty())
    } else {
        let p = lines_of(s.drop_last());
        p.update(p.len() - 1, p.last().push(s.last()))
    }
}

/// Console text of one output row: the cell without its enclosing quotes,
/// split on the escaped newline marker `\n` (a backslash and the letter n).
pub fn parse_output(output: &str) -> (r: Vec<String>)
    ensures
        r.deep_view() == lines_of(unquoted(output@)),
{
    let len = output.unicode_len();
    let s: &str = if len >= 2 && output.get_char(0) == '"' && output.get_char(len - 1) == '"' {
        output.substring_char(1, len - 1)
    } else {
        output
    };
    assert(s@ == unquoted(output@));
    let n = s.unicode_len();
    let mut pieces: Vec<String> = Vec::new();
    let mut st: usize = 0;
    let mut i: usize = 0;
    assert(s@.take(0) =~= Seq::<char>::empty());
    assert(s@.subrange(0, 0) =~= Seq::<char>::empty());
    while i < n
        invariant
            n == s@.len(),
            st <= i <= n,
            lines_of(s@.take(i as int)) == pieces.deep_view().push(s@.subrange(st as int, i as int)),
            i > 0 ==> !escaped_newline_at(s@, i - 1),
        decreases n - i,
    {
        if i + 1 < n && s.get_char(i) == '\\' && s.get_char(i + 1) == 'n' {
            let ghost t = s@.take(i + 2);
            assert(escaped_newline_at(t, t.len() - 2));
            assert(t.take(t.len() - 2) =~= s@.take(i as int));
            let ghost before = pieces.deep_view();
            let piece = String::from_str(s.substring_char(st, i));
            pieces.push(piece);
            assert(pieces.deep_view() =~= before.push(piece@));
            i = i + 2;
            st = i;
            assert(s@.subrange(st as int, i as int) =~= Seq::<char>::empty());
        } else {
            let ghost t = s@.take(i + 1);
            assert(!escaped_newline_at(t, t.len() - 2));
            assert(t.drop_last() =~= s@.take(i as int));
            assert(s@.subrange(st as int, i + 1) =~= s@.subrange(st as int, i as int).push(s@[i as int]));
            i = i + 1;
        }
    }
    assert(s@.take(n as int) =~= s@);
    let ghost before = pieces.deep_view();
    let last = String::from_str(s.substring_char(st, n));
    pieces.push(last);
    assert(pieces.deep_view() =~= before.push(last@));
    assert(pieces.deep_view() =~= lines_of(s@));
    pieces
}

} // verus!

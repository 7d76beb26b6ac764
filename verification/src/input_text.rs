//! A task as text.
//!
//! The text holds, in this order: the operations that generate the group,
//! between braces and written as a list of operations; the positions, each as
//! three rational numbers between round brackets; the supercell as three
//! integers between square brackets; and, if wanted, `true` or `false` for
//! the pairs between different sites. Blanks and line breaks may stand
//! between these and inside the brackets, and what follows a `#` outside the
//! brackets is passed over to the end of its line.
use vstd::prelude::*;
use crate::affine_space::{Bounds3, Pos3};
use crate::error::Error;
use crate::input::{describes, texts_view, tree_to_args, positions_view, InputFile, InputView};
use crate::oplist::nodes_view;
use crate::oplist_text::{is_space, parse_oplist, scan};
use crate::symmetry::IsometryGroup;

verus! {

/// Where the text goes on after blanks, line breaks and comments, from `k`;
/// `in_comment` tells whether `k` stands in a comment.
pub open spec fn skip_from(s: Seq<char>, k: int, in_comment: bool) -> int
    decreases s.len() - k,
{
    if k < 0 || k >= s.len() {
        s.len() as int
    } else if in_comment {
        skip_from(s, k + 1, s[k] != '\n')
    } else if is_space(s[k]) {
        skip_from(s, k + 1, false)
    } else if s[k] == '#' {
        skip_from(s, k + 1, true)
    } else {
        k
    }
}

/// Where `c` first stands in `s`, from `k`; the length of `s` if it does not.
pub open spec fn find(s: Seq<char>, c: char, k: int) -> int
    decreases s.len() - k,
{
    if k < 0 || k >= s.len() {
        s.len() as int
    } else if s[k] == c {
        k
    } else {
        find(s, c, k + 1)
    }
}

/// The text without its blanks and line breaks.
pub open spec fn without_blanks(s: Seq<char>) -> Seq<char>
    decreases s.len(),
{
    if s.len() == 0 {
        Seq::empty()
    } else if is_space(s.last()) {
        without_blanks(s.drop_last())
    } else {
        without_blanks(s.drop_last()).push(s.last())
    }
}

/// The three texts that stand in `s` with two commas between them, each
/// without its blanks; `None` if `s` does not hold exactly two commas.
pub open spec fn triple_of(s: Seq<char>) -> Option<Seq<Seq<char>>> {
    let a = find(s, ',', 0);
    let b = find(s, ',', a + 1);
    if a < s.len() && b < s.len() && find(s, ',', b + 1) >= s.len() {
        Some(
            seq![
                without_blanks(s.subrange(0, a)),
                without_blanks(s.subrange(a + 1, b)),
                without_blanks(s.subrange(b + 1, s.len() as int)),
            ],
        )
    } else {
        None
    }
}

/// The text between the bracket `open`, which has to be the first thing after
/// the blanks and comments from `k`, and the next bracket `close`, together
/// with the place behind that bracket; `None` if these brackets are not
/// there.
pub open spec fn section(s: Seq<char>, open: char, close: char, k: int) -> Option<(Seq<char>, int)> {
    let i = skip_from(s, k, false);
    let j = find(s, close, i + 1);
    if k <= i < s.len() && s[i] == open && i < j < s.len() {
        Some((s.subrange(i + 1, j), j + 1))
    } else {
        None
    }
}

/// The positions that the text holds from `k`, after `acc`, together with the
/// place behind the last of them: as long as a round bracket comes next, it
/// opens a position. `None` if a position is not three texts between
/// brackets.
pub open spec fn positions_text_from(acc: Seq<Seq<Seq<char>>>, s: Seq<char>, k: int) -> Option<
    (Seq<Seq<Seq<char>>>, int),
>
    decreases s.len() - k,
{
    let i = skip_from(s, k, false);
    if k <= i < s.len() && s[i] == '(' {
        match section(s, '(', ')', k) {
            Some((inner, next)) => match triple_of(inner) {
                Some(t) => if next > k {
                    positions_text_from(acc.push(t), s, next)
                } else {
                    None
                },
                None => None,
            },
            None => None,
        }
    } else {
        Some((acc, k))
    }
}

/// The word `w` stands in `s` at `i`.
pub open spec fn has_word(s: Seq<char>, i: int, w: Seq<char>) -> bool {
    0 <= i && i + w.len() <= s.len() && s.subrange(i, i + w.len()) == w
}

/// The choice of the pairs that the text ends with from `k`: `true` or
/// `false`, or nothing, which stands for `false`. `None` if anything else
/// follows.
pub open spec fn flag_at(s: Seq<char>, k: int) -> Option<bool> {
    let i = skip_from(s, k, false);
    if i >= s.len() {
        Some(false)
    } else if has_word(s, i, seq!['t', 'r', 'u', 'e']) && skip_from(s, i + 4, false) >= s.len() {
        Some(true)
    } else if has_word(s, i, seq!['f', 'a', 'l', 's', 'e']) && skip_from(s, i + 5, false)
        >= s.len() {
        Some(false)
    } else {
        None
    }
}

/// The task that a text holds; `None` for a text that holds none.
pub open spec fn read_input(s: Seq<char>) -> Option<InputView> {
    match section(s, '{', '}', 0) {
        None => None,
        Some((list, after_list)) => match scan(list) {
            None => None,
            Some(operations) => match positions_text_from(Seq::empty(), s, after_list) {
                None => None,
                Some((positions, after_positions)) => match section(s, '[', ']', after_positions) {
                    None => None,
                    Some((cell, after_cell)) => match triple_of(cell) {
                        None => None,
                        Some(bounds) => match flag_at(s, after_cell) {
                            None => None,
                            Some(construct_ab_pairs) => Some(
                                InputView { operations, positions, bounds, construct_ab_pairs },
                            ),
                        },
                    },
                },
            },
        },
    }
}

/// Where the text goes on after blanks, line breaks and comments.
fn skip(s: &str, k: usize, len: usize) -> (r: usize)
    requires
        k <= len,
        len == s@.len(),
    ensures
        r == skip_from(s@, k as int, false),
        k <= r <= len,
{
    let mut i: usize = k;
    let mut in_comment = false;
    while i < len
        invariant
            k <= i <= len,
            len == s@.len(),
            skip_from(s@, i as int, in_comment) == skip_from(s@, k as int, false),
        decreases len - i,
    {
        let c = s.get_char(i);
        if in_comment {
            in_comment = c != '\n';
        } else if c == ' ' || c == '\t' || c == '\n' || c == '\r' {
        } else if c == '#' {
            in_comment = true;
        } else {
            return i;
        }
        i += 1;
    }
    i
}

/// Where `c` first stands in the text, from `k`.
fn find_char(s: &str, c: char, k: usize, len: usize) -> (r: usize)
    requires
        k <= len,
        len == s@.len(),
    ensures
        r == find(s@, c, k as int),
        k <= r <= len,
{
    let mut i: usize = k;
    while i < len
        invariant
            k <= i <= len,
            len == s@.len(),
            find(s@, c, i as int) == find(s@, c, k as int),
        decreases len - i,
    {
        if s.get_char(i) == c {
            return i;
        }
        i += 1;
    }
    i
}

/// The characters `from..to` of the text without blanks and line breaks.
fn strip(s: &str, from: usize, to: usize) -> (r: String)
    requires
        from <= to <= s@.len(),
    ensures
        r@ == without_blanks(s@.subrange(from as int, to as int)),
{
    let mut out = String::new();
    let mut i: usize = from;
    proof {
        assert(s@.subrange(from as int, from as int).len() == 0);
    }
    while i < to
        invariant
            from <= i <= to,
            to <= s@.len(),
            out@ == without_blanks(s@.subrange(from as int, i as int)),
        decreases to - i,
    {
        let c = s.get_char(i);
        proof {
            let next = s@.subrange(from as int, i + 1);
            assert(next.drop_last() == s@.subrange(from as int, i as int));
            assert(next.last() == c);
        }
        if !(c == ' ' || c == '\t' || c == '\n' || c == '\r') {
            let ghost before = out@;
            out.append(s.substring_char(i, i + 1));
            proof {
                assert(s@.subrange(i as int, i + 1) =~= seq![c]);
                assert(out@ =~= before.push(c));
            }
        }
        i += 1;
    }
    out
}

/// The three texts that stand in the text with two commas between them.
fn triple(s: &str) -> (r: Option<[String; 3]>)
    ensures
        match r {
            Some(t) => triple_of(s@) == Some(texts_view(t)),
            None => triple_of(s@) is None,
        },
{
    let len = s.unicode_len();
    let a = find_char(s, ',', 0, len);
    if a >= len {
        return None;
    }
    let b = find_char(s, ',', a + 1, len);
    if b >= len {
        return None;
    }
    let c = find_char(s, ',', b + 1, len);
    if c < len {
        return None;
    }
    let t = [strip(s, 0, a), strip(s, a + 1, b), strip(s, b + 1, len)];
    proof {
        assert(texts_view(t) =~= triple_of(s@).unwrap());
    }
    Some(t)
}

/// The bounds of the text between two brackets, as [`section`] describes it:
/// where the text between them starts and where it ends.
fn read_section(s: &str, open: char, close: char, k: usize, len: usize) -> (r: Option<(usize, usize)>)
    requires
        k <= len,
        len == s@.len(),
    ensures
        match r {
            Some((from, to)) => k < from <= to < len && section(s@, open, close, k as int) == Some(
                (s@.subrange(from as int, to as int), to + 1),
            ),
            None => section(s@, open, close, k as int) is None,
        },
{
    let i = skip(s, k, len);
    if i >= len {
        return None;
    }
    if s.get_char(i) != open {
        return None;
    }
    let j = find_char(s, close, i + 1, len);
    if j >= len {
        return None;
    }
    Some((i + 1, j))
}

/// Whether the word of the characters `w` stands in the text at `i`.
fn word_at(s: &str, i: usize, len: usize, w: &str) -> (r: bool)
    requires
        i <= len,
        len == s@.len(),
    ensures
        r == has_word(s@, i as int, w@),
{
    let n = w.unicode_len();
    if n > len - i {
        return false;
    }
    let mut k: usize = 0;
    while k < n
        invariant
            k <= n,
            n == w@.len(),
            i + n <= len,
            len == s@.len(),
            forall|j: int| 0 <= j < k ==> s@[i + j] == w@[j],
        decreases n - k,
    {
        if s.get_char(i + k) != w.get_char(k) {
            proof {
                assert(s@.subrange(i as int, i + n)[k as int] != w@[k as int]);
            }
            return false;
        }
        k += 1;
    }
    proof {
        assert(s@.subrange(i as int, i + n) =~= w@);
    }
    true
}

/// Reads a text as a task, as [`read_input`] describes it.
pub fn parse_input(text: &str) -> (r: Option<InputFile>)
    ensures
        match r {
            Some(input) => read_input(text@) == Some(input@),
            None => read_input(text@) is None,
        },
{
    let len = text.unicode_len();
    let (from, to) = match read_section(text, '{', '}', 0, len) {
        Some(bounds) => bounds,
        None => {
            return None;
        },
    };
    let operations = match parse_oplist(text.substring_char(from, to)) {
        Some(nodes) => nodes,
        None => {
            return None;
        },
    };
    let after_list = to + 1;
    let mut positions: Vec<[String; 3]> = Vec::new();
    let mut k: usize = after_list;
    proof {
        assert(positions_view(positions@) =~= Seq::empty());
    }
    loop
        invariant
            after_list <= k <= len,
            len == text@.len(),
            section(text@, '{', '}', 0) == Some(
                (text@.subrange(from as int, to as int), after_list as int),
            ),
            scan(text@.subrange(from as int, to as int)) == Some(nodes_view(operations@)),
            positions_text_from(positions_view(positions@), text@, k as int) == positions_text_from(
                Seq::empty(),
                text@,
                after_list as int,
            ),
        ensures
            after_list <= k <= len,
            positions_text_from(Seq::empty(), text@, after_list as int) == Some(
                (positions_view(positions@), k as int),
            ),
        decreases len - k,
    {
        let i = skip(text, k, len);
        if i >= len {
            break;
        }
        if text.get_char(i) != '(' {
            break;
        }
        let (a, b) = match read_section(text, '(', ')', k, len) {
            Some(bounds) => bounds,
            None => {
                return None;
            },
        };
        let t = match triple(text.substring_char(a, b)) {
            Some(t) => t,
            None => {
                return None;
            },
        };
        let ghost before = positions@;
        positions.push(t);
        proof {
            assert(positions_view(positions@) =~= positions_view(before).push(texts_view(t)));
        }
        k = b + 1;
    }
    let (a, b) = match read_section(text, '[', ']', k, len) {
        Some(bounds) => bounds,
        None => {
            return None;
        },
    };
    let bounds = match triple(text.substring_char(a, b)) {
        Some(t) => t,
        None => {
            return None;
        },
    };
    let i = skip(text, b + 1, len);
    proof {
        reveal_strlit("true");
        reveal_strlit("false");
        assert("true"@ =~= seq!['t', 'r', 'u', 'e']);
        assert("false"@ =~= seq!['f', 'a', 'l', 's', 'e']);
    }
    let construct_ab_pairs = if i >= len {
        false
    } else if word_at(text, i, len, "true") && skip(text, i + 4, len) >= len {
        true
    } else if word_at(text, i, len, "false") && skip(text, i + 5, len) >= len {
        false
    } else {
        return None;
    };
    Some(InputFile { operations, positions, bounds, construct_ab_pairs })
}

/// What the task of a text stands for: [`Error::MalformedText`] for a text
/// that holds no task, else what [`describes`] tells of the task.
pub fn from_str(string: &str) -> (r: Result<(IsometryGroup, Vec<Pos3>, Bounds3, bool), Error>)
    ensures
        match read_input(string@) {
            None => r == Err::<(IsometryGroup, Vec<Pos3>, Bounds3, bool), Error>(
                Error::MalformedText,
            ),
            Some(input) => describes(input, r),
        },
{
    match parse_input(string) {
        None => Err(Error::MalformedText),
        Some(input) => tree_to_args(&input),
    }
}

} // verus!

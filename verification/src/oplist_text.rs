//! Lists of symmetry operations as text.
//!
//! An operation is written as three lines with commas between them, such as
//! `-x+1/2, y, -z`; a line is a run of signs, axes and rational numbers. The
//! operations of a list are separated by `;`, which may also follow the last
//! one. Blanks and line breaks may stand anywhere but inside a number.
use vstd::prelude::*;
use crate::closure::lemma_push_contains;
use crate::error::Error;
use crate::oplist::{
    is_group_of_nodes, nodes_view, terms_view, NodeView, OperationNode, Term, TermView,
};
use crate::symmetry::{Isometry, IsometryGroup};
use crate::text::is_digit;

verus! {

/// The character is a blank, a tab or a line break.
pub open spec fn is_space(c: char) -> bool {
    c == ' ' || c == '\t' || c == '\n' || c == '\r'
}

/// The terms of a line after a number that was being read is added to them:
/// nothing changes if no number was being read; a number must end with a
/// digit.
pub open spec fn flushed(cur: Seq<TermView>, num: Seq<char>) -> Option<Seq<TermView>> {
    if num.len() == 0 {
        Some(cur)
    } else if is_digit(num.last()) {
        Some(cur.push(TermView::Number(num)))
    } else {
        None
    }
}

/// What is read when the text ends: nothing more after a finished operation,
/// or the operation whose third line ends with the text.
pub open spec fn finished(ops: Seq<NodeView>, rows: Seq<Seq<TermView>>, cur: Seq<TermView>) -> Option<
    Seq<NodeView>,
> {
    if rows.len() == 0 && cur.len() == 0 {
        Some(ops)
    } else if rows.len() == 2 && cur.len() > 0 {
        Some(ops.push(NodeView::Operation(rows.push(cur))))
    } else {
        None
    }
}

/// The term that a character by itself stands for.
pub open spec fn single_term(c: char) -> Option<TermView> {
    if c == '+' {
        Some(TermView::Sign { minus: false })
    } else if c == '-' {
        Some(TermView::Sign { minus: true })
    } else if c == 'x' {
        Some(TermView::AxisX)
    } else if c == 'y' {
        Some(TermView::AxisY)
    } else if c == 'z' {
        Some(TermView::AxisZ)
    } else {
        None
    }
}

/// The operations that the text `s[k..]` holds, read after a state in which
/// `ops` are the operations read so far, `rows` the finished lines of the
/// operation being read, `cur` the terms of its line being read, and `num` the
/// characters of a number being read. `None` for a text that is no list of
/// operations.
///
/// A digit goes on with the number or starts one; `/` goes on with a number
/// that holds none yet and ends with a digit. Any other character ends the
/// number. A sign or an axis is a term of the line; `,` ends a line that is not
/// empty and not the third; `;` ends an operation after its third line; blanks
/// and line breaks are passed over.
pub open spec fn scan_from(
    ops: Seq<NodeView>,
    rows: Seq<Seq<TermView>>,
    cur: Seq<TermView>,
    num: Seq<char>,
    s: Seq<char>,
    k: int,
) -> Option<Seq<NodeView>>
    decreases s.len() - k,
{
    if k < 0 || k >= s.len() {
        match flushed(cur, num) {
            Some(line) => finished(ops, rows, line),
            None => None,
        }
    } else if is_digit(s[k]) {
        scan_from(ops, rows, cur, num.push(s[k]), s, k + 1)
    } else if s[k] == '/' {
        if num.len() > 0 && !num.contains('/') && is_digit(num.last()) {
            scan_from(ops, rows, cur, num.push(s[k]), s, k + 1)
        } else {
            None
        }
    } else {
        match flushed(cur, num) {
            None => None,
            Some(line) => if is_space(s[k]) {
                scan_from(ops, rows, line, Seq::empty(), s, k + 1)
            } else if s[k] == ',' {
                if line.len() > 0 && rows.len() < 2 {
                    scan_from(ops, rows.push(line), Seq::empty(), Seq::empty(), s, k + 1)
                } else {
                    None
                }
            } else if s[k] == ';' {
                if line.len() > 0 && rows.len() == 2 {
                    scan_from(
                        ops.push(NodeView::Operation(rows.push(line))),
                        Seq::empty(),
                        Seq::empty(),
                        Seq::empty(),
                        s,
                        k + 1,
                    )
                } else {
                    None
                }
            } else {
                match single_term(s[k]) {
                    Some(t) => scan_from(ops, rows, line.push(t), Seq::empty(), s, k + 1),
                    None => None,
                }
            },
        }
    }
}

/// The operations that a text holds; `None` for a text that is no list of
/// operations.
pub open spec fn scan(s: Seq<char>) -> Option<Seq<NodeView>> {
    scan_from(Seq::empty(), Seq::empty(), Seq::empty(), Seq::empty(), s, 0)
}

/// The finished lines of an operation being read.
pub open spec fn lines_view(done: int, first: Seq<Term>, second: Seq<Term>) -> Seq<Seq<TermView>> {
    if done == 0 {
        Seq::empty()
    } else if done == 1 {
        seq![terms_view(first)]
    } else {
        seq![terms_view(first), terms_view(second)]
    }
}

/// Adds the number in the characters `start..k` of `s`, if one was being read,
/// to the terms of a line; tells whether that was possible.
fn flush(cur: &mut Vec<Term>, s: &str, in_number: bool, start: usize, k: usize) -> (ok: bool)
    requires
        in_number ==> start < k <= s@.len(),
    ensures
        match flushed(terms_view(old(cur)@), if in_number {
            s@.subrange(start as int, k as int)
        } else {
            Seq::empty()
        }) {
            Some(line) => ok && terms_view(final(cur)@) == line,
            None => !ok,
        },
{
    if !in_number {
        return true;
    }
    let last = s.get_char(k - 1);
    proof {
        assert(s@.subrange(start as int, k as int).last() == last);
    }
    if !(last >= '0' && last <= '9') {
        return false;
    }
    let text = String::from_str(s.substring_char(start, k));
    let ghost before = cur@;
    cur.push(Term::Number(text));
    proof {
        assert(terms_view(cur@) =~= terms_view(before).push(
            TermView::Number(s@.subrange(start as int, k as int)),
        ));
    }
    true
}

/// Reads a text as a list of operations, as [`scan`] describes it.
pub fn parse_oplist(text: &str) -> (r: Option<Vec<OperationNode>>)
    ensures
        match r {
            Some(nodes) => scan(text@) == Some(nodes_view(nodes@)),
            None => scan(text@) is None,
        },
{
    let len = text.unicode_len();
    let mut ops: Vec<OperationNode> = Vec::new();
    let mut first: Vec<Term> = Vec::new();
    let mut second: Vec<Term> = Vec::new();
    let mut done: usize = 0;
    let mut cur: Vec<Term> = Vec::new();
    let mut in_number = false;
    let mut has_slash = false;
    let mut start: usize = 0;
    let mut k: usize = 0;
    proof {
        assert(nodes_view(ops@) =~= Seq::empty());
        assert(terms_view(cur@) =~= Seq::empty());
    }
    while k < len
        invariant
            k <= len,
            len == text@.len(),
            done <= 2,
            in_number ==> start < k,
            in_number ==> (has_slash <==> text@.subrange(start as int, k as int).contains('/')),
            scan_from(
                nodes_view(ops@),
                lines_view(done as int, first@, second@),
                terms_view(cur@),
                if in_number {
                    text@.subrange(start as int, k as int)
                } else {
                    Seq::empty()
                },
                text@,
                k as int,
            ) == scan(text@),
        decreases len - k,
    {
        let c = text.get_char(k);
        let ghost num = if in_number {
            text@.subrange(start as int, k as int)
        } else {
            Seq::<char>::empty()
        };
        if c >= '0' && c <= '9' {
            if !in_number {
                in_number = true;
                has_slash = false;
                start = k;
            }
            proof {
                assert(text@.subrange(start as int, k + 1) =~= num.push(c));
                lemma_push_contains(num, c, '/');
                if num.len() == 0 {
                    assert(!num.contains('/'));
                }
            }
            k += 1;
        } else if c == '/' {
            if !in_number || has_slash {
                return None;
            }
            let last = text.get_char(k - 1);
            proof {
                assert(num.last() == last);
            }
            if !(last >= '0' && last <= '9') {
                return None;
            }
            has_slash = true;
            proof {
                assert(text@.subrange(start as int, k + 1) =~= num.push(c));
                lemma_push_contains(num, c, '/');
            }
            k += 1;
        } else {
            if !flush(&mut cur, text, in_number, start, k) {
                return None;
            }
            in_number = false;
            if c == ' ' || c == '\t' || c == '\n' || c == '\r' {
            } else if c == ',' {
                if cur.len() == 0 || done >= 2 {
                    return None;
                }
                if done == 0 {
                    first = cur;
                } else {
                    second = cur;
                }
                cur = Vec::new();
                proof {
                    assert(terms_view(cur@) =~= Seq::empty());
                    if done == 0 {
                        assert(lines_view(1, first@, second@) =~= lines_view(
                            0,
                            first@,
                            second@,
                        ).push(terms_view(first@)));
                    } else {
                        assert(lines_view(2, first@, second@) =~= lines_view(
                            1,
                            first@,
                            second@,
                        ).push(terms_view(second@)));
                    }
                }
                done += 1;
            } else if c == ';' {
                if cur.len() == 0 || done != 2 {
                    return None;
                }
                let ghost before = ops@;
                let ghost rows = lines_view(2, first@, second@).push(terms_view(cur@));
                let node = OperationNode::Operation([first, second, cur]);
                proof {
                    assert(node@ == NodeView::Operation(rows)) by {
                        assert(crate::oplist::rows_view(node->Operation_0) =~= rows);
                    }
                }
                ops.push(node);
                first = Vec::new();
                second = Vec::new();
                cur = Vec::new();
                done = 0;
                proof {
                    assert(nodes_view(ops@) =~= nodes_view(before).push(NodeView::Operation(rows)));
                    assert(terms_view(cur@) =~= Seq::empty());
                }
            } else {
                let term = if c == '+' {
                    Term::Sign { minus: false }
                } else if c == '-' {
                    Term::Sign { minus: true }
                } else if c == 'x' {
                    Term::AxisX
                } else if c == 'y' {
                    Term::AxisY
                } else if c == 'z' {
                    Term::AxisZ
                } else {
                    return None;
                };
                let ghost before = cur@;
                let ghost t = term@;
                cur.push(term);
                proof {
                    assert(terms_view(cur@) =~= terms_view(before).push(t));
                }
            }
            k += 1;
        }
    }
    if !flush(&mut cur, text, in_number, start, k) {
        return None;
    }
    if done == 0 && cur.len() == 0 {
        Some(ops)
    } else if done == 2 && cur.len() > 0 {
        let ghost before = ops@;
        let ghost rows = lines_view(2, first@, second@).push(terms_view(cur@));
        let node = OperationNode::Operation([first, second, cur]);
        proof {
            assert(node@ == NodeView::Operation(rows)) by {
                assert(crate::oplist::rows_view(node->Operation_0) =~= rows);
            }
        }
        ops.push(node);
        proof {
            assert(nodes_view(ops@) =~= nodes_view(before).push(NodeView::Operation(rows)));
        }
        Some(ops)
    } else {
        None
    }
}

impl IsometryGroup {
    /// The group generated by a list of operations given as text.
    ///
    /// The text is read as [`scan`] describes it; a text that is no list of
    /// operations gives [`Error::MalformedText`]. The operations are then
    /// read and closed as [`IsometryGroup::from_operations`] does it.
    pub fn from_oplist(oplist: &str) -> (r: Result<IsometryGroup, Error>)
        ensures
            match scan(oplist@) {
                None => IsometryGroup::outcome(r) == Err::<Seq<Isometry>, Error>(
                    Error::MalformedText,
                ),
                Some(nodes) => is_group_of_nodes(nodes, IsometryGroup::outcome(r)),
            },
            r matches Ok(g) ==> g.wf(),
    {
        match parse_oplist(oplist) {
            None => Err(Error::MalformedText),
            Some(nodes) => IsometryGroup::from_operations(&nodes),
        }
    }
}

} // verus!

//! Symmetry operations as they are written down: the terms of a line such as
//! `-x+1/2, y, -z`, and the affine map that the terms stand for.
//!
//! A text of operations is cut into terms elsewhere. Here the terms of each
//! operation are read: an axis stands for a coefficient `+1`, or `-1` after a
//! minus sign; a number is a rational translation.
use vstd::prelude::*;
use crate::affine_space::{Affine3, Mat3, Vec3};
use crate::error::Error;
use crate::frac::Frac;
use crate::symmetry::{is_group_of, Isometry, IsometryGroup};
use crate::text::parse_frac;

verus! {

/// One term of a line of an operation.
#[derive(Debug, Clone)]
pub enum Term {
    /// A sign: `-` where `minus` holds, else `+`.
    Sign { minus: bool },
    /// The first axis, `x`.
    AxisX,
    /// The second axis, `y`.
    AxisY,
    /// The third axis, `z`.
    AxisZ,
    /// The text of a rational number, `n` or `n/d`.
    Number(String),
}

/// An operation as it is written down: three lines of terms.
#[derive(Debug, Clone)]
pub enum OperationNode {
    /// A general operation: each line holds axes, each optionally after a
    /// sign, and optionally a rational translation.
    Operation([Vec<Term>; 3]),
    /// A translation: each line holds a rational number, optionally after a
    /// sign.
    Translation([Vec<Term>; 3]),
}

/// What a [`Term`] says.
pub enum TermView {
    /// A sign: `-` where `minus` holds, else `+`.
    Sign { minus: bool },
    /// The first axis, `x`.
    AxisX,
    /// The second axis, `y`.
    AxisY,
    /// The third axis, `z`.
    AxisZ,
    /// The text of a rational number.
    Number(Seq<char>),
}

/// What an [`OperationNode`] says: its kind and the terms of its three lines.
pub enum NodeView {
    /// A general operation.
    Operation(Seq<Seq<TermView>>),
    /// A translation.
    Translation(Seq<Seq<TermView>>),
}

impl View for Term {
    type V = TermView;

    open spec fn view(&self) -> TermView {
        match *self {
            Term::Sign { minus } => TermView::Sign { minus },
            Term::AxisX => TermView::AxisX,
            Term::AxisY => TermView::AxisY,
            Term::AxisZ => TermView::AxisZ,
            Term::Number(text) => TermView::Number(text@),
        }
    }
}

/// What a line of terms says.
pub open spec fn terms_view(terms: Seq<Term>) -> Seq<TermView> {
    Seq::new(terms.len(), |i: int| terms[i]@)
}

/// What three lines of terms say.
pub open spec fn rows_view(rows: [Vec<Term>; 3]) -> Seq<Seq<TermView>> {
    seq![terms_view(rows@[0]@), terms_view(rows@[1]@), terms_view(rows@[2]@)]
}

impl View for OperationNode {
    type V = NodeView;

    open spec fn view(&self) -> NodeView {
        match *self {
            OperationNode::Operation(rows) => NodeView::Operation(rows_view(rows)),
            OperationNode::Translation(rows) => NodeView::Translation(rows_view(rows)),
        }
    }
}

/// What a list of operations says.
pub open spec fn nodes_view(nodes: Seq<OperationNode>) -> Seq<NodeView> {
    Seq::new(nodes.len(), |i: int| nodes[i]@)
}

/// What one line of an operation stands for: the coefficients of the three
/// axes and the translation.
pub struct Row {
    pub x: Frac,
    pub y: Frac,
    pub z: Frac,
    pub translation: Frac,
}

/// The coefficient that an axis stands for: `-1` after a minus sign, else
/// `+1`.
pub open spec fn unit_coefficient(minus: bool) -> Frac {
    if minus {
        Frac::from_int(-1i32)
    } else {
        Frac::from_int(1i32)
    }
}

/// The line that the terms `terms[k..]` stand for, read after a state in which
/// `minus` tells whether a minus sign is pending and `row` holds what was read
/// so far.
///
/// A minus sign becomes pending until the next axis or number; a plus sign
/// changes nothing. An axis sets its coefficient to `-1` if a minus sign is
/// pending and to `+1` otherwise. A number sets the translation, multiplied by
/// `-1` if a minus sign is pending. A number that is no rational number gives
/// [`Error::MalformedNumber`], one whose negation cannot be stored
/// [`Error::Overflow`].
pub open spec fn operation_row_from(minus: bool, row: Row, terms: Seq<TermView>, k: int) -> Result<
    Row,
    Error,
>
    decreases terms.len() - k,
{
    if k < 0 || k >= terms.len() {
        Ok(row)
    } else {
        match terms[k] {
            TermView::Sign { minus: m } => operation_row_from(minus || m, row, terms, k + 1),
            TermView::AxisX => operation_row_from(
                false,
                Row { x: unit_coefficient(minus), ..row },
                terms,
                k + 1,
            ),
            TermView::AxisY => operation_row_from(
                false,
                Row { y: unit_coefficient(minus), ..row },
                terms,
                k + 1,
            ),
            TermView::AxisZ => operation_row_from(
                false,
                Row { z: unit_coefficient(minus), ..row },
                terms,
                k + 1,
            ),
            TermView::Number(text) => match parse_frac(text) {
                None => Err(Error::MalformedNumber),
                Some(num) => if minus {
                    match num.checked_mul(Frac::from_int(-1i32)) {
                        Some(n) => operation_row_from(
                            false,
                            Row { translation: n, ..row },
                            terms,
                            k + 1,
                        ),
                        None => Err(Error::Overflow),
                    }
                } else {
                    operation_row_from(false, Row { translation: num, ..row }, terms, k + 1)
                },
            },
        }
    }
}

/// The line of zeros, before anything is read.
pub open spec fn empty_row() -> Row {
    Row {
        x: Frac::from_int(0),
        y: Frac::from_int(0),
        z: Frac::from_int(0),
        translation: Frac::from_int(0),
    }
}

/// The line that `terms` stand for in a general operation.
pub open spec fn operation_row(terms: Seq<TermView>) -> Result<Row, Error> {
    operation_row_from(false, empty_row(), terms, 0)
}

/// Reads one line of a general operation, as [`operation_row`] describes it.
pub fn read_operation_row(terms: &Vec<Term>) -> (r: Result<Row, Error>)
    ensures
        r == operation_row(terms_view(terms@)),
{
    let mut minus = false;
    let mut row = Row {
        x: Frac::from_int(0),
        y: Frac::from_int(0),
        z: Frac::from_int(0),
        translation: Frac::from_int(0),
    };
    let mut k: usize = 0;
    while k < terms.len()
        invariant
            k <= terms.len(),
            operation_row_from(minus, row, terms_view(terms@), k as int) == operation_row(
                terms_view(terms@),
            ),
        decreases terms.len() - k,
    {
        proof {
            assert(terms_view(terms@)[k as int] == terms@[k as int]@);
        }
        match &terms[k] {
            Term::Sign { minus: m } => {
                if *m {
                    minus = true;
                }
            },
            Term::AxisX => {
                row.x = if minus {
                    Frac::from_int(-1)
                } else {
                    Frac::from_int(1)
                };
                minus = false;
            },
            Term::AxisY => {
                row.y = if minus {
                    Frac::from_int(-1)
                } else {
                    Frac::from_int(1)
                };
                minus = false;
            },
            Term::AxisZ => {
                row.z = if minus {
                    Frac::from_int(-1)
                } else {
                    Frac::from_int(1)
                };
                minus = false;
            },
            Term::Number(text) => {
                let mut num = match Frac::from_str(text.as_str()) {
                    Ok(num) => num,
                    Err(e) => {
                        return Err(e);
                    },
                };
                if minus {
                    num = match num.checked_mul(Frac::from_int(-1)) {
                        Some(n) => n,
                        None => {
                            return Err(Error::Overflow);
                        },
                    };
                }
                minus = false;
                row.translation = num;
            },
        }
        k += 1;
    }
    Ok(row)
}

/// The number that the terms `terms[k..]` of a line of a translation stand
/// for, read after a state in which `minus` tells whether a minus sign was
/// read and `value` holds the number read so far.
///
/// A minus sign holds for every number that follows it in the line; a number
/// replaces the value, negated if a minus sign was read. Axes are passed over.
pub open spec fn translation_row_from(minus: bool, value: Frac, terms: Seq<TermView>, k: int) -> Result<
    Frac,
    Error,
>
    decreases terms.len() - k,
{
    if k < 0 || k >= terms.len() {
        Ok(value)
    } else {
        match terms[k] {
            TermView::Sign { minus: m } => translation_row_from(minus || m, value, terms, k + 1),
            TermView::Number(text) => match parse_frac(text) {
                None => Err(Error::MalformedNumber),
                Some(num) => if minus {
                    match num.checked_neg() {
                        Some(n) => translation_row_from(minus, n, terms, k + 1),
                        None => Err(Error::Overflow),
                    }
                } else {
                    translation_row_from(minus, num, terms, k + 1)
                },
            },
            _ => translation_row_from(minus, value, terms, k + 1),
        }
    }
}

/// The number that `terms` stand for in a translation.
pub open spec fn translation_row(terms: Seq<TermView>) -> Result<Frac, Error> {
    translation_row_from(false, Frac::from_int(0), terms, 0)
}

/// Reads one line of a translation, as [`translation_row`] describes it.
pub fn read_translation_row(terms: &Vec<Term>) -> (r: Result<Frac, Error>)
    ensures
        r == translation_row(terms_view(terms@)),
{
    let mut minus = false;
    let mut value = Frac::from_int(0);
    let mut k: usize = 0;
    while k < terms.len()
        invariant
            k <= terms.len(),
            translation_row_from(minus, value, terms_view(terms@), k as int) == translation_row(
                terms_view(terms@),
            ),
        decreases terms.len() - k,
    {
        proof {
            assert(terms_view(terms@)[k as int] == terms@[k as int]@);
        }
        match &terms[k] {
            Term::Sign { minus: m } => {
                if *m {
                    minus = true;
                }
            },
            Term::Number(text) => {
                let mut num = match Frac::from_str(text.as_str()) {
                    Ok(num) => num,
                    Err(e) => {
                        return Err(e);
                    },
                };
                if minus {
                    num = match num.checked_neg() {
                        Some(n) => n,
                        None => {
                            return Err(Error::Overflow);
                        },
                    };
                }
                value = num;
            },
            _ => {},
        }
        k += 1;
    }
    Ok(value)
}

/// The affine map that three lines of a general operation stand for: line
/// `i` gives row `i` of the matrix and coordinate `i` of the translation. The
/// first line that cannot be read gives its error.
pub open spec fn operation_map(rows: Seq<Seq<TermView>>) -> Result<Affine3, Error> {
    match operation_row(rows[0]) {
        Err(e) => Err(e),
        Ok(r0) => match operation_row(rows[1]) {
            Err(e) => Err(e),
            Ok(r1) => match operation_row(rows[2]) {
                Err(e) => Err(e),
                Ok(r2) => Ok(
                    Affine3 {
                        mat: Mat3 {
                            m00: r0.x,
                            m01: r0.y,
                            m02: r0.z,
                            m10: r1.x,
                            m11: r1.y,
                            m12: r1.z,
                            m20: r2.x,
                            m21: r2.y,
                            m22: r2.z,
                        },
                        translation: Vec3 {
                            x: r0.translation,
                            y: r1.translation,
                            z: r2.translation,
                        },
                    },
                ),
            },
        },
    }
}

/// The translation that three lines of numbers stand for. The first line that
/// cannot be read gives its error.
pub open spec fn translation_map(rows: Seq<Seq<TermView>>) -> Result<Affine3, Error> {
    match translation_row(rows[0]) {
        Err(e) => Err(e),
        Ok(x) => match translation_row(rows[1]) {
            Err(e) => Err(e),
            Ok(y) => match translation_row(rows[2]) {
                Err(e) => Err(e),
                Ok(z) => Ok(
                    Affine3 {
                        mat: Mat3 {
                            m00: Frac::from_int(1),
                            m01: Frac::from_int(0),
                            m02: Frac::from_int(0),
                            m10: Frac::from_int(0),
                            m11: Frac::from_int(1),
                            m12: Frac::from_int(0),
                            m20: Frac::from_int(0),
                            m21: Frac::from_int(0),
                            m22: Frac::from_int(1),
                        },
                        translation: Vec3 { x, y, z },
                    },
                ),
            },
        },
    }
}

/// The affine map that an operation stands for.
pub open spec fn node_map(node: NodeView) -> Result<Affine3, Error> {
    match node {
        NodeView::Operation(rows) => operation_map(rows),
        NodeView::Translation(rows) => translation_map(rows),
    }
}

impl Affine3 {
    /// The affine map that three lines of a general operation stand for, as
    /// [`operation_map`] describes it.
    pub fn from_parser_operation(rows: &[Vec<Term>; 3]) -> (r: Result<Affine3, Error>)
        ensures
            r == operation_map(rows_view(*rows)),
    {
        let r0 = match read_operation_row(&rows[0]) {
            Ok(r) => r,
            Err(e) => {
                return Err(e);
            },
        };
        let r1 = match read_operation_row(&rows[1]) {
            Ok(r) => r,
            Err(e) => {
                return Err(e);
            },
        };
        let r2 = match read_operation_row(&rows[2]) {
            Ok(r) => r,
            Err(e) => {
                return Err(e);
            },
        };
        Ok(
            Affine3 {
                mat: Mat3 {
                    m00: r0.x,
                    m01: r0.y,
                    m02: r0.z,
                    m10: r1.x,
                    m11: r1.y,
                    m12: r1.z,
                    m20: r2.x,
                    m21: r2.y,
                    m22: r2.z,
                },
                translation: Vec3 { x: r0.translation, y: r1.translation, z: r2.translation },
            },
        )
    }

    /// The translation that three lines of numbers stand for, as
    /// [`translation_map`] describes it.
    pub fn from_parser_trans_op(rows: &[Vec<Term>; 3]) -> (r: Result<Affine3, Error>)
        ensures
            r == translation_map(rows_view(*rows)),
    {
        let x = match read_translation_row(&rows[0]) {
            Ok(r) => r,
            Err(e) => {
                return Err(e);
            },
        };
        let y = match read_translation_row(&rows[1]) {
            Ok(r) => r,
            Err(e) => {
                return Err(e);
            },
        };
        let z = match read_translation_row(&rows[2]) {
            Ok(r) => r,
            Err(e) => {
                return Err(e);
            },
        };
        let i = Frac::from_int(1);
        let o = Frac::from_int(0);
        Ok(
            Affine3 {
                mat: Mat3 { m00: i, m01: o, m02: o, m10: o, m11: i, m12: o, m20: o, m21: o, m22: i },
                translation: Vec3 { x, y, z },
            },
        )
    }

    /// The affine map that an operation stands for, as [`node_map`] describes
    /// it.
    pub fn from_parser(node: &OperationNode) -> (r: Result<Affine3, Error>)
        ensures
            r == node_map(node@),
    {
        match node {
            OperationNode::Operation(rows) => Affine3::from_parser_operation(rows),
            OperationNode::Translation(rows) => Affine3::from_parser_trans_op(rows),
        }
    }
}

/// The symmetry operation that an operation as written stands for: its affine
/// map, if that is a symmetry operation.
pub open spec fn node_isometry(node: NodeView) -> Result<Isometry, Error> {
    match node_map(node) {
        Err(e) => Err(e),
        Ok(map) => Isometry::new(map),
    }
}

impl Isometry {
    /// The symmetry operation that an operation as written stands for, as
    /// [`node_isometry`] describes it.
    pub fn from_parser(node: &OperationNode) -> (r: Result<Isometry, Error>)
        ensures
            r == node_isometry(node@),
    {
        match Affine3::from_parser(node) {
            Err(e) => Err(e),
            Ok(map) => Isometry::new(map),
        }
    }
}

/// The symmetry operations that the operations `nodes[k..]` stand for, after
/// `acc`. The first one that is refused gives its error.
pub open spec fn isometries_from(acc: Seq<Isometry>, nodes: Seq<NodeView>, k: int) -> Result<
    Seq<Isometry>,
    Error,
>
    decreases nodes.len() - k,
{
    if k < 0 || k >= nodes.len() {
        Ok(acc)
    } else {
        match node_isometry(nodes[k]) {
            Err(e) => Err(e),
            Ok(op) => isometries_from(acc.push(op), nodes, k + 1),
        }
    }
}

/// `out` is the group generated by a list of operations as they are written
/// down: every operation is read first, and the first one that is refused
/// gives its error; the operations then generate the group as [`is_group_of`]
/// describes it.
pub open spec fn is_group_of_nodes(nodes: Seq<NodeView>, out: Result<Seq<Isometry>, Error>) -> bool {
    match isometries_from(Seq::empty(), nodes, 0) {
        Err(e) => out == Err::<Seq<Isometry>, Error>(e),
        Ok(generators) => is_group_of(generators, out),
    }
}

impl IsometryGroup {
    /// The group generated by a list of operations as they are written down,
    /// as [`is_group_of_nodes`] describes it.
    pub fn from_operations(nodes: &Vec<OperationNode>) -> (r: Result<IsometryGroup, Error>)
        ensures
            is_group_of_nodes(nodes_view(nodes@), IsometryGroup::outcome(r)),
            r matches Ok(g) ==> g.wf(),
    {
        let mut generators: Vec<Isometry> = Vec::new();
        let mut k: usize = 0;
        while k < nodes.len()
            invariant
                k <= nodes.len(),
                isometries_from(generators@, nodes_view(nodes@), k as int) == isometries_from(
                    Seq::empty(),
                    nodes_view(nodes@),
                    0,
                ),
            decreases nodes.len() - k,
        {
            proof {
                assert(nodes_view(nodes@)[k as int] == nodes@[k as int]@);
            }
            match Isometry::from_parser(&nodes[k]) {
                Ok(op) => {
                    generators.push(op);
                },
                Err(e) => {
                    return Err(e);
                },
            }
            k += 1;
        }
        IsometryGroup::from_generators(generators)
    }
}

} // verus!

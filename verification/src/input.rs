//! The task of a run as it is written down: the operations of a group, the
//! positions, the supercell and the choice of the pairs, and what they stand
//! for.
use vstd::prelude::*;
use crate::affine_space::{Bounds3, Pos3};
use crate::error::Error;
use crate::frac::Frac;
use crate::oplist::{is_group_of_nodes, nodes_view, NodeView, OperationNode};
use crate::symmetry::{Isometry, IsometryGroup};
use crate::text::{parse_frac, parse_int, parse_int_in};

verus! {

/// A task as it is written down.
#[derive(Debug, Clone)]
pub struct InputFile {
    /// The operations that generate the group.
    pub operations: Vec<OperationNode>,
    /// The positions: for each the texts of its three rational coordinates.
    pub positions: Vec<[String; 3]>,
    /// The texts of the three bounds of the supercell.
    pub bounds: [String; 3],
    /// Whether the pairs between different sites are asked for.
    pub construct_ab_pairs: bool,
}

/// What an [`InputFile`] says.
pub struct InputView {
    /// The operations that generate the group.
    pub operations: Seq<NodeView>,
    /// The positions: for each the texts of its three rational coordinates.
    pub positions: Seq<Seq<Seq<char>>>,
    /// The texts of the three bounds of the supercell.
    pub bounds: Seq<Seq<char>>,
    /// Whether the pairs between different sites are asked for.
    pub construct_ab_pairs: bool,
}

/// What three texts say.
pub open spec fn texts_view(v: [String; 3]) -> Seq<Seq<char>> {
    seq![v@[0]@, v@[1]@, v@[2]@]
}

/// What a list of triples of texts says.
pub open spec fn positions_view(v: Seq<[String; 3]>) -> Seq<Seq<Seq<char>>> {
    Seq::new(v.len(), |i: int| texts_view(v[i]))
}

impl View for InputFile {
    type V = InputView;

    open spec fn view(&self) -> InputView {
        InputView {
            operations: nodes_view(self.operations@),
            positions: positions_view(self.positions@),
            bounds: texts_view(self.bounds),
            construct_ab_pairs: self.construct_ab_pairs,
        }
    }
}

/// The position that three texts stand for; [`Error::MalformedNumber`] when
/// one of them is no rational number.
pub open spec fn position_of(v: Seq<Seq<char>>) -> Result<Pos3, Error> {
    match (parse_frac(v[0]), parse_frac(v[1]), parse_frac(v[2])) {
        (Some(x), Some(y), Some(z)) => Ok(Pos3 { x, y, z }),
        _ => Err(Error::MalformedNumber),
    }
}

/// The bounds that three texts stand for; [`Error::MalformedNumber`] when one
/// of them is no integer, [`Error::InvalidBounds`] when one of them is not
/// positive.
pub open spec fn bounds_of(v: Seq<Seq<char>>) -> Result<Bounds3, Error> {
    match (parse_int(v[0]), parse_int(v[1]), parse_int(v[2])) {
        (Some(x), Some(y), Some(z)) => if x > 0 && y > 0 && z > 0 {
            Ok(Bounds3::new(x as i32, y as i32, z as i32))
        } else {
            Err(Error::InvalidBounds)
        },
        _ => Err(Error::MalformedNumber),
    }
}

/// The positions that the texts `texts[k..]` stand for, after `acc`. The first
/// one that cannot be read gives its error.
pub open spec fn positions_from(acc: Seq<Pos3>, texts: Seq<Seq<Seq<char>>>, k: int) -> Result<
    Seq<Pos3>,
    Error,
>
    decreases texts.len() - k,
{
    if k < 0 || k >= texts.len() {
        Ok(acc)
    } else {
        match position_of(texts[k]) {
            Ok(p) => positions_from(acc.push(p), texts, k + 1),
            Err(e) => Err(e),
        }
    }
}

/// Reads a whole text as an integer.
fn read_int(text: &str) -> (r: Option<i32>)
    ensures
        match r {
            Some(v) => parse_int(text@) == Some(v as int),
            None => parse_int(text@) is None,
        },
{
    let len = text.unicode_len();
    proof {
        assert(text@.subrange(0, len as int) == text@);
    }
    parse_int_in(text, 0, len)
}

impl Pos3 {
    /// The position that three texts stand for, as [`position_of`] describes
    /// it.
    pub fn from_parser_vector(v: &[String; 3]) -> (r: Result<Pos3, Error>)
        ensures
            r == position_of(texts_view(*v)),
    {
        let x = Frac::from_str(v[0].as_str());
        let y = Frac::from_str(v[1].as_str());
        let z = Frac::from_str(v[2].as_str());
        match (x, y, z) {
            (Ok(x), Ok(y), Ok(z)) => Ok(Pos3 { x, y, z }),
            _ => Err(Error::MalformedNumber),
        }
    }
}

impl Bounds3 {
    /// The bounds that three texts stand for, as [`bounds_of`] describes them.
    pub fn from_parser_int_vector(v: &[String; 3]) -> (r: Result<Bounds3, Error>)
        ensures
            r == bounds_of(texts_view(*v)),
    {
        let x = read_int(v[0].as_str());
        let y = read_int(v[1].as_str());
        let z = read_int(v[2].as_str());
        match (x, y, z) {
            (Some(x), Some(y), Some(z)) => if x > 0 && y > 0 && z > 0 {
                Ok(Bounds3::new(x, y, z))
            } else {
                Err(Error::InvalidBounds)
            },
            _ => Err(Error::MalformedNumber),
        }
    }
}

/// The operations of the group of a result.
pub open spec fn group_outcome(r: Result<(IsometryGroup, Vec<Pos3>, Bounds3, bool), Error>) -> Result<
    Seq<Isometry>,
    Error,
> {
    match r {
        Ok((g, _, _, _)) => Ok(g@),
        Err(e) => Err(e),
    }
}

/// Whether `r` is what a task stands for: the group that its operations
/// generate, its positions, its supercell and its choice of the pairs.
///
/// The positions are read first, then the bounds, and the first text that
/// cannot be read gives its error. The operations then generate the group as
/// [`is_group_of_nodes`] describes it.
pub open spec fn describes(
    input: InputView,
    r: Result<(IsometryGroup, Vec<Pos3>, Bounds3, bool), Error>,
) -> bool {
    match positions_from(Seq::empty(), input.positions, 0) {
        Err(e) => r == Err::<(IsometryGroup, Vec<Pos3>, Bounds3, bool), Error>(e),
        Ok(positions) => match bounds_of(input.bounds) {
            Err(e) => r == Err::<(IsometryGroup, Vec<Pos3>, Bounds3, bool), Error>(e),
            Ok(bounds) => {
                &&& is_group_of_nodes(input.operations, group_outcome(r))
                &&& r matches Ok((g, p, b, ab)) ==> {
                    &&& g.wf()
                    &&& p@ == positions
                    &&& b == bounds
                    &&& ab == input.construct_ab_pairs
                }
            },
        },
    }
}

/// What a task stands for, as [`describes`] tells it.
pub fn tree_to_args(input: &InputFile) -> (r: Result<(IsometryGroup, Vec<Pos3>, Bounds3, bool), Error>)
    ensures
        describes(input@, r),
{
    let mut positions: Vec<Pos3> = Vec::new();
    let mut k: usize = 0;
    while k < input.positions.len()
        invariant
            k <= input.positions.len(),
            positions_from(positions@, positions_view(input.positions@), k as int)
                == positions_from(Seq::empty(), positions_view(input.positions@), 0),
        decreases input.positions.len() - k,
    {
        proof {
            assert(positions_view(input.positions@)[k as int] == texts_view(
                input.positions@[k as int],
            ));
        }
        match Pos3::from_parser_vector(&input.positions[k]) {
            Ok(p) => {
                positions.push(p);
            },
            Err(e) => {
                return Err(e);
            },
        }
        k += 1;
    }
    let bounds = match Bounds3::from_parser_int_vector(&input.bounds) {
        Ok(b) => b,
        Err(e) => {
            return Err(e);
        },
    };
    match IsometryGroup::from_operations(&input.operations) {
        Ok(group) => Ok((group, positions, bounds, input.construct_ab_pairs)),
        Err(e) => Err(e),
    }
}

} // verus!

use crystallography::input::{tree_to_args, InputFile};
use crystallography::oplist::{OperationNode, Term};
use crystallography::{Bounds3, Error, Frac, Pos3};

fn texts(a: &str, b: &str, c: &str) -> [String; 3] {
    [a.to_string(), b.to_string(), c.to_string()]
}

fn inversion() -> OperationNode {
    let minus = |axis: Term| vec![Term::Sign { minus: true }, axis];
    OperationNode::Operation([minus(Term::AxisX), minus(Term::AxisY), minus(Term::AxisZ)])
}

fn task() -> InputFile {
    InputFile {
        operations: vec![inversion()],
        positions: vec![texts("1/4", "0", "-1/3"), texts("1/2", "+1/2", "3")],
        bounds: texts("2", "1", "3"),
        construct_ab_pairs: true,
    }
}

#[test]
fn reads_a_task() {
    let (group, positions, bounds, ab) = tree_to_args(&task()).unwrap();
    assert_eq!(group.to_string(), "-x,-y,-z;\nx,y,z;\n");
    assert_eq!(
        positions,
        [
            Pos3::new(Frac::new(1, 4), Frac::zero(), Frac::new(-1, 3)),
            Pos3::new(Frac::new(1, 2), Frac::new(1, 2), Frac::from_int(3))
        ]
    );
    assert_eq!((bounds.x(), bounds.y(), bounds.z()), (2, 1, 3));
    assert!(ab);
}

#[test]
fn reads_positions_and_bounds() {
    assert_eq!(
        Pos3::from_parser_vector(&texts("1/2", "-2/4", "7")),
        Ok(Pos3::new(Frac::new(1, 2), Frac::new(-1, 2), Frac::from_int(7)))
    );
    assert_eq!(Pos3::from_parser_vector(&texts("1/2", "", "7")), Err(Error::MalformedNumber));
    let b = Bounds3::from_parser_int_vector(&texts("3", "+2", "1")).unwrap();
    assert_eq!((b.x(), b.y(), b.z()), (3, 2, 1));
    assert!(matches!(
        Bounds3::from_parser_int_vector(&texts("3", "0", "1")),
        Err(Error::InvalidBounds)
    ));
    assert!(matches!(
        Bounds3::from_parser_int_vector(&texts("3", "-2", "1")),
        Err(Error::InvalidBounds)
    ));
    assert!(matches!(
        Bounds3::from_parser_int_vector(&texts("3", "1/2", "1")),
        Err(Error::MalformedNumber)
    ));
    assert!(matches!(
        Bounds3::from_parser_int_vector(&texts("0", "x", "1")),
        Err(Error::MalformedNumber)
    ));
}

#[test]
fn the_first_text_that_cannot_be_read_is_reported() {
    let mut bad = task();
    bad.bounds = texts("2", "0", "3");
    assert!(matches!(tree_to_args(&bad), Err(Error::InvalidBounds)));
    bad.positions.push(texts("a", "0", "0"));
    assert!(matches!(tree_to_args(&bad), Err(Error::MalformedNumber)));
    let mut bad = task();
    bad.operations.push(OperationNode::Operation([vec![], vec![], vec![]]));
    assert!(matches!(tree_to_args(&bad), Err(Error::InvalidIsometry(_))));
    bad.bounds = texts("2", "0", "3");
    assert!(matches!(tree_to_args(&bad), Err(Error::InvalidBounds)));
}

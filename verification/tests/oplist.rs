use crystallography::oplist::{
    read_operation_row, read_translation_row, OperationNode, Term,
};
use crystallography::symmetry::{Isometry, IsometryGroup};
use crystallography::{Affine3, Error, Frac, Mat3, Vec3};

fn number(text: &str) -> Term {
    Term::Number(text.to_string())
}

fn minus() -> Term {
    Term::Sign { minus: true }
}

fn plus() -> Term {
    Term::Sign { minus: false }
}

#[test]
fn reads_a_general_operation() {
    // -x+1/2, y, -z
    let rows = [
        vec![minus(), Term::AxisX, plus(), number("1/2")],
        vec![Term::AxisY],
        vec![minus(), Term::AxisZ],
    ];
    let map = Affine3::from_parser_operation(&rows).unwrap();
    assert_eq!(map.mat(), Mat3::from_ints([-1, 0, 0, 0, 1, 0, 0, 0, -1]));
    assert_eq!(map.translation(), Vec3::new(Frac::new(1, 2), Frac::zero(), Frac::zero()));
    assert_eq!(Affine3::from_parser(&OperationNode::Operation(rows.clone())), Ok(map));
    let op = Isometry::from_parser(&OperationNode::Operation(rows)).unwrap();
    assert_eq!(op.to_string(), "-x+1/2,y,-z");
}

#[test]
fn reads_lines_with_several_axes() {
    // x-y-1/3
    let row = read_operation_row(&vec![
        Term::AxisX,
        minus(),
        Term::AxisY,
        minus(),
        number("1/3"),
    ])
    .unwrap();
    assert_eq!((row.x, row.y, row.z), (Frac::one(), Frac::from_int(-1), Frac::zero()));
    assert_eq!(row.translation, Frac::new(-1, 3));
    // 1/2-z: the number first
    let row = read_operation_row(&vec![number("1/2"), minus(), Term::AxisZ]).unwrap();
    assert_eq!((row.x, row.y, row.z), (Frac::zero(), Frac::zero(), Frac::from_int(-1)));
    assert_eq!(row.translation, Frac::new(1, 2));
    let row = read_operation_row(&vec![]).unwrap();
    assert_eq!((row.x, row.y, row.z, row.translation), (0.into(), 0.into(), 0.into(), 0.into()));
}

#[test]
fn a_minus_sign_waits_for_the_next_axis_or_number() {
    // a plus sign does not cancel a pending minus sign
    let row = read_operation_row(&vec![minus(), plus(), Term::AxisX, Term::AxisY]).unwrap();
    assert_eq!((row.x, row.y), (Frac::from_int(-1), Frac::one()));
    // a later term replaces an earlier one
    let row = read_operation_row(&vec![
        minus(),
        Term::AxisX,
        Term::AxisX,
        number("1/2"),
        minus(),
        number("1/4"),
    ])
    .unwrap();
    assert_eq!(row.x, Frac::one());
    assert_eq!(row.translation, Frac::new(-1, 4));
}

#[test]
fn reads_a_translation() {
    let rows = [vec![number("1/2")], vec![minus(), number("1/2")], vec![plus(), number("0")]];
    let map = Affine3::from_parser_trans_op(&rows).unwrap();
    assert_eq!(map.mat(), Mat3::identity());
    assert_eq!(map.translation(), Vec3::new(Frac::new(1, 2), Frac::new(-1, 2), Frac::zero()));
    assert_eq!(Affine3::from_parser(&OperationNode::Translation(rows.clone())), Ok(map));
    let op = Isometry::from_parser(&OperationNode::Translation(rows)).unwrap();
    assert_eq!(op.to_string(), "x+1/2,y-1/2,z");
}

#[test]
fn in_a_translation_a_minus_sign_holds_for_the_line() {
    assert_eq!(
        read_translation_row(&vec![minus(), number("1/2"), number("1/4")]),
        Ok(Frac::new(-1, 4))
    );
    assert_eq!(read_translation_row(&vec![Term::AxisX, number("3")]), Ok(Frac::from_int(3)));
    assert_eq!(read_translation_row(&vec![]), Ok(Frac::zero()));
}

#[test]
fn malformed_numbers_are_reported() {
    let rows = [vec![Term::AxisX], vec![Term::AxisY, number("1/z")], vec![Term::AxisZ]];
    assert_eq!(Affine3::from_parser_operation(&rows), Err(Error::MalformedNumber));
    assert_eq!(
        Isometry::from_parser(&OperationNode::Operation(rows.clone())),
        Err(Error::MalformedNumber)
    );
    assert_eq!(Affine3::from_parser_trans_op(&rows), Err(Error::MalformedNumber));
    let zero = [vec![number("1/0")], vec![], vec![]];
    assert_eq!(Affine3::from_parser_trans_op(&zero), Err(Error::MalformedNumber));
    let nodes = vec![OperationNode::Operation(rows)];
    assert!(matches!(IsometryGroup::from_operations(&nodes), Err(Error::MalformedNumber)));
}

#[test]
fn numbers_that_cannot_be_negated_are_reported() {
    let rows = [vec![minus(), number("-2147483648")], vec![], vec![]];
    assert_eq!(Affine3::from_parser_operation(&rows), Err(Error::Overflow));
    assert_eq!(Affine3::from_parser_trans_op(&rows), Err(Error::Overflow));
}

#[test]
fn operations_that_are_no_isometries_are_reported() {
    let rows = [vec![Term::AxisX], vec![Term::AxisX], vec![Term::AxisZ]];
    let map = Affine3::from_parser_operation(&rows).unwrap();
    assert_eq!(
        Isometry::from_parser(&OperationNode::Operation(rows.clone())),
        Err(Error::InvalidIsometry(map))
    );
    let nodes = vec![
        OperationNode::Operation([vec![Term::AxisX], vec![Term::AxisY], vec![Term::AxisZ]]),
        OperationNode::Operation(rows),
    ];
    assert!(matches!(
        IsometryGroup::from_operations(&nodes),
        Err(Error::InvalidIsometry(m)) if m == map
    ));
}

#[test]
fn a_group_from_operations() {
    let nodes = vec![
        OperationNode::Operation([
            vec![minus(), Term::AxisX],
            vec![Term::AxisY, plus(), number("1/2")],
            vec![minus(), Term::AxisZ],
        ]),
        OperationNode::Translation([vec![number("1")], vec![number("0")], vec![number("0")]]),
    ];
    let group = IsometryGroup::from_operations(&nodes).unwrap();
    assert_eq!(group.to_string(), "-x,y+1/2,-z;\nx,y,z;\n");
}

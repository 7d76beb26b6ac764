use crystallography::closure::{close, contains, dedup, is_valid, GroupElement, MAX_PASSES};
use crystallography::expansion::{IsometryIter, Periodic};
use crystallography::oplist::{OperationNode, Term};
use crystallography::symmetry::{Isometry, IsometryGroup, PointGroup, PointGroupElement};
use crystallography::{Affine3, Bounds3, Error, Frac, Mat3, Pos3, Vec3};

fn terms(line: &str) -> Vec<Term> {
    let mut out = Vec::new();
    let mut number = String::new();
    for c in line.chars() {
        if c.is_ascii_digit() || c == '/' {
            number.push(c);
            continue;
        }
        if !number.is_empty() {
            out.push(Term::Number(number.clone()));
            number.clear();
        }
        match c {
            '+' => out.push(Term::Sign { minus: false }),
            '-' => out.push(Term::Sign { minus: true }),
            'x' => out.push(Term::AxisX),
            'y' => out.push(Term::AxisY),
            'z' => out.push(Term::AxisZ),
            ' ' => {}
            other => panic!("unexpected character {}", other),
        }
    }
    if !number.is_empty() {
        out.push(Term::Number(number));
    }
    out
}

fn node(text: &str) -> OperationNode {
    let lines: Vec<&str> = text.split(',').collect();
    assert_eq!(lines.len(), 3);
    OperationNode::Operation([terms(lines[0]), terms(lines[1]), terms(lines[2])])
}

fn nodes(text: &str) -> Vec<OperationNode> {
    text.split(';').filter(|op| !op.trim().is_empty()).map(node).collect()
}

fn group(text: &str) -> IsometryGroup {
    let read = IsometryGroup::from_oplist(text).unwrap();
    assert!(read == IsometryGroup::from_operations(&nodes(text)).unwrap());
    read
}

fn op(text: &str) -> Isometry {
    Isometry::from_parser(&node(text)).unwrap()
}

const P_1: &str = "x,y,z; -x,-y,-z";
const P2_1: &str = "x,y,z; -x,y+1/2,-z";
const C2_M: &str = "x,y,z; -x,y,-z; -x,-y,-z; x+1/2,y+1/2,z";
const P2_12_12: &str = "x,y,z; -x,-y,z; -x+1/2,y+1/2,-z";
const P2_12_12_1: &str = "x,y,z; -x+1/2,-y,z+1/2; -x,y+1/2,-z+1/2";
const PMNA: &str = "x,y,z; -x+1/2,-y,z+1/2; -x+1/2,y,-z+1/2; -x,-y,-z";
const CMCM: &str = "x,y,z; -x,-y,z+1/2; -x,y,-z+1/2; -x,-y,-z; x+1/2,y+1/2,z";
const P6_3_MMC: &str = "x,y,z; -y,x-y,z; -x,-y,z+1/2; y,x,-z; -x,-y,-z";
const FM_3M: &str =
    "x,y,z; -x,-y,z; -x,y,-z; z,x,y; y,x,-z; -x,-y,-z; x,y+1/2,z+1/2; x+1/2,y,z+1/2";
const R_3M: &str = "x,y,z; -y,x-y,z; y,x,-z; -x,-y,-z; x+2/3,y+1/3,z+1/3";

#[test]
fn cardinality_test() {
    assert_eq!(2, group(P_1).len());
    assert_eq!(2, group(P2_1).len());
    assert_eq!(8, group(C2_M).len());
    assert_eq!(4, group(P2_12_12).len());
    assert_eq!(4, group(P2_12_12_1).len());
    assert_eq!(8, group(PMNA).len());
    assert_eq!(16, group(CMCM).len());
    assert_eq!(24, group(P6_3_MMC).len());
    assert_eq!(192, group(FM_3M).len());
    assert_eq!(36, group(R_3M).len());
}

#[test]
fn iter_test() {
    let sg = group(P_1);
    let ops: Vec<_> = sg.iter_with_bounds(Bounds3::splat(1)).collect().unwrap();
    assert_eq!(ops.len(), 2);
    let ops: Vec<_> = sg.iter_with_bounds(Bounds3::splat(2)).collect().unwrap();
    assert_eq!(ops.len(), 2 * 2 * 2 * 2);
    let ops: Vec<_> = sg.iter_with_bounds(Bounds3::new(1, 2, 1)).collect().unwrap();
    assert_eq!(ops.len(), 2 * 2);
    let ops: Vec<_> = sg.iter_with_bounds(Bounds3::new(3, 2, 1)).collect().unwrap();
    assert_eq!(ops.len(), 3 * 2 * 2);
}

#[test]
fn expansion_lists_translations_in_order() {
    let sg = group(P_1);
    let bounds = Bounds3::new(2, 1, 3);
    let ops = sg.iter_with_bounds(bounds).collect().unwrap();
    assert_eq!(ops.len(), sg.len() * 6);
    let stored = sg.get_operations();
    let mut k = 0;
    for item in stored {
        for x in 0..2 {
            for y in 0..1 {
                for z in 0..3 {
                    assert_eq!(Some(ops[k]), item.shifted(x, y, z, bounds));
                    let shift = Vec3::from_ints(x, y, z);
                    assert_eq!(
                        ops[k].affine().translation(),
                        (item.affine().translation() + shift) % bounds
                    );
                    assert_eq!(ops[k].affine().mat(), item.affine().mat());
                    k += 1;
                }
            }
        }
    }
    let texts: Vec<String> = ops.iter().map(|op| op.to_string()).collect();
    assert_eq!(
        texts,
        ["x,y,z", "x,y,z+1", "x,y,z-1", "x+1,y,z", "x+1,y,z+1", "x+1,y,z-1", "-x,-y,-z",
            "-x,-y,-z+1", "-x,-y,-z-1", "-x+1,-y,-z", "-x+1,-y,-z+1", "-x+1,-y,-z-1"]
    );
}

#[test]
fn expansion_of_positions() {
    let items = [Pos3::new(Frac::new(1, 2), Frac::zero(), Frac::new(1, 4))];
    let bounds = Bounds3::new(2, 2, 1);
    let all = IsometryIter::new(&items, bounds).collect().unwrap();
    let texts: Vec<String> = all.iter().map(|p| p.to_string()).collect();
    assert_eq!(texts, ["[1/2, 0, 1/4]", "[1/2, 1, 1/4]", "[3/2, 0, 1/4]", "[3/2, 1, 1/4]"]);
    let none: [Pos3; 0] = [];
    assert_eq!(IsometryIter::new(&none, bounds).collect(), Some(vec![]));
    let far = [Pos3::from_ints(i32::MAX, 0, 0)];
    assert_eq!(IsometryIter::new(&far, bounds).collect(), None);
}

#[test]
fn closure_is_closed_holds_inverses_and_is_idempotent() {
    for text in [P_1, P2_1, C2_M, P2_12_12_1, CMCM, P6_3_MMC, R_3M] {
        let sg = group(text);
        let ops = sg.get_operations();
        for a in ops {
            assert!(a.is_canonical());
            assert!(sg.contains(a.invert().unwrap()));
            for b in ops {
                assert!(ops.contains(&a.compose(*b).unwrap()));
                assert!(sg.contains(*a * *b));
            }
        }
        let again = IsometryGroup::from_generators(ops.to_vec()).unwrap();
        assert_eq!(again.get_operations(), ops);
        let checked = IsometryGroup::from_closed_symmetries(ops.to_vec()).unwrap();
        assert_eq!(checked.get_operations(), ops);
    }
}

#[test]
fn closure_keeps_the_generators_first() {
    let sg = group("-x,y+1/2,-z; x,y,z");
    let texts: Vec<String> = sg.get_operations().iter().map(|op| op.to_string()).collect();
    assert_eq!(texts, ["-x,y+1/2,-z", "x,y,z"]);
    assert_eq!(sg.to_string(), "-x,y+1/2,-z;\nx,y,z;\n");
    let sg = group("-x,y+3/2,-z; -x,y+1/2,-z");
    let texts: Vec<String> = sg.get_operations().iter().map(|op| op.to_string()).collect();
    assert_eq!(texts, ["-x,y+1/2,-z", "x,y,z"]);
    let empty = IsometryGroup::from_generators(vec![]).unwrap();
    assert_eq!(empty.len(), 0);
}

#[test]
fn closure_gives_up_on_what_does_not_close() {
    let stretch = Mat3 {
        m00: Frac::new(2, 1),
        m11: Frac::new(1, 2),
        ..Mat3::identity()
    };
    let element = PointGroupElement::new(stretch).unwrap();
    assert!(matches!(PointGroup::from_generators(vec![element]), Err(Error::Overflow)));
    let generator = Isometry::from_mat(stretch).unwrap();
    assert!(matches!(IsometryGroup::from_generators(vec![generator]), Err(Error::Overflow)));
    let far = Isometry::from_translation(Vec3::new(
        Frac::new(i32::MAX, 2),
        Frac::zero(),
        Frac::zero(),
    ));
    assert!(matches!(IsometryGroup::from_generators(vec![far]), Ok(_)));
}

#[derive(Clone, Copy, Debug, PartialEq)]
struct Counter(usize);

impl GroupElement for Counter {
    fn canonical(self) -> bool {
        true
    }

    fn spec_compose(self, rhs: Counter) -> Option<Counter> {
        self.compose(rhs)
    }

    fn spec_inverse(self) -> Option<Counter> {
        None
    }

    fn compose(self, rhs: Counter) -> Option<Counter> {
        if self.0 + rhs.0 + 1 < 20_000 {
            Some(Counter(self.0 + rhs.0 + 1))
        } else {
            Some(Counter(19_999))
        }
    }

    fn inverse(self) -> Option<Counter> {
        None
    }

    fn is_canonical(self) -> bool {
        true
    }

    fn same(self, other: Counter) -> bool {
        self == other
    }
}

#[test]
fn closure_of_other_elements() {
    assert_eq!(MAX_PASSES, 10_000);
    let few = close(&vec![Counter(19_998)]).unwrap();
    assert_eq!(few, [Counter(19_998), Counter(19_999)]);
    let more = close(&vec![Counter(19_990), Counter(19_990)]).unwrap();
    assert_eq!(more, [Counter(19_990), Counter(19_999)]);
}

#[test]
fn lists_of_elements() {
    let v = vec![Counter(1), Counter(2), Counter(1), Counter(3), Counter(2)];
    assert_eq!(dedup(&v), [Counter(1), Counter(2), Counter(3)]);
    assert!(contains(&v, Counter(3)));
    assert!(!contains(&v, Counter(4)));
    assert!(!is_valid(&v));
    let none: Vec<Counter> = vec![];
    assert!(is_valid(&none));
}

#[test]
fn validity_check() {
    let sg = group(P2_12_12);
    let mut ops = sg.get_operations().to_vec();
    ops.extend_from_slice(sg.get_operations());
    let checked = IsometryGroup::from_closed_symmetries(ops).unwrap();
    assert_eq!(checked.get_operations(), sg.get_operations());
    let missing: Vec<Isometry> = sg.get_operations()[..3].to_vec();
    assert!(IsometryGroup::from_closed_symmetries(missing).is_none());
    let shifted = vec![op("x,y,z"), op("-x+1,-y,-z")];
    assert!(IsometryGroup::from_closed_symmetries(shifted).is_none());
    let half = vec![op("x,y,z"), op("x+1/2,y,z")];
    assert!(IsometryGroup::from_closed_symmetries(half).is_some());
    let third = vec![op("x,y,z"), op("x+1/3,y,z")];
    assert!(IsometryGroup::from_closed_symmetries(third).is_none());
    assert_eq!(IsometryGroup::from_closed_symmetries(vec![]).unwrap().len(), 0);
}

#[test]
fn membership_is_modulo_lattice_translations() {
    let sg = group(P2_1);
    assert!(sg.contains(op("-x,y+1/2,-z")));
    assert!(sg.contains(op("-x+3,y-1/2,-z+7")));
    assert!(sg.contains(op("x+1,y,z")));
    assert!(!sg.contains(op("-x,y,-z")));
    assert!(!sg.contains(op("-x,-y,-z")));
}

#[test]
fn point_group_of_a_space_group() {
    let pg = group(C2_M).reduce_to_point_group();
    assert_eq!(pg.len(), 4);
    let pg = group(FM_3M).reduce_to_point_group();
    assert_eq!(pg.len(), 48);
    for e in pg.iter() {
        assert!(pg.iter().contains(&e.invert().unwrap()));
    }
    let pg = group(P2_1).reduce_to_point_group();
    let texts: Vec<String> = pg.iter().iter().map(|e| e.mat().to_string()).collect();
    assert_eq!(texts, ["x,y,z", "-x,y,-z"]);
}

#[test]
fn point_groups() {
    let turn = PointGroupElement::new(Mat3::from_ints([0, -1, 0, 1, 0, 0, 0, 0, 1])).unwrap();
    let pg = PointGroup::from_generators(vec![turn]).unwrap();
    assert_eq!(pg.len(), 4);
    assert_eq!(pg.iter()[0], turn);
    assert_eq!(turn * turn * turn * turn, PointGroupElement::new(Mat3::identity()).unwrap());
    assert_eq!(turn.invert().unwrap(), turn * turn * turn);
    assert_eq!(turn * Vec3::from_ints(1, 0, 0), Vec3::from_ints(0, 1, 0));
    assert_eq!(turn * Pos3::from_ints(1, 0, 0), Pos3::from_ints(0, 1, 0));
    assert!(PointGroup::from_closed_symmetries(vec![turn]).is_none());
    let all = PointGroup::from_closed_symmetries(pg.iter().to_vec()).unwrap();
    assert_eq!(all.iter(), pg.iter());
    assert_eq!(PointGroup::from_closed_symmetries(vec![turn, turn * turn]).map(|g| g.len()), None);
}

#[test]
fn isometries_have_unit_determinant() {
    let twice = Mat3::from_ints([2, 0, 0, 0, 1, 0, 0, 0, 1]);
    assert_eq!(
        Isometry::new(Affine3::from_mat(twice)),
        Err(Error::InvalidIsometry(Affine3::from_mat(twice)))
    );
    assert_eq!(Isometry::from_mat(twice), Err(Error::InvalidIsometry(Affine3::from_mat(twice))));
    assert_eq!(PointGroupElement::new(twice), Err(Error::InvalidPointGroupElement(twice)));
    let flat = Mat3::from_ints([0; 9]);
    assert_eq!(PointGroupElement::new(flat), Err(Error::InvalidPointGroupElement(flat)));
    let big = Mat3::from_ints([i32::MAX, 0, 0, 0, i32::MAX, 0, 0, 0, 1]);
    assert_eq!(Isometry::from_mat(big), Err(Error::Overflow));
    assert_eq!(PointGroupElement::new(big), Err(Error::Overflow));
    let mirror = Mat3::from_ints([1, 0, 0, 0, 1, 0, 0, 0, -1]);
    let m = Isometry::from_mat(mirror).unwrap();
    assert_eq!(m.affine().mat_determinant(), Some((-1).into()));
    assert_eq!(m.reduce_to_point_group_element().mat(), mirror);
    assert_eq!(Isometry::from_translation(Vec3::from_ints(1, 2, 3)).to_string(), "x+1,y+2,z+3");
}

#[test]
fn isometries_compose_invert_and_reduce() {
    let a = op("-y,x-y,z+1/3");
    let b = op("-x,-y,z+1/2");
    assert_eq!((a * b).to_string(), "y,-x+y,z+5/6");
    assert_eq!(a.invert().unwrap().to_string(), "-x+y,-x,z-1/3");
    assert_eq!((a * a.invert().unwrap()).to_string(), "x,y,z");
    assert_eq!(((a * b) % Bounds3::unit()).to_string(), "y,-x+y,z-1/6");
    assert_eq!(a.compose(b).unwrap().to_string(), "y,-x+y,z-1/6");
    assert_eq!(a.inverse().unwrap().to_string(), "-x+y,-x,z-1/3");
    assert_eq!(a * Pos3::from_ints(1, 2, 3), Pos3::new((-2).into(), (-1).into(), Frac::new(10, 3)));
    assert_eq!(a * Vec3::from_ints(1, 2, 3), Vec3::from_ints(-2, -1, 3));
    assert_eq!(
        a.checked_translate(Vec3::from_ints(1, -1, 0)).unwrap().to_string(),
        "-y+1,x-y-1,z+1/3"
    );
    assert!(a.same(a));
    assert!(!a.same(b));
}

#[test]
fn groups_are_equal_when_they_hold_the_same_operations() {
    let a = group("x,y,z; -x,-y,z; -x+1/2,y+1/2,-z");
    let b = group("-x+1/2,y+1/2,-z; x+1/2,-y+1/2,-z");
    assert_eq!(a.len(), 4);
    assert!(a == b);
    assert!(b == a);
    let c = group("x,y,z; -x,-y,z");
    assert!(c != a);
    assert!(a != c);
    let d = group("x,y,z; -x,y,-z; -x,-y,z");
    assert_eq!(d.len(), 4);
    assert!(d != a);
    let p = a.reduce_to_point_group();
    let q = d.reduce_to_point_group();
    assert!(p == q);
    assert!(p != c.reduce_to_point_group());
}

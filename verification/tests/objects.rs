use crystallography::objects::{
    calculate_pairs, construct_site_pairs, contains_pair, contains_position, image_of,
    produce_output_string, PairExpansion, Site,
};
use crystallography::oplist::{OperationNode, Term};
use crystallography::symmetry::{Isometry, IsometryGroup};
use crystallography::{Bounds3, Error, Frac, Mat3, Pos3, Vec3};

fn terms(line: &str) -> Vec<Term> {
    let mut out = Vec::new();
    let mut number = String::new();
    for c in line.chars() {
        if c.is_ascii_digit() || c == '/' {
            number.push(c);
            continue;
        }
        if !number.is_empty() {
            out.push(Term::Number(number.clone()));
            number.clear();
        }
        match c {
            '+' => out.push(Term::Sign { minus: false }),
            '-' => out.push(Term::Sign { minus: true }),
            'x' => out.push(Term::AxisX),
            'y' => out.push(Term::AxisY),
            'z' => out.push(Term::AxisZ),
            ' ' => {}
            other => panic!("unexpected character {}", other),
        }
    }
    if !number.is_empty() {
        out.push(Term::Number(number));
    }
    out
}

fn group(text: &str) -> IsometryGroup {
    let nodes: Vec<OperationNode> = text
        .split(';')
        .filter(|op| !op.trim().is_empty())
        .map(|op| {
            let lines: Vec<&str> = op.split(',').collect();
            OperationNode::Operation([terms(lines[0]), terms(lines[1]), terms(lines[2])])
        })
        .collect();
    IsometryGroup::from_operations(&nodes).unwrap()
}

fn pos(x: (i32, i32), y: (i32, i32), z: (i32, i32)) -> Pos3 {
    Pos3::new(Frac::new(x.0, x.1), Frac::new(y.0, y.1), Frac::new(z.0, z.1))
}

const P_1: &str = "x,y,z; -x,-y,-z";
const P2_12_12_1: &str = "x,y,z; -x+1/2,-y,z+1/2; -x,y+1/2,-z+1/2";
const P_4: &str = "x,y,z; -y,x,z";

#[test]
fn site_of_a_general_position() {
    let sg = group(P2_12_12_1);
    let site = Site::new(&sg, pos((11, 10), (1, 5), (-7, 10))).unwrap();
    assert_eq!(site.position(), pos((1, 10), (1, 5), (3, 10)));
    assert_eq!(site.multiplicity(), 4);
    assert_eq!(site.stabilizer().len(), 1);
    assert_eq!(site.stabilizer().get_operations()[0].to_string(), "x,y,z");
    let orbit = site.orbit_in_bounds(Bounds3::unit()).collect().unwrap();
    let texts: Vec<String> = orbit.iter().map(|p| p.to_string()).collect();
    assert_eq!(
        texts,
        ["[1/10, 1/5, 3/10]", "[2/5, 4/5, 4/5]", "[9/10, 7/10, 1/5]", "[3/5, 3/10, 7/10]"]
    );
    assert!(site.contains_pos(pos((2, 5), (4, 5), (4, 5))));
    assert!(site.contains_pos(pos((7, 5), (-1, 5), (-1, 5))));
    assert!(!site.contains_pos(pos((2, 5), (4, 5), (1, 5))));
    let reduced = site.to_reduced_site();
    assert_eq!(reduced.position(), site.position());
    assert_eq!(reduced.multiplicity(), 4);
}

#[test]
fn site_of_a_special_position() {
    let sg = group(P_4);
    assert_eq!(sg.len(), 4);
    let axis = Site::new(&sg, pos((0, 1), (0, 1), (1, 3))).unwrap();
    assert_eq!(axis.multiplicity(), 1);
    assert_eq!(axis.stabilizer().len(), 4);
    let edge = Site::new(&sg, pos((1, 2), (0, 1), (0, 1))).unwrap();
    assert_eq!(edge.multiplicity(), 2);
    assert_eq!(edge.stabilizer().len(), 2);
    let general = Site::new(&sg, pos((1, 5), (1, 7), (0, 1))).unwrap();
    assert_eq!(general.multiplicity(), 4);
    assert_eq!(general.stabilizer().len(), 1);
    for site in [&axis, &edge, &general] {
        assert_eq!(site.multiplicity() * site.stabilizer().len(), sg.len());
    }
}

#[test]
fn stabilizer_fixes_the_site_and_the_orbit_is_closed() {
    for text in [P_1, P2_12_12_1, P_4] {
        let sg = group(text);
        for p in [pos((0, 1), (0, 1), (0, 1)), pos((1, 2), (1, 2), (0, 1)), pos((1, 3), (2, 7), (1, 2))] {
            let site = Site::new(&sg, p).unwrap();
            let unit = Bounds3::unit();
            for op in site.stabilizer().get_operations() {
                assert!(sg.contains(*op));
                assert_eq!(image_of(*op, site.position(), unit), Some(site.position()));
            }
            let orbit = site.orbit_in_bounds(unit).collect().unwrap();
            assert_eq!(orbit[0], site.position());
            for op in sg.get_operations() {
                for q in &orbit {
                    assert!(orbit.contains(&image_of(*op, *q, unit).unwrap()));
                }
            }
        }
    }
}

#[test]
fn sites_are_compared_by_their_orbits() {
    let sg = group(P2_12_12_1);
    let a = Site::new(&sg, pos((1, 10), (1, 5), (3, 10))).unwrap();
    let b = Site::new(&sg, pos((2, 5), (4, 5), (4, 5))).unwrap();
    let c = Site::new(&sg, pos((1, 10), (1, 5), (1, 10))).unwrap();
    assert!(a.same_site(&b));
    assert!(b.same_site(&a));
    assert!(!a.same_site(&c));
    assert!(a == b);
    assert!(a != c);
    let sites = vec![a, c];
    assert!(contains_position(&sites, pos((2, 5), (4, 5), (4, 5))));
    assert!(contains_position(&sites, pos((1, 10), (1, 5), (11, 10))));
    assert!(!contains_position(&sites, pos((1, 10), (1, 5), (1, 5))));
}

#[test]
fn a_site_that_cannot_be_stored() {
    let sg = group("x,y,z; z,x,y");
    let far = Pos3::new(Frac::new(1, i32::MAX), Frac::new(1, i32::MAX - 1), Frac::zero());
    assert!(Site::new(&sg, far).is_ok());
    let sg = group("x,y,z; -x+1/2,-y,z+1/2");
    assert!(matches!(Site::new(&sg, far), Err(Error::Overflow)));
}

#[test]
fn an_inconsistent_stabilizer_is_reported() {
    // A turn by a quarter that does not take the lattice onto itself.
    let turn = Mat3 {
        m00: Frac::zero(),
        m01: Frac::from_int(-2),
        m10: Frac::new(1, 2),
        m11: Frac::zero(),
        ..Mat3::identity()
    };
    let sg = IsometryGroup::from_generators(vec![Isometry::from_mat(turn).unwrap()]).unwrap();
    assert_eq!(sg.len(), 4);
    assert!(matches!(
        Site::new(&sg, pos((1, 2), (1, 4), (0, 1))),
        Err(Error::InconsistentStabilizer)
    ));
    assert!(Site::new(&sg, pos((1, 2), (0, 1), (0, 1))).is_ok());
    assert!(matches!(
        calculate_pairs(sg, vec![pos((1, 2), (1, 4), (0, 1))], Bounds3::unit(), false),
        Err(Error::InconsistentStabilizer)
    ));
}

#[test]
fn an_orbit_under_maps_that_miss_the_lattice_need_not_be_closed() {
    let turn = Mat3 {
        m00: Frac::zero(),
        m01: Frac::from_int(-2),
        m10: Frac::new(1, 2),
        m11: Frac::zero(),
        ..Mat3::identity()
    };
    let op = Isometry::from_mat(turn).unwrap();
    let sg = IsometryGroup::from_generators(vec![op]).unwrap();
    let site = Site::new(&sg, pos((1, 4), (0, 1), (0, 1))).unwrap();
    let orbit = site.orbit_in_bounds(Bounds3::unit()).collect().unwrap();
    let texts: Vec<String> = orbit.iter().map(|p| p.to_string()).collect();
    assert_eq!(texts, ["[1/4, 0, 0]", "[0, 1/8, 0]", "[3/4, 0, 0]", "[0, 7/8, 0]"]);
    let outside = image_of(op, pos((3, 4), (0, 1), (0, 1)), Bounds3::unit()).unwrap();
    assert_eq!(outside, pos((0, 1), (3, 8), (0, 1)));
    assert!(!orbit.contains(&outside));
}

fn brute_force_multiplicity(
    sg: &IsometryGroup,
    origin: &Site,
    end: Pos3,
    bounds: Bounds3,
) -> usize {
    // The ordered pairs of positions (p, q) with p in the unit cell and q in the supercell
    // that some operation of the supercell maps the pair (origin, end) or (end, origin) onto.
    let ops = sg.iter_with_bounds(bounds).collect().unwrap();
    let unit = Bounds3::unit();
    let mut pairs: Vec<(Pos3, Vec3)> = Vec::new();
    for op in &ops {
        let a = image_of(*op, origin.position(), bounds).unwrap();
        let b = image_of(*op, end, bounds).unwrap();
        for (p, q) in [(a, b), (b, a)] {
            if !unit.contains_pos(p) {
                continue;
            }
            if !origin.contains_pos(p) {
                continue;
            }
            let d = (q - p) % bounds;
            if !pairs.contains(&(p, d)) {
                pairs.push((p, d));
            }
        }
    }
    pairs.len()
}

#[test]
fn pair_multiplicity_matches_a_brute_force_count() {
    let bounds = Bounds3::splat(2);
    for text in [P_1, P2_12_12_1, P_4] {
        let sg = group(text);
        for p in [pos((0, 1), (0, 1), (0, 1)), pos((1, 5), (1, 7), (1, 3))] {
            let site = Site::new(&sg, p).unwrap();
            let targets = site.orbit_in_bounds(bounds).collect().unwrap();
            for end in targets {
                let class = PairExpansion::from_positions(&site, end, &sg, bounds).unwrap();
                let m = class.multiplicity().unwrap();
                assert!(m > 0);
                assert!(!class.is_ab_pair());
                assert_eq!(m, site.multiplicity() * class.expansion().len());
                assert_eq!(m, brute_force_multiplicity(&sg, &site, end, bounds));
            }
        }
    }
}

#[test]
fn pair_class_of_two_positions() {
    let sg = group(P_1);
    let bounds = Bounds3::splat(2);
    let site = Site::new(&sg, pos((1, 4), (0, 1), (0, 1))).unwrap();
    assert_eq!(site.multiplicity(), 2);
    let class = PairExpansion::from_positions(&site, pos((3, 4), (0, 1), (0, 1)), &sg, bounds)
        .unwrap();
    assert_eq!(class.origin_site().position(), site.position());
    assert_eq!(class.origin_site().multiplicity(), 2);
    assert_eq!(class.vector(), Vec3::new(Frac::new(1, 2), Frac::zero(), Frac::zero()));
    assert!(!class.is_ab_pair());
    let texts: Vec<String> = class.expansion().iter().map(|p| p.to_string()).collect();
    assert_eq!(texts, ["[3/4, 0, 0]"]);
    assert_eq!(class.multiplicity(), Some(2));
    assert!(class.contains_pair(site.position(), pos((3, 4), (0, 1), (0, 1))));
    assert!(!class.contains_pair(site.position(), pos((7, 4), (0, 1), (0, 1))));
    assert!(!class.contains_pair(pos((3, 4), (0, 1), (0, 1)), pos((3, 4), (0, 1), (0, 1))));
    let (a, b, c) = class.to_string().unwrap();
    assert_eq!((a.as_str(), b.as_str(), c.as_str()), ("[1/4, 0, 0]", "[1/2, 0, 0]", "2"));
    let classes = vec![class];
    assert!(contains_pair(&classes, site.position(), pos((3, 4), (0, 1), (0, 1))));
    assert!(!contains_pair(&classes, site.position(), pos((1, 4), (0, 1), (0, 1))));
}

#[test]
fn pair_class_between_two_sites() {
    let sg = group(P_1);
    let bounds = Bounds3::unit();
    let site = Site::new(&sg, Pos3::origin()).unwrap();
    assert_eq!(site.multiplicity(), 1);
    let end = pos((1, 2), (1, 2), (1, 2));
    let class = PairExpansion::from_positions(&site, end, &sg, bounds).unwrap();
    assert!(class.is_ab_pair());
    assert_eq!(class.expansion(), [end]);
    assert_eq!(class.multiplicity(), Some(2));
    assert_eq!(class.vector(), Vec3::new(Frac::new(1, 2), Frac::new(1, 2), Frac::new(1, 2)));
}

#[test]
fn pairs_within_one_site() {
    let sg = group(P_1);
    let classes =
        calculate_pairs(sg, vec![pos((1, 4), (0, 1), (0, 1))], Bounds3::new(2, 1, 1), false)
            .unwrap();
    let rows: Vec<(String, String, String)> =
        classes.iter().map(|c| c.to_string().unwrap()).collect();
    let rows: Vec<(&str, &str, &str)> =
        rows.iter().map(|(a, b, c)| (a.as_str(), b.as_str(), c.as_str())).collect();
    assert_eq!(
        rows,
        [
            ("[1/4, 0, 0]", "[0, 0, 0]", "2"),
            ("[1/4, 0, 0]", "[1, 0, 0]", "2"),
            ("[1/4, 0, 0]", "[1/2, 0, 0]", "2"),
            ("[1/4, 0, 0]", "[-1/2, 0, 0]", "2")
        ]
    );
    assert_eq!(
        produce_output_string(&classes).unwrap(),
        "              Origin,               Vector, Multiplicity\n\
         \x20        [1/4, 0, 0],            [0, 0, 0],            2\n\
         \x20        [1/4, 0, 0],            [1, 0, 0],            2\n\
         \x20        [1/4, 0, 0],          [1/2, 0, 0],            2\n\
         \x20        [1/4, 0, 0],         [-1/2, 0, 0],            2"
    );
}

#[test]
fn pairs_between_sites_only_when_asked() {
    let positions = vec![
        Pos3::origin(),
        pos((1, 2), (1, 2), (1, 2)),
        pos((1, 1), (1, 1), (1, 1)),
        pos((-1, 2), (3, 2), (1, 2)),
    ];
    let same = calculate_pairs(group(P_1), positions.clone(), Bounds3::unit(), false).unwrap();
    let rows: Vec<(String, String, String)> = same.iter().map(|c| c.to_string().unwrap()).collect();
    let rows: Vec<(&str, &str, &str)> =
        rows.iter().map(|(a, b, c)| (a.as_str(), b.as_str(), c.as_str())).collect();
    assert_eq!(
        rows,
        [("[0, 0, 0]", "[0, 0, 0]", "1"), ("[1/2, 1/2, 1/2]", "[0, 0, 0]", "1")]
    );
    let all = calculate_pairs(group(P_1), positions, Bounds3::unit(), true).unwrap();
    let rows: Vec<(String, String, String)> = all.iter().map(|c| c.to_string().unwrap()).collect();
    let rows: Vec<(&str, &str, &str)> =
        rows.iter().map(|(a, b, c)| (a.as_str(), b.as_str(), c.as_str())).collect();
    assert_eq!(
        rows,
        [
            ("[0, 0, 0]", "[0, 0, 0]", "1"),
            ("[1/2, 1/2, 1/2]", "[0, 0, 0]", "1"),
            ("[0, 0, 0]", "[1/2, 1/2, 1/2]", "2")
        ]
    );
    assert_eq!(produce_output_string(&vec![]).unwrap().len(), 56);
}

#[test]
fn pairs_of_three_sites_come_in_order() {
    let sg = group(P_1);
    let positions =
        vec![Pos3::origin(), pos((1, 2), (0, 1), (0, 1)), pos((0, 1), (1, 2), (0, 1))];
    let all = calculate_pairs(sg, positions, Bounds3::unit(), true).unwrap();
    let rows: Vec<(String, String)> = all
        .iter()
        .map(|c| (c.origin_site().position().to_string(), c.vector().to_string()))
        .collect();
    let rows: Vec<(&str, &str)> = rows.iter().map(|(a, b)| (a.as_str(), b.as_str())).collect();
    assert_eq!(
        rows,
        [
            ("[0, 0, 0]", "[0, 0, 0]"),
            ("[1/2, 0, 0]", "[0, 0, 0]"),
            ("[0, 1/2, 0]", "[0, 0, 0]"),
            ("[0, 0, 0]", "[1/2, 0, 0]"),
            ("[0, 0, 0]", "[0, 1/2, 0]"),
            ("[1/2, 0, 0]", "[1/2, 1/2, 0]")
        ]
    );
    assert!(all[3..].iter().all(|c| c.is_ab_pair()));
    assert!(all[..3].iter().all(|c| !c.is_ab_pair()));
}

#[test]
fn site_pairs_skip_what_is_covered() {
    let sg = group(P_4);
    let bounds = Bounds3::unit();
    let site = Site::new(&sg, pos((1, 5), (0, 1), (0, 1))).unwrap();
    assert_eq!(site.multiplicity(), 4);
    let classes = construct_site_pairs(&site, &site, bounds, &sg).unwrap();
    let vectors: Vec<String> = classes.iter().map(|c| c.vector().to_string()).collect();
    assert_eq!(vectors, ["[0, 0, 0]", "[-1/5, 1/5, 0]", "[-2/5, 0, 0]"]);
    let sizes: Vec<usize> = classes.iter().map(|c| c.multiplicity().unwrap()).collect();
    assert_eq!(sizes, [4, 8, 4]);
}

#[test]
fn pairs_that_cannot_be_stored_are_reported() {
    let sg = group("x,y,z; -x+1/2,-y,z+1/2");
    let far = Pos3::new(Frac::new(1, i32::MAX), Frac::new(1, i32::MAX - 1), Frac::zero());
    assert!(matches!(
        calculate_pairs(sg, vec![far], Bounds3::unit(), false),
        Err(Error::Overflow)
    ));
    let sg = group(P_1);
    let wide = Pos3::from_ints(i32::MAX, 0, 0);
    assert!(matches!(
        calculate_pairs(sg, vec![Pos3::origin(), wide], Bounds3::unit(), true),
        Ok(_)
    ));
}

use crystallography::input_text::parse_input;
use crystallography::objects::{calculate_pairs, from_str, produce_output_string};
use crystallography::{Error, Frac, Pos3};

const TASK: &str = "\
# The operations that generate the space group, between braces.
{
    x, y, z;
    -x, y+1/2, -z;
}
# The positions, one for each site.
(1/4, 0, 0)
( 0 , 1/2 , -1/3 )   # a second one
[2, 1, 2]
true
";

#[test]
fn reads_a_task_from_a_text() {
    let input = parse_input(TASK).unwrap();
    assert_eq!(input.operations.len(), 2);
    assert_eq!(input.positions, [["1/4", "0", "0"], ["0", "1/2", "-1/3"]]);
    assert_eq!(input.bounds, ["2", "1", "2"]);
    assert!(input.construct_ab_pairs);
    let (group, positions, bounds, ab) = from_str(TASK).unwrap();
    assert_eq!(group.to_string(), "x,y,z;\n-x,y+1/2,-z;\n");
    assert_eq!(
        positions,
        [
            Pos3::new(Frac::new(1, 4), Frac::zero(), Frac::zero()),
            Pos3::new(Frac::zero(), Frac::new(1, 2), Frac::new(-1, 3))
        ]
    );
    assert_eq!((bounds.x(), bounds.y(), bounds.z()), (2, 1, 2));
    assert!(ab);
}

#[test]
fn the_choice_of_the_pairs_may_be_left_out() {
    assert!(!parse_input("{x,y,z}[1,1,1]").unwrap().construct_ab_pairs);
    assert!(!parse_input("{x,y,z}[1,1,1] false\n").unwrap().construct_ab_pairs);
    assert!(parse_input("{x,y,z}[1,1,1]true # wanted").unwrap().construct_ab_pairs);
    assert!(parse_input("{}[1,1,1]").unwrap().operations.is_empty());
    assert!(parse_input("{x,y,z}(1,2,3)[1,1,1]").unwrap().positions.len() == 1);
    assert_eq!(parse_input("{x,y,z}[1 0, 2\n, 3 ]").unwrap().bounds, ["10", "2", "3"]);
}

#[test]
fn refuses_what_is_no_task() {
    for text in [
        "",
        "x,y,z",
        "{x,y,z}",
        "{x,y,z",
        "{x,y}[1,1,1]",
        "{x,y,z}(1,2)[1,1,1]",
        "{x,y,z}(1,2,3,4)[1,1,1]",
        "{x,y,z}(1,2,3[1,1,1]",
        "{x,y,z}[1,1]",
        "{x,y,z}[1,1,1",
        "{x,y,z}[1,1,1]yes",
        "{x,y,z}[1,1,1]true false",
        "{x,y,z}[1,1,1]truely",
        "{x,y,z}[1,1,1](1,2,3)",
        "[1,1,1]{x,y,z}",
        "# {x,y,z}[1,1,1]",
        "{x,y,z # no comments in here\n}[1,1,1]",
    ] {
        assert!(parse_input(text).is_none(), "{}", text);
        assert!(matches!(from_str(text), Err(Error::MalformedText)), "{}", text);
    }
}

#[test]
fn errors_of_a_task_that_can_be_read() {
    assert!(matches!(from_str("{x,y,z}(a,2,3)[1,1,1]"), Err(Error::MalformedNumber)));
    assert!(matches!(from_str("{x,y,z}(1,2,3)[1,1/2,1]"), Err(Error::MalformedNumber)));
    assert!(matches!(from_str("{x,y,z}(1,2,3)[1,0,1]"), Err(Error::InvalidBounds)));
    assert!(matches!(from_str("{x,x,z}(1,2,3)[1,1,1]"), Err(Error::InvalidIsometry(_))));
    assert!(matches!(from_str("{x,x,z}(1,,3)[1,1,1]"), Err(Error::MalformedNumber)));
}

#[test]
fn a_whole_run() {
    let (group, positions, bounds, ab) = from_str("{-x,-y,-z}\n(1/4,0,0)\n[2,1,1]\n").unwrap();
    let classes = calculate_pairs(group, positions, bounds, ab).unwrap();
    assert_eq!(
        produce_output_string(&classes).unwrap(),
        "              Origin,               Vector, Multiplicity\n\
         \x20        [1/4, 0, 0],            [0, 0, 0],            2\n\
         \x20        [1/4, 0, 0],            [1, 0, 0],            2\n\
         \x20        [1/4, 0, 0],          [1/2, 0, 0],            2\n\
         \x20        [1/4, 0, 0],         [-1/2, 0, 0],            2"
    );
}

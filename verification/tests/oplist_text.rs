use crystallography::oplist::{OperationNode, Term};
use crystallography::oplist_text::parse_oplist;
use crystallography::symmetry::IsometryGroup;
use crystallography::Error;

fn number(text: &str) -> Term {
    Term::Number(text.to_string())
}

fn shape(nodes: &[OperationNode]) -> Vec<Vec<String>> {
    nodes
        .iter()
        .map(|node| match node {
            OperationNode::Operation(rows) => {
                rows.iter().map(|row| format!("{:?}", row)).collect()
            }
            OperationNode::Translation(_) => panic!("a text holds no translation node"),
        })
        .collect()
}

fn row(terms: Vec<Term>) -> String {
    format!("{:?}", terms)
}

#[test]
fn reads_a_list_of_operations() {
    let nodes = parse_oplist("x,y,z;\n-x+1/2, y , -z;\n").unwrap();
    assert_eq!(
        shape(&nodes),
        [
            vec![row(vec![Term::AxisX]), row(vec![Term::AxisY]), row(vec![Term::AxisZ])],
            vec![
                row(vec![
                    Term::Sign { minus: true },
                    Term::AxisX,
                    Term::Sign { minus: false },
                    number("1/2")
                ]),
                row(vec![Term::AxisY]),
                row(vec![Term::Sign { minus: true }, Term::AxisZ])
            ]
        ]
    );
}

#[test]
fn the_last_operation_needs_no_semicolon() {
    assert_eq!(parse_oplist("x,y,z").unwrap().len(), 1);
    assert_eq!(parse_oplist("x,y,z;").unwrap().len(), 1);
    assert_eq!(parse_oplist("x,y,z ; y , x , 12").unwrap().len(), 2);
    assert_eq!(parse_oplist("").unwrap().len(), 0);
    assert_eq!(parse_oplist(" \n\t\r").unwrap().len(), 0);
}

#[test]
fn numbers_are_read_whole() {
    let nodes = parse_oplist("12/34x 5 6/7,1,007").unwrap();
    assert_eq!(
        shape(&nodes),
        [vec![
            row(vec![number("12/34"), Term::AxisX, number("5"), number("6/7")]),
            row(vec![number("1")]),
            row(vec![number("007")])
        ]]
    );
}

#[test]
fn refuses_what_is_no_list_of_operations() {
    for text in [
        "x,y", "x,y,z,x", "x,y,;", ",y,z", "x,,z", ";", "x,y,z;;", "x,y,z;y", "a,y,z", "x,y,z.",
        "1/,y,z", "/2,y,z", "1//2,y,z", "1/2/3,y,z", "1/ 2,y,z", "x,y,1/", "X,y,z", "x;y;z",
    ] {
        assert!(parse_oplist(text).is_none(), "{}", text);
        assert!(matches!(IsometryGroup::from_oplist(text), Err(Error::MalformedText)));
    }
}

#[test]
fn a_group_from_a_text() {
    let group = IsometryGroup::from_oplist("-x, y+1/2, -z").unwrap();
    assert_eq!(group.to_string(), "-x,y+1/2,-z;\nx,y,z;\n");
    let again = IsometryGroup::from_oplist(&group.to_string()).unwrap();
    assert!(again == group);
    assert_eq!(again.to_string(), group.to_string());
    assert!(matches!(IsometryGroup::from_oplist("x,x,z"), Err(Error::InvalidIsometry(_))));
    assert!(matches!(
        IsometryGroup::from_oplist("x,y,z+99999999999"),
        Err(Error::MalformedNumber)
    ));
    assert!(matches!(IsometryGroup::from_oplist("x,y,z+1/0"), Err(Error::MalformedNumber)));
    assert_eq!(IsometryGroup::from_oplist("").unwrap().len(), 0);
}

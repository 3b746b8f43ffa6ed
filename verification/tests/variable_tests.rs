use lldbui::state::ValueNode;
use lldbui::variables::rows_to_depth;
use lldbui::widgets::{AnsiString, IconBreakpoint};

fn leaf(name: &str, ty: &str, value: &str) -> ValueNode {
    ValueNode {
        name: String::from(name),
        display_type: String::from(ty),
        value: String::from(value),
        load_address: None,
        children: Vec::new(),
    }
}

fn aggregate(name: &str, ty: &str, children: Vec<ValueNode>) -> ValueNode {
    ValueNode {
        name: String::from(name),
        display_type: String::from(ty),
        value: String::new(),
        load_address: Some(0x1000),
        children,
    }
}

#[test]
fn depth_zero_shows_only_the_top_level() {
    let tree = vec![aggregate(
        "point",
        "Point",
        vec![leaf("x", "int", "1"), leaf("y", "int", "2")],
    )];
    let rows = rows_to_depth(&tree, 0);
    let names: Vec<&str> = rows.iter().map(|r| r.0.as_str()).collect();
    assert_eq!(names, vec!["point"]);
}

#[test]
fn expansion_depth_caps_the_walk() {
    let tree = vec![aggregate(
        "outer",
        "Outer",
        vec![aggregate(
            "inner",
            "Inner",
            vec![leaf("deep", "int", "3")],
        )],
    )];
    let names_at = |depth: u32| -> Vec<String> {
        rows_to_depth(&tree, depth)
            .iter()
            .map(|r| r.0.clone())
            .collect()
    };
    assert_eq!(names_at(0), vec!["outer"]);
    assert_eq!(names_at(1), vec!["outer", "inner"]);
    assert_eq!(names_at(2), vec!["outer", "inner", "deep"]);
    // Deeper caps change nothing once the tree is exhausted.
    assert_eq!(names_at(5), vec!["outer", "inner", "deep"]);
}

#[test]
fn rows_carry_name_type_and_value() {
    let tree = vec![leaf("argc", "int", "1")];
    let rows = rows_to_depth(&tree, 3);
    assert_eq!(
        rows,
        vec![(
            String::from("argc"),
            String::from("int"),
            String::from("1")
        )]
    );
}

#[test]
fn siblings_stay_in_order() {
    let tree = vec![
        leaf("a", "int", "1"),
        aggregate("b", "B", vec![leaf("c", "int", "2")]),
        leaf("d", "int", "3"),
    ];
    let names: Vec<String> = rows_to_depth(&tree, 1)
        .iter()
        .map(|r| r.0.clone())
        .collect();
    assert_eq!(names, vec!["a", "b", "c", "d"]);
}

#[test]
fn widget_values_carry_through() {
    let text = "\u{1b}[33mwarning\u{1b}[0m";
    let ansi = AnsiString::new(text);
    assert_eq!(ansi.text, text);

    assert!(IconBreakpoint::new(true).enabled);
    assert!(!IconBreakpoint::new(false).enabled);
}

use vgui::inspect::{fits_inline, layout, Markers, Node, ValueGraph};

fn plain() -> Markers {
    Markers { null: "null".to_string(), circular: "[Circular]".to_string() }
}

fn text(s: &str) -> Node {
    Node::Text(s.to_string())
}

fn number(s: &str) -> Node {
    Node::Number(s.to_string())
}

fn yellow(s: &str) -> String {
    format!("\x1b[33m{}\x1b[39m", s)
}

fn green(s: &str) -> String {
    format!("\x1b[32m{}\x1b[39m", s)
}

fn blue(s: &str) -> String {
    format!("\x1b[34m{}\x1b[39m", s)
}

#[test]
fn primitives_print_in_their_colours() {
    let mut g = ValueGraph::new();
    assert_eq!(g.add(Node::Null), Some(0));
    assert_eq!(g.add(Node::Boolean(true)), Some(1));
    assert_eq!(g.add(Node::Boolean(false)), Some(2));
    assert_eq!(g.add(number("42")), Some(3));
    assert_eq!(g.add(number("-0.5")), Some(4));
    assert_eq!(g.add(text("hello")), Some(5));
    assert_eq!(g.len(), 6);
    let m = plain();
    assert_eq!(g.inspect_with(0, &m), Some("null".to_string()));
    assert_eq!(g.inspect_with(1, &m), Some("\x1b[33mtrue\x1b[39m".to_string()));
    assert_eq!(g.inspect_with(2, &m), Some("\x1b[33mfalse\x1b[39m".to_string()));
    assert_eq!(g.inspect_with(3, &m), Some("\x1b[33m42\x1b[39m".to_string()));
    assert_eq!(g.inspect_with(4, &m), Some("\x1b[33m-0.5\x1b[39m".to_string()));
    assert_eq!(g.inspect_with(5, &m), Some("hello".to_string()));
}

#[test]
fn functions_print_as_a_placeholder_with_their_name() {
    let mut g = ValueGraph::new();
    assert_eq!(g.add(Node::Function("render".to_string())), Some(0));
    assert_eq!(g.add(Node::Function(String::new())), Some(1));
    let m = plain();
    assert_eq!(
        g.inspect_with(0, &m),
        Some("\x1b[36m\x1b[1m[Function: render]\x1b[0m\x1b[39m".to_string())
    );
    assert_eq!(
        g.inspect_with(1, &m),
        Some("\x1b[36m\x1b[1m[Function: <anonymous>]\x1b[0m\x1b[39m".to_string())
    );
}

#[test]
fn other_values_print_indented_by_their_depth() {
    let mut g = ValueGraph::new();
    assert_eq!(g.add(Node::Other("undefined".to_string())), Some(0));
    assert_eq!(g.add(Node::Array(vec![0])), Some(1));
    let m = plain();
    assert_eq!(g.inspect_with(0, &m), Some("undefined".to_string()));
    assert_eq!(g.inspect_with(1, &m), Some("[   undefined ]".to_string()));
}

#[test]
fn strings_are_quoted_inside_compound_values_only() {
    let mut g = ValueGraph::new();
    assert_eq!(g.add(text("hi")), Some(0));
    assert_eq!(g.add(Node::Array(vec![0])), Some(1));
    assert_eq!(g.add(Node::Object(vec!["k".to_string()], vec![0])), Some(2));
    let m = plain();
    assert_eq!(g.inspect_with(0, &m), Some("hi".to_string()));
    assert_eq!(g.inspect_with(1, &m), Some(format!("[ {} ]", green("\"hi\""))));
    assert_eq!(g.inspect_with(2, &m), Some(format!("{{ {}: {} }}", blue("k"), green("\"hi\""))));
}

#[test]
fn empty_compound_values_print_as_brackets() {
    let mut g = ValueGraph::new();
    assert_eq!(g.add(Node::Array(Vec::new())), Some(0));
    assert_eq!(g.add(Node::Object(Vec::new(), Vec::new())), Some(1));
    assert_eq!(g.add(Node::Array(vec![0, 1])), Some(2));
    let m = plain();
    assert_eq!(g.inspect_with(0, &m), Some("[]".to_string()));
    assert_eq!(g.inspect_with(1, &m), Some("{}".to_string()));
    assert_eq!(g.inspect_with(2, &m), Some("[ [], {} ]".to_string()));
}

#[test]
fn small_arrays_and_objects_stay_on_one_line() {
    let mut g = ValueGraph::new();
    assert_eq!(g.add(number("1")), Some(0));
    assert_eq!(g.add(number("2")), Some(1));
    assert_eq!(g.add(number("3")), Some(2));
    assert_eq!(g.add(Node::Array(vec![0, 1, 2])), Some(3));
    assert_eq!(g.add(Node::Object(vec!["a".to_string()], vec![0])), Some(4));
    let m = plain();
    assert_eq!(
        g.inspect_with(3, &m),
        Some(format!("[ {}, {}, {} ]", yellow("1"), yellow("2"), yellow("3")))
    );
    assert_eq!(g.inspect_with(4, &m), Some(format!("{{ {}: {} }}", blue("a"), yellow("1"))));
}

#[test]
fn more_than_three_parts_make_a_block() {
    let mut g = ValueGraph::new();
    for (i, n) in ["1", "2", "3", "4"].iter().enumerate() {
        assert_eq!(g.add(number(n)), Some(i));
    }
    assert_eq!(g.add(Node::Array(vec![0, 1, 2, 3])), Some(4));
    let keys: Vec<String> = ["a", "b", "c", "d"].iter().map(|k| k.to_string()).collect();
    assert_eq!(g.add(Node::Object(keys, vec![0, 1, 2, 3])), Some(5));
    let m = plain();
    assert_eq!(
        g.inspect_with(4, &m),
        Some(format!(
            "[\n  {},\n  {},\n  {},\n  {}\n]",
            yellow("1"),
            yellow("2"),
            yellow("3"),
            yellow("4")
        ))
    );
    assert_eq!(
        g.inspect_with(5, &m),
        Some(format!(
            "{{\n  {}: {},\n  {}: {},\n  {}: {},\n  {}: {}\n}}",
            blue("a"),
            yellow("1"),
            blue("b"),
            yellow("2"),
            blue("c"),
            yellow("3"),
            blue("d"),
            yellow("4")
        ))
    );
}

#[test]
fn sixty_bytes_fit_on_one_line_and_sixty_one_do_not() {
    let part = |n: usize| "x".repeat(n);
    assert!(fits_inline(&vec![part(20), part(20), part(20)]));
    assert!(!fits_inline(&vec![part(20), part(20), part(21)]));
    assert!(fits_inline(&vec![part(60)]));
    assert!(!fits_inline(&vec![part(61)]));
    assert!(fits_inline(&Vec::new()));
    assert!(fits_inline(&vec![String::new(), String::new(), String::new()]));
    assert!(!fits_inline(&vec![String::new(), String::new(), String::new(), String::new()]));
    assert!(!fits_inline(&vec![part(1000), part(usize::MAX / 1_000_000_000_000)]));
}

#[test]
fn the_threshold_counts_bytes_not_characters() {
    let accented = |n: usize| "é".repeat(n);
    assert!(fits_inline(&vec![accented(10), accented(10), accented(10)]));
    assert!(!fits_inline(&vec![accented(10), accented(10), accented(11)]));
    assert!(!fits_inline(&vec!["€".repeat(21)]));
    assert!(fits_inline(&vec!["€".repeat(20)]));
}

#[test]
fn layout_gives_both_forms_exactly() {
    let parts = vec!["a".to_string(), "bb".to_string()];
    assert_eq!(layout(&parts, 0, false), "[ a, bb ]");
    assert_eq!(layout(&parts, 4, true), "{ a, bb }");
    let long = vec!["x".repeat(30), "y".repeat(31)];
    assert_eq!(
        layout(&long, 0, false),
        format!("[\n  {},\n  {}\n]", "x".repeat(30), "y".repeat(31))
    );
    assert_eq!(
        layout(&long, 2, true),
        format!("{{\n      {},\n      {}\n    }}", "x".repeat(30), "y".repeat(31))
    );
    let four: Vec<String> = ["1", "2", "3", "4"].iter().map(|k| k.to_string()).collect();
    assert_eq!(layout(&four, 1, false), "[\n    1,\n    2,\n    3,\n    4\n  ]");
}

#[test]
fn nested_blocks_indent_by_depth() {
    let mut g = ValueGraph::new();
    for (i, n) in ["1", "2", "3", "4"].iter().enumerate() {
        assert_eq!(g.add(number(n)), Some(i));
    }
    assert_eq!(g.add(Node::Array(vec![0, 1, 2, 3])), Some(4));
    assert_eq!(g.add(Node::Object(vec!["list".to_string()], vec![4])), Some(5));
    let m = plain();
    let inner = format!(
        "[\n    {},\n    {},\n    {},\n    {}\n  ]",
        yellow("1"),
        yellow("2"),
        yellow("3"),
        yellow("4")
    );
    assert_eq!(
        g.inspect_with(5, &m),
        Some(format!("{{\n  {}: {}\n}}", blue("list"), inner))
    );
}

#[test]
fn a_self_referential_object_prints_one_circular_marker() {
    let mut g = ValueGraph::new();
    assert_eq!(g.add(Node::Object(vec!["a".to_string()], vec![0])), Some(0));
    let shown = g.inspect(0).unwrap();
    assert_eq!(shown.matches("[Circular]").count(), 1);
    assert_eq!(
        g.inspect_with(0, &plain()),
        Some(format!("{{ {}: [Circular] }}", blue("a")))
    );
    let marked = Markers { null: "NULL".to_string(), circular: "<again>".to_string() };
    assert_eq!(g.inspect_with(0, &marked), Some(format!("{{ {}: <again> }}", blue("a"))));
}

#[test]
fn a_longer_cycle_is_cut_where_it_closes() {
    let mut g = ValueGraph::new();
    assert_eq!(g.add(Node::Null), Some(0));
    assert_eq!(g.add(Node::Array(vec![0])), Some(1));
    assert!(g.set(0, Node::Object(vec!["next".to_string()], vec![1])));
    let m = plain();
    assert_eq!(
        g.inspect_with(0, &m),
        Some(format!("{{ {}: [ [Circular] ] }}", blue("next")))
    );
    assert_eq!(
        g.inspect_with(1, &m),
        Some(format!("[ {{ {}: [Circular] }} ]", blue("next")))
    );
}

#[test]
fn a_value_held_twice_is_no_cycle_and_prints_in_full_each_time() {
    let mut g = ValueGraph::new();
    assert_eq!(g.add(Node::Object(Vec::new(), Vec::new())), Some(0));
    assert_eq!(g.add(Node::Array(vec![0, 0])), Some(1));
    assert_eq!(g.add(number("1")), Some(2));
    assert_eq!(g.add(Node::Array(vec![2])), Some(3));
    assert_eq!(g.add(Node::Array(vec![3, 3, 2])), Some(4));
    assert_eq!(g.add(Node::Object(vec!["x".to_string(), "y".to_string()], vec![3, 3])), Some(5));
    let m = plain();
    assert_eq!(g.inspect_with(1, &m), Some("[ {}, {} ]".to_string()));
    assert_eq!(
        g.inspect_with(4, &m),
        Some(format!("[ [ {} ], [ {} ], {} ]", yellow("1"), yellow("1"), yellow("1")))
    );
    assert_eq!(
        g.inspect_with(5, &m),
        Some(format!(
            "{{ {}: [ {} ], {}: [ {} ] }}",
            blue("x"),
            yellow("1"),
            blue("y"),
            yellow("1")
        ))
    );
    let shown = g.inspect(4).unwrap();
    assert_eq!(shown.matches("[Circular]").count(), 0);
}

#[test]
fn the_marker_stands_for_an_ancestor_only() {
    let mut g = ValueGraph::new();
    assert_eq!(g.add(Node::Array(vec![0])), Some(0));
    assert_eq!(g.add(Node::Array(vec![0, 0])), Some(1));
    assert_eq!(g.add(Node::Null), Some(2));
    assert_eq!(g.add(Node::Array(vec![2, 3])), Some(3));
    assert!(g.set(2, Node::Array(vec![3])));
    let m = plain();
    assert_eq!(g.inspect_with(0, &m), Some("[ [Circular] ]".to_string()));
    assert_eq!(
        g.inspect_with(1, &m),
        Some("[ [ [Circular] ], [ [Circular] ] ]".to_string())
    );
    assert_eq!(
        g.inspect_with(3, &m),
        Some("[ [ [Circular] ], [Circular] ]".to_string())
    );
    assert_eq!(
        g.inspect_with(2, &m),
        Some("[ [ [Circular], [Circular] ] ]".to_string())
    );
}

#[test]
fn the_terminal_decides_the_style_of_null_and_of_the_marker() {
    let mut g = ValueGraph::new();
    assert_eq!(g.add(Node::Null), Some(0));
    assert_eq!(g.add(Node::Array(vec![1])), Some(1));
    colored::control::set_override(true);
    assert_eq!(g.inspect(0), Some("\x1b[1mnull\x1b[0m".to_string()));
    assert_eq!(g.inspect(1), Some("[ \x1b[1;31m[Circular]\x1b[0m ]".to_string()));
    let styled = Markers::for_terminal();
    assert_eq!(styled.null, "\x1b[1mnull\x1b[0m");
    assert_eq!(styled.circular, "\x1b[1;31m[Circular]\x1b[0m");
    colored::control::set_override(false);
    assert_eq!(g.inspect(0), Some("null".to_string()));
    assert_eq!(g.inspect(1), Some("[ [Circular] ]".to_string()));
    assert_eq!(g.log_line(&vec![0, 1]), Some("null [ [Circular] ]".to_string()));
    let bare = Markers::for_terminal();
    assert_eq!(bare.null, "null");
    assert_eq!(bare.circular, "[Circular]");
    colored::control::unset_override();
}

#[test]
fn a_log_line_prints_each_value_afresh() {
    let mut g = ValueGraph::new();
    assert_eq!(g.add(text("Small array:")), Some(0));
    assert_eq!(g.add(number("1")), Some(1));
    assert_eq!(g.add(Node::Array(vec![1])), Some(2));
    let m = plain();
    assert_eq!(
        g.log_line_with(&vec![0, 2, 2], &m),
        Some(format!("Small array: [ {} ] [ {} ]", yellow("1"), yellow("1")))
    );
    assert_eq!(g.log_line_with(&Vec::new(), &m), Some(String::new()));
    assert_eq!(g.log_line_with(&vec![0, 3], &m), None);
    assert_eq!(g.log_line(&vec![7]), None);
}

#[test]
fn values_outside_the_graph_are_refused() {
    let mut g = ValueGraph::new();
    assert_eq!(g.inspect(0), None);
    assert_eq!(g.add(Node::Array(vec![1])), None);
    assert_eq!(g.add(Node::Object(vec!["a".to_string()], vec![5])), None);
    assert_eq!(g.add(Node::Object(vec!["a".to_string()], Vec::new())), None);
    assert_eq!(g.add(Node::Object(Vec::new(), vec![0])), None);
    assert_eq!(g.len(), 0);
    assert_eq!(g.add(Node::Array(vec![0])), Some(0));
    assert_eq!(g.add(Node::Null), Some(1));
    assert!(!g.set(2, Node::Null));
    assert!(!g.set(0, Node::Array(vec![2])));
    assert!(g.set(1, Node::Array(vec![0, 1])));
    assert_eq!(g.inspect_with(1, &plain()), Some("[ [ [Circular] ], [Circular] ]".to_string()));
    assert_eq!(g.inspect_with(2, &plain()), None);
    assert!(Node::Array(vec![0, 4]).fits(5));
    assert!(!Node::Array(vec![0, 5]).fits(5));
    assert!(Node::Text("t".to_string()).fits(0));
}

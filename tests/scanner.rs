use netlogo_world_parser::section::classify;
use netlogo_world_parser::text::parse_output;
use netlogo_world_parser::{parse_rows, ErrorKind, Globals, Scanner, Section};

fn row(cells: &[&str]) -> Vec<String> {
    cells.iter().map(|c| c.to_string()).collect()
}

#[test]
fn output_strips_one_pair_of_quotes() {
    assert_eq!(parse_output("\"a\\nb\""), vec!["a", "b"]);
    assert_eq!(parse_output("\"\"x\"\""), vec!["\"x\""]);
    assert_eq!(parse_output("\"x"), vec!["\"x"]);
    assert_eq!(parse_output("\""), vec!["\""]);
}

#[test]
fn output_splits_on_escaped_newline_only() {
    assert_eq!(parse_output(""), vec![""]);
    assert_eq!(parse_output("plain"), vec!["plain"]);
    assert_eq!(parse_output("a\\n\\nb\\n"), vec!["a", "", "b", ""]);
    assert_eq!(parse_output("a\nb"), vec!["a\nb"]);
    assert_eq!(parse_output("a\\\\nb"), vec!["a\\", "b"]);
}

#[test]
fn boundary_rows_are_single_exact_tokens() {
    assert_eq!(classify(&row(&["TURTLES"])), Some(Section::Turtles));
    assert_eq!(classify(&row(&["RANDOM_STATE"])), Some(Section::RandomState));
    assert_eq!(classify(&row(&["EXTENSTIONS"])), Some(Section::Extenstions));
    assert_eq!(classify(&row(&["EXTENSIONS"])), None);
    assert_eq!(classify(&row(&["turtles"])), None);
    assert_eq!(classify(&row(&["TURTLES", ""])), None);
    assert_eq!(classify(&row(&[])), None);
}

#[test]
fn sections_expecting_headers() {
    assert!(Section::Globals.has_headers());
    assert!(Section::RandomState.has_headers());
    assert!(Section::Links.has_headers());
    assert!(!Section::Output.has_headers());
    assert!(!Section::Header.has_headers());
    assert!(!Section::Plots.has_headers());
    assert!(!Section::Extenstions.has_headers());
}

#[test]
fn scanner_feeds_rows_one_by_one() {
    let mut sc = Scanner::new();
    assert!(sc.feed(&row(&["OUTPUT"])));
    assert!(sc.feed(&row(&["hello\\nworld"])));
    assert!(sc.feed(&row(&["GLOBALS"])));
    assert!(sc.feed(&row(&["ticks", "min-pxcor", "max-pxcor", "min-pycor", "max-pycor"])));
    assert!(!sc.feed(&row(&["1", "2"])));
    let world = sc.finish();
    assert_eq!(world.output, vec!["hello", "world"]);
}

#[test]
fn empty_output_row_does_not_fit() {
    let rows = vec![row(&["OUTPUT"]), row(&[])];
    let err = parse_rows(&rows).unwrap_err();
    assert_eq!(err.kind, ErrorKind::SchemaMismatch);
    assert_eq!(err.section, Section::Output);
    assert_eq!(err.row, 1);
}

#[test]
fn rows_in_leading_section_are_ignored() {
    let rows = vec![row(&["anything", "at", "all"]), row(&["x"])];
    let world = parse_rows(&rows).unwrap();
    assert!(world.turtles.is_empty());
}

#[test]
fn lookup_takes_last_of_repeated_names() {
    let rows = vec![
        row(&["GLOBALS"]),
        row(&["min-pxcor", "max-pxcor", "min-pycor", "max-pycor", "ticks", "k", "k"]),
        row(&["0", "0", "0", "0", "0", "1", "-2"]),
    ];
    let world = parse_rows(&rows).unwrap();
    let g: &Globals = &world.globals;
    assert_eq!(g.get("k"), Some(&netlogo_world_parser::Value::I64(-2)));
    assert_eq!(g.get("missing"), None);
    assert_eq!(g.get("ticks"), None);
    assert_eq!(g.custom.len(), 2);
}

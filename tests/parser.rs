use netlogo_world_parser::{parse_str, ErrorKind, Section};
use std::convert::{TryFrom, TryInto};

const ANTS: &str = r#""export-world data (NetLogo 6.1.1)"
"Ants.nlogo"
"10/19/2026 12:00:00:000 +0000"

"RANDOM STATE"
"0 -1170195288 1 2 3"

"GLOBALS"
"min-pxcor","max-pxcor","min-pycor","max-pycor","perspective","subject","nextIndex","directed-links","ticks","population","diffusion-rate","evaporation-rate"
"-35","35","-35","35","0","nobody","6","""NEITHER""","12","6","50","10"

"TURTLES"
"who","color","heading","xcor","ycor","shape","label","label-color","breed","hidden?","size","pen-size","pen-mode","carrying-food?"
"0","15","281","0","0","""bug""","""""","9.9","{all-turtles}","false","2","1","""up""","false"
"1","15","10","1","-2","""bug""","""""","9.9","{all-turtles}","false","2","1","""up""","false"
"2","15","97","-3","4","""bug""","""""","9.9","{all-turtles}","false","2","1","""up""","true"
"3","15","200","5","5","""bug""","""""","9.9","{all-turtles}","false","2","1","""up""","false"
"4","15","311","-6","-7","""bug""","""""","9.9","{all-turtles}","false","2","1","""up""","false"
"5","15","45","8","0","""bug""","""""","9.9","{all-turtles}","false","2","1","""up""","true"

"PATCHES"
"pxcor","pycor","pcolor","plabel","plabel-color","chemical","food","nest?","nest-scent","food-source-number"
"-35","35","0","""""","9.9","0","0","false","31.4","0"
"-34","35","0","""""","9.9","0","0","false","32.1","0"

"LINKS"
"end1","end2","color","label","label-color","hidden?","breed","thickness","shape","tie-mode"

"OUTPUT"
"Setup complete...\nReady to go"

"PLOTS"
"Food in each pile"
"EXTENSTIONS"
"#;

#[test]
fn parse_valid_file() {
    let data = ANTS;
    let world = parse_str(data).expect("parse failed");
    assert_eq!(world.turtles.len(), 6);

    let population = world
        .globals
        .get("population")
        .expect("no population")
        .to_owned();
    assert_eq!(population.try_into(), Ok(6u64));
    // or
    assert_eq!(
        u64::try_from(
            world
                .globals
                .get("population")
                .expect("no population")
                .to_owned()
        ),
        Ok(6)
    );

    assert!(world.output[0].contains("Setup complete"));
}

#[test]
fn fixture_fields_are_typed() {
    let world = parse_str(ANTS).unwrap();
    assert_eq!(world.globals.min_pxcor, -35);
    assert_eq!(world.globals.max_pycor, 35);
    assert_eq!(world.globals.ticks, 12);
    let t = &world.turtles[4];
    assert_eq!((t.who, t.color, t.xcor, t.ycor), (4, 15, -6, -7));
    assert_eq!(t.custom[0].0, "heading");
    assert_eq!(world.patches.len(), 2);
    assert_eq!(world.links.len(), 0);
    assert_eq!(world.output, vec!["Setup complete...".to_string(), "Ready to go".to_string()]);
    assert!(world.random_state.is_empty());
}

#[test]
fn parsing_twice_gives_equal_snapshots() {
    let a = parse_str(ANTS).unwrap();
    let b = parse_str(ANTS).unwrap();
    assert_eq!(format!("{:?}", a), format!("{:?}", b));
    let names: Vec<&str> = a.globals.custom.iter().map(|(n, _)| n.as_str()).collect();
    assert_eq!(
        names,
        vec![
            "perspective",
            "subject",
            "nextIndex",
            "directed-links",
            "population",
            "diffusion-rate",
            "evaporation-rate"
        ]
    );
}

#[test]
fn header_is_reset_between_sections() {
    let data = "TURTLES\nwho,color,xcor,ycor\n1,2,3,4\nPATCHES\na,b\n5,x\n";
    let world = parse_str(data).unwrap();
    assert_eq!(world.turtles.len(), 1);
    assert_eq!(world.patches.len(), 1);
    assert_eq!(world.patches[0].custom.len(), 2);
    assert_eq!(world.patches[0].custom[0].0, "a");
    assert_eq!(world.patches[0].custom[1].0, "b");
}

#[test]
fn repeated_boundary_clears_header() {
    let data = "GLOBALS\nmin-pxcor,max-pxcor,min-pycor,max-pycor,ticks\n1,2,3,4,5\nGLOBALS\nmin-pxcor,max-pxcor,min-pycor,max-pycor,ticks,extra\n6,7,8,9,10,x\n";
    let world = parse_str(data).unwrap();
    assert_eq!(world.globals.min_pxcor, 6);
    assert_eq!(world.globals.ticks, 10);
    assert_eq!(world.globals.custom.len(), 1);
}

#[test]
fn rows_keep_file_order() {
    let data = "TURTLES\nwho,color,xcor,ycor\n7,0,0,0\n3,0,0,0\n5,0,0,0\nLINKS\nend1,end2\n1,2\n3,4\nOUTPUT\nfirst\\nsecond\nthird\nRANDOM_STATE\na,b,c\n9,-8,7\n";
    let world = parse_str(data).unwrap();
    let who: Vec<usize> = world.turtles.iter().map(|t| t.who).collect();
    assert_eq!(who, vec![7, 3, 5]);
    assert_eq!(world.links.len(), 2);
    assert_eq!(world.links[1].custom[0].1, netlogo_world_parser::Value::U64(3));
    assert_eq!(world.output, vec!["first", "second", "third"]);
    assert_eq!(world.random_state, vec![9, -8, 7]);
}

#[test]
fn short_globals_row_is_a_schema_mismatch() {
    let data = "GLOBALS\nmin-pxcor,max-pxcor,min-pycor,max-pycor,ticks,population\n1,2,3,4,5\n";
    let err = parse_str(data).unwrap_err();
    assert_eq!(err.kind, ErrorKind::SchemaMismatch);
    assert_eq!(err.section, Section::Globals);
    assert_eq!(err.row, 2);
}

#[test]
fn unknown_section_falls_through_to_active_section() {
    // The unknown boundary is read as a data row of the active turtles
    // section, whose header has four columns.
    let data = "TURTLES\nwho,color,xcor,ycor\n1,2,3,4\nFUTURE_SECTION\nwho,color,xcor,ycor\n";
    let err = parse_str(data).unwrap_err();
    assert_eq!(err.kind, ErrorKind::SchemaMismatch);
    assert_eq!(err.section, Section::Turtles);
    assert_eq!(err.row, 3);
}

#[test]
fn unknown_section_after_headerless_section_is_ignored() {
    let data = "PLOTS\nFUTURE_SECTION\n1,2,3\nGLOBALS\nmin-pxcor,max-pxcor,min-pycor,max-pycor,ticks\n1,2,3,4,5\n";
    let world = parse_str(data).unwrap();
    assert_eq!(world.globals.max_pycor, 4);
}

#[test]
fn turtle_with_fractional_coordinate_is_rejected() {
    let err = parse_str("TURTLES\nwho,color,xcor,ycor\n1,2,3.5,4\n").unwrap_err();
    assert_eq!(err.kind, ErrorKind::SchemaMismatch);
    assert_eq!(err.row, 2);
}

#[test]
fn turtle_with_negative_id_is_rejected() {
    let err = parse_str("TURTLES\nwho,color,xcor,ycor\n-1,2,3,4\n").unwrap_err();
    assert_eq!(err.kind, ErrorKind::SchemaMismatch);
}

#[test]
fn missing_fixed_field_is_rejected() {
    let err = parse_str("TURTLES\nwho,color,xcor,heading\n1,2,3,4\n").unwrap_err();
    assert_eq!(err.kind, ErrorKind::SchemaMismatch);
    assert_eq!(err.section, Section::Turtles);
}

#[test]
fn random_state_must_be_integers() {
    let err = parse_str("RANDOM_STATE\na,b\n1,x\n").unwrap_err();
    assert_eq!(err.kind, ErrorKind::SchemaMismatch);
    assert_eq!(err.section, Section::RandomState);
}

#[test]
fn wide_patch_row_is_rejected() {
    let err = parse_str("PATCHES\na\n1,2\n").unwrap_err();
    assert_eq!(err.kind, ErrorKind::SchemaMismatch);
    assert_eq!(err.section, Section::Patches);
}

#[test]
fn quoted_cells_are_unquoted_by_the_reader() {
    let world = parse_str("PATCHES\n\"a,b\",c\n\"x,y\",\"\"\"q\"\"\"\n").unwrap();
    let f = &world.patches[0].custom;
    assert_eq!(f[0].0, "a,b");
    assert_eq!(f[0].1, netlogo_world_parser::Value::String("x,y".to_string()));
    assert_eq!(f[1].1, netlogo_world_parser::Value::String("\"q\"".to_string()));
}

#[test]
fn empty_input_gives_empty_world() {
    let world = parse_str("").unwrap();
    assert!(world.turtles.is_empty());
    assert!(world.output.is_empty());
    assert_eq!(world.globals.ticks, 0);
    assert!(world.globals.custom.is_empty());
}

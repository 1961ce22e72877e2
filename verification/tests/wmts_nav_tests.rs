use wmts_nav::capabilities::{TileMatrix, TileMatrixSet};
use wmts_nav::coordinator::{NavigationCommand, TileCoordinator};
use wmts_nav::errors::{NavigationError, ParseError};
use wmts_nav::navigation::{Direction, NavigationState, Quadrant};
use wmts_nav::text::{parse_u32_chars, u32_to_string};
use wmts_nav::url_template::UrlTemplate;
use wmts_nav::xml::{XmlChild, XmlElement};

fn field(tag: &str, text: &str) -> XmlChild {
    XmlChild::Element(XmlElement {
        tag: String::from(tag),
        attributes: vec![],
        children: vec![XmlChild::Text(String::from(text))],
    })
}

fn matrix_element(fields: Vec<(&str, &str)>) -> XmlElement {
    XmlElement {
        tag: String::from("TileMatrix"),
        attributes: vec![],
        children: fields.iter().map(|(t, v)| field(t, v)).collect(),
    }
}

fn simple_matrix(id: &str, width: u32, height: u32) -> TileMatrix {
    TileMatrix {
        identifier: String::from(id),
        scale_denominator: String::from("0"),
        top_left_x: String::from("0"),
        top_left_y: String::from("0"),
        tile_width: 256,
        tile_height: 256,
        matrix_width: width,
        matrix_height: height,
    }
}

const CAPS_DOC: &str = "<Capabilities>\
<Contents>\
<Layer><ResourceURL template=\"https://host/{TileMatrix}/{TileCol}/{TileRow}.png\"/></Layer>\
<TileMatrixSet>\
<TileMatrix>\
<Identifier>0</Identifier>\
<ScaleDenominator>559082264.029</ScaleDenominator>\
<TopLeftCorner>-180.0 90.0</TopLeftCorner>\
<TileWidth>256</TileWidth>\
<TileHeight>256</TileHeight>\
<MatrixWidth>1</MatrixWidth>\
<MatrixHeight>1</MatrixHeight>\
</TileMatrix>\
</TileMatrixSet>\
</Contents>\
</Capabilities>";

#[test]
fn from_node_reads_all_fields() {
    let e = matrix_element(vec![
        ("Identifier", "3"),
        ("ScaleDenominator", "1091957.546"),
        ("TopLeftCorner", "-20037508.34 20037508.34"),
        ("TileWidth", "256"),
        ("TileHeight", "512"),
        ("MatrixWidth", "8"),
        ("MatrixHeight", "16"),
    ]);
    let m = TileMatrix::from_node(&e).unwrap();
    assert_eq!(m.identifier, "3");
    assert_eq!(m.scale_denominator, "1091957.546");
    assert_eq!(m.top_left_x, "-20037508.34");
    assert_eq!(m.top_left_y, "20037508.34");
    assert_eq!(m.tile_width, 256);
    assert_eq!(m.tile_height, 512);
    assert_eq!(m.matrix_width, 8);
    assert_eq!(m.matrix_height, 16);
}

#[test]
fn from_node_is_order_independent() {
    let e1 = matrix_element(vec![
        ("Identifier", "5"),
        ("TileWidth", "256"),
        ("MatrixHeight", "32"),
        ("ScaleDenominator", "2e6"),
    ]);
    let e2 = matrix_element(vec![
        ("ScaleDenominator", "2e6"),
        ("MatrixHeight", "32"),
        ("Identifier", "5"),
        ("TileWidth", "256"),
    ]);
    let m1 = TileMatrix::from_node(&e1).unwrap();
    let m2 = TileMatrix::from_node(&e2).unwrap();
    assert_eq!(m1.identifier, m2.identifier);
    assert_eq!(m1.scale_denominator, m2.scale_denominator);
    assert_eq!(m1.tile_width, m2.tile_width);
    assert_eq!(m1.matrix_height, m2.matrix_height);
    assert_eq!(m1.top_left_x, m2.top_left_x);
}

#[test]
fn from_node_rejects_bad_tile_width() {
    let e = matrix_element(vec![("Identifier", "1"), ("TileWidth", "fat")]);
    match TileMatrix::from_node(&e) {
        Err(ParseError::InvalidNumber { field, value }) => {
            assert_eq!(field, "TileWidth");
            assert_eq!(value, "fat");
        }
        other => panic!("expected InvalidNumber, got {:?}", other),
    }
}

#[test]
fn from_node_rejects_bad_scale_and_corner() {
    let e = matrix_element(vec![("ScaleDenominator", "1..2")]);
    match TileMatrix::from_node(&e) {
        Err(ParseError::InvalidNumber { field, value }) => {
            assert_eq!(field, "ScaleDenominator");
            assert_eq!(value, "1..2");
        }
        other => panic!("expected InvalidNumber, got {:?}", other),
    }
    let e2 = matrix_element(vec![("TopLeftCorner", "a 2.0")]);
    match TileMatrix::from_node(&e2) {
        Err(ParseError::InvalidNumber { field, value }) => {
            assert_eq!(field, "TopLeftCorner");
            assert_eq!(value, "a");
        }
        other => panic!("expected InvalidNumber, got {:?}", other),
    }
    let e3 = matrix_element(vec![("TopLeftCorner", "1.0 2.0 3.0")]);
    match TileMatrix::from_node(&e3) {
        Err(ParseError::InvalidNumber { field, value }) => {
            assert_eq!(field, "TopLeftCorner");
            assert_eq!(value, "1.0 2.0 3.0");
        }
        other => panic!("expected InvalidNumber, got {:?}", other),
    }
}

#[test]
fn from_node_accepts_float_forms() {
    for text in ["1.5e3", "-0.25", ".5", "5.", "inf", "NaN", "+2E-7", "559082264.029"] {
        let e = matrix_element(vec![("ScaleDenominator", text)]);
        let m = TileMatrix::from_node(&e).unwrap();
        assert_eq!(m.scale_denominator, text);
    }
    for text in ["", "e3", "1.2.3", "in", "infinit", "--1", "1e", "1e+"] {
        let e = matrix_element(vec![("ScaleDenominator", text)]);
        assert!(TileMatrix::from_node(&e).is_err(), "accepted {:?}", text);
    }
}

#[test]
fn from_node_skips_unknown_and_empty_children() {
    let mut e = matrix_element(vec![("Identifier", "7"), ("WhereAmI", "nowhere")]);
    e.children.push(XmlChild::Element(XmlElement {
        tag: String::from("TileWidth"),
        attributes: vec![],
        children: vec![],
    }));
    let m = TileMatrix::from_node(&e).unwrap();
    assert_eq!(m.identifier, "7");
    assert_eq!(m.tile_width, 0);
}

#[test]
fn parse_u32_text_bounds() {
    let to_chars = |s: &str| s.chars().collect::<Vec<char>>();
    assert_eq!(parse_u32_chars(&to_chars("0")), Some(0));
    assert_eq!(parse_u32_chars(&to_chars("+17")), Some(17));
    assert_eq!(parse_u32_chars(&to_chars("4294967295")), Some(u32::MAX));
    assert_eq!(parse_u32_chars(&to_chars("4294967296")), None);
    assert_eq!(parse_u32_chars(&to_chars("")), None);
    assert_eq!(parse_u32_chars(&to_chars("+")), None);
    assert_eq!(parse_u32_chars(&to_chars("12a")), None);
    assert_eq!(parse_u32_chars(&to_chars("-1")), None);
}

#[test]
fn decimal_text_of_u32() {
    assert_eq!(u32_to_string(0), "0");
    assert_eq!(u32_to_string(1234), "1234");
    assert_eq!(u32_to_string(u32::MAX), "4294967295");
}

#[test]
fn resolve_substitutes_all_placeholders() {
    let t = UrlTemplate::new(String::from("https://host/{TileMatrix}/{TileCol}/{TileRow}.png"));
    let addr = t.resolve("7", 19, 3);
    assert_eq!(addr, "https://host/7/19/3.png");
    assert!(!addr.contains("{TileMatrix}"));
    assert!(!addr.contains("{TileCol}"));
    assert!(!addr.contains("{TileRow}"));
}

#[test]
fn resolve_leaves_missing_placeholders_alone() {
    let t = UrlTemplate::new(String::from("https://host/{TileCol}.png"));
    assert_eq!(t.resolve("2", 5, 9), "https://host/5.png");
    let empty = UrlTemplate::new(String::new());
    assert_eq!(empty.resolve("2", 5, 9), "");
}

#[test]
fn parse_reads_template_and_matrices() {
    let (template, set) = wmts_nav::capabilities::parse_wmts_xml(CAPS_DOC).unwrap();
    assert_eq!(
        template.template,
        "https://host/{TileMatrix}/{TileCol}/{TileRow}.png"
    );
    let m = set.get("0").unwrap();
    assert_eq!(m.tile_width, 256);
    assert_eq!(m.tile_height, 256);
    assert_eq!(m.matrix_width, 1);
    assert_eq!(m.matrix_height, 1);
    assert_eq!(m.top_left_x, "-180.0");
    assert_eq!(m.top_left_y, "90.0");
}

#[test]
fn initial_address_of_session() {
    let (template, set) = wmts_nav::capabilities::parse_wmts_xml(CAPS_DOC).unwrap();
    let coord = TileCoordinator::new(template, set);
    assert_eq!(coord.current_address(), "https://host/0/0/0.png");
}

#[test]
fn current_address_is_idempotent() {
    let (template, set) = wmts_nav::capabilities::parse_wmts_xml(CAPS_DOC).unwrap();
    let coord = TileCoordinator::new(template, set);
    assert_eq!(coord.current_address(), coord.current_address());
}

#[test]
fn parse_reports_missing_elements() {
    match wmts_nav::capabilities::parse_wmts_xml("<Capabilities></Capabilities>") {
        Err(ParseError::MissingElement { name }) => assert_eq!(name, "Contents"),
        other => panic!("expected MissingElement, got {:?}", other),
    }
    match wmts_nav::capabilities::parse_wmts_xml("<C><Contents></Contents></C>") {
        Err(ParseError::MissingElement { name }) => assert_eq!(name, "ResourceURL"),
        other => panic!("expected MissingElement, got {:?}", other),
    }
    let doc = "<C><Contents><ResourceURL template=\"x\"/></Contents></C>";
    match wmts_nav::capabilities::parse_wmts_xml(doc) {
        Err(ParseError::MissingElement { name }) => assert_eq!(name, "TileMatrixSet"),
        other => panic!("expected MissingElement, got {:?}", other),
    }
    match wmts_nav::capabilities::parse_wmts_xml("<unclosed") {
        Err(ParseError::Syntax) => {}
        other => panic!("expected Syntax, got {:?}", other),
    }
}

#[test]
fn parse_skips_matrix_with_bad_number_keeps_siblings() {
    let doc = "<C><Contents>\
<ResourceURL template=\"https://host/{TileMatrix}/{TileCol}/{TileRow}.png\"/>\
<TileMatrixSet>\
<TileMatrix><Identifier>0</Identifier><TileWidth>256</TileWidth>\
<MatrixWidth>1</MatrixWidth><MatrixHeight>1</MatrixHeight></TileMatrix>\
<TileMatrix><Identifier>1</Identifier><TileWidth>banana</TileWidth></TileMatrix>\
<TileMatrix><Identifier>2</Identifier><TileWidth>512</TileWidth>\
<MatrixWidth>4</MatrixWidth><MatrixHeight>4</MatrixHeight></TileMatrix>\
</TileMatrixSet></Contents></C>";
    let (_, set) = wmts_nav::capabilities::parse_wmts_xml(doc).unwrap();
    assert!(set.get("0").is_some());
    assert!(set.get("1").is_none());
    let m2 = set.get("2").unwrap();
    assert_eq!(m2.tile_width, 512);
}

#[test]
fn parse_duplicate_identifier_last_wins() {
    let doc = "<C><Contents>\
<ResourceURL template=\"t\"/>\
<TileMatrixSet>\
<TileMatrix><Identifier>0</Identifier><TileWidth>256</TileWidth></TileMatrix>\
<TileMatrix><Identifier>0</Identifier><TileWidth>512</TileWidth></TileMatrix>\
</TileMatrixSet></Contents></C>";
    let (_, set) = wmts_nav::capabilities::parse_wmts_xml(doc).unwrap();
    assert_eq!(set.get("0").unwrap().tile_width, 512);
}

#[test]
fn zoom_in_then_out_returns_to_cursor() {
    let mut set = TileMatrixSet::new();
    set.insert(simple_matrix("1", 8, 8));
    set.insert(simple_matrix("2", 16, 16));
    let mut nav = NavigationState {
        level: 1,
        current_row: 3,
        current_column: 2,
    };
    nav.zoom_in(Quadrant::NorthEast, &set).unwrap();
    assert_eq!((nav.level, nav.current_row, nav.current_column), (2, 6, 5));
    nav.zoom_out(&set).unwrap();
    assert_eq!((nav.level, nav.current_row, nav.current_column), (1, 3, 2));
}

#[test]
fn quadrants_pick_the_four_children() {
    let mut set = TileMatrixSet::new();
    set.insert(simple_matrix("0", 1, 1));
    set.insert(simple_matrix("1", 2, 2));
    let cases = [
        (Quadrant::NorthWest, (0, 0)),
        (Quadrant::NorthEast, (0, 1)),
        (Quadrant::SouthWest, (1, 0)),
        (Quadrant::SouthEast, (1, 1)),
    ];
    for (q, (r, c)) in cases {
        let mut nav = NavigationState::new();
        nav.zoom_in(q, &set).unwrap();
        assert_eq!((nav.current_row, nav.current_column), (r, c));
    }
}

#[test]
fn zoom_out_at_bottom_level_fails_and_keeps_cursor() {
    let mut set = TileMatrixSet::new();
    set.insert(simple_matrix("0", 1, 1));
    let mut nav = NavigationState::new();
    assert_eq!(nav.zoom_out(&set), Err(NavigationError::AtBottomLevel));
    assert_eq!((nav.level, nav.current_row, nav.current_column), (0, 0, 0));
}

#[test]
fn pan_up_at_row_zero_fails_and_keeps_cursor() {
    let mut set = TileMatrixSet::new();
    set.insert(simple_matrix("0", 3, 3));
    let mut nav = NavigationState {
        level: 0,
        current_row: 0,
        current_column: 1,
    };
    assert_eq!(nav.pan(Direction::Up, &set), Err(NavigationError::OutOfBounds));
    assert_eq!((nav.level, nav.current_row, nav.current_column), (0, 0, 1));
}

#[test]
fn pan_beyond_grid_edge_fails() {
    let mut set = TileMatrixSet::new();
    set.insert(simple_matrix("0", 2, 2));
    let mut nav = NavigationState {
        level: 0,
        current_row: 1,
        current_column: 1,
    };
    assert_eq!(nav.pan(Direction::Down, &set), Err(NavigationError::OutOfBounds));
    assert_eq!(nav.pan(Direction::Right, &set), Err(NavigationError::OutOfBounds));
    nav.pan(Direction::Left, &set).unwrap();
    assert_eq!(nav.current_column, 0);
    nav.pan(Direction::Up, &set).unwrap();
    assert_eq!(nav.current_row, 0);
}

#[test]
fn zoom_in_without_child_matrix_fails() {
    let mut set = TileMatrixSet::new();
    set.insert(simple_matrix("0", 1, 1));
    let mut nav = NavigationState::new();
    assert_eq!(
        nav.zoom_in(Quadrant::NorthWest, &set),
        Err(NavigationError::OutOfBounds)
    );
    assert_eq!((nav.level, nav.current_row, nav.current_column), (0, 0, 0));
}

#[test]
fn apply_moves_cursor_and_advances_version() {
    let mut set = TileMatrixSet::new();
    set.insert(simple_matrix("0", 1, 1));
    set.insert(simple_matrix("1", 2, 2));
    let template =
        UrlTemplate::new(String::from("https://host/{TileMatrix}/{TileCol}/{TileRow}.png"));
    let mut coord = TileCoordinator::new(template, set);
    let token = coord.current_version();
    assert!(coord.is_current(token));
    coord.apply(NavigationCommand::ZoomIn(Quadrant::SouthEast)).unwrap();
    assert!(!coord.is_current(token));
    assert_eq!(coord.current_address(), "https://host/1/1/1.png");
    assert_eq!(
        coord.apply(NavigationCommand::Pan(Direction::Down)),
        Err(NavigationError::OutOfBounds)
    );
    assert_eq!(coord.current_address(), "https://host/1/1/1.png");
    coord.apply(NavigationCommand::ZoomOut).unwrap();
    assert_eq!(coord.current_address(), "https://host/0/0/0.png");
}

use tg_schema::blocks::Block;
use tg_schema::dom::DomNode;
use tg_schema::error::ParseError;
use tg_schema::{extract_blocks, parse_document};
use tg_schema::builder::{parse_api, parse_methods, parse_types};

fn el(name: &str, text: &str, children: Vec<DomNode>) -> DomNode {
    DomNode {
        name: name.to_string(),
        id: None,
        class: None,
        text: text.to_string(),
        children,
    }
}

fn marked(children: Vec<DomNode>) -> DomNode {
    DomNode {
        name: "div".to_string(),
        id: Some("dev_page_content".to_string()),
        class: None,
        text: String::new(),
        children,
    }
}

fn page(children: Vec<DomNode>) -> DomNode {
    el("html", "", vec![el("body", "", vec![marked(children)])])
}

fn table(class: Option<&str>, header: Vec<&str>, rows: Vec<Vec<&str>>) -> DomNode {
    let ths: Vec<DomNode> = header.iter().map(|h| el("th", h, vec![])).collect();
    let thead = el("thead", "", vec![el("tr", "", ths)]);
    let trs: Vec<DomNode> = rows
        .iter()
        .map(|cells| {
            let tds: Vec<DomNode> = cells.iter().map(|c| el("td", c, vec![])).collect();
            el("tr", "", tds)
        })
        .collect();
    let tbody = el("tbody", "", trs);
    DomNode {
        name: "table".to_string(),
        id: None,
        class: class.map(|c| c.to_string()),
        text: String::new(),
        children: vec![thead, tbody],
    }
}

fn field_table(rows: Vec<Vec<&str>>) -> DomNode {
    table(Some("table"), vec!["Field", "Type", "Description"], rows)
}

#[test]
fn missing_marker_is_structure_not_found() {
    let doc = el("html", "", vec![el("body", "", vec![el("p", "hello", vec![])])]);
    let r = parse_document(&doc);
    assert!(matches!(r, Err(ParseError::StructureNotFound)));
    let b = extract_blocks(&doc);
    assert!(matches!(b, Err(ParseError::StructureNotFound)));
}

#[test]
fn marker_found_when_nested_deep() {
    let doc = el(
        "html",
        "",
        vec![el("body", "", vec![el("div", "", vec![marked(vec![el("p", "x", vec![])])])])],
    );
    let r = parse_document(&doc);
    assert!(r.is_ok());
}

#[test]
fn one_type_with_one_field() {
    let doc = page(vec![
        el("h4", "User", vec![]),
        el("p", "Represents a Telegram user.", vec![]),
        field_table(vec![vec!["id", "Integer", "Unique identifier"]]),
    ]);
    let (types, methods) = parse_document(&doc).unwrap();
    assert_eq!(types.len(), 1);
    assert_eq!(methods.len(), 0);
    assert_eq!(types[0].name, "User");
    assert_eq!(types[0].description, "Represents a Telegram user.");
    assert_eq!(types[0].fields.len(), 1);
    assert_eq!(types[0].fields[0].name, "id");
    assert_eq!(types[0].fields[0].ty, "i64");
    assert_eq!(types[0].fields[0].optional, false);
    assert_eq!(types[0].fields[0].description, "Unique identifier");
}

#[test]
fn lowercase_heading_is_never_a_type() {
    let doc = page(vec![
        el("h4", "id", vec![]),
        el("p", "Not a type.", vec![]),
        field_table(vec![vec!["x", "Integer", "whatever"]]),
    ]);
    let blocks = extract_blocks(&doc).unwrap();
    let types = parse_types(&blocks).unwrap();
    assert_eq!(types.len(), 0);
}

#[test]
fn optional_prefix_sets_the_flag() {
    let doc = page(vec![
        el("h4", "Chat", vec![]),
        el("p", "A chat.", vec![]),
        field_table(vec![
            vec!["title", "String", "Optional. Pass True to enable"],
            vec!["id", "Integer", "Always present"],
        ]),
    ]);
    let (types, _) = parse_document(&doc).unwrap();
    assert_eq!(types.len(), 1);
    assert_eq!(types[0].fields.len(), 2);
    assert_eq!(types[0].fields[0].name, "title");
    assert_eq!(types[0].fields[0].optional, true);
    assert_eq!(types[0].fields[1].name, "id");
    assert_eq!(types[0].fields[1].optional, false);
}

#[test]
fn missing_type_column_is_an_error() {
    let doc = page(vec![
        el("h4", "User", vec![]),
        el("p", "A user.", vec![]),
        table(
            Some("table"),
            vec!["Field", "Description"],
            vec![vec!["id", "Unique identifier"]],
        ),
    ]);
    let blocks = extract_blocks(&doc).unwrap();
    let r = parse_types(&blocks);
    match r {
        Err(ParseError::MissingColumn { column }) => assert_eq!(column, "Type"),
        _ => panic!("expected the missing-column failure"),
    }
}

#[test]
fn heading_after_paragraph_finalizes_fieldless_type() {
    let doc = page(vec![
        el("h4", "User", vec![]),
        el("p", "Represents a user.", vec![]),
        el("h4", "Chat", vec![]),
    ]);
    let blocks = extract_blocks(&doc).unwrap();
    let types = parse_types(&blocks).unwrap();
    assert_eq!(types.len(), 1);
    assert_eq!(types[0].name, "User");
    assert_eq!(types[0].description, "Represents a user.");
    assert_eq!(types[0].fields.len(), 0);
}

#[test]
fn trailing_fieldless_type_is_flushed() {
    let doc = page(vec![
        el("h4", "User", vec![]),
        el("p", "Represents a user.", vec![]),
    ]);
    let (types, _) = parse_document(&doc).unwrap();
    assert_eq!(types.len(), 1);
    assert_eq!(types[0].name, "User");
    assert_eq!(types[0].fields.len(), 0);
}

#[test]
fn table_and_list_under_one_heading_is_ambiguous() {
    let doc = page(vec![
        el("h4", "User", vec![]),
        el("p", "A user.", vec![]),
        field_table(vec![vec!["id", "Integer", "x"]]),
        el("ul", "", vec![el("li", "RED", vec![])]),
    ]);
    let blocks = extract_blocks(&doc).unwrap();
    let r = parse_types(&blocks);
    match r {
        Err(ParseError::AmbiguousShape { name }) => assert_eq!(name, "User"),
        _ => panic!("expected the ambiguous-shape failure"),
    }
}

#[test]
fn list_items_become_enum_fields() {
    let doc = page(vec![
        el("h4", "Color", vec![]),
        el("p", "A color.", vec![]),
        el(
            "ul",
            "",
            vec![
                el("li", " RED ", vec![]),
                el("li", "RED", vec![]),
                el("li", "   ", vec![]),
                el("li", "GREEN", vec![]),
            ],
        ),
    ]);
    let (types, _) = parse_document(&doc).unwrap();
    assert_eq!(types.len(), 1);
    let fields = &types[0].fields;
    assert_eq!(fields.len(), 2);
    assert_eq!(fields[0].name, "RED");
    assert_eq!(fields[0].ty, "RED");
    assert_eq!(fields[0].optional, false);
    assert_eq!(fields[0].description, "");
    assert_eq!(fields[1].name, "GREEN");
}

#[test]
fn method_with_parameters() {
    let doc = page(vec![
        el("h4", "sendMessage", vec![]),
        el("p", "Use this method to send text messages.", vec![]),
        table(
            Some("table"),
            vec!["Parameter", "Type", "Required", "Description"],
            vec![
                vec!["chat_id", "Integer or String", "Yes", "Target chat"],
                vec!["disable_notification", "Boolean", "Optional", "Silent"],
            ],
        ),
    ]);
    let blocks = extract_blocks(&doc).unwrap();
    let methods = parse_methods(&blocks).unwrap();
    assert_eq!(methods.len(), 1);
    assert_eq!(methods[0].name, "sendMessage");
    assert_eq!(methods[0].parameters.len(), 2);
    assert_eq!(methods[0].parameters[0].name, "chat_id");
    assert_eq!(methods[0].parameters[0].ty, "String");
    assert_eq!(methods[0].parameters[0].required, true);
    assert_eq!(methods[0].parameters[1].name, "disable_notification");
    assert_eq!(methods[0].parameters[1].ty, "bool");
    assert_eq!(methods[0].parameters[1].required, false);
}

#[test]
fn required_defaults_to_true_without_the_column() {
    let doc = page(vec![
        el("h4", "getMe", vec![]),
        el("p", "Returns the bot.", vec![]),
        table(
            Some("table"),
            vec!["Parameter", "Type", "Description"],
            vec![vec!["timeout", "Integer", "Timeout"]],
        ),
    ]);
    let blocks = extract_blocks(&doc).unwrap();
    let methods = parse_methods(&blocks).unwrap();
    assert_eq!(methods[0].parameters[0].required, true);
}

#[test]
fn method_pass_failure_fails_parse_api() {
    let doc = page(vec![
        el("h4", "sendMessage", vec![]),
        el("p", "A method.", vec![]),
        field_table(vec![vec!["id", "Integer", "x"]]),
    ]);
    let blocks = extract_blocks(&doc).unwrap();
    assert!(parse_types(&blocks).unwrap().is_empty());
    let r = parse_api(&blocks);
    match r {
        Err(ParseError::MissingColumn { column }) => assert_eq!(column, "Parameter"),
        _ => panic!("expected the method pass to fail"),
    }
}

#[test]
fn two_passes_share_one_page() {
    let doc = page(vec![
        el("h4", "User", vec![]),
        el("p", "A user.", vec![]),
        field_table(vec![vec!["id", "Integer", "x"]]),
        el("h4", "getMe", vec![]),
        el("p", "A method.", vec![]),
        table(Some("table"), vec!["Parameter", "Type", "Description"], vec![]),
    ]);
    let (types, methods) = parse_document(&doc).unwrap();
    assert_eq!(types.len(), 1);
    assert_eq!(types[0].name, "User");
    assert_eq!(methods.len(), 1);
    assert_eq!(methods[0].name, "getMe");
    assert_eq!(methods[0].parameters.len(), 0);
}

#[test]
fn duplicate_declarations_collapse() {
    let doc = page(vec![
        el("h4", "User", vec![]),
        el("p", "A user.", vec![]),
        field_table(vec![vec!["id", "Integer", "x"], vec!["id", "Integer", "x"]]),
        el("h4", "User", vec![]),
        el("p", "A user.", vec![]),
        field_table(vec![vec!["id", "Integer", "x"]]),
    ]);
    let (types, _) = parse_document(&doc).unwrap();
    assert_eq!(types.len(), 1);
    assert_eq!(types[0].fields.len(), 1);
}

#[test]
fn classifier_skips_unqualified_blocks() {
    let doc = page(vec![
        el("h4", "Not A Name", vec![]),
        el("div", "noise", vec![]),
        el("script", "code", vec![]),
        table(None, vec!["Field"], vec![]),
        table(Some("layout"), vec!["Field"], vec![]),
        el("ul", "", vec![el("span", "x", vec![])]),
        el("p", "kept", vec![]),
    ]);
    let blocks = extract_blocks(&doc).unwrap();
    assert_eq!(blocks.len(), 1);
    match &blocks[0] {
        Block::Paragraph { text } => assert_eq!(text, "kept"),
        _ => panic!("expected the paragraph to be the only block"),
    }
}

#[test]
fn blocks_keep_document_order() {
    let doc = page(vec![
        el("p", "one", vec![]),
        el("h4", "Two", vec![]),
        el("p", "three", vec![]),
    ]);
    let blocks = extract_blocks(&doc).unwrap();
    assert_eq!(blocks.len(), 3);
    assert!(matches!(&blocks[0], Block::Paragraph { text } if text == "one"));
    assert!(matches!(&blocks[1], Block::Heading { text } if text == "Two"));
    assert!(matches!(&blocks[2], Block::Paragraph { text } if text == "three"));
}

#[test]
fn last_paragraph_wins_as_description() {
    let doc = page(vec![
        el("h4", "User", vec![]),
        el("p", "first", vec![]),
        el("p", "second", vec![]),
        field_table(vec![]),
    ]);
    let (types, _) = parse_document(&doc).unwrap();
    assert_eq!(types.len(), 1);
    assert_eq!(types[0].description, "second");
}

#[test]
fn ragged_rows_fit_the_header() {
    let doc = page(vec![
        el("h4", "User", vec![]),
        el("p", "A user.", vec![]),
        table(
            Some("table"),
            vec!["Field", "Type", "Description"],
            vec![vec!["id", "Integer"]],
        ),
    ]);
    let blocks = extract_blocks(&doc).unwrap();
    match &blocks[2] {
        Block::FieldTable { rows } => {
            assert_eq!(rows.len(), 1);
            assert_eq!(rows[0].cells.len(), 2);
            assert_eq!(rows[0].cells[0].column, "Field");
            assert_eq!(rows[0].cells[0].text, "id");
            assert_eq!(rows[0].cells[1].column, "Type");
        },
        _ => panic!("expected a field table"),
    }
    // the short row lacks its Description column, so decoding it fails
    let r = parse_types(&blocks);
    assert!(matches!(r, Err(ParseError::MissingColumn { column }) if column == "Description"));
}

#[test]
fn extra_cells_are_dropped() {
    let doc = page(vec![
        el("h4", "User", vec![]),
        el("p", "A user.", vec![]),
        table(
            Some("table"),
            vec!["Field", "Type", "Description"],
            vec![vec!["id", "Integer", "x", "spurious"]],
        ),
    ]);
    let blocks = extract_blocks(&doc).unwrap();
    match &blocks[2] {
        Block::FieldTable { rows } => {
            assert_eq!(rows[0].cells.len(), 3);
        },
        _ => panic!("expected a field table"),
    }
}

#[test]
fn table_without_body_gives_a_fieldless_type() {
    let thead = el(
        "thead",
        "",
        vec![el("tr", "", vec![el("th", "Field", vec![])])],
    );
    let bare = DomNode {
        name: "table".to_string(),
        id: None,
        class: Some("table".to_string()),
        text: String::new(),
        children: vec![thead],
    };
    let doc = page(vec![el("h4", "User", vec![]), el("p", "A user.", vec![]), bare]);
    let (types, _) = parse_document(&doc).unwrap();
    assert_eq!(types.len(), 1);
    assert_eq!(types[0].fields.len(), 0);
}

#[test]
fn table_without_header_has_zero_columns() {
    let tbody = el(
        "tbody",
        "",
        vec![el("tr", "", vec![el("td", "id", vec![])])],
    );
    let bare = DomNode {
        name: "table".to_string(),
        id: None,
        class: Some("table".to_string()),
        text: String::new(),
        children: vec![tbody],
    };
    let doc = page(vec![el("h4", "User", vec![]), el("p", "A user.", vec![]), bare]);
    let blocks = extract_blocks(&doc).unwrap();
    match &blocks[2] {
        Block::FieldTable { rows } => {
            assert_eq!(rows.len(), 1);
            assert_eq!(rows[0].cells.len(), 0);
        },
        _ => panic!("expected a field table"),
    }
    // a row with no columns at all still lacks its Field column
    let r = parse_types(&blocks);
    assert!(matches!(r, Err(ParseError::MissingColumn { column }) if column == "Field"));
}

#[test]
fn cell_text_is_trimmed() {
    let doc = page(vec![
        el("h4", "User", vec![]),
        el("p", "A user.", vec![]),
        table(
            Some("table"),
            vec![" Field ", "Type", "Description"],
            vec![vec!["  id\n", " Integer ", "  x "]],
        ),
    ]);
    let (types, _) = parse_document(&doc).unwrap();
    let f = &types[0].fields[0];
    assert_eq!(f.name, "id");
    assert_eq!(f.ty, "i64");
    assert_eq!(f.description, "x");
}

use arq_lib::cell::{texts_of, Cell};
use arq_lib::prefix_map::PrefixMap;
use arq_lib::table::render;

#[test]
fn a_cell_is_shown_by_its_kind() {
    let registry = PrefixMap::from_str("PREFIX ex: <http://example.com/ns#>");
    let known = "<http://example.com/ns#Foo>";
    let unknown = "<http://other.org/Foo>";
    assert_eq!(Cell::Literal(known.to_string()).text(&registry), known);
    assert_eq!(Cell::Iri(known.to_string()).text(&registry), "ex:Foo");
    assert_eq!(Cell::Iri(unknown.to_string()).text(&registry), unknown);
    assert_eq!(Cell::Blank.text(&registry), "");
}

#[test]
fn rows_of_cells_become_rows_of_text() {
    let registry = PrefixMap::from_str("PREFIX ex: <http://example.com/ns#>");
    let rows = vec![
        vec![Cell::Iri("<http://example.com/ns#a>".to_string()), Cell::Literal("1".to_string())],
        vec![],
        vec![Cell::Blank],
    ];
    assert_eq!(
        texts_of(&registry, &rows),
        vec![vec!["ex:a".to_string(), "1".to_string()], vec![], vec!["".to_string()]]
    );
    assert_eq!(texts_of(&registry, &vec![]), Vec::<Vec<String>>::new());
}

#[test]
fn compacted_cells_render_aligned() {
    let mut registry = PrefixMap::new();
    registry.scan_and_add("PREFIX ex: <http://example.com/ns#>");
    let columns = vec!["s".to_string(), "name".to_string()];
    let rows = vec![
        vec![
            Cell::Iri("<http://example.com/ns#alice>".to_string()),
            Cell::Literal("Alice".to_string()),
        ],
        vec![Cell::Iri("<http://example.com/ns#bob>".to_string()), Cell::Blank],
    ];
    let lines = render(&columns, &texts_of(&registry, &rows)).unwrap();
    assert_eq!(
        lines,
        vec![
            "--------------------".to_string(),
            "| s        | name  |".to_string(),
            "====================".to_string(),
            "| ex:alice | Alice |".to_string(),
            "| ex:bob   |       |".to_string(),
            "--------------------".to_string(),
        ]
    );
}

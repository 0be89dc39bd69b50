use arq_lib::graph_format::{guess_graph_format, FormatError, GraphFormat};

#[test]
fn known_extensions_choose_their_format() {
    assert_eq!(guess_graph_format(Some("ttl")).unwrap(), GraphFormat::Turtle);
    assert_eq!(guess_graph_format(Some("nt")).unwrap(), GraphFormat::NTriples);
    assert_eq!(guess_graph_format(Some("rdf")).unwrap(), GraphFormat::RdfXml);
}

#[test]
fn a_missing_extension_is_unknown() {
    assert!(matches!(guess_graph_format(None), Err(FormatError::UnknownGraphFormat)));
}

#[test]
fn another_extension_is_unsupported() {
    for given in ["", "TTL", "ttl ", "xml", "nq", "rd"] {
        match guess_graph_format(Some(given)) {
            Err(FormatError::UnsupportedGraphFormat(refused)) => assert_eq!(refused, given),
            other => panic!("{:?}", other),
        }
    }
}

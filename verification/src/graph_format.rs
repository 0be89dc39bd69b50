//! Choosing a graph serialization from a file extension.

use vstd::prelude::*;
use crate::text::same_text;

verus! {

/// The graph serializations that can be loaded.
#[derive(Debug, Clone, Copy, PartialEq, Eq, Structural)]
pub enum GraphFormat {
    Turtle,
    NTriples,
    RdfXml,
}

/// Why no format could be chosen.
#[derive(Debug)]
pub enum FormatError {
    /// The file name has no extension.
    UnknownGraphFormat,
    /// The extension, given here, belongs to no known format.
    UnsupportedGraphFormat(String),
}

/// The registered file extension of each format.
pub open spec fn extension_of(format: GraphFormat) -> Seq<char> {
    match format {
        GraphFormat::Turtle => "ttl"@,
        GraphFormat::NTriples => "nt"@,
        GraphFormat::RdfXml => "rdf"@,
    }
}

/// Asks `oxigraph::io::GraphFormat::file_extension` for the extension of the
/// format that corresponds to `format`.
///
/// Trusted: the answer is the one [`extension_of`] lists, which is what
/// that function returns for each of its three variants.
#[verifier::external_body]
fn file_extension(format: GraphFormat) -> (extension: &'static str)
    ensures
        extension@ == extension_of(format),
{
    match format {
        GraphFormat::Turtle => oxigraph::io::GraphFormat::Turtle.file_extension(),
        GraphFormat::NTriples => oxigraph::io::GraphFormat::NTriples.file_extension(),
        GraphFormat::RdfXml => oxigraph::io::GraphFormat::RdfXml.file_extension(),
    }
}

/// The three extensions differ, so an extension names at most one format.
pub proof fn lemma_extensions_differ(a: GraphFormat, b: GraphFormat)
    requires
        extension_of(a) == extension_of(b),
    ensures
        a == b,
{
    reveal_strlit("ttl");
    reveal_strlit("nt");
    reveal_strlit("rdf");
    assert("ttl"@.len() == 3 && "ttl"@[0] == 't');
    assert("nt"@.len() == 2);
    assert("rdf"@.len() == 3 && "rdf"@[0] == 'r');
}

/// Chooses the format whose registered extension is `extension`.
pub fn guess_graph_format(extension: Option<&str>) -> (result: Result<GraphFormat, FormatError>)
    ensures
        match result {
            Ok(format) => extension matches Some(given) && given@ == extension_of(format),
            Err(FormatError::UnknownGraphFormat) => extension is None,
            Err(FormatError::UnsupportedGraphFormat(refused)) => {
                &&& extension matches Some(given)
                &&& refused@ == given@
                &&& forall|format: GraphFormat| extension_of(format) != given@
            },
        },
{
    match extension {
        None => Err(FormatError::UnknownGraphFormat),
        Some(given) => {
            if same_text(given, file_extension(GraphFormat::Turtle)) {
                Ok(GraphFormat::Turtle)
            } else if same_text(given, file_extension(GraphFormat::NTriples)) {
                Ok(GraphFormat::NTriples)
            } else if same_text(given, file_extension(GraphFormat::RdfXml)) {
                Ok(GraphFormat::RdfXml)
            } else {
                Err(FormatError::UnsupportedGraphFormat(given.to_owned()))
            }
        },
    }
}

} // verus!

//! Format dispatch: from the name of an output format to the rendered text.

use vstd::prelude::*;
use vstd::string::*;
use crate::model::{Config, ConfigView, extract, extract_spec};
use crate::render::{OutputFormat, document, render};

verus! {

/// Why no document was produced.
#[derive(Clone, Debug, PartialEq, Eq)]
pub enum GraphError {
    /// The requested output format is none of the supported ones.
    UnsupportedFormat { name: String },
}

/// The format that a name selects: `dot` or `mermaid`, spelled exactly so.
pub open spec fn format_named(name: Seq<char>) -> Option<OutputFormat> {
    if name == "dot"@ {
        Some(OutputFormat::Dot)
    } else if name == "mermaid"@ {
        Some(OutputFormat::Mermaid)
    } else {
        None
    }
}

/// The name that selects a format.
pub open spec fn name_of(format: OutputFormat) -> Seq<char> {
    match format {
        OutputFormat::Dot => "dot"@,
        OutputFormat::Mermaid => "mermaid"@,
    }
}

/// The two format names differ, so each selects its own format.
pub proof fn lemma_name_selects_format(format: OutputFormat)
    ensures
        format_named(name_of(format)) == Some(format),
{
    reveal_strlit("dot");
    reveal_strlit("mermaid");
    assert("dot"@.len() != "mermaid"@.len());
}

impl Default for OutputFormat {
    /// The format used when none is asked for.
    fn default() -> (format: OutputFormat)
        ensures
            format == OutputFormat::Dot,
    {
        OutputFormat::Dot
    }
}

impl OutputFormat {
    /// Selects the format that `name` stands for, and rejects every other name.
    pub fn from_name(name: &str) -> (r: Result<OutputFormat, GraphError>)
        ensures
            match r {
                Ok(format) => format_named(name@) == Some(format),
                Err(GraphError::UnsupportedFormat { name: rejected }) => {
                    &&& format_named(name@) is None
                    &&& rejected@ == name@
                },
            },
    {
        let given = String::from_str(name);
        if given == String::from_str("dot") {
            Ok(OutputFormat::Dot)
        } else if given == String::from_str("mermaid") {
            Ok(OutputFormat::Mermaid)
        } else {
            Err(GraphError::UnsupportedFormat { name: given })
        }
    }

    /// The name that selects this format.
    pub fn name(self) -> (name: &'static str)
        ensures
            name@ == name_of(self),
    {
        match self {
            OutputFormat::Dot => "dot",
            OutputFormat::Mermaid => "mermaid",
        }
    }
}

impl GraphError {
    /// A one-line description of the error.
    pub fn message(&self) -> (text: String)
        ensures
            match *self {
                GraphError::UnsupportedFormat { name } => text@
                    == "unsupported output format: "@ + name@,
            },
    {
        match self {
            GraphError::UnsupportedFormat { name } => {
                let mut text = String::from_str("unsupported output format: ");
                text.append(name.as_str());
                text
            },
        }
    }
}

/// What [`render_named`] returns for a format name and a configuration.
pub open spec fn render_named_spec(format_name: Seq<char>, config: ConfigView) -> Option<
    Seq<char>,
> {
    match format_named(format_name) {
        Some(format) => Some(document(format, extract_spec(config))),
        None => None,
    }
}

/// Renders the topology of `config` in the format that `format_name` selects.
///
/// `dot` gives the Graphviz document and `mermaid` the Mermaid one. Any other
/// name is an error that carries the name; no text is produced for it.
pub fn render_named(format_name: &str, config: Config) -> (r: Result<String, GraphError>)
    ensures
        match r {
            Ok(text) => render_named_spec(format_name@, config@) == Some(text@),
            Err(GraphError::UnsupportedFormat { name }) => {
                &&& render_named_spec(format_name@, config@) is None
                &&& name@ == format_name@
            },
        },
{
    match OutputFormat::from_name(format_name) {
        Ok(format) => {
            let graph = extract(&config);
            Ok(render(&graph, format))
        },
        Err(e) => Err(e),
    }
}

} // verus!

//! The errors of a run, each with the line that tells a person about it.
use vstd::prelude::*;
use vstd::string::*;

verus! {

/// Why a run of the pipeline failed.
#[derive(Debug, PartialEq, Eq)]
pub enum PipelineError {
    /// The template could not be read or parsed.
    TemplateParse { path: String, detail: String },
    /// The values could not be read from their source.
    ValuesRead { source: String, detail: String },
    /// The values text is not a configuration document.
    ValuesParse { detail: String },
    /// The values document is not a table at its top level.
    NotATable,
    /// The engine failed to render the template.
    Render { detail: String },
    /// The engine rendered, and had nothing to give.
    EmptyResult,
    /// The rendered text could not be written.
    OutputWrite { path: String, detail: String },
}

/// The mathematical value of a [`PipelineError`].
pub enum ErrorModel {
    TemplateParse { path: Seq<char>, detail: Seq<char> },
    ValuesRead { source: Seq<char>, detail: Seq<char> },
    ValuesParse { detail: Seq<char> },
    NotATable,
    Render { detail: Seq<char> },
    EmptyResult,
    OutputWrite { path: Seq<char>, detail: Seq<char> },
}

impl ErrorModel {
    /// The one line that tells a person what went wrong.
    pub open spec fn message(self) -> Seq<char> {
        match self {
            ErrorModel::TemplateParse { path, detail } => "Can't parse the template at "@ + path
                + ". "@ + detail,
            ErrorModel::ValuesRead { source, detail } => "Can't read values from "@ + source
                + ". "@ + detail,
            ErrorModel::ValuesParse { detail } => "Can't parse TOML values. "@ + detail,
            ErrorModel::NotATable => "Can't parse the top level item in the TOML file as table."@,
            ErrorModel::Render { detail } => "Can't render the template. "@ + detail,
            ErrorModel::EmptyResult => "Nothing to render"@,
            ErrorModel::OutputWrite { path, detail } => "Can't write to "@ + path + ". "@ + detail,
        }
    }
}

impl View for PipelineError {
    type V = ErrorModel;

    open spec fn view(&self) -> ErrorModel {
        match self {
            PipelineError::TemplateParse { path, detail } => ErrorModel::TemplateParse {
                path: path@,
                detail: detail@,
            },
            PipelineError::ValuesRead { source, detail } => ErrorModel::ValuesRead {
                source: source@,
                detail: detail@,
            },
            PipelineError::ValuesParse { detail } => ErrorModel::ValuesParse { detail: detail@ },
            PipelineError::NotATable => ErrorModel::NotATable,
            PipelineError::Render { detail } => ErrorModel::Render { detail: detail@ },
            PipelineError::EmptyResult => ErrorModel::EmptyResult,
            PipelineError::OutputWrite { path, detail } => ErrorModel::OutputWrite {
                path: path@,
                detail: detail@,
            },
        }
    }
}

/// `lead`, then `name`, a full stop and a space, then `detail`.
fn named_failure(lead: &str, name: &str, detail: &str) -> (line: String)
    ensures
        line@ == lead@ + name@ + ". "@ + detail@,
{
    let mut line = String::from_str(lead);
    line.append(name);
    line.append(". ");
    line.append(detail);
    line
}

impl PipelineError {
    /// The one line that tells a person what went wrong.
    pub fn message(&self) -> (line: String)
        ensures
            line@ == self@.message(),
    {
        match self {
            PipelineError::TemplateParse { path, detail } => named_failure(
                "Can't parse the template at ",
                path.as_str(),
                detail.as_str(),
            ),
            PipelineError::ValuesRead { source, detail } => named_failure(
                "Can't read values from ",
                source.as_str(),
                detail.as_str(),
            ),
            PipelineError::ValuesParse { detail } => String::from_str(
                "Can't parse TOML values. ",
            ).concat(detail.as_str()),
            PipelineError::NotATable => String::from_str(
                "Can't parse the top level item in the TOML file as table.",
            ),
            PipelineError::Render { detail } => String::from_str(
                "Can't render the template. ",
            ).concat(detail.as_str()),
            PipelineError::EmptyResult => String::from_str("Nothing to render"),
            PipelineError::OutputWrite { path, detail } => named_failure(
                "Can't write to ",
                path.as_str(),
                detail.as_str(),
            ),
        }
    }
}

} // verus!

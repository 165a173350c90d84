//! The options of a run: where the template, the values and the output are.
use vstd::prelude::*;
use vstd::string::*;

verus! {

/// What the command line asks for.
#[derive(Debug, Clone, Copy, PartialEq, Eq)]
pub struct CmdOptions<'a> {
    /// The path of the template file.
    pub template_path: &'a str,
    /// The path of the values file; without one the values come from standard input.
    pub values_path: Option<&'a str>,
    /// The path of the output file; without one the output goes to standard output.
    pub output_path: Option<&'a str>,
}

/// The mathematical value of [`CmdOptions`].
pub struct OptionsModel {
    pub template_path: Seq<char>,
    pub values_path: Option<Seq<char>>,
    pub output_path: Option<Seq<char>>,
}

/// The characters of a text that may be absent.
pub open spec fn text_of(text: Option<&str>) -> Option<Seq<char>> {
    match text {
        Some(t) => Some(t@),
        None => None,
    }
}

impl<'a> View for CmdOptions<'a> {
    type V = OptionsModel;

    open spec fn view(&self) -> OptionsModel {
        OptionsModel {
            template_path: self.template_path@,
            values_path: text_of(self.values_path),
            output_path: text_of(self.output_path),
        }
    }
}

impl OptionsModel {
    /// The name of the values source: its path, or `stdin`.
    pub open spec fn values_source(self) -> Seq<char> {
        match self.values_path {
            Some(path) => path,
            None => "stdin"@,
        }
    }

    /// The name of the output sink: its path, or `stdout`.
    pub open spec fn output_sink(self) -> Seq<char> {
        match self.output_path {
            Some(path) => path,
            None => "stdout"@,
        }
    }
}

/// Puts the command line's arguments together.  The template is required:
/// without it there are no options, and the error says so.
pub fn parse_options<'a>(
    template: Option<&'a str>,
    values: Option<&'a str>,
    output: Option<&'a str>,
) -> (options: Result<CmdOptions<'a>, String>)
    ensures
        match template {
            Some(path) => options matches Ok(o) && o@ == (OptionsModel {
                template_path: path@,
                values_path: text_of(values),
                output_path: text_of(output),
            }),
            None => options matches Err(line) && line@ == "Can't get template"@,
        },
{
    match template {
        Some(template_path) => Ok(
            CmdOptions { template_path, values_path: values, output_path: output },
        ),
        None => Err(String::from_str("Can't get template")),
    }
}

} // verus!

//! The pipeline: from a template and a values source to rendered text.
//!
//! The pipeline itself reads no file and calls no template engine.  Whoever
//! runs it does that outside work and reports each result as an event;
//! [`parse_and_render`] answers each event with the next thing to do.  A run
//! starts with [`PipelineEvent::Started`] and ends with
//! [`PipelineAction::Finish`].
use crate::context::{bound, build, ConversionError, RenderContext};
use crate::document::{ConfigDocument, DocumentModel};
use crate::error::{ErrorModel, PipelineError};
use crate::options::{text_of, CmdOptions, OptionsModel};
use crate::reader::{read_document, toml_reading};
use crate::value::ValueModel;
use vstd::prelude::*;
use vstd::string::*;

verus! {

/// The rendering context of a reading of the values text, or why there is none.
pub open spec fn values_outcome(reading: Result<DocumentModel, Seq<char>>) -> Result<
    Map<Seq<char>, ValueModel>,
    ErrorModel,
> {
    match reading {
        Err(complaint) => Err(ErrorModel::ValuesParse { detail: complaint }),
        Ok(DocumentModel::Table(entries)) => Ok(bound(entries)),
        Ok(_) => Err(ErrorModel::NotATable),
    }
}

/// The mathematical value of a context or the error in its place.
pub open spec fn context_result_model(result: Result<RenderContext, PipelineError>) -> Result<
    Map<Seq<char>, ValueModel>,
    ErrorModel,
> {
    match result {
        Ok(context) => Ok(context@),
        Err(error) => Err(error@),
    }
}

/// The mathematical value of a reading of the values text.
pub open spec fn reading_model(reading: Result<ConfigDocument, String>) -> Result<
    DocumentModel,
    Seq<char>,
> {
    match reading {
        Ok(doc) => Ok(doc@),
        Err(complaint) => Err(complaint@),
    }
}

/// Builds the rendering context from a reading of the values text.
///
/// A complaint of the parser becomes the failure to parse the values; a
/// document that is not a table is refused; a table gives its context.
pub fn values_context(reading: Result<ConfigDocument, String>) -> (result: Result<
    RenderContext,
    PipelineError,
>)
    ensures
        context_result_model(result) == values_outcome(reading_model(reading)),
{
    match reading {
        Err(detail) => Err(PipelineError::ValuesParse { detail }),
        Ok(doc) => match build(&doc) {
            Ok(context) => Ok(context),
            Err(ConversionError::NotATable) => Err(PipelineError::NotATable),
        },
    }
}

/// Parses the values text and builds the rendering context from it.
pub fn parse_values(text: &str) -> (result: Result<RenderContext, PipelineError>)
    ensures
        context_result_model(result) == values_outcome(toml_reading(text@)),
{
    values_context(read_document(text))
}

/// What the engine's answer to a rendering amounts to: the text, or the failure.
pub open spec fn render_outcome(outcome: Result<Option<Seq<char>>, Seq<char>>) -> Result<
    Seq<char>,
    ErrorModel,
> {
    match outcome {
        Err(detail) => Err(ErrorModel::Render { detail }),
        Ok(None) => Err(ErrorModel::EmptyResult),
        Ok(Some(text)) => Ok(text),
    }
}

/// Judges the engine's answer to a rendering.
///
/// The rendered text is handed on as it is.  An engine that failed gives its
/// diagnostic; one that succeeded with nothing to give is a failure too.
pub fn render(outcome: Result<Option<String>, String>) -> (result: Result<String, PipelineError>)
    ensures
        match render_outcome(rendering_model(outcome)) {
            Ok(text) => result matches Ok(rendered) && rendered@ == text,
            Err(error) => result matches Err(e) && e@ == error,
        },
{
    match outcome {
        Err(detail) => Err(PipelineError::Render { detail }),
        Ok(None) => Err(PipelineError::EmptyResult),
        Ok(Some(text)) => Ok(text),
    }
}

/// The mathematical value of the engine's answer to a rendering.
pub open spec fn rendering_model(outcome: Result<Option<String>, String>) -> Result<
    Option<Seq<char>>,
    Seq<char>,
> {
    match outcome {
        Ok(Some(text)) => Ok(Some(text@)),
        Ok(None) => Ok(None),
        Err(detail) => Err(detail@),
    }
}

/// What happened outside the pipeline.
#[derive(Debug, PartialEq, Eq)]
pub enum PipelineEvent {
    /// The run begins.
    Started,
    /// The engine read and parsed the template file, or says why it could not.
    TemplateParsed(Result<(), String>),
    /// The values text was read from its source, or the reading failed.
    ValuesRead(Result<String, String>),
    /// The engine rendered the template against the context.
    Rendered(Result<Option<String>, String>),
    /// The rendered text was written to its sink, or the writing failed.
    Written(Result<(), String>),
}

/// The mathematical value of a [`PipelineEvent`].
pub enum EventModel {
    Started,
    TemplateParsed(Result<(), Seq<char>>),
    ValuesRead(Result<Seq<char>, Seq<char>>),
    Rendered(Result<Option<Seq<char>>, Seq<char>>),
    Written(Result<(), Seq<char>>),
}

impl View for PipelineEvent {
    type V = EventModel;

    open spec fn view(&self) -> EventModel {
        match self {
            PipelineEvent::Started => EventModel::Started,
            PipelineEvent::TemplateParsed(Ok(_)) => EventModel::TemplateParsed(Ok(())),
            PipelineEvent::TemplateParsed(Err(detail)) => EventModel::TemplateParsed(
                Err(detail@),
            ),
            PipelineEvent::ValuesRead(Ok(text)) => EventModel::ValuesRead(Ok(text@)),
            PipelineEvent::ValuesRead(Err(detail)) => EventModel::ValuesRead(Err(detail@)),
            PipelineEvent::Rendered(outcome) => EventModel::Rendered(rendering_model(*outcome)),
            PipelineEvent::Written(Ok(_)) => EventModel::Written(Ok(())),
            PipelineEvent::Written(Err(detail)) => EventModel::Written(Err(detail@)),
        }
    }
}

/// What is to be done outside the pipeline next.
#[derive(Debug)]
pub enum PipelineAction {
    /// Have the engine read and parse the template file at `path`.
    ParseTemplate { path: String },
    /// Read the values text: from the file at `source`, or all of standard input.
    ReadValues { source: Option<String> },
    /// Have the engine render the template against `context`.
    Render { context: RenderContext },
    /// Write `text` as it is: to the file at `sink`, or to standard output.
    Write { sink: Option<String>, text: String },
    /// Stop: the run succeeded, or failed with the error given.
    Finish(Result<(), PipelineError>),
}

/// The mathematical value of a [`PipelineAction`].
pub enum ActionModel {
    ParseTemplate { path: Seq<char> },
    ReadValues { source: Option<Seq<char>> },
    Render { context: Map<Seq<char>, ValueModel> },
    Write { sink: Option<Seq<char>>, text: Seq<char> },
    Finish(Result<(), ErrorModel>),
}

/// The characters of an owned text that may be absent.
pub open spec fn owned_text_of(text: Option<String>) -> Option<Seq<char>> {
    match text {
        Some(t) => Some(t@),
        None => None,
    }
}

impl View for PipelineAction {
    type V = ActionModel;

    open spec fn view(&self) -> ActionModel {
        match self {
            PipelineAction::ParseTemplate { path } => ActionModel::ParseTemplate { path: path@ },
            PipelineAction::ReadValues { source } => ActionModel::ReadValues {
                source: owned_text_of(*source),
            },
            PipelineAction::Render { context } => ActionModel::Render { context: context@ },
            PipelineAction::Write { sink, text } => ActionModel::Write {
                sink: owned_text_of(*sink),
                text: text@,
            },
            PipelineAction::Finish(Ok(_)) => ActionModel::Finish(Ok(())),
            PipelineAction::Finish(Err(error)) => ActionModel::Finish(Err(error@)),
        }
    }
}

/// The pipeline's answer to an event.
///
/// The stages follow one another and none is tried twice: the template is
/// parsed, the values are read, parsed and built into a context, the
/// template is rendered, and the text is written.  The first failure ends
/// the run with its error.
pub open spec fn next_action(options: OptionsModel, event: EventModel) -> ActionModel {
    match event {
        EventModel::Started => ActionModel::ParseTemplate { path: options.template_path },
        EventModel::TemplateParsed(Ok(_)) => ActionModel::ReadValues {
            source: options.values_path,
        },
        EventModel::TemplateParsed(Err(detail)) => ActionModel::Finish(
            Err(ErrorModel::TemplateParse { path: options.template_path, detail }),
        ),
        EventModel::ValuesRead(Ok(text)) => match values_outcome(toml_reading(text)) {
            Ok(context) => ActionModel::Render { context },
            Err(error) => ActionModel::Finish(Err(error)),
        },
        EventModel::ValuesRead(Err(detail)) => ActionModel::Finish(
            Err(ErrorModel::ValuesRead { source: options.values_source(), detail }),
        ),
        EventModel::Rendered(outcome) => match render_outcome(outcome) {
            Ok(text) => ActionModel::Write { sink: options.output_path, text },
            Err(error) => ActionModel::Finish(Err(error)),
        },
        EventModel::Written(Ok(_)) => ActionModel::Finish(Ok(())),
        EventModel::Written(Err(detail)) => ActionModel::Finish(
            Err(ErrorModel::OutputWrite { path: options.output_sink(), detail }),
        ),
    }
}

/// An owned copy of a text that may be absent.
fn owned(text: Option<&str>) -> (copy: Option<String>)
    ensures
        owned_text_of(copy) == text_of(text),
{
    match text {
        Some(t) => Some(t.to_owned()),
        None => None,
    }
}

/// Answers an event of a run with the next thing to do.
pub fn parse_and_render(cmd_opts: &CmdOptions, event: PipelineEvent) -> (action: PipelineAction)
    ensures
        action@ == next_action(cmd_opts@, event@),
{
    match event {
        PipelineEvent::Started => PipelineAction::ParseTemplate {
            path: cmd_opts.template_path.to_owned(),
        },
        PipelineEvent::TemplateParsed(Ok(_)) => PipelineAction::ReadValues {
            source: owned(cmd_opts.values_path),
        },
        PipelineEvent::TemplateParsed(Err(detail)) => PipelineAction::Finish(
            Err(PipelineError::TemplateParse { path: cmd_opts.template_path.to_owned(), detail }),
        ),
        PipelineEvent::ValuesRead(Ok(text)) => match parse_values(text.as_str()) {
            Ok(context) => PipelineAction::Render { context },
            Err(error) => PipelineAction::Finish(Err(error)),
        },
        PipelineEvent::ValuesRead(Err(detail)) => {
            let source = match cmd_opts.values_path {
                Some(path) => path.to_owned(),
                None => String::from_str("stdin"),
            };
            PipelineAction::Finish(Err(PipelineError::ValuesRead { source, detail }))
        },
        PipelineEvent::Rendered(outcome) => match render(outcome) {
            Ok(text) => PipelineAction::Write { sink: owned(cmd_opts.output_path), text },
            Err(error) => PipelineAction::Finish(Err(error)),
        },
        PipelineEvent::Written(Ok(_)) => PipelineAction::Finish(Ok(())),
        PipelineEvent::Written(Err(detail)) => {
            let path = match cmd_opts.output_path {
                Some(path) => path.to_owned(),
                None => String::from_str("stdout"),
            };
            PipelineAction::Finish(Err(PipelineError::OutputWrite { path, detail }))
        },
    }
}

/// What the world outside answers in the course of one run.
pub struct Answers {
    /// The engine's verdict on the template file.
    pub template: Result<(), Seq<char>>,
    /// The values text, or why it could not be read.
    pub values: Result<Seq<char>, Seq<char>>,
    /// The engine's answer to a rendering against a context.
    pub rendering: spec_fn(Map<Seq<char>, ValueModel>) -> Result<Option<Seq<char>>, Seq<char>>,
    /// What comes of writing a text to the sink.
    pub writing: spec_fn(Seq<char>) -> Result<(), Seq<char>>,
}

impl Answers {
    /// The event that answers an action.  Nothing answers the end of a run:
    /// for it this gives the event that begins one.
    pub open spec fn to(self, action: ActionModel) -> EventModel {
        match action {
            ActionModel::ParseTemplate { .. } => EventModel::TemplateParsed(self.template),
            ActionModel::ReadValues { .. } => EventModel::ValuesRead(self.values),
            ActionModel::Render { context } => EventModel::Rendered((self.rendering)(context)),
            ActionModel::Write { text, .. } => EventModel::Written((self.writing)(text)),
            ActionModel::Finish(_) => EventModel::Started,
        }
    }
}

/// The action that a run has come to after `steps` answers: each action is
/// answered with its event, and the event with the next action, until the
/// run finishes.
pub open spec fn action_after(options: OptionsModel, answers: Answers, steps: nat) -> ActionModel
    decreases steps,
{
    if steps == 0 {
        next_action(options, EventModel::Started)
    } else {
        let before = action_after(options, answers, (steps - 1) as nat);
        if before is Finish {
            before
        } else {
            next_action(options, answers.to(before))
        }
    }
}

/// What a run comes to, stage by stage: the first stage that fails gives the
/// error, and a run in which none fails succeeds.
pub open spec fn run_result(options: OptionsModel, answers: Answers) -> Result<(), ErrorModel> {
    match answers.template {
        Err(detail) => Err(ErrorModel::TemplateParse { path: options.template_path, detail }),
        Ok(_) => match answers.values {
            Err(detail) => Err(
                ErrorModel::ValuesRead { source: options.values_source(), detail },
            ),
            Ok(values) => match values_outcome(toml_reading(values)) {
                Err(error) => Err(error),
                Ok(context) => match render_outcome((answers.rendering)(context)) {
                    Err(error) => Err(error),
                    Ok(text) => match (answers.writing)(text) {
                        Err(detail) => Err(
                            ErrorModel::OutputWrite { path: options.output_sink(), detail },
                        ),
                        Ok(_) => Ok(()),
                    },
                },
            },
        },
    }
}

/// A run goes through its stages once, in their order, and finishes after
/// four answers at the latest, with the result that the stages give.  It
/// writes only what the engine rendered, to the sink that the options name,
/// and only after every earlier stage has succeeded.
pub proof fn lemma_run_follows_the_stages(options: OptionsModel, answers: Answers)
    ensures
        action_after(options, answers, 4) == ActionModel::Finish(run_result(options, answers)),
        forall|steps: nat|
            steps >= 4 ==> #[trigger] action_after(options, answers, steps) == action_after(
                options,
                answers,
                4,
            ),
        forall|steps: nat|
            #[trigger] action_after(options, answers, steps) is Write ==> {
                &&& steps == 3
                &&& answers.template is Ok
                &&& answers.values matches Ok(values)
                &&& values_outcome(toml_reading(values)) matches Ok(context)
                &&& (answers.rendering)(context) matches Ok(Some(text))
                &&& action_after(options, answers, steps) == (ActionModel::Write {
                    sink: options.output_path,
                    text,
                })
            },
{
    reveal_with_fuel(action_after, 5);
    assert forall|steps: nat| steps >= 4 implies #[trigger] action_after(options, answers, steps)
        == action_after(options, answers, 4) by {
        lemma_run_stays_finished(options, answers, steps);
    }
    assert forall|steps: nat| #[trigger]
        action_after(options, answers, steps) is Write implies steps == 3 by {
        if steps >= 4 {
            lemma_run_stays_finished(options, answers, steps);
        }
    }
}

/// A run that has finished stays as it is.
proof fn lemma_run_stays_finished(options: OptionsModel, answers: Answers, steps: nat)
    requires
        steps >= 4,
    ensures
        action_after(options, answers, steps) == action_after(options, answers, 4),
        action_after(options, answers, 4) is Finish,
    decreases steps,
{
    reveal_with_fuel(action_after, 5);
    if steps > 4 {
        lemma_run_stays_finished(options, answers, (steps - 1) as nat);
    }
}

} // verus!

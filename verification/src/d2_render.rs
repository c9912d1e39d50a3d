//! Renders D2 diagrams with the `d2` command line tool, which has to be installed already.
//!
//! Running the tool is left to the caller. This module finds the tool, gives its arguments, and
//! decides after each step of the run how the run goes on or what it ends with.

use crate::paths::{
    as_path, optional_path_bytes, path_bytes, path_from, search_executable, search_may_end,
};
use crate::text::{
    clone_strings, decimal, law_texts, law_trimmed_end, push_text, texts, to_decimal, trim_end,
    trimmed_end, white_space,
};
use std::path::{Path, PathBuf};
use vstd::prelude::*;
use vstd::utf8::{decode_utf8, encode_utf8, valid_utf8};

verus! {

#[verifier::external_type_specification]
#[verifier::external_body]
pub struct ExFromUtf8Error(std::string::FromUtf8Error);

/// The bytes that were not valid UTF-8, which `FromUtf8Error::as_bytes` shows.
pub uninterp spec fn refused_bytes(error: std::string::FromUtf8Error) -> Seq<u8>;

/// `String::from_utf8` accepts exactly the bytes that are valid UTF-8, and decodes them. An error
/// holds the bytes that were refused.
pub assume_specification[ String::from_utf8 ](vec: Vec<u8>) -> (r: Result<
    String,
    std::string::FromUtf8Error,
>)
    ensures
        r is Ok <==> valid_utf8(vec@),
        r matches Ok(text) ==> text@ == decode_utf8(vec@),
        r matches Err(error) ==> refused_bytes(error) == vec@,
;

/// What `String::from_utf8_lossy` makes of bytes that are not valid UTF-8.
pub uninterp spec fn replaced_utf8(bytes: Seq<u8>) -> Seq<char>;

/// The text of `bytes`, with what is not UTF-8 replaced.
pub open spec fn lossy_utf8(bytes: Seq<u8>) -> Seq<char> {
    if valid_utf8(bytes) {
        decode_utf8(bytes)
    } else {
        replaced_utf8(bytes)
    }
}

/// `String::from_utf8_lossy`: valid UTF-8 is decoded as it is; what stands in for anything else
/// has only a name here.
#[verifier::external_body]
fn from_utf8_lossy(bytes: &Vec<u8>) -> (r: String)
    ensures
        r@ == if valid_utf8(bytes@) {
            decode_utf8(bytes@)
        } else {
            replaced_utf8(bytes@)
        },
{
    String::from_utf8_lossy(bytes).into_owned()
}

/// The name that a search looks for: the configured path, or else the name that the `d2` binary
/// is published under.
pub open spec fn searched_name(configured_path: Option<&Path>) -> Seq<u8> {
    match configured_path {
        Some(path) => path_bytes(path),
        None => encode_utf8("d2"@),
    }
}

/// Locates the `d2` binary to render with: `configured_path` when the user set one, otherwise
/// `d2` from `PATH`. `None` means that D2 isn't installed, in which case diagrams are left as
/// ordinary code blocks.
///
/// This touches the file system, so callers should keep the result rather than ask again for each
/// diagram. Whether there is a result, and which, the file system decides.
pub fn locate(configured_path: Option<&Path>) -> (r: Option<PathBuf>)
    ensures
        search_may_end(searched_name(configured_path), optional_path_bytes(r)),
{
    match configured_path {
        Some(path) => search_executable(path),
        None => {
            let name = path_from("d2".to_owned());
            search_executable(as_path(&name))
        },
    }
}

/// Without a configured path, and with the path `d2`, the same name is looked for, so what either
/// search may end with the other may.
pub proof fn law_unconfigured_is_d2(path: &Path, found: Option<Seq<u8>>)
    requires
        path_bytes(path) == encode_utf8("d2"@),
    ensures
        searched_name(None) == searched_name(Some(path)),
        search_may_end(searched_name(None), found) == search_may_end(
            searched_name(Some(path)),
            found,
        ),
{
}

/// D2's built-in Neutral Default light theme.
pub const LIGHT_THEME: u32 = 0;

/// D2's built-in Dark Mauve theme.
pub const DARK_THEME: u32 = 200;

/// The built-in D2 theme for a light or a dark editor theme.
pub fn theme_for(is_light: bool) -> (theme: u32)
    ensures
        theme == if is_light {
            0u32
        } else {
            200u32
        },
{
    if is_light {
        LIGHT_THEME
    } else {
        DARK_THEME
    }
}

/// The arguments of a run of `d2`: the configured ones, the theme, and two `-`, which make `d2`
/// read the diagram from its input and write the SVG to its output.
pub open spec fn run_arguments(arguments: Seq<Seq<char>>, theme_id: u32) -> Seq<Seq<char>> {
    arguments + seq!["--theme="@ + decimal(theme_id as nat), "-"@, "-"@]
}

/// The arguments to run `d2` with.
pub fn render_arguments(arguments: &Vec<String>, theme_id: u32) -> (r: Vec<String>)
    ensures
        texts(r@) == run_arguments(texts(arguments@), theme_id),
        r.len() == arguments.len() + 3,
        forall|i: int| 0 <= i < arguments.len() ==> #[trigger] r@[i]@ == arguments@[i]@,
        r@[arguments.len() as int]@ == "--theme="@ + decimal(theme_id as nat),
        r@[arguments.len() + 1]@ == "-"@,
        r@[arguments.len() + 2]@ == "-"@,
{
    let mut all = clone_strings(arguments);
    let number = to_decimal(theme_id as u64);
    let theme = "--theme=".to_owned().concat(number.as_str());
    push_text(&mut all, theme);
    push_text(&mut all, "-".to_owned());
    push_text(&mut all, "-".to_owned());
    assert(texts(all@) =~= run_arguments(texts(arguments@), theme_id));
    proof {
        let ghost n = arguments@.len() as int;
        law_texts(all@);
        law_texts(arguments@);
        assert forall|i: int| 0 <= i < n implies #[trigger] all@[i]@ == arguments@[i]@ by {
            assert(texts(all@)[i] == texts(arguments@)[i]);
        }
        assert(texts(all@)[n] == all@[n]@);
        assert(texts(all@)[n + 1] == all@[n + 1]@);
        assert(texts(all@)[n + 2] == all@[n + 2]@);
    }
    all
}

/// What a run of `d2` left behind.
#[derive(Debug)]
pub struct ProcessOutput {
    /// Whether the run ended in success.
    pub success: bool,
    /// How the run ended, in words.
    pub status: String,
    pub stdout: Vec<u8>,
    pub stderr: Vec<u8>,
}

/// The step of a run that is under way.
#[derive(Clone, Copy, Debug, PartialEq, Eq, Structural)]
pub enum RenderStage {
    /// Starting the process with its three standard streams piped.
    Spawn,
    /// Writing the diagram to the process.
    Write,
    /// Flushing what was written.
    Flush,
    /// Closing the input and waiting for the process to end.
    Wait,
}

/// How a step of a run came out.
#[derive(Debug)]
pub enum RenderEvent {
    Spawned { stdin_piped: bool },
    SpawnFailed { binary: String, reason: String },
    Written,
    WriteFailed { reason: String },
    Flushed,
    FlushFailed { reason: String },
    Exited { output: ProcessOutput },
    WaitFailed { reason: String },
}

/// Why a diagram could not be rendered.
#[derive(Debug)]
pub enum D2RenderError {
    Spawn { binary: String, reason: String },
    StdinNotPiped,
    Write { reason: String },
    Flush { reason: String },
    Wait { reason: String },
    Exit { status: String, stderr: String },
    InvalidUtf8 { error: std::string::FromUtf8Error },
}

/// Why a diagram could not be rendered, over texts.
pub enum RenderFailure {
    Spawn { binary: Seq<char>, reason: Seq<char> },
    StdinNotPiped,
    Write { reason: Seq<char> },
    Flush { reason: Seq<char> },
    Wait { reason: Seq<char> },
    Exit { status: Seq<char>, stderr: Seq<char> },
    InvalidUtf8 { bytes: Seq<u8> },
}

impl View for D2RenderError {
    type V = RenderFailure;

    open spec fn view(&self) -> RenderFailure {
        match *self {
            D2RenderError::Spawn { binary, reason } => RenderFailure::Spawn {
                binary: binary@,
                reason: reason@,
            },
            D2RenderError::StdinNotPiped => RenderFailure::StdinNotPiped,
            D2RenderError::Write { reason } => RenderFailure::Write { reason: reason@ },
            D2RenderError::Flush { reason } => RenderFailure::Flush { reason: reason@ },
            D2RenderError::Wait { reason } => RenderFailure::Wait { reason: reason@ },
            D2RenderError::Exit { status, stderr } => RenderFailure::Exit {
                status: status@,
                stderr: stderr@,
            },
            D2RenderError::InvalidUtf8 { error } => RenderFailure::InvalidUtf8 {
                bytes: refused_bytes(error),
            },
        }
    }
}

/// What a failure says of itself.
pub open spec fn failure_message(failure: RenderFailure) -> Seq<char> {
    match failure {
        RenderFailure::Spawn { binary, reason } => "failed to spawn `"@ + binary + "`"@,
        RenderFailure::StdinNotPiped => "D2 stdin was not piped"@,
        RenderFailure::Write { reason } => reason,
        RenderFailure::Flush { reason } => reason,
        RenderFailure::Wait { reason } => "failed while waiting for the D2 renderer"@,
        RenderFailure::Exit { status, stderr } => "D2 rendering exited with "@ + status + ": "@
            + stderr,
        RenderFailure::InvalidUtf8 { bytes } => "D2 SVG output contains invalid UTF-8"@,
    }
}

impl D2RenderError {
    /// What went wrong, in words.
    pub fn message(&self) -> (r: String)
        ensures
            r@ == failure_message(self@),
            r@ == match *self {
                D2RenderError::Spawn { binary, reason: _ } => "failed to spawn `"@ + binary@
                    + "`"@,
                D2RenderError::StdinNotPiped => "D2 stdin was not piped"@,
                D2RenderError::Write { reason } => reason@,
                D2RenderError::Flush { reason } => reason@,
                D2RenderError::Wait { reason: _ } => "failed while waiting for the D2 renderer"@,
                D2RenderError::Exit { status, stderr } => "D2 rendering exited with "@ + status@
                    + ": "@ + stderr@,
                D2RenderError::InvalidUtf8 { error: _ } => "D2 SVG output contains invalid UTF-8"@,
            },
    {
        match self {
            D2RenderError::Spawn { binary, reason: _ } => "failed to spawn `".to_owned().concat(
                binary.as_str(),
            ).concat("`"),
            D2RenderError::StdinNotPiped => "D2 stdin was not piped".to_owned(),
            D2RenderError::Write { reason } => reason.clone(),
            D2RenderError::Flush { reason } => reason.clone(),
            D2RenderError::Wait { reason: _ } => {
                "failed while waiting for the D2 renderer".to_owned()
            },
            D2RenderError::Exit { status, stderr } => "D2 rendering exited with ".to_owned().concat(
                status.as_str(),
            ).concat(": ").concat(stderr.as_str()),
            D2RenderError::InvalidUtf8 { error: _ } => {
                "D2 SVG output contains invalid UTF-8".to_owned()
            },
        }
    }
}

/// What to do after a step of a run.
#[derive(Debug)]
pub enum RenderStep {
    /// Go on with the next step.
    Continue(RenderStage),
    /// End the run: with the SVG document, or with what went wrong.
    Finish(Result<String, D2RenderError>),
}

/// What to do after a step of a run, over texts.
pub enum RenderStepView {
    Continue(RenderStage),
    Svg(Seq<char>),
    Failed(RenderFailure),
}

impl View for RenderStep {
    type V = RenderStepView;

    open spec fn view(&self) -> RenderStepView {
        match *self {
            RenderStep::Continue(stage) => RenderStepView::Continue(stage),
            RenderStep::Finish(Ok(svg)) => RenderStepView::Svg(svg@),
            RenderStep::Finish(Err(error)) => RenderStepView::Failed(error@),
        }
    }
}

/// What a run ends with once the process has ended.
pub open spec fn finished(output: ProcessOutput) -> RenderStepView {
    if !output.success {
        RenderStepView::Failed(
            RenderFailure::Exit {
                status: output.status@,
                stderr: trimmed_end(lossy_utf8(output.stderr@)),
            },
        )
    } else if valid_utf8(output.stdout@) {
        RenderStepView::Svg(decode_utf8(output.stdout@))
    } else {
        RenderStepView::Failed(RenderFailure::InvalidUtf8 { bytes: output.stdout@ })
    }
}

/// How a run goes on once a step has come out as `event` says.
pub open spec fn advanced(event: RenderEvent) -> RenderStepView {
    match event {
        RenderEvent::Spawned { stdin_piped } => if stdin_piped {
            RenderStepView::Continue(RenderStage::Write)
        } else {
            RenderStepView::Failed(RenderFailure::StdinNotPiped)
        },
        RenderEvent::SpawnFailed { binary, reason } => RenderStepView::Failed(
            RenderFailure::Spawn { binary: binary@, reason: reason@ },
        ),
        RenderEvent::Written => RenderStepView::Continue(RenderStage::Flush),
        RenderEvent::WriteFailed { reason } => RenderStepView::Failed(
            RenderFailure::Write { reason: reason@ },
        ),
        RenderEvent::Flushed => RenderStepView::Continue(RenderStage::Wait),
        RenderEvent::FlushFailed { reason } => RenderStepView::Failed(
            RenderFailure::Flush { reason: reason@ },
        ),
        RenderEvent::Exited { output } => finished(output),
        RenderEvent::WaitFailed { reason } => RenderStepView::Failed(
            RenderFailure::Wait { reason: reason@ },
        ),
    }
}

/// A run yields a document only when the process has ended in success, and the document is then
/// byte for byte what the process wrote.
pub proof fn law_document_is_what_was_written(event: RenderEvent)
    requires
        advanced(event) is Svg,
    ensures
        event matches RenderEvent::Exited { output } && output.success && encode_utf8(
            advanced(event)->Svg_0,
        ) == output.stdout@,
{
    vstd::utf8::decode_utf8_encode_utf8(event->output.stdout@);
}

/// The steps of a run that fails nowhere: start, write, flush, wait, and then the end of the run.
pub proof fn law_steps_in_order(output: ProcessOutput)
    ensures
        advanced(RenderEvent::Spawned { stdin_piped: true }) == RenderStepView::Continue(
            RenderStage::Write,
        ),
        advanced(RenderEvent::Written) == RenderStepView::Continue(RenderStage::Flush),
        advanced(RenderEvent::Flushed) == RenderStepView::Continue(RenderStage::Wait),
        !(advanced(RenderEvent::Exited { output }) is Continue),
{
}

/// A step that fails ends the run without a document: a process that cannot be started, written to
/// or waited for, or one that does not end in success.
pub proof fn law_failure_ends_run(event: RenderEvent)
    requires
        event is SpawnFailed || event is WriteFailed || event is FlushFailed || event is WaitFailed
            || (event matches RenderEvent::Spawned { stdin_piped } && !stdin_piped) || (
        event matches RenderEvent::Exited { output } && !output.success),
    ensures
        advanced(event) is Failed,
{
}

/// Whether a run has failed is told by its exit status alone: a run that ends in success and
/// prints a text gives this text, whatever else it printed and whatever the status says in words.
pub proof fn law_success_gives_the_document(output: ProcessOutput, svg: Seq<char>)
    requires
        output.success,
        output.stdout@ == encode_utf8(svg),
    ensures
        advanced(RenderEvent::Exited { output }) == RenderStepView::Svg(svg),
{
    vstd::utf8::encode_utf8_valid_utf8(svg);
    vstd::utf8::encode_utf8_decode_utf8(svg);
}

/// A run that ends in success but prints what is not text fails for that, with what it printed.
pub proof fn law_success_without_text(output: ProcessOutput)
    requires
        output.success,
        !valid_utf8(output.stdout@),
    ensures
        advanced(RenderEvent::Exited { output }) == RenderStepView::Failed(
            RenderFailure::InvalidUtf8 { bytes: output.stdout@ },
        ),
{
}

/// A run that does not end in success fails, whatever it printed, with its status and with what it
/// wrote to standard error, if that is text: all of it but for white space at the end.
pub proof fn law_failed_run_tells_why(output: ProcessOutput, message: Seq<char>)
    requires
        !output.success,
        output.stderr@ == encode_utf8(message),
    ensures
        exists|end: int|
            0 <= end <= message.len() && advanced(RenderEvent::Exited { output })
                == RenderStepView::Failed(
                RenderFailure::Exit {
                    status: output.status@,
                    stderr: #[trigger] message.take(end),
                },
            ) && (forall|i: int| end <= i < message.len() ==> white_space(#[trigger] message[i]))
                && (end > 0 ==> !white_space(message[end - 1])),
{
    vstd::utf8::encode_utf8_valid_utf8(message);
    vstd::utf8::encode_utf8_decode_utf8(message);
    law_trimmed_end(message);
}

/// The same where what it wrote to standard error is not text: that is replaced as
/// `String::from_utf8_lossy` does.
pub proof fn law_failed_run_without_text(output: ProcessOutput)
    requires
        !output.success,
        !valid_utf8(output.stderr@),
    ensures
        advanced(RenderEvent::Exited { output }) == RenderStepView::Failed(
            RenderFailure::Exit {
                status: output.status@,
                stderr: trimmed_end(replaced_utf8(output.stderr@)),
            },
        ),
{
}

/// A step that fails hands its reason on.
pub proof fn law_reasons_are_handed_on(binary: String, reason: String)
    ensures
        advanced(RenderEvent::SpawnFailed { binary, reason }) == RenderStepView::Failed(
            RenderFailure::Spawn { binary: binary@, reason: reason@ },
        ),
        advanced(RenderEvent::WriteFailed { reason }) == RenderStepView::Failed(
            RenderFailure::Write { reason: reason@ },
        ),
        advanced(RenderEvent::FlushFailed { reason }) == RenderStepView::Failed(
            RenderFailure::Flush { reason: reason@ },
        ),
        advanced(RenderEvent::WaitFailed { reason }) == RenderStepView::Failed(
            RenderFailure::Wait { reason: reason@ },
        ),
        advanced(RenderEvent::Spawned { stdin_piped: false }) == RenderStepView::Failed(
            RenderFailure::StdinNotPiped,
        ),
{
}

/// The configured arguments come first and unchanged, then the theme by its number, then the two
/// `-` that stand for the input and the output.
pub proof fn law_run_arguments(arguments: Seq<Seq<char>>, theme_id: u32)
    ensures
        ({
            let all = run_arguments(arguments, theme_id);
            let n = arguments.len() as int;
            &&& all.len() == n + 3
            &&& all.take(n) == arguments
            &&& all[n] == "--theme="@ + decimal(theme_id as nat)
            &&& all[n + 1] == "-"@
            &&& all[n + 2] == "-"@
        }),
{
    assert(run_arguments(arguments, theme_id).take(arguments.len() as int) =~= arguments);
}

/// The name that is looked for is the configured path, or `d2` where none is configured.
pub proof fn law_searched_name(path: &Path)
    ensures
        searched_name(Some(path)) == path_bytes(path),
        searched_name(None) == encode_utf8("d2"@),
{
}

/// The document that a run printed, or why there is none.
pub fn rendered_document(output: ProcessOutput) -> (r: Result<String, D2RenderError>)
    ensures
        RenderStep::Finish(r)@ == finished(output),
        output.success && valid_utf8(output.stdout@) ==> (r matches Ok(svg) && svg@ == decode_utf8(
            output.stdout@,
        )),
        output.success && !valid_utf8(output.stdout@) ==> (r matches Err(
            D2RenderError::InvalidUtf8 { error },
        ) && refused_bytes(error) == output.stdout@),
        !output.success ==> (r matches Err(D2RenderError::Exit { status, stderr }) && status@
            == output.status@ && stderr@ == trimmed_end(
            if valid_utf8(output.stderr@) {
                decode_utf8(output.stderr@)
            } else {
                replaced_utf8(output.stderr@)
            },
        )),
{
    if !output.success {
        let stderr = from_utf8_lossy(&output.stderr);
        return Err(
            D2RenderError::Exit {
                status: output.status,
                stderr: trim_end(stderr.as_str()).to_owned(),
            },
        );
    }
    match String::from_utf8(output.stdout) {
        Ok(svg) => Ok(svg),
        Err(error) => Err(D2RenderError::InvalidUtf8 { error }),
    }
}

/// Decides how a run goes on after a step came out as `event`. A run starts with
/// [`RenderStage::Spawn`].
pub fn advance(event: RenderEvent) -> (step: RenderStep)
    ensures
        step@ == advanced(event),
        event matches RenderEvent::Spawned { stdin_piped } && stdin_piped ==> step
            == RenderStep::Continue(RenderStage::Write),
        event matches RenderEvent::Spawned { stdin_piped } && !stdin_piped ==> step
            == RenderStep::Finish(Err(D2RenderError::StdinNotPiped)),
        event is Written ==> step == RenderStep::Continue(RenderStage::Flush),
        event is Flushed ==> step == RenderStep::Continue(RenderStage::Wait),
        event matches RenderEvent::SpawnFailed { binary, reason } ==> step == RenderStep::Finish(
            Err(D2RenderError::Spawn { binary, reason }),
        ),
        event matches RenderEvent::WriteFailed { reason } ==> step == RenderStep::Finish(
            Err(D2RenderError::Write { reason }),
        ),
        event matches RenderEvent::FlushFailed { reason } ==> step == RenderStep::Finish(
            Err(D2RenderError::Flush { reason }),
        ),
        event matches RenderEvent::WaitFailed { reason } ==> step == RenderStep::Finish(
            Err(D2RenderError::Wait { reason }),
        ),
        event matches RenderEvent::Exited { output } ==> (output.success && valid_utf8(
            output.stdout@,
        ) ==> (step matches RenderStep::Finish(Ok(svg)) && svg@ == decode_utf8(output.stdout@))),
        event matches RenderEvent::Exited { output } ==> (output.success && !valid_utf8(
            output.stdout@,
        ) ==> (step matches RenderStep::Finish(Err(D2RenderError::InvalidUtf8 { error }))
            && refused_bytes(error) == output.stdout@)),
        event matches RenderEvent::Exited { output } ==> (!output.success ==> (
        step matches RenderStep::Finish(Err(D2RenderError::Exit { status, stderr })) && status@
            == output.status@ && stderr@ == trimmed_end(
            if valid_utf8(output.stderr@) {
                decode_utf8(output.stderr@)
            } else {
                replaced_utf8(output.stderr@)
            },
        ))),
{
    match event {
        RenderEvent::Spawned { stdin_piped } => if stdin_piped {
            RenderStep::Continue(RenderStage::Write)
        } else {
            RenderStep::Finish(Err(D2RenderError::StdinNotPiped))
        },
        RenderEvent::SpawnFailed { binary, reason } => RenderStep::Finish(
            Err(D2RenderError::Spawn { binary, reason }),
        ),
        RenderEvent::Written => RenderStep::Continue(RenderStage::Flush),
        RenderEvent::WriteFailed { reason } => RenderStep::Finish(
            Err(D2RenderError::Write { reason }),
        ),
        RenderEvent::Flushed => RenderStep::Continue(RenderStage::Wait),
        RenderEvent::FlushFailed { reason } => RenderStep::Finish(
            Err(D2RenderError::Flush { reason }),
        ),
        RenderEvent::Exited { output } => RenderStep::Finish(rendered_document(output)),
        RenderEvent::WaitFailed { reason } => RenderStep::Finish(Err(D2RenderError::Wait { reason })),
    }
}

} // verus!

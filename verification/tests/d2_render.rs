use diagram_preview::d2_render::{
    advance, locate, render_arguments, rendered_document, theme_for, D2RenderError, ProcessOutput,
    RenderEvent, RenderStage, RenderStep,
};
use std::path::Path;

fn text(s: &str) -> String {
    s.to_string()
}

fn output(success: bool, stdout: &[u8], stderr: &[u8]) -> ProcessOutput {
    ProcessOutput {
        success,
        status: text(if success { "exit status: 0" } else { "exit status: 1" }),
        stdout: stdout.to_vec(),
        stderr: stderr.to_vec(),
    }
}

fn failure(event: RenderEvent) -> String {
    match advance(event) {
        RenderStep::Finish(Err(error)) => error.message(),
        _ => panic!("the run should have failed"),
    }
}

#[test]
fn locates_only_binaries_that_exist() {
    assert!(locate(Some(Path::new("/bin/sh"))).is_some());
    assert!(locate(Some(Path::new("/nonexistent/d2"))).is_none());
}

#[test]
fn absolute_path_is_located_where_it_is() {
    assert_eq!(
        locate(Some(Path::new("/bin/sh"))).as_deref(),
        Some(Path::new("/bin/sh"))
    );
}

#[test]
fn name_is_looked_for_on_the_path() {
    let found = locate(Some(Path::new("sh"))).expect("a shell should be installed");
    assert!(found.is_absolute());
    assert_eq!(found.file_name(), Some("sh".as_ref()));
    let unconfigured = locate(None);
    assert_eq!(unconfigured, which::which("d2").ok());
    assert_eq!(unconfigured, locate(Some(Path::new("d2"))));
}

#[test]
fn themes_for_light_and_dark() {
    assert_eq!(theme_for(true), 0);
    assert_eq!(theme_for(false), 200);
}

#[test]
fn arguments_end_with_theme_and_streams() {
    assert_eq!(render_arguments(&vec![], 0), ["--theme=0", "-", "-"]);
    assert_eq!(
        render_arguments(&vec![text("--layout=elk"), text("--pad=5")], 200),
        ["--layout=elk", "--pad=5", "--theme=200", "-", "-"]
    );
}

#[test]
fn successful_run_goes_through_its_steps() {
    let mut stages = vec![RenderStage::Spawn];
    let events = [
        RenderEvent::Spawned { stdin_piped: true },
        RenderEvent::Written,
        RenderEvent::Flushed,
    ];
    for event in events {
        match advance(event) {
            RenderStep::Continue(stage) => stages.push(stage),
            RenderStep::Finish(_) => panic!("the run ended early"),
        }
    }
    assert_eq!(
        stages,
        [RenderStage::Spawn, RenderStage::Write, RenderStage::Flush, RenderStage::Wait]
    );
    let svg = "<svg>\u{6771}\u{4eac} caf\u{e9} \u{1f980}</svg>";
    match advance(RenderEvent::Exited { output: output(true, svg.as_bytes(), b"warning") }) {
        RenderStep::Finish(Ok(document)) => assert_eq!(document, svg),
        _ => panic!("the run should have given a document"),
    }
}

#[test]
fn failing_steps_end_the_run() {
    assert_eq!(
        failure(RenderEvent::SpawnFailed { binary: text("/opt/d2"), reason: text("no such file") }),
        "failed to spawn `/opt/d2`"
    );
    assert_eq!(
        failure(RenderEvent::Spawned { stdin_piped: false }),
        "D2 stdin was not piped"
    );
    assert_eq!(failure(RenderEvent::WriteFailed { reason: text("broken pipe") }), "broken pipe");
    assert_eq!(failure(RenderEvent::FlushFailed { reason: text("disk full") }), "disk full");
    assert_eq!(
        failure(RenderEvent::WaitFailed { reason: text("interrupted") }),
        "failed while waiting for the D2 renderer"
    );
}

#[test]
fn unsuccessful_exit_tells_what_was_printed() {
    assert_eq!(
        failure(RenderEvent::Exited { output: output(false, b"<svg/>", b"err: no x \n\n") }),
        "D2 rendering exited with exit status: 1: err: no x"
    );
    let lossy = rendered_document(output(false, b"", b"bad \xff byte\n"));
    match lossy {
        Err(D2RenderError::Exit { status, stderr }) => {
            assert_eq!(status, "exit status: 1");
            assert_eq!(stderr, "bad \u{fffd} byte");
        }
        _ => panic!("the run should have failed"),
    }
}

#[test]
fn document_has_to_be_utf8() {
    let result = rendered_document(output(true, b"<svg>\xff</svg>", b""));
    match result {
        Err(error) => {
            match &error {
                D2RenderError::InvalidUtf8 { error } => {
                    assert_eq!(error.as_bytes(), b"<svg>\xff</svg>");
                }
                _ => panic!("the bytes are the reason"),
            }
            assert_eq!(error.message(), "D2 SVG output contains invalid UTF-8");
        }
        Ok(_) => panic!("the document should have been refused"),
    }
    assert_eq!(rendered_document(output(true, b"", b"")).ok().as_deref(), Some(""));
}

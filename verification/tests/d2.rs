use diagram_preview::cache::{
    picture_of, CachedD2Diagram, D2DiagramCache, DiagramError, RenderImage,
};
use diagram_preview::d2::{D2State, UpdateOutcome};
use diagram_preview::d2_render::D2RenderError;
use diagram_preview::d2_view::d2_presentation;
use diagram_preview::markdown::{ParsedMarkdown, ParsedMarkdownD2Diagram};
use diagram_preview::paths::same_bytes;
use diagram_preview::settings::{
    D2Settings, D2SettingsContent, MarkdownPreviewSettingsContent, SettingsContent,
};
use std::collections::BTreeMap;
use std::path::PathBuf;

fn sequence(diagrams: &[&str]) -> Vec<String> {
    diagrams.iter().map(|diagram| diagram.to_string()).collect()
}

fn image(id: u64) -> RenderImage {
    RenderImage { id }
}

fn cached(
    render_image: Option<Result<RenderImage, DiagramError>>,
    fallback_image: Option<RenderImage>,
) -> CachedD2Diagram {
    CachedD2Diagram { render_image, fallback_image }
}

fn raster_failure(reason: &str) -> DiagramError {
    DiagramError::Raster { reason: reason.to_string() }
}

fn document(diagrams: &[&str]) -> ParsedMarkdown {
    let mut d2_diagrams = BTreeMap::new();
    for (index, contents) in diagrams.iter().enumerate() {
        d2_diagrams.insert(
            index * 100,
            ParsedMarkdownD2Diagram { content_range: 0..0, contents: contents.to_string() },
        );
    }
    ParsedMarkdown { d2_diagrams }
}

fn settings(path: Option<&str>, arguments: &[&str]) -> D2Settings {
    D2Settings { path: path.map(PathBuf::from), arguments: sequence(arguments) }
}

fn update(state: &mut D2State, diagrams: &[&str]) -> UpdateOutcome {
    let binary = Some(PathBuf::from("/opt/d2"));
    state.update_with_binary(&document(diagrams), &settings(None, &["--pad=5"]), binary, true)
}

fn started(outcome: &UpdateOutcome) -> Vec<&str> {
    outcome.started.iter().map(|job| job.contents.as_str()).collect()
}

fn dropped(outcome: &UpdateOutcome) -> Vec<u64> {
    let mut ids: Vec<u64> = outcome.dropped.iter().map(|image| image.id).collect();
    ids.sort();
    ids
}

fn fallback(state: &D2State, contents: &str) -> Option<u64> {
    let diagram = state.cache.get(contents).expect("diagram should be cached");
    diagram.fallback_image.map(|image| image.id)
}

#[test]
fn uses_previous_image_at_the_same_position_after_an_edit() {
    let old_order = sequence(&["a -> b", "b -> c"]);
    let new_order = sequence(&["a -> b", "b -> changed"]);
    let previous_image = image(7);
    let mut cache = D2DiagramCache::new();
    cache.insert("b -> c".to_string(), cached(Some(Ok(previous_image)), None));

    let fallback = D2State::get_fallback_image(1, &old_order, new_order.len(), &cache);

    assert_eq!(fallback.map(|image| image.id), Some(previous_image.id));
}

#[test]
fn carries_previous_fallback_across_rapid_edits() {
    let old_order = sequence(&["a -> first edit"]);
    let new_order = sequence(&["a -> second edit"]);
    let original_image = image(7);
    let mut cache = D2DiagramCache::new();
    cache.insert("a -> first edit".to_string(), cached(None, Some(original_image)));

    let fallback = D2State::get_fallback_image(0, &old_order, new_order.len(), &cache);

    assert_eq!(fallback.map(|image| image.id), Some(original_image.id));
}

#[test]
fn cached_image_replaces_source_in_preview() {
    let image = image(7);
    let cached = cached(Some(Ok(image)), None);

    let (rendered_image, show_tabs) = d2_presentation(false, Some(&cached));

    assert_eq!(rendered_image.map(|image| image.id), Some(image.id));
    assert!(show_tabs);
}

#[test]
fn failed_render_shows_source_without_tabs() {
    let cached = cached(Some(Err(raster_failure("injected D2 render failure"))), None);

    let (rendered_image, show_tabs) = d2_presentation(false, Some(&cached));

    assert!(rendered_image.is_none());
    assert!(!show_tabs);
}

#[test]
fn reads_the_configured_d2_binary() {
    let mut content = SettingsContent::default();
    content.markdown_preview = Some(MarkdownPreviewSettingsContent {
        d2: Some(D2SettingsContent {
            path: Some("/usr/local/bin/d2".into()),
            arguments: Some(vec!["--layout=elk".into()]),
        }),
    });

    let settings = D2Settings::from_settings(&content);

    assert_eq!(
        settings.path.as_deref(),
        Some(std::path::Path::new("/usr/local/bin/d2"))
    );
    assert_eq!(settings.arguments, ["--layout=elk"]);
}

#[test]
fn settings_that_say_nothing_are_the_default() {
    let nothing = D2Settings::default();
    assert_eq!(nothing.path, None);
    assert!(nothing.arguments.is_empty());

    let mut content = SettingsContent::default();
    assert_eq!(D2Settings::from_settings(&content), nothing);
    content.markdown_preview = Some(MarkdownPreviewSettingsContent { d2: None });
    assert_eq!(D2Settings::from_settings(&content), nothing);
    content.markdown_preview =
        Some(MarkdownPreviewSettingsContent { d2: Some(D2SettingsContent::default()) });
    assert_eq!(D2Settings::from_settings(&content), nothing);
    content.markdown_preview = Some(MarkdownPreviewSettingsContent {
        d2: Some(D2SettingsContent { path: Some("x/d2".into()), arguments: None }),
    });
    assert_eq!(D2Settings::from_settings(&content), settings(Some("x/d2"), &[]));
}

#[test]
fn settings_are_compared_by_path_and_arguments() {
    let one = settings(Some("/opt/d2"), &["-a", "-b"]);
    assert!(one.same(&one.clone()));
    assert!(one.same(&settings(Some("/opt//d2"), &["-a", "-b"])));
    assert!(!one.same(&settings(Some("/opt/d3"), &["-a", "-b"])));
    assert!(!one.same(&settings(None, &["-a", "-b"])));
    assert!(!settings(None, &[]).same(&settings(Some("d2"), &[])));
    assert!(!one.same(&settings(Some("/opt/d2"), &["-b", "-a"])));
    assert!(settings(None, &[]).same(&D2Settings::default()));
}

#[test]
fn fallback_needs_the_same_number_of_diagrams() {
    let order = sequence(&["a", "b"]);
    let mut cache = D2DiagramCache::new();
    cache.insert("a".to_string(), cached(Some(Ok(image(1))), Some(image(2))));
    cache.insert("b".to_string(), cached(Some(Err(raster_failure("x"))), Some(image(3))));

    assert_eq!(D2State::get_fallback_image(0, &order, 2, &cache), Some(image(1)));
    assert_eq!(D2State::get_fallback_image(1, &order, 2, &cache), Some(image(3)));
    assert_eq!(D2State::get_fallback_image(2, &order, 2, &cache), None);
    assert_eq!(D2State::get_fallback_image(0, &order, 1, &cache), None);
    assert_eq!(D2State::get_fallback_image(0, &order, 3, &cache), None);
    assert_eq!(D2State::get_fallback_image(0, &sequence(&["z", "b"]), 2, &cache), None);
}

#[test]
fn update_renders_each_new_text_once() {
    let mut state = D2State::default();
    let outcome = update(&mut state, &["a", "b", "a"]);

    assert_eq!(started(&outcome), ["a", "b"]);
    assert!(outcome.dropped.is_empty());
    let job = &outcome.started[0];
    assert_eq!(job.binary, PathBuf::from("/opt/d2"));
    assert_eq!(job.arguments, ["--pad=5"]);
    assert_eq!(job.theme, 0);
    assert_eq!(state.order, ["a", "b", "a"]);
    assert!(state.is_available());
    assert!(state.binary_resolved);
    assert_eq!(fallback(&state, "a"), None);
    assert!(state.cache.get("c").is_none());
}

#[test]
fn update_takes_the_dark_theme() {
    let mut state = D2State::default();
    let outcome = state.update_with_binary(
        &document(&["a"]),
        &D2Settings::default(),
        Some(PathBuf::from("d2")),
        false,
    );
    assert_eq!(outcome.started[0].theme, 200);
}

#[test]
fn second_update_does_nothing() {
    let mut state = D2State::default();
    update(&mut state, &["a", "b"]);
    state.finish_render("a", Ok(image(1)));
    let outcome = update(&mut state, &["a", "b"]);

    assert!(outcome.started.is_empty());
    assert!(outcome.dropped.is_empty());
    assert_eq!(state.cache.get("a").and_then(|diagram| diagram.ready()), Some(image(1)));
}

#[test]
fn edited_diagram_keeps_the_picture_until_it_is_rendered() {
    let mut state = D2State::default();
    update(&mut state, &["a", "b"]);
    state.finish_render("a", Ok(image(1)));
    state.finish_render("b", Ok(image(2)));

    let outcome = update(&mut state, &["a", "c"]);
    assert_eq!(started(&outcome), ["c"]);
    assert!(outcome.dropped.is_empty());
    assert_eq!(fallback(&state, "c"), Some(2));

    let outcome = update(&mut state, &["a", "d"]);
    assert_eq!(started(&outcome), ["d"]);
    assert!(outcome.dropped.is_empty());
    assert_eq!(fallback(&state, "d"), Some(2));

    let completion = state.finish_render("d", Ok(image(3))).expect("diagram should be cached");
    assert!(completion.stored);
    assert_eq!(completion.dropped, Some(image(2)));
    assert_eq!(d2_presentation(false, state.cache.get("d")), (Some(image(3)), true));
}

#[test]
fn pictures_are_dropped_with_the_last_diagram_that_holds_them() {
    let mut state = D2State::default();
    update(&mut state, &["a", "b"]);
    state.finish_render("a", Ok(image(1)));
    state.finish_render("b", Ok(image(2)));
    update(&mut state, &["a", "c"]);
    state.finish_render("c", Ok(image(3)));

    let outcome = update(&mut state, &["a"]);
    assert_eq!(dropped(&outcome), [2, 3]);
    assert!(outcome.started.is_empty());

    let outcome = update(&mut state, &["x", "y"]);
    assert_eq!(dropped(&outcome), [1]);
    assert_eq!(fallback(&state, "x"), None);
    assert_eq!(fallback(&state, "y"), None);
}

#[test]
fn shared_picture_outlives_one_of_its_diagrams() {
    let mut state = D2State::default();
    update(&mut state, &["a", "a"]);
    state.finish_render("a", Ok(image(1)));
    update(&mut state, &["b", "c"]);
    assert_eq!(fallback(&state, "b"), Some(1));
    assert_eq!(fallback(&state, "c"), Some(1));

    let outcome = update(&mut state, &["b"]);
    assert!(outcome.dropped.is_empty());
    let outcome = update(&mut state, &[]);
    assert_eq!(dropped(&outcome), [1]);
}

#[test]
fn without_a_binary_there_are_no_diagrams() {
    let mut state = D2State::default();
    update(&mut state, &["a"]);
    state.finish_render("a", Ok(image(1)));
    let outcome = state.update_with_binary(&document(&["a"]), &settings(None, &[]), None, true);

    assert!(outcome.started.is_empty());
    assert_eq!(dropped(&outcome), [1]);
    assert!(!state.is_available());
    assert!(state.binary_resolved);
    assert!(state.cache.is_empty());
    assert!(state.order.is_empty());
    assert!(!state.settings_are_stale(&settings(None, &["-x"])));
}

#[test]
fn clear_drops_every_picture_once() {
    let mut state = D2State::default();
    update(&mut state, &["a", "b"]);
    state.finish_render("a", Ok(image(1)));
    state.finish_render("b", Ok(image(2)));
    update(&mut state, &["c", "b"]);
    state.finish_render("c", Ok(image(3)));
    assert_eq!(fallback(&state, "c"), Some(1));

    let mut ids: Vec<u64> = state.clear().iter().map(|image| image.id).collect();
    ids.sort();
    assert_eq!(ids, [1, 2, 3]);
    assert!(state.cache.is_empty());
    assert!(state.order.is_empty());
    assert!(state.is_available());
    assert!(state.clear().is_empty());
}

#[test]
fn settings_are_stale_only_with_diagrams() {
    let mut state = D2State::default();
    let other = settings(None, &["--pad=6"]);
    assert!(!state.settings_are_stale(&other));
    update(&mut state, &["a"]);
    assert!(state.settings_are_stale(&other));
    assert!(!state.settings_are_stale(&settings(None, &["--pad=5"])));
}

fn update_with(
    state: &mut D2State,
    diagrams: &[&str],
    arguments: &[&str],
    binary: &str,
) -> UpdateOutcome {
    let binary = Some(PathBuf::from(binary));
    state.update_with_binary(&document(diagrams), &settings(None, arguments), binary, true)
}

#[test]
fn diagrams_are_rendered_again_with_other_arguments() {
    let mut state = D2State::default();
    update_with(&mut state, &["a", "b", "a"], &["--pad=5"], "/opt/d2");
    state.finish_render("a", Ok(image(1)));
    state.finish_render("b", Ok(image(2)));

    let outcome = update_with(&mut state, &["a", "b", "a"], &["--pad=6"], "/opt/d2");
    assert_eq!(started(&outcome), ["a", "b"]);
    for job in &outcome.started {
        assert_eq!(job.arguments, ["--pad=6"]);
        assert_eq!(job.binary, PathBuf::from("/opt/d2"));
    }
    assert!(outcome.dropped.is_empty());
    assert_eq!(state.settings.arguments, ["--pad=6"]);
    for (contents, shown) in [("a", 1), ("b", 2)] {
        let diagram = state.cache.get(contents).expect("diagram should be cached");
        assert!(diagram.render_image.is_none());
        assert_eq!(diagram.fallback_image, Some(image(shown)));
    }

    let completion = state.finish_render("a", Ok(image(3))).expect("diagram is cached");
    assert!(completion.stored);
    assert_eq!(completion.dropped, Some(image(1)));
}

#[test]
fn diagrams_are_rendered_again_with_another_binary() {
    let mut state = D2State::default();
    update_with(&mut state, &["a"], &[], "/opt/d2");
    state.finish_render("a", Ok(image(1)));

    let outcome = update_with(&mut state, &["a"], &[], "/usr/bin/d2");
    assert_eq!(started(&outcome), ["a"]);
    assert_eq!(outcome.started[0].binary, PathBuf::from("/usr/bin/d2"));
    assert_eq!(state.binary, Some(PathBuf::from("/usr/bin/d2")));
    assert_eq!(fallback(&state, "a"), Some(1));

    let outcome = update_with(&mut state, &["a"], &[], "/usr/bin/d2");
    assert!(outcome.started.is_empty());
}

#[test]
fn outdated_pictures_are_dropped_when_nothing_shows_them() {
    let mut state = D2State::default();
    update_with(&mut state, &["a", "b"], &[], "/opt/d2");
    state.finish_render("a", Ok(image(1)));
    state.finish_render("b", Ok(image(2)));

    let outcome = update_with(&mut state, &["a"], &["--pad=6"], "/opt/d2");
    assert_eq!(started(&outcome), ["a"]);
    assert_eq!(dropped(&outcome), [1, 2]);
    assert_eq!(fallback(&state, "a"), None);
    assert!(state.cache.get("b").is_none());
}

#[test]
fn binary_is_needed_once_for_the_same_settings() {
    let mut state = D2State::default();
    assert!(state.needs_binary(&D2Settings::default()));
    update_with(&mut state, &["a"], &["--pad=5"], "/opt/d2");
    assert!(!state.needs_binary(&settings(None, &["--pad=5"])));
    assert!(state.needs_binary(&settings(None, &["--pad=6"])));
    assert!(state.needs_binary(&settings(Some("d2"), &["--pad=5"])));
}

#[test]
fn paths_are_compared_byte_by_byte() {
    let path = |text: &str| PathBuf::from(text);
    assert!(same_bytes(&path("/opt/d2"), &path("/opt/d2")));
    assert!(!same_bytes(&path("/opt/d2"), &path("/opt//d2")));
    assert!(!same_bytes(&path("/opt/d2"), &path("/opt/d3")));
}

#[test]
fn update_looks_for_the_binary_when_settings_change() {
    let mut state = D2State::default();
    let shell = settings(Some("/bin/sh"), &[]);
    let outcome = state.update(&document(&["a"]), &shell, true);
    assert_eq!(started(&outcome), ["a"]);
    assert_eq!(state.binary, Some(PathBuf::from("/bin/sh")));

    state.binary = Some(PathBuf::from("/elsewhere/d2"));
    let outcome = state.update(&document(&["a", "b"]), &shell, true);
    assert_eq!(started(&outcome), ["b"]);
    assert_eq!(outcome.started[0].binary, PathBuf::from("/elsewhere/d2"));

    let missing = settings(Some("/nonexistent/d2"), &[]);
    let outcome = state.update(&document(&["a", "b"]), &missing, true);
    assert!(outcome.started.is_empty());
    assert!(!state.is_available());
    assert_eq!(state.settings, missing);
}

#[test]
fn outcome_of_rendering_comes_once() {
    let mut state = D2State::default();
    update(&mut state, &["a"]);
    assert!(state.finish_render("b", Ok(image(9))).is_none());

    let first = state.finish_render("a", Err(raster_failure("x"))).expect("diagram is cached");
    assert!(first.stored);
    assert_eq!(first.dropped, None);
    let later = state.finish_render("a", Ok(image(2))).expect("diagram is cached");
    assert!(!later.stored);
    assert_eq!(d2_presentation(false, state.cache.get("a")), (None, false));
}

#[test]
fn cache_replaces_and_keeps() {
    let mut cache = D2DiagramCache::new();
    assert!(cache.is_empty());
    assert!(cache.insert("a".to_string(), CachedD2Diagram::new(None)).is_none());
    assert!(cache.insert("b".to_string(), CachedD2Diagram::new(Some(image(2)))).is_none());
    let replaced = cache.insert("a".to_string(), cached(Some(Ok(image(1))), None));
    assert!(replaced.expect("there was a diagram").render_image.is_none());
    assert!(!cache.is_empty());
    assert!(cache.contains_key("a") && cache.contains_key("b") && !cache.contains_key("c"));
    assert_eq!(cache.get("a").and_then(|diagram| diagram.lasting()), Some(image(1)));
    assert_eq!(cache.get("b").map(|diagram| diagram.images()), Some(vec![image(2)]));
    assert_eq!(cache.images_in(&sequence(&["b", "c"])), [image(2)]);

    let mut dropped = vec![image(5)];
    cache.retain_in(&sequence(&["b"]), &vec![image(2)], &mut dropped);
    assert_eq!(dropped, [image(5), image(1)]);
    assert!(!cache.contains_key("a") && cache.contains_key("b"));
}

#[test]
fn protected_pictures_are_not_dropped() {
    let diagram = cached(Some(Ok(image(1))), Some(image(2)));
    let mut dropped = vec![];
    diagram.drop_images(&vec![image(2)], &mut dropped);
    assert_eq!(dropped, [image(1)]);
    diagram.drop_images(&vec![], &mut dropped);
    assert_eq!(dropped, [image(1), image(2)]);
    cached(Some(Ok(image(3))), Some(image(3))).drop_images(&vec![], &mut dropped);
    assert_eq!(dropped, [image(1), image(2), image(3)]);
}

#[test]
fn outcome_of_a_superseded_job_does_not_count() {
    let mut state = D2State::default();
    let old = update_with(&mut state, &["a"], &["--pad=5"], "/opt/d2");
    let new = update_with(&mut state, &["a"], &["--pad=6"], "/opt/d2");

    assert!(state.finish_job(&old.started[0], Ok(image(1))).is_none());
    assert!(state.cache.get("a").is_some_and(|diagram| diagram.render_image.is_none()));
    let completion = state.finish_job(&new.started[0], Ok(image(2))).expect("it is awaited");
    assert!(completion.stored);
    assert_eq!(state.cache.get("a").and_then(|diagram| diagram.ready()), Some(image(2)));
    let again = state.finish_job(&new.started[0], Ok(image(3))).expect("it is awaited");
    assert!(!again.stored);

    let other = update_with(&mut state, &["a"], &["--pad=6"], "/usr/bin/d2");
    assert!(state.finish_job(&new.started[0], Ok(image(4))).is_none());
    let completion = state.finish_job(&other.started[0], Ok(image(5))).expect("it is awaited");
    assert_eq!(completion.dropped, Some(image(2)));

    update_with(&mut state, &["b"], &["--pad=6"], "/usr/bin/d2");
    assert!(state.finish_job(&other.started[0], Ok(image(6))).is_none());
    state.update_with_binary(&document(&["a"]), &settings(None, &["--pad=6"]), None, true);
    assert!(state.finish_job(&other.started[0], Ok(image(7))).is_none());
}

#[test]
fn outcomes_tell_what_went_wrong() {
    assert!(matches!(picture_of(Ok(Ok(image(1)))), Ok(RenderImage { id: 1 })));
    match picture_of(Ok(Err("no".to_string()))) {
        Err(DiagramError::Raster { reason }) => assert_eq!(reason, "no"),
        _ => panic!("there is no picture"),
    }
    let failed = picture_of(Err(D2RenderError::StdinNotPiped));
    assert!(matches!(failed, Err(DiagramError::Render(D2RenderError::StdinNotPiped))));
}

use edd::engine::{extract_loaded_image, inspect_outcome, load_image_plan, remove_outcome,
    split_repo_tag, stop_call_needed, stop_outcome, tag_outcome, InspectContainer,
    InspectContainerState, InspectContainerStateHealth, LoadImageResult};
use edd::Error;

fn load_result(stream: &str) -> LoadImageResult {
    LoadImageResult { stream: stream.to_string() }
}

#[test]
fn extract_finds_single_loaded_image() {
    let stream = "some progress\nLoaded image: myimg:v1\n";
    assert_eq!(extract_loaded_image(stream).unwrap(), "myimg:v1");
}

#[test]
fn extract_trims_surrounding_whitespace() {
    let stream = "  Loaded image: a:b \r\n";
    assert_eq!(extract_loaded_image(stream).unwrap(), "a:b");
}

#[test]
fn extract_trims_unicode_whitespace() {
    // trimming follows the Unicode white-space set: no-break space before,
    // vertical tab after
    let stream = "\u{A0}Loaded image: a:b\u{B}\n";
    assert_eq!(extract_loaded_image(stream).unwrap(), "a:b");
}

#[test]
fn extract_without_marker_is_protocol_error() {
    let stream = "pulling layer\nall done\n";
    assert_eq!(extract_loaded_image(stream).err(), Some(Error::Protocol));
}

#[test]
fn extract_empty_stream_is_protocol_error() {
    assert_eq!(extract_loaded_image("").err(), Some(Error::Protocol));
}

#[test]
fn extract_with_two_loaded_images_is_protocol_error() {
    let stream = "Loaded image: one:1\nLoaded image: two:2\n";
    assert_eq!(extract_loaded_image(stream).err(), Some(Error::Protocol));
}

#[test]
fn split_repo_tag_accepts_exactly_one_colon() {
    let (repo, tag) = split_repo_tag("ed_web:latest").unwrap();
    assert_eq!(repo, "ed_web");
    assert_eq!(tag, "latest");
}

#[test]
fn split_repo_tag_rejects_missing_or_extra_colons() {
    assert_eq!(split_repo_tag("ed_web").err(), Some(Error::Protocol));
    assert_eq!(split_repo_tag("a:b:c").err(), Some(Error::Protocol));
}

#[test]
fn scenario_load_without_marker_fails_before_tagging() {
    // the load response carries no "Loaded image:" line, so no tag request
    // is ever planned
    let r = load_image_plan(&load_result("{\"status\":\"ok\"}\n"), "ed_web:latest");
    assert_eq!(r.err(), Some(Error::Protocol));
    assert_eq!(Error::Protocol.status_code(), 500);
}

#[test]
fn load_image_plan_plans_the_retag() {
    let t = load_image_plan(&load_result("Loaded image: orig:1\n"), "ed_web:latest").unwrap();
    assert_eq!(t.loaded_image, "orig:1");
    assert_eq!(t.repo, "ed_web");
    assert_eq!(t.tag, "latest");
}

#[test]
fn stop_outcome_accepts_stopped_and_already_stopped() {
    assert!(stop_outcome(204).is_ok());
    assert!(stop_outcome(304).is_ok());
    assert_eq!(stop_outcome(500).err(), Some(Error::Protocol));
    assert_eq!(stop_outcome(404).err(), Some(Error::Protocol));
}

#[test]
fn remove_outcome_requires_no_content() {
    assert!(remove_outcome(204).is_ok());
    assert_eq!(remove_outcome(304).err(), Some(Error::Protocol));
}

#[test]
fn tag_outcome_requires_created() {
    assert!(tag_outcome(201).is_ok());
    assert_eq!(tag_outcome(409).err(), Some(Error::Protocol));
}

#[test]
fn inspect_outcome_maps_non_success_to_not_found() {
    assert!(inspect_outcome(200).is_ok());
    assert_eq!(inspect_outcome(404).err(), Some(Error::NotFound));
    assert_eq!(inspect_outcome(500).err(), Some(Error::NotFound));
}

#[test]
fn stop_is_skipped_when_already_not_running() {
    let stopped = InspectContainer {
        state: InspectContainerState { health: None, running: false },
    };
    let running = InspectContainer {
        state: InspectContainerState {
            health: Some(InspectContainerStateHealth { status: "healthy".to_string() }),
            running: true,
        },
    };
    assert!(!stop_call_needed(&stopped));
    assert!(stop_call_needed(&running));
}

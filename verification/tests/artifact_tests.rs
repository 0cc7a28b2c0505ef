//! Parsing and patching shell artifacts.

use pressure_kernel::artifact::{ArtifactError, ShellArtifact};
use pressure_kernel::region::{Patch, PatchOp};
use pressure_kernel::signals::Signals;

fn artifact_from(source: &str) -> ShellArtifact {
    ShellArtifact::from_source("test.sh".to_string(), source.as_bytes().to_vec()).unwrap()
}

fn replace_patch(region: u128, content: &[u8]) -> Patch {
    Patch {
        region,
        op: PatchOp::Replace(content.to_vec()),
        rationale: "edit".to_string(),
        expected_delta: Signals::new(),
    }
}

#[test]
fn test_parse_simple_function() {
    let source = "#!/bin/bash\n\ngreet() {\n    echo \"Hello, $1\"\n}\n\nfarewell() {\n    echo \"Goodbye, $1\"\n}\n";
    let artifact = artifact_from(source);
    assert_eq!(artifact.region_ids().len(), 2);
}

#[test]
fn test_parse_function_keyword() {
    let source = "#!/bin/bash\n\nfunction greet() {\n    echo \"Hello\"\n}\n";
    let artifact = artifact_from(source);
    assert_eq!(artifact.region_ids().len(), 1);
}

#[test]
fn region_ids_are_stable_across_reparse() {
    let source = "a() {\n :\n}\nb() {\n :\n}\n";
    let first = artifact_from(source);
    let second = artifact_from(source);
    assert_eq!(first.region_ids(), second.region_ids());
}

#[test]
fn read_region_returns_span_and_kind() {
    let source = "#!/bin/bash\ngreet() {\n    echo hi\n}\n";
    let artifact = artifact_from(source);
    let ids = artifact.region_ids();
    let view = artifact.read_region(ids[0]).unwrap();
    assert_eq!(view.id, ids[0]);
    assert_eq!(view.kind, "function");
    assert_eq!(
        String::from_utf8(view.content).unwrap(),
        "greet() {\n    echo hi\n}"
    );
    assert!(matches!(
        artifact.read_region(12345),
        Err(ArtifactError::RegionNotFound)
    ));
}

#[test]
fn identity_replace_keeps_regions_and_source() {
    let source = "#!/bin/bash\ngreet() {\n    echo hi\n}\nbye() {\n    echo bye\n}\n";
    let mut artifact = artifact_from(source);
    let ids = artifact.region_ids();
    let view = artifact.read_region(ids[0]).unwrap();
    let before_source = artifact.source().clone();
    artifact
        .apply_patch(&replace_patch(ids[0], &view.content))
        .unwrap();
    assert_eq!(artifact.source(), &before_source);
    assert_eq!(artifact.region_ids(), ids);
}

#[test]
fn replace_rewrites_the_span() {
    let source = "greet() {\n    echo hi\n}\nbye() {\n    echo bye\n}\n";
    let mut artifact = artifact_from(source);
    let ids = artifact.region_ids();
    artifact
        .apply_patch(&replace_patch(ids[0], b"greet() {\n    echo hello\n}"))
        .unwrap();
    let text = String::from_utf8(artifact.source().clone()).unwrap();
    assert!(text.contains("echo hello"));
    assert!(text.contains("echo bye"));
    // The untouched region keeps its identifier.
    assert!(artifact.region_ids().contains(&ids[1]));
}

#[test]
fn delete_removes_the_span() {
    let source = "greet() {\n    echo hi\n}\nbye() {\n    echo bye\n}\n";
    let mut artifact = artifact_from(source);
    let ids = artifact.region_ids();
    artifact
        .apply_patch(&Patch {
            region: ids[0],
            op: PatchOp::Delete,
            rationale: "drop".to_string(),
            expected_delta: Signals::new(),
        })
        .unwrap();
    assert_eq!(artifact.region_ids().len(), 1);
    assert_eq!(artifact.region_ids()[0], ids[1]);
}

#[test]
fn unknown_region_patch_is_refused_untouched() {
    let source = "greet() {\n    echo hi\n}\n";
    let mut artifact = artifact_from(source);
    let before = artifact.source().clone();
    let r = artifact.apply_patch(&replace_patch(424242, b"x"));
    assert!(matches!(r, Err(ArtifactError::RegionNotFound)));
    assert_eq!(artifact.source(), &before);
}

#[test]
fn unmatched_brace_fails_the_parse() {
    let r = ShellArtifact::from_source("bad.sh".to_string(), b"broken() {\n    echo hi\n".to_vec());
    assert!(matches!(r, Err(ArtifactError::UnmatchedBrace)));
}

#[test]
fn braces_inside_strings_are_ignored() {
    let source = "f() {\n    echo \"}\"\n    echo done\n}\n";
    let artifact = artifact_from(source);
    let ids = artifact.region_ids();
    assert_eq!(ids.len(), 1);
    let view = artifact.read_region(ids[0]).unwrap();
    assert!(String::from_utf8(view.content).unwrap().ends_with("}"));
}

//! Tests for the artifact publisher's search, planning, and fallback.

use my_dapp::publisher::{
    artifact_file_name, build_candidates, join_path, plan_for_locations, resulting_contents,
    sentinel_bytes, CandidateFile, DestAction, DestFile, FoundArtifact, PublishPlan, ValidityRule,
};

fn found(path: &str, content: Option<&str>) -> FoundArtifact {
    FoundArtifact {
        path: path.as_bytes().to_vec(),
        content: content.map(|c| c.as_bytes().to_vec()),
    }
}

fn dest(path: &str, existing: Option<&str>) -> DestFile {
    DestFile {
        path: path.as_bytes().to_vec(),
        existing: existing.map(|c| c.as_bytes().to_vec()),
    }
}

fn missing(path: &str) -> FoundArtifact {
    found(path, None)
}

/// Runs the whole publisher on the given locations and returns the plan
/// and the contents each destination holds afterwards.
fn publish(
    checked_in: &FoundArtifact,
    project_root: &FoundArtifact,
    dests: &Vec<DestFile>,
    scratch: &Vec<FoundArtifact>,
    nested: &Vec<FoundArtifact>,
) -> (PublishPlan, Vec<Option<Vec<u8>>>) {
    let (cands, plan) = plan_for_locations(checked_in, project_root, dests, scratch, nested);
    let contents = resulting_contents(&cands, dests, &plan);
    (plan, contents)
}

#[test]
fn checked_in_artifact_reaches_both_destinations() {
    let idl = "service Counter { add(u64) -> u64; }";
    let checked_in = found("proj/idl/my_dapp.idl", Some(idl));
    let project_root = missing("proj/my_dapp.idl");
    let dests = vec![
        dest("target/a/my_dapp.idl", None),
        dest("target/b/my_dapp.idl", None),
    ];
    let (plan, contents) = publish(&checked_in, &project_root, &dests, &vec![], &vec![]);

    assert!(!plan.warn);
    assert_eq!(plan.source, Some(0));
    assert_eq!(contents[0], Some(idl.as_bytes().to_vec()));
    assert_eq!(contents[1], Some(idl.as_bytes().to_vec()));
}

#[test]
fn checked_in_wins_over_project_root() {
    let checked_in = found("proj/idl/my_dapp.idl", Some("curated interface"));
    let project_root = found("proj/my_dapp.idl", Some("generated interface"));
    let dests = vec![dest("target/a/my_dapp.idl", None)];
    let (plan, contents) = publish(&checked_in, &project_root, &dests, &vec![], &vec![]);

    assert_eq!(plan.source, Some(0));
    assert_eq!(contents[0], Some(b"curated interface".to_vec()));
}

#[test]
fn checked_in_wins_over_invalid_lower_candidates() {
    let checked_in = found("proj/idl/my_dapp.idl", Some("real"));
    let project_root = found("proj/my_dapp.idl", Some("0x00"));
    let dests = vec![
        dest("target/a/my_dapp.idl", Some("")),
        dest("target/b/my_dapp.idl", Some("0x00")),
    ];
    let scratch = vec![found("out/junk.idl", Some("stale"))];
    let (plan, contents) = publish(&checked_in, &project_root, &dests, &scratch, &vec![]);

    assert_eq!(plan.source, Some(0));
    assert_eq!(contents[0], Some(b"real".to_vec()));
    assert_eq!(contents[1], Some(b"real".to_vec()));
}

#[test]
fn blank_checked_in_is_passed_over() {
    let checked_in = found("proj/idl/my_dapp.idl", Some(" \n\t "));
    let project_root = found("proj/my_dapp.idl", Some("generated interface"));
    let dests = vec![dest("target/a/my_dapp.idl", None)];
    let (plan, contents) = publish(&checked_in, &project_root, &dests, &vec![], &vec![]);

    assert_eq!(plan.source, Some(1));
    assert_eq!(contents[0], Some(b"generated interface".to_vec()));
}

#[test]
fn existing_destination_copy_is_adopted() {
    let checked_in = missing("proj/idl/my_dapp.idl");
    let project_root = missing("proj/my_dapp.idl");
    let dests = vec![
        dest("target/a/my_dapp.idl", Some("earlier copy")),
        dest("target/b/my_dapp.idl", None),
    ];
    let (plan, contents) = publish(&checked_in, &project_root, &dests, &vec![], &vec![]);

    assert!(!plan.warn);
    assert_eq!(plan.source, Some(2));
    assert_eq!(plan.actions[0], DestAction::SkipSelfCopy);
    assert_eq!(plan.actions[1], DestAction::CopyFromSource);
    assert_eq!(contents[0], Some(b"earlier copy".to_vec()));
    assert_eq!(contents[1], Some(b"earlier copy".to_vec()));
}

#[test]
fn scratch_file_is_adopted_without_content_check() {
    let checked_in = missing("proj/idl/my_dapp.idl");
    let project_root = missing("proj/my_dapp.idl");
    let dests = vec![dest("target/a/my_dapp.idl", None)];
    let scratch = vec![found("out/fresh.idl", Some("fresh from the compiler"))];
    let (plan, contents) = publish(&checked_in, &project_root, &dests, &scratch, &vec![]);

    assert_eq!(plan.source, Some(3));
    assert_eq!(contents[0], Some(b"fresh from the compiler".to_vec()));
}

#[test]
fn nested_output_is_validated_before_adoption() {
    let checked_in = missing("proj/idl/my_dapp.idl");
    let project_root = missing("proj/my_dapp.idl");
    let dests = vec![dest("target/a/my_dapp.idl", None)];
    let nested = vec![
        found("target/build/x/out/a.idl", Some("0x00")),
        found("target/build/y/out/b.idl", Some("nested interface")),
    ];
    let (plan, contents) = publish(&checked_in, &project_root, &dests, &vec![], &nested);

    assert_eq!(plan.source, Some(4));
    assert_eq!(contents[0], Some(b"nested interface".to_vec()));
}

#[test]
fn exhausted_search_fills_empty_destinations_with_sentinel() {
    let checked_in = missing("proj/idl/my_dapp.idl");
    let project_root = missing("proj/my_dapp.idl");
    let dests = vec![
        dest("target/a/my_dapp.idl", None),
        dest("target/b/my_dapp.idl", None),
    ];
    let (plan, contents) = publish(&checked_in, &project_root, &dests, &vec![], &vec![]);

    assert!(plan.warn);
    assert_eq!(plan.actions[0], DestAction::WriteSentinel);
    assert_eq!(plan.actions[1], DestAction::WriteSentinel);
    assert_eq!(contents[0], Some(b"0x00".to_vec()));
    assert_eq!(contents[1], Some(b"0x00".to_vec()));
}

#[test]
fn exhausted_search_leaves_existing_invalid_file_untouched() {
    let checked_in = found("proj/idl/my_dapp.idl", Some("   "));
    let project_root = missing("proj/my_dapp.idl");
    let dests = vec![
        dest("target/a/my_dapp.idl", Some("")),
        dest("target/b/my_dapp.idl", None),
    ];
    let (plan, contents) = publish(&checked_in, &project_root, &dests, &vec![], &vec![]);

    assert!(plan.warn);
    assert_eq!(plan.actions[0], DestAction::LeaveExisting);
    assert_eq!(plan.actions[1], DestAction::WriteSentinel);
    assert_eq!(contents[0], Some(b"".to_vec()));
    assert_eq!(contents[1], Some(b"0x00".to_vec()));
}

#[test]
fn publishing_twice_changes_nothing() {
    // A deliberately awkward first run: nothing curated, a scratch file
    // adopted without validation.
    let checked_in = missing("proj/idl/my_dapp.idl");
    let project_root = missing("proj/my_dapp.idl");
    let dests1 = vec![
        dest("target/a/my_dapp.idl", Some("0x00")),
        dest("target/b/my_dapp.idl", None),
    ];
    let scratch = vec![found("out/fresh.idl", Some("fresh interface"))];
    let (_, contents1) = publish(&checked_in, &project_root, &dests1, &scratch, &vec![]);

    let dests2: Vec<DestFile> = dests1
        .iter()
        .zip(contents1.iter())
        .map(|(d, c)| DestFile { path: d.path.clone(), existing: c.clone() })
        .collect();
    let (_, contents2) = publish(&checked_in, &project_root, &dests2, &scratch, &vec![]);

    assert_eq!(contents1, contents2);
}

#[test]
fn fallback_twice_changes_nothing() {
    let checked_in = missing("proj/idl/my_dapp.idl");
    let project_root = found("proj/my_dapp.idl", Some("0x00"));
    let dests1 = vec![
        dest("target/a/my_dapp.idl", Some("")),
        dest("target/b/my_dapp.idl", None),
    ];
    let (plan1, contents1) = publish(&checked_in, &project_root, &dests1, &vec![], &vec![]);

    let dests2: Vec<DestFile> = dests1
        .iter()
        .zip(contents1.iter())
        .map(|(d, c)| DestFile { path: d.path.clone(), existing: c.clone() })
        .collect();
    let (plan2, contents2) = publish(&checked_in, &project_root, &dests2, &vec![], &vec![]);

    assert!(plan1.warn);
    assert!(plan2.warn);
    assert_eq!(contents1, contents2);
}

#[test]
fn candidate_order_follows_the_search_priority() {
    let checked_in = found("proj/idl/my_dapp.idl", Some("a"));
    let project_root = found("proj/my_dapp.idl", Some("b"));
    let dests = vec![dest("target/a/my_dapp.idl", Some("c"))];
    let scratch = vec![found("out/s.idl", Some("d"))];
    let nested = vec![found("target/build/x/out/n.idl", Some("e"))];
    let cands: Vec<CandidateFile> =
        build_candidates(&checked_in, &project_root, &dests, &scratch, &nested);

    assert_eq!(cands.len(), 5);
    assert_eq!(cands[0].path, b"proj/idl/my_dapp.idl".to_vec());
    assert_eq!(cands[0].rule, ValidityRule::NonBlank);
    assert_eq!(cands[1].rule, ValidityRule::NonSentinel);
    assert_eq!(cands[2].path, b"target/a/my_dapp.idl".to_vec());
    assert_eq!(cands[2].rule, ValidityRule::NonSentinel);
    assert_eq!(cands[3].rule, ValidityRule::AnyContent);
    assert_eq!(cands[4].rule, ValidityRule::NonSentinel);
}

#[test]
fn canonical_name_is_identifier_plus_idl_suffix() {
    let name = artifact_file_name(&b"my_dapp".to_vec());

    assert_eq!(name, b"my_dapp.idl".to_vec());
}

#[test]
fn join_path_inserts_one_separator() {
    let path = join_path(&b"target/release".to_vec(), &b"my_dapp.idl".to_vec());

    assert_eq!(path, b"target/release/my_dapp.idl".to_vec());
}

#[test]
fn sentinel_is_the_two_character_hex_zero_marker() {
    assert_eq!(sentinel_bytes(), b"0x00".to_vec());
}

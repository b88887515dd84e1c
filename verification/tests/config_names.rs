use prek::config::{HookType, Language, MetaHookID, RepoLocation, Stage};

#[test]
fn language_names() {
    assert_eq!(Language::Python.as_str(), "python");
    assert_eq!(Language::DockerImage.as_str(), "docker_image");
    assert_eq!(Language::System.as_str(), "system");
    assert_eq!(Language::R.as_str(), "r");
}

#[test]
fn hook_type_names_and_args() {
    assert_eq!(HookType::PrepareCommitMsg.as_str(), "prepare-commit-msg");
    assert_eq!(HookType::PreCommit.num_args(), 0..=0);
    assert_eq!(HookType::PreRebase.num_args(), 1..=2);
    assert_eq!(HookType::PrepareCommitMsg.num_args(), 1..=3);
    assert_eq!(HookType::PostCheckout.num_args(), 3..=3);
    assert_eq!(HookType::default(), HookType::PreCommit);
}

#[test]
fn stage_names_and_files() {
    assert_eq!(Stage::Manual.as_str(), "manual");
    assert_eq!(Stage::PreMergeCommit.as_str(), "pre-merge-commit");
    assert!(Stage::PrePush.operate_on_files());
    assert!(!Stage::PostCheckout.operate_on_files());
    assert!(!Stage::PostCommit.operate_on_files());
    assert_eq!(Stage::default(), Stage::PreCommit);
}

#[test]
fn stage_from_hook_type_keeps_name() {
    let all = [
        HookType::CommitMsg,
        HookType::PostCheckout,
        HookType::PostCommit,
        HookType::PostMerge,
        HookType::PostRewrite,
        HookType::PreCommit,
        HookType::PreMergeCommit,
        HookType::PrePush,
        HookType::PreRebase,
        HookType::PrepareCommitMsg,
    ];
    for h in all {
        let stage = Stage::from(h);
        assert_eq!(stage.as_str(), h.as_str());
        assert_ne!(stage, Stage::Manual);
    }
}

#[test]
fn repo_location_roundtrip() {
    let local = RepoLocation::from_str("local").unwrap();
    assert!(matches!(local, RepoLocation::Local));
    assert_eq!(local.as_str(), "local");
    let meta = RepoLocation::from_str("meta").unwrap();
    assert!(matches!(meta, RepoLocation::Meta));
    let remote = RepoLocation::from_str("https://github.com/crate-ci/typos").unwrap();
    match &remote {
        RepoLocation::Remote(url) => assert_eq!(url, "https://github.com/crate-ci/typos"),
        _ => panic!("expected a remote location"),
    }
    assert_eq!(remote.as_str(), "https://github.com/crate-ci/typos");
    assert!(matches!(RepoLocation::from_str("Local").unwrap(), RepoLocation::Remote(_)));
}

#[test]
fn meta_hook_id_roundtrip() {
    for id in [MetaHookID::CheckHooksApply, MetaHookID::CheckUselessExcludes, MetaHookID::Identity] {
        assert_eq!(MetaHookID::from_str(&id.to_string()), Ok(id));
    }
    assert_eq!(MetaHookID::CheckUselessExcludes.to_string(), "check-useless-excludes");
    assert_eq!(MetaHookID::from_str("hello"), Err(()));
}

#[test]
fn names_are_distinct_and_never_aliases() {
    let languages = [
        Language::Conda, Language::Coursier, Language::Dart, Language::Docker,
        Language::DockerImage, Language::Dotnet, Language::Fail, Language::Golang,
        Language::Haskell, Language::Lua, Language::Node, Language::Perl, Language::Python,
        Language::R, Language::Ruby, Language::Rust, Language::Swift, Language::Pygrep,
        Language::Script, Language::System,
    ];
    let mut names: Vec<&str> = languages.iter().map(|l| l.as_str()).collect();
    names.sort();
    names.dedup();
    assert_eq!(names.len(), languages.len());
    let stages = [
        Stage::Manual, Stage::CommitMsg, Stage::PostCheckout, Stage::PostCommit,
        Stage::PostMerge, Stage::PostRewrite, Stage::PreCommit, Stage::PreMergeCommit,
        Stage::PrePush, Stage::PreRebase, Stage::PrepareCommitMsg,
    ];
    let mut names: Vec<&str> = stages.iter().map(|s| s.as_str()).collect();
    for alias in ["commit", "merge-commit", "push"] {
        assert!(!names.contains(&alias));
    }
    names.sort();
    names.dedup();
    assert_eq!(names.len(), stages.len());
}

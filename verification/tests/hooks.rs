use prek::config::{
    HookOptions, Language, ManifestHook, MetaHook, MetaHookError, RemoteHook, SerdeRegex, Stage,
};

fn remote_hook(id: &str) -> RemoteHook {
    RemoteHook {
        id: id.to_string(),
        name: None,
        entry: None,
        language: None,
        options: HookOptions::default(),
    }
}

fn error_message(result: Result<MetaHook, MetaHookError>) -> String {
    match result {
        Ok(_) => panic!("expected an error"),
        Err(e) => e.message(),
    }
}

#[test]
fn meta_hooks() {
    // Invalid meta hook id
    let result = MetaHook::from_remote_hook(remote_hook("hello"));
    assert_eq!(error_message(result), "Unknown meta hook id");

    // Invalid language
    let mut hook = remote_hook("check-hooks-apply");
    hook.language = Some(Language::Python);
    assert_eq!(
        error_message(MetaHook::from_remote_hook(hook)),
        "language must be system for meta hook"
    );

    // Invalid entry
    let mut hook = remote_hook("check-hooks-apply");
    hook.entry = Some("echo hell world".to_string());
    assert_eq!(
        error_message(MetaHook::from_remote_hook(hook)),
        "entry is not allowed for meta hook"
    );

    // Valid meta hooks
    let hooks: Vec<ManifestHook> = ["check-hooks-apply", "check-useless-excludes", "identity"]
        .iter()
        .map(|id| ManifestHook::from(MetaHook::from_remote_hook(remote_hook(id)).unwrap()))
        .collect();

    assert_eq!(hooks[0].id, "check-hooks-apply");
    assert_eq!(hooks[0].name, "Check hooks apply");
    assert_eq!(hooks[0].entry, "");
    assert_eq!(hooks[0].language, Language::System);
    assert_eq!(
        hooks[0].options.files.as_ref().unwrap().as_str(),
        "^\\.pre-commit-config\\.yaml|\\.pre-commit-config\\.yml$"
    );
    assert!(hooks[0].options.verbose.is_none());

    assert_eq!(hooks[1].id, "check-useless-excludes");
    assert_eq!(hooks[1].name, "Check useless excludes");
    assert_eq!(
        hooks[1].options.files.as_ref().unwrap().as_str(),
        "^\\.pre-commit-config\\.yaml|\\.pre-commit-config\\.yml$"
    );

    assert_eq!(hooks[2].id, "identity");
    assert_eq!(hooks[2].name, "identity");
    assert!(hooks[2].options.files.is_none());
    assert_eq!(hooks[2].options.verbose, Some(true));
}

#[test]
fn meta_hook_language_system_is_allowed() {
    let mut hook = remote_hook("identity");
    hook.language = Some(Language::System);
    hook.name = Some("ignored name".to_string());
    hook.options.verbose = Some(false);
    hook.options.args = Some(vec!["--flag".to_string()]);
    let manifest = ManifestHook::from(MetaHook::from_remote_hook(hook).unwrap());
    assert_eq!(manifest.name, "identity");
    assert_eq!(manifest.options.verbose, Some(false));
    assert_eq!(manifest.options.args, Some(vec!["--flag".to_string()]));
}

#[test]
fn meta_hook_options_override_default_pattern() {
    let mut hook = remote_hook("check-useless-excludes");
    hook.options.files = Some(SerdeRegex::new("^custom$").unwrap());
    let manifest = ManifestHook::from(MetaHook::from_remote_hook(hook).unwrap());
    assert_eq!(manifest.options.files.unwrap().as_str(), "^custom$");
}

#[test]
fn update_overrides_set_options_only() {
    let mut base = HookOptions::default();
    base.alias = Some("a".to_string());
    base.verbose = Some(true);
    base.stages = Some(vec![Stage::PreCommit]);
    base.types = Some(vec!["python".to_string()]);

    let mut other = HookOptions::default();
    other.verbose = Some(false);
    other.stages = Some(vec![Stage::PrePush, Stage::Manual]);
    other.exclude = Some(SerdeRegex::new("^docs/").unwrap());
    other.minimum_prek_version = Some("0.1.0".to_string());

    base.update(&other);
    assert_eq!(base.alias.as_deref(), Some("a"));
    assert_eq!(base.verbose, Some(false));
    assert_eq!(base.stages, Some(vec![Stage::PrePush, Stage::Manual]));
    assert_eq!(base.types, Some(vec!["python".to_string()]));
    assert_eq!(base.exclude.as_ref().unwrap().as_str(), "^docs/");
    assert_eq!(base.minimum_prek_version.as_deref(), Some("0.1.0"));
    assert!(base.files.is_none());
}

#[test]
fn update_with_unset_options_changes_nothing() {
    let mut base = HookOptions::default();
    base.log_file = Some("out.log".to_string());
    base.pass_filenames = Some(false);
    base.update(&HookOptions::default());
    assert_eq!(base.log_file.as_deref(), Some("out.log"));
    assert_eq!(base.pass_filenames, Some(false));
    assert!(base.alias.is_none());
}

#[test]
fn update_twice_is_update_once() {
    let mut other = HookOptions::default();
    other.description = Some("d".to_string());
    other.always_run = Some(true);
    let mut once = HookOptions::default();
    once.args = Some(vec!["x".to_string()]);
    let mut twice = once.clone();
    once.update(&other);
    twice.update(&other);
    twice.update(&other);
    assert_eq!(once.description, twice.description);
    assert_eq!(once.always_run, twice.always_run);
    assert_eq!(once.args, twice.args);
}

#[test]
fn serde_regex_keeps_pattern() {
    let re = SerdeRegex::new("^src/.*\\.rs$").unwrap();
    assert_eq!(re.as_str(), "^src/.*\\.rs$");
    assert!(re.regex().is_match("src/lib.rs").unwrap());
    let copy = re.clone();
    assert_eq!(copy.as_str(), re.as_str());
    let err = SerdeRegex::new("(unclosed").unwrap_err();
    assert_eq!(err.pattern, "(unclosed");
}

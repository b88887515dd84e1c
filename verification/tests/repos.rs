use prek::tags::all_tags;
use prek::config::{
    Config, LocalRepo, MetaRepo, RemoteRepo, Repo, ignored_keys_warning, is_mutable_rev,
    looks_like_sha, unexpected_keys, validate_tags,
};

fn remote(repo: &str, rev: &str) -> Repo {
    Repo::Remote(RemoteRepo { repo: repo.to_string(), rev: rev.to_string(), hooks: vec![] })
}

fn config(repos: Vec<Repo>) -> Config {
    Config {
        repos,
        default_install_hook_types: None,
        default_language_version: None,
        default_stages: None,
        files: None,
        exclude: None,
        fail_fast: None,
        prek_project_parallelism: None,
        minimum_prek_version: None,
    }
}

#[test]
fn sha_detection() {
    assert!(looks_like_sha("a1b2c3d4e5f60718293a4b5c6d7e8f9012345678"));
    assert!(looks_like_sha("ABCdef0123"));
    assert!(!looks_like_sha(""));
    assert!(!looks_like_sha("main"));
    assert!(!looks_like_sha("abc\n"));
    assert!(!looks_like_sha("v1"));
}

#[test]
fn mutable_revs() {
    assert!(is_mutable_rev("main"));
    assert!(is_mutable_rev("v1"));
    assert!(!is_mutable_rev("v1.0.0"));
    assert!(!is_mutable_rev("deadbeef"));
    assert!(is_mutable_rev(""));
}

#[test]
fn repos_with_mutable_rev_in_order() {
    let cfg = config(vec![
        remote("https://github.com/a/a", "main"),
        Repo::Local(LocalRepo { hooks: vec![] }),
        remote("https://github.com/b/b", "v1.2.3"),
        Repo::Meta(MetaRepo { hooks: vec![] }),
        remote("https://github.com/c/c", "0123abcd"),
        remote("https://github.com/d/d", "develop"),
    ]);
    assert_eq!(cfg.repos_with_mutable_rev(), vec![0, 5]);
    assert_eq!(config(vec![]).repos_with_mutable_rev(), Vec::<usize>::new());
}

#[test]
fn unexpected_keys_skip_expected_ones() {
    let keys = vec![
        "ci".to_string(),
        "repos.0.foo".to_string(),
        "minimum_pre_commit_version".to_string(),
        "bar".to_string(),
        "ci.autofix".to_string(),
    ];
    assert_eq!(
        unexpected_keys(&keys),
        vec!["repos.0.foo".to_string(), "bar".to_string(), "ci.autofix".to_string()]
    );
    assert!(unexpected_keys(&vec![]).is_empty());
}

#[test]
fn remote_repo_identity() {
    let a = RemoteRepo { repo: "r".to_string(), rev: "v1".to_string(), hooks: vec![] };
    let b = RemoteRepo {
        repo: "r".to_string(),
        rev: "v1".to_string(),
        hooks: vec![prek::config::RemoteHook {
            id: "x".to_string(),
            name: None,
            entry: None,
            language: None,
            options: Default::default(),
        }],
    };
    let c = RemoteRepo { repo: "r".to_string(), rev: "v2".to_string(), hooks: vec![] };
    assert!(a == b);
    assert!(a != c);
    assert_eq!(a.to_string(), "r@v1");
    assert_eq!(LocalRepo { hooks: vec![] }.to_string(), "local");
    assert_eq!(MetaRepo { hooks: vec![] }.to_string(), "meta");

    let mut set = std::collections::HashSet::new();
    set.insert(a);
    assert!(!set.insert(b));
    assert!(set.insert(c));
}

fn tags(list: &[&str]) -> Option<Vec<String>> {
    Some(list.iter().map(|s| s.to_string()).collect())
}

#[test]
fn test_validate_type_tags() {
    // Valid tags should parse successfully
    assert!(validate_tags(tags(&["python", "file"])).is_ok(), "Should parse valid tags successfully");
    assert!(validate_tags(tags(&["text", "binary"])).is_ok());
    assert!(validate_tags(tags(&["symlink"])).is_ok());

    // Empty lists and missing keys should also be fine
    assert!(validate_tags(tags(&[])).is_ok(), "Should parse empty/missing tags successfully");
    assert_eq!(validate_tags(None).unwrap(), None);

    // Invalid tags should fail
    let err = validate_tags(tags(&["pythoon"])).unwrap_err();
    assert!(err.message().contains("Type tag \"pythoon\" is not recognized"));
    let err = validate_tags(tags(&["invalidtag"])).unwrap_err();
    assert!(err.message().contains("Type tag \"invalidtag\" is not recognized"));
    let err = validate_tags(tags(&["not-a-real-tag"])).unwrap_err();
    assert!(err.message().contains("Type tag \"not-a-real-tag\" is not recognized"));
}

#[test]
fn first_unknown_tag_is_reported() {
    let err = validate_tags(tags(&["python", "nope", "alsonope"])).unwrap_err();
    assert_eq!(err.tag, "nope");
    assert_eq!(err.message(), "Type tag \"nope\" is not recognized. Try upgrading prek");
    assert_eq!(validate_tags(tags(&["rust", "pyi"])).unwrap(), tags(&["rust", "pyi"]));
}

#[test]
fn mutable_rev_warning_names_each_repo() {
    let cfg = config(vec![
        remote("https://github.com/a/a", "main"),
        remote("https://github.com/b/b", "v1.2.3"),
        remote("https://github.com/d/d", "develop"),
    ]);
    let expected = "The following repos have mutable `rev` fields (moving tag / branch):\n\
        \x1b[36mhttps://github.com/a/a\x1b[39m: \x1b[33mmain\x1b[39m\n\
        \x1b[36mhttps://github.com/d/d\x1b[39m: \x1b[33mdevelop\x1b[39m\n\
        Mutable references are never updated after first install and are not supported.\n\
        See https://pre-commit.com/#using-the-latest-version-for-a-repository for more details.\n\
        Hint: `prek autoupdate` often fixes this\",\n";
    assert_eq!(cfg.mutable_rev_warning(), Some(expected.to_string()));
    let pinned = config(vec![remote("https://github.com/b/b", "v1.2.3")]);
    assert_eq!(pinned.mutable_rev_warning(), None);
}

#[test]
fn ignored_keys_warning_lists_unexpected_keys() {
    let keys = vec!["ci".to_string(), "foo".to_string(), "repos.0.bar".to_string()];
    let expected = "Ignored unexpected keys in `\x1b[36m.pre-commit-config.yaml\x1b[39m`: \
        `\x1b[33mfoo\x1b[39m`, `\x1b[33mrepos.0.bar\x1b[39m`";
    assert_eq!(
        ignored_keys_warning(".pre-commit-config.yaml", &keys),
        Some(expected.to_string())
    );
    let expected_only = vec!["ci".to_string(), "minimum_pre_commit_version".to_string()];
    assert_eq!(ignored_keys_warning(".pre-commit-config.yaml", &expected_only), None);
}

#[test]
fn known_type_tags_list() {
    let all = all_tags();
    assert_eq!(all.len(), 221);
    assert_eq!(all[0], "file");
    assert_eq!(all[220], "zsh");
    for tag in ["python", "rust", "yaml", "c++", "c#", "executable", "text", "binary"] {
        assert!(all.iter().any(|t| t == tag), "{tag} is known");
    }
    let mut sorted = all.clone();
    sorted.sort();
    sorted.dedup();
    assert_eq!(sorted.len(), all.len());
}

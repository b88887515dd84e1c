use vstd::prelude::*;

use crate::text::{owned, str_equals};

pub use crate::hooks::{
    HookOptions, LocalHook, ManifestHook, MetaHook, MetaHookError, RemoteHook, ALT_CONFIG_FILE,
    CONFIG_FILE,
};
pub use crate::regex::{RegexError, SerdeRegex};
pub use crate::repos::{
    Config, LocalRepo, Manifest, MetaRepo, RemoteRepo, Repo, UnknownTypeTag, ignored_keys_warning,
    is_mutable_rev, looks_like_sha, unexpected_keys, validate_tags,
};
pub use crate::version::{MinimumVersionError, SemVersion, SemverError, check_minimum_version};

verus! {

/// The languages a hook can be written in.
#[derive(Debug, Copy, Clone, PartialEq, Eq, Hash, Structural)]
pub enum Language {
    Conda,
    Coursier,
    Dart,
    Docker,
    DockerImage,
    Dotnet,
    Fail,
    Golang,
    Haskell,
    Lua,
    Node,
    Perl,
    Python,
    R,
    Ruby,
    Rust,
    Swift,
    Pygrep,
    Script,
    System,
}

/// The configuration name of a language.
pub open spec fn language_name(l: Language) -> Seq<char> {
    match l {
        Language::Conda => "conda"@,
        Language::Coursier => "coursier"@,
        Language::Dart => "dart"@,
        Language::Docker => "docker"@,
        Language::DockerImage => "docker_image"@,
        Language::Dotnet => "dotnet"@,
        Language::Fail => "fail"@,
        Language::Golang => "golang"@,
        Language::Haskell => "haskell"@,
        Language::Lua => "lua"@,
        Language::Node => "node"@,
        Language::Perl => "perl"@,
        Language::Python => "python"@,
        Language::R => "r"@,
        Language::Ruby => "ruby"@,
        Language::Rust => "rust"@,
        Language::Swift => "swift"@,
        Language::Pygrep => "pygrep"@,
        Language::Script => "script"@,
        Language::System => "system"@,
    }
}

impl Language {
    pub fn as_str(&self) -> (s: &str)
        ensures
            s@ == language_name(*self),
    {
        match self {
            Language::Conda => "conda",
            Language::Coursier => "coursier",
            Language::Dart => "dart",
            Language::Docker => "docker",
            Language::DockerImage => "docker_image",
            Language::Dotnet => "dotnet",
            Language::Fail => "fail",
            Language::Golang => "golang",
            Language::Haskell => "haskell",
            Language::Lua => "lua",
            Language::Node => "node",
            Language::Perl => "perl",
            Language::Python => "python",
            Language::R => "r",
            Language::Ruby => "ruby",
            Language::Rust => "rust",
            Language::Swift => "swift",
            Language::Pygrep => "pygrep",
            Language::Script => "script",
            Language::System => "system",
        }
    }
}

/// The git hook types that prek can be installed for.
#[derive(Debug, Clone, Copy, PartialEq, Eq, Structural)]
pub enum HookType {
    CommitMsg,
    PostCheckout,
    PostCommit,
    PostMerge,
    PostRewrite,
    PreCommit,
    PreMergeCommit,
    PrePush,
    PreRebase,
    PrepareCommitMsg,
}

/// The git name of a hook type.
pub open spec fn hook_type_name(h: HookType) -> Seq<char> {
    match h {
        HookType::CommitMsg => "commit-msg"@,
        HookType::PostCheckout => "post-checkout"@,
        HookType::PostCommit => "post-commit"@,
        HookType::PostMerge => "post-merge"@,
        HookType::PostRewrite => "post-rewrite"@,
        HookType::PreCommit => "pre-commit"@,
        HookType::PreMergeCommit => "pre-merge-commit"@,
        HookType::PrePush => "pre-push"@,
        HookType::PreRebase => "pre-rebase"@,
        HookType::PrepareCommitMsg => "prepare-commit-msg"@,
    }
}

/// The inclusive range of the number of arguments git passes to a hook of this type.
pub open spec fn hook_type_arg_bounds(h: HookType) -> (usize, usize) {
    match h {
        HookType::CommitMsg => (1, 1),
        HookType::PostCheckout => (3, 3),
        HookType::PreCommit => (0, 0),
        HookType::PostCommit => (0, 0),
        HookType::PreMergeCommit => (0, 0),
        HookType::PostMerge => (1, 1),
        HookType::PostRewrite => (1, 1),
        HookType::PrePush => (2, 2),
        HookType::PreRebase => (1, 2),
        HookType::PrepareCommitMsg => (1, 3),
    }
}

impl HookType {
    pub fn as_str(&self) -> (s: &str)
        ensures
            s@ == hook_type_name(*self),
    {
        match self {
            HookType::CommitMsg => "commit-msg",
            HookType::PostCheckout => "post-checkout",
            HookType::PostCommit => "post-commit",
            HookType::PostMerge => "post-merge",
            HookType::PostRewrite => "post-rewrite",
            HookType::PreCommit => "pre-commit",
            HookType::PreMergeCommit => "pre-merge-commit",
            HookType::PrePush => "pre-push",
            HookType::PreRebase => "pre-rebase",
            HookType::PrepareCommitMsg => "prepare-commit-msg",
        }
    }

    /// Return the number of arguments this hook type expects.
    pub fn num_args(self) -> (r: core::ops::RangeInclusive<usize>)
        ensures
            r@.start == hook_type_arg_bounds(self).0,
            r@.end == hook_type_arg_bounds(self).1,
            !r@.exhausted,
    {
        match self {
            HookType::CommitMsg => 1..=1,
            HookType::PostCheckout => 3..=3,
            HookType::PreCommit => 0..=0,
            HookType::PostCommit => 0..=0,
            HookType::PreMergeCommit => 0..=0,
            HookType::PostMerge => 1..=1,
            HookType::PostRewrite => 1..=1,
            HookType::PrePush => 2..=2,
            HookType::PreRebase => 1..=2,
            HookType::PrepareCommitMsg => 1..=3,
        }
    }
}

impl Default for HookType {
    fn default() -> (r: Self)
        ensures
            r == HookType::PreCommit,
    {
        HookType::PreCommit
    }
}

/// The stages a hook can be confined to.
#[derive(Debug, Clone, Copy, PartialEq, Eq, Hash, Structural)]
pub enum Stage {
    Manual,
    CommitMsg,
    PostCheckout,
    PostCommit,
    PostMerge,
    PostRewrite,
    PreCommit,
    PreMergeCommit,
    PrePush,
    PreRebase,
    PrepareCommitMsg,
}

/// The configuration name of a stage.
pub open spec fn stage_name(s: Stage) -> Seq<char> {
    match s {
        Stage::Manual => "manual"@,
        Stage::CommitMsg => "commit-msg"@,
        Stage::PostCheckout => "post-checkout"@,
        Stage::PostCommit => "post-commit"@,
        Stage::PostMerge => "post-merge"@,
        Stage::PostRewrite => "post-rewrite"@,
        Stage::PreCommit => "pre-commit"@,
        Stage::PreMergeCommit => "pre-merge-commit"@,
        Stage::PrePush => "pre-push"@,
        Stage::PreRebase => "pre-rebase"@,
        Stage::PrepareCommitMsg => "prepare-commit-msg"@,
    }
}

/// The stage a git hook type runs in.
pub open spec fn stage_of_hook_type(h: HookType) -> Stage {
    match h {
        HookType::CommitMsg => Stage::CommitMsg,
        HookType::PostCheckout => Stage::PostCheckout,
        HookType::PostCommit => Stage::PostCommit,
        HookType::PostMerge => Stage::PostMerge,
        HookType::PostRewrite => Stage::PostRewrite,
        HookType::PreCommit => Stage::PreCommit,
        HookType::PreMergeCommit => Stage::PreMergeCommit,
        HookType::PrePush => Stage::PrePush,
        HookType::PreRebase => Stage::PreRebase,
        HookType::PrepareCommitMsg => Stage::PrepareCommitMsg,
    }
}

/// Whether hooks of this stage are run on a set of files.
pub open spec fn stage_operates_on_files(s: Stage) -> bool {
    match s {
        Stage::Manual | Stage::CommitMsg | Stage::PreCommit | Stage::PreMergeCommit
        | Stage::PrePush | Stage::PrepareCommitMsg => true,
        _ => false,
    }
}

impl From<HookType> for Stage {
    fn from(value: HookType) -> (r: Self) {
        match value {
            HookType::CommitMsg => Stage::CommitMsg,
            HookType::PostCheckout => Stage::PostCheckout,
            HookType::PostCommit => Stage::PostCommit,
            HookType::PostMerge => Stage::PostMerge,
            HookType::PostRewrite => Stage::PostRewrite,
            HookType::PreCommit => Stage::PreCommit,
            HookType::PreMergeCommit => Stage::PreMergeCommit,
            HookType::PrePush => Stage::PrePush,
            HookType::PreRebase => Stage::PreRebase,
            HookType::PrepareCommitMsg => Stage::PrepareCommitMsg,
        }
    }
}

impl vstd::std_specs::convert::FromSpecImpl<HookType> for Stage {
    open spec fn obeys_from_spec() -> bool {
        true
    }

    open spec fn from_spec(v: HookType) -> Stage {
        stage_of_hook_type(v)
    }
}

impl Stage {
    pub fn as_str(&self) -> (s: &str)
        ensures
            s@ == stage_name(*self),
    {
        match self {
            Stage::Manual => "manual",
            Stage::CommitMsg => "commit-msg",
            Stage::PostCheckout => "post-checkout",
            Stage::PostCommit => "post-commit",
            Stage::PostMerge => "post-merge",
            Stage::PostRewrite => "post-rewrite",
            Stage::PreCommit => "pre-commit",
            Stage::PreMergeCommit => "pre-merge-commit",
            Stage::PrePush => "pre-push",
            Stage::PreRebase => "pre-rebase",
            Stage::PrepareCommitMsg => "prepare-commit-msg",
        }
    }

    pub fn operate_on_files(self) -> (r: bool)
        ensures
            r == stage_operates_on_files(self),
    {
        match self {
            Stage::Manual | Stage::CommitMsg | Stage::PreCommit | Stage::PreMergeCommit
            | Stage::PrePush | Stage::PrepareCommitMsg => true,
            _ => false,
        }
    }
}

impl Default for Stage {
    fn default() -> (r: Self)
        ensures
            r == Stage::PreCommit,
    {
        Stage::PreCommit
    }
}

/// Distinct languages carry distinct names, so a name tells its language.
pub proof fn lemma_language_names_distinct(a: Language, b: Language)
    ensures
        language_name(a) == language_name(b) ==> a == b,
{
    if language_name(a) == language_name(b) {
        reveal_strlit("conda");
        reveal_strlit("coursier");
        reveal_strlit("dart");
        reveal_strlit("docker");
        reveal_strlit("docker_image");
        reveal_strlit("dotnet");
        reveal_strlit("fail");
        reveal_strlit("golang");
        reveal_strlit("haskell");
        reveal_strlit("lua");
        reveal_strlit("node");
        reveal_strlit("perl");
        reveal_strlit("python");
        reveal_strlit("r");
        reveal_strlit("ruby");
        reveal_strlit("rust");
        reveal_strlit("swift");
        reveal_strlit("pygrep");
        reveal_strlit("script");
        reveal_strlit("system");
        assert(language_name(a).len() == language_name(b).len());
        assert(language_name(a)[0] == language_name(b)[0]);
        assert(language_name(a)[language_name(a).len() - 1] == language_name(b)[language_name(b).len() - 1]);
    }
}

/// Distinct stages carry distinct names, and no stage is named by one of
/// the short aliases "commit", "merge-commit" or "push" that a configuration
/// may use for the pre-commit, pre-merge-commit and pre-push stages.
pub proof fn lemma_stage_names_distinct(a: Stage, b: Stage)
    ensures
        stage_name(a) == stage_name(b) ==> a == b,
        stage_name(a) != "commit"@,
        stage_name(a) != "merge-commit"@,
        stage_name(a) != "push"@,
{
        reveal_strlit("manual");
        reveal_strlit("commit-msg");
        reveal_strlit("post-checkout");
        reveal_strlit("post-commit");
        reveal_strlit("post-merge");
        reveal_strlit("post-rewrite");
        reveal_strlit("pre-commit");
        reveal_strlit("pre-merge-commit");
        reveal_strlit("pre-push");
        reveal_strlit("pre-rebase");
        reveal_strlit("prepare-commit-msg");
        reveal_strlit("commit");
        reveal_strlit("merge-commit");
        reveal_strlit("push");
    if stage_name(a) == stage_name(b) {
        assert(stage_name(a).len() == stage_name(b).len());
        assert(stage_name(a)[0] == stage_name(b)[0]);
        assert(stage_name(a)[stage_name(a).len() - 5] == stage_name(b)[stage_name(b).len() - 5]);
    }
    assert(stage_name(a).len() != "commit"@.len() || stage_name(a)[0] != 'c');
    assert(stage_name(a).len() != "merge-commit"@.len() || stage_name(a)[0] != 'm');
}

/// A git hook type and the stage it runs in carry the same name.
pub proof fn lemma_stage_of_hook_type_keeps_name(h: HookType)
    ensures
        stage_name(stage_of_hook_type(h)) == hook_type_name(h),
{
}

/// Distinct git hook types run in distinct stages, and none of them is the manual stage.
pub proof fn lemma_stage_of_hook_type_injective(a: HookType, b: HookType)
    ensures
        stage_of_hook_type(a) == stage_of_hook_type(b) ==> a == b,
        stage_of_hook_type(a) != Stage::Manual,
{
}

/// Every git hook type accepts a non-empty range of argument counts.
pub proof fn lemma_hook_type_arg_bounds_ordered(h: HookType)
    ensures
        hook_type_arg_bounds(h).0 <= hook_type_arg_bounds(h).1,
{
}

#[verifier::external_type_specification]
#[verifier::external_body]
pub struct ExUrlParseError(url::ParseError);

/// Where the hooks of a repository come from.
#[derive(Debug, Clone)]
pub enum RepoLocation {
    Local,
    Meta,
    Remote(String),
}

/// The text a location is written as.
pub open spec fn location_text(loc: RepoLocation) -> Seq<char> {
    match loc {
        RepoLocation::Local => "local"@,
        RepoLocation::Meta => "meta"@,
        RepoLocation::Remote(url) => url@,
    }
}

/// `loc` is the location that the `repo` value `s` names: the two keywords
/// name the local and the meta repository, any other text names a remote one.
pub open spec fn names_location(s: Seq<char>, loc: RepoLocation) -> bool {
    match loc {
        RepoLocation::Local => s == "local"@,
        RepoLocation::Meta => s == "meta"@,
        RepoLocation::Remote(url) => url@ == s && s != "local"@ && s != "meta"@,
    }
}

impl RepoLocation {
    /// Reads a `repo` value; every text names some location.
    pub fn from_str(s: &str) -> (r: Result<RepoLocation, url::ParseError>)
        ensures
            r matches Ok(loc) && names_location(s@, loc),
    {
        if str_equals(s, "local") {
            Ok(RepoLocation::Local)
        } else if str_equals(s, "meta") {
            Ok(RepoLocation::Meta)
        } else {
            Ok(RepoLocation::Remote(owned(s)))
        }
    }

    pub fn as_str(&self) -> (s: &str)
        ensures
            s@ == location_text(*self),
    {
        match self {
            RepoLocation::Local => "local",
            RepoLocation::Meta => "meta",
            RepoLocation::Remote(url) => url.as_str(),
        }
    }
}

/// Reading a `repo` value and writing the location back gives the same text.
pub proof fn lemma_repo_location_text_roundtrip(s: Seq<char>, loc: RepoLocation)
    requires
        names_location(s, loc),
    ensures
        location_text(loc) == s,
{
}

/// Writing a location and reading the text back names the same location,
/// unless a remote location carries one of the two keywords as its url.
pub proof fn lemma_repo_location_parse_roundtrip(loc: RepoLocation)
    requires
        loc matches RepoLocation::Remote(url) ==> url@ != "local"@ && url@ != "meta"@,
    ensures
        names_location(location_text(loc), loc),
{
}

/// The meta hooks built into prek.
#[derive(Debug, Copy, Clone, PartialEq, Eq, Structural)]
pub enum MetaHookID {
    CheckHooksApply,
    CheckUselessExcludes,
    Identity,
}

/// The id a meta hook is written with.
pub open spec fn meta_hook_id_name(id: MetaHookID) -> Seq<char> {
    match id {
        MetaHookID::CheckHooksApply => "check-hooks-apply"@,
        MetaHookID::CheckUselessExcludes => "check-useless-excludes"@,
        MetaHookID::Identity => "identity"@,
    }
}

/// The meta hook that the text `s` names, if any.
pub open spec fn meta_hook_id_of(s: Seq<char>) -> Option<MetaHookID> {
    if s == "check-hooks-apply"@ {
        Some(MetaHookID::CheckHooksApply)
    } else if s == "check-useless-excludes"@ {
        Some(MetaHookID::CheckUselessExcludes)
    } else if s == "identity"@ {
        Some(MetaHookID::Identity)
    } else {
        None
    }
}

impl MetaHookID {
    /// The id text of this meta hook.
    pub fn to_string(&self) -> (s: String)
        ensures
            s@ == meta_hook_id_name(*self),
    {
        match self {
            MetaHookID::CheckHooksApply => owned("check-hooks-apply"),
            MetaHookID::CheckUselessExcludes => owned("check-useless-excludes"),
            MetaHookID::Identity => owned("identity"),
        }
    }

    pub fn from_str(s: &str) -> (r: Result<MetaHookID, ()>)
        ensures
            r is Ok <==> meta_hook_id_of(s@) is Some,
            r matches Ok(id) ==> meta_hook_id_of(s@) == Some(id),
    {
        if str_equals(s, "check-hooks-apply") {
            Ok(MetaHookID::CheckHooksApply)
        } else if str_equals(s, "check-useless-excludes") {
            Ok(MetaHookID::CheckUselessExcludes)
        } else if str_equals(s, "identity") {
            Ok(MetaHookID::Identity)
        } else {
            Err(())
        }
    }
}

/// Every meta hook id reads back as itself, and a text that reads as a meta
/// hook id is that id's name.
pub proof fn lemma_meta_hook_id_roundtrip(id: MetaHookID, s: Seq<char>)
    ensures
        meta_hook_id_of(meta_hook_id_name(id)) == Some(id),
        meta_hook_id_of(s) == Some(id) ==> s == meta_hook_id_name(id),
{
    reveal_strlit("check-hooks-apply");
    reveal_strlit("check-useless-excludes");
    reveal_strlit("identity");
    assert("check-hooks-apply"@.len() == 17);
    assert("check-useless-excludes"@.len() == 22);
    assert("identity"@.len() == 8);
}

} // verus!

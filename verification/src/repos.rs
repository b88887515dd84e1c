//! Repositories of hooks, the configuration and manifest files, and the checks
//! that reading a configuration makes beyond its grammar.

use vstd::prelude::*;

use crate::config::{HookType, Language, Stage};
use crate::hooks::{LocalHook, ManifestHook, MetaHook, RemoteHook, texts};
use crate::regex::SerdeRegex;
use crate::style::{cyan, cyan_text, yellow, yellow_text};
use crate::tags::{all_tags, known_type_tags};
use crate::text::{join, join_strings, owned, str_equals, string_views};

verus! {

#[verifier::external_type_specification]
#[verifier::external_body]
pub struct ExFxBuildHasher(rustc_hash::FxBuildHasher);

/// Feeds a string to a hasher.
///
/// Trusted: the `Hash` impl of `String`; nothing is claimed of the hasher's state.
pub assume_specification<H: core::hash::Hasher>[ <String as core::hash::Hash>::hash::<H> ](
    s: &String,
    state: &mut H,
);

/// A repository of hooks fetched from a url at a revision.
#[derive(Debug, Clone)]
pub struct RemoteRepo {
    pub repo: String,
    pub rev: String,
    pub hooks: Vec<RemoteHook>,
}

impl PartialEq for RemoteRepo {
    fn eq(&self, other: &Self) -> (r: bool) {
        self.repo == other.repo && self.rev == other.rev
    }
}

impl vstd::std_specs::cmp::PartialEqSpecImpl for RemoteRepo {
    open spec fn obeys_eq_spec() -> bool {
        true
    }

    /// Two remote repositories are the same when url and revision agree,
    /// whatever hooks they select.
    open spec fn eq_spec(&self, other: &Self) -> bool {
        self.repo@ == other.repo@ && self.rev@ == other.rev@
    }
}

/// Two remote repositories are the same repository exactly when both their
/// urls and their revisions agree: repositories with different urls, or at
/// different revisions, are never taken for one another, whatever hooks they
/// select.
pub proof fn lemma_remote_repo_identity(a: RemoteRepo, b: RemoteRepo)
    ensures
        vstd::std_specs::cmp::PartialEqSpec::eq_spec(&a, &b) <==> (a.repo@ == b.repo@ && a.rev@
            == b.rev@),
        a.repo@ != b.repo@ ==> !vstd::std_specs::cmp::PartialEqSpec::eq_spec(&a, &b),
        a.rev@ != b.rev@ ==> !vstd::std_specs::cmp::PartialEqSpec::eq_spec(&a, &b),
{
}

impl Eq for RemoteRepo {}

impl core::hash::Hash for RemoteRepo {
    fn hash<H: core::hash::Hasher>(&self, state: &mut H) {
        self.repo.hash(state);
        self.rev.hash(state);
    }
}

impl RemoteRepo {
    /// `url@rev`.
    pub fn to_string(&self) -> (s: String)
        ensures
            s@ == self.repo@ + "@"@ + self.rev@,
    {
        let mut s = self.repo.clone();
        s.append("@");
        s.append(self.rev.as_str());
        s
    }
}

/// The repository of hooks defined in the configuration itself.
#[derive(Debug, Clone)]
pub struct LocalRepo {
    pub hooks: Vec<LocalHook>,
}

impl LocalRepo {
    pub fn to_string(&self) -> (s: String)
        ensures
            s@ == "local"@,
    {
        owned("local")
    }
}

/// The repository of the meta hooks.
#[derive(Debug, Clone)]
pub struct MetaRepo {
    pub hooks: Vec<MetaHook>,
}

impl MetaRepo {
    pub fn to_string(&self) -> (s: String)
        ensures
            s@ == "meta"@,
    {
        owned("meta")
    }
}

#[derive(Debug, Clone)]
pub enum Repo {
    Remote(RemoteRepo),
    Local(LocalRepo),
    Meta(MetaRepo),
}

#[derive(Debug, Clone)]
pub struct Config {
    pub repos: Vec<Repo>,
    /// A list of `--hook-types` which will be used by default when running `prek install`.
    pub default_install_hook_types: Option<Vec<HookType>>,
    /// A mapping from language to the default `language_version`.
    pub default_language_version: Option<rustc_hash::FxHashMap<Language, String>>,
    /// A configuration-wide default for the stages property of hooks.
    pub default_stages: Option<Vec<Stage>>,
    /// Global file include pattern.
    pub files: Option<SerdeRegex>,
    /// Global file exclude pattern.
    pub exclude: Option<SerdeRegex>,
    /// Set to true to have prek stop running hooks after the first failure.
    pub fail_fast: Option<bool>,
    /// Enable running projects that share the same depth in parallel.
    pub prek_project_parallelism: Option<bool>,
    /// The minimum version of prek required to run this configuration.
    pub minimum_prek_version: Option<String>,
}

/// The hooks a manifest file defines.
#[derive(Debug, Clone)]
pub struct Manifest {
    pub hooks: Vec<ManifestHook>,
}

pub open spec fn is_hex_digit(c: char) -> bool {
    ('0' <= c && c <= '9') || ('a' <= c && c <= 'f') || ('A' <= c && c <= 'F')
}

/// A non-empty run of hexadecimal digits, as a commit SHA is written.
pub open spec fn sha_like(s: Seq<char>) -> bool {
    s.len() > 0 && forall|i: int| 0 <= i < s.len() ==> is_hex_digit(#[trigger] s[i])
}

/// A revision that names no version (it holds no dot) and no commit: a
/// branch or a moving tag.
pub open spec fn mutable_rev(rev: Seq<char>) -> bool {
    !rev.contains('.') && !sha_like(rev)
}

/// Check if a string looks like a git SHA.
pub fn looks_like_sha(s: &str) -> (r: bool)
    ensures
        r == sha_like(s@),
{
    let n = s.unicode_len();
    if n == 0 {
        return false;
    }
    let mut i: usize = 0;
    while i < n
        invariant
            n == s@.len(),
            i <= n,
            forall|j: int| 0 <= j < i ==> is_hex_digit(#[trigger] s@[j]),
        decreases n - i,
    {
        let c = s.get_char(i);
        if !(('0' <= c && c <= '9') || ('a' <= c && c <= 'f') || ('A' <= c && c <= 'F')) {
            return false;
        }
        i = i + 1;
    }
    true
}

fn contains_dot(s: &str) -> (r: bool)
    ensures
        r == s@.contains('.'),
{
    let n = s.unicode_len();
    let mut i: usize = 0;
    while i < n
        invariant
            n == s@.len(),
            i <= n,
            forall|j: int| 0 <= j < i ==> s@[j] != '.',
        decreases n - i,
    {
        if s.get_char(i) == '.' {
            return true;
        }
        i = i + 1;
    }
    false
}

/// Whether a revision is mutable: it holds no dot (like a version) and is no
/// hexadecimal string (like a commit SHA).
pub fn is_mutable_rev(rev: &str) -> (r: bool)
    ensures
        r == mutable_rev(rev@),
{
    !contains_dot(rev) && !looks_like_sha(rev)
}

/// A remote repository whose revision is mutable.
pub open spec fn has_mutable_rev(repo: Repo) -> bool {
    repo matches Repo::Remote(remote) && mutable_rev(remote.rev@)
}

/// The positions, in order, of the remote repositories among the first `n`
/// whose revision is mutable.
pub open spec fn mutable_rev_positions(repos: Seq<Repo>, n: int) -> Seq<usize>
    decreases n,
{
    if n <= 0 {
        Seq::empty()
    } else {
        let rest = mutable_rev_positions(repos, n - 1);
        if has_mutable_rev(repos[n - 1]) {
            rest.push((n - 1) as usize)
        } else {
            rest
        }
    }
}

/// The line that names a remote repository and its revision.
pub open spec fn rev_line(repo: Repo) -> Seq<char> {
    match repo {
        Repo::Remote(remote) => cyan_text(remote.repo@) + ": "@ + yellow_text(remote.rev@),
        _ => Seq::empty(),
    }
}

/// The warning about repositories with mutable revisions, one line each.
pub open spec fn mutable_revs_message(lines: Seq<Seq<char>>) -> Seq<char> {
    "The following repos have mutable `rev` fields (moving tag / branch):\n"@ + join(
        lines,
        "\n"@,
    ) + "\nMutable references are never updated after first install and are not supported.\nSee https://pre-commit.com/#using-the-latest-version-for-a-repository for more details.\nHint: `prek autoupdate` often fixes this\",\n"@
}

impl Config {
    /// The positions, in order, of the remote repositories with a mutable revision.
    pub fn repos_with_mutable_rev(&self) -> (r: Vec<usize>)
        ensures
            r@ == mutable_rev_positions(self.repos@, self.repos@.len() as int),
    {
        let mut r: Vec<usize> = Vec::new();
        let mut i: usize = 0;
        while i < self.repos.len()
            invariant
                i <= self.repos@.len(),
                r@ == mutable_rev_positions(self.repos@, i as int),
            decreases self.repos.len() - i,
        {
            let mutable = match &self.repos[i] {
                Repo::Remote(remote) => is_mutable_rev(remote.rev.as_str()),
                _ => false,
            };
            if mutable {
                r.push(i);
            }
            i = i + 1;
        }
        r
    }

    /// The warning owed for the repositories with a mutable revision, if there are any.
    pub fn mutable_rev_warning(&self) -> (r: Option<String>)
        ensures
            ({
                let positions = mutable_rev_positions(self.repos@, self.repos@.len() as int);
                &&& r is None <==> positions.len() == 0
                &&& r matches Some(m) ==> m@ == mutable_revs_message(
                    positions.map_values(|i: usize| rev_line(self.repos@[i as int])),
                )
            }),
    {
        let positions = self.repos_with_mutable_rev();
        if positions.len() == 0 {
            return None;
        }
        let count = self.repos.len();
        proof {
            lemma_mutable_rev_positions_bounded(self.repos@, count as int);
        }
        let mut lines: Vec<String> = Vec::new();
        let mut k: usize = 0;
        while k < positions.len()
            invariant
                k <= positions@.len(),
                positions@ == mutable_rev_positions(self.repos@, self.repos@.len() as int),
                forall|j: int| 0 <= j < positions@.len() ==> #[trigger] positions@[j] < self.repos@.len(),
                string_views(lines@) == positions@.take(k as int).map_values(
                    |i: usize| rev_line(self.repos@[i as int]),
                ),
            decreases positions.len() - k,
        {
            let line = match &self.repos[positions[k]] {
                Repo::Remote(remote) => {
                    let mut line = cyan(remote.repo.as_str());
                    line.append(": ");
                    line.append(yellow(remote.rev.as_str()).as_str());
                    line
                },
                _ => String::new(),
            };
            let ghost f = |i: usize| rev_line(self.repos@[i as int]);
            assert(line@ == f(positions@[k as int]));
            let ghost before = string_views(lines@);
            lines.push(line);
            assert(string_views(lines@) =~= before.push(line@));
            assert(positions@.take(k + 1).map_values(f) =~= positions@.take(k as int).map_values(
                f,
            ).push(f(positions@[k as int])));
            k = k + 1;
        }
        assert(positions@.take(positions.len() as int) =~= positions@);
        let mut message = owned("The following repos have mutable `rev` fields (moving tag / branch):\n");
        message.append(join_strings(&lines, "\n").as_str());
        message.append("\nMutable references are never updated after first install and are not supported.\nSee https://pre-commit.com/#using-the-latest-version-for-a-repository for more details.\nHint: `prek autoupdate` often fixes this\",\n");
        Some(message)
    }
}

proof fn lemma_mutable_rev_positions_bounded(repos: Seq<Repo>, n: int)
    requires
        n <= repos.len(),
        n <= usize::MAX,
    ensures
        forall|j: int| 0 <= j < mutable_rev_positions(repos, n).len() ==> #[trigger] mutable_rev_positions(repos, n)[j] < n,
    decreases n,
{
    if n > 0 {
        lemma_mutable_rev_positions_bounded(repos, n - 1);
        let rest = mutable_rev_positions(repos, n - 1);
        if has_mutable_rev(repos[n - 1]) {
            assert forall|j: int| 0 <= j < rest.push((n - 1) as usize).len() implies #[trigger] rest.push(
                (n - 1) as usize,
            )[j] < n by {
                if j < rest.len() {
                    assert(rest.push((n - 1) as usize)[j] == rest[j]);
                }
            }
        }
    }
}

/// Keys that prek does not use.
pub open spec fn expected_unused(key: Seq<char>) -> bool {
    key == "minimum_pre_commit_version"@ || key == "ci"@
}

/// The ignored keys that deserve a warning: all but the ones prek expects to ignore.
pub fn unexpected_keys(keys: &Vec<String>) -> (r: Vec<String>)
    ensures
        texts(r@) == texts(keys@).filter(|k: Seq<char>| !expected_unused(k)),
{
    let ghost keep = |k: Seq<char>| !expected_unused(k);
    let mut r: Vec<String> = Vec::new();
    let mut i: usize = 0;
    while i < keys.len()
        invariant
            i <= keys@.len(),
            keep == (|k: Seq<char>| !expected_unused(k)),
            texts(r@) == texts(keys@.take(i as int)).filter(keep),
        decreases keys.len() - i,
    {
        reveal_with_fuel(Seq::<_>::filter, 1);
        let key = &keys[i];
        let unused = str_equals(key.as_str(), "minimum_pre_commit_version") || str_equals(
            key.as_str(),
            "ci",
        );
        assert(texts(keys@.take(i + 1)).drop_last() =~= texts(keys@.take(i as int)));
        assert(texts(keys@.take(i + 1)).last() == key@);
        if !unused {
            r.push(key.clone());
            assert(texts(r@) =~= texts(keys@.take(i as int)).filter(keep).push(key@));
        }
        i = i + 1;
    }
    assert(keys@.take(keys.len() as int) =~= keys@);
    r
}

/// The warning about keys the configuration sets that prek ignores.
pub open spec fn ignored_keys_message(path: Seq<char>, keys: Seq<Seq<char>>) -> Seq<char> {
    "Ignored unexpected keys in `"@ + cyan_text(path) + "`: "@ + join(
        keys.map_values(|k: Seq<char>| "`"@ + yellow_text(k) + "`"@),
        ", "@,
    )
}

/// The warning owed for the ignored keys of the configuration at `path`:
/// none when every ignored key is one prek expects to ignore.
pub fn ignored_keys_warning(path: &str, ignored: &Vec<String>) -> (r: Option<String>)
    ensures
        ({
            let unused = texts(ignored@).filter(|k: Seq<char>| !expected_unused(k));
            &&& r is None <==> unused.len() == 0
            &&& r matches Some(m) ==> m@ == ignored_keys_message(path@, unused)
        }),
{
    let unused = unexpected_keys(ignored);
    if unused.len() == 0 {
        return None;
    }
    let mut quoted: Vec<String> = Vec::new();
    let mut k: usize = 0;
    while k < unused.len()
        invariant
            k <= unused@.len(),
            string_views(quoted@) == texts(unused@.take(k as int)).map_values(
                |key: Seq<char>| "`"@ + yellow_text(key) + "`"@,
            ),
        decreases unused.len() - k,
    {
        let mut item = owned("`");
        item.append(yellow(unused[k].as_str()).as_str());
        item.append("`");
        let ghost f = |key: Seq<char>| "`"@ + yellow_text(key) + "`"@;
        assert(item@ == f(unused@[k as int]@));
        let ghost before = string_views(quoted@);
        quoted.push(item);
        assert(string_views(quoted@) =~= before.push(item@));
        assert(texts(unused@.take(k + 1)) =~= texts(unused@.take(k as int)).push(
            unused@[k as int]@,
        ));
        assert(texts(unused@.take(k + 1)).map_values(f) =~= texts(unused@.take(k as int)).map_values(
            f,
        ).push(f(unused@[k as int]@)));
        k = k + 1;
    }
    assert(unused@.take(unused.len() as int) =~= unused@);
    let mut message = owned("Ignored unexpected keys in `");
    message.append(cyan(path).as_str());
    message.append("`: ");
    message.append(join_strings(&quoted, ", ").as_str());
    Some(message)
}

/// A file type tag that is not among the known ones.
#[derive(Debug, Clone)]
pub struct UnknownTypeTag {
    pub tag: String,
}

impl UnknownTypeTag {
    /// The message that reports the unknown tag.
    pub fn message(&self) -> (s: String)
        ensures
            s@ == "Type tag \""@ + self.tag@ + "\" is not recognized. Try upgrading prek"@,
    {
        let mut s = owned("Type tag \"");
        s.append(self.tag.as_str());
        s.append("\" is not recognized. Try upgrading prek");
        s
    }
}

/// Whether `tag` is one of the known file type tags.
pub open spec fn known_tag(tag: Seq<char>) -> bool {
    known_type_tags().contains(tag)
}

fn is_known_tag(tag: &String, all: &Vec<String>) -> (r: bool)
    requires
        string_views(all@) == known_type_tags(),
    ensures
        r == known_tag(tag@),
{
    let mut i: usize = 0;
    while i < all.len()
        invariant
            string_views(all@) == known_type_tags(),
            i <= all@.len(),
            forall|j: int| 0 <= j < i ==> all@[j]@ != tag@,
        decreases all.len() - i,
    {
        if str_equals(all[i].as_str(), tag.as_str()) {
            assert(string_views(all@)[i as int] == tag@);
            return true;
        }
        i = i + 1;
    }
    assert forall|j: int| 0 <= j < string_views(all@).len() implies string_views(all@)[j]
        != tag@ by {
        assert(all@[j]@ != tag@);
    }
    false
}

/// Checks that every tag of a `types`, `types_or` or `exclude_types` list is a
/// known file type tag, and hands the list back; the first unknown tag is reported.
pub fn validate_tags(tags: Option<Vec<String>>) -> (r: Result<Option<Vec<String>>, UnknownTypeTag>)
    ensures
        r is Ok <==> (tags matches Some(v) ==> forall|i: int|
            0 <= i < v@.len() ==> known_tag(#[trigger] v@[i]@)),
        r matches Ok(v) ==> v == tags,
        r matches Err(e) ==> tags matches Some(v) && exists|i: int|
            0 <= i < v@.len() && v@[i]@ == e.tag@ && !known_tag(e.tag@) && forall|j: int|
                0 <= j < i ==> known_tag(#[trigger] v@[j]@),
{
    if let Some(list) = &tags {
        let all = all_tags();
        let mut i: usize = 0;
        while i < list.len()
            invariant
                i <= list@.len(),
                string_views(all@) == known_type_tags(),
                tags matches Some(v) && v@ == list@,
                forall|j: int| 0 <= j < i ==> known_tag(#[trigger] list@[j]@),
            decreases list.len() - i,
        {
            if !is_known_tag(&list[i], &all) {
                let tag = list[i].clone();
                assert(list@[i as int]@ == tag@);
                return Err(UnknownTypeTag { tag });
            }
            i = i + 1;
        }
    }
    Ok(tags)
}

} // verus!

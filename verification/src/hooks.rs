//! Hook definitions: the options every hook carries, remote and manifest
//! hooks, and the meta hooks that prek defines itself.

use vstd::prelude::*;

use crate::config::{Language, MetaHookID, Stage, meta_hook_id_name, meta_hook_id_of};
use crate::regex::{RegexError, SerdeRegex, escape_regex, regex_escaped, regex_is_valid};
use crate::text::owned;

verus! {

/// The name of the configuration file.
pub const CONFIG_FILE: &'static str = ".pre-commit-config.yaml";

/// The other accepted name of the configuration file.
pub const ALT_CONFIG_FILE: &'static str = ".pre-commit-config.yml";

/// Common hook options.
#[derive(Debug)]
pub struct HookOptions {
    /// Not documented in the official docs.
    pub alias: Option<String>,
    /// The pattern of files to run on.
    pub files: Option<SerdeRegex>,
    /// Exclude files that were matched by `files`.
    pub exclude: Option<SerdeRegex>,
    /// List of file types to run on (AND).
    pub types: Option<Vec<String>>,
    /// List of file types to run on (OR).
    pub types_or: Option<Vec<String>>,
    /// List of file types to exclude.
    pub exclude_types: Option<Vec<String>>,
    /// Not documented in the official docs.
    pub additional_dependencies: Option<Vec<String>>,
    /// Additional arguments to pass to the hook.
    pub args: Option<Vec<String>>,
    /// This hook will run even if there are no matching files.
    pub always_run: Option<bool>,
    /// If this hook fails, don't run any more hooks.
    pub fail_fast: Option<bool>,
    /// Append filenames that would be checked to the hook entry as arguments.
    pub pass_filenames: Option<bool>,
    /// A description of the hook. For metadata only.
    pub description: Option<String>,
    /// Run the hook on a specific version of the language.
    pub language_version: Option<String>,
    /// Write the output of the hook to a file when the hook fails or verbose is enabled.
    pub log_file: Option<String>,
    /// This hook will execute using a single process instead of in parallel.
    pub require_serial: Option<bool>,
    /// Select which git hook(s) to run for.
    pub stages: Option<Vec<Stage>>,
    /// Print the output of the hook even if it passes.
    pub verbose: Option<bool>,
    /// The minimum version of prek required to run this hook.
    pub minimum_prek_version: Option<String>,
}

/// The value of each hook option.
pub ghost struct HookOptionsView {
    pub alias: Option<Seq<char>>,
    pub files: Option<Seq<char>>,
    pub exclude: Option<Seq<char>>,
    pub types: Option<Seq<Seq<char>>>,
    pub types_or: Option<Seq<Seq<char>>>,
    pub exclude_types: Option<Seq<Seq<char>>>,
    pub additional_dependencies: Option<Seq<Seq<char>>>,
    pub args: Option<Seq<Seq<char>>>,
    pub always_run: Option<bool>,
    pub fail_fast: Option<bool>,
    pub pass_filenames: Option<bool>,
    pub description: Option<Seq<char>>,
    pub language_version: Option<Seq<char>>,
    pub log_file: Option<Seq<char>>,
    pub require_serial: Option<bool>,
    pub stages: Option<Seq<Stage>>,
    pub verbose: Option<bool>,
    pub minimum_prek_version: Option<Seq<char>>,
}

pub open spec fn opt_text(o: Option<String>) -> Option<Seq<char>> {
    match o {
        Some(s) => Some(s@),
        None => None,
    }
}

pub open spec fn opt_pattern(o: Option<SerdeRegex>) -> Option<Seq<char>> {
    match o {
        Some(r) => Some(r@),
        None => None,
    }
}

pub open spec fn texts(v: Seq<String>) -> Seq<Seq<char>> {
    v.map_values(|s: String| s@)
}

pub open spec fn opt_texts(o: Option<Vec<String>>) -> Option<Seq<Seq<char>>> {
    match o {
        Some(v) => Some(texts(v@)),
        None => None,
    }
}

pub open spec fn opt_stages(o: Option<Vec<Stage>>) -> Option<Seq<Stage>> {
    match o {
        Some(v) => Some(v@),
        None => None,
    }
}

impl View for HookOptions {
    type V = HookOptionsView;

    open spec fn view(&self) -> HookOptionsView {
        HookOptionsView {
            alias: opt_text(self.alias),
            files: opt_pattern(self.files),
            exclude: opt_pattern(self.exclude),
            types: opt_texts(self.types),
            types_or: opt_texts(self.types_or),
            exclude_types: opt_texts(self.exclude_types),
            additional_dependencies: opt_texts(self.additional_dependencies),
            args: opt_texts(self.args),
            always_run: self.always_run,
            fail_fast: self.fail_fast,
            pass_filenames: self.pass_filenames,
            description: opt_text(self.description),
            language_version: opt_text(self.language_version),
            log_file: opt_text(self.log_file),
            require_serial: self.require_serial,
            stages: opt_stages(self.stages),
            verbose: self.verbose,
            minimum_prek_version: opt_text(self.minimum_prek_version),
        }
    }
}

/// The options with none of them set.
pub open spec fn unset_options() -> HookOptionsView {
    HookOptionsView {
        alias: None,
        files: None,
        exclude: None,
        types: None,
        types_or: None,
        exclude_types: None,
        additional_dependencies: None,
        args: None,
        always_run: None,
        fail_fast: None,
        pass_filenames: None,
        description: None,
        language_version: None,
        log_file: None,
        require_serial: None,
        stages: None,
        verbose: None,
        minimum_prek_version: None,
    }
}

/// `over` where it is set, `base` otherwise.
pub open spec fn prefer<T>(base: Option<T>, over: Option<T>) -> Option<T> {
    if over is Some {
        over
    } else {
        base
    }
}

impl HookOptionsView {
    /// Each option of `other` that is set replaces the same option of `self`.
    pub open spec fn overridden_by(self, other: HookOptionsView) -> HookOptionsView {
        HookOptionsView {
            alias: prefer(self.alias, other.alias),
            files: prefer(self.files, other.files),
            exclude: prefer(self.exclude, other.exclude),
            types: prefer(self.types, other.types),
            types_or: prefer(self.types_or, other.types_or),
            exclude_types: prefer(self.exclude_types, other.exclude_types),
            additional_dependencies: prefer(
                self.additional_dependencies,
                other.additional_dependencies,
            ),
            args: prefer(self.args, other.args),
            always_run: prefer(self.always_run, other.always_run),
            fail_fast: prefer(self.fail_fast, other.fail_fast),
            pass_filenames: prefer(self.pass_filenames, other.pass_filenames),
            description: prefer(self.description, other.description),
            language_version: prefer(self.language_version, other.language_version),
            log_file: prefer(self.log_file, other.log_file),
            require_serial: prefer(self.require_serial, other.require_serial),
            stages: prefer(self.stages, other.stages),
            verbose: prefer(self.verbose, other.verbose),
            minimum_prek_version: prefer(self.minimum_prek_version, other.minimum_prek_version),
        }
    }
}

fn clone_text(o: &Option<String>) -> (r: Option<String>)
    ensures
        opt_text(r) == opt_text(*o),
{
    match o {
        Some(s) => Some(s.clone()),
        None => None,
    }
}

fn clone_pattern(o: &Option<SerdeRegex>) -> (r: Option<SerdeRegex>)
    ensures
        opt_pattern(r) == opt_pattern(*o),
{
    match o {
        Some(re) => Some(re.clone()),
        None => None,
    }
}

fn clone_strings(v: &Vec<String>) -> (r: Vec<String>)
    ensures
        texts(r@) == texts(v@),
{
    let mut r: Vec<String> = Vec::new();
    let mut i: usize = 0;
    while i < v.len()
        invariant
            i <= v.len(),
            texts(r@) == texts(v@.take(i as int)),
        decreases v.len() - i,
    {
        r.push(v[i].clone());
        assert(texts(v@.take(i + 1)) =~= texts(v@.take(i as int)).push(v@[i as int]@));
        i = i + 1;
    }
    assert(v@.take(v.len() as int) =~= v@);
    r
}

fn clone_texts(o: &Option<Vec<String>>) -> (r: Option<Vec<String>>)
    ensures
        opt_texts(r) == opt_texts(*o),
{
    match o {
        Some(v) => Some(clone_strings(v)),
        None => None,
    }
}

fn clone_stages(o: &Option<Vec<Stage>>) -> (r: Option<Vec<Stage>>)
    ensures
        opt_stages(r) == opt_stages(*o),
{
    match o {
        Some(v) => {
            let mut r: Vec<Stage> = Vec::new();
            let mut i: usize = 0;
            while i < v.len()
                invariant
                    i <= v.len(),
                    r@ == v@.take(i as int),
                decreases v.len() - i,
            {
                r.push(v[i]);
                assert(v@.take(i + 1) =~= v@.take(i as int).push(v@[i as int]));
                i = i + 1;
            }
            assert(v@.take(v.len() as int) =~= v@);
            Some(r)
        },
        None => None,
    }
}

impl Default for HookOptions {
    fn default() -> (r: Self)
        ensures
            r@ == unset_options(),
    {
        HookOptions {
            alias: None,
            files: None,
            exclude: None,
            types: None,
            types_or: None,
            exclude_types: None,
            additional_dependencies: None,
            args: None,
            always_run: None,
            fail_fast: None,
            pass_filenames: None,
            description: None,
            language_version: None,
            log_file: None,
            require_serial: None,
            stages: None,
            verbose: None,
            minimum_prek_version: None,
        }
    }
}

impl Clone for HookOptions {
    fn clone(&self) -> (r: Self)
        ensures
            r@ == self@,
    {
        HookOptions {
            alias: clone_text(&self.alias),
            files: clone_pattern(&self.files),
            exclude: clone_pattern(&self.exclude),
            types: clone_texts(&self.types),
            types_or: clone_texts(&self.types_or),
            exclude_types: clone_texts(&self.exclude_types),
            additional_dependencies: clone_texts(&self.additional_dependencies),
            args: clone_texts(&self.args),
            always_run: self.always_run,
            fail_fast: self.fail_fast,
            pass_filenames: self.pass_filenames,
            description: clone_text(&self.description),
            language_version: clone_text(&self.language_version),
            log_file: clone_text(&self.log_file),
            require_serial: self.require_serial,
            stages: clone_stages(&self.stages),
            verbose: self.verbose,
            minimum_prek_version: clone_text(&self.minimum_prek_version),
        }
    }
}

fn override_text(slot: &mut Option<String>, over: &Option<String>)
    ensures
        opt_text(*final(slot)) == prefer(opt_text(*old(slot)), opt_text(*over)),
{
    if over.is_some() {
        *slot = clone_text(over);
    }
}

fn override_pattern(slot: &mut Option<SerdeRegex>, over: &Option<SerdeRegex>)
    ensures
        opt_pattern(*final(slot)) == prefer(opt_pattern(*old(slot)), opt_pattern(*over)),
{
    if over.is_some() {
        *slot = clone_pattern(over);
    }
}

fn override_texts(slot: &mut Option<Vec<String>>, over: &Option<Vec<String>>)
    ensures
        opt_texts(*final(slot)) == prefer(opt_texts(*old(slot)), opt_texts(*over)),
{
    if over.is_some() {
        *slot = clone_texts(over);
    }
}

fn override_flag(slot: &mut Option<bool>, over: &Option<bool>)
    ensures
        *final(slot) == prefer(*old(slot), *over),
{
    if over.is_some() {
        *slot = *over;
    }
}

fn override_stages(slot: &mut Option<Vec<Stage>>, over: &Option<Vec<Stage>>)
    ensures
        opt_stages(*final(slot)) == prefer(opt_stages(*old(slot)), opt_stages(*over)),
{
    if over.is_some() {
        *slot = clone_stages(over);
    }
}

impl HookOptions {
    /// Overrides each option with the one of `other` where `other` sets it.
    pub fn update(&mut self, other: &Self)
        ensures
            final(self)@ == old(self)@.overridden_by(other@),
    {
        override_text(&mut self.alias, &other.alias);
        override_pattern(&mut self.files, &other.files);
        override_pattern(&mut self.exclude, &other.exclude);
        override_texts(&mut self.types, &other.types);
        override_texts(&mut self.types_or, &other.types_or);
        override_texts(&mut self.exclude_types, &other.exclude_types);
        override_texts(&mut self.additional_dependencies, &other.additional_dependencies);
        override_texts(&mut self.args, &other.args);
        override_flag(&mut self.always_run, &other.always_run);
        override_flag(&mut self.fail_fast, &other.fail_fast);
        override_flag(&mut self.pass_filenames, &other.pass_filenames);
        override_text(&mut self.description, &other.description);
        override_text(&mut self.language_version, &other.language_version);
        override_text(&mut self.log_file, &other.log_file);
        override_flag(&mut self.require_serial, &other.require_serial);
        override_stages(&mut self.stages, &other.stages);
        override_flag(&mut self.verbose, &other.verbose);
        override_text(&mut self.minimum_prek_version, &other.minimum_prek_version);
    }
}

/// Updating with options that set nothing changes nothing, and updating
/// options that set nothing gives the other options.
pub proof fn lemma_update_unit(a: HookOptionsView)
    ensures
        a.overridden_by(unset_options()) == a,
        unset_options().overridden_by(a) == a,
{
}

/// Updating twice with the same options is the same as updating once.
pub proof fn lemma_update_idempotent(a: HookOptionsView, b: HookOptionsView)
    ensures
        a.overridden_by(b).overridden_by(b) == a.overridden_by(b),
{
}

proof fn lemma_prefer_associative<T>(a: Option<T>, b: Option<T>, c: Option<T>)
    ensures
        prefer(prefer(a, b), c) == prefer(a, prefer(b, c)),
{
}

/// Updating with `b` and then with `c` is updating with `b` updated by `c`.
pub proof fn lemma_update_associative(a: HookOptionsView, b: HookOptionsView, c: HookOptionsView)
    ensures
        a.overridden_by(b).overridden_by(c) == a.overridden_by(b.overridden_by(c)),
{
    lemma_prefer_associative(a.alias, b.alias, c.alias);
    lemma_prefer_associative(a.files, b.files, c.files);
    lemma_prefer_associative(a.exclude, b.exclude, c.exclude);
    lemma_prefer_associative(a.types, b.types, c.types);
    lemma_prefer_associative(a.types_or, b.types_or, c.types_or);
    lemma_prefer_associative(a.exclude_types, b.exclude_types, c.exclude_types);
    lemma_prefer_associative(
        a.additional_dependencies,
        b.additional_dependencies,
        c.additional_dependencies,
    );
    lemma_prefer_associative(a.args, b.args, c.args);
    lemma_prefer_associative(a.always_run, b.always_run, c.always_run);
    lemma_prefer_associative(a.fail_fast, b.fail_fast, c.fail_fast);
    lemma_prefer_associative(a.pass_filenames, b.pass_filenames, c.pass_filenames);
    lemma_prefer_associative(a.description, b.description, c.description);
    lemma_prefer_associative(a.language_version, b.language_version, c.language_version);
    lemma_prefer_associative(a.log_file, b.log_file, c.log_file);
    lemma_prefer_associative(a.require_serial, b.require_serial, c.require_serial);
    lemma_prefer_associative(a.stages, b.stages, c.stages);
    lemma_prefer_associative(a.verbose, b.verbose, c.verbose);
    lemma_prefer_associative(
        a.minimum_prek_version,
        b.minimum_prek_version,
        c.minimum_prek_version,
    );
}

/// An option that the update sets is the one of the options applied last:
/// for every option, when `b` sets it the result holds `b`'s value, and
/// when `b` leaves it unset the result keeps `a`'s.
pub proof fn lemma_update_right_wins(a: HookOptionsView, b: HookOptionsView)
    ensures
        b.alias is Some ==> a.overridden_by(b).alias == b.alias,
        b.alias is None ==> a.overridden_by(b).alias == a.alias,
        b.files is Some ==> a.overridden_by(b).files == b.files,
        b.files is None ==> a.overridden_by(b).files == a.files,
        b.exclude is Some ==> a.overridden_by(b).exclude == b.exclude,
        b.exclude is None ==> a.overridden_by(b).exclude == a.exclude,
        b.types is Some ==> a.overridden_by(b).types == b.types,
        b.types is None ==> a.overridden_by(b).types == a.types,
        b.types_or is Some ==> a.overridden_by(b).types_or == b.types_or,
        b.types_or is None ==> a.overridden_by(b).types_or == a.types_or,
        b.exclude_types is Some ==> a.overridden_by(b).exclude_types == b.exclude_types,
        b.exclude_types is None ==> a.overridden_by(b).exclude_types == a.exclude_types,
        b.additional_dependencies is Some ==> a.overridden_by(b).additional_dependencies == b.additional_dependencies,
        b.additional_dependencies is None ==> a.overridden_by(b).additional_dependencies == a.additional_dependencies,
        b.args is Some ==> a.overridden_by(b).args == b.args,
        b.args is None ==> a.overridden_by(b).args == a.args,
        b.always_run is Some ==> a.overridden_by(b).always_run == b.always_run,
        b.always_run is None ==> a.overridden_by(b).always_run == a.always_run,
        b.fail_fast is Some ==> a.overridden_by(b).fail_fast == b.fail_fast,
        b.fail_fast is None ==> a.overridden_by(b).fail_fast == a.fail_fast,
        b.pass_filenames is Some ==> a.overridden_by(b).pass_filenames == b.pass_filenames,
        b.pass_filenames is None ==> a.overridden_by(b).pass_filenames == a.pass_filenames,
        b.description is Some ==> a.overridden_by(b).description == b.description,
        b.description is None ==> a.overridden_by(b).description == a.description,
        b.language_version is Some ==> a.overridden_by(b).language_version == b.language_version,
        b.language_version is None ==> a.overridden_by(b).language_version == a.language_version,
        b.log_file is Some ==> a.overridden_by(b).log_file == b.log_file,
        b.log_file is None ==> a.overridden_by(b).log_file == a.log_file,
        b.require_serial is Some ==> a.overridden_by(b).require_serial == b.require_serial,
        b.require_serial is None ==> a.overridden_by(b).require_serial == a.require_serial,
        b.stages is Some ==> a.overridden_by(b).stages == b.stages,
        b.stages is None ==> a.overridden_by(b).stages == a.stages,
        b.verbose is Some ==> a.overridden_by(b).verbose == b.verbose,
        b.verbose is None ==> a.overridden_by(b).verbose == a.verbose,
        b.minimum_prek_version is Some ==> a.overridden_by(b).minimum_prek_version == b.minimum_prek_version,
        b.minimum_prek_version is None ==> a.overridden_by(b).minimum_prek_version == a.minimum_prek_version,
{
}

/// A remote hook in the configuration file.
///
/// All keys in manifest hook dict are valid in a config hook dict, but are optional.
#[derive(Debug, Clone)]
pub struct RemoteHook {
    /// The id of the hook.
    pub id: String,
    /// Override the name of the hook.
    pub name: Option<String>,
    /// Override the entrypoint.
    pub entry: Option<String>,
    /// Override the language.
    pub language: Option<Language>,
    pub options: HookOptions,
}

/// A hook as a manifest defines it.
#[derive(Debug, Clone)]
pub struct ManifestHook {
    /// The id of the hook.
    pub id: String,
    /// The name of the hook.
    pub name: String,
    /// The command to run. It can contain arguments that will not be overridden.
    pub entry: String,
    /// The language of the hook. Tells prek how to install and run the hook.
    pub language: Language,
    pub options: HookOptions,
}

/// A local hook in the configuration file: the same as a manifest hook.
pub type LocalHook = ManifestHook;

/// A meta hook predefined in pre-commit.
///
/// It's the same as the manifest hook definition but with only a few predefined id allowed.
#[derive(Debug, Clone)]
pub struct MetaHook(pub(crate) ManifestHook);

/// Why a hook of the meta repository was refused.
#[derive(Debug)]
pub enum MetaHookError {
    /// The id is not one of the meta hooks.
    UnknownId,
    /// The hook names a language other than `system`.
    LanguageNotSystem,
    /// The hook sets an entry.
    EntryNotAllowed,
    /// The default file pattern of the meta hook did not compile.
    InvalidDefaultPattern(RegexError),
}

impl MetaHookError {
    /// The message that reports this error.
    pub fn message(&self) -> (s: String)
        ensures
            s@ == meta_hook_error_message(*self),
    {
        match self {
            MetaHookError::UnknownId => owned("Unknown meta hook id"),
            MetaHookError::LanguageNotSystem => owned("language must be system for meta hook"),
            MetaHookError::EntryNotAllowed => owned("entry is not allowed for meta hook"),
            MetaHookError::InvalidDefaultPattern(_) => owned("invalid default file pattern for meta hook"),
        }
    }
}

pub open spec fn meta_hook_error_message(e: MetaHookError) -> Seq<char> {
    match e {
        MetaHookError::UnknownId => "Unknown meta hook id"@,
        MetaHookError::LanguageNotSystem => "language must be system for meta hook"@,
        MetaHookError::EntryNotAllowed => "entry is not allowed for meta hook"@,
        MetaHookError::InvalidDefaultPattern(_) => "invalid default file pattern for meta hook"@,
    }
}

/// The file pattern of the meta hooks that check the configuration: a
/// configuration file name at the start or the other one at the end.
pub open spec fn meta_files_pattern() -> Seq<char> {
    "^"@ + regex_escaped(CONFIG_FILE@) + "|"@ + regex_escaped(ALT_CONFIG_FILE@) + "$"@
}

/// Whether the meta hook runs on the configuration files.
pub open spec fn meta_hook_checks_config(id: MetaHookID) -> bool {
    id != MetaHookID::Identity
}

/// The name a meta hook is shown with.
pub open spec fn meta_hook_default_name(id: MetaHookID) -> Seq<char> {
    match id {
        MetaHookID::CheckHooksApply => "Check hooks apply"@,
        MetaHookID::CheckUselessExcludes => "Check useless excludes"@,
        MetaHookID::Identity => "identity"@,
    }
}

/// The options a meta hook starts from.
pub open spec fn meta_hook_default_options(id: MetaHookID) -> HookOptionsView {
    if meta_hook_checks_config(id) {
        HookOptionsView { files: Some(meta_files_pattern()), ..unset_options() }
    } else {
        HookOptionsView { verbose: Some(true), ..unset_options() }
    }
}

fn meta_files_regex() -> (r: Result<SerdeRegex, RegexError>)
    ensures
        r is Ok <==> regex_is_valid(meta_files_pattern()),
        r matches Ok(re) ==> re@ == meta_files_pattern(),
{
    let mut pattern = owned("^");
    pattern.append(escape_regex(CONFIG_FILE).as_str());
    pattern.append("|");
    pattern.append(escape_regex(ALT_CONFIG_FILE).as_str());
    pattern.append("$");
    SerdeRegex::new(pattern.as_str())
}

fn meta_hook_name(id: MetaHookID) -> (s: String)
    ensures
        s@ == meta_hook_default_name(id),
{
    match id {
        MetaHookID::CheckHooksApply => owned("Check hooks apply"),
        MetaHookID::CheckUselessExcludes => owned("Check useless excludes"),
        MetaHookID::Identity => owned("identity"),
    }
}

impl MetaHook {
    /// The manifest hook this meta hook stands for.
    pub closed spec fn inner(self) -> ManifestHook {
        self.0
    }

    /// Checks a hook of the meta repository and fills in its defaults: the id
    /// must name a meta hook, the language may only be `system`, and no entry
    /// may be given; the options the hook sets override the meta hook's own.
    pub fn from_remote_hook(hook: RemoteHook) -> (r: Result<MetaHook, MetaHookError>)
        ensures
            match meta_hook_id_of(hook.id@) {
                None => r matches Err(MetaHookError::UnknownId),
                Some(id) => if hook.language matches Some(l) && l != Language::System {
                    r matches Err(MetaHookError::LanguageNotSystem)
                } else if hook.entry is Some {
                    r matches Err(MetaHookError::EntryNotAllowed)
                } else if meta_hook_checks_config(id) && !regex_is_valid(meta_files_pattern()) {
                    r matches Err(MetaHookError::InvalidDefaultPattern(_))
                } else {
                    r matches Ok(m) && m.inner().id@ == meta_hook_id_name(id) && m.inner().name@
                        == meta_hook_default_name(id) && m.inner().entry@ == Seq::<char>::empty()
                        && m.inner().language == Language::System && m.inner().options@
                        == meta_hook_default_options(id).overridden_by(hook.options@)
                        && meta_hook_id_of(m.inner().id@) == Some(id)
                },
            },
    {
        let id = match MetaHookID::from_str(hook.id.as_str()) {
            Ok(id) => id,
            Err(()) => return Err(MetaHookError::UnknownId),
        };
        if let Some(language) = hook.language {
            if language != Language::System {
                return Err(MetaHookError::LanguageNotSystem);
            }
        }
        if hook.entry.is_some() {
            return Err(MetaHookError::EntryNotAllowed);
        }

        let mut options = HookOptions::default();
        match id {
            MetaHookID::CheckHooksApply | MetaHookID::CheckUselessExcludes => {
                match meta_files_regex() {
                    Ok(re) => {
                        options.files = Some(re);
                    },
                    Err(e) => return Err(MetaHookError::InvalidDefaultPattern(e)),
                }
            },
            MetaHookID::Identity => {
                options.verbose = Some(true);
            },
        }
        let mut defaults = ManifestHook {
            id: id.to_string(),
            name: meta_hook_name(id),
            language: Language::System,
            entry: String::new(),
            options,
        };
        defaults.options.update(&hook.options);
        proof {
            crate::config::lemma_meta_hook_id_roundtrip(id, hook.id@);
        }
        Ok(MetaHook(defaults))
    }
}

impl From<MetaHook> for ManifestHook {
    fn from(hook: MetaHook) -> (r: Self) {
        hook.0
    }
}

impl vstd::std_specs::convert::FromSpecImpl<MetaHook> for ManifestHook {
    open spec fn obeys_from_spec() -> bool {
        true
    }

    open spec fn from_spec(hook: MetaHook) -> ManifestHook {
        hook.inner()
    }
}

} // verus!

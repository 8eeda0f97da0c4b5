//! The launch state machine: what a launch attempt needs, what it reports,
//! and how it moves from checking to a running game.
use vstd::prelude::*;
use crate::arguments::{
    ensure_user_properties, flag_count, get_game_jvm_args, jvm_args, lemma_user_properties_once,
    paired, retain, retained, substitute, substituted, with_user_properties, BindingsView,
    LaunchBindings,
};
use crate::classpath::{
    build_classpath, classpath, library_files, library_paths, version_jar, version_jar_path,
};
use crate::manifest::{descriptor_of_text, opt, ArgTemplate, ResolutionError, TemplateView};
use crate::platform::Os;
use crate::resolver::{
    base_id, base_of_text, opt_str, opt_templates, resolve_texts, resolved, EffectiveDescriptor,
    EffectiveView,
};
use crate::runtime::{
    automatic_java, choice, choose_runtime, runtime_program, tier, Java, RuntimeChoice,
};
use crate::text::{
    copy_texts, decimal, extend_texts, lemma_split_on_len, same, split, split_on, texts,
    to_decimal,
};

verus! {

/// What a launch attempt found missing on disk.
#[derive(Clone, Debug, PartialEq)]
pub enum Missing {
    Java8,
    Java17,
    VersionFiles(Vec<String>),
    /// The base version's jar: its download address and the file to write.
    VanillaVersion(String, String),
    /// The base version's descriptor: its id and the folder to write it to.
    VanillaJson(String, String),
}

pub enum MissingView {
    Java8,
    Java17,
    VersionFiles(Seq<Seq<char>>),
    VanillaVersion(Seq<char>, Seq<char>),
    VanillaJson(Seq<char>, Seq<char>),
}

impl View for Missing {
    type V = MissingView;

    open spec fn view(&self) -> MissingView {
        match self {
            Missing::Java8 => MissingView::Java8,
            Missing::Java17 => MissingView::Java17,
            Missing::VersionFiles(files) => MissingView::VersionFiles(texts(files@)),
            Missing::VanillaVersion(url, path) => MissingView::VanillaVersion(url@, path@),
            Missing::VanillaJson(id, folder) => MissingView::VanillaJson(id@, folder@),
        }
    }
}

/// What a launch attempt reports to the front end.
#[derive(Clone, Debug, PartialEq)]
pub enum Progress {
    Checked(Option<Missing>),
    Started,
    GotLog(String),
    Finished,
    Errored(String),
}

pub enum ProgressView {
    Checked(Option<MissingView>),
    Started,
    GotLog(Seq<char>),
    Finished,
    Errored(Seq<char>),
}

impl View for Progress {
    type V = ProgressView;

    open spec fn view(&self) -> ProgressView {
        match self {
            Progress::Checked(missing) => ProgressView::Checked(
                match missing {
                    Some(missing) => Some(missing@),
                    None => None,
                },
            ),
            Progress::Started => ProgressView::Started,
            Progress::GotLog(line) => ProgressView::GotLog(line@),
            Progress::Finished => ProgressView::Finished,
            Progress::Errored(message) => ProgressView::Errored(message@),
        }
    }
}

/// The settings of one launch attempt.
#[derive(Clone, Debug, PartialEq)]
pub struct GameSettings {
    pub username: String,
    pub game_version: String,
    pub jvm: String,
    pub jvmargs: Vec<String>,
    /// Memory for the game, in MiB.
    pub ram: u64,
    pub game_directory: String,
    pub autojava: bool,
    pub game_wrapper_commands: Vec<String>,
}

/// The words of a line of wrapper commands: what stands between its blanks,
/// but for an empty word at the front.
pub open spec fn wrapper_words(line: Seq<char>) -> Seq<Seq<char>> {
    let words = split_on(line, ' ');
    if words[0].len() == 0 {
        words.skip(1)
    } else {
        words
    }
}

impl GameSettings {
    /// The settings of a launch, from what the user chose. The runtime is
    /// picked by the launcher where the chosen one is called `Automatic`.
    pub fn from_preferences(
        username: String,
        game_version: String,
        java_name: &str,
        java_path: String,
        java_flags: &str,
        ram: u64,
        game_directory: String,
        wrapper_commands: &str,
    ) -> (r: GameSettings)
        ensures
            r.username == username,
            r.game_version == game_version,
            r.jvm == java_path,
            texts(r.jvmargs@) == split_on(java_flags@, ' '),
            r.ram == ram,
            r.game_directory == game_directory,
            r.autojava == (java_name@ == "Automatic"@),
            texts(r.game_wrapper_commands@) == wrapper_words(wrapper_commands@),
    {
        let mut wrapper = split(wrapper_commands, ' ');
        proof {
            lemma_split_on_len(wrapper_commands@, ' ');
        }
        if wrapper[0].as_str().is_empty() {
            wrapper.remove(0);
        }
        GameSettings {
            username,
            game_version,
            jvm: java_path,
            jvmargs: split(java_flags, ' '),
            ram,
            game_directory,
            autojava: same(java_name, "Automatic"),
            game_wrapper_commands: wrapper,
        }
    }
}

/// Where the front end's launcher stands.
#[derive(Clone, Debug, PartialEq)]
pub enum LauncherState {
    Idle,
    Launching(GameSettings),
    GettingLogs,
}

/// The front end's handle on the launch state machine.
#[derive(Clone, Debug, PartialEq)]
pub struct Launcher {
    pub state: LauncherState,
}

impl Default for Launcher {
    fn default() -> (r: Self)
        ensures
            r.state is Idle,
    {
        Launcher { state: LauncherState::Idle }
    }
}

impl Launcher {
    /// Begins a launch attempt with the given settings.
    pub fn start(&mut self, game_settings: GameSettings)
        ensures
            final(self).state == LauncherState::Launching(game_settings),
    {
        self.state = LauncherState::Launching(game_settings)
    }
}

/// What was found on disk for a launch attempt.
#[derive(Clone, Debug, PartialEq)]
pub struct DiskFacts {
    /// The text of the version's manifest.
    pub manifest: Option<String>,
    /// The text of the manifest that the version names as its base.
    pub base_manifest: Option<String>,
    /// The size of the version's jar.
    pub jar_size: Option<u64>,
    /// Whether the newer managed runtime is there.
    pub newer_runtime: bool,
    /// Whether the older managed runtime is there.
    pub older_runtime: bool,
}

/// The directory of a version.
pub open spec fn version_dir(mc_dir: Seq<char>, id: Seq<char>) -> Seq<char> {
    mc_dir + "/versions/"@ + id
}

/// The directory that a version's natives are unpacked into.
pub open spec fn natives_dir(mc_dir: Seq<char>, id: Seq<char>) -> Seq<char> {
    version_dir(mc_dir, id) + "/natives"@
}

/// The directory that the game runs in: the data directory for the profile
/// `Default`, the profile's own directory for any other.
pub open spec fn game_dir(profile: Seq<char>, mc_dir: Seq<char>) -> Seq<char> {
    if profile == "Default"@ {
        mc_dir
    } else {
        mc_dir + "/siglauncher_profiles/"@ + profile
    }
}

/// The flag that gives the game its memory.
pub open spec fn memory_flag(mib: nat) -> Seq<char> {
    "-Xmx"@ + decimal(mib) + "M"@
}

/// What the user is told about an error.
pub open spec fn message(error: ResolutionError) -> Seq<char> {
    match error {
        ResolutionError::NotFound => "The version's manifest was not found."@,
        ResolutionError::MalformedManifest => "The version's manifest is malformed."@,
        ResolutionError::MissingBaseDescriptor => "The base version's manifest was not found."@,
    }
}

/// The runtime that is missing for a game, if one is: the runtime of the
/// game's tier, where it is not on disk.
pub open spec fn missing_runtime(required: i64, newer: bool, older: bool) -> Option<MissingView> {
    match choice(required, newer, older) {
        RuntimeChoice::Fetch(Java::J8) => Some(MissingView::Java8),
        RuntimeChoice::Fetch(Java::J17) => Some(MissingView::Java17),
        RuntimeChoice::Use(_) => None,
    }
}

/// A game that asks for any version, or for one above 8, misses the newer
/// runtime where that is not on disk, whether or not the older one is; a
/// game that asks for a version up to 8 misses the older one likewise.
pub proof fn lemma_missing_runtime(required: i64, newer: bool, older: bool)
    ensures
        missing_runtime(required, newer, older) == (match tier(required) {
            Java::J17 => if newer {
                None
            } else {
                Some(MissingView::Java17)
            },
            Java::J8 => if older {
                None
            } else {
                Some(MissingView::Java8)
            },
        }),
{
}

/// Whether the version's jar is missing: absent, or empty.
pub open spec fn jar_lacking(facts: DiskFacts) -> bool {
    facts.jar_size is None || facts.jar_size == Some(0u64)
}

/// What checking makes of a resolution. A version that did not resolve gives
/// an error, but for one whose base is not on disk: that base is reported
/// missing, with its id and the version's directory. A version with a base
/// whose jar is lacking has that jar reported, with the address of the game's
/// jar. Then, where the launcher picks the runtime, a runtime that is not on
/// disk is reported. Otherwise nothing is missing.
pub open spec fn judged(
    resolution: Result<EffectiveView, ResolutionError>,
    base: Option<Seq<char>>,
    settings: GameSettings,
    facts: DiskFacts,
    mc_dir: Seq<char>,
) -> ProgressView {
    let id = settings.game_version@;
    match resolution {
        Err(ResolutionError::MissingBaseDescriptor) => ProgressView::Checked(
            Some(
                MissingView::VanillaJson(
                    match base {
                        Some(base) => base,
                        None => Seq::empty(),
                    },
                    version_dir(mc_dir, id),
                ),
            ),
        ),
        Err(error) => ProgressView::Errored(message(error)),
        Ok(effective) => if effective.base_jvm_arguments is Some && jar_lacking(facts) {
            match effective.client_url {
                Some(url) => ProgressView::Checked(
                    Some(MissingView::VanillaVersion(url, version_jar(mc_dir, id))),
                ),
                None => ProgressView::Errored(message(ResolutionError::MalformedManifest)),
            }
        } else if settings.autojava {
            ProgressView::Checked(
                missing_runtime(
                    effective.required_java_major,
                    facts.newer_runtime,
                    facts.older_runtime,
                ),
            )
        } else {
            ProgressView::Checked(None)
        },
    }
}

/// What checking finds on disk: what it makes of the resolution of the
/// manifests that were found.
pub open spec fn checked(settings: GameSettings, facts: DiskFacts, mc_dir: Seq<char>) -> ProgressView {
    let id = settings.game_version@;
    judged(
        resolved(id, opt(facts.manifest), opt(facts.base_manifest)),
        match facts.manifest {
            Some(text) => base_of_text(id, text@),
            None => None,
        },
        settings,
        facts,
        mc_dir,
    )
}

/// The view of a resolution.
pub open spec fn resolution_view(resolution: Result<EffectiveDescriptor, ResolutionError>) -> Result<
    EffectiveView,
    ResolutionError,
> {
    match resolution {
        Ok(effective) => Ok(effective@),
        Err(error) => Err(error),
    }
}

impl ResolutionError {
    /// What the user is told about the error.
    pub fn message(&self) -> (r: String)
        ensures
            r@ == message(*self),
    {
        match self {
            ResolutionError::NotFound => "The version's manifest was not found.".to_owned(),
            ResolutionError::MalformedManifest => "The version's manifest is malformed.".to_owned(),
            ResolutionError::MissingBaseDescriptor => "The base version's manifest was not found.".to_owned(),
        }
    }
}

/// An optional string as an optional slice.
pub fn as_slice(s: &Option<String>) -> (r: Option<&str>)
    ensures
        opt_str(r) == opt(*s),
{
    match s {
        Some(s) => Some(s.as_str()),
        None => None,
    }
}

/// The directory of a version.
pub fn version_directory(mc_dir: &str, id: &str) -> (r: String)
    ensures
        r@ == version_dir(mc_dir@, id@),
{
    let mut out = mc_dir.to_owned();
    out.append("/versions/");
    out.append(id);
    out
}

/// The manifest of the version `name`, as it lies in the directory of the
/// version `id`: a version's own manifest, or that of its base.
pub fn manifest_path(mc_dir: &str, id: &str, name: &str) -> (r: String)
    ensures
        r@ == version_dir(mc_dir@, id@) + "/"@ + name@ + ".json"@,
{
    let mut out = version_directory(mc_dir, id);
    out.append("/");
    out.append(name);
    out.append(".json");
    out
}

/// Judges a resolution: says what is missing for the launch, if anything is.
/// `base` is the id of the base that the version names, if it names one.
pub fn judge(
    resolution: Result<EffectiveDescriptor, ResolutionError>,
    base: Option<String>,
    settings: &GameSettings,
    facts: &DiskFacts,
    mc_dir: &str,
) -> (r: Progress)
    ensures
        r@ == judged(resolution_view(resolution), opt(base), *settings, *facts, mc_dir@),
{
    let id = settings.game_version.as_str();
    match resolution {
        Err(ResolutionError::MissingBaseDescriptor) => {
            let base = match base {
                Some(base) => base,
                None => String::new(),
            };
            Progress::Checked(Some(Missing::VanillaJson(base, version_directory(mc_dir, id))))
        },
        Err(error) => Progress::Errored(error.message()),
        Ok(effective) => {
            let lacking = match facts.jar_size {
                Some(size) => size == 0,
                None => true,
            };
            if effective.base_jvm_arguments.is_some() && lacking {
                match effective.client_url {
                    Some(url) => Progress::Checked(
                        Some(Missing::VanillaVersion(url, version_jar_path(mc_dir, id))),
                    ),
                    None => Progress::Errored(ResolutionError::MalformedManifest.message()),
                }
            } else if settings.autojava {
                match choose_runtime(
                    effective.required_java_major,
                    facts.newer_runtime,
                    facts.older_runtime,
                ) {
                    RuntimeChoice::Fetch(Java::J8) => Progress::Checked(Some(Missing::Java8)),
                    RuntimeChoice::Fetch(Java::J17) => Progress::Checked(Some(Missing::Java17)),
                    RuntimeChoice::Use(_) => Progress::Checked(None),
                }
            } else {
                Progress::Checked(None)
            }
        },
    }
}

/// Checks whether a launch can go ahead, from what was found on disk.
pub fn check(settings: &GameSettings, facts: &DiskFacts, mc_dir: &str) -> (r: Progress)
    ensures
        r@ == checked(*settings, *facts, mc_dir@),
{
    let id = settings.game_version.as_str();
    let resolution = resolve_texts(id, as_slice(&facts.manifest), as_slice(&facts.base_manifest));
    let base = match &facts.manifest {
        Some(text) => base_id(id, text.as_str()),
        None => None,
    };
    judge(resolution, base, settings, facts, mc_dir)
}

/// All that a launch takes, resolved: what the runtime is given to start the
/// game.
#[derive(Clone, Debug, PartialEq)]
pub struct EffectiveLaunchPlan {
    /// The files of the libraries that the platform takes: the version's
    /// own, then its base's.
    pub libraries: Vec<String>,
    pub classpath: String,
    pub jvm_arguments: Vec<String>,
    pub game_arguments: Vec<String>,
    pub main_class: String,
    pub asset_index_id: String,
    /// The directory that the game runs in.
    pub working_directory: String,
    /// The runtime's program.
    pub java_path: String,
    /// The flags that go with the runtime.
    pub java_arguments: Vec<String>,
}

pub struct PlanView {
    pub libraries: Seq<Seq<char>>,
    pub classpath: Seq<char>,
    pub jvm_arguments: Seq<Seq<char>>,
    pub game_arguments: Seq<Seq<char>>,
    pub main_class: Seq<char>,
    pub asset_index_id: Seq<char>,
    pub working_directory: Seq<char>,
    pub java_path: Seq<char>,
    pub java_arguments: Seq<Seq<char>>,
}

impl View for EffectiveLaunchPlan {
    type V = PlanView;

    open spec fn view(&self) -> PlanView {
        PlanView {
            libraries: texts(self.libraries@),
            classpath: self.classpath@,
            jvm_arguments: texts(self.jvm_arguments@),
            game_arguments: texts(self.game_arguments@),
            main_class: self.main_class@,
            asset_index_id: self.asset_index_id@,
            working_directory: self.working_directory@,
            java_path: self.java_path@,
            java_arguments: texts(self.java_arguments@),
        }
    }
}

/// The tokens that an optional list of templates gives on a platform.
pub open spec fn retained_opt(templates: Option<Seq<TemplateView>>, os: Os) -> Option<Seq<Seq<char>>> {
    match templates {
        Some(templates) => Some(retained(templates, os)),
        None => None,
    }
}

/// The JVM arguments of a launch: those of the descriptor, then those of its
/// base, where it has one.
pub open spec fn plan_jvm(effective: EffectiveView, os: Os, nativedir: Seq<char>) -> Seq<Seq<char>> {
    jvm_args(retained_opt(effective.jvm_arguments, os), nativedir) + match effective.base_jvm_arguments {
        Some(base) => jvm_args(retained_opt(base, os), nativedir),
        None => Seq::empty(),
    }
}

/// The bindings of a launch.
pub open spec fn bindings_of(
    settings: GameSettings,
    effective: EffectiveView,
    os: Os,
    mc_dir: Seq<char>,
) -> BindingsView {
    BindingsView {
        player_name: settings.username@,
        version_name: settings.game_version@,
        game_directory: game_dir(settings.game_directory@, mc_dir),
        assets_root: mc_dir + "/assets"@,
        assets_index_name: effective.asset_index_id,
        identity: "000"@,
        access_token: "[pro]"@,
        user_properties: "{}"@,
        user_type: "legacy"@,
        version_type: "Release"@,
        classpath: classpath(effective.libraries, os, mc_dir, settings.game_version@),
        game_assets: mc_dir + "/resources"@,
    }
}

/// The plan of a launch: the files of the effective libraries that the
/// platform takes, and the class path made of them; the JVM
/// arguments with the natives directory in place; the game arguments with
/// every token in place and the user properties among them; and the runtime,
/// the launcher's own choice or the user's.
pub open spec fn plan_of(
    effective: EffectiveView,
    settings: GameSettings,
    os: Os,
    mc_dir: Seq<char>,
) -> PlanView {
    let java = tier(effective.required_java_major);
    PlanView {
        libraries: library_files(effective.libraries, os, mc_dir),
        classpath: classpath(effective.libraries, os, mc_dir, settings.game_version@),
        jvm_arguments: plan_jvm(effective, os, natives_dir(mc_dir, settings.game_version@)),
        game_arguments: with_user_properties(
            substituted(
                retained(effective.game_arguments, os),
                bindings_of(settings, effective, os, mc_dir),
            ),
        ),
        main_class: effective.main_class,
        asset_index_id: effective.asset_index_id,
        working_directory: game_dir(settings.game_directory@, mc_dir),
        java_path: if settings.autojava {
            runtime_program(mc_dir, java, os)
        } else {
            settings.jvm@
        },
        java_arguments: if settings.autojava {
            split_on(java.flag_line(), ' ')
        } else {
            texts(settings.jvmargs@)
        },
    }
}

/// The game arguments of a plan hold the user properties exactly once: the
/// flag stands in them once, directly followed by its value, whatever the
/// templates of the version and of its base hold.
pub proof fn lemma_plan_user_properties_once(
    effective: EffectiveView,
    settings: GameSettings,
    os: Os,
    mc_dir: Seq<char>,
)
    ensures
        flag_count(plan_of(effective, settings, os, mc_dir).game_arguments) == 1,
        paired(plan_of(effective, settings, os, mc_dir).game_arguments),
{
    lemma_user_properties_once(
        substituted(
            retained(effective.game_arguments, os),
            bindings_of(settings, effective, os, mc_dir),
        ),
    );
}

/// The directory that the game runs in.
pub fn game_directory(profile: &str, mc_dir: &str) -> (r: String)
    ensures
        r@ == game_dir(profile@, mc_dir@),
{
    let mut out = mc_dir.to_owned();
    if !same(profile, "Default") {
        out.append("/siglauncher_profiles/");
        out.append(profile);
    }
    out
}

/// The tokens of an optional list of templates on a platform, then filled as
/// JVM arguments.
pub fn jvm_arguments_of(templates: &Option<Vec<ArgTemplate>>, os: Os, nativedir: &str) -> (r: Vec<
    String,
>)
    ensures
        texts(r@) == jvm_args(
            retained_opt(opt_templates(*templates), os),
            nativedir@,
        ),
{
    match templates {
        Some(templates) => {
            let tokens = retain(templates, os);
            get_game_jvm_args(Some(&tokens), nativedir)
        },
        None => get_game_jvm_args(None, nativedir),
    }
}

/// Builds the plan of a launch from the effective descriptor.
pub fn launch_plan(
    effective: &EffectiveDescriptor,
    settings: &GameSettings,
    os: Os,
    mc_dir: &str,
) -> (r: EffectiveLaunchPlan)
    requires
        effective@.wf(),
    ensures
        r@ == plan_of(effective@, *settings, os, mc_dir@),
{
    let id = settings.game_version.as_str();
    assert forall|i: int| 0 <= i < effective.libraries@.len() implies (
    #[trigger] effective.libraries@[i])@.wf() by {
        assert(effective@.libraries[i] == effective.libraries@[i]@);
    }
    let libraries = library_paths(&effective.libraries, os, mc_dir);
    let classpath = build_classpath(&effective.libraries, os, mc_dir, id);
    let mut nativedir = version_directory(mc_dir, id);
    nativedir.append("/natives");
    let mut jvm_arguments = jvm_arguments_of(&effective.jvm_arguments, os, nativedir.as_str());
    match &effective.base_jvm_arguments {
        Some(base) => {
            let more = jvm_arguments_of(base, os, nativedir.as_str());
            extend_texts(&mut jvm_arguments, &more);
        },
        None => {},
    }
    let working_directory = game_directory(settings.game_directory.as_str(), mc_dir);
    let bindings = LaunchBindings::new(
        settings.username.clone(),
        settings.game_version.clone(),
        working_directory.clone(),
        mc_dir,
        effective.asset_index_id.clone(),
        classpath.clone(),
    );
    let tokens = retain(&effective.game_arguments, os);
    let game_arguments = ensure_user_properties(substitute(&tokens, &bindings));
    let (java_path, java_arguments) = if settings.autojava {
        automatic_java(effective.required_java_major, os, mc_dir)
    } else {
        (settings.jvm.clone(), copy_texts(&settings.jvmargs))
    };
    EffectiveLaunchPlan {
        libraries,
        classpath,
        jvm_arguments,
        game_arguments,
        main_class: effective.main_class.clone(),
        asset_index_id: effective.asset_index_id.clone(),
        working_directory,
        java_path,
        java_arguments,
    }
}

/// The process that a launch starts.
#[derive(Clone, Debug, PartialEq)]
pub struct CommandLine {
    pub program: String,
    pub arguments: Vec<String>,
    /// The directory that the process runs in.
    pub working_directory: String,
}

impl CommandLine {
    /// The words of the command: the program, then its arguments.
    pub open spec fn words(self) -> Seq<Seq<char>> {
        seq![self.program@] + texts(self.arguments@)
    }
}

/// The words of the command that starts the game: the wrapper commands, the
/// runtime, the memory flag, the runtime's flags, the class path behind its
/// flag, the JVM arguments of the manifest, the main class, and the game's
/// arguments.
pub open spec fn command_words(plan: PlanView, wrapper: Seq<Seq<char>>, ram: nat) -> Seq<Seq<char>> {
    wrapper + seq![plan.java_path, memory_flag(ram)] + plan.java_arguments + seq![
        "-cp"@,
        plan.classpath,
    ] + plan.jvm_arguments + seq![plan.main_class] + plan.game_arguments
}

/// Writes the flag that gives the game its memory.
pub fn memory_argument(mib: u64) -> (r: String)
    ensures
        r@ == memory_flag(mib as nat),
{
    let mut out = "-Xmx".to_owned();
    let amount = to_decimal(mib);
    out.append(amount.as_str());
    out.append("M");
    out
}

/// Builds the command that starts the game. Its first word is the program:
/// the first wrapper command where there is one, else the runtime.
pub fn command_line(plan: &EffectiveLaunchPlan, settings: &GameSettings) -> (r: CommandLine)
    ensures
        r.words() == command_words(plan@, texts(settings.game_wrapper_commands@), settings.ram as nat),
        r.working_directory@ == plan@.working_directory,
{
    let mut words = copy_texts(&settings.game_wrapper_commands);
    let ghost wrapper = words@;
    words.push(plan.java_path.clone());
    words.push(memory_argument(settings.ram));
    proof {
        assert(texts(words@) =~= texts(wrapper) + seq![
            plan@.java_path,
            memory_flag(settings.ram as nat),
        ]);
    }
    extend_texts(&mut words, &plan.java_arguments);
    let ghost before = words@;
    words.push("-cp".to_owned());
    words.push(plan.classpath.clone());
    proof {
        assert(texts(words@) =~= texts(before) + seq!["-cp"@, plan@.classpath]);
    }
    extend_texts(&mut words, &plan.jvm_arguments);
    let ghost before = words@;
    words.push(plan.main_class.clone());
    proof {
        assert(texts(words@) =~= texts(before) + seq![plan@.main_class]);
    }
    extend_texts(&mut words, &plan.game_arguments);
    let ghost all = words@;
    proof {
        assert(texts(all).len() == all.len());
    }
    let program = words.remove(0);
    CommandLine { program, arguments: words, working_directory: plan.working_directory.clone() }
}

/// The command of a launch, from what was found on disk. A version that does
/// not resolve gives the error's message.
pub fn launch_command(settings: &GameSettings, facts: &DiskFacts, os: Os, mc_dir: &str) -> (r: Result<
    CommandLine,
    String,
>)
    ensures
        match r {
            Ok(command) => resolved(
                settings.game_version@,
                opt(facts.manifest),
                opt(facts.base_manifest),
            ) matches Ok(effective) && command.words() == command_words(
                plan_of(effective, *settings, os, mc_dir@),
                texts(settings.game_wrapper_commands@),
                settings.ram as nat,
            ) && command.working_directory@ == game_dir(settings.game_directory@, mc_dir@),
            Err(text) => resolved(
                settings.game_version@,
                opt(facts.manifest),
                opt(facts.base_manifest),
            ) matches Err(error) && text@ == message(error),
        },
{
    let id = settings.game_version.as_str();
    match resolve_texts(id, as_slice(&facts.manifest), as_slice(&facts.base_manifest)) {
        Ok(effective) => {
            let plan = launch_plan(&effective, settings, os, mc_dir);
            Ok(command_line(&plan, settings))
        },
        Err(error) => Err(error.message()),
    }
}

/// How starting the process went.
#[derive(Clone, Copy, Debug, PartialEq, Eq, Structural)]
pub enum SpawnOutcome {
    /// The process runs.
    Running,
    /// The program is not on the search path.
    NoProgram,
    /// The process could not be started.
    Failed,
}

/// Where a launch attempt stands.
#[derive(Clone, Debug, PartialEq)]
pub enum State {
    /// About to check what is on disk.
    Checking(Option<GameSettings>),
    /// About to build the command.
    Launching(GameSettings),
    /// Waiting for the process to start: the state holds its program.
    Spawning(String),
    /// Relaying the process's output.
    GettingLogs,
    /// At rest.
    Idle,
}

/// What happened outside since the last step.
#[derive(Clone, Debug, PartialEq)]
pub enum Event {
    /// The disk was read.
    Disk(DiskFacts),
    /// The process was started, or was not.
    Spawned(SpawnOutcome),
    /// The process wrote a line, or closed its output.
    Line(Option<String>),
}

/// What a step comes to: what is reported, where the attempt stands now, and
/// the process to start, if this step asks for one.
#[derive(Clone, Debug, PartialEq)]
pub struct Transition {
    pub progress: Option<Progress>,
    pub state: State,
    pub command: Option<CommandLine>,
}

/// What the user is told where the program of a launch is not found.
pub open spec fn no_program(program: Seq<char>) -> Seq<char> {
    "Java or wrapper doesn't exist: "@ + program
}

/// What the user is told where the program of a launch could not be started.
pub open spec fn not_started(program: Seq<char>) -> Seq<char> {
    "Failed to start game process: "@ + program
}

/// What is reported of the process that was asked for, and the state after
/// it. Where the process does not run, the report names its program.
pub fn started(outcome: SpawnOutcome, program: &str) -> (r: (Progress, State))
    ensures
        match outcome {
            SpawnOutcome::Running => r.0@ == ProgressView::Started && r.1 is GettingLogs,
            SpawnOutcome::NoProgram => r.0@ == ProgressView::Errored(no_program(program@))
                && r.1 is Idle,
            SpawnOutcome::Failed => r.0@ == ProgressView::Errored(not_started(program@))
                && r.1 is Idle,
        },
{
    match outcome {
        SpawnOutcome::Running => (Progress::Started, State::GettingLogs),
        SpawnOutcome::NoProgram => {
            let mut text = "Java or wrapper doesn't exist: ".to_owned();
            text.append(program);
            (Progress::Errored(text), State::Idle)
        },
        SpawnOutcome::Failed => {
            let mut text = "Failed to start game process: ".to_owned();
            text.append(program);
            (Progress::Errored(text), State::Idle)
        },
    }
}

/// What is reported of the process's output, and the state after it: a line
/// is passed on, and the end of the output ends the attempt.
pub fn relay(line: Option<String>) -> (r: (Progress, State))
    ensures
        match line {
            Some(text) => r.0@ == ProgressView::GotLog(text@) && r.1 is GettingLogs,
            None => r.0@ == ProgressView::Finished && r.1 is Idle,
        },
{
    match line {
        Some(text) => (Progress::GotLog(text), State::GettingLogs),
        None => (Progress::Finished, State::Idle),
    }
}

/// What a step reports, where it reports anything.
pub open spec fn reported(step: Transition) -> Option<ProgressView> {
    match step.progress {
        Some(progress) => Some(progress@),
        None => None,
    }
}

/// One step of a launch attempt. Checking reads the disk and goes on to
/// launching only where nothing is missing; anything missing, and any error,
/// puts the attempt to rest. Launching builds the command and asks for the
/// process; a process that does not run is an error that names its program.
/// Once the process runs, its lines are passed on until its output ends. An
/// event that the state does not wait for changes nothing.
pub fn launcher(state: State, event: Event, os: Os, mc_dir: &str) -> (r: Transition)
    ensures
        match (state, event) {
            (State::Checking(Some(settings)), Event::Disk(facts)) => {
                &&& reported(r) == Some(checked(settings, facts, mc_dir@))
                &&& r.command is None
                &&& if checked(settings, facts, mc_dir@) == ProgressView::Checked(None) {
                    r.state == State::Launching(settings)
                } else {
                    r.state is Idle
                }
            },
            (State::Checking(None), _) => {
                &&& reported(r) == Some(ProgressView::Errored("There are no settings to launch with."@))
                &&& r.command is None
                &&& r.state is Idle
            },
            (State::Launching(settings), Event::Disk(facts)) => match resolved(
                settings.game_version@,
                opt(facts.manifest),
                opt(facts.base_manifest),
            ) {
                Ok(effective) => {
                    &&& r.progress is None
                    &&& r.command matches Some(command)
                    &&& r.state matches State::Spawning(program)
                    &&& program@ == command.program@
                    &&& command.words() == command_words(
                        plan_of(effective, settings, os, mc_dir@),
                        texts(settings.game_wrapper_commands@),
                        settings.ram as nat,
                    )
                    &&& command.working_directory@ == game_dir(settings.game_directory@, mc_dir@)
                },
                Err(error) => {
                    &&& reported(r) == Some(ProgressView::Errored(message(error)))
                    &&& r.state is Idle
                    &&& r.command is None
                },
            },
            (State::Spawning(program), Event::Spawned(outcome)) => {
                &&& r.command is None
                &&& match outcome {
                    SpawnOutcome::Running => reported(r) == Some(ProgressView::Started)
                        && r.state is GettingLogs,
                    SpawnOutcome::NoProgram => reported(r) == Some(
                        ProgressView::Errored(no_program(program@)),
                    ) && r.state is Idle,
                    SpawnOutcome::Failed => reported(r) == Some(
                        ProgressView::Errored(not_started(program@)),
                    ) && r.state is Idle,
                }
            },
            (State::GettingLogs, Event::Line(line)) => {
                &&& r.command is None
                &&& match line {
                    Some(text) => reported(r) == Some(ProgressView::GotLog(text@))
                        && r.state is GettingLogs,
                    None => reported(r) == Some(ProgressView::Finished) && r.state is Idle,
                }
            },
            (state, _) => r.progress is None && r.command is None && r.state == state,
        },
{
    match (state, event) {
        (State::Checking(Some(settings)), Event::Disk(facts)) => {
            let progress = check(&settings, &facts, mc_dir);
            let state = match &progress {
                Progress::Checked(None) => State::Launching(settings),
                _ => State::Idle,
            };
            Transition { progress: Some(progress), state, command: None }
        },
        (State::Checking(None), _) => Transition {
            progress: Some(Progress::Errored("There are no settings to launch with.".to_owned())),
            state: State::Idle,
            command: None,
        },
        (State::Launching(settings), Event::Disk(facts)) => match launch_command(
            &settings,
            &facts,
            os,
            mc_dir,
        ) {
            Ok(command) => Transition {
                progress: None,
                state: State::Spawning(command.program.clone()),
                command: Some(command),
            },
            Err(text) => Transition {
                progress: Some(Progress::Errored(text)),
                state: State::Idle,
                command: None,
            },
        },
        (State::Spawning(program), Event::Spawned(outcome)) => {
            let (progress, state) = started(outcome, program.as_str());
            Transition { progress: Some(progress), state, command: None }
        },
        (State::GettingLogs, Event::Line(line)) => {
            let (progress, state) = relay(line);
            Transition { progress: Some(progress), state, command: None }
        },
        (state, _) => Transition { progress: None, state, command: None },
    }
}

impl GameSettings {
    /// Whether two settings say the same.
    pub open spec fn agrees(self, other: GameSettings) -> bool {
        &&& self.username@ == other.username@
        &&& self.game_version@ == other.game_version@
        &&& self.jvm@ == other.jvm@
        &&& texts(self.jvmargs@) == texts(other.jvmargs@)
        &&& self.ram == other.ram
        &&& self.game_directory@ == other.game_directory@
        &&& self.autojava == other.autojava
        &&& texts(self.game_wrapper_commands@) == texts(other.game_wrapper_commands@)
    }

    /// A copy of the settings.
    pub fn duplicate(&self) -> (r: GameSettings)
        ensures
            r.agrees(*self),
    {
        GameSettings {
            username: self.username.clone(),
            game_version: self.game_version.clone(),
            jvm: self.jvm.clone(),
            jvmargs: copy_texts(&self.jvmargs),
            ram: self.ram,
            game_directory: self.game_directory.clone(),
            autojava: self.autojava,
            game_wrapper_commands: copy_texts(&self.game_wrapper_commands),
        }
    }
}

/// The state that a launch attempt begins in: checking, with a copy of the
/// settings where there are any.
pub fn start(game_settings: Option<&GameSettings>) -> (r: State)
    ensures
        match game_settings {
            Some(settings) => r matches State::Checking(Some(own)) && own.agrees(*settings),
            None => r == State::Checking(None),
        },
{
    match game_settings {
        Some(settings) => State::Checking(Some(settings.duplicate())),
        None => State::Checking(None),
    }
}

/// One entry of a directory.
#[derive(Clone, Debug, PartialEq)]
pub struct DirEntry {
    pub name: String,
    pub is_dir: bool,
}

/// The names of the entries that are directories, in order.
pub open spec fn directories(entries: Seq<DirEntry>) -> Seq<Seq<char>>
    decreases entries.len(),
{
    if entries.len() == 0 {
        Seq::empty()
    } else {
        let before = directories(entries.drop_last());
        if entries.last().is_dir {
            before.push(entries.last().name@)
        } else {
            before
        }
    }
}

/// The directory that holds the installed versions.
pub fn versions_directory(mc_dir: &str) -> (r: String)
    ensures
        r@ == mc_dir@ + "/versions"@,
{
    let mut out = mc_dir.to_owned();
    out.append("/versions");
    out
}

/// The installed versions, from the entries of the versions directory: each
/// directory in it is one.
pub fn getinstalledversions(entries: &Vec<DirEntry>) -> (r: Vec<String>)
    ensures
        texts(r@) == directories(entries@),
{
    let mut out: Vec<String> = Vec::new();
    let mut i: usize = 0;
    while i < entries.len()
        invariant
            i <= entries.len(),
            texts(out@) == directories(entries@.take(i as int)),
        decreases entries.len() - i,
    {
        proof {
            assert(entries@.take(i + 1).drop_last() =~= entries@.take(i as int));
        }
        if entries[i].is_dir {
            out.push(entries[i].name.clone());
        }
        i += 1;
    }
    proof {
        assert(entries@.take(entries@.len() as int) =~= entries@);
    }
    out
}

/// A version that is layered on a base whose manifest is not on disk is
/// reported with that base missing: the report carries the base's id and the
/// version's directory, and the attempt does not go on to launching.
pub proof fn lemma_missing_base_is_reported(
    settings: GameSettings,
    facts: DiskFacts,
    mc_dir: Seq<char>,
    base: Seq<char>,
)
    requires
        facts.manifest is Some,
        descriptor_of_text(settings.game_version@, facts.manifest->0@) matches Some(descriptor)
            && descriptor.inherits_from == Some(base),
        facts.base_manifest is None,
    ensures
        checked(settings, facts, mc_dir) == ProgressView::Checked(
            Some(MissingView::VanillaJson(base, version_dir(mc_dir, settings.game_version@))),
        ),
        checked(settings, facts, mc_dir) != ProgressView::Checked(None),
{
}

} // verus!

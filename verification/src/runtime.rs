//! The managed Java runtimes: which one a game takes, where it lies, where it
//! is fetched from, and the flags that come with it.
use vstd::prelude::*;
use crate::platform::Os;
use crate::text::{split, split_on, texts};

verus! {

/// The managed Java runtimes, one for each tier of major versions: `J8` for
/// the games that ask for Java 8 or older, `J17` for the others.
#[derive(Clone, Copy, Debug, PartialEq, Eq, Structural)]
pub enum Java {
    J8,
    J17,
}

/// The flags for the older runtime, in one line.
pub const JAVA8_FLAGS: &'static str =
    "-XX:+UnlockExperimentalVMOptions -XX:+UnlockDiagnosticVMOptions -XX:+AlwaysActAsServerClassMachine -XX:+ParallelRefProcEnabled -XX:+DisableExplicitGC -XX:+AlwaysPreTouch -XX:+AggressiveOpts -XX:MaxInlineLevel=15 -XX:MaxVectorSize=32 -XX:ThreadPriorityPolicy=1 -XX:+UseNUMA -XX:+UseDynamicNumberOfGCThreads -XX:NmethodSweepActivity=1 -XX:ReservedCodeCacheSize=350M -XX:-DontCompileHugeMethods -XX:MaxNodeLimit=240000 -XX:NodeLimitFudgeFactor=8000 -Dgraal.CompilerConfiguration=community";

/// The flags for the newer runtime, in one line.
pub const JAVA17_FLAGS: &'static str =
    "-XX:+UnlockExperimentalVMOptions -XX:+UnlockDiagnosticVMOptions -XX:+AlwaysActAsServerClassMachine -XX:+AlwaysPreTouch -XX:+DisableExplicitGC -XX:+UseNUMA -XX:NmethodSweepActivity=1 -XX:ReservedCodeCacheSize=400M -XX:NonNMethodCodeHeapSize=12M -XX:ProfiledCodeHeapSize=194M -XX:NonProfiledCodeHeapSize=194M -XX:-DontCompileHugeMethods -XX:MaxNodeLimit=240000 -XX:NodeLimitFudgeFactor=8000 -XX:+UseVectorCmov -XX:+PerfDisableSharedMem -XX:+UseFastUnorderedTimeStamps -XX:+UseCriticalJavaThreadPriority -XX:ThreadPriorityPolicy=1 -XX:AllocatePrefetchStyle=3 -XX:+UseShenandoahGC -XX:ShenandoahGCMode=iu -XX:ShenandoahGuaranteedGCInterval=1000000 -XX:AllocatePrefetchStyle=1";

/// What to do about the runtime.
#[derive(Clone, Copy, Debug, PartialEq, Eq, Structural)]
pub enum RuntimeChoice {
    /// The runtime is on disk: use it.
    Use(Java),
    /// The runtime is not on disk: fetch it.
    Fetch(Java),
}

impl RuntimeChoice {
    /// The runtime that the choice is about.
    pub open spec fn java(self) -> Java {
        match self {
            RuntimeChoice::Use(java) => java,
            RuntimeChoice::Fetch(java) => java,
        }
    }
}

/// The runtime that a game takes by the major version it asks for. 0 asks
/// for any, and takes the newer runtime; so does every version above 8. A
/// version up to 8 takes the older runtime.
pub open spec fn tier(required: i64) -> Java {
    if required == 0 || required > 8 {
        Java::J17
    } else {
        Java::J8
    }
}

/// What to do about the runtime of a game that asks for the major version
/// `required`, given which runtimes are on disk: the runtime of its tier is
/// used where it is there, and fetched where it is not.
pub open spec fn choice(required: i64, newer_present: bool, older_present: bool) -> RuntimeChoice {
    match tier(required) {
        Java::J17 => if newer_present {
            RuntimeChoice::Use(Java::J17)
        } else {
            RuntimeChoice::Fetch(Java::J17)
        },
        Java::J8 => if older_present {
            RuntimeChoice::Use(Java::J8)
        } else {
            RuntimeChoice::Fetch(Java::J8)
        },
    }
}

/// The runtime of a choice is the runtime of the tier, whatever is on disk.
pub proof fn lemma_choice_is_of_tier(required: i64, newer_present: bool, older_present: bool)
    ensures
        choice(required, newer_present, older_present).java() == tier(required),
        choice(required, newer_present, older_present) is Use <==> (match tier(required) {
            Java::J17 => newer_present,
            Java::J8 => older_present,
        }),
{
}

/// Chooses the runtime for a game.
pub fn choose_runtime(required: i64, newer_present: bool, older_present: bool) -> (r: RuntimeChoice)
    ensures
        r == choice(required, newer_present, older_present),
{
    if required == 0 || required > 8 {
        if newer_present {
            RuntimeChoice::Use(Java::J17)
        } else {
            RuntimeChoice::Fetch(Java::J17)
        }
    } else {
        if older_present {
            RuntimeChoice::Use(Java::J8)
        } else {
            RuntimeChoice::Fetch(Java::J8)
        }
    }
}

impl Java {
    /// The name of the runtime's directory.
    pub open spec fn dir_name(self) -> Seq<char> {
        match self {
            Java::J8 => "java8"@,
            Java::J17 => "java17"@,
        }
    }

    /// The flags that the launcher passes to the runtime, in one line.
    pub open spec fn flag_line(self) -> Seq<char> {
        match self {
            Java::J8 => JAVA8_FLAGS@,
            Java::J17 => JAVA17_FLAGS@,
        }
    }

    /// The name of the runtime's directory.
    pub fn directory_name(&self) -> (r: &'static str)
        ensures
            r@ == self.dir_name(),
    {
        match self {
            Java::J8 => "java8",
            Java::J17 => "java17",
        }
    }

    /// The flags that the launcher passes to the runtime: the words of the
    /// flag line.
    pub fn flags(&self) -> (r: Vec<String>)
        ensures
            texts(r@) == split_on(self.flag_line(), ' '),
    {
        match self {
            Java::J8 => split(JAVA8_FLAGS, ' '),
            Java::J17 => split(JAVA17_FLAGS, ' '),
        }
    }
}

/// The directory that holds the managed runtimes.
pub open spec fn runtime_root(mc_dir: Seq<char>) -> Seq<char> {
    mc_dir + "/siglauncher_java"@
}

/// The directory of one managed runtime.
pub open spec fn runtime_dir(mc_dir: Seq<char>, java: Java) -> Seq<char> {
    runtime_root(mc_dir) + "/"@ + java.dir_name()
}

/// The name of the runtime's program below its `bin` directory.
pub open spec fn program_name(os: Os) -> Seq<char> {
    match os {
        Os::Linux => "java"@,
        Os::Windows => "javaw.exe"@,
    }
}

/// The program of one managed runtime.
pub open spec fn runtime_program(mc_dir: Seq<char>, java: Java, os: Os) -> Seq<char> {
    runtime_dir(mc_dir, java) + "/bin/"@ + program_name(os)
}

/// The directory of one managed runtime: the launch is held back where it is
/// not on disk.
pub fn runtime_directory(mc_dir: &str, java: Java) -> (r: String)
    ensures
        r@ == runtime_dir(mc_dir@, java),
{
    let mut out = mc_dir.to_owned();
    out.append("/siglauncher_java");
    out.append("/");
    out.append(java.directory_name());
    out
}

/// The program of one managed runtime.
pub fn runtime_program_path(mc_dir: &str, java: Java, os: Os) -> (r: String)
    ensures
        r@ == runtime_program(mc_dir@, java, os),
{
    let mut out = runtime_directory(mc_dir, java);
    out.append("/bin/");
    match os {
        Os::Linux => out.append("java"),
        Os::Windows => out.append("javaw.exe"),
    }
    out
}

/// The runtime that a game takes by the major version it asks for.
pub fn runtime_tier(required: i64) -> (r: Java)
    ensures
        r == tier(required),
{
    if required == 0 || required > 8 {
        Java::J17
    } else {
        Java::J8
    }
}

/// The runtime that the launcher picks by itself: the program of the runtime
/// of the game's tier, and its flags. Whether that runtime is on disk is not
/// asked here: checking reports it where it is missing.
pub fn automatic_java(required: i64, os: Os, mc_dir: &str) -> (r: (String, Vec<String>))
    ensures
        r.0@ == runtime_program(mc_dir@, tier(required), os),
        texts(r.1@) == split_on(tier(required).flag_line(), ' '),
{
    let java = runtime_tier(required);
    (runtime_program_path(mc_dir, java, os), java.flags())
}

/// What fetching a runtime takes: the archive's address, the directory that
/// it is unpacked into, and the file that holds the archive meanwhile.
#[derive(Clone, Debug, PartialEq)]
pub struct RuntimeDownload {
    pub url: String,
    pub folder: String,
    pub archive: String,
}

/// The address of a runtime's archive.
pub open spec fn archive_url(java: Java, os: Os) -> Seq<char> {
    "https://raw.githubusercontent.com/JafKc/siglauncher-jvm/main/binaries/"@ + java.dir_name()
        + "-"@ + os.name() + ".zip"@
}

/// The runtime that a download is for: the newer one or the older one.
pub open spec fn java_for(new: bool) -> Java {
    if new {
        Java::J17
    } else {
        Java::J8
    }
}

/// Plans the download of a managed runtime, the newer one or the older one.
pub fn downloadjava(new: bool, os: Os, mc_dir: &str) -> (r: RuntimeDownload)
    ensures
        r.url@ == archive_url(java_for(new), os),
        r.folder@ == runtime_root(mc_dir@),
        r.archive@ == runtime_root(mc_dir@) + "/compressedjava.zip"@,
{
    let java = if new {
        Java::J17
    } else {
        Java::J8
    };
    let mut url = "https://raw.githubusercontent.com/JafKc/siglauncher-jvm/main/binaries/".to_owned();
    url.append(java.directory_name());
    url.append("-");
    url.append(os.as_str());
    url.append(".zip");
    let mut folder = mc_dir.to_owned();
    folder.append("/siglauncher_java");
    let mut archive = folder.clone();
    archive.append("/compressedjava.zip");
    RuntimeDownload { url, folder, archive }
}

} // verus!

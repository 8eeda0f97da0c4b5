use siglauncher::launcher::{
    check, command_line, game_directory, getinstalledversions, judge, launch_command,
    launch_plan,
    launcher, manifest_path, memory_argument, relay, start, started, version_directory,
    versions_directory, DirEntry, DiskFacts,
    Event, GameSettings, Launcher, LauncherState, Missing, Progress, SpawnOutcome, State,
};
use siglauncher::manifest::ResolutionError;
use siglauncher::platform::Os;
use siglauncher::resolver::resolve_texts;
use siglauncher::runtime::Java;

const BASE: &str = r#"{
  "mainClass": "net.minecraft.client.main.Main",
  "assets": "6",
  "downloads": {"client": {"url": "https://example.org/client.jar"}},
  "javaVersion": {"majorVersion": 17},
  "arguments": {
    "game": ["--username", "${auth_player_name}", "--version", "${version_name}",
             "--assetIndex", "${assets_index_name}",
             {"rules": [{"action": "allow", "features": {"is_demo_user": true}}], "value": "--demo"}],
    "jvm": ["-Djava.library.path=${natives_directory}", "-cp", "${classpath}"]
  },
  "libraries": [{"name": "com.mojang:brigadier:1.0.18"},
                {"name": "org.lwjgl:lwjgl:3.3.1:natives-windows",
                 "rules": [{"action": "allow", "os": {"name": "windows"}}]}]
}"#;

const DERIVED: &str = r#"{
  "mainClass": "net.fabricmc.loader.impl.launch.knot.KnotClient",
  "inheritsFrom": "1.20",
  "arguments": {"game": [], "jvm": ["-DFabricMcEmu=x"]},
  "libraries": [{"name": "net.fabricmc:fabric-loader:0.14.21", "url": "https://maven.fabricmc.net/"}]
}"#;

fn strings(v: &[&str]) -> Vec<String> {
    v.iter().map(|s| s.to_string()).collect()
}

fn settings(version: &str) -> GameSettings {
    GameSettings {
        username: "Steve".to_string(),
        game_version: version.to_string(),
        jvm: "java".to_string(),
        jvmargs: strings(&["-XX:+UseG1GC"]),
        ram: 2560,
        game_directory: "Default".to_string(),
        autojava: false,
        game_wrapper_commands: Vec::new(),
    }
}

fn facts(manifest: Option<&str>, base: Option<&str>) -> DiskFacts {
    DiskFacts {
        manifest: manifest.map(String::from),
        base_manifest: base.map(String::from),
        jar_size: Some(1000),
        newer_runtime: true,
        older_runtime: true,
    }
}

#[test]
fn memory_flag_of_two_and_a_half_gib() {
    let gib: f64 = 2.5;
    let mib = (gib * 1024.0) as u64;
    assert_eq!(mib, 2560);
    assert_eq!(memory_argument(mib), "-Xmx2560M");
    assert_eq!(memory_argument(mib), format!("-Xmx{}M", gib * 1024.));
}

#[test]
fn memory_flags() {
    assert_eq!(memory_argument(512), "-Xmx512M");
    assert_eq!(memory_argument(16384), "-Xmx16384M");
    assert_eq!(memory_argument(0), "-Xmx0M");
}

#[test]
fn derived_version_without_its_base_reports_the_base_missing() {
    let s = settings("1.20-Fabric");
    let f = facts(Some(DERIVED), None);
    let expected = Progress::Checked(Some(Missing::VanillaJson(
        "1.20".to_string(),
        "/m/versions/1.20-Fabric".to_string(),
    )));
    assert_eq!(check(&s, &f, "/m"), expected);
    let step = launcher(State::Checking(Some(s)), Event::Disk(f), Os::Linux, "/m");
    assert_eq!(step.progress, Some(expected));
    assert_eq!(step.state, State::Idle);
    assert_eq!(step.command, None);
}

#[test]
fn derived_version_without_its_jar_reports_the_jar_missing() {
    let s = settings("1.20-Fabric");
    let expected = Progress::Checked(Some(Missing::VanillaVersion(
        "https://example.org/client.jar".to_string(),
        "/m/versions/1.20-Fabric/1.20-Fabric.jar".to_string(),
    )));
    let mut f = facts(Some(DERIVED), Some(BASE));
    f.jar_size = None;
    assert_eq!(check(&s, &f, "/m"), expected);
    f.jar_size = Some(0);
    assert_eq!(check(&s, &f, "/m"), expected);
    f.jar_size = Some(1);
    assert_eq!(check(&s, &f, "/m"), Progress::Checked(None));
}

#[test]
fn plain_version_is_not_asked_for_its_jar() {
    let mut f = facts(Some(BASE), None);
    f.jar_size = None;
    assert_eq!(check(&settings("1.20"), &f, "/m"), Progress::Checked(None));
}

#[test]
fn missing_runtime_is_reported_when_the_launcher_picks_it() {
    let mut s = settings("1.20");
    let mut f = facts(Some(BASE), None);
    f.newer_runtime = false;
    assert_eq!(check(&s, &f, "/m"), Progress::Checked(None));
    s.autojava = true;
    assert_eq!(check(&s, &f, "/m"), Progress::Checked(Some(Missing::Java17)));
    f.newer_runtime = true;
    assert_eq!(check(&s, &f, "/m"), Progress::Checked(None));
    let old = r#"{"mainClass": "m", "javaVersion": {"majorVersion": 8}}"#;
    let mut f = facts(Some(old), None);
    f.older_runtime = false;
    assert_eq!(check(&s, &f, "/m"), Progress::Checked(Some(Missing::Java8)));
}

#[test]
fn errors_are_reported_with_a_message() {
    let s = settings("1.20");
    assert_eq!(
        check(&s, &facts(None, None), "/m"),
        Progress::Errored(ResolutionError::NotFound.message())
    );
    assert_eq!(
        check(&s, &facts(Some("{"), None), "/m"),
        Progress::Errored(ResolutionError::MalformedManifest.message())
    );
    assert_eq!(ResolutionError::NotFound.message(), "The version's manifest was not found.");
    assert_eq!(ResolutionError::MalformedManifest.message(), "The version's manifest is malformed.");
    assert_eq!(
        ResolutionError::MissingBaseDescriptor.message(),
        "The base version's manifest was not found."
    );
}

#[test]
fn checking_goes_on_to_launching_when_nothing_is_missing() {
    let s = settings("1.20");
    let step = launcher(
        State::Checking(Some(s.clone())),
        Event::Disk(facts(Some(BASE), None)),
        Os::Linux,
        "/m",
    );
    assert_eq!(step.progress, Some(Progress::Checked(None)));
    assert_eq!(step.state, State::Launching(s));
    assert_eq!(step.command, None);
}

#[test]
fn checking_without_settings_is_an_error() {
    let step = launcher(State::Checking(None), Event::Disk(facts(None, None)), Os::Linux, "/m");
    assert_eq!(
        step.progress,
        Some(Progress::Errored("There are no settings to launch with.".to_string()))
    );
    assert_eq!(step.state, State::Idle);
}

#[test]
fn command_of_a_plain_version() {
    let s = settings("1.20");
    let command = launch_command(&s, &facts(Some(BASE), None), Os::Linux, "/m").unwrap();
    assert_eq!(command.program, "java");
    assert_eq!(
        command.arguments,
        strings(&[
            "-Xmx2560M",
            "-XX:+UseG1GC",
            "-cp",
            "/m/libraries/com/mojang/brigadier/1.0.18/brigadier-1.0.18.jar:/m/versions/1.20/1.20.jar",
            "-Djava.library.path=/m/versions/1.20/natives",
            "net.minecraft.client.main.Main",
            "--username",
            "Steve",
            "--version",
            "1.20",
            "--assetIndex",
            "6",
            "--userProperties",
            "{}",
        ])
    );
    assert_eq!(command.working_directory, "/m");
}

#[test]
fn command_of_a_derived_version_with_wrapper_and_automatic_java() {
    let mut s = settings("1.20-Fabric");
    s.autojava = true;
    s.game_wrapper_commands = strings(&["gamemoderun", "mangohud"]);
    s.game_directory = "modded".to_string();
    let f = facts(Some(DERIVED), Some(BASE));
    let command = launch_command(&s, &f, Os::Windows, "C:/m").unwrap();
    assert_eq!(command.program, "gamemoderun");
    let mut expected = strings(&[
        "mangohud",
        "C:/m/siglauncher_java/java17/bin/javaw.exe",
        "-Xmx2560M",
    ]);
    expected.extend(Java::J17.flags());
    expected.extend(strings(&[
        "-cp",
        "C:/m/libraries/net/fabricmc/fabric-loader/0.14.21/fabric-loader-0.14.21.jar;\
         C:/m/libraries/com/mojang/brigadier/1.0.18/brigadier-1.0.18.jar;\
         C:/m/libraries/org/lwjgl/lwjgl/3.3.1/lwjgl-3.3.1-natives-windows.jar;\
         C:/m/versions/1.20-Fabric/1.20-Fabric.jar",
        "-DFabricMcEmu=x",
        "-Djava.library.path=C:/m/versions/1.20-Fabric/natives",
        "net.fabricmc.loader.impl.launch.knot.KnotClient",
        "--username",
        "Steve",
        "--version",
        "1.20-Fabric",
        "--assetIndex",
        "6",
        "--userProperties",
        "{}",
    ]));
    assert_eq!(command.arguments, expected);
    assert_eq!(command.working_directory, "C:/m/siglauncher_profiles/modded");
}

#[test]
fn command_of_an_old_format_version() {
    let old = r#"{"mainClass": "net.minecraft.launchwrapper.Launch", "assets": "legacy",
        "minecraftArguments": "${auth_player_name} ${auth_session} --gameDir ${game_directory} --assetsDir ${game_assets} --userProperties ${user_properties}"}"#;
    let s = settings("1.5.2");
    let command = launch_command(&s, &facts(Some(old), None), Os::Linux, "/m").unwrap();
    assert_eq!(
        command.arguments,
        strings(&[
            "-Xmx2560M",
            "-XX:+UseG1GC",
            "-cp",
            "/m/versions/1.5.2/1.5.2.jar",
            "-Djava.library.path=/m/versions/1.5.2/natives",
            "net.minecraft.launchwrapper.Launch",
            "Steve",
            "000",
            "--gameDir",
            "/m",
            "--assetsDir",
            "/m/resources",
            "--userProperties",
            "{}",
        ])
    );
}

#[test]
fn command_of_a_version_that_does_not_resolve() {
    let s = settings("1.20");
    assert_eq!(
        launch_command(&s, &facts(None, None), Os::Linux, "/m"),
        Err("The version's manifest was not found.".to_string())
    );
    assert_eq!(
        launch_command(&settings("f"), &facts(Some(DERIVED), None), Os::Linux, "/m"),
        Err("The base version's manifest was not found.".to_string())
    );
}

#[test]
fn plan_holds_what_the_command_is_made_of() {
    let s = settings("1.20");
    let f = facts(Some(BASE), None);
    let effective = resolve_texts("1.20", Some(BASE), None).unwrap();
    let plan = launch_plan(&effective, &s, Os::Linux, "/m");
    assert_eq!(plan.main_class, "net.minecraft.client.main.Main");
    assert_eq!(plan.asset_index_id, "6");
    assert_eq!(plan.working_directory, "/m");
    assert_eq!(plan.java_path, "java");
    assert_eq!(plan.java_arguments, strings(&["-XX:+UseG1GC"]));
    assert_eq!(plan.jvm_arguments, strings(&["-Djava.library.path=/m/versions/1.20/natives"]));
    assert_eq!(
        plan.libraries,
        strings(&["/m/libraries/com/mojang/brigadier/1.0.18/brigadier-1.0.18.jar"])
    );
    assert_eq!(
        plan.game_arguments,
        strings(&[
            "--username", "Steve", "--version", "1.20", "--assetIndex", "6", "--userProperties",
            "{}",
        ])
    );
    assert!(plan.classpath.ends_with("/m/versions/1.20/1.20.jar"));
    let command = command_line(&plan, &s);
    assert_eq!(command, launch_command(&s, &f, Os::Linux, "/m").unwrap());
}

#[test]
fn launching_asks_for_the_process() {
    let s = settings("1.20");
    let f = facts(Some(BASE), None);
    let expected = launch_command(&s, &f, Os::Linux, "/m").unwrap();
    let step = launcher(State::Launching(s), Event::Disk(f), Os::Linux, "/m");
    assert_eq!(step.progress, None);
    assert_eq!(step.state, State::Spawning("java".to_string()));
    assert_eq!(step.command, Some(expected));
}

#[test]
fn launching_a_version_that_does_not_resolve_is_an_error() {
    let step = launcher(
        State::Launching(settings("1.20")),
        Event::Disk(facts(None, None)),
        Os::Linux,
        "/m",
    );
    assert_eq!(
        step.progress,
        Some(Progress::Errored("The version's manifest was not found.".to_string()))
    );
    assert_eq!(step.state, State::Idle);
    assert_eq!(step.command, None);
}

#[test]
fn spawn_outcomes() {
    assert_eq!(started(SpawnOutcome::Running, "java"), (Progress::Started, State::GettingLogs));
    assert_eq!(
        started(SpawnOutcome::NoProgram, "gamemoderun"),
        (Progress::Errored("Java or wrapper doesn't exist: gamemoderun".to_string()), State::Idle)
    );
    assert_eq!(
        started(SpawnOutcome::Failed, "/m/java"),
        (Progress::Errored("Failed to start game process: /m/java".to_string()), State::Idle)
    );
    let spawning = State::Spawning("java".to_string());
    let step = launcher(spawning, Event::Spawned(SpawnOutcome::Running), Os::Linux, "/m");
    assert_eq!(step.progress, Some(Progress::Started));
    assert_eq!(step.state, State::GettingLogs);
    let spawning = State::Spawning("java".to_string());
    let step = launcher(spawning, Event::Spawned(SpawnOutcome::NoProgram), Os::Linux, "/m");
    assert_eq!(
        step.progress,
        Some(Progress::Errored("Java or wrapper doesn't exist: java".to_string()))
    );
    assert_eq!(step.state, State::Idle);
}

#[test]
fn log_lines_are_relayed_until_the_output_ends() {
    assert_eq!(
        relay(Some("[Render thread/INFO]: hi".to_string())),
        (Progress::GotLog("[Render thread/INFO]: hi".to_string()), State::GettingLogs)
    );
    assert_eq!(relay(None), (Progress::Finished, State::Idle));
    let step = launcher(State::GettingLogs, Event::Line(Some("x".to_string())), Os::Linux, "/m");
    assert_eq!(step.progress, Some(Progress::GotLog("x".to_string())));
    assert_eq!(step.state, State::GettingLogs);
    let step = launcher(State::GettingLogs, Event::Line(None), Os::Linux, "/m");
    assert_eq!(step.progress, Some(Progress::Finished));
    assert_eq!(step.state, State::Idle);
}

#[test]
fn events_that_a_state_does_not_wait_for_change_nothing() {
    let step = launcher(State::Idle, Event::Line(None), Os::Linux, "/m");
    assert_eq!((step.progress, step.state, step.command), (None, State::Idle, None));
    let step = launcher(State::GettingLogs, Event::Spawned(SpawnOutcome::Failed), Os::Linux, "/m");
    assert_eq!((step.progress, step.state, step.command), (None, State::GettingLogs, None));
    let s = settings("1.20");
    let step = launcher(State::Launching(s.clone()), Event::Line(None), Os::Linux, "/m");
    assert_eq!((step.progress, step.state, step.command), (None, State::Launching(s), None));
}

#[test]
fn game_directories() {
    assert_eq!(game_directory("Default", "/m"), "/m");
    assert_eq!(game_directory("modded", "/m"), "/m/siglauncher_profiles/modded");
    assert_eq!(game_directory("default", "/m"), "/m/siglauncher_profiles/default");
}

#[test]
fn settings_from_preferences() {
    let s = GameSettings::from_preferences(
        "Steve".to_string(),
        "1.20".to_string(),
        "System Java",
        "java".to_string(),
        "-Xss1M -XX:+UseG1GC",
        2560,
        "Default".to_string(),
        "gamemoderun mangohud",
    );
    assert_eq!(s.username, "Steve");
    assert_eq!(s.game_version, "1.20");
    assert_eq!(s.jvm, "java");
    assert_eq!(s.jvmargs, strings(&["-Xss1M", "-XX:+UseG1GC"]));
    assert_eq!(s.ram, 2560);
    assert_eq!(s.game_directory, "Default");
    assert!(!s.autojava);
    assert_eq!(s.game_wrapper_commands, strings(&["gamemoderun", "mangohud"]));
}

#[test]
fn settings_with_automatic_java_and_no_wrapper() {
    let s = GameSettings::from_preferences(
        "A".to_string(),
        "v".to_string(),
        "Automatic",
        String::new(),
        "",
        512,
        "p".to_string(),
        "",
    );
    assert!(s.autojava);
    assert_eq!(s.jvmargs, strings(&[""]));
    assert_eq!(s.game_wrapper_commands, Vec::<String>::new());
    let s = GameSettings::from_preferences(
        "A".to_string(),
        "v".to_string(),
        "automatic",
        String::new(),
        "",
        512,
        "p".to_string(),
        " prime-run",
    );
    assert!(!s.autojava);
    assert_eq!(s.game_wrapper_commands, strings(&["prime-run"]));
}

#[test]
fn start_begins_with_checking() {
    let s = settings("1.20");
    assert_eq!(start(Some(&s)), State::Checking(Some(s)));
    assert_eq!(start(None), State::Checking(None));
}

#[test]
fn launcher_handle() {
    let mut l = Launcher::default();
    assert_eq!(l.state, LauncherState::Idle);
    let s = settings("1.20");
    l.start(s.clone());
    assert_eq!(l.state, LauncherState::Launching(s));
}

#[test]
fn installed_versions_are_the_directories() {
    let entries = vec![
        DirEntry { name: "1.20".to_string(), is_dir: true },
        DirEntry { name: "version_manifest_v2.json".to_string(), is_dir: false },
        DirEntry { name: "1.20-Fabric".to_string(), is_dir: true },
    ];
    assert_eq!(getinstalledversions(&entries), strings(&["1.20", "1.20-Fabric"]));
    assert_eq!(getinstalledversions(&Vec::new()), Vec::<String>::new());
    assert_eq!(versions_directory("/m"), "/m/versions");
}

#[test]
fn version_files() {
    assert_eq!(version_directory("/m", "1.20"), "/m/versions/1.20");
    assert_eq!(manifest_path("/m", "1.20", "1.20"), "/m/versions/1.20/1.20.json");
    assert_eq!(
        manifest_path("/m", "1.20-Fabric", "1.20"),
        "/m/versions/1.20-Fabric/1.20.json"
    );
}

#[test]
fn judge_speaks_of_a_resolution() {
    let s = settings("1.20-Fabric");
    let f = facts(None, None);
    assert_eq!(
        judge(Err(ResolutionError::MissingBaseDescriptor), Some("1.20".to_string()), &s, &f, "/m"),
        Progress::Checked(Some(Missing::VanillaJson(
            "1.20".to_string(),
            "/m/versions/1.20-Fabric".to_string()
        )))
    );
    assert_eq!(
        judge(Err(ResolutionError::NotFound), None, &s, &f, "/m"),
        Progress::Errored("The version's manifest was not found.".to_string())
    );
    let effective = resolve_texts("1.20-Fabric", Some(DERIVED), Some(BASE)).unwrap();
    assert_eq!(judge(Ok(effective.clone()), None, &s, &f, "/m"), Progress::Checked(None));
    let mut without_address = effective;
    without_address.client_url = None;
    let mut f = facts(None, None);
    f.jar_size = None;
    assert_eq!(
        judge(Ok(without_address), None, &s, &f, "/m"),
        Progress::Errored("The version's manifest is malformed.".to_string())
    );
}

#[test]
fn any_java_version_asks_for_the_newer_runtime() {
    let any = r#"{"mainClass": "m"}"#;
    let mut s = settings("old");
    s.autojava = true;
    let mut f = facts(Some(any), None);
    f.newer_runtime = false;
    f.older_runtime = true;
    assert_eq!(check(&s, &f, "/m"), Progress::Checked(Some(Missing::Java17)));
    let step = launcher(State::Checking(Some(s.clone())), Event::Disk(f), Os::Linux, "/m");
    assert_eq!(step.progress, Some(Progress::Checked(Some(Missing::Java17))));
    assert_eq!(step.state, State::Idle);
    let mut f = facts(Some(any), None);
    f.older_runtime = false;
    assert_eq!(check(&s, &f, "/m"), Progress::Checked(None));
    let command = launch_command(&s, &f, Os::Linux, "/m").unwrap();
    assert_eq!(command.program, "/m/siglauncher_java/java17/bin/java");
}

#[test]
fn user_properties_of_a_version_and_its_base_stand_once() {
    let base = r#"{"mainClass": "b", "assets": "6",
        "arguments": {"game": ["--username", "${auth_player_name}", "--userProperties", "${user_properties}"]}}"#;
    let derived = r#"{"mainClass": "d", "inheritsFrom": "1.20",
        "arguments": {"game": ["--userProperties", "${user_properties}", "--tweak"]}}"#;
    let s = settings("layered");
    let command = launch_command(&s, &facts(Some(derived), Some(base)), Os::Linux, "/m").unwrap();
    let tail: Vec<&str> = command.arguments.iter().skip(6).map(|a| a.as_str()).collect();
    assert_eq!(tail, ["d", "--userProperties", "{}", "--tweak", "--username", "Steve"]);
}

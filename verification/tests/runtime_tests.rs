use siglauncher::platform::Os;
use siglauncher::runtime::{
    automatic_java, choose_runtime, downloadjava, runtime_directory, runtime_program_path,
    runtime_tier, Java, RuntimeChoice, JAVA17_FLAGS, JAVA8_FLAGS,
};

#[test]
fn any_version_takes_the_newer_runtime() {
    assert_eq!(choose_runtime(0, true, true), RuntimeChoice::Use(Java::J17));
    assert_eq!(choose_runtime(0, true, false), RuntimeChoice::Use(Java::J17));
    assert_eq!(choose_runtime(0, false, true), RuntimeChoice::Fetch(Java::J17));
    assert_eq!(choose_runtime(0, false, false), RuntimeChoice::Fetch(Java::J17));
}

#[test]
fn tiers_by_major_version() {
    for major in [0i64, 9, 16, 17, 21, i64::MAX] {
        assert_eq!(runtime_tier(major), Java::J17);
    }
    for major in [1i64, 7, 8, -1, i64::MIN] {
        assert_eq!(runtime_tier(major), Java::J8);
    }
}

#[test]
fn versions_up_to_eight_take_the_older_runtime() {
    for major in [1i64, 7, 8, -1] {
        assert_eq!(choose_runtime(major, true, true), RuntimeChoice::Use(Java::J8));
        assert_eq!(choose_runtime(major, true, false), RuntimeChoice::Fetch(Java::J8));
    }
}

#[test]
fn later_versions_take_the_newer_runtime() {
    for major in [9i64, 16, 17, 21] {
        assert_eq!(choose_runtime(major, true, true), RuntimeChoice::Use(Java::J17));
        assert_eq!(choose_runtime(major, false, true), RuntimeChoice::Fetch(Java::J17));
    }
}

#[test]
fn runtime_paths() {
    assert_eq!(runtime_directory("/m", Java::J17), "/m/siglauncher_java/java17");
    assert_eq!(runtime_directory("/m", Java::J8), "/m/siglauncher_java/java8");
    assert_eq!(
        runtime_program_path("/m", Java::J17, Os::Linux),
        "/m/siglauncher_java/java17/bin/java"
    );
    assert_eq!(
        runtime_program_path("C:/m", Java::J8, Os::Windows),
        "C:/m/siglauncher_java/java8/bin/javaw.exe"
    );
}

#[test]
fn flags_are_the_words_of_the_flag_line() {
    let expected: Vec<String> = JAVA17_FLAGS.split(' ').map(String::from).collect();
    assert_eq!(Java::J17.flags(), expected);
    let expected: Vec<String> = JAVA8_FLAGS.split(' ').map(String::from).collect();
    assert_eq!(Java::J8.flags(), expected);
    assert_eq!(Java::J17.flags()[0], "-XX:+UnlockExperimentalVMOptions");
    assert_eq!(Java::J17.flags().last().unwrap(), "-XX:AllocatePrefetchStyle=1");
    assert_eq!(Java::J8.flags().last().unwrap(), "-Dgraal.CompilerConfiguration=community");
    assert_eq!(Java::J17.flags().len(), 24);
    assert_eq!(Java::J8.flags().len(), 18);
}

#[test]
fn automatic_java_gives_program_and_flags() {
    for major in [17i64, 9, 0] {
        let (path, flags) = automatic_java(major, Os::Linux, "/m");
        assert_eq!(path, "/m/siglauncher_java/java17/bin/java");
        assert_eq!(flags, Java::J17.flags());
    }
    for major in [8i64, 1] {
        let (path, flags) = automatic_java(major, Os::Windows, "/m");
        assert_eq!(path, "/m/siglauncher_java/java8/bin/javaw.exe");
        assert_eq!(flags, Java::J8.flags());
    }
}

#[test]
fn no_flag_is_empty() {
    assert!(Java::J17.flags().iter().all(|flag| !flag.is_empty()));
    assert!(Java::J8.flags().iter().all(|flag| !flag.is_empty()));
}

#[test]
fn runtime_downloads() {
    let d = downloadjava(true, Os::Linux, "/m");
    assert_eq!(
        d.url,
        "https://raw.githubusercontent.com/JafKc/siglauncher-jvm/main/binaries/java17-linux.zip"
    );
    assert_eq!(d.folder, "/m/siglauncher_java");
    assert_eq!(d.archive, "/m/siglauncher_java/compressedjava.zip");
    let d = downloadjava(false, Os::Windows, "/m");
    assert_eq!(
        d.url,
        "https://raw.githubusercontent.com/JafKc/siglauncher-jvm/main/binaries/java8-windows.zip"
    );
}

use siglauncher::classpath::{
    build_classpath, libmanager, library_applies, library_paths, library_relative_path,
    version_jar_path,
};
use siglauncher::manifest::{LibraryRef, Named};
use siglauncher::platform::Os;

fn library(coordinate: &str) -> LibraryRef {
    LibraryRef {
        coordinate: coordinate.to_string(),
        os_rule: None,
        natives: Vec::new(),
        download_url: None,
        repository: None,
        classifier_urls: Vec::new(),
    }
}

fn with_natives(coordinate: &str, natives: &[(&str, &str)]) -> LibraryRef {
    let mut lib = library(coordinate);
    lib.natives = natives
        .iter()
        .map(|(os, classifier)| Named { name: os.to_string(), value: classifier.to_string() })
        .collect();
    lib
}

#[test]
fn plain_library_path() {
    let lib = library("com.mojang:brigadier:1.0.18");
    assert!(lib.is_wf());
    assert_eq!(
        library_relative_path(&lib, Os::Linux),
        "com/mojang/brigadier/1.0.18/brigadier-1.0.18.jar"
    );
}

#[test]
fn natives_classifier_in_coordinate() {
    let lib = library("org.lwjgl:lwjgl:3.3.1:natives-linux");
    assert_eq!(
        library_relative_path(&lib, Os::Linux),
        "org/lwjgl/lwjgl/3.3.1/lwjgl-3.3.1-natives-linux.jar"
    );
    assert_eq!(
        library_relative_path(&lib, Os::Windows),
        "org/lwjgl/lwjgl/3.3.1/lwjgl-3.3.1-natives-windows.jar"
    );
}

#[test]
fn natives_classifier_from_map() {
    let lib = with_natives(
        "org.lwjgl.lwjgl:lwjgl-platform:2.9.4",
        &[("linux", "natives-linux"), ("windows", "natives-windows")],
    );
    assert_eq!(
        library_relative_path(&lib, Os::Linux),
        "org/lwjgl/lwjgl/lwjgl-platform/2.9.4/lwjgl-platform-2.9.4-natives-linux.jar"
    );
    assert_eq!(
        library_relative_path(&lib, Os::Windows),
        "org/lwjgl/lwjgl/lwjgl-platform/2.9.4/lwjgl-platform-2.9.4-natives-windows.jar"
    );
}

#[test]
fn natives_map_without_this_platform_gives_a_plain_path() {
    let lib = with_natives("a.b:c:1", &[("osx", "natives-osx")]);
    assert_eq!(library_relative_path(&lib, Os::Linux), "a/b/c/1/c-1.jar");
}

#[test]
fn other_classifier_becomes_a_directory() {
    let lib = library("a.b:c:1:extra");
    assert_eq!(library_relative_path(&lib, Os::Linux), "a/b/c/1/extra/1-extra.jar");
}

#[test]
fn coordinate_needs_three_parts() {
    assert!(!library("a.b:c").is_wf());
    assert!(!library("").is_wf());
    assert!(library("a:b:c").is_wf());
}

#[test]
fn os_rule_filters() {
    let mut lib = library("a:b:1");
    assert!(library_applies(&lib, Os::Linux));
    lib.os_rule = Some("linux".to_string());
    assert!(library_applies(&lib, Os::Linux));
    assert!(!library_applies(&lib, Os::Windows));
    lib.os_rule = Some("osx".to_string());
    assert!(!library_applies(&lib, Os::Linux));
    assert!(!library_applies(&lib, Os::Windows));
}

#[test]
fn linux_list_uses_colon_and_natives_suffix() {
    let libs = vec![
        with_natives("org.lwjgl.lwjgl:lwjgl-platform:2.9.4", &[("linux", "natives-linux")]),
        library("com.mojang:brigadier:1.0.18"),
    ];
    let list = libmanager(&libs, Os::Linux, "/home/u/.minecraft");
    assert_eq!(
        list,
        "/home/u/.minecraft/libraries/org/lwjgl/lwjgl/lwjgl-platform/2.9.4/lwjgl-platform-2.9.4-natives-linux.jar:\
         /home/u/.minecraft/libraries/com/mojang/brigadier/1.0.18/brigadier-1.0.18.jar:"
    );
    let first = list.split(':').next().unwrap();
    assert!(first.ends_with("-natives-linux.jar"));
    assert!(!list.contains(';'));
}

#[test]
fn windows_list_uses_semicolon() {
    let libs = vec![library("a:b:1"), library("c:d:2")];
    let list = libmanager(&libs, Os::Windows, "C:/Users/u/AppData/Roaming/.minecraft");
    assert_eq!(
        list,
        "C:/Users/u/AppData/Roaming/.minecraft/libraries/a/b/1/b-1.jar;\
         C:/Users/u/AppData/Roaming/.minecraft/libraries/c/d/2/d-2.jar;"
    );
}

#[test]
fn classpath_ends_with_the_version_jar() {
    let mut skipped = library("x:y:1");
    skipped.os_rule = Some("windows".to_string());
    let libs = vec![library("a:b:1"), skipped];
    assert_eq!(
        build_classpath(&libs, Os::Linux, "/m", "1.20"),
        "/m/libraries/a/b/1/b-1.jar:/m/versions/1.20/1.20.jar"
    );
    assert_eq!(build_classpath(&Vec::new(), Os::Linux, "/m", "1.20"), "/m/versions/1.20/1.20.jar");
}

#[test]
fn classpath_is_the_same_on_every_call() {
    let libs = vec![library("a:b:1"), with_natives("c:d:2", &[("linux", "natives-linux")])];
    let first = build_classpath(&libs, Os::Linux, "/m", "v");
    let second = build_classpath(&libs, Os::Linux, "/m", "v");
    assert_eq!(first, second);
}

#[test]
fn library_paths_are_the_entries_of_the_list() {
    let mut skipped = library("x:y:1");
    skipped.os_rule = Some("windows".to_string());
    let libs = vec![
        library("a:b:1"),
        skipped,
        with_natives("c:d:2", &[("linux", "natives-linux")]),
    ];
    let paths = library_paths(&libs, Os::Linux, "/m");
    assert_eq!(paths, ["/m/libraries/a/b/1/b-1.jar", "/m/libraries/c/d/2/d-2-natives-linux.jar"]);
    let list: String = paths.iter().map(|p| format!("{}:", p)).collect();
    assert_eq!(libmanager(&libs, Os::Linux, "/m"), list);
    assert!(library_paths(&Vec::new(), Os::Linux, "/m").is_empty());
}

#[test]
fn derived_libraries_come_first_on_the_class_path() {
    let own = vec![library("f:l:2")];
    let base = vec![library("a:b:1")];
    let mut merged = vec![library("f:l:2")];
    merged.extend(vec![library("a:b:1")]);
    let mut expected = libmanager(&own, Os::Linux, "/m");
    expected.push_str(&libmanager(&base, Os::Linux, "/m"));
    assert_eq!(libmanager(&merged, Os::Linux, "/m"), expected);
}

#[test]
fn version_jar_paths() {
    assert_eq!(version_jar_path("/m", "1.20"), "/m/versions/1.20/1.20.jar");
}

use siglauncher::json::Json;
use siglauncher::manifest::{
    find_named, ArgTemplate, LibraryRef, Named, Predicate, ResolutionError, VersionDescriptor,
};

const VANILLA: &str = r#"{
  "id": "1.20",
  "mainClass": "net.minecraft.client.main.Main",
  "assets": "6",
  "assetIndex": {"id": "6", "url": "https://example.org/indexes/6.json"},
  "downloads": {"client": {"url": "https://example.org/client.jar"}},
  "javaVersion": {"component": "java-runtime-gamma", "majorVersion": 17},
  "arguments": {
    "game": [
      "--username", "${auth_player_name}",
      {"rules": [{"action": "allow", "features": {"is_demo_user": true}}], "value": "--demo"},
      {"rules": [{"action": "allow", "features": {"has_custom_resolution": true}}],
       "value": ["--width", "${resolution_width}"]}
    ],
    "jvm": [
      {"rules": [{"action": "allow", "os": {"name": "windows"}}], "value": "-XX:HeapDumpPath=x"},
      "-Djava.library.path=${natives_directory}",
      "-cp", "${classpath}"
    ]
  },
  "libraries": [
    {"name": "com.mojang:brigadier:1.0.18", "url": "https://libraries.example.org/"},
    {"name": "org.lwjgl:lwjgl:3.3.1:natives-windows",
     "rules": [{"action": "allow", "os": {"name": "windows"}}]},
    {"name": "org.lwjgl.lwjgl:lwjgl-platform:2.9.4",
     "natives": {"linux": "natives-linux", "windows": "natives-windows"},
     "downloads": {"classifiers": {"natives-linux": {"url": "https://example.org/nl.jar"}}}}
  ]
}"#;

#[test]
fn descriptor_fields_are_read() {
    let d = VersionDescriptor::parse("1.20", VANILLA).unwrap();
    assert_eq!(d.id, "1.20");
    assert_eq!(d.main_class, "net.minecraft.client.main.Main");
    assert_eq!(d.inherits_from, None);
    assert_eq!(d.asset_index_id.as_deref(), Some("6"));
    assert_eq!(d.required_java_major, 17);
    assert_eq!(d.client_url.as_deref(), Some("https://example.org/client.jar"));
    assert_eq!(d.asset_index_url.as_deref(), Some("https://example.org/indexes/6.json"));
    assert_eq!(d.libraries.len(), 3);
}

#[test]
fn game_templates_keep_their_predicates() {
    let d = VersionDescriptor::parse("1.20", VANILLA).unwrap();
    assert_eq!(
        d.game_arguments,
        vec![
            ArgTemplate::Literal("--username".to_string()),
            ArgTemplate::Literal("${auth_player_name}".to_string()),
            ArgTemplate::Conditional(
                Predicate::Feature("is_demo_user".to_string()),
                vec!["--demo".to_string()]
            ),
            ArgTemplate::Conditional(
                Predicate::Feature("has_custom_resolution".to_string()),
                vec!["--width".to_string(), "${resolution_width}".to_string()]
            ),
        ]
    );
}

#[test]
fn jvm_templates_keep_their_predicates() {
    let d = VersionDescriptor::parse("1.20", VANILLA).unwrap();
    assert_eq!(
        d.jvm_arguments,
        Some(vec![
            ArgTemplate::Conditional(
                Predicate::Os("windows".to_string()),
                vec!["-XX:HeapDumpPath=x".to_string()]
            ),
            ArgTemplate::Literal("-Djava.library.path=${natives_directory}".to_string()),
            ArgTemplate::Literal("-cp".to_string()),
            ArgTemplate::Literal("${classpath}".to_string()),
        ])
    );
}

#[test]
fn libraries_are_read() {
    let d = VersionDescriptor::parse("1.20", VANILLA).unwrap();
    assert_eq!(d.libraries[0].coordinate, "com.mojang:brigadier:1.0.18");
    assert_eq!(d.libraries[0].os_rule, None);
    assert_eq!(d.libraries[0].repository.as_deref(), Some("https://libraries.example.org/"));
    assert_eq!(d.libraries[0].download_url, None);
    assert_eq!(d.libraries[1].os_rule.as_deref(), Some("windows"));
    assert_eq!(
        d.libraries[2].natives,
        vec![
            Named { name: "linux".to_string(), value: "natives-linux".to_string() },
            Named { name: "windows".to_string(), value: "natives-windows".to_string() },
        ]
    );
    assert_eq!(
        d.libraries[2].classifier_urls,
        vec![Named {
            name: "natives-linux".to_string(),
            value: "https://example.org/nl.jar".to_string()
        }]
    );
}

#[test]
fn old_format_arguments_are_split_into_words() {
    let text = r#"{"mainClass": "m", "minecraftArguments": "--username ${auth_player_name}  --demo"}"#;
    let d = VersionDescriptor::parse("old", text).unwrap();
    assert_eq!(
        d.game_arguments,
        vec![
            ArgTemplate::Literal("--username".to_string()),
            ArgTemplate::Literal("${auth_player_name}".to_string()),
            ArgTemplate::Literal("--demo".to_string()),
        ]
    );
    assert_eq!(d.jvm_arguments, None);
    assert_eq!(d.required_java_major, 0);
    assert_eq!(d.asset_index_id, None);
    assert!(d.libraries.is_empty());
}

#[test]
fn derived_descriptor_names_its_base() {
    let text = r#"{"mainClass": "net.fabricmc.loader.impl.launch.knot.KnotClient",
                   "inheritsFrom": "1.20", "arguments": {"game": [], "jvm": []}, "libraries": []}"#;
    let d = VersionDescriptor::parse("1.20-Fabric", text).unwrap();
    assert_eq!(d.inherits_from.as_deref(), Some("1.20"));
    assert_eq!(d.jvm_arguments, Some(Vec::new()));
    assert!(d.game_arguments.is_empty());
}

#[test]
fn text_that_is_no_json_is_malformed() {
    assert_eq!(VersionDescriptor::parse("x", "{"), Err(ResolutionError::MalformedManifest));
    assert_eq!(VersionDescriptor::parse("x", ""), Err(ResolutionError::MalformedManifest));
}

#[test]
fn manifest_without_main_class_is_malformed() {
    assert_eq!(
        VersionDescriptor::parse("x", r#"{"assets": "6"}"#),
        Err(ResolutionError::MalformedManifest)
    );
    assert_eq!(
        VersionDescriptor::parse("x", r#"{"mainClass": 3}"#),
        Err(ResolutionError::MalformedManifest)
    );
}

#[test]
fn library_with_a_short_coordinate_is_malformed() {
    let text = r#"{"mainClass": "m", "libraries": [{"name": "a:b"}]}"#;
    assert_eq!(VersionDescriptor::parse("x", text), Err(ResolutionError::MalformedManifest));
    let text = r#"{"mainClass": "m", "libraries": [{"url": "u"}]}"#;
    assert_eq!(VersionDescriptor::parse("x", text), Err(ResolutionError::MalformedManifest));
}

#[test]
fn library_with_a_misshapen_rule_is_malformed() {
    let json = Json::parse(r#"{"name": "a:b:c", "rules": [{"os": {"name": 5}}]}"#).ok().unwrap();
    assert_eq!(LibraryRef::from_json(&json), None);
    let json = Json::parse(r#"{"name": "a:b:c", "natives": {"linux": 5}}"#).ok().unwrap();
    assert_eq!(LibraryRef::from_json(&json), None);
    let json = Json::parse(r#"{"name": "a:b:c", "downloads": {"classifiers": {"natives-linux": {}}}}"#)
        .ok()
        .unwrap();
    assert_eq!(LibraryRef::from_json(&json), None);
}

#[test]
fn library_rule_without_a_platform_is_for_all() {
    let json = Json::parse(r#"{"name": "a:b:c", "rules": [{"action": "allow"}]}"#).ok().unwrap();
    let lib = LibraryRef::from_json(&json).unwrap();
    assert_eq!(lib.os_rule, None);
    assert!(lib.natives.is_empty());
    assert!(lib.classifier_urls.is_empty());
}

#[test]
fn template_of_another_shape_is_malformed() {
    let text = r#"{"mainClass": "m", "arguments": {"game": [5]}}"#;
    assert_eq!(VersionDescriptor::parse("x", text), Err(ResolutionError::MalformedManifest));
    let text = r#"{"mainClass": "m", "arguments": {"jvm": [{"value": 5}]}}"#;
    assert_eq!(VersionDescriptor::parse("x", text), Err(ResolutionError::MalformedManifest));
    let text = r#"{"mainClass": "m", "arguments": {"game": [{"value": ["a", 1]}]}}"#;
    assert_eq!(VersionDescriptor::parse("x", text), Err(ResolutionError::MalformedManifest));
}

#[test]
fn template_without_rules_always_applies() {
    let json = Json::parse(r#"{"value": "x"}"#).ok().unwrap();
    assert_eq!(
        ArgTemplate::from_json(&json),
        Some(ArgTemplate::Conditional(Predicate::Always, vec!["x".to_string()]))
    );
}

#[test]
fn find_named_takes_the_first_entry() {
    let entries = vec![
        Named { name: "linux".to_string(), value: "a".to_string() },
        Named { name: "windows".to_string(), value: "b".to_string() },
        Named { name: "linux".to_string(), value: "c".to_string() },
    ];
    assert_eq!(find_named(&entries, "linux").map(|s| s.as_str()), Some("a"));
    assert_eq!(find_named(&entries, "windows").map(|s| s.as_str()), Some("b"));
    assert_eq!(find_named(&entries, "osx"), None);
}

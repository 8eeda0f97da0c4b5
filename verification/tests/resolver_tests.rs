use siglauncher::manifest::{ArgTemplate, ResolutionError};
use siglauncher::resolver::{base_id, resolve_texts};

const BASE: &str = r#"{
  "mainClass": "net.minecraft.client.main.Main",
  "assets": "6",
  "assetIndex": {"url": "https://example.org/6.json"},
  "downloads": {"client": {"url": "https://example.org/client.jar"}},
  "javaVersion": {"majorVersion": 17},
  "arguments": {"game": ["--username", "${auth_player_name}"], "jvm": ["-Dbase=1"]},
  "libraries": [{"name": "com.mojang:brigadier:1.0.18"}, {"name": "com.mojang:logging:1.1.1"}]
}"#;

const DERIVED: &str = r#"{
  "mainClass": "net.fabricmc.loader.impl.launch.knot.KnotClient",
  "inheritsFrom": "1.20",
  "arguments": {"game": ["--fabric"], "jvm": ["-DFabricMcEmu= net.minecraft.client.main.Main "]},
  "libraries": [{"name": "net.fabricmc:fabric-loader:0.14.21", "url": "https://maven.fabricmc.net/"}]
}"#;

fn coordinates(libraries: &[siglauncher::manifest::LibraryRef]) -> Vec<&str> {
    libraries.iter().map(|l| l.coordinate.as_str()).collect()
}

#[test]
fn plain_descriptor_resolves_to_itself() {
    let e = resolve_texts("1.20", Some(BASE), None).unwrap();
    assert_eq!(e.id, "1.20");
    assert_eq!(e.main_class, "net.minecraft.client.main.Main");
    assert_eq!(e.asset_index_id, "6");
    assert_eq!(coordinates(&e.libraries), ["com.mojang:brigadier:1.0.18", "com.mojang:logging:1.1.1"]);
    assert_eq!(e.base_jvm_arguments, None);
    assert_eq!(e.required_java_major, 17);
}

#[test]
fn derived_descriptor_takes_asset_index_and_libraries_from_base() {
    let base = resolve_texts("1.20", Some(BASE), None).unwrap();
    let e = resolve_texts("1.20-Fabric", Some(DERIVED), Some(BASE)).unwrap();
    assert_eq!(e.asset_index_id, base.asset_index_id);
    assert_eq!(
        coordinates(&e.libraries),
        ["net.fabricmc:fabric-loader:0.14.21", "com.mojang:brigadier:1.0.18", "com.mojang:logging:1.1.1"]
    );
    assert_eq!(e.main_class, "net.fabricmc.loader.impl.launch.knot.KnotClient");
    assert_eq!(e.id, "1.20-Fabric");
    assert_eq!(e.required_java_major, 17);
    assert_eq!(e.client_url.as_deref(), Some("https://example.org/client.jar"));
    assert_eq!(e.asset_index_url.as_deref(), Some("https://example.org/6.json"));
}

#[test]
fn derived_templates_come_before_the_base_templates() {
    let e = resolve_texts("1.20-Fabric", Some(DERIVED), Some(BASE)).unwrap();
    assert_eq!(
        e.game_arguments,
        vec![
            ArgTemplate::Literal("--fabric".to_string()),
            ArgTemplate::Literal("--username".to_string()),
            ArgTemplate::Literal("${auth_player_name}".to_string()),
        ]
    );
    assert_eq!(
        e.jvm_arguments,
        Some(vec![ArgTemplate::Literal(
            "-DFabricMcEmu= net.minecraft.client.main.Main ".to_string()
        )])
    );
    assert_eq!(
        e.base_jvm_arguments,
        Some(Some(vec![ArgTemplate::Literal("-Dbase=1".to_string())]))
    );
}

#[test]
fn missing_manifest_is_not_found() {
    assert_eq!(resolve_texts("1.20", None, None), Err(ResolutionError::NotFound));
    assert_eq!(resolve_texts("1.20", None, Some(BASE)), Err(ResolutionError::NotFound));
}

#[test]
fn missing_base_is_reported() {
    assert_eq!(
        resolve_texts("1.20-Fabric", Some(DERIVED), None),
        Err(ResolutionError::MissingBaseDescriptor)
    );
}

#[test]
fn malformed_manifests_are_reported() {
    assert_eq!(resolve_texts("x", Some("nonsense"), None), Err(ResolutionError::MalformedManifest));
    assert_eq!(
        resolve_texts("x", Some(DERIVED), Some("{}")),
        Err(ResolutionError::MalformedManifest)
    );
}

#[test]
fn base_without_asset_index_is_malformed() {
    let base = r#"{"mainClass": "m"}"#;
    assert_eq!(
        resolve_texts("x", Some(DERIVED), Some(base)),
        Err(ResolutionError::MalformedManifest)
    );
}

#[test]
fn plain_descriptor_without_asset_index_has_an_empty_one() {
    let e = resolve_texts("x", Some(r#"{"mainClass": "m"}"#), Some(BASE)).unwrap();
    assert_eq!(e.asset_index_id, "");
    assert!(e.libraries.is_empty());
}

#[test]
fn base_id_reads_the_inherited_version() {
    assert_eq!(base_id("1.20-Fabric", DERIVED).as_deref(), Some("1.20"));
    assert_eq!(base_id("1.20", BASE), None);
    assert_eq!(base_id("1.20", "{"), None);
}

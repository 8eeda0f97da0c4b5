use siglauncher::platform::{get_minecraft_dir, Os, UnsupportedPlatform};

#[test]
fn platform_names() {
    assert_eq!(Os::from_name("linux"), Ok(Os::Linux));
    assert_eq!(Os::from_name("windows"), Ok(Os::Windows));
    assert_eq!(Os::Linux.as_str(), "linux");
    assert_eq!(Os::Windows.as_str(), "windows");
}

#[test]
fn other_platforms_are_unsupported() {
    assert_eq!(Os::from_name("macos"), Err(UnsupportedPlatform));
    assert_eq!(Os::from_name(""), Err(UnsupportedPlatform));
    assert_eq!(Os::from_name("Linux"), Err(UnsupportedPlatform));
}

#[test]
fn list_separators() {
    assert_eq!(Os::Linux.list_separator(), ":");
    assert_eq!(Os::Windows.list_separator(), ";");
}

#[test]
fn home_variables() {
    assert_eq!(Os::Linux.home_variable(), "HOME");
    assert_eq!(Os::Windows.home_variable(), "USERPROFILE");
}

#[test]
fn data_directory_on_linux() {
    assert_eq!(get_minecraft_dir(Os::Linux, "/home/steve"), "/home/steve/.minecraft");
}

#[test]
fn data_directory_on_windows_turns_backslashes() {
    assert_eq!(
        get_minecraft_dir(Os::Windows, "C:\\Users\\steve"),
        "C:/Users/steve/AppData/Roaming/.minecraft"
    );
}

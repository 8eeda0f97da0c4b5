//! The platforms the launcher runs on, and what differs between them: names,
//! the separator of a path list, the managed data directory.
use vstd::prelude::*;
use crate::text::{replace_char, replace_each, same};

verus! {

/// A supported platform. It is handed to the functions that need one, so each
/// of them can be used for either platform from anywhere.
#[derive(Clone, Copy, Debug, PartialEq, Eq, Structural)]
pub enum Os {
    Linux,
    Windows,
}

/// The error for a platform that the launcher does not support.
#[derive(Clone, Copy, Debug, PartialEq, Eq, Structural)]
pub struct UnsupportedPlatform;

impl Os {
    /// The platform's name, as version descriptors write it.
    pub open spec fn name(self) -> Seq<char> {
        match self {
            Os::Linux => "linux"@,
            Os::Windows => "windows"@,
        }
    }

    /// The character between the entries of a path list.
    pub open spec fn separator(self) -> Seq<char> {
        match self {
            Os::Linux => ":"@,
            Os::Windows => ";"@,
        }
    }

    /// The name of the environment variable that holds the user's home.
    pub open spec fn home_name(self) -> Seq<char> {
        match self {
            Os::Linux => "HOME"@,
            Os::Windows => "USERPROFILE"@,
        }
    }

    /// The platform of the given name; any other name is unsupported.
    pub fn from_name(name: &str) -> (r: Result<Os, UnsupportedPlatform>)
        ensures
            name@ == Os::Linux.name() ==> r == Ok::<Os, UnsupportedPlatform>(Os::Linux),
            name@ == Os::Windows.name() ==> r == Ok::<Os, UnsupportedPlatform>(Os::Windows),
            name@ != Os::Linux.name() && name@ != Os::Windows.name() ==> r is Err,
    {
        proof {
            reveal_strlit("linux");
            reveal_strlit("windows");
            assert("linux"@.len() != "windows"@.len());
        }
        if same(name, "linux") {
            Ok(Os::Linux)
        } else if same(name, "windows") {
            Ok(Os::Windows)
        } else {
            Err(UnsupportedPlatform)
        }
    }

    /// The platform's name.
    pub fn as_str(&self) -> (r: &'static str)
        ensures
            r@ == self.name(),
    {
        match self {
            Os::Linux => "linux",
            Os::Windows => "windows",
        }
    }

    /// The separator of a path list.
    pub fn list_separator(&self) -> (r: &'static str)
        ensures
            r@ == self.separator(),
    {
        match self {
            Os::Linux => ":",
            Os::Windows => ";",
        }
    }

    /// The environment variable to read the user's home from.
    pub fn home_variable(&self) -> (r: &'static str)
        ensures
            r@ == self.home_name(),
    {
        match self {
            Os::Linux => "HOME",
            Os::Windows => "USERPROFILE",
        }
    }
}

/// The managed data directory below the user's home. On Windows the home's
/// backslashes become slashes.
pub open spec fn minecraft_dir(os: Os, home: Seq<char>) -> Seq<char> {
    match os {
        Os::Linux => home + "/.minecraft"@,
        Os::Windows => replace_char(home, '\\', "/"@) + "/AppData/Roaming/.minecraft"@,
    }
}

/// The managed data directory of a user whose home is `home`.
pub fn get_minecraft_dir(os: Os, home: &str) -> (r: String)
    ensures
        r@ == minecraft_dir(os, home@),
{
    match os {
        Os::Linux => {
            let mut out = home.to_owned();
            out.append("/.minecraft");
            out
        },
        Os::Windows => {
            let mut out = replace_each(home, '\\', "/");
            out.append("/AppData/Roaming/.minecraft");
            out
        },
    }
}

} // verus!

//! From declared libraries to the class path: which libraries a platform
//! takes, where each one lies on disk, and the list that the runtime is given.
use vstd::prelude::*;
use crate::manifest::{find_named, library_views, named_value, LibraryRef, LibraryView};
use crate::platform::Os;
use crate::text::{
    contains, has, join, join_range, replace_char, replace_each, same, split, split_on, texts,
};

verus! {

/// Whether a library is for the platform: it names none, or this one.
pub open spec fn applies(library: LibraryView, os: Os) -> bool {
    library.os_rule is None || library.os_rule == Some(os.name())
}

/// Whether the parts of a coordinate end in a classifier that says natives.
pub open spec fn names_natives(pieces: Seq<Seq<char>>) -> bool {
    pieces.len() >= 4 && contains(pieces.last(), "natives"@)
}

/// What a library's file name carries behind its version: nothing for a plain
/// library; `natives-` and the platform where the coordinate itself says
/// natives; else the classifier that the library's natives map has for the
/// platform.
pub open spec fn natives_suffix(library: LibraryView, os: Os) -> Option<Seq<char>> {
    if names_natives(split_on(library.coordinate, ':')) {
        Some("natives-"@ + os.name())
    } else {
        named_value(library.natives, os.name())
    }
}

/// The parts of a coordinate that follow the group and make up the path: all
/// of them, but for the classifier where it says natives.
pub open spec fn path_parts(pieces: Seq<Seq<char>>) -> Seq<Seq<char>> {
    if names_natives(pieces) {
        pieces.subrange(1, pieces.len() - 1)
    } else {
        pieces.subrange(1, pieces.len() as int)
    }
}

/// A library's path below the library directory: the group with its dots as
/// slashes, each further part as a directory, and a jar named by the last two
/// parts, with the natives suffix where there is one.
pub open spec fn relative_path(library: LibraryView, os: Os) -> Seq<char> {
    let pieces = split_on(library.coordinate, ':');
    let parts = path_parts(pieces);
    let stem = replace_char(pieces[0], '.', "/"@) + "/"@ + join(parts, "/"@) + "/"@
        + parts[parts.len() - 2] + "-"@ + parts.last();
    match natives_suffix(library, os) {
        Some(suffix) => stem + "-"@ + suffix + ".jar"@,
        None => stem + ".jar"@,
    }
}

/// The directory that holds the libraries.
pub open spec fn library_dir(mc_dir: Seq<char>) -> Seq<char> {
    mc_dir + "/libraries/"@
}

/// The paths of the libraries that the platform takes, in order, each
/// followed by the platform's separator.
pub open spec fn library_list(libraries: Seq<LibraryView>, os: Os, mc_dir: Seq<char>) -> Seq<char>
    decreases libraries.len(),
{
    if libraries.len() == 0 {
        Seq::empty()
    } else {
        let before = library_list(libraries.drop_last(), os, mc_dir);
        if applies(libraries.last(), os) {
            before + library_dir(mc_dir) + relative_path(libraries.last(), os) + os.separator()
        } else {
            before
        }
    }
}

/// The jar of a version.
pub open spec fn version_jar(mc_dir: Seq<char>, id: Seq<char>) -> Seq<char> {
    mc_dir + "/versions/"@ + id + "/"@ + id + ".jar"@
}

/// The class path of a version: its libraries, then its own jar.
pub open spec fn classpath(
    libraries: Seq<LibraryView>,
    os: Os,
    mc_dir: Seq<char>,
    id: Seq<char>,
) -> Seq<char> {
    library_list(libraries, os, mc_dir) + version_jar(mc_dir, id)
}

/// Whether a library is for the platform.
pub fn library_applies(library: &LibraryRef, os: Os) -> (r: bool)
    ensures
        r == applies(library@, os),
{
    match &library.os_rule {
        None => true,
        Some(name) => same(name.as_str(), os.as_str()),
    }
}

/// A library's path below the library directory.
pub fn library_relative_path(library: &LibraryRef, os: Os) -> (r: String)
    requires
        library@.wf(),
    ensures
        r@ == relative_path(library@, os),
{
    let pieces = split(library.coordinate.as_str(), ':');
    let count = pieces.len();
    let natives = count >= 4 && has(pieces[count - 1].as_str(), "natives");
    let end = if natives {
        count - 1
    } else {
        count
    };
    let mut out = replace_each(pieces[0].as_str(), '.', "/");
    out.append("/");
    let joined = join_range(&pieces, 1, end, "/");
    out.append(joined.as_str());
    out.append("/");
    out.append(pieces[end - 2].as_str());
    out.append("-");
    out.append(pieces[end - 1].as_str());
    if natives {
        out.append("-");
        out.append("natives-");
        out.append(os.as_str());
    } else {
        match find_named(&library.natives, os.as_str()) {
            Some(classifier) => {
                out.append("-");
                out.append(classifier.as_str());
            },
            None => {},
        }
    }
    out.append(".jar");
    out
}

/// The paths of the libraries that the platform takes, each followed by the
/// platform's separator.
pub fn libmanager(libraries: &Vec<LibraryRef>, os: Os, mc_dir: &str) -> (r: String)
    requires
        forall|i: int| 0 <= i < libraries@.len() ==> (#[trigger] libraries@[i])@.wf(),
    ensures
        r@ == library_list(library_views(libraries@), os, mc_dir@),
{
    let mut lib_dir = mc_dir.to_owned();
    lib_dir.append("/libraries/");
    let mut out = String::new();
    let mut i: usize = 0;
    while i < libraries.len()
        invariant
            i <= libraries.len(),
            lib_dir@ == library_dir(mc_dir@),
            forall|i: int| 0 <= i < libraries@.len() ==> (#[trigger] libraries@[i])@.wf(),
            out@ == library_list(library_views(libraries@).take(i as int), os, mc_dir@),
        decreases libraries.len() - i,
    {
        let ghost next = library_views(libraries@).take(i + 1);
        proof {
            assert(next.drop_last() =~= library_views(libraries@).take(i as int));
        }
        if library_applies(&libraries[i], os) {
            let path = library_relative_path(&libraries[i], os);
            out.append(lib_dir.as_str());
            out.append(path.as_str());
            out.append(os.list_separator());
        }
        i += 1;
    }
    proof {
        assert(library_views(libraries@).take(libraries@.len() as int) =~= library_views(
            libraries@,
        ));
    }
    out
}

/// The path of a version's jar.
pub fn version_jar_path(mc_dir: &str, id: &str) -> (r: String)
    ensures
        r@ == version_jar(mc_dir@, id@),
{
    let mut out = mc_dir.to_owned();
    out.append("/versions/");
    out.append(id);
    out.append("/");
    out.append(id);
    out.append(".jar");
    out
}

/// The class path of a version: the libraries that the platform takes, then
/// the version's own jar.
pub fn build_classpath(libraries: &Vec<LibraryRef>, os: Os, mc_dir: &str, id: &str) -> (r: String)
    requires
        forall|i: int| 0 <= i < libraries@.len() ==> (#[trigger] libraries@[i])@.wf(),
    ensures
        r@ == classpath(library_views(libraries@), os, mc_dir@, id@),
{
    let mut out = libmanager(libraries, os, mc_dir);
    let jar = version_jar_path(mc_dir, id);
    out.append(jar.as_str());
    out
}

/// The files of the libraries that the platform takes, in order.
pub open spec fn library_files(libraries: Seq<LibraryView>, os: Os, mc_dir: Seq<char>) -> Seq<
    Seq<char>,
>
    decreases libraries.len(),
{
    if libraries.len() == 0 {
        Seq::empty()
    } else {
        let before = library_files(libraries.drop_last(), os, mc_dir);
        if applies(libraries.last(), os) {
            before.push(library_dir(mc_dir) + relative_path(libraries.last(), os))
        } else {
            before
        }
    }
}

/// The texts in order, each followed by `end`.
pub open spec fn each_ended(parts: Seq<Seq<char>>, end: Seq<char>) -> Seq<char>
    decreases parts.len(),
{
    if parts.len() == 0 {
        Seq::empty()
    } else {
        each_ended(parts.drop_last(), end) + parts.last() + end
    }
}

/// The library list is the files of the libraries, each followed by the
/// platform's separator.
pub proof fn lemma_list_of_files(libraries: Seq<LibraryView>, os: Os, mc_dir: Seq<char>)
    ensures
        library_list(libraries, os, mc_dir) == each_ended(
            library_files(libraries, os, mc_dir),
            os.separator(),
        ),
    decreases libraries.len(),
{
    if libraries.len() > 0 {
        lemma_list_of_files(libraries.drop_last(), os, mc_dir);
        if applies(libraries.last(), os) {
            let before = library_files(libraries.drop_last(), os, mc_dir);
            let file = library_dir(mc_dir) + relative_path(libraries.last(), os);
            assert(before.push(file).drop_last() =~= before);
            assert(each_ended(before, os.separator()) + file + os.separator() =~= each_ended(
                before,
                os.separator(),
            ) + library_dir(mc_dir) + relative_path(libraries.last(), os) + os.separator());
        }
    }
}

/// Lists the files of the libraries that the platform takes.
pub fn library_paths(libraries: &Vec<LibraryRef>, os: Os, mc_dir: &str) -> (r: Vec<String>)
    requires
        forall|i: int| 0 <= i < libraries@.len() ==> (#[trigger] libraries@[i])@.wf(),
    ensures
        texts(r@) == library_files(library_views(libraries@), os, mc_dir@),
{
    let mut out: Vec<String> = Vec::new();
    let mut i: usize = 0;
    while i < libraries.len()
        invariant
            i <= libraries.len(),
            forall|i: int| 0 <= i < libraries@.len() ==> (#[trigger] libraries@[i])@.wf(),
            texts(out@) == library_files(library_views(libraries@).take(i as int), os, mc_dir@),
        decreases libraries.len() - i,
    {
        let ghost next = library_views(libraries@).take(i + 1);
        proof {
            assert(next.drop_last() =~= library_views(libraries@).take(i as int));
        }
        if library_applies(&libraries[i], os) {
            let mut file = mc_dir.to_owned();
            file.append("/libraries/");
            let relative = library_relative_path(&libraries[i], os);
            file.append(relative.as_str());
            out.push(file);
        }
        i += 1;
    }
    proof {
        assert(library_views(libraries@).take(libraries@.len() as int) =~= library_views(
            libraries@,
        ));
    }
    out
}

/// The library list goes library by library: that of two lists in a row is
/// that of the first, then that of the second. So the libraries of a version
/// come before those of its base.
pub proof fn lemma_library_list_add(
    first: Seq<LibraryView>,
    second: Seq<LibraryView>,
    os: Os,
    mc_dir: Seq<char>,
)
    ensures
        library_list(first + second, os, mc_dir) == library_list(first, os, mc_dir) + library_list(
            second,
            os,
            mc_dir,
        ),
    decreases second.len(),
{
    if second.len() == 0 {
        assert(first + second =~= first);
    } else {
        lemma_library_list_add(first, second.drop_last(), os, mc_dir);
        assert((first + second).drop_last() =~= first + second.drop_last());
    }
}

/// The class path is a function of what it is built from: the same libraries,
/// platform, directory and version give the same text, on every call.
pub proof fn lemma_classpath_deterministic(
    first: Seq<LibraryView>,
    second: Seq<LibraryView>,
    os: Os,
    mc_dir: Seq<char>,
    id: Seq<char>,
)
    requires
        first == second,
    ensures
        classpath(first, os, mc_dir, id) == classpath(second, os, mc_dir, id),
{
}

/// Whether `s` ends in `tail`.
pub open spec fn ends_with(s: Seq<char>, tail: Seq<char>) -> bool {
    s.len() >= tail.len() && s.subrange(s.len() - tail.len(), s.len() as int) == tail
}

/// A library with a natives suffix lies in a jar whose name ends in that
/// suffix; one without lies in a plain jar, named by its last two parts.
pub proof fn lemma_path_ending(library: LibraryView, os: Os)
    ensures
        match natives_suffix(library, os) {
            Some(suffix) => ends_with(relative_path(library, os), "-"@ + suffix + ".jar"@),
            None => ends_with(
                relative_path(library, os),
                path_parts(split_on(library.coordinate, ':')).last() + ".jar"@,
            ),
        },
{
    let path = relative_path(library, os);
    match natives_suffix(library, os) {
        Some(suffix) => {
            let tail = "-"@ + suffix + ".jar"@;
            assert(path.subrange(path.len() - tail.len(), path.len() as int) =~= tail);
        },
        None => {
            let tail = path_parts(split_on(library.coordinate, ':')).last() + ".jar"@;
            assert(path.subrange(path.len() - tail.len(), path.len() as int) =~= tail);
        },
    }
}

/// A coordinate whose classifier says natives gives a path that ends in
/// `-natives-`, the platform and `.jar`.
pub proof fn lemma_natives_coordinate(library: LibraryView, os: Os)
    requires
        names_natives(split_on(library.coordinate, ':')),
    ensures
        ends_with(relative_path(library, os), "-natives-"@ + os.name() + ".jar"@),
{
    lemma_path_ending(library, os);
    assert("-"@ + ("natives-"@ + os.name()) + ".jar"@ =~= "-natives-"@ + os.name() + ".jar"@) by {
        reveal_strlit("-");
        reveal_strlit("natives-");
        reveal_strlit("-natives-");
    }
}

} // verus!

//! Installation: which artifacts a version needs, where each one comes from
//! and where it goes, and which of them are still to be fetched.
use vstd::prelude::*;
use crate::classpath::{
    applies, library_applies, library_dir, library_relative_path, names_natives, natives_suffix,
    relative_path,
};
use crate::json::{entries_of, lemma_entries, lemma_trees, member_of, trees, Entry, Json, Tree};
use crate::manifest::{
    find_named, library_views, named_value, owned_text, LibraryRef, LibraryView, ResolutionError,
};
use crate::platform::Os;
use crate::runtime::Java;
use crate::text::{chars_of, has, same, split, split_on, texts};
use crate::resolver::{EffectiveDescriptor, EffectiveView};

verus! {

/// The families of versions that can be installed.
#[derive(Clone, Copy, Debug, PartialEq, Eq, Structural)]
pub enum VersionType {
    Vanilla,
    Fabric,
}

/// What one download task of the front end is doing.
#[derive(Clone, Debug, PartialEq)]
pub enum DownloaderState {
    Idle,
    Downloading(String, VersionType),
    JavaDownloading(Java),
}

/// One download task of the front end.
#[derive(Clone, Debug, PartialEq)]
pub struct Downloader {
    pub state: DownloaderState,
    pub id: usize,
}

impl Default for Downloader {
    fn default() -> (r: Self)
        ensures
            r.state is Idle,
            r.id == 0,
    {
        Downloader { state: DownloaderState::Idle, id: 0 }
    }
}

impl Downloader {
    /// An idle task with the given id.
    pub fn new(id: usize) -> (r: Self)
        ensures
            r.state is Idle,
            r.id == id,
    {
        Downloader { state: DownloaderState::Idle, id }
    }

    /// Sets the task to install a version.
    pub fn start(&mut self, version: String, version_type: VersionType)
        ensures
            final(self).state == DownloaderState::Downloading(version, version_type),
            final(self).id == old(self).id,
    {
        self.state = DownloaderState::Downloading(version, version_type)
    }

    /// Sets the task to download a Java runtime.
    pub fn start_java(&mut self, java: Java)
        ensures
            final(self).state == DownloaderState::JavaDownloading(java),
            final(self).id == old(self).id,
    {
        self.state = DownloaderState::JavaDownloading(java)
    }
}

/// One artifact: the file that holds it and the address that it comes from.
/// An asset object also has the hash of its content, which names its file.
#[derive(Clone, Debug, PartialEq)]
pub struct ArtifactRecord {
    pub path: String,
    pub url: String,
    pub hash: Option<String>,
}

pub struct ArtifactView {
    pub path: Seq<char>,
    pub url: Seq<char>,
    pub hash: Option<Seq<char>>,
}

impl View for ArtifactRecord {
    type V = ArtifactView;

    open spec fn view(&self) -> ArtifactView {
        ArtifactView {
            path: self.path@,
            url: self.url@,
            hash: match self.hash {
                Some(hash) => Some(hash@),
                None => None,
            },
        }
    }
}

/// The views of a sequence of artifacts.
pub open spec fn artifact_views(v: Seq<ArtifactRecord>) -> Seq<ArtifactView> {
    Seq::new(v.len(), |i: int| v[i]@)
}

/// One step of an installation.
#[derive(Clone, Debug, PartialEq)]
pub enum InstallStep {
    /// Fetch the artifact, unless its file is there.
    Fetch(ArtifactRecord),
    /// Fetch an archive of natives into the file `archive`, unpack it into
    /// the directory `into`, and remove the file again.
    Unpack { url: String, archive: String, into: String },
}

pub enum StepView {
    Fetch(ArtifactView),
    Unpack { url: Seq<char>, archive: Seq<char>, into: Seq<char> },
}

impl View for InstallStep {
    type V = StepView;

    open spec fn view(&self) -> StepView {
        match self {
            InstallStep::Fetch(record) => StepView::Fetch(record@),
            InstallStep::Unpack { url, archive, into } => StepView::Unpack {
                url: url@,
                archive: archive@,
                into: into@,
            },
        }
    }
}

/// The views of a sequence of steps.
pub open spec fn step_views(v: Seq<InstallStep>) -> Seq<StepView> {
    Seq::new(v.len(), |i: int| v[i]@)
}

/// The name under which a library lists the archive of its natives for a
/// platform.
pub open spec fn natives_key(os: Os) -> Seq<char> {
    "natives-"@ + os.name()
}

/// Where a library's jar comes from: the address that the manifest gives;
/// else the library's path below the base of its repository; else, for a
/// library whose natives map knows the platform, the address of the
/// platform's natives archive, under the platform's key or under that key
/// with `-64` behind it. A library with none of these has no address.
pub open spec fn library_url(library: LibraryView, os: Os) -> Option<Seq<char>> {
    match library.download_url {
        Some(url) => Some(url),
        None => match library.repository {
            Some(base) => Some(base + relative_path(library, os)),
            None => if !names_natives(split_on(library.coordinate, ':')) && natives_suffix(
                library,
                os,
            ) is Some {
                match named_value(library.classifier_urls, natives_key(os)) {
                    Some(url) => Some(url),
                    None => named_value(library.classifier_urls, natives_key(os) + "-64"@),
                }
            } else {
                None
            },
        },
    }
}

/// The step that fetches a library's jar: for a library that is for the
/// platform and has an address.
pub open spec fn jar_step(library: LibraryView, os: Os, mc_dir: Seq<char>) -> Option<StepView> {
    if applies(library, os) {
        match library_url(library, os) {
            Some(url) => Some(
                StepView::Fetch(
                    ArtifactView {
                        path: library_dir(mc_dir) + relative_path(library, os),
                        url,
                        hash: None,
                    },
                ),
            ),
            None => None,
        }
    } else {
        None
    }
}

/// The step that unpacks a library's natives: for a library that lists an
/// archive of natives for the platform.
pub open spec fn natives_step(library: LibraryView, os: Os, folder: Seq<char>) -> Option<StepView> {
    match named_value(library.classifier_urls, natives_key(os)) {
        Some(url) => Some(
            StepView::Unpack {
                url,
                archive: folder + "/natives/natives.jar"@,
                into: folder + "/natives"@,
            },
        ),
        None => None,
    }
}

/// A sequence of steps with one more where there is one.
pub open spec fn with_step(steps: Seq<StepView>, step: Option<StepView>) -> Seq<StepView> {
    match step {
        Some(step) => steps.push(step),
        None => steps,
    }
}

/// The steps that install libraries: for each library in order, its jar,
/// then its natives.
pub open spec fn library_steps(
    libraries: Seq<LibraryView>,
    os: Os,
    mc_dir: Seq<char>,
    folder: Seq<char>,
) -> Seq<StepView>
    decreases libraries.len(),
{
    if libraries.len() == 0 {
        Seq::empty()
    } else {
        with_step(
            with_step(
                library_steps(libraries.drop_last(), os, mc_dir, folder),
                jar_step(libraries.last(), os, mc_dir),
            ),
            natives_step(libraries.last(), os, folder),
        )
    }
}

/// The steps go library by library: those of two lists in a row are those of
/// the first, then those of the second.
pub proof fn lemma_library_steps_add(
    first: Seq<LibraryView>,
    second: Seq<LibraryView>,
    os: Os,
    mc_dir: Seq<char>,
    folder: Seq<char>,
)
    ensures
        library_steps(first + second, os, mc_dir, folder) == library_steps(
            first,
            os,
            mc_dir,
            folder,
        ) + library_steps(second, os, mc_dir, folder),
    decreases second.len(),
{
    if second.len() == 0 {
        assert(first + second =~= first);
    } else {
        lemma_library_steps_add(first, second.drop_last(), os, mc_dir, folder);
        assert((first + second).drop_last() =~= first + second.drop_last());
    }
}

/// The key of a platform's natives archive.
pub fn natives_key_of(os: Os) -> (r: String)
    ensures
        r@ == natives_key(os),
{
    let mut key = "natives-".to_owned();
    key.append(os.as_str());
    key
}

/// Where a library's jar comes from.
pub fn library_address(library: &LibraryRef, os: Os) -> (r: Option<String>)
    requires
        library@.wf(),
    ensures
        match r {
            Some(url) => library_url(library@, os) == Some(url@),
            None => library_url(library@, os) is None,
        },
{
    match &library.download_url {
        Some(url) => Some(url.clone()),
        None => match &library.repository {
            Some(base) => {
                let mut url = base.clone();
                let path = library_relative_path(library, os);
                url.append(path.as_str());
                Some(url)
            },
            None => {
                let pieces = split(library.coordinate.as_str(), ':');
                let count = pieces.len();
                let in_name = count >= 4 && has(
                    pieces[count - 1].as_str(),
                    "natives",
                );
                if !in_name && find_named(&library.natives, os.as_str()).is_some() {
                    let key = natives_key_of(os);
                    match find_named(&library.classifier_urls, key.as_str()) {
                        Some(url) => Some(url.clone()),
                        None => {
                            let mut wide = key;
                            wide.append("-64");
                            match find_named(&library.classifier_urls, wide.as_str()) {
                                Some(url) => Some(url.clone()),
                                None => None,
                            }
                        },
                    }
                } else {
                    None
                }
            },
        },
    }
}

/// Plans the installation of libraries: for each library in order, the step
/// that fetches its jar, where it is for the platform and has an address,
/// then the step that unpacks its natives, where it lists an archive of them
/// for the platform. `foldertosave` is the version's directory.
pub fn downloadlibraries(mc_dir: &str, os: Os, libraries: &Vec<LibraryRef>, foldertosave: &str) -> (r:
    Vec<InstallStep>)
    requires
        forall|i: int| 0 <= i < libraries@.len() ==> (#[trigger] libraries@[i])@.wf(),
    ensures
        step_views(r@) == library_steps(library_views(libraries@), os, mc_dir@, foldertosave@),
{
    let mut lib_dir = mc_dir.to_owned();
    lib_dir.append("/libraries/");
    let key = natives_key_of(os);
    let mut out: Vec<InstallStep> = Vec::new();
    let mut i: usize = 0;
    while i < libraries.len()
        invariant
            i <= libraries.len(),
            lib_dir@ == library_dir(mc_dir@),
            key@ == natives_key(os),
            forall|i: int| 0 <= i < libraries@.len() ==> (#[trigger] libraries@[i])@.wf(),
            step_views(out@) == library_steps(
                library_views(libraries@).take(i as int),
                os,
                mc_dir@,
                foldertosave@,
            ),
        decreases libraries.len() - i,
    {
        let ghost next = library_views(libraries@).take(i + 1);
        proof {
            assert(next.drop_last() =~= library_views(libraries@).take(i as int));
        }
        let library = &libraries[i];
        if library_applies(library, os) {
            match library_address(library, os) {
                Some(url) => {
                    let mut path = lib_dir.clone();
                    let relative = library_relative_path(library, os);
                    path.append(relative.as_str());
                    let step = InstallStep::Fetch(ArtifactRecord { path, url, hash: None });
                    out.push(step);
                },
                None => {},
            }
        }
        match find_named(&library.classifier_urls, key.as_str()) {
            Some(url) => {
                let mut archive = foldertosave.to_owned();
                archive.append("/natives/natives.jar");
                let mut into = foldertosave.to_owned();
                into.append("/natives");
                let step = InstallStep::Unpack { url: url.clone(), archive, into };
                out.push(step);
            },
            None => {},
        }
        i += 1;
    }
    proof {
        assert(library_views(libraries@).take(libraries@.len() as int) =~= library_views(
            libraries@,
        ));
    }
    out
}

/// The artifacts that are still to be fetched: those whose file is not there,
/// in order. `present` says of each artifact whether its file is there.
pub open spec fn lacking(records: Seq<ArtifactView>, present: Seq<bool>) -> Seq<ArtifactView>
    decreases records.len(),
{
    if records.len() == 0 {
        Seq::empty()
    } else {
        let before = lacking(records.drop_last(), present);
        if present[records.len() - 1] {
            before
        } else {
            before.push(records.last())
        }
    }
}

impl ArtifactRecord {
    /// A copy of the record.
    pub fn duplicate(&self) -> (r: ArtifactRecord)
        ensures
            r@ == self@,
    {
        ArtifactRecord {
            path: self.path.clone(),
            url: self.url.clone(),
            hash: match &self.hash {
                Some(hash) => Some(hash.clone()),
                None => None,
            },
        }
    }
}

/// Picks the artifacts that are still to be fetched. What is there is left
/// alone, whatever it holds.
pub fn pending(records: &Vec<ArtifactRecord>, present: &Vec<bool>) -> (r: Vec<ArtifactRecord>)
    requires
        present@.len() == records@.len(),
    ensures
        artifact_views(r@) == lacking(artifact_views(records@), present@),
{
    let mut out: Vec<ArtifactRecord> = Vec::new();
    let mut i: usize = 0;
    while i < records.len()
        invariant
            i <= records.len(),
            present@.len() == records@.len(),
            artifact_views(out@) == lacking(artifact_views(records@).take(i as int), present@),
        decreases records.len() - i,
    {
        let ghost next = artifact_views(records@).take(i + 1);
        proof {
            assert(next.drop_last() =~= artifact_views(records@).take(i as int));
        }
        if !present[i] {
            let record = records[i].duplicate();
            out.push(record);
        }
        i += 1;
    }
    proof {
        assert(artifact_views(records@).take(records@.len() as int) =~= artifact_views(records@));
    }
    out
}

/// Of each artifact, whether its file is among the files on disk.
pub open spec fn presence(records: Seq<ArtifactView>, disk: Set<Seq<char>>) -> Seq<bool> {
    Seq::new(records.len(), |i: int| disk.contains(records[i].path))
}

/// The files on disk once each of the artifacts has been fetched that was
/// lacking.
pub open spec fn installed(records: Seq<ArtifactView>, disk: Set<Seq<char>>) -> Set<Seq<char>> {
    disk.union(Set::new(|path: Seq<char>| exists|i: int| 0 <= i < records.len() && (#[trigger] records[i]).path == path))
}

/// Nothing is lacking where every file is there.
pub proof fn lemma_nothing_lacking(records: Seq<ArtifactView>, present: Seq<bool>)
    requires
        present.len() == records.len(),
        forall|i: int| 0 <= i < present.len() ==> present[i],
    ensures
        lacking(records, present) == Seq::<ArtifactView>::empty(),
    decreases records.len(),
{
    if records.len() > 0 {
        lemma_nothing_lacking(records.drop_last(), present.drop_last());
        lemma_lacking_flags(records.drop_last(), present, present.drop_last());
    }
}

/// `lacking` reads only the flags of the artifacts that it is given.
pub proof fn lemma_lacking_flags(records: Seq<ArtifactView>, a: Seq<bool>, b: Seq<bool>)
    requires
        forall|i: int| 0 <= i < records.len() ==> a[i] == b[i],
    ensures
        lacking(records, a) == lacking(records, b),
    decreases records.len(),
{
    if records.len() > 0 {
        lemma_lacking_flags(records.drop_last(), a, b);
    }
}

/// Installing is idempotent. Once the artifacts that were lacking have been
/// fetched, a second installation of the same artifacts finds none lacking,
/// so it writes no file, and the files on disk stay the same.
pub proof fn lemma_install_idempotent(records: Seq<ArtifactView>, disk: Set<Seq<char>>)
    ensures
        lacking(records, presence(records, installed(records, disk))) == Seq::<ArtifactView>::empty(),
        installed(records, installed(records, disk)) == installed(records, disk),
        disk.subset_of(installed(records, disk)),
{
    let after = installed(records, disk);
    assert forall|i: int| 0 <= i < records.len() implies presence(records, after)[i] by {
        assert(records[i].path == records[i].path);
    }
    lemma_nothing_lacking(records, presence(records, after));
    assert(installed(records, after) =~= after);
}

/// What is fetched is exactly what was lacking: an artifact is among the
/// lacking ones if and only if it is one of the artifacts and its file is not
/// there.
pub proof fn lemma_lacking_holds(records: Seq<ArtifactView>, present: Seq<bool>, i: int)
    requires
        present.len() == records.len(),
        0 <= i < records.len(),
    ensures
        !present[i] ==> lacking(records, present).contains(records[i]),
        forall|k: int|
            0 <= k < lacking(records, present).len() ==> exists|j: int|
                0 <= j < records.len() && !present[j] && records[j] == #[trigger] lacking(
                    records,
                    present,
                )[k],
    decreases records.len(),
{
    let before = lacking(records.drop_last(), present);
    if records.len() > 1 {
        if i < records.len() - 1 {
            lemma_lacking_holds(records.drop_last(), present.drop_last(), i);
        } else {
            lemma_lacking_holds(records.drop_last(), present.drop_last(), 0);
        }
        lemma_lacking_flags(records.drop_last(), present, present.drop_last());
    } else {
        assert(records.drop_last() =~= Seq::<ArtifactView>::empty());
    }
    let all = lacking(records, present);
    if !present[i] {
        if i == records.len() - 1 {
            assert(all[all.len() - 1] == records[i]);
        } else {
            let k = choose|k: int| 0 <= k < before.len() && before[k] == records.drop_last()[i];
            assert(all[k] == records[i]);
        }
    }
    assert forall|k: int| 0 <= k < all.len() implies exists|j: int|
        0 <= j < records.len() && !present[j] && records[j] == #[trigger] all[k] by {
        if k < before.len() {
            let j = choose|j: int|
                0 <= j < records.drop_last().len() && !present.drop_last()[j]
                    && records.drop_last()[j] == before[k];
            assert(records[j] == all[k]);
        } else {
            assert(records[records.len() - 1] == all[k]);
        }
    }
}

/// The hash that an entry of an asset index gives, where it gives one.
pub open spec fn hash_of(entry: Entry) -> Option<Seq<char>> {
    entry.value.member("hash"@).text()
}

/// The artifact of an asset object: its file lies below the object
/// directory, in the directory named by the first two characters of its
/// hash, under its hash; its address is built the same way.
pub open spec fn asset_record(mc_dir: Seq<char>, hash: Seq<char>) -> ArtifactView {
    ArtifactView {
        path: mc_dir + "/assets/objects/"@ + hash.subrange(0, 2) + "/"@ + hash,
        url: "https://resources.download.minecraft.net/"@ + hash.subrange(0, 2) + "/"@ + hash,
        hash: Some(hash),
    }
}

/// The artifacts of the entries that give a hash, in order.
pub open spec fn asset_list(entries: Seq<Entry>, mc_dir: Seq<char>) -> Seq<ArtifactView>
    decreases entries.len(),
{
    if entries.len() == 0 {
        Seq::empty()
    } else {
        let before = asset_list(entries.drop_last(), mc_dir);
        match hash_of(entries.last()) {
            Some(hash) => before.push(asset_record(mc_dir, hash)),
            None => before,
        }
    }
}

/// The artifacts of an asset index: those of the entries of its `objects`.
/// An index with a hash of less than two characters gives nothing.
pub open spec fn asset_records(index: Tree, mc_dir: Seq<char>) -> Option<Seq<ArtifactView>> {
    match index.member("objects"@).entries() {
        Some(entries) => if forall|i: int|
            0 <= i < entries.len() ==> (hash_of(#[trigger] entries[i]) matches Some(hash)
                ==> hash.len() >= 2) {
            Some(asset_list(entries, mc_dir))
        } else {
            None
        },
        None => Some(Seq::empty()),
    }
}

/// Lists the asset objects of an asset index as artifacts. An index with a
/// hash that is too short is malformed.
pub fn downloadassets(mc_dir: &str, index: &Json) -> (r: Result<Vec<ArtifactRecord>, ResolutionError>)
    ensures
        match r {
            Ok(records) => asset_records(index@, mc_dir@) == Some(artifact_views(records@)),
            Err(error) => asset_records(index@, mc_dir@) is None
                && error == ResolutionError::MalformedManifest,
        },
{
    let mut out: Vec<ArtifactRecord> = Vec::new();
    let members = match index.member("objects") {
        Some(objects) => objects.members(),
        None => None,
    };
    let members = match members {
        Some(members) => members,
        None => {
            return Ok(out);
        },
    };
    let ghost entries = entries_of(members@);
    let mut i: usize = 0;
    proof {
        lemma_entries(members@);
    }
    while i < members.len()
        invariant
            i <= members.len(),
            entries == entries_of(members@),
            entries.len() == members@.len(),
            index@.member("objects"@).entries() == Some(entries),
            forall|k: int|
                0 <= k < i ==> (hash_of(#[trigger] entries[k]) matches Some(hash) ==> hash.len()
                    >= 2),
            artifact_views(out@) == asset_list(entries.take(i as int), mc_dir@),
        decreases members.len() - i,
    {
        let ghost next = entries.take(i + 1);
        proof {
            lemma_entries(members@);
            assert(next.drop_last() =~= entries.take(i as int));
        }
        match owned_text(members[i].value.member("hash")) {
            Some(hash) => {
                let count = chars_of(hash.as_str()).len();
                if count < 2 {
                    return Err(ResolutionError::MalformedManifest);
                }
                let prefix = hash.as_str().substring_char(0, 2);
                let mut path = mc_dir.to_owned();
                path.append("/assets/objects/");
                path.append(prefix);
                path.append("/");
                path.append(hash.as_str());
                let mut url = "https://resources.download.minecraft.net/".to_owned();
                url.append(prefix);
                url.append("/");
                url.append(hash.as_str());
                let record = ArtifactRecord { path, url, hash: Some(hash) };
                out.push(record);
            },
            None => {},
        }
        i += 1;
    }
    proof {
        assert(entries.take(entries.len() as int) =~= entries);
    }
    Ok(out)
}

/// The file of an asset index.
pub open spec fn asset_index_path(mc_dir: Seq<char>, id: Seq<char>) -> Seq<char> {
    mc_dir + "/assets/indexes/"@ + id + ".json"@
}

/// The name under which a version is installed: a Fabric version carries the
/// family's name behind its game version.
pub open spec fn installed_name(version_type: VersionType, version: Seq<char>) -> Seq<char> {
    match version_type {
        VersionType::Vanilla => version,
        VersionType::Fabric => version + "-Fabric"@,
    }
}

/// The name under which a version is installed.
pub fn version_name(version_type: VersionType, version: &str) -> (r: String)
    ensures
        r@ == installed_name(version_type, version@),
{
    let mut name = version.to_owned();
    match version_type {
        VersionType::Vanilla => {},
        VersionType::Fabric => {
            name.append("-Fabric");
        },
    }
    name
}

/// Where an installation puts a version.
#[derive(Clone, Debug, PartialEq)]
pub struct InstallTargets {
    /// The name that the version is installed under.
    pub versionname: String,
    /// The version's directory.
    pub foldertosave: String,
    /// The version's manifest.
    pub manifest: String,
    /// The manifest of the game version that a Fabric version is layered on.
    pub base_manifest: Option<String>,
}

/// Says where the installation of a version puts its files: the version's
/// directory below `versions`, the manifest in it under the version's name,
/// and, for a Fabric version, the base's manifest beside it.
pub fn installversion(version: &str, version_type: VersionType, mc_dir: &str) -> (r: InstallTargets)
    ensures
        r.versionname@ == installed_name(version_type, version@),
        r.foldertosave@ == mc_dir@ + "/versions/"@ + installed_name(version_type, version@),
        r.manifest@ == r.foldertosave@ + "/"@ + installed_name(version_type, version@) + ".json"@,
        match version_type {
            VersionType::Vanilla => r.base_manifest is None,
            VersionType::Fabric => r.base_manifest matches Some(path) && path@ == r.foldertosave@
                + "/"@ + version@ + ".json"@,
        },
{
    let versionname = version_name(version_type, version);
    let mut foldertosave = mc_dir.to_owned();
    foldertosave.append("/versions/");
    foldertosave.append(versionname.as_str());
    let mut manifest = foldertosave.clone();
    manifest.append("/");
    manifest.append(versionname.as_str());
    manifest.append(".json");
    let base_manifest = match version_type {
        VersionType::Vanilla => None,
        VersionType::Fabric => {
            let mut path = foldertosave.clone();
            path.append("/");
            path.append(version);
            path.append(".json");
            Some(path)
        },
    };
    InstallTargets { versionname, foldertosave, manifest, base_manifest }
}

/// The address of the catalogue of game versions.
pub const VANILLA_CATALOGUE: &'static str =
    "https://launchermeta.mojang.com/mc/game/version_manifest_v2.json";

/// The address of the catalogue of the game versions that Fabric supports.
pub const FABRIC_CATALOGUE: &'static str = "https://meta.fabricmc.net/v2/versions/game";

/// The address of the list of Fabric's loaders, newest first.
pub const FABRIC_LOADERS: &'static str = "https://meta.fabricmc.net/v2/versions/loader";

/// The address of the listing that leads to a version's manifest: the
/// catalogue of game versions, or the list of Fabric's loaders.
pub fn listing_url(version_type: VersionType) -> (r: &'static str)
    ensures
        r@ == match version_type {
            VersionType::Vanilla => VANILLA_CATALOGUE@,
            VersionType::Fabric => FABRIC_LOADERS@,
        },
{
    match version_type {
        VersionType::Vanilla => VANILLA_CATALOGUE,
        VersionType::Fabric => FABRIC_LOADERS,
    }
}

/// The address that a catalogue gives for a version: that of the first entry
/// with this id.
pub open spec fn catalogue_url(entries: Seq<Tree>, version: Seq<char>) -> Option<Seq<char>>
    decreases entries.len(),
{
    if entries.len() == 0 {
        None
    } else if entries[0].member("id"@).text() == Some(version) {
        entries[0].member("url"@).text()
    } else {
        catalogue_url(entries.skip(1), version)
    }
}

/// The items of a document that is an array; none for anything else.
pub open spec fn items_or_none(t: Tree) -> Seq<Tree> {
    match t.items() {
        Some(items) => items,
        None => Seq::empty(),
    }
}

/// The address of a version's manifest. For a game version the catalogue of
/// game versions gives it. For a Fabric version it is the profile of the
/// first loader in the list of loaders.
pub open spec fn manifest_url(version_type: VersionType, version: Seq<char>, listing: Tree) -> Option<
    Seq<char>,
> {
    match version_type {
        VersionType::Vanilla => catalogue_url(items_or_none(listing.member("versions"@)), version),
        VersionType::Fabric => match listing.item(0).member("version"@).text() {
            Some(loader) => Some(
                "https://meta.fabricmc.net/v2/versions/loader/"@ + version + "/"@ + loader
                    + "/profile/json"@,
            ),
            None => None,
        },
    }
}

/// The artifact of a version's manifest, where the listing gives its
/// address: the file lies in the version's directory under the name that the
/// version is installed under.
pub open spec fn manifest_record(
    version_type: VersionType,
    version: Seq<char>,
    folder: Seq<char>,
    listing: Tree,
) -> Option<ArtifactView> {
    match manifest_url(version_type, version, listing) {
        Some(url) => Some(
            ArtifactView {
                path: folder + "/"@ + installed_name(version_type, version) + ".json"@,
                url,
                hash: None,
            },
        ),
        None => None,
    }
}

/// Finds a version's manifest: `listing` is the catalogue of game versions
/// for a game version, the list of loaders for a Fabric version. Nothing
/// comes back where the listing does not lead to an address.
pub fn downloadversionjson(
    version_type: VersionType,
    version: &str,
    foldertosave: &str,
    listing: &Json,
) -> (r: Option<ArtifactRecord>)
    ensures
        match r {
            Some(record) => manifest_record(version_type, version@, foldertosave@, listing@)
                == Some(record@),
            None => manifest_record(version_type, version@, foldertosave@, listing@) is None,
        },
{
    let url = match version_type {
        VersionType::Vanilla => {
            let entries = match listing.member("versions") {
                Some(versions) => versions.items(),
                None => None,
            };
            match entries {
                Some(entries) => {
                    let ghost all = trees(entries@);
                    let mut found: Option<String> = None;
                    let mut i: usize = 0;
                    proof {
                        lemma_trees(entries@);
                        assert(all.skip(0) =~= all);
                    }
                    while i < entries.len()
                        invariant_except_break
                            found is None,
                            catalogue_url(all, version@) == catalogue_url(
                                all.skip(i as int),
                                version@,
                            ),
                        invariant
                            i <= entries.len(),
                            all == trees(entries@),
                            all.len() == entries@.len(),
                        ensures
                            match found {
                                Some(url) => catalogue_url(all, version@) == Some(url@),
                                None => catalogue_url(all, version@) is None,
                            },
                        decreases entries.len() - i,
                    {
                        let ghost rest = all.skip(i as int);
                        proof {
                            lemma_trees(entries@);
                            assert(rest.skip(1) =~= all.skip(i + 1));
                        }
                        let matches_id = match owned_text(entries[i].member("id")) {
                            Some(id) => same(id.as_str(), version),
                            None => false,
                        };
                        if matches_id {
                            found = owned_text(entries[i].member("url"));
                            break ;
                        }
                        i += 1;
                    }
                    found
                },
                None => None,
            }
        },
        VersionType::Fabric => match owned_text(member_of(listing.item(0), "version")) {
            Some(loader) => {
                let mut url = "https://meta.fabricmc.net/v2/versions/loader/".to_owned();
                url.append(version);
                url.append("/");
                url.append(loader.as_str());
                url.append("/profile/json");
                Some(url)
            },
            None => None,
        },
    };
    match url {
        Some(url) => {
            let mut path = foldertosave.to_owned();
            path.append("/");
            let name = version_name(version_type, version);
            path.append(name.as_str());
            path.append(".json");
            Some(ArtifactRecord { path, url, hash: None })
        },
        None => None,
    }
}

/// The artifact of a version's jar, where the address of the game's jar is
/// known: the file lies in the version's directory under the name that the
/// version is installed under.
pub open spec fn jar_record(
    version_type: VersionType,
    client_url: Option<Seq<char>>,
    folder: Seq<char>,
    version: Seq<char>,
) -> Option<ArtifactView> {
    match client_url {
        Some(url) => Some(
            ArtifactView {
                path: folder + "/"@ + installed_name(version_type, version) + ".jar"@,
                url,
                hash: None,
            },
        ),
        None => None,
    }
}

/// The text of an optional string.
pub open spec fn opt_ref(s: Option<&String>) -> Option<Seq<char>> {
    match s {
        Some(s) => Some(s@),
        None => None,
    }
}

/// Finds a version's jar. `client_url` is the address of the game's jar, from
/// the manifest of the game version.
pub fn downloadversionjar(
    version_type: VersionType,
    client_url: Option<&String>,
    foldertosave: &str,
    version: &str,
) -> (r: Option<ArtifactRecord>)
    ensures
        match r {
            Some(record) => jar_record(version_type, opt_ref(client_url), foldertosave@, version@)
                == Some(record@),
            None => jar_record(version_type, opt_ref(client_url), foldertosave@, version@) is None,
        },
{
    match client_url {
        Some(url) => {
            let mut path = foldertosave.to_owned();
            path.append("/");
            let name = version_name(version_type, version);
            path.append(name.as_str());
            path.append(".jar");
            Some(ArtifactRecord { path, url: url.clone(), hash: None })
        },
        None => None,
    }
}

/// A step for an artifact, where there is one.
pub open spec fn fetch_step(record: Option<ArtifactView>) -> Option<StepView> {
    match record {
        Some(record) => Some(StepView::Fetch(record)),
        None => None,
    }
}

/// The artifact of a version's asset index, where its address is known.
pub open spec fn asset_index_record(effective: EffectiveView, mc_dir: Seq<char>) -> Option<
    ArtifactView,
> {
    match effective.asset_index_url {
        Some(url) => Some(
            ArtifactView {
                path: asset_index_path(mc_dir, effective.asset_index_id),
                url,
                hash: None,
            },
        ),
        None => None,
    }
}

/// The steps that install a version, once its manifest is there, and its
/// base's: the version's jar, the asset index, then the libraries, the
/// version's own before the base's.
pub open spec fn install_steps(
    effective: EffectiveView,
    version_type: VersionType,
    version: Seq<char>,
    os: Os,
    mc_dir: Seq<char>,
    folder: Seq<char>,
) -> Seq<StepView> {
    with_step(
        with_step(
            Seq::empty(),
            fetch_step(jar_record(version_type, effective.client_url, folder, version)),
        ),
        fetch_step(asset_index_record(effective, mc_dir)),
    ) + library_steps(effective.libraries, os, mc_dir, folder)
}

/// Plans the installation of a version from its effective descriptor.
pub fn install_plan(
    effective: &EffectiveDescriptor,
    version_type: VersionType,
    version: &str,
    os: Os,
    mc_dir: &str,
    foldertosave: &str,
) -> (r: Vec<InstallStep>)
    requires
        effective@.wf(),
    ensures
        step_views(r@) == install_steps(
            effective@,
            version_type,
            version@,
            os,
            mc_dir@,
            foldertosave@,
        ),
{
    let mut out: Vec<InstallStep> = Vec::new();
    let client_url = match &effective.client_url {
        Some(url) => Some(url),
        None => None,
    };
    match downloadversionjar(version_type, client_url, foldertosave, version) {
        Some(record) => {
            let step = InstallStep::Fetch(record);
            out.push(step);
        },
        None => {},
    }
    match &effective.asset_index_url {
        Some(url) => {
            let mut path = mc_dir.to_owned();
            path.append("/assets/indexes/");
            path.append(effective.asset_index_id.as_str());
            path.append(".json");
            let step = InstallStep::Fetch(ArtifactRecord { path, url: url.clone(), hash: None });
            out.push(step);
        },
        None => {},
    }
    assert forall|i: int| 0 <= i < effective.libraries@.len() implies (
    #[trigger] effective.libraries@[i])@.wf() by {
        assert(effective@.libraries[i] == effective.libraries@[i]@);
    }
    let mut steps = downloadlibraries(mc_dir, os, &effective.libraries, foldertosave);
    out.append(&mut steps);
    out
}

/// Whether a catalogue's entry is listed when only stable versions are: a
/// game version that is a release, a Fabric entry that is stable.
pub open spec fn is_stable(entry: Tree, version_type: VersionType) -> bool {
    match version_type {
        VersionType::Vanilla => entry.member("type"@).text() == Some("release"@),
        VersionType::Fabric => entry.member("stable"@) == Tree::Bool(true),
    }
}

/// The version that a catalogue's entry names.
pub open spec fn listed_id(entry: Tree, version_type: VersionType) -> Option<Seq<char>> {
    match version_type {
        VersionType::Vanilla => entry.member("id"@).text(),
        VersionType::Fabric => entry.member("version"@).text(),
    }
}

/// The versions that a catalogue lists, in its order: all that its entries
/// name, or only those of its stable entries.
pub open spec fn listed(entries: Seq<Tree>, version_type: VersionType, all: bool) -> Seq<Seq<char>>
    decreases entries.len(),
{
    if entries.len() == 0 {
        Seq::empty()
    } else {
        let before = listed(entries.drop_last(), version_type, all);
        match listed_id(entries.last(), version_type) {
            Some(id) => if all || is_stable(entries.last(), version_type) {
                before.push(id)
            } else {
                before
            },
            None => before,
        }
    }
}

/// Lists the versions of one catalogue.
pub fn catalogue_versions(entries: Option<&Vec<Json>>, version_type: VersionType, all: bool) -> (r:
    Vec<String>)
    ensures
        texts(r@) == listed(
            match entries {
                Some(entries) => trees(entries@),
                None => Seq::empty(),
            },
            version_type,
            all,
        ),
{
    let mut out: Vec<String> = Vec::new();
    let entries = match entries {
        Some(entries) => entries,
        None => {
            return out;
        },
    };
    let ghost every = trees(entries@);
    let mut i: usize = 0;
    proof {
        lemma_trees(entries@);
    }
    while i < entries.len()
        invariant
            i <= entries.len(),
            every == trees(entries@),
            every.len() == entries@.len(),
            texts(out@) == listed(every.take(i as int), version_type, all),
        decreases entries.len() - i,
    {
        let ghost next = every.take(i + 1);
        proof {
            lemma_trees(entries@);
            assert(next.drop_last() =~= every.take(i as int));
        }
        let entry = &entries[i];
        let id = match version_type {
            VersionType::Vanilla => owned_text(entry.member("id")),
            VersionType::Fabric => owned_text(entry.member("version")),
        };
        match id {
            Some(id) => {
                let stable = match version_type {
                    VersionType::Vanilla => match owned_text(entry.member("type")) {
                        Some(kind) => same(kind.as_str(), "release"),
                        None => false,
                    },
                    VersionType::Fabric => match entry.member("stable") {
                        Some(Json::Bool(flag)) => *flag,
                        _ => false,
                    },
                };
                if all || stable {
                    out.push(id);
                }
            },
            None => {},
        }
        i += 1;
    }
    proof {
        assert(every.take(every.len() as int) =~= every);
    }
    out
}

/// Lists the versions that can be installed, from the two catalogues: first
/// the game versions, then the versions that Fabric supports. With
/// `showallversions` every version is listed, else only the stable ones.
pub fn getversionlist(vanilla: &Json, fabric: &Json, showallversions: bool) -> (r: Vec<Vec<String>>)
    ensures
        r@.len() == 2,
        texts(r@[0]@) == listed(
            items_or_none(vanilla@.member("versions"@)),
            VersionType::Vanilla,
            showallversions,
        ),
        texts(r@[1]@) == listed(items_or_none(fabric@), VersionType::Fabric, showallversions),
{
    let vanilla_entries = match vanilla.member("versions") {
        Some(versions) => versions.items(),
        None => None,
    };
    let games = catalogue_versions(vanilla_entries, VersionType::Vanilla, showallversions);
    let loaders = catalogue_versions(fabric.items(), VersionType::Fabric, showallversions);
    let mut out: Vec<Vec<String>> = Vec::new();
    out.push(games);
    out.push(loaders);
    out
}

/// What to do with one entry of an archive.
#[derive(Clone, Debug, PartialEq)]
pub enum Extraction {
    /// Make the directory, with those above it.
    CreateDir(String),
    /// Write the entry's content to the file, over what is there.
    WriteFile(String),
}

/// Says what to do with one entry of an archive that is unpacked into the
/// directory `into`: the entry's name goes below that directory, as a
/// directory or as a file.
pub fn extraction(into: &str, name: &str, is_dir: bool) -> (r: Extraction)
    ensures
        match r {
            Extraction::CreateDir(path) => is_dir && path@ == into@ + "/"@ + name@,
            Extraction::WriteFile(path) => !is_dir && path@ == into@ + "/"@ + name@,
        },
{
    let mut path = into.to_owned();
    path.append("/");
    path.append(name);
    if is_dir {
        Extraction::CreateDir(path)
    } else {
        Extraction::WriteFile(path)
    }
}

} // verus!

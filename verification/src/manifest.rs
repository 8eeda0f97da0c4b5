//! Version descriptors: the typed form of a version's JSON manifest, and the
//! one validating step that reads it. Whatever the manifest lacks or shapes
//! wrongly comes out of that step as a refusal, never later.
use vstd::prelude::*;
use crate::json::{
    entries_of, item_of, lemma_entries, lemma_trees, member_of, seen, text_of, text_tree, trees,
    Json, Tree,
};
use crate::text::{same, split, split_on, split_whitespace, texts, words};

verus! {

/// The text of an optional string.
pub open spec fn opt(s: Option<String>) -> Option<Seq<char>> {
    match s {
        Some(s) => Some(s@),
        None => None,
    }
}

/// A name with a text: a platform with its natives classifier, or a
/// classifier with its download address.
#[derive(Clone, Debug, PartialEq)]
pub struct Named {
    pub name: String,
    pub value: String,
}

pub struct NamedView {
    pub name: Seq<char>,
    pub value: Seq<char>,
}

impl View for Named {
    type V = NamedView;

    open spec fn view(&self) -> NamedView {
        NamedView { name: self.name@, value: self.value@ }
    }
}

/// The views of a sequence of named texts.
pub open spec fn named_views(v: Seq<Named>) -> Seq<NamedView> {
    Seq::new(v.len(), |i: int| v[i]@)
}

/// The text under `name`, from the first entry that has this name.
pub open spec fn named_value(entries: Seq<NamedView>, name: Seq<char>) -> Option<Seq<char>>
    decreases entries.len(),
{
    if entries.len() == 0 {
        None
    } else if entries[0].name == name {
        Some(entries[0].value)
    } else {
        named_value(entries.skip(1), name)
    }
}

/// When an argument template applies.
#[derive(Clone, Debug, PartialEq)]
pub enum Predicate {
    Always,
    /// On the platform of this name.
    Os(String),
    /// Where the feature of this name is switched on.
    Feature(String),
}

pub enum PredicateView {
    Always,
    Os(Seq<char>),
    Feature(Seq<char>),
}

impl View for Predicate {
    type V = PredicateView;

    open spec fn view(&self) -> PredicateView {
        match self {
            Predicate::Always => PredicateView::Always,
            Predicate::Os(name) => PredicateView::Os(name@),
            Predicate::Feature(name) => PredicateView::Feature(name@),
        }
    }
}

/// One argument template of a descriptor: a literal token, or tokens that
/// apply under a predicate.
#[derive(Clone, Debug, PartialEq)]
pub enum ArgTemplate {
    Literal(String),
    Conditional(Predicate, Vec<String>),
}

pub enum TemplateView {
    Literal(Seq<char>),
    Conditional(PredicateView, Seq<Seq<char>>),
}

impl View for ArgTemplate {
    type V = TemplateView;

    open spec fn view(&self) -> TemplateView {
        match self {
            ArgTemplate::Literal(token) => TemplateView::Literal(token@),
            ArgTemplate::Conditional(when, tokens) => TemplateView::Conditional(
                when@,
                texts(tokens@),
            ),
        }
    }
}

/// The views of a sequence of templates.
pub open spec fn template_views(v: Seq<ArgTemplate>) -> Seq<TemplateView> {
    Seq::new(v.len(), |i: int| v[i]@)
}

/// One library that a version declares.
#[derive(Clone, Debug, PartialEq)]
pub struct LibraryRef {
    /// `group:artifact:version`, with a classifier as an optional fourth part.
    pub coordinate: String,
    /// The one platform the library is for; `None` for all platforms.
    pub os_rule: Option<String>,
    /// Platform name to natives classifier.
    pub natives: Vec<Named>,
    /// The address of the library's jar, where the manifest gives it.
    pub download_url: Option<String>,
    /// The base of the repository that holds the library.
    pub repository: Option<String>,
    /// Classifier to the address of that classifier's archive.
    pub classifier_urls: Vec<Named>,
}

pub struct LibraryView {
    pub coordinate: Seq<char>,
    pub os_rule: Option<Seq<char>>,
    pub natives: Seq<NamedView>,
    pub download_url: Option<Seq<char>>,
    pub repository: Option<Seq<char>>,
    pub classifier_urls: Seq<NamedView>,
}

impl View for LibraryRef {
    type V = LibraryView;

    open spec fn view(&self) -> LibraryView {
        LibraryView {
            coordinate: self.coordinate@,
            os_rule: opt(self.os_rule),
            natives: named_views(self.natives@),
            download_url: opt(self.download_url),
            repository: opt(self.repository),
            classifier_urls: named_views(self.classifier_urls@),
        }
    }
}

impl LibraryView {
    /// A library is well formed where its coordinate has a group, an artifact
    /// and a version.
    pub open spec fn wf(self) -> bool {
        split_on(self.coordinate, ':').len() >= 3
    }
}

/// The views of a sequence of libraries.
pub open spec fn library_views(v: Seq<LibraryRef>) -> Seq<LibraryView> {
    Seq::new(v.len(), |i: int| v[i]@)
}

/// A version descriptor.
#[derive(Clone, Debug, PartialEq)]
pub struct VersionDescriptor {
    pub id: String,
    pub main_class: String,
    /// The id of the descriptor that this one is layered on.
    pub inherits_from: Option<String>,
    pub asset_index_id: Option<String>,
    /// `None` where the manifest has no array of JVM templates at all.
    pub jvm_arguments: Option<Vec<ArgTemplate>>,
    pub game_arguments: Vec<ArgTemplate>,
    pub libraries: Vec<LibraryRef>,
    /// The major Java version that the game asks for; 0 for any.
    pub required_java_major: i64,
    /// The address of the version's own jar.
    pub client_url: Option<String>,
    /// The address of the asset index.
    pub asset_index_url: Option<String>,
}

pub struct DescriptorView {
    pub id: Seq<char>,
    pub main_class: Seq<char>,
    pub inherits_from: Option<Seq<char>>,
    pub asset_index_id: Option<Seq<char>>,
    pub jvm_arguments: Option<Seq<TemplateView>>,
    pub game_arguments: Seq<TemplateView>,
    pub libraries: Seq<LibraryView>,
    pub required_java_major: i64,
    pub client_url: Option<Seq<char>>,
    pub asset_index_url: Option<Seq<char>>,
}

impl View for VersionDescriptor {
    type V = DescriptorView;

    open spec fn view(&self) -> DescriptorView {
        DescriptorView {
            id: self.id@,
            main_class: self.main_class@,
            inherits_from: opt(self.inherits_from),
            asset_index_id: opt(self.asset_index_id),
            jvm_arguments: match self.jvm_arguments {
                Some(templates) => Some(template_views(templates@)),
                None => None,
            },
            game_arguments: template_views(self.game_arguments@),
            libraries: library_views(self.libraries@),
            required_java_major: self.required_java_major,
            client_url: opt(self.client_url),
            asset_index_url: opt(self.asset_index_url),
        }
    }
}

impl DescriptorView {
    /// A descriptor is well formed where each of its libraries is.
    pub open spec fn wf(self) -> bool {
        forall|i: int| 0 <= i < self.libraries.len() ==> (#[trigger] self.libraries[i]).wf()
    }
}

/// Why a descriptor could not be resolved.
#[derive(Clone, Copy, Debug, PartialEq, Eq, Structural)]
pub enum ResolutionError {
    /// The descriptor's file is not on disk.
    NotFound,
    /// The manifest is no JSON, or lacks or misshapes something.
    MalformedManifest,
    /// The descriptor is layered on one that is not on disk.
    MissingBaseDescriptor,
}

/// The text that an entry gives: its value itself, or the `url` of its value.
pub open spec fn entry_text(value: Tree, through_url: bool) -> Option<Seq<char>> {
    if through_url {
        value.member("url"@).text()
    } else {
        value.text()
    }
}

/// An object's entries as named texts: all of them, or nothing where one of
/// them gives no text. Anything but an object has no entries.
pub open spec fn named_of(t: Tree, through_url: bool) -> Option<Seq<NamedView>> {
    match t.entries() {
        Some(entries) => if forall|i: int|
            0 <= i < entries.len() ==> entry_text((#[trigger] entries[i]).value, through_url)
                is Some {
            Some(
                Seq::new(
                    entries.len(),
                    |i: int|
                        NamedView {
                            name: entries[i].key,
                            value: entry_text(entries[i].value, through_url)->0,
                        },
                ),
            )
        } else {
            None
        },
        None => Some(Seq::empty()),
    }
}

/// The platform that a library's first rule names: `Some(None)` where it
/// names none, nothing where the name is no string.
pub open spec fn rule_of(t: Tree) -> Option<Option<Seq<char>>> {
    match t.member("rules"@).item(0).member("os"@).member("name"@) {
        Tree::Null => Some(None),
        Tree::Text(name) => Some(Some(name)),
        _ => None,
    }
}

/// The library that a manifest entry declares, where it is well shaped.
pub open spec fn library_of(t: Tree) -> Option<LibraryView> {
    match (
        t.member("name"@).text(),
        rule_of(t),
        named_of(t.member("natives"@), false),
        named_of(t.member("downloads"@).member("classifiers"@), true),
    ) {
        (Some(coordinate), Some(os_rule), Some(natives), Some(classifier_urls)) => if split_on(
            coordinate,
            ':',
        ).len() >= 3 {
            Some(
                LibraryView {
                    coordinate,
                    os_rule,
                    natives,
                    download_url: t.member("downloads"@).member("artifacts"@).member("url"@).text(),
                    repository: t.member("url"@).text(),
                    classifier_urls,
                },
            )
        } else {
            None
        },
        _ => None,
    }
}

/// The libraries that a manifest's array declares: all of them, or nothing.
pub open spec fn libraries_of(items: Seq<Tree>) -> Option<Seq<LibraryView>> {
    if forall|i: int| 0 <= i < items.len() ==> library_of(#[trigger] items[i]) is Some {
        Some(Seq::new(items.len(), |i: int| library_of(items[i])->0))
    } else {
        None
    }
}

/// The predicate that a rule states: a platform's name where it has one, else
/// its first feature, else none.
pub open spec fn predicate_of(rule: Tree) -> PredicateView {
    match rule.member("os"@).member("name"@).text() {
        Some(name) => PredicateView::Os(name),
        None => match rule.member("features"@).entries() {
            Some(features) => if features.len() > 0 {
                PredicateView::Feature(features[0].key)
            } else {
                PredicateView::Always
            },
            None => PredicateView::Always,
        },
    }
}

/// The texts of an array of strings: all of them, or nothing.
pub open spec fn all_texts(items: Seq<Tree>) -> Option<Seq<Seq<char>>> {
    if forall|i: int| 0 <= i < items.len() ==> (#[trigger] items[i]).text() is Some {
        Some(Seq::new(items.len(), |i: int| items[i].text()->0))
    } else {
        None
    }
}

/// The tokens of a conditional template's value: one string, or an array of
/// strings.
pub open spec fn tokens_of(value: Tree) -> Option<Seq<Seq<char>>> {
    match value {
        Tree::Text(token) => Some(seq![token]),
        Tree::Array(items) => all_texts(items),
        _ => None,
    }
}

/// The template that an entry of an argument array states.
pub open spec fn template_of(t: Tree) -> Option<TemplateView> {
    match t {
        Tree::Text(token) => Some(TemplateView::Literal(token)),
        Tree::Object(_) => match tokens_of(t.member("value"@)) {
            Some(tokens) => Some(
                TemplateView::Conditional(predicate_of(t.member("rules"@).item(0)), tokens),
            ),
            None => None,
        },
        _ => None,
    }
}

/// The templates of an argument array: all of them, or nothing.
pub open spec fn templates_of(items: Seq<Tree>) -> Option<Seq<TemplateView>> {
    if forall|i: int| 0 <= i < items.len() ==> template_of(#[trigger] items[i]) is Some {
        Some(Seq::new(items.len(), |i: int| template_of(items[i])->0))
    } else {
        None
    }
}

/// Tokens as literal templates.
pub open spec fn literals(tokens: Seq<Seq<char>>) -> Seq<TemplateView> {
    Seq::new(tokens.len(), |i: int| TemplateView::Literal(tokens[i]))
}

/// The libraries of a manifest: none where it has no array of them.
pub open spec fn manifest_libraries(t: Tree) -> Option<Seq<LibraryView>> {
    match t.member("libraries"@).items() {
        Some(items) => libraries_of(items),
        None => Some(Seq::empty()),
    }
}

/// The JVM templates of a manifest: `Some(None)` where it has no array of
/// them.
pub open spec fn manifest_jvm(t: Tree) -> Option<Option<Seq<TemplateView>>> {
    match t.member("arguments"@).member("jvm"@).items() {
        Some(items) => match templates_of(items) {
            Some(templates) => Some(Some(templates)),
            None => None,
        },
        None => Some(None),
    }
}

/// The game templates of a manifest: its array of them, or else the words of
/// the single line that older manifests have, or else none.
pub open spec fn manifest_game(t: Tree) -> Option<Seq<TemplateView>> {
    match t.member("arguments"@).member("game"@).items() {
        Some(items) => templates_of(items),
        None => match t.member("minecraftArguments"@).text() {
            Some(line) => Some(literals(words(line))),
            None => Some(Seq::empty()),
        },
    }
}

/// The major Java version that a manifest asks for; 0 where it asks for none.
pub open spec fn manifest_java(t: Tree) -> i64 {
    match t.member("javaVersion"@).member("majorVersion"@).integer() {
        Some(major) => major,
        None => 0,
    }
}

/// The descriptor that a manifest states for the version `id`, where the
/// manifest is well shaped.
pub open spec fn descriptor_of(id: Seq<char>, t: Tree) -> Option<DescriptorView> {
    match (t.member("mainClass"@).text(), manifest_libraries(t), manifest_jvm(t), manifest_game(t)) {
        (Some(main_class), Some(libraries), Some(jvm_arguments), Some(game_arguments)) => Some(
            DescriptorView {
                id,
                main_class,
                inherits_from: t.member("inheritsFrom"@).text(),
                asset_index_id: t.member("assets"@).text(),
                jvm_arguments,
                game_arguments,
                libraries,
                required_java_major: manifest_java(t),
                client_url: t.member("downloads"@).member("client"@).member("url"@).text(),
                asset_index_url: t.member("assetIndex"@).member("url"@).text(),
            },
        ),
        _ => None,
    }
}

/// A copy of the text that a step found, where it found one.
pub fn owned_text(found: Option<&Json>) -> (r: Option<String>)
    ensures
        opt(r) == seen(found).text(),
{
    match text_of(found) {
        Some(s) => Some(s.clone()),
        None => None,
    }
}

/// Reads an object's entries as named texts.
pub fn named_from(found: Option<&Json>, through_url: bool) -> (r: Option<Vec<Named>>)
    ensures
        match r {
            Some(named) => named_of(seen(found), through_url) == Some(named_views(named@)),
            None => named_of(seen(found), through_url) is None,
        },
{
    let mut out: Vec<Named> = Vec::new();
    let members = match found {
        Some(json) => json.members(),
        None => None,
    };
    match members {
        Some(members) => {
            let ghost entries = entries_of(members@);
            proof {
                lemma_entries(members@);
            }
            let mut i: usize = 0;
            while i < members.len()
                invariant
                    i <= members.len(),
                    out@.len() == i,
                    entries == entries_of(members@),
                    entries.len() == members@.len(),
                    seen(found).entries() == Some(entries),
                    forall|k: int|
                        0 <= k < i ==> entry_text((#[trigger] entries[k]).value, through_url)
                            == Some(out@[k].value@) && out@[k].name@ == entries[k].key,
                decreases members.len() - i,
            {
                proof {
                    lemma_entries(members@);
                }
                let value = if through_url {
                    owned_text(members[i].value.member("url"))
                } else {
                    owned_text(Some(&members[i].value))
                };
                match value {
                    Some(value) => {
                        out.push(Named { name: members[i].key.clone(), value });
                    },
                    None => {
                        assert(entry_text(entries[i as int].value, through_url) is None);
                        return None;
                    },
                }
                i += 1;
            }
            Some(out)
        },
        None => {
            Some(out)
        },
    }
}

impl LibraryRef {
    /// Reads a library from its entry in a manifest.
    pub fn from_json(json: &Json) -> (r: Option<LibraryRef>)
        ensures
            match r {
                Some(library) => library_of(json@) == Some(library@) && library@.wf(),
                None => library_of(json@) is None,
            },
    {
        let coordinate = match owned_text(json.member("name")) {
            Some(coordinate) => coordinate,
            None => {
                return None;
            },
        };
        let name = member_of(member_of(item_of(json.member("rules"), 0), "os"), "name");
        let os_rule = match name {
            None => None,
            Some(Json::Null) => None,
            Some(Json::Text(name)) => Some(name.clone()),
            Some(_) => {
                return None;
            },
        };
        let natives = match named_from(json.member("natives"), false) {
            Some(natives) => natives,
            None => {
                return None;
            },
        };
        let classifier_urls = match named_from(
            member_of(json.member("downloads"), "classifiers"),
            true,
        ) {
            Some(urls) => urls,
            None => {
                return None;
            },
        };
        let pieces = split(coordinate.as_str(), ':');
        if pieces.len() < 3 {
            return None;
        }
        let download_url = owned_text(
            member_of(member_of(json.member("downloads"), "artifacts"), "url"),
        );
        let repository = owned_text(json.member("url"));
        Some(LibraryRef { coordinate, os_rule, natives, download_url, repository, classifier_urls })
    }
}

/// Reads the libraries of a manifest's array.
pub fn libraries_from(items: &Vec<Json>) -> (r: Option<Vec<LibraryRef>>)
    ensures
        match r {
            Some(libraries) => libraries_of(trees(items@)) == Some(library_views(libraries@)),
            None => libraries_of(trees(items@)) is None,
        },
{
    let mut out: Vec<LibraryRef> = Vec::new();
    let mut i: usize = 0;
    proof {
        lemma_trees(items@);
    }
    while i < items.len()
        invariant
            i <= items.len(),
            out@.len() == i,
            trees(items@).len() == items@.len(),
            forall|k: int| 0 <= k < i ==> library_of(#[trigger] trees(items@)[k]) == Some(out@[k]@),
        decreases items.len() - i,
    {
        proof {
            lemma_trees(items@);
        }
        match LibraryRef::from_json(&items[i]) {
            Some(library) => {
                out.push(library);
            },
            None => {
                assert(library_of(trees(items@)[i as int]) is None);
                return None;
            },
        }
        i += 1;
    }
    Some(out)
}

/// Reads the predicate of a rule.
pub fn predicate_from(rule: Option<&Json>) -> (r: Predicate)
    ensures
        r@ == predicate_of(seen(rule)),
{
    match owned_text(member_of(member_of(rule, "os"), "name")) {
        Some(name) => Predicate::Os(name),
        None => {
            let features = match member_of(rule, "features") {
                Some(json) => json.members(),
                None => None,
            };
            match features {
                Some(features) => {
                    proof {
                        lemma_entries(features@);
                    }
                    if features.len() > 0 {
                        Predicate::Feature(features[0].key.clone())
                    } else {
                        Predicate::Always
                    }
                },
                None => Predicate::Always,
            }
        },
    }
}

/// Reads the tokens of a conditional template's value.
pub fn tokens_from(value: Option<&Json>) -> (r: Option<Vec<String>>)
    ensures
        match r {
            Some(tokens) => tokens_of(seen(value)) == Some(texts(tokens@)),
            None => tokens_of(seen(value)) is None,
        },
{
    let mut out: Vec<String> = Vec::new();
    match value {
        Some(Json::Text(token)) => {
            out.push(token.clone());
            Some(out)
        },
        Some(Json::Array(items)) => {
            proof {
                lemma_trees(items@);
            }
            let mut i: usize = 0;
            while i < items.len()
                invariant
                    i <= items.len(),
                    out@.len() == i,
                    seen(value) == Tree::Array(trees(items@)),
                    trees(items@).len() == items@.len(),
                    forall|k: int|
                        0 <= k < i ==> (#[trigger] trees(items@)[k]).text() == Some(out@[k]@),
                decreases items.len() - i,
            {
                proof {
                    lemma_trees(items@);
                }
                match items[i].text() {
                    Some(token) => {
                        out.push(token.clone());
                    },
                    None => {
                        assert(trees(items@)[i as int].text() is None);
                        return None;
                    },
                }
                i += 1;
            }
            Some(out)
        },
        _ => None,
    }
}

impl ArgTemplate {
    /// Reads a template from its entry in an argument array.
    pub fn from_json(json: &Json) -> (r: Option<ArgTemplate>)
        ensures
            match r {
                Some(template) => template_of(json@) == Some(template@),
                None => template_of(json@) is None,
            },
    {
        match json {
            Json::Text(token) => Some(ArgTemplate::Literal(token.clone())),
            Json::Object(_) => match tokens_from(json.member("value")) {
                Some(tokens) => Some(
                    ArgTemplate::Conditional(
                        predicate_from(item_of(json.member("rules"), 0)),
                        tokens,
                    ),
                ),
                None => None,
            },
            _ => None,
        }
    }
}

/// Reads the templates of an argument array.
pub fn templates_from(items: &Vec<Json>) -> (r: Option<Vec<ArgTemplate>>)
    ensures
        match r {
            Some(templates) => templates_of(trees(items@)) == Some(template_views(templates@)),
            None => templates_of(trees(items@)) is None,
        },
{
    let mut out: Vec<ArgTemplate> = Vec::new();
    let mut i: usize = 0;
    proof {
        lemma_trees(items@);
    }
    while i < items.len()
        invariant
            i <= items.len(),
            out@.len() == i,
            trees(items@).len() == items@.len(),
            forall|k: int|
                0 <= k < i ==> template_of(#[trigger] trees(items@)[k]) == Some(out@[k]@),
        decreases items.len() - i,
    {
        proof {
            lemma_trees(items@);
        }
        match ArgTemplate::from_json(&items[i]) {
            Some(template) => {
                out.push(template);
            },
            None => {
                assert(template_of(trees(items@)[i as int]) is None);
                return None;
            },
        }
        i += 1;
    }
    Some(out)
}

/// Tokens as literal templates.
pub fn literals_from(tokens: Vec<String>) -> (r: Vec<ArgTemplate>)
    ensures
        template_views(r@) == literals(texts(tokens@)),
{
    let mut out: Vec<ArgTemplate> = Vec::new();
    let mut i: usize = 0;
    while i < tokens.len()
        invariant
            i <= tokens.len(),
            out@.len() == i,
            forall|k: int| 0 <= k < i ==> (#[trigger] out@[k])@ == TemplateView::Literal(tokens@[k]@),
        decreases tokens.len() - i,
    {
        out.push(ArgTemplate::Literal(tokens[i].clone()));
        i += 1;
    }
    out
}

impl VersionDescriptor {
    /// Reads the descriptor of the version `id` from its manifest.
    pub fn from_json(id: &str, json: &Json) -> (r: Result<VersionDescriptor, ResolutionError>)
        ensures
            match r {
                Ok(descriptor) => descriptor_of(id@, json@) == Some(descriptor@)
                    && descriptor@.wf(),
                Err(error) => descriptor_of(id@, json@) is None
                    && error == ResolutionError::MalformedManifest,
            },
    {
        let main_class = match owned_text(json.member("mainClass")) {
            Some(main_class) => main_class,
            None => {
                return Err(ResolutionError::MalformedManifest);
            },
        };
        let library_items = match json.member("libraries") {
            Some(found) => found.items(),
            None => None,
        };
        let libraries = match library_items {
            Some(items) => match libraries_from(items) {
                Some(libraries) => libraries,
                None => {
                    return Err(ResolutionError::MalformedManifest);
                },
            },
            None => Vec::new(),
        };
        proof {
            if library_items is None {
                assert(library_views(libraries@) =~= Seq::<LibraryView>::empty());
            }
        }
        let arguments = json.member("arguments");
        let jvm_items = match member_of(arguments, "jvm") {
            Some(found) => found.items(),
            None => None,
        };
        let jvm_arguments = match jvm_items {
            Some(items) => match templates_from(items) {
                Some(templates) => Some(templates),
                None => {
                    return Err(ResolutionError::MalformedManifest);
                },
            },
            None => None,
        };
        let game_items = match member_of(arguments, "game") {
            Some(found) => found.items(),
            None => None,
        };
        let game_arguments = match game_items {
            Some(items) => match templates_from(items) {
                Some(templates) => templates,
                None => {
                    return Err(ResolutionError::MalformedManifest);
                },
            },
            None => match text_of(json.member("minecraftArguments")) {
                Some(line) => literals_from(split_whitespace(line.as_str())),
                None => {
                    let none: Vec<ArgTemplate> = Vec::new();
                    proof {
                        assert(template_views(none@) =~= Seq::<TemplateView>::empty());
                    }
                    none
                },
            },
        };
        let required_java_major = match member_of(json.member("javaVersion"), "majorVersion") {
            Some(found) => match found.integer() {
                Some(major) => major,
                None => 0,
            },
            None => 0,
        };
        let descriptor = VersionDescriptor {
            id: id.to_owned(),
            main_class,
            inherits_from: owned_text(json.member("inheritsFrom")),
            asset_index_id: owned_text(json.member("assets")),
            jvm_arguments,
            game_arguments,
            libraries,
            required_java_major,
            client_url: owned_text(member_of(member_of(json.member("downloads"), "client"), "url")),
            asset_index_url: owned_text(member_of(json.member("assetIndex"), "url")),
        };
        proof {
            assert forall|i: int| 0 <= i < descriptor@.libraries.len() implies (
            #[trigger] descriptor@.libraries[i]).wf() by {
                assert(library_of(json@.member("libraries"@).items()->0[i]) == Some(
                    descriptor@.libraries[i],
                ));
            }
        }
        Ok(descriptor)
    }
}

/// The descriptor that a manifest's text states for the version `id`: nothing
/// where the text is no JSON or the manifest is not well shaped.
pub open spec fn descriptor_of_text(id: Seq<char>, text: Seq<char>) -> Option<DescriptorView> {
    match text_tree(text) {
        Some(tree) => descriptor_of(id, tree),
        None => None,
    }
}

impl VersionDescriptor {
    /// Reads the descriptor of the version `id` from the text of its manifest.
    pub fn parse(id: &str, text: &str) -> (r: Result<VersionDescriptor, ResolutionError>)
        ensures
            match r {
                Ok(descriptor) => descriptor_of_text(id@, text@) == Some(descriptor@)
                    && descriptor@.wf(),
                Err(error) => descriptor_of_text(id@, text@) is None
                    && error == ResolutionError::MalformedManifest,
            },
    {
        match Json::parse(text) {
            Ok(json) => VersionDescriptor::from_json(id, &json),
            Err(_) => Err(ResolutionError::MalformedManifest),
        }
    }
}

/// Looks a name up among named texts.
pub fn find_named<'a>(entries: &'a Vec<Named>, name: &str) -> (r: Option<&'a String>)
    ensures
        match r {
            Some(value) => named_value(named_views(entries@), name@) == Some(value@),
            None => named_value(named_views(entries@), name@) is None,
        },
{
    let mut i: usize = 0;
    proof {
        assert(named_views(entries@).skip(0) =~= named_views(entries@));
    }
    while i < entries.len()
        invariant
            i <= entries.len(),
            named_value(named_views(entries@), name@) == named_value(
                named_views(entries@).skip(i as int),
                name@,
            ),
        decreases entries.len() - i,
    {
        let ghost rest = named_views(entries@).skip(i as int);
        proof {
            assert(rest.skip(1) =~= named_views(entries@).skip(i + 1));
        }
        if same(entries[i].name.as_str(), name) {
            return Some(&entries[i].value);
        }
        i += 1;
    }
    None
}

impl LibraryRef {
    /// Whether the coordinate has a group, an artifact and a version.
    pub fn is_wf(&self) -> (r: bool)
        ensures
            r == self@.wf(),
    {
        let pieces = split(self.coordinate.as_str(), ':');
        pieces.len() >= 3
    }
}

} // verus!

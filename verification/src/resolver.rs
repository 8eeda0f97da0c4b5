//! Inheritance: how a descriptor that is layered on a base descriptor and
//! that base become one effective descriptor.
use vstd::prelude::*;
use crate::manifest::{
    descriptor_of_text, library_views, opt, template_views, ArgTemplate, DescriptorView, LibraryRef,
    LibraryView, ResolutionError, TemplateView, VersionDescriptor,
};

verus! {

/// What a launch goes by: a descriptor with its base, if it has one, merged
/// into it.
#[derive(Clone, Debug, PartialEq)]
pub struct EffectiveDescriptor {
    pub id: String,
    pub main_class: String,
    pub asset_index_id: String,
    /// The descriptor's own libraries, then the base's.
    pub libraries: Vec<LibraryRef>,
    /// The descriptor's own JVM templates.
    pub jvm_arguments: Option<Vec<ArgTemplate>>,
    /// The base's JVM templates, where there is a base.
    pub base_jvm_arguments: Option<Option<Vec<ArgTemplate>>>,
    /// The descriptor's own game templates, then the base's.
    pub game_arguments: Vec<ArgTemplate>,
    pub required_java_major: i64,
    pub client_url: Option<String>,
    pub asset_index_url: Option<String>,
}

pub struct EffectiveView {
    pub id: Seq<char>,
    pub main_class: Seq<char>,
    pub asset_index_id: Seq<char>,
    pub libraries: Seq<LibraryView>,
    pub jvm_arguments: Option<Seq<TemplateView>>,
    pub base_jvm_arguments: Option<Option<Seq<TemplateView>>>,
    pub game_arguments: Seq<TemplateView>,
    pub required_java_major: i64,
    pub client_url: Option<Seq<char>>,
    pub asset_index_url: Option<Seq<char>>,
}

/// The views of an optional list of templates.
pub open spec fn opt_templates(v: Option<Vec<ArgTemplate>>) -> Option<Seq<TemplateView>> {
    match v {
        Some(v) => Some(template_views(v@)),
        None => None,
    }
}

impl View for EffectiveDescriptor {
    type V = EffectiveView;

    open spec fn view(&self) -> EffectiveView {
        EffectiveView {
            id: self.id@,
            main_class: self.main_class@,
            asset_index_id: self.asset_index_id@,
            libraries: library_views(self.libraries@),
            jvm_arguments: opt_templates(self.jvm_arguments),
            base_jvm_arguments: match self.base_jvm_arguments {
                Some(base) => Some(opt_templates(base)),
                None => None,
            },
            game_arguments: template_views(self.game_arguments@),
            required_java_major: self.required_java_major,
            client_url: opt(self.client_url),
            asset_index_url: opt(self.asset_index_url),
        }
    }
}

impl EffectiveView {
    /// An effective descriptor is well formed where each of its libraries is.
    pub open spec fn wf(self) -> bool {
        forall|i: int| 0 <= i < self.libraries.len() ==> (#[trigger] self.libraries[i]).wf()
    }
}

/// The view of an optional descriptor.
pub open spec fn opt_descriptor(v: Option<VersionDescriptor>) -> Option<DescriptorView> {
    match v {
        Some(v) => Some(v@),
        None => None,
    }
}

/// The effective descriptor of a descriptor and the base that was found for
/// it. One that is layered on nothing stands for itself, with an empty asset
/// index id where it names none. One that is layered on a base needs that
/// base, and the base's asset index id; it takes its asset index, its Java
/// version and the address of its jar from the base, and puts the base's
/// libraries and game templates behind its own.
pub open spec fn merged(descriptor: DescriptorView, base: Option<DescriptorView>) -> Result<
    EffectiveView,
    ResolutionError,
> {
    match descriptor.inherits_from {
        None => Ok(
            EffectiveView {
                id: descriptor.id,
                main_class: descriptor.main_class,
                asset_index_id: match descriptor.asset_index_id {
                    Some(id) => id,
                    None => Seq::empty(),
                },
                libraries: descriptor.libraries,
                jvm_arguments: descriptor.jvm_arguments,
                base_jvm_arguments: None,
                game_arguments: descriptor.game_arguments,
                required_java_major: descriptor.required_java_major,
                client_url: descriptor.client_url,
                asset_index_url: descriptor.asset_index_url,
            },
        ),
        Some(_) => match base {
            None => Err(ResolutionError::MissingBaseDescriptor),
            Some(base) => match base.asset_index_id {
                None => Err(ResolutionError::MalformedManifest),
                Some(asset_index_id) => Ok(
                    EffectiveView {
                        id: descriptor.id,
                        main_class: descriptor.main_class,
                        asset_index_id,
                        libraries: descriptor.libraries + base.libraries,
                        jvm_arguments: descriptor.jvm_arguments,
                        base_jvm_arguments: Some(base.jvm_arguments),
                        game_arguments: descriptor.game_arguments + base.game_arguments,
                        required_java_major: base.required_java_major,
                        client_url: base.client_url,
                        asset_index_url: base.asset_index_url,
                    },
                ),
            },
        },
    }
}

/// Merges a descriptor with the base that was found for it.
pub fn resolve(descriptor: VersionDescriptor, base: Option<VersionDescriptor>) -> (r: Result<
    EffectiveDescriptor,
    ResolutionError,
>)
    requires
        descriptor@.wf(),
        base matches Some(base) ==> base@.wf(),
    ensures
        match r {
            Ok(effective) => merged(descriptor@, opt_descriptor(base)) == Ok::<
                EffectiveView,
                ResolutionError,
            >(effective@) && effective@.wf(),
            Err(error) => merged(descriptor@, opt_descriptor(base)) == Err::<
                EffectiveView,
                ResolutionError,
            >(error),
        },
{
    let ghost own = descriptor@;
    if descriptor.inherits_from.is_none() {
        let asset_index_id = match descriptor.asset_index_id {
            Some(id) => id,
            None => String::new(),
        };
        return Ok(
            EffectiveDescriptor {
                id: descriptor.id,
                main_class: descriptor.main_class,
                asset_index_id,
                libraries: descriptor.libraries,
                jvm_arguments: descriptor.jvm_arguments,
                base_jvm_arguments: None,
                game_arguments: descriptor.game_arguments,
                required_java_major: descriptor.required_java_major,
                client_url: descriptor.client_url,
                asset_index_url: descriptor.asset_index_url,
            },
        );
    }
    let base = match base {
        Some(base) => base,
        None => {
            return Err(ResolutionError::MissingBaseDescriptor);
        },
    };
    let ghost below = base@;
    let asset_index_id = match base.asset_index_id {
        Some(id) => id,
        None => {
            return Err(ResolutionError::MalformedManifest);
        },
    };
    let mut libraries = descriptor.libraries;
    let mut base_libraries = base.libraries;
    libraries.append(&mut base_libraries);
    let mut game_arguments = descriptor.game_arguments;
    let mut base_game_arguments = base.game_arguments;
    game_arguments.append(&mut base_game_arguments);
    let effective = EffectiveDescriptor {
        id: descriptor.id,
        main_class: descriptor.main_class,
        asset_index_id,
        libraries,
        jvm_arguments: descriptor.jvm_arguments,
        base_jvm_arguments: Some(base.jvm_arguments),
        game_arguments,
        required_java_major: base.required_java_major,
        client_url: base.client_url,
        asset_index_url: base.asset_index_url,
    };
    proof {
        assert(effective@.libraries =~= own.libraries + below.libraries);
        assert(effective@.game_arguments =~= own.game_arguments + below.game_arguments);
        assert forall|i: int| 0 <= i < effective@.libraries.len() implies (
        #[trigger] effective@.libraries[i]).wf() by {}
    }
    Ok(effective)
}

/// The base that a manifest's text names, where the text states a descriptor
/// that is layered on one.
pub open spec fn base_of_text(id: Seq<char>, text: Seq<char>) -> Option<Seq<char>> {
    match descriptor_of_text(id, text) {
        Some(descriptor) => descriptor.inherits_from,
        None => None,
    }
}

/// Reads from a manifest's text which base the version `id` is layered on.
pub fn base_id(id: &str, text: &str) -> (r: Option<String>)
    ensures
        opt(r) == base_of_text(id@, text@),
{
    match VersionDescriptor::parse(id, text) {
        Ok(descriptor) => descriptor.inherits_from,
        Err(_) => None,
    }
}

/// The effective descriptor of a version, from what was found on disk: the
/// text of its own manifest, and the text of the manifest that it names as
/// its base. A version without a manifest is not found; a text that states no
/// descriptor is malformed; a base that is named and absent is missing.
pub open spec fn resolved(id: Seq<char>, text: Option<Seq<char>>, base_text: Option<Seq<char>>) -> Result<
    EffectiveView,
    ResolutionError,
> {
    match text {
        None => Err(ResolutionError::NotFound),
        Some(text) => match descriptor_of_text(id, text) {
            None => Err(ResolutionError::MalformedManifest),
            Some(descriptor) => match descriptor.inherits_from {
                None => merged(descriptor, None),
                Some(base_id) => match base_text {
                    None => Err(ResolutionError::MissingBaseDescriptor),
                    Some(base_text) => match descriptor_of_text(base_id, base_text) {
                        None => Err(ResolutionError::MalformedManifest),
                        Some(base) => merged(descriptor, Some(base)),
                    },
                },
            },
        },
    }
}

/// The text of an optional string slice.
pub open spec fn opt_str(s: Option<&str>) -> Option<Seq<char>> {
    match s {
        Some(s) => Some(s@),
        None => None,
    }
}

/// Resolves the version `id` from the texts of its manifest and of its
/// base's manifest, each `None` where the file is not on disk.
pub fn resolve_texts(id: &str, text: Option<&str>, base_text: Option<&str>) -> (r: Result<
    EffectiveDescriptor,
    ResolutionError,
>)
    ensures
        match r {
            Ok(effective) => resolved(id@, opt_str(text), opt_str(base_text)) == Ok::<
                EffectiveView,
                ResolutionError,
            >(effective@) && effective@.wf(),
            Err(error) => resolved(id@, opt_str(text), opt_str(base_text)) == Err::<
                EffectiveView,
                ResolutionError,
            >(error),
        },
{
    let text = match text {
        Some(text) => text,
        None => {
            return Err(ResolutionError::NotFound);
        },
    };
    let descriptor = match VersionDescriptor::parse(id, text) {
        Ok(descriptor) => descriptor,
        Err(error) => {
            return Err(error);
        },
    };
    let base_id = match &descriptor.inherits_from {
        Some(base_id) => base_id.clone(),
        None => {
            return resolve(descriptor, None);
        },
    };
    let base_text = match base_text {
        Some(base_text) => base_text,
        None => {
            return Err(ResolutionError::MissingBaseDescriptor);
        },
    };
    let base = match VersionDescriptor::parse(base_id.as_str(), base_text) {
        Ok(base) => base,
        Err(error) => {
            return Err(error);
        },
    };
    resolve(descriptor, Some(base))
}

/// A descriptor that is layered on a base has the asset index that the base
/// has by itself, and holds each library of the two once: its own first, in
/// their order, then the base's in theirs.
pub proof fn lemma_derived_takes_from_base(descriptor: DescriptorView, base: DescriptorView)
    requires
        descriptor.inherits_from is Some,
        merged(descriptor, Some(base)) is Ok,
        merged(base, None) is Ok,
    ensures
        merged(descriptor, Some(base))->Ok_0.asset_index_id == merged(base, None)->Ok_0.asset_index_id,
        merged(descriptor, Some(base))->Ok_0.libraries == descriptor.libraries + base.libraries,
        merged(descriptor, Some(base))->Ok_0.libraries.len() == descriptor.libraries.len()
            + base.libraries.len(),
        forall|i: int|
            0 <= i < descriptor.libraries.len() ==> merged(
                descriptor,
                Some(base),
            )->Ok_0.libraries[i] == descriptor.libraries[i],
        forall|i: int|
            0 <= i < base.libraries.len() ==> merged(
                descriptor,
                Some(base),
            )->Ok_0.libraries[descriptor.libraries.len() + i] == base.libraries[i],
{
}

} // verus!

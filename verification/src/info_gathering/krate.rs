//! The dependencies a target was linked with, as far as the target tells:
//! their names and versions, the features they may have been built with, and
//! what the registry adds to that.

use vstd::prelude::*;
use vstd::string::StringExecFns;
use vstd::utf8::encode_utf8;

use crate::info_gathering::paths::{
    are_components, byte_views, find_references, is_clean, is_component, is_component_byte,
    reference_views, references, PathReference, PathReferenceView,
};
use crate::info_gathering::version::{
    package_of, parse_package, parse_version, version_of, version_text, Package, PackageView,
    Version,
};
use crate::utils::text::{
    ascii_chars, ascii_string, bytes_eq, clone_strings, contains_text, is_ascii_bytes, texts,
};

verus! {

/// What the registry tells of one version of a package.
#[derive(Clone, Debug, PartialEq, Eq)]
pub struct VersionMetadata {
    /// The version, as text.
    pub num: String,
    /// The names of the features the version declares.
    pub features: Vec<String>,
    /// The path, on the registry's host, that the source archive is
    /// downloaded from.
    pub dl_path: String,
}

/// What the registry tells of a package.
#[derive(Clone, Debug, PartialEq, Eq)]
pub struct CrateMetadata {
    /// The versions of the package, in the order the registry lists them.
    pub versions: Vec<VersionMetadata>,
}

/// The failures that can hit one dependency.
#[derive(Clone, Copy, Debug, PartialEq, Eq, Structural)]
pub enum KrateError {
    /// The downloaded bytes could not be read.
    CursorError,
    /// The download failed.
    DownloadError,
    /// A file or directory could not be created.
    FileCreationError,
    /// The registry returned no metadata.
    NoMetadataError,
    /// The registry does not know the version.
    NonExistantVersion,
}

/// A dependency of the target.
#[derive(Clone, Debug, PartialEq, Eq)]
pub struct Krate {
    /// The name of the package.
    pub name: String,
    /// The version of the package.
    pub version: Version,
    download_url: String,
    features: Vec<String>,
    is_accurate: bool,
    metadata: Option<CrateMetadata>,
}

/// What a `Krate` stands for in contracts.
pub struct KrateView {
    pub name: Seq<char>,
    pub version: Version,
    pub download_url: Seq<char>,
    pub features: Seq<Seq<char>>,
    pub is_accurate: bool,
    pub metadata: Option<CrateMetadata>,
}

impl View for Krate {
    type V = KrateView;

    closed spec fn view(&self) -> KrateView {
        KrateView {
            name: self.name@,
            version: self.version,
            download_url: self.download_url@,
            features: texts(self.features@),
            is_accurate: self.is_accurate,
            metadata: self.metadata,
        }
    }
}

/// The views of a list of dependencies, in order.
pub open spec fn krate_views(krates: Seq<Krate>) -> Seq<KrateView> {
    krates.map_values(|krate: Krate| krate@)
}

/// The host of the registry.
pub open spec fn registry_host() -> Seq<char> {
    "https://crates.io"@
}

/// The position of the first version, at or after `from`, that the registry
/// lists under the text `wanted`.
pub open spec fn version_position(versions: Seq<VersionMetadata>, wanted: Seq<char>, from: int)
    -> Option<int>
    decreases versions.len() - from,
{
    if from < 0 || from >= versions.len() {
        None
    } else if versions[from].num@ == wanted {
        Some(from)
    } else {
        version_position(versions, wanted, from + 1)
    }
}

/// What `version_position` finds lies in the list.
pub proof fn lemma_version_position(versions: Seq<VersionMetadata>, wanted: Seq<char>, from: int)
    requires
        0 <= from,
    ensures
        version_position(versions, wanted, from) matches Some(index) ==> from <= index
            < versions.len() && versions[index].num@ == wanted,
    decreases versions.len() - from,
{
    if from < versions.len() && versions[from].num@ != wanted {
        lemma_version_position(versions, wanted, from + 1);
    }
}

/// The candidates that a version declares: the declared names, in the order
/// of their declaration and each once, that are among the candidates.
pub open spec fn narrowed(declared: Seq<Seq<char>>, candidates: Seq<Seq<char>>) -> Seq<Seq<char>>
    decreases declared.len(),
{
    if declared.len() == 0 {
        Seq::empty()
    } else {
        let rest = narrowed(declared.drop_last(), candidates);
        let name = declared.last();
        if candidates.contains(name) && !rest.contains(name) {
            rest.push(name)
        } else {
            rest
        }
    }
}

/// The narrowed list holds a name exactly where both the declared names and
/// the candidates hold it, and holds no name twice.
pub proof fn lemma_narrowed_is_intersection(declared: Seq<Seq<char>>, candidates: Seq<Seq<char>>)
    ensures
        forall|name: Seq<char>| #[trigger]
            narrowed(declared, candidates).contains(name) <==> declared.contains(name)
                && candidates.contains(name),
        narrowed(declared, candidates).no_duplicates(),
    decreases declared.len(),
{
    let result = narrowed(declared, candidates);
    if declared.len() > 0 {
        let head = declared.drop_last();
        let rest = narrowed(head, candidates);
        let last = declared.last();
        lemma_narrowed_is_intersection(head, candidates);
        assert forall|name: Seq<char>| #[trigger]
            result.contains(name) <==> declared.contains(name) && candidates.contains(
                name,
            ) by {
            if declared.contains(name) {
                let i = choose|i: int| 0 <= i < declared.len() && declared[i] == name;
                if i < head.len() {
                    assert(head[i] == name);
                    assert(head.contains(name));
                }
            }
            if head.contains(name) {
                let i = choose|i: int| 0 <= i < head.len() && head[i] == name;
                assert(declared[i] == name);
            }
            if rest.contains(name) {
                let i = choose|i: int| 0 <= i < rest.len() && rest[i] == name;
                if result.len() > rest.len() {
                    assert(result[i] == name);
                }
            }
            if result.contains(name) {
                let i = choose|i: int| 0 <= i < result.len() && result[i] == name;
                if i < rest.len() {
                    assert(rest[i] == name);
                } else {
                    assert(name == last);
                    assert(declared[declared.len() - 1] == name);
                }
            }
            if name == last && candidates.contains(name) && !rest.contains(name) {
                assert(result[result.len() - 1] == name);
            }
        }
        assert forall|i: int, j: int| 0 <= i < result.len() && 0 <= j < result.len() && i
            != j implies result[i] != result[j] by {
            if i < rest.len() && j < rest.len() {
            } else if i < rest.len() {
                assert(rest[i] == result[i]);
                assert(rest.contains(result[i]));
            } else if j < rest.len() {
                assert(rest[j] == result[j]);
                assert(rest.contains(result[j]));
            }
        }
    } else {
        assert forall|name: Seq<char>| !declared.contains(name) by {}
    }
}

/// Narrows candidate features to the names a version declares.
pub fn narrow_features(declared: &Vec<String>, candidates: &Vec<String>) -> (kept: Vec<String>)
    ensures
        texts(kept@) == narrowed(texts(declared@), texts(candidates@)),
{
    let ghost names = texts(declared@);
    let mut kept: Vec<String> = Vec::new();
    let mut index: usize = 0;
    assert(names.take(0) =~= Seq::<Seq<char>>::empty());
    assert(texts(kept@) =~= Seq::<Seq<char>>::empty());
    while index < declared.len()
        invariant
            index <= declared@.len(),
            names == texts(declared@),
            texts(kept@) == narrowed(names.take(index as int), texts(candidates@)),
        decreases declared@.len() - index,
    {
        proof {
            assert(names.take(index as int + 1).drop_last() =~= names.take(index as int));
        }
        let ghost before = texts(kept@);
        let name: &String = &declared[index];
        if contains_text(candidates, name) && !contains_text(&kept, name) {
            kept.push(name.clone());
            assert(texts(kept@) =~= before.push(name@));
        }
        index = index + 1;
    }
    assert(names.take(names.len() as int) =~= names);
    kept
}

/// A dependency after the registry's metadata was taken in, and what taking
/// it in reports. A dependency that is accurate already stays as it is.
/// Otherwise the metadata is kept; where it lists the dependency's version,
/// the candidate features are narrowed to those the version declares, the
/// download address is the registry's host followed by the version's
/// download path, and the dependency is accurate from then on; where it does
/// not, the version does not exist.
pub open spec fn filled(krate: KrateView, metadata: CrateMetadata) -> (
    KrateView,
    Result<(), KrateError>,
) {
    if krate.is_accurate {
        (krate, Ok(()))
    } else {
        match version_position(metadata.versions@, version_text(krate.version), 0) {
            Some(index) => (
                KrateView {
                    name: krate.name,
                    version: krate.version,
                    download_url: registry_host() + metadata.versions@[index].dl_path@,
                    features: narrowed(
                        texts(metadata.versions@[index].features@),
                        krate.features,
                    ),
                    is_accurate: true,
                    metadata: Some(metadata),
                },
                Ok(()),
            ),
            None => (
                KrateView {
                    name: krate.name,
                    version: krate.version,
                    download_url: krate.download_url,
                    features: krate.features,
                    is_accurate: false,
                    metadata: Some(metadata),
                },
                Err(KrateError::NonExistantVersion),
            ),
        }
    }
}

/// A dependency after it was made accurate with what was fetched for it,
/// and what making it accurate reports: an accurate dependency stays as it
/// is, another takes in the metadata, and fails where there is none.
pub open spec fn taken_in(krate: KrateView, fetched: Option<CrateMetadata>) -> (
    KrateView,
    Result<(), KrateError>,
) {
    if krate.is_accurate {
        (krate, Ok(()))
    } else {
        match fetched {
            Some(metadata) => filled(krate, metadata),
            None => (krate, Err(KrateError::NoMetadataError)),
        }
    }
}

/// Finds the version the registry lists under the text `wanted`.
pub fn find_version(versions: &Vec<VersionMetadata>, wanted: &String) -> (found: Option<usize>)
    ensures
        match found {
            Some(index) => version_position(versions@, wanted@, 0) == Some(index as int),
            None => version_position(versions@, wanted@, 0) is None,
        },
{
    let mut index: usize = 0;
    while index < versions.len()
        invariant
            index <= versions@.len(),
            version_position(versions@, wanted@, 0) == version_position(
                versions@,
                wanted@,
                index as int,
            ),
        decreases versions@.len() - index,
    {
        if versions[index].num == *wanted {
            return Some(index);
        }
        index = index + 1;
    }
    None
}

impl Krate {
    /// A dependency known by name and version only.
    pub fn new(name: &str, version: Version) -> (krate: Krate)
        ensures
            krate@ == (KrateView {
                name: name@,
                version,
                download_url: Seq::empty(),
                features: Seq::empty(),
                is_accurate: false,
                metadata: None,
            }),
    {
        let krate = Krate {
            name: name.to_owned(),
            version,
            download_url: String::new(),
            features: Vec::new(),
            is_accurate: false,
            metadata: None,
        };
        assert(texts(krate.features@) =~= Seq::<Seq<char>>::empty());
        krate
    }

    /// A dependency known by name, with candidate features.
    pub fn with_features(name: String, version: Version, features: Vec<String>) -> (krate: Krate)
        ensures
            krate@ == (KrateView {
                name: name@,
                version,
                download_url: Seq::empty(),
                features: texts(features@),
                is_accurate: false,
                metadata: None,
            }),
    {
        Krate {
            name,
            version,
            download_url: String::new(),
            features,
            is_accurate: false,
            metadata: None,
        }
    }

    /// The dependency at the last version the registry lists for `name`.
    /// There is none where the registry lists no version or the last one
    /// does not spell three numbers.
    pub fn from_name(name: &str, metadata: &CrateMetadata) -> (result: Result<Krate, KrateError>)
        ensures
            match result {
                Ok(krate) => metadata.versions@.len() > 0 && version_of(
                    encode_utf8(metadata.versions@.last().num@),
                ) is Some && krate@ == (KrateView {
                    name: name@,
                    version: version_of(encode_utf8(metadata.versions@.last().num@)).unwrap(),
                    download_url: Seq::empty(),
                    features: Seq::empty(),
                    is_accurate: false,
                    metadata: None,
                }),
                Err(error) => error == KrateError::NonExistantVersion && (metadata.versions@.len()
                    == 0 || version_of(encode_utf8(metadata.versions@.last().num@)) is None),
            },
    {
        if metadata.versions.len() == 0 {
            return Err(KrateError::NonExistantVersion);
        }
        let last: &VersionMetadata = &metadata.versions[metadata.versions.len() - 1];
        match parse_version(last.num.as_str().as_bytes()) {
            Some(version) => Ok(Krate::new(name, version)),
            None => Err(KrateError::NonExistantVersion),
        }
    }

    /// Takes in the registry's metadata.
    pub fn fill_information_from_crates_api(&mut self, metadata: CrateMetadata) -> (result: Result<
        (),
        KrateError,
    >)
        ensures
            (final(self)@, result) == filled(old(self)@, metadata),
    {
        if self.is_accurate {
            return Ok(());
        }
        let wanted: String = self.version.to_text();
        match find_version(&metadata.versions, &wanted) {
            Some(index) => {
                proof {
                    lemma_version_position(metadata.versions@, wanted@, 0);
                }
                let version: &VersionMetadata = &metadata.versions[index];
                let kept: Vec<String> = narrow_features(&version.features, &self.features);
                let mut url: String = String::from_str("https://crates.io");
                url.append(version.dl_path.as_str());
                self.features = kept;
                self.download_url = url;
                self.is_accurate = true;
                self.metadata = Some(metadata);
                Ok(())
            },
            None => {
                self.metadata = Some(metadata);
                Err(KrateError::NonExistantVersion)
            },
        }
    }

    /// A dependency with what the registry tells of it, as far as the
    /// registry knows its version.
    pub fn new_with_remote_info(name: &str, version: Version, metadata: CrateMetadata) -> (krate:
        Krate)
        ensures
            krate@ == filled(
                KrateView {
                    name: name@,
                    version,
                    download_url: Seq::empty(),
                    features: Seq::empty(),
                    is_accurate: false,
                    metadata: None,
                },
                metadata,
            ).0,
    {
        let mut krate: Krate = Krate::new(name, version);
        let _ = krate.fill_information_from_crates_api(metadata);
        krate
    }

    /// Tells whether the registry's metadata was taken in.
    pub fn is_accurate(&self) -> (accurate: bool)
        ensures
            accurate == self@.is_accurate,
    {
        self.is_accurate
    }

    /// The registry's metadata, where it was taken in.
    pub fn get_krate_meta(&self) -> (metadata: &Option<CrateMetadata>)
        ensures
            *metadata == self@.metadata,
    {
        &self.metadata
    }

    /// The candidate features: a list with many names that no feature bears.
    /// After the registry's metadata was taken in, the list holds declared
    /// features only.
    pub fn get_features_raw(&self) -> (features: &Vec<String>)
        ensures
            texts(features@) == self@.features,
    {
        &self.features
    }

    /// Makes the dependency accurate where it is not: takes in `fetched`,
    /// and fails with `NoMetadataError` where nothing was fetched.
    pub fn ensure_accurate(&mut self, fetched: Option<CrateMetadata>) -> (result: Result<
        (),
        KrateError,
    >)
        ensures
            (final(self)@, result) == taken_in(old(self)@, fetched),
    {
        if self.is_accurate {
            return Ok(());
        }
        match fetched {
            Some(metadata) => self.fill_information_from_crates_api(metadata),
            None => Err(KrateError::NoMetadataError),
        }
    }

    /// The download address, once the dependency is accurate. A dependency
    /// that is not accurate yet first takes in `fetched`, and fails with
    /// `NoMetadataError` where nothing was fetched.
    pub fn get_download_url(&mut self, fetched: Option<CrateMetadata>) -> (result: Result<
        String,
        KrateError,
    >)
        ensures
            final(self)@ == taken_in(old(self)@, fetched).0,
            match result {
                Ok(url) => taken_in(old(self)@, fetched).1 is Ok
                    && url@ == final(self)@.download_url,
                Err(error) => taken_in(old(self)@, fetched).1 == Err::<(), KrateError>(error),
            },
    {
        match self.ensure_accurate(fetched) {
            Ok(()) => Ok(self.download_url.clone()),
            Err(error) => Err(error),
        }
    }

    /// The features the dependency may have been built with, once it is
    /// accurate. A dependency that is not accurate yet first takes in
    /// `fetched`, and fails with `NoMetadataError` where nothing was fetched.
    pub fn get_features(&mut self, fetched: Option<CrateMetadata>) -> (result: Result<
        Vec<String>,
        KrateError,
    >)
        ensures
            final(self)@ == taken_in(old(self)@, fetched).0,
            match result {
                Ok(features) => taken_in(old(self)@, fetched).1 is Ok
                    && texts(features@) == final(self)@.features,
                Err(error) => taken_in(old(self)@, fetched).1 == Err::<(), KrateError>(error),
            },
    {
        match self.ensure_accurate(fetched) {
            Ok(()) => Ok(clone_strings(&self.features)),
            Err(error) => Err(error),
        }
    }

    /// The name and the version, as `name-major.minor.patch`.
    pub fn as_string(&self) -> (text: String)
        ensures
            text@ == self@.name + "-"@ + version_text(self@.version),
    {
        let mut text: String = self.name.clone();
        text.append("-");
        text.append(self.version.to_text().as_str());
        text
    }
}

/// The views of a list of packages, in order.
pub open spec fn package_views(packages: Seq<Package>) -> Seq<PackageView> {
    packages.map_values(|package: Package| package@)
}

/// The packages the references name, in the order of the references. A
/// reference whose package component spells no package is passed over.
pub open spec fn packages_of(references: Seq<PathReferenceView>) -> Seq<PackageView> {
    references.filter_map(|reference: PathReferenceView| package_of(reference.package))
}

/// The position of the first package, at or after `from`, that bears
/// `name`.
pub open spec fn package_position(packages: Seq<PackageView>, name: Seq<u8>, from: int) -> Option<
    int,
>
    decreases packages.len() - from,
{
    if from < 0 || from >= packages.len() {
        None
    } else if packages[from].name == name {
        Some(from)
    } else {
        package_position(packages, name, from + 1)
    }
}

/// The packages with one entry for each name: a name keeps the place of its
/// first package and takes the version of its last.
pub open spec fn merged(packages: Seq<PackageView>) -> Seq<PackageView>
    decreases packages.len(),
{
    if packages.len() == 0 {
        Seq::empty()
    } else {
        let rest = merged(packages.drop_last());
        let package = packages.last();
        match package_position(rest, package.name, 0) {
            Some(index) => rest.update(index, package),
            None => rest.push(package),
        }
    }
}

/// The directories the references go through, reference after reference.
pub open spec fn all_directories(references: Seq<PathReferenceView>) -> Seq<Seq<u8>>
    decreases references.len(),
{
    if references.len() == 0 {
        Seq::empty()
    } else {
        all_directories(references.drop_last()) + references.last().directories
    }
}

/// The texts of ASCII byte strings, in order.
pub open spec fn ascii_texts(list: Seq<Seq<u8>>) -> Seq<Seq<char>> {
    list.map_values(|bytes: Seq<u8>| ascii_chars(bytes))
}

/// The dependency that a package found in a target starts as: its name and
/// version, the directories found as candidate features, and nothing from
/// the registry.
pub open spec fn seed(package: PackageView, directories: Seq<Seq<u8>>) -> KrateView {
    KrateView {
        name: ascii_chars(package.name),
        version: package.version,
        download_url: Seq::empty(),
        features: ascii_texts(directories),
        is_accurate: false,
        metadata: None,
    }
}

/// The dependencies that the references found in a target tell of: one for
/// each package name, in the order in which the names first occur, each
/// with the last version found under its name and with the directories of
/// all references as candidate features.
pub open spec fn inferred(references: Seq<PathReferenceView>) -> Seq<KrateView> {
    merged(packages_of(references)).map_values(
        |package: PackageView| seed(package, all_directories(references)),
    )
}

/// Component bytes are ASCII bytes.
pub proof fn lemma_component_is_ascii(bytes: Seq<u8>)
    requires
        is_component(bytes),
    ensures
        is_ascii_bytes(bytes),
{
    assert forall|i: int| 0 <= i < bytes.len() implies #[trigger] bytes[i] < 0x80 by {
        assert(is_component_byte(bytes[i]));
    }
}

/// Holds when the name of every package is made of component bytes.
pub open spec fn have_component_names(packages: Seq<PackageView>) -> bool {
    forall|i: int| 0 <= i < packages.len() ==> is_component((#[trigger] packages[i]).name)
}

/// Reads the packages the references name.
pub fn parse_packages(references: &Vec<PathReference>) -> (packages: Vec<Package>)
    requires
        forall|i: int|
            0 <= i < references@.len() ==> is_clean(#[trigger] reference_views(references@)[i]),
    ensures
        package_views(packages@) == packages_of(reference_views(references@)),
        have_component_names(package_views(packages@)),
{
    let ghost views = reference_views(references@);
    let ghost read = |reference: PathReferenceView| package_of(reference.package);
    let mut list: Vec<Package> = Vec::new();
    let mut index: usize = 0;
    assert(package_views(list@) =~= views.take(0).filter_map(read));
    while index < references.len()
        invariant
            index <= references@.len(),
            views == reference_views(references@),
            read == |reference: PathReferenceView| package_of(reference.package),
            forall|i: int| 0 <= i < references@.len() ==> is_clean(#[trigger] views[i]),
            package_views(list@) == views.take(index as int).filter_map(read),
            have_component_names(package_views(list@)),
        decreases references@.len() - index,
    {
        proof {
            views.lemma_filter_map_take_succ(read, index as int);
            assert(is_clean(views[index as int]));
        }
        let ghost before = package_views(list@);
        let component: &[u8] = references[index].package.as_slice();
        if let Some(package) = parse_package(component) {
            proof {
                lemma_last_dash_name(component@);
            }
            list.push(package);
            assert(package_views(list@) =~= before.push(package@));
        }
        index = index + 1;
    }
    assert(views.take(views.len() as int) =~= views);
    list
}

/// The name of the package a component spells is made of the component's
/// bytes.
pub proof fn lemma_last_dash_name(component: Seq<u8>)
    requires
        is_component(component),
    ensures
        package_of(component) matches Some(package) ==> is_component(package.name),
{
    crate::info_gathering::version::lemma_last_position_before(
        component,
        crate::info_gathering::version::PACKAGE_SEPARATOR,
        component.len() as int,
    );
    match package_of(component) {
        Some(package) => {
            assert forall|i: int| 0 <= i < package.name.len() implies is_component_byte(
                #[trigger] package.name[i],
            ) by {
                assert(package.name[i] == component[i]);
            }
        },
        None => {},
    }
}

/// Finds the package that bears `name`.
pub fn find_package(packages: &Vec<Package>, name: &[u8]) -> (found: Option<usize>)
    ensures
        match found {
            Some(index) => package_position(package_views(packages@), name@, 0) == Some(
                index as int,
            ) && index < packages@.len(),
            None => package_position(package_views(packages@), name@, 0) is None,
        },
{
    let mut index: usize = 0;
    while index < packages.len()
        invariant
            index <= packages@.len(),
            package_position(package_views(packages@), name@, 0) == package_position(
                package_views(packages@),
                name@,
                index as int,
            ),
        decreases packages@.len() - index,
    {
        if bytes_eq(packages[index].name.as_slice(), name) {
            return Some(index);
        }
        index = index + 1;
    }
    None
}

/// Keeps one package for each name: a name keeps the place of its first
/// package and takes the version of its last.
pub fn merge_packages(packages: &Vec<Package>) -> (kept: Vec<Package>)
    ensures
        package_views(kept@) == merged(package_views(packages@)),
        have_component_names(package_views(packages@)) ==> have_component_names(
            package_views(kept@),
        ),
{
    let ghost views = package_views(packages@);
    let mut kept: Vec<Package> = Vec::new();
    let mut index: usize = 0;
    assert(views.take(0) =~= Seq::<PackageView>::empty());
    assert(package_views(kept@) =~= Seq::<PackageView>::empty());
    while index < packages.len()
        invariant
            index <= packages@.len(),
            views == package_views(packages@),
            package_views(kept@) == merged(views.take(index as int)),
            have_component_names(views) ==> have_component_names(package_views(kept@)),
        decreases packages@.len() - index,
    {
        proof {
            assert(views.take(index as int + 1).drop_last() =~= views.take(index as int));
        }
        let ghost before = package_views(kept@);
        let package = Package {
            name: crate::info_gathering::paths::copy_bytes(packages[index].name.as_slice()),
            version: packages[index].version,
        };
        assert(package@ == views[index as int]);
        match find_package(&kept, package.name.as_slice()) {
            Some(position) => {
                kept.set(position, package);
                assert(package_views(kept@) =~= before.update(
                    position as int,
                    views[index as int],
                ));
            },
            None => {
                kept.push(package);
                assert(package_views(kept@) =~= before.push(views[index as int]));
            },
        }
        index = index + 1;
    }
    assert(views.take(views.len() as int) =~= views);
    kept
}

/// Gathers the directories the references go through, as texts.
pub fn directory_texts(references: &Vec<PathReference>) -> (features: Vec<String>)
    requires
        forall|i: int|
            0 <= i < references@.len() ==> is_clean(#[trigger] reference_views(references@)[i]),
    ensures
        texts(features@) == ascii_texts(all_directories(reference_views(references@))),
{
    let ghost views = reference_views(references@);
    let mut features: Vec<String> = Vec::new();
    let mut index: usize = 0;
    assert(views.take(0) =~= Seq::<PathReferenceView>::empty());
    assert(texts(features@) =~= ascii_texts(all_directories(views.take(0))));
    while index < references.len()
        invariant
            index <= references@.len(),
            views == reference_views(references@),
            forall|i: int| 0 <= i < references@.len() ==> is_clean(#[trigger] views[i]),
            texts(features@) == ascii_texts(all_directories(views.take(index as int))),
        decreases references@.len() - index,
    {
        let directories: &Vec<Vec<u8>> = &references[index].directories;
        let ghost start = texts(features@);
        let ghost listed = byte_views(directories@);
        proof {
            assert(views.take(index as int + 1).drop_last() =~= views.take(index as int));
            assert(is_clean(views[index as int]));
            assert(listed == views[index as int].directories);
        }
        let mut position: usize = 0;
        while position < directories.len()
            invariant
                position <= directories@.len(),
                listed == byte_views(directories@),
                are_components(listed),
                texts(features@) == start + ascii_texts(listed.take(position as int)),
            decreases directories@.len() - position,
        {
            let ghost before = texts(features@);
            proof {
                assert(is_component(listed[position as int]));
                lemma_component_is_ascii(listed[position as int]);
            }
            let text: String = ascii_string(directories[position].as_slice());
            features.push(text);
            assert(texts(features@) =~= before.push(ascii_chars(listed[position as int])));
            assert(listed.take(position as int + 1) =~= listed.take(position as int).push(
                listed[position as int],
            ));
            assert(ascii_texts(listed.take(position as int + 1)) =~= ascii_texts(
                listed.take(position as int),
            ).push(ascii_chars(listed[position as int])));
            position = position + 1;
        }
        proof {
            assert(listed.take(listed.len() as int) =~= listed);
            assert(ascii_texts(all_directories(views.take(index as int)) + listed)
                =~= ascii_texts(all_directories(views.take(index as int))) + ascii_texts(listed));
        }
        index = index + 1;
    }
    assert(views.take(views.len() as int) =~= views);
    features
}

/// The dependencies of a target.
#[derive(Clone, Debug, PartialEq, Eq)]
pub struct Dependencies {
    krates: Vec<Krate>,
}

impl View for Dependencies {
    type V = Seq<KrateView>;

    closed spec fn view(&self) -> Seq<KrateView> {
        krate_views(self.krates@)
    }
}

impl Dependencies {
    /// The dependencies, in the order in which their names were found.
    pub fn get_dependencies(&self) -> (krates: &Vec<Krate>)
        ensures
            krate_views(krates@) == self@,
    {
        &self.krates
    }

    /// The dependencies, to be changed in place.
    pub fn get_dependencies_mut(&mut self) -> (krates: &mut Vec<Krate>)
        ensures
            krate_views(krates@) == old(self)@,
            final(self)@ == krate_views(final(krates)@),
    {
        &mut self.krates
    }

    /// Gives the dependencies up, to be changed.
    pub fn into_dependencies(self) -> (krates: Vec<Krate>)
        ensures
            krate_views(krates@) == self@,
    {
        self.krates
    }

    /// The dependencies made of a list of their own.
    pub fn from_krates(krates: Vec<Krate>) -> (dependencies: Dependencies)
        ensures
            dependencies@ == krate_views(krates@),
    {
        Dependencies { krates }
    }

    /// Infers the dependencies from the registry paths found in a target.
    pub fn from_references(references: &Vec<PathReference>) -> (dependencies: Dependencies)
        requires
            forall|i: int|
                0 <= i < references@.len() ==> is_clean(
                    #[trigger] reference_views(references@)[i],
                ),
        ensures
            dependencies@ == inferred(reference_views(references@)),
    {
        let packages: Vec<Package> = parse_packages(references);
        let kept: Vec<Package> = merge_packages(&packages);
        let features: Vec<String> = directory_texts(references);
        let ghost seeds = package_views(kept@);
        let ghost directories = all_directories(reference_views(references@));
        let mut krates: Vec<Krate> = Vec::new();
        let mut index: usize = 0;
        while index < kept.len()
            invariant
                index <= kept@.len(),
                seeds == package_views(kept@),
                have_component_names(seeds),
                texts(features@) == ascii_texts(directories),
                krate_views(krates@) == seeds.take(index as int).map_values(
                    |package: PackageView| seed(package, directories),
                ),
            decreases kept@.len() - index,
        {
            let ghost before = krate_views(krates@);
            proof {
                assert(is_component(seeds[index as int].name));
                lemma_component_is_ascii(seeds[index as int].name);
            }
            let krate: Krate = Krate::with_features(
                ascii_string(kept[index].name.as_slice()),
                kept[index].version,
                clone_strings(&features),
            );
            krates.push(krate);
            assert(krate_views(krates@) =~= before.push(seed(seeds[index as int], directories)));
            assert(seeds.take(index as int + 1) =~= seeds.take(index as int).push(
                seeds[index as int],
            ));
            index = index + 1;
            assert(krate_views(krates@) =~= seeds.take(index as int).map_values(
                |package: PackageView| seed(package, directories),
            ));
        }
        assert(seeds.take(seeds.len() as int) =~= seeds);
        Dependencies { krates }
    }

    /// Infers the dependencies of a target from the registry paths it
    /// embeds. Each path whose package component spells
    /// `name-major.minor.patch` names a dependency; a path whose package
    /// component has another form names none.
    pub fn from_buffer(buffer: &Vec<u8>) -> (dependencies: Dependencies)
        ensures
            dependencies@ == inferred(references(buffer@)),
    {
        let found: Vec<PathReference> = find_references(buffer.as_slice());
        Dependencies::from_references(&found)
    }
}

} // verus!

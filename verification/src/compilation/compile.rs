//! What the build of a dependency is asked for, and where its output lies.

use vstd::prelude::*;
use vstd::string::StringExecFns;

use crate::utils::text::texts;

verus! {

/// The kind of library a dependency is built as.
#[derive(Debug, Copy, Clone, PartialEq, Eq, Structural)]
pub enum CompileType {
    /// A dynamic library, built beside a debug database.
    Dylib,
    /// A static archive.
    StaticLib,
}

/// The crate type a kind of library is declared as in a manifest.
pub open spec fn crate_type_text(compile_type: CompileType) -> Seq<char> {
    match compile_type {
        CompileType::Dylib => "dylib"@,
        CompileType::StaticLib => "rlib"@,
    }
}

impl CompileType {
    /// The crate type to declare in the manifest.
    pub fn as_str(&self) -> (text: &'static str)
        ensures
            text@ == crate_type_text(*self),
    {
        match self {
            CompileType::Dylib => "dylib",
            CompileType::StaticLib => "rlib",
        }
    }

    /// The crate type to declare in the manifest, as a string of its own.
    pub fn to_text(&self) -> (text: String)
        ensures
            text@ == crate_type_text(*self),
    {
        self.as_str().to_owned()
    }
}

/// The features of a build as one argument: each name followed by a comma.
pub open spec fn joined_features(features: Seq<Seq<char>>) -> Seq<char>
    decreases features.len(),
{
    if features.len() == 0 {
        Seq::empty()
    } else {
        joined_features(features.drop_last()) + features.last() + ","@
    }
}

/// The arguments every build is run with, after the toolchain.
pub open spec fn fixed_arguments() -> Seq<Seq<char>> {
    seq!["build"@, "--config"@, "strip=false"@, "--config"@, "debug=2"@, "--release"@, "--lib"@]
}

/// The arguments the build tool is run with: the pinned toolchain, a
/// library-only release build that keeps full debug information and strips
/// nothing, and, where there are features, the features.
pub open spec fn cargo_argument_texts(toolchain_version: Seq<char>, features: Seq<Seq<char>>)
    -> Seq<Seq<char>> {
    let head = seq!["+"@ + toolchain_version] + fixed_arguments();
    if features.len() == 0 {
        head
    } else {
        head + seq!["--features"@, joined_features(features)]
    }
}

/// Joins the features of a build into one argument.
pub fn join_features(features: &Vec<String>) -> (joined: String)
    ensures
        joined@ == joined_features(texts(features@)),
{
    let ghost names = texts(features@);
    let mut joined: String = String::new();
    let mut index: usize = 0;
    assert(names.take(0) =~= Seq::<Seq<char>>::empty());
    while index < features.len()
        invariant
            index <= features@.len(),
            names == texts(features@),
            joined@ == joined_features(names.take(index as int)),
        decreases features@.len() - index,
    {
        proof {
            assert(names.take(index as int + 1).drop_last() =~= names.take(index as int));
        }
        joined.append(features[index].as_str());
        joined.append(",");
        index = index + 1;
    }
    assert(names.take(names.len() as int) =~= names);
    joined
}

/// Makes the arguments the build tool is run with.
pub fn cargo_arguments(toolchain_version: &str, features: &Vec<String>) -> (arguments: Vec<
    String,
>)
    ensures
        texts(arguments@) == cargo_argument_texts(toolchain_version@, texts(features@)),
{
    let mut toolchain: String = String::from_str("+");
    toolchain.append(toolchain_version);
    let mut arguments: Vec<String> = Vec::new();
    arguments.push(toolchain);
    arguments.push(String::from_str("build"));
    arguments.push(String::from_str("--config"));
    arguments.push(String::from_str("strip=false"));
    arguments.push(String::from_str("--config"));
    arguments.push(String::from_str("debug=2"));
    arguments.push(String::from_str("--release"));
    arguments.push(String::from_str("--lib"));
    assert(texts(arguments@) =~= seq!["+"@ + toolchain_version@] + fixed_arguments());
    if features.len() > 0 {
        let ghost head = texts(arguments@);
        let joined: String = join_features(features);
        arguments.push(String::from_str("--features"));
        arguments.push(joined);
        assert(texts(arguments@) =~= head + seq![
            "--features"@,
            joined_features(texts(features@)),
        ]);
    }
    arguments
}

/// A package name as the build tool writes it in the name of an archive:
/// with `_` in place of each `-`.
pub open spec fn library_stem(name: Seq<char>) -> Seq<char> {
    name.map_values(
        |c: char|
            if c == '-' {
                '_'
            } else {
                c
            },
    )
}

/// Calls `str::replace` with the patterns `-` and `_`: every `-` of the name
/// becomes `_` and every other character stays.
#[verifier::external_body]
pub(crate) fn replace_dashes(name: &str) -> (stem: String)
    ensures
        stem@ == library_stem(name@),
{
    name.replace("-", "_")
}

/// Where the output of a build lies, from the directory of the package:
/// the debug database of a dynamic library, or the static archive.
pub open spec fn artifact_path_text(name: Seq<char>, compile_type: CompileType) -> Seq<char> {
    match compile_type {
        CompileType::Dylib => "target\\release\\"@ + name + ".pdb"@,
        CompileType::StaticLib => "target\\release\\lib"@ + library_stem(name) + ".rlib"@,
    }
}

/// Tells where the output of a build lies, from the directory of the
/// package.
pub fn artifact_path(name: &str, compile_type: CompileType) -> (path: String)
    ensures
        path@ == artifact_path_text(name@, compile_type),
{
    match compile_type {
        CompileType::Dylib => {
            let mut path: String = String::from_str("target\\release\\");
            path.append(name);
            path.append(".pdb");
            path
        },
        CompileType::StaticLib => {
            let mut path: String = String::from_str("target\\release\\lib");
            path.append(replace_dashes(name).as_str());
            path.append(".rlib");
            path
        },
    }
}

} // verus!

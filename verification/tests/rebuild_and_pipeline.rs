use ariane::compilation::compile::{artifact_path, cargo_arguments, join_features, CompileType};
use ariane::info_gathering::krate::KrateError;
use ariane::pipeline::{match_functions, Stage, Transition};
use ariane::functions_utils::search::{Function, FunctionType};
use ariane::ArianeError;

fn strings(list: &[&str]) -> Vec<String> {
    list.iter().map(|text| text.to_string()).collect()
}

#[test]
fn crate_type_is_declared_by_kind() {
    assert_eq!(CompileType::Dylib.as_str(), "dylib");
    assert_eq!(CompileType::StaticLib.as_str(), "rlib");
    assert_eq!(CompileType::StaticLib.to_text(), "rlib");
}

#[test]
fn build_without_features_has_the_fixed_arguments() {
    assert_eq!(
        cargo_arguments("1.72.0", &Vec::new()),
        strings(&["+1.72.0", "build", "--config", "strip=false", "--config", "debug=2", "--release", "--lib"])
    );
}

#[test]
fn build_with_features_names_them() {
    assert_eq!(
        cargo_arguments("1.72.0", &strings(&["std", "perf-literal"])),
        strings(&[
            "+1.72.0",
            "build",
            "--config",
            "strip=false",
            "--config",
            "debug=2",
            "--release",
            "--lib",
            "--features",
            "std,perf-literal,",
        ])
    );
    assert_eq!(join_features(&strings(&["a"])), "a,");
    assert_eq!(join_features(&Vec::new()), "");
}

#[test]
fn artifact_lies_in_the_release_directory() {
    assert_eq!(
        artifact_path("aho-corasick", CompileType::StaticLib),
        "target\\release\\libaho_corasick.rlib"
    );
    assert_eq!(
        artifact_path("hello_world_for_std", CompileType::Dylib),
        "target\\release\\hello_world_for_std.pdb"
    );
    assert_eq!(artifact_path("a-b-c", CompileType::Dylib), "target\\release\\a-b-c.pdb");
    assert_eq!(artifact_path("a-b-c", CompileType::StaticLib), "target\\release\\liba_b_c.rlib");
}

#[test]
fn stages_follow_one_another() {
    let order = [
        Stage::FingerprintPending,
        Stage::ToolchainInstalling,
        Stage::DepsInferring,
        Stage::DepsRebuilding,
        Stage::TargetExtracting,
        Stage::Hashing,
        Stage::Matching,
        Stage::Emitting,
    ];
    assert_eq!(Stage::first(), order[0]);
    for pair in order.windows(2) {
        assert_eq!(pair[0].next(), Some(pair[1]));
        assert_eq!(pair[0].step(Ok(())), Transition::Advance(pair[1]));
    }
    assert_eq!(Stage::Emitting.next(), None);
    assert_eq!(Stage::Emitting.step(Ok(())), Transition::Finish);
}

#[test]
fn failure_of_one_dependency_is_skipped() {
    for error in [
        ArianeError::DownloadFailed,
        ArianeError::NoMetadata,
        ArianeError::NonExistentVersion,
        ArianeError::CompileFailed,
    ] {
        assert!(error.hits_one_dependency());
        assert_eq!(Stage::DepsRebuilding.step(Err(error)), Transition::Skip);
        assert_eq!(Stage::Hashing.step(Err(error)), Transition::Abort(error));
    }
    assert_eq!(
        Stage::DepsRebuilding.step(Err(ArianeError::IOError)),
        Transition::Abort(ArianeError::IOError)
    );
}

#[test]
fn missing_version_does_not_stop_the_pipeline() {
    let error = ArianeError::from_krate_error(KrateError::NonExistantVersion);
    assert_eq!(error, ArianeError::NonExistentVersion);
    assert_eq!(Stage::DepsRebuilding.step(Err(error)), Transition::Skip);
    assert_eq!(Stage::DepsRebuilding.step(Ok(())), Transition::Advance(Stage::TargetExtracting));
}

#[test]
fn other_failures_stop_the_pipeline() {
    assert_eq!(
        Stage::FingerprintPending.step(Err(ArianeError::NoCompilerFingerprint)),
        Transition::Abort(ArianeError::NoCompilerFingerprint)
    );
    assert_eq!(
        Stage::FingerprintPending.step(Err(ArianeError::NoToolchainResolution)),
        Transition::Abort(ArianeError::NoToolchainResolution)
    );
    assert_eq!(
        Stage::ToolchainInstalling.step(Err(ArianeError::ToolchainInstallFailed)),
        Transition::Abort(ArianeError::ToolchainInstallFailed)
    );
    assert_eq!(
        Stage::TargetExtracting.step(Err(ArianeError::InvalidInput)),
        Transition::Abort(ArianeError::InvalidInput)
    );
    assert_eq!(
        Stage::TargetExtracting.step(Err(ArianeError::AddressNotInAnySection)),
        Transition::Skip
    );
    assert_eq!(
        Stage::DepsInferring.step(Err(ArianeError::AddressNotInAnySection)),
        Transition::Abort(ArianeError::AddressNotInAnySection)
    );
}

#[test]
fn errors_of_a_dependency_have_their_kind() {
    assert_eq!(ArianeError::from_krate_error(KrateError::CursorError), ArianeError::IOError);
    assert_eq!(ArianeError::from_krate_error(KrateError::DownloadError), ArianeError::DownloadFailed);
    assert_eq!(ArianeError::from_krate_error(KrateError::FileCreationError), ArianeError::IOError);
    assert_eq!(ArianeError::from_krate_error(KrateError::NoMetadataError), ArianeError::NoMetadata);
    assert!(!ArianeError::IOError.hits_one_dependency());
    assert!(!ArianeError::InvalidInput.hits_one_dependency());
}

fn body(seed: u32) -> Vec<u8> {
    let mut state = seed;
    let mut bytes = Vec::new();
    for _ in 0..600 {
        state = state.wrapping_mul(1_103_515_245).wrapping_add(12_345);
        bytes.push(0x50 + ((state >> 16) & 7) as u8);
    }
    bytes
}

#[test]
fn functions_are_matched_by_their_signatures() {
    let shared = body(1);
    let mut patched = shared.clone();
    patched[300] = 0x90;
    let other = body(2);
    let small = vec![0x90u8; 10];
    let function = |data: &'static [u8], name: Option<&str>, rva: u32, fn_type: FunctionType| Function {
        data,
        name: name.map(|text| text.to_string()),
        rva,
        fn_type,
    };
    let shared: &'static [u8] = shared.leak();
    let patched: &'static [u8] = patched.leak();
    let other: &'static [u8] = other.leak();
    let small: &'static [u8] = small.leak();
    let target = vec![
        function(patched, None, 0x2000, FunctionType::Exe),
        function(small, None, 0x1800, FunctionType::Exe),
        function(shared, None, 0x1000, FunctionType::Exe),
    ];
    let library = vec![
        function(shared, Some("memchr::find"), 0, FunctionType::Lib),
        function(other, Some("memchr::unrelated"), 0, FunctionType::Lib),
        function(shared, Some("core::copy"), 0, FunctionType::Pdb),
        function(other, Some("memchr::find"), 0, FunctionType::Lib),
        function(shared, None, 0, FunctionType::Lib),
    ];
    let symbols = match_functions(&target, &library);
    let summary: Vec<(&str, u32)> =
        symbols.iter().map(|symbol| (symbol.name.as_str(), symbol.rva)).collect();
    assert_eq!(
        summary,
        vec![
            ("core::copy", 0x1000),
            ("memchr::find", 0x1000),
            ("core::copy", 0x2000),
            ("memchr::find", 0x2000),
        ]
    );
    assert_eq!(symbols[0].score, 100);
    assert_eq!(symbols[1].score, 100);
    for symbol in &symbols {
        assert!(symbol.score > 25 && symbol.score <= 100);
    }
    assert_eq!(match_functions(&target, &Vec::new()), Vec::new());
}

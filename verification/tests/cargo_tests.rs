use binsize::cargo::{BuildArtifact, BuildArtifactKind, BuildOptions};
use binsize::exe::SymbolKind;

#[test]
fn default_options_use_the_dev_profile() {
    let opt = BuildOptions::default();
    assert_eq!(opt.profile, "dev");
    assert_eq!(opt.message_format, "");
    assert_eq!(opt.args(), vec!["build".to_string(), "--profile".to_string(), "dev".to_string()]);
}

#[test]
fn message_format_is_encoded_as_one_argument() {
    let opt = BuildOptions::default().message_format("json");
    assert_eq!(
        opt.args(),
        vec![
            "build".to_string(),
            "--profile".to_string(),
            "dev".to_string(),
            "--message-format=json".to_string(),
        ]
    );
}

#[test]
fn empty_options_encode_to_build_alone() {
    let opt = BuildOptions::new(String::new(), String::new());
    assert_eq!(opt.args(), vec!["build".to_string()]);
}

#[test]
fn profile_override_replaces_the_profile() {
    let opt = BuildOptions::default().profile("release");
    assert_eq!(opt.profile, "release");
    assert_eq!(
        opt.args(),
        vec!["build".to_string(), "--profile".to_string(), "release".to_string()]
    );
}

#[test]
fn artifact_kinds_parse_from_crate_types() {
    assert!(BuildArtifactKind::try_from("bin").unwrap() == BuildArtifactKind::Binary);
    assert!(BuildArtifactKind::try_from("lib").unwrap() == BuildArtifactKind::Library);
    assert!(BuildArtifactKind::try_from("rlib").unwrap() == BuildArtifactKind::Library);
    assert!(BuildArtifactKind::try_from("dylib").unwrap() == BuildArtifactKind::DynamicLibrary);
    assert!(BuildArtifactKind::try_from("cdylib").unwrap() == BuildArtifactKind::DynamicLibrary);
    assert!(BuildArtifactKind::try_from("proc-macro").is_err());
}

#[test]
fn artifacts_keep_their_fields() {
    let a = BuildArtifact::new(
        BuildArtifactKind::Binary,
        String::from("app"),
        std::path::PathBuf::from("target/debug/app"),
    );
    assert!(a.kind == BuildArtifactKind::Binary);
    assert_eq!(a.name, "app");
    assert_eq!(a.path, std::path::PathBuf::from("target/debug/app"));
}

#[test]
fn symbol_kind_labels() {
    assert_eq!(SymbolKind::Function.label(), "FUNC");
    assert_eq!(SymbolKind::Data.label(), "DATA");
    assert_eq!(SymbolKind::Unknown.label(), "UNK ");
}

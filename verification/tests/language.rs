use dyad::language::{Language, TestRunnerKind};

#[test]
fn for_path_recognizes_rust_extension() {
    assert_eq!(Language::for_path("foo.rs"), Some(Language::Rust));
}

#[test]
fn for_path_routes_all_scala_filetypes_to_scala() {
    for ext in ["scala", "sc", "sbt"] {
        let p = format!("foo.{ext}");
        assert_eq!(Language::for_path(&p), Some(Language::Scala), "{ext}");
    }
}

#[test]
fn for_path_recognizes_elm_extension() {
    assert_eq!(Language::for_path("Main.elm"), Some(Language::Elm));
}

#[test]
fn for_path_returns_none_for_unknown_extensions() {
    assert!(Language::for_path("README.md").is_none());
    assert!(Language::for_path("noext").is_none());
}

#[test]
fn for_path_looks_at_the_last_name_only() {
    assert_eq!(Language::for_path("a.rs/b"), None);
    assert_eq!(Language::for_path(".rs"), None);
    assert_eq!(Language::for_path("/x/y.tar.elm"), Some(Language::Elm));
}

#[test]
fn descriptor_strings_are_stable_and_non_empty() {
    for lang in [Language::Rust, Language::Scala, Language::Elm] {
        assert!(!lang.display_name().is_empty());
        assert!(!lang.lsp_binary().is_empty());
        assert!(!lang.lsp_language_id().is_empty());
        assert!(!lang.install_hint().is_empty());
        assert!(!lang.workspace_markers().is_empty());
        assert!(lang.initialize_timeout() > 0);
    }
}

#[test]
fn workspace_markers_match_per_language() {
    assert_eq!(Language::Rust.workspace_markers(), &["Cargo.toml"]);
    let scala_markers = Language::Scala.workspace_markers();
    assert!(scala_markers.contains(&"build.sbt"));
    assert_eq!(Language::Elm.workspace_markers(), &["elm.json"]);
}

#[test]
fn capability_flags_match_language() {
    assert!(Language::Rust.advertises_rust_analyzer_server_status());
    assert!(!Language::Scala.advertises_rust_analyzer_server_status());
    assert!(!Language::Elm.advertises_rust_analyzer_server_status());

    assert!(Language::Rust.tracks_indexing_status());
    assert!(Language::Scala.tracks_indexing_status());
    assert!(!Language::Elm.tracks_indexing_status());

    assert!(Language::Rust.supports_type_from_source_line());
    assert!(!Language::Scala.supports_type_from_source_line());
    assert!(!Language::Elm.supports_type_from_source_line());
}

#[test]
fn test_command_wired_for_rust_only() {
    assert_eq!(Language::Rust.test_command(), Some(vec!["cargo", "test"]));
    assert!(Language::Scala.test_command().is_none());
    assert!(Language::Elm.test_command().is_none());

    assert_eq!(
        Language::Rust.test_runner_kind(),
        Some(TestRunnerKind::CargoTest)
    );
    for lang in [Language::Rust, Language::Scala, Language::Elm] {
        assert_eq!(
            lang.test_command().is_some(),
            lang.test_runner_kind().is_some(),
            "{lang:?}: command and parser availability must agree"
        );
    }
}

#[test]
fn initialization_options_present_only_for_scala() {
    assert!(Language::Rust.initialization_options().is_none());
    let opts = Language::Scala.initialization_options().unwrap();
    assert_eq!(opts["isHttpEnabled"], false);
    assert_eq!(opts["statusBarProvider"], "on");
    assert_eq!(opts["compilerOptions"]["snippetAutoIndent"], false);
    assert!(Language::Elm.initialization_options().is_none());
}

use groxide::cli::{Cli, KindFilter};
use groxide::error::GroxError;
use groxide::resolve::{CrateSource, PackageInfo, ProjectContext};
use groxide::session::{
    parent_path, readme_candidates, readme_dir, readme_not_found, resolution_kind_filter,
    run_mode, workspace_library_members, RunMode,
};
use groxide::types::ItemKind;

fn cli() -> Cli {
    Cli {
        path: None,
        brief: false,
        docs: false,
        source: false,
        search: None,
        kind: None,
        private: false,
        json: false,
        impls: None,
        recursive: false,
        readme: false,
        manifest_path: None,
        features: Vec::new(),
        all_features: false,
        no_default_features: false,
        clear_cache: false,
    }
}

#[test]
fn run_mode_follows_flag_order() {
    let mut c = cli();
    assert_eq!(run_mode(&c, false), RunMode::Output);
    assert_eq!(run_mode(&c, true), RunMode::Workspace);
    c.source = true;
    assert_eq!(run_mode(&c, false), RunMode::Source);
    c.recursive = true;
    assert_eq!(run_mode(&c, false), RunMode::RecursiveSource);
    c.search = Some("spawn".to_string());
    assert_eq!(run_mode(&c, true), RunMode::Search);
    c.readme = true;
    assert_eq!(run_mode(&c, true), RunMode::Readme);
    c.clear_cache = true;
    assert_eq!(run_mode(&c, true), RunMode::ClearCache);
    let mut c = cli();
    c.path = Some("serde".to_string());
    assert_eq!(run_mode(&c, true), RunMode::Output);
}

#[test]
fn kind_filter_is_dropped_in_recursive_mode() {
    let mut c = cli();
    c.kind = Some(KindFilter::Fn);
    assert_eq!(resolution_kind_filter(&c), Some(ItemKind::Function));
    c.recursive = true;
    assert_eq!(resolution_kind_filter(&c), None);
}

#[test]
fn parent_path_drops_last_component() {
    assert_eq!(parent_path("/a/b/Cargo.toml").as_deref(), Some("/a/b"));
    assert_eq!(parent_path("/Cargo.toml").as_deref(), Some("/"));
    assert_eq!(parent_path("a/b").as_deref(), Some("a"));
    assert_eq!(parent_path("Cargo.toml").as_deref(), Some(""));
    assert_eq!(parent_path("/a//b/"), Some("/a".to_string()));
    assert_eq!(parent_path("/"), None);
    assert_eq!(parent_path(""), None);
}

#[test]
fn readme_dirs_per_source() {
    let current = CrateSource::CurrentCrate {
        manifest_path: "/w/member/Cargo.toml".to_string(),
        name: "member".to_string(),
        version: "0.1.0".to_string(),
    };
    assert_eq!(readme_dir(&current, None, None).unwrap(), "/w/member");
    assert_eq!(readme_dir(&current, Some("/w/Cargo.toml"), None).unwrap(), "/w");
    let dep = CrateSource::Dependency {
        manifest_path: "/reg/serde-1.0.0/Cargo.toml".to_string(),
        name: "serde".to_string(),
        version: "1.0.0".to_string(),
    };
    assert_eq!(readme_dir(&dep, None, None).unwrap(), "/reg/serde-1.0.0");
    let ext = CrateSource::External { name: "tokio".to_string(), version: None };
    assert_eq!(readme_dir(&ext, None, Some("/c")).unwrap(), "/c/groxide/tokio-latest");
    assert!(readme_dir(&ext, None, None).is_err());
    let std = CrateSource::Stdlib { name: "std".to_string() };
    match readme_dir(&std, None, Some("/c")) {
        Err(GroxError::ItemNotFound { query, crate_name, .. }) => {
            assert_eq!(query, "std README");
            assert_eq!(crate_name.as_deref(), Some("std"));
        }
        _ => panic!("expected ItemNotFound"),
    }
    assert!(matches!(readme_not_found("x"), GroxError::ItemNotFound { .. }));
}

#[test]
fn readme_candidates_in_order() {
    assert_eq!(
        readme_candidates("/w"),
        vec![
            "/w/README.md",
            "/w/README.MD",
            "/w/Readme.md",
            "/w/readme.md",
            "/w/README",
            "/w/README.txt"
        ]
    );
}

#[test]
fn workspace_lists_library_members_by_name() {
    let pkg = |name: &str, lib: bool| PackageInfo {
        name: name.to_string(),
        version: "0.1.0".to_string(),
        manifest_path: format!("/w/{name}/Cargo.toml"),
        has_lib: lib,
    };
    let ctx = ProjectContext {
        packages: vec![pkg("zeta", true), pkg("alpha", true), pkg("bin-only", false)],
        workspace_members: vec![0, 1, 2],
        current: 0,
        direct_deps: None,
        virtual_workspace: true,
    };
    assert_eq!(workspace_library_members(&ctx), vec![1, 0]);
}

use archetect_core::engine::{Archetect, RootedSystemLayout};
use archetect_core::error::SourceError;
use archetect_core::source::{
    get_cache_hash, get_cache_key, find_default_branch, checkout_spec_for, interpret_git_exit,
    plan_git_cache, verify_requirements, GitWork, Source, SourceResolution,
};

fn on_disk(path: &str) -> bool {
    std::path::Path::new(path).exists()
}

#[test]
fn test_cache_hash() {
    println!(
        "{}",
        get_cache_hash("https://raw.githubusercontent.com/archetect/archetect/master/LICENSE-MIT-MIT")
    );
    println!(
        "{}",
        get_cache_hash("https://raw.githubusercontent.com/archetect/archetect/master/LICENSE-MIT-MIT")
    );
    println!("{}", get_cache_hash("f"));
    println!("{}", get_cache_hash("1"));
}

#[test]
fn test_http_source() {
    let archetect = Archetect::build().unwrap();
    let source = Source::detect(
        &archetect,
        "https://raw.githubusercontent.com/archetect/archetect/master/LICENSE-MIT-MIT",
        None,
    );
    println!("{:?}", source);
}

#[test]
fn cache_key_is_deterministic_and_decimal() {
    let a = get_cache_key("github.com/example/repo.git");
    let b = get_cache_key("github.com/example/repo.git");
    assert_eq!(a, b);
    assert!(!a.is_empty());
    assert!(a.chars().all(|c| c.is_ascii_digit()));
    // The key is the decimal form of a 64-bit fingerprint, not the input.
    assert_ne!(a, "github.com/example/repo.git");
    let c = get_cache_key("github.com/example/other.git");
    assert_ne!(a, c);
}

#[test]
fn resolved_local_directory_exists() {
    let archetect = Archetect::build().unwrap();
    let resolved = Source::detect(&archetect, "/tmp", None).unwrap();
    match resolved {
        SourceResolution::Resolved(source) => {
            assert!(on_disk(source.local_path()));
        }
        other => panic!("expected a resolved local source, got {:?}", other),
    }
}

#[test]
fn missing_local_path_is_reported() {
    let archetect = Archetect::build().unwrap();
    let result = Source::detect(&archetect, "/tmp/no-such-archetype-entry-at-all", None);
    assert!(matches!(result, Err(SourceError::SourceNotFound(_))));
}

#[test]
fn offline_git_source_with_empty_cache_fails() {
    let layout = RootedSystemLayout::new("/tmp/scaffolding-test-cache-that-is-never-created").unwrap();
    let archetect = Archetect::builder()
        .with_layout(layout)
        .with_offline(true)
        .build()
        .unwrap();
    let result = Source::detect(&archetect, "git@github.com:example/repo.git", None);
    match result {
        Err(SourceError::OfflineAndNotCached(url)) => {
            assert_eq!(&url, "git@github.com:example/repo.git");
        }
        other => panic!("expected an offline cache miss, got {:?}", other),
    }
}

#[test]
fn offline_https_git_source_with_empty_cache_fails() {
    let layout = RootedSystemLayout::new("/tmp/scaffolding-test-cache-that-is-never-created").unwrap();
    let archetect = Archetect::builder()
        .with_layout(layout)
        .with_offline(true)
        .build()
        .unwrap();
    let result = Source::detect(&archetect, "https://github.com/example/repo.git#develop", None);
    match result {
        Err(SourceError::OfflineAndNotCached(url)) => {
            assert_eq!(&url, "https://github.com/example/repo.git#develop");
        }
        other => panic!("expected an offline cache miss, got {:?}", other),
    }
}

#[test]
fn git_cache_plan_covers_all_cases() {
    assert!(matches!(plan_git_cache("u", false, false, false), Ok(Some(GitWork::CloneRepo))));
    assert!(matches!(plan_git_cache("u", true, false, false), Ok(Some(GitWork::FetchRepo))));
    assert!(matches!(plan_git_cache("u", true, true, false), Ok(None)));
    assert!(matches!(plan_git_cache("u", true, false, true), Ok(None)));
    match plan_git_cache("git@host:x", false, true, false) {
        Err(SourceError::OfflineAndNotCached(u)) => assert_eq!(&u, "git@host:x"),
        other => panic!("expected an offline cache miss, got {:?}", other),
    }
}

#[test]
fn default_branch_order_is_develop_main_master() {
    assert_eq!(&find_default_branch(true, true, true).unwrap(), "develop");
    assert_eq!(&find_default_branch(false, true, true).unwrap(), "main");
    assert_eq!(&find_default_branch(false, false, true).unwrap(), "master");
    assert!(matches!(
        find_default_branch(false, false, false),
        Err(SourceError::NoDefaultBranch)
    ));
}

#[test]
fn checkout_refspec_prefixes_remote_branches() {
    assert_eq!(&checkout_spec_for("develop", true), "origin/develop");
    assert_eq!(&checkout_spec_for("v1.2.3", false), "v1.2.3");
}

#[test]
fn git_exit_interpretation() {
    assert!(interpret_git_exit(Some(0), "").is_ok());
    match interpret_git_exit(Some(128), "fatal: not a repository") {
        Err(SourceError::RemoteSourceError(m)) => {
            assert_eq!(&m, "Error Code: 128\nfatal: not a repository");
        }
        other => panic!("expected a remote source error, got {:?}", other),
    }
    match interpret_git_exit(None, "") {
        Err(SourceError::RemoteSourceError(m)) => {
            assert_eq!(&m, "Git interrupted by signal");
        }
        other => panic!("expected a remote source error, got {:?}", other),
    }
}

#[test]
fn requirements_gate() {
    let archetect = Archetect::build().unwrap();
    assert!(verify_requirements(&archetect, "here", None).is_ok());
    assert!(verify_requirements(&archetect, "here", Some(">=0.1.0")).is_ok());
    match verify_requirements(&archetect, "here", Some(">=99.0.0")) {
        Err(SourceError::RequirementsError { path, .. }) => assert_eq!(&path, "here"),
        other => panic!("expected a requirements error, got {:?}", other),
    }
    assert!(matches!(
        verify_requirements(&archetect, "here", Some("not a constraint ###")),
        Err(SourceError::RequirementsError { .. })
    ));
}

#[test]
fn tilde_expansion_resolves_home() {
    let archetect = Archetect::build().unwrap();
    // "~" expands to the user's home directory, which exists; an unexpanded
    // "~" would be a missing relative path instead.
    let result = Source::detect(&archetect, "~", None);
    match result {
        Ok(SourceResolution::Resolved(source)) => {
            assert!(on_disk(source.local_path()));
            assert_ne!(source.local_path(), "~");
        }
        other => panic!("expected the home directory to resolve, got {:?}", other),
    }
}

#[test]
fn source_directory_of_a_file_is_its_parent() {
    let source = Source::LocalFile { path: "/tmp/somewhere/file.txt".to_string() };
    assert_eq!(&source.directory(), "/tmp/somewhere");
    assert_eq!(source.local_path(), "/tmp/somewhere/file.txt");
    assert_eq!(source.source(), "/tmp/somewhere/file.txt");

    let at_root = Source::LocalFile { path: "/file.txt".to_string() };
    assert_eq!(&at_root.directory(), "/");
}

#[test]
fn relative_path_to_file_under_parent_is_a_local_file() {
    let archetect = Archetect::build().unwrap();
    let parent = Source::LocalDirectory { path: "/etc".to_string() };
    let result = Source::detect(&archetect, "passwd", Some(&parent));
    match result {
        Ok(SourceResolution::Resolved(Source::LocalFile { path })) => {
            assert_eq!(&path, "/etc/passwd");
        }
        other => panic!("expected a local file under the parent, got {:?}", other),
    }
}

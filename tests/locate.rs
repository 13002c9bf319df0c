use kragle::cache::{fetch_decision, is_fresh, CacheDecision};
use kragle::names::{doc_format, is_explicit_path, is_remote, share_candidate, DocFormat};
use kragle::repo::Repo;

#[test]
fn explicit_paths_are_kept() {
    for uri in ["/abs/a.yaml", "./rel.json", ".\\win.yml"] {
        assert!(is_explicit_path(uri));
        assert_eq!(
            Repo::whereis(&uri.to_string(), Some("ignored".to_string())),
            uri
        );
    }
}

#[test]
fn share_directory_file_is_used_when_present() {
    let hit = share_candidate(&"/usr/share/kragle".to_string(), &"rust".to_string());
    assert_eq!(hit, "/usr/share/kragle/rust");
    assert_eq!(Repo::whereis(&"rust".to_string(), Some(hit.clone())), hit);
}

#[test]
fn short_reference_falls_back_to_published_location() {
    assert_eq!(
        Repo::whereis(&"rust".to_string(), None),
        "https://github.com/Jxtopher/kragle/blob/main/kraglefile/rust.yaml?raw=true"
    );
}

#[test]
fn remote_references() {
    assert!(is_remote("http://example.com/a.yaml"));
    assert!(is_remote("https://example.com/a"));
    assert!(!is_remote("ftp://example.com/a"));
    assert!(!is_remote("http:/x"));
    assert!(!is_remote("./https://x"));
}

#[test]
fn document_format_by_extension() {
    assert!(matches!(doc_format("a.json"), Some(DocFormat::Json)));
    assert!(matches!(doc_format("a.yaml"), Some(DocFormat::Yaml)));
    assert!(matches!(doc_format("dir/a.yml"), Some(DocFormat::Yaml)));
    assert!(doc_format("a.toml").is_none());
    assert!(doc_format("json").is_none());
}

#[test]
fn cache_key_of_uri() {
    assert_eq!(
        kragle::cache::cache_key("https://example.com/helloworld.txt"),
        "51c330cea8883b5c48a58b7e9676ffe0"
    );
}

#[test]
fn cache_freshness_and_decisions() {
    assert!(is_fresh(0));
    assert!(is_fresh(86399));
    assert!(!is_fresh(86400));
    assert!(matches!(
        fetch_decision(true, "local.yaml"),
        CacheDecision::UseCached
    ));
    assert!(matches!(
        fetch_decision(false, "https://example.com/a"),
        CacheDecision::Fetch
    ));
    assert!(matches!(
        fetch_decision(false, "local.yaml"),
        CacheDecision::Refuse
    ));
}

use pop_common::binary::{Binary, Error, Sourcing};
use pop_common::source::{GitHub, Source};
use pop_common::version::{parse_version, pick};
use std::cmp::Ordering;
use std::path::PathBuf;

const CACHE: &str = "/nonexistent/pop-cache";

fn cache_join(part: &str) -> String {
    PathBuf::from(CACHE).join(part).to_string_lossy().into_owned()
}

fn release_archive(tag: Option<&str>, latest: Option<&str>) -> Binary {
    let contents = ["polkadot", "polkadot-execute-worker", "polkadot-prepare-worker"];
    Binary::Source {
        name: "polkadot".to_string(),
        source: Source::GitHub(GitHub::ReleaseArchive {
            owner: "r0gue-io".into(),
            repository: "polkadot".into(),
            tag: tag.map(|t| t.to_string()),
            tag_format: Some("polkadot-{tag}".to_string()),
            archive: "polkadot-aarch64-apple-darwin.tar.gz".to_string(),
            contents: contents.into_iter().map(|b| (b.to_string(), None)).collect(),
            latest: latest.map(|l| l.to_string()),
        }),
        cache: CACHE.to_string(),
    }
}

#[test]
fn local_binary_works() {
    let name = "polkadot";
    let path = cache_join(name);
    let binary = Binary::Local { name: name.to_string(), path: path.clone(), manifest: None };

    assert!(!binary.is_present());
    assert_eq!(binary.latest(), None);
    assert!(binary.local());
    assert_eq!(binary.name(), name);
    assert_eq!(binary.path(), path);
    assert!(!binary.stale());
    assert_eq!(binary.version(), None);
}

#[test]
fn local_package_works() {
    let name = "polkadot";
    let path = PathBuf::from(CACHE).join("target/release").join(name);
    let path = path.to_string_lossy().into_owned();
    let manifest = Some(cache_join("Cargo.toml"));
    let binary = Binary::Local { name: name.to_string(), path: path.clone(), manifest };

    assert_eq!(binary.latest(), None);
    assert!(binary.local());
    assert_eq!(binary.name(), name);
    assert_eq!(binary.path(), path);
    assert!(!binary.stale());
    assert_eq!(binary.version(), None);
}

#[test]
fn resolve_version_works() {
    let name = "polkadot";
    let available =
        vec!["polkadot-stable2409", "v1.13.0", "polkadot-stable2407", "v1.12.0", "v1.11.0"];

    // Specified
    let specified = Some("v1.12.0");
    assert_eq!(
        Binary::resolve_version(name, specified, &available, CACHE).unwrap(),
        specified.unwrap()
    );

    // Latest
    let latest = Binary::resolve_version(name, None, &available, CACHE).unwrap();
    assert!(latest.starts_with("polkadot-stable") || latest.starts_with('v'));
    assert_eq!(latest, *available.first().unwrap());
}

#[test]
fn compare_versions_works() {
    assert_eq!(Binary::compare_versions("v1.13.0", "v1.12.0"), Ordering::Greater);
    assert_eq!(Binary::compare_versions("v1.12.0", "v1.13.0"), Ordering::Less);
    assert_eq!(
        Binary::compare_versions("polkadot-stable2409", "polkadot-stable2407"),
        Ordering::Greater
    );
    assert_eq!(
        Binary::compare_versions("polkadot-stable2407", "polkadot-stable2409"),
        Ordering::Less
    );
    assert_eq!(Binary::compare_versions("polkadot-stable2409", "v1.13.0"), Ordering::Greater);
    assert_eq!(Binary::compare_versions("v1.13.0", "polkadot-stable2409"), Ordering::Less);
    assert_eq!(Binary::compare_versions("v1.13.0", "v1.13.0"), Ordering::Equal);
    assert_eq!(
        Binary::compare_versions("polkadot-stable2409", "polkadot-stable2409"),
        Ordering::Equal
    );
}

#[test]
fn sourced_from_archive_works() {
    let name = "polkadot";
    let url = "https://github.com/r0gue-io/polkadot/releases/latest/download/polkadot-aarch64-apple-darwin.tar.gz".to_string();
    let contents =
        vec![name.to_string(), "polkadot-execute-worker".into(), "polkadot-prepare-worker".into()];
    let mut binary = Binary::Source {
        name: name.to_string(),
        source: Source::Archive { url, contents },
        cache: CACHE.to_string(),
    };

    assert_eq!(binary.latest(), None);
    assert!(!binary.local());
    assert_eq!(binary.name(), name);
    assert_eq!(binary.path(), cache_join(name));
    assert!(!binary.stale());
    assert_eq!(binary.version(), None);
    binary.use_latest();
    assert_eq!(binary.version(), None);
}

#[test]
fn sourced_from_git_works() {
    let package = "hello_world";
    for reference in [None, Some("436b7dbffdfaaf7ad90bf44ae8fdcb17eeee65a3".to_string())] {
        let path = cache_join(
            &reference
                .as_ref()
                .map_or(package.into(), |reference| format!("{package}-{reference}")),
        );
        let mut binary = Binary::Source {
            name: package.to_string(),
            source: Source::Git {
                url: "https://github.com/hpaluch/rust-hello-world".to_string(),
                reference: reference.clone(),
                manifest: None,
                package: package.to_string(),
                artifacts: vec![package.to_string()],
            },
            cache: CACHE.to_string(),
        };

        assert_eq!(binary.latest(), None);
        assert!(!binary.local());
        assert_eq!(binary.name(), package);
        assert_eq!(binary.path(), path);
        assert!(!binary.stale());
        assert_eq!(binary.version(), reference.as_deref());
        binary.use_latest();
        assert_eq!(binary.version(), reference.as_deref());
    }
}

#[test]
fn sourced_from_github_release_archive_works() {
    let name = "polkadot";
    for tag in [None, Some("v1.12.0")] {
        let path = cache_join(&tag.map_or(name.to_string(), |t| format!("{name}-{t}")));
        for latest in [None, Some("v2.0.0")] {
            let mut binary = release_archive(tag, latest);

            assert_eq!(binary.latest(), latest);
            assert!(!binary.local());
            assert_eq!(binary.name(), name);
            assert_eq!(binary.path(), path);
            assert_eq!(binary.stale(), tag.is_some() && latest.is_some());
            assert_eq!(binary.version(), tag);
            binary.use_latest();
            if latest.is_some() {
                assert_eq!(binary.version(), latest);
            }
        }
    }
}

#[test]
fn sourced_from_github_source_code_archive_works() {
    let package = "polkadot";
    for reference in [None, Some("72dba98250a6267c61772cd55f8caf193141050f".to_string())] {
        let path =
            cache_join(&reference.as_ref().map_or(package.to_string(), |t| format!("{package}-{t}")));
        let mut binary = Binary::Source {
            name: package.to_string(),
            source: Source::GitHub(GitHub::SourceCodeArchive {
                owner: "paritytech".to_string(),
                repository: "polkadot-sdk".to_string(),
                reference: reference.clone(),
                manifest: Some("substrate/Cargo.toml".to_string()),
                package: package.to_string(),
                artifacts: vec![package.to_string()],
            }),
            cache: CACHE.to_string(),
        };

        assert_eq!(binary.latest(), None);
        assert!(!binary.local());
        assert_eq!(binary.name(), package);
        assert_eq!(binary.path(), path);
        assert_eq!(binary.stale(), false);
        assert_eq!(binary.version(), reference.as_deref());
        binary.use_latest();
        assert_eq!(binary.version(), reference.as_deref());
    }
}

#[test]
fn sourced_from_url_works() {
    let name = "polkadot";
    let url = "https://github.com/paritytech/polkadot-sdk/releases/latest/download/polkadot.asc";
    let mut binary = Binary::Source {
        name: name.to_string(),
        source: Source::Url { url: url.to_string(), name: name.to_string() },
        cache: CACHE.to_string(),
    };

    assert_eq!(binary.latest(), None);
    assert!(!binary.local());
    assert_eq!(binary.name(), name);
    assert_eq!(binary.path(), cache_join(name));
    assert!(!binary.stale());
    assert_eq!(binary.version(), None);
    binary.use_latest();
    assert_eq!(binary.version(), None);
}

#[test]
fn sourcing_from_local_binary_not_supported() {
    let name = "polkadot".to_string();
    let path = PathBuf::from(CACHE).join(&name);
    let binary =
        Binary::Local { name, path: path.to_string_lossy().into_owned(), manifest: None };
    assert!(matches!(
        binary.source(true, true),
        Err(Error::MissingBinary(error)) if error == format!("The {path:?} binary cannot be sourced automatically.")
    ));
}

#[test]
fn sourcing_from_local_package_works() {
    let name = "hello_world";
    let manifest = cache_join("hello_world/Cargo.toml");
    let path = cache_join("hello_world/target/release/hello_world");
    let binary =
        Binary::Local { name: name.to_string(), path, manifest: Some(manifest.clone()) };
    assert_eq!(
        binary.source(true, false),
        Ok(Sourcing::Build { manifest, name: name.to_string(), release: true, verbose: false })
    );
}

#[test]
fn sourcing_from_url_works() {
    let name = "polkadot";
    let url = "https://github.com/paritytech/polkadot-sdk/releases/latest/download/polkadot.asc";
    let source = Source::Url { url: url.to_string(), name: name.to_string() };
    let binary =
        Binary::Source { name: name.to_string(), source: source.clone(), cache: CACHE.to_string() };
    assert_eq!(
        binary.source(false, true),
        Ok(Sourcing::Fetch {
            source: &source,
            cache: CACHE.to_string(),
            target: cache_join(name),
            release: false,
            verbose: true,
        })
    );
}

#[test]
fn fetch_target_is_versioned_path() {
    let binary = release_archive(Some("v1.12.0"), Some("v2.0.0"));
    let target = cache_join("polkadot-v1.12.0");
    assert_eq!(binary.path(), target);
    assert_eq!(Binary::cache_file(CACHE, "polkadot", "v1.12.0"), target);
    let Binary::Source { source, .. } = &binary else { unreachable!() };
    assert_eq!(
        binary.source(true, true),
        Ok(Sourcing::Fetch {
            source,
            cache: CACHE.to_string(),
            target,
            release: true,
            verbose: true,
        })
    );
}

#[test]
fn use_latest_moves_tag_and_clears_staleness() {
    let mut binary = release_archive(Some("v1.0.0"), Some("v2.0.0"));
    assert!(binary.stale());
    binary.use_latest();
    assert_eq!(binary.version(), Some("v2.0.0"));
    assert!(!binary.stale());
    assert_eq!(binary.path(), cache_join("polkadot-v2.0.0"));
    let once = binary.clone();
    binary.use_latest();
    assert_eq!(binary, once);
}

#[test]
fn release_archive_without_latest_is_never_stale() {
    let mut binary = release_archive(Some("v1.0.0"), None);
    assert!(!binary.stale());
    let before = binary.clone();
    binary.use_latest();
    assert_eq!(binary, before);
    let untagged = release_archive(None, Some("v2.0.0"));
    assert!(!untagged.stale());
}

#[test]
fn release_archive_staleness_needs_both_tags() {
    assert!(!release_archive(None, None).stale());
    assert!(!release_archive(Some("v1.0.0"), None).stale());
    assert!(!release_archive(None, Some("v2.0.0")).stale());
    assert!(!release_archive(Some("v2.0.0"), Some("v2.0.0")).stale());
    assert!(release_archive(Some("v1.0.0"), Some("v2.0.0")).stale());
}

#[test]
fn cache_file_joins_name_and_version() {
    assert_eq!(Binary::cache_file("/tmp/c", "polkadot", "v1.12.0"), "/tmp/c/polkadot-v1.12.0");
    assert_eq!(Binary::cache_file("/tmp/c/", "hello", "abc"), "/tmp/c/hello-abc");
}

#[test]
fn local_binary_stays_put() {
    let mut binary = Binary::Local {
        name: "polkadot".to_string(),
        path: "/usr/bin/polkadot".to_string(),
        manifest: None,
    };
    let before = binary.clone();
    binary.use_latest();
    assert_eq!(binary, before);
    assert!(!binary.stale());
}

#[test]
fn is_present_asks_the_file_system() {
    let root = Binary::Local { name: "root".to_string(), path: "/".to_string(), manifest: None };
    assert!(root.is_present());
    let missing =
        Binary::Local { name: "x".to_string(), path: cache_join("x"), manifest: None };
    assert!(!missing.is_present());
}

#[test]
fn parse_version_reads_both_families() {
    assert_eq!(parse_version("v1.13.0"), (Some(1), Some(13)));
    assert_eq!(parse_version("v7"), (Some(7), None));
    assert_eq!(parse_version("v.5"), (None, Some(5)));
    assert_eq!(parse_version("v+2.x"), (Some(2), None));
    assert_eq!(parse_version("polkadot-stable2409"), (Some(24), Some(9)));
    assert_eq!(parse_version("polkadot-stable7"), (Some(0), Some(7)));
    assert_eq!(parse_version("polkadot-stable24x"), (None, None));
    assert_eq!(parse_version("v99999999999.1"), (None, Some(1)));
    assert_eq!(parse_version("release-1"), (None, None));
    assert_eq!(parse_version(""), (None, None));
}

#[test]
fn compare_versions_edge_cases() {
    // An absent minor ranks lowest.
    assert_eq!(Binary::compare_versions("v1", "v1.0"), Ordering::Less);
    // Equal numbers rank equal even where the texts differ.
    assert_eq!(Binary::compare_versions("v1.13.0", "v1.13.5"), Ordering::Equal);
    // Unparsed references fall back to text order.
    assert_eq!(Binary::compare_versions("abc", "abd"), Ordering::Less);
    assert_eq!(Binary::compare_versions("main", "main"), Ordering::Equal);
    assert_eq!(Binary::compare_versions("ab", "a"), Ordering::Greater);
    // A parsed reference ranks above an unparsed one.
    assert_eq!(Binary::compare_versions("v0.1", "zzz"), Ordering::Greater);
    assert_eq!(Binary::compare_versions("zzz", "v0.1"), Ordering::Less);
}

#[test]
fn pick_prefers_cached_versions() {
    let available =
        vec!["polkadot-stable2409", "v1.13.0", "polkadot-stable2407", "v1.12.0", "v1.11.0"];
    assert_eq!(pick(&available, &vec![false; 5]).as_deref(), Some("polkadot-stable2409"));
    assert_eq!(
        pick(&available, &vec![false, false, false, true, false]).as_deref(),
        Some("v1.12.0")
    );
    assert_eq!(
        pick(&available, &vec![true, false, false, true, false]).as_deref(),
        Some("polkadot-stable2409")
    );
    assert_eq!(
        pick(&available, &vec![false, true, false, true, true]).as_deref(),
        Some("v1.13.0")
    );
    // A shorter list of marks leaves the rest uncached.
    assert_eq!(pick(&available, &vec![false, false]).as_deref(), Some("polkadot-stable2409"));
}

#[test]
fn pick_sorts_unsorted_lists() {
    let available = vec!["v1.11.0", "v1.12.0", "polkadot-stable2407", "main", "v1.13.0"];
    assert_eq!(pick(&available, &vec![]).as_deref(), Some("polkadot-stable2407"));
    assert_eq!(pick(&available, &vec![true, true, false, false, false]).as_deref(), Some("v1.12.0"));
    // Equally ranked versions: the first listed wins.
    let tied = vec!["v1.13.0", "v1.13.7"];
    assert_eq!(pick(&tied, &vec![]).as_deref(), Some("v1.13.0"));
}

#[test]
fn resolve_version_of_empty_list_is_none() {
    let available: Vec<&str> = vec![];
    assert_eq!(Binary::resolve_version("polkadot", None, &available, CACHE), None);
    assert_eq!(
        Binary::resolve_version("polkadot", Some("v9.9.9"), &available, CACHE).as_deref(),
        Some("v9.9.9")
    );
}

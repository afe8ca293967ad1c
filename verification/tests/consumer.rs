use localbench::consumer::{
    assert_launcher_usable, ensure_gguf_on_disk, fetched_gguf, own_version, version_at_least,
    DownloadKind, DownloadTarget, LauncherError, Preflight, ProgressLog, API_VERSION,
    LAUNCHER_EXPORT_VERSION, TUNING_DOWNLOADS, VERSION,
};

fn targets(present: bool) -> Vec<DownloadTarget> {
    vec![
        DownloadTarget {
            kind: DownloadKind::Module,
            present: false,
            path: "vis/mmproj-Q8_0.gguf".to_string(),
        },
        DownloadTarget {
            kind: DownloadKind::Gguf,
            present,
            path: "vis/vis.gguf".to_string(),
        },
        DownloadTarget {
            kind: DownloadKind::Module,
            present: false,
            path: "vis/vis-draft.gguf".to_string(),
        },
    ]
}

#[test]
fn a_present_gguf_is_returned_without_touching_the_configured_modules() {
    let step = ensure_gguf_on_disk("vis", Ok(targets(true))).unwrap();
    assert_eq!(step, Preflight::Ready("vis/vis.gguf".to_string()));
    assert_eq!(TUNING_DOWNLOADS, DownloadKind::Gguf);
}

#[test]
fn a_missing_gguf_is_fetched_as_the_only_kind_and_its_path_returned() {
    let step = ensure_gguf_on_disk("vis", Ok(targets(false))).unwrap();
    match step {
        Preflight::Fetch(line) => {
            assert_eq!(line, "GGUF not on disk — downloading vis/vis.gguf …")
        }
        other => panic!("{other:?}"),
    }
    let fetched = fetched_gguf("vis", Ok(vec!["vis/vis.gguf".to_string()]));
    assert_eq!(fetched.line, Some("Download complete.".to_string()));
    assert_eq!(fetched.outcome, Ok("vis/vis.gguf".to_string()));
}

#[test]
fn a_failed_download_propagates_and_never_claims_completion() {
    let fetched = fetched_gguf("vis", Err("download failed: 503".to_string()));
    assert!(fetched.outcome.unwrap_err().contains("503"));
    assert_eq!(fetched.line, None);
}

#[test]
fn a_download_that_brings_nothing_is_an_error() {
    let fetched = fetched_gguf("vis", Ok(vec![]));
    assert_eq!(
        fetched.outcome,
        Err("vis: the download reported success but produced no GGUF".to_string())
    );
}

#[test]
fn an_unknown_model_fails_before_any_download() {
    let error = ensure_gguf_on_disk("nope", Err("unknown model nope".to_string())).unwrap_err();
    assert!(error.contains("nope"), "{error}");
    let error = ensure_gguf_on_disk("nope", Ok(vec![])).unwrap_err();
    assert_eq!(error, "nope names no GGUF file to tune");
}

#[test]
fn download_progress_says_one_line_per_step() {
    let mut log = ProgressLog::new();
    assert_eq!(
        log.report(7, Some(7), "7 B", "7 B"),
        Some("  7 B / 7 B (100%)".to_string())
    );
    assert_eq!(log.report(7, Some(7), "7 B", "7 B"), None);

    let mut log = ProgressLog::new();
    assert_eq!(
        log.report(0, Some(1000), "0 B", "1000 B"),
        Some("  0 B / 1000 B (0%)".to_string())
    );
    // Still below the next 5%.
    assert_eq!(log.report(49, Some(1000), "49 B", "1000 B"), None);
    assert_eq!(
        log.report(50, Some(1000), "50 B", "1000 B"),
        Some("  50 B / 1000 B (5%)".to_string())
    );

    // Without a total: one line per 512 MiB.
    let mut log = ProgressLog::new();
    assert_eq!(log.report(1, None, "1 B", ""), Some("  1 B".to_string()));
    assert_eq!(log.report(536_870_911, None, "512 MiB", ""), None);
    assert_eq!(
        log.report(536_870_912, None, "512 MiB", ""),
        Some("  512 MiB".to_string())
    );
    // A total of zero and counts near the limit do not trip it.
    assert!(log.report(u64::MAX, Some(0), "x", "y").is_some());
    assert!(log.report(u64::MAX, Some(u64::MAX), "x", "y").is_some());
}

#[test]
fn our_own_envelope_passes_the_reverse_gate() {
    let envelope = own_version("1.2.1", "LocalBox", "llamacpp");
    assert_eq!(envelope.api_version, 1);
    assert!(envelope.launcher_export_version >= 1);
    assert_eq!(envelope.version, VERSION);
    assert_eq!(envelope.supported_targets, ["LocalBox", "LocalLLMLauncher"]);
    assert_eq!(envelope.supported_runtimes, ["llamacpp"]);
    assert_eq!((API_VERSION, LAUNCHER_EXPORT_VERSION), (1, 3));
}

#[test]
fn the_usability_gate_checks_version_floor_then_triple() {
    let version = own_version("1.2.1", "LocalBox", "llamacpp");
    assert!(assert_launcher_usable(&version, "1.0.0", Ok(())).is_ok());
    assert!(assert_launcher_usable(&version, "1.2.1", Ok(())).is_ok());
    let LauncherError::Incompatible(message) =
        assert_launcher_usable(&version, "1.3.0", Ok(())).unwrap_err();
    assert!(message.contains("below required 1.3.0"));
    assert_eq!(message, "launcher 1.2.1 is below required 1.3.0");
    // The floor is reported before the triple, and the triple after it.
    let LauncherError::Incompatible(message) =
        assert_launcher_usable(&version, "1.3.0", Err("api".to_string())).unwrap_err();
    assert!(message.contains("below required"));
    let LauncherError::Incompatible(message) =
        assert_launcher_usable(&version, "1.0.0", Err("api_version 0".to_string())).unwrap_err();
    assert_eq!(message, "api_version 0");
}

#[test]
fn dotted_version_comparison_reads_numerically() {
    assert!(version_at_least("1.10.0", "1.9.9"));
    assert!(!version_at_least("1.9.9", "1.10.0"));
    assert!(version_at_least("2.0", "2.0.0"));
    assert!(version_at_least("1.2.1-beta.3", "1.2.1"));
}

#[test]
fn versions_are_ordered_and_missing_segments_read_as_zero() {
    assert!(version_at_least("2.0.0", "2.0") && version_at_least("2.0", "2.0.0"));
    assert!(version_at_least("", "") && version_at_least("", "0.0"));
    assert!(!version_at_least("", "0.0.1"));
    // What does not read as a number ends the version.
    assert!(!version_at_least("1.x.9", "1.0.1"));
    assert!(version_at_least("1.2.3+build.7", "1.2.3"));
    // Transitive.
    assert!(version_at_least("3", "2.9") && version_at_least("2.9", "2"));
    assert!(version_at_least("3", "2"));
}

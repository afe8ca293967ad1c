use localbench::export::{
    export_best_config, same_slot, validated_store, ExportError, ExportProvenance, ExportWinner,
    StorePaths, Validation,
};
use localbench::json::Json;
use std::path::{Path, PathBuf};

fn json(text: &str) -> Json {
    Json::read(text).unwrap()
}

fn winner(quant: &str, score: &str, vision: bool) -> ExportWinner {
    let entry = format!(
        r#"{{"quant":"{quant}","contextKey":"fast","contextTokens":65536,"mode":"turboquant",
            "vramGB":24,"prompt_length":"short","profile":"pure","searchStrategy":"beam",
            "beamWidth":3,"score":{score},"tuner_version":5}}"#
    );
    ExportWinner {
        quant: quant.to_string(),
        context_key: "fast".to_string(),
        mode: "turboquant".to_string(),
        vram_gb: 24,
        prompt_length: "short".to_string(),
        profile: "pure".to_string(),
        vision,
        entry: json(&entry),
    }
}

fn provenance() -> ExportProvenance {
    ExportProvenance {
        localbench_version: "1.2.1".to_string(),
        launcher_export_version: 3,
        measured_at: "2026-07-01T00:00:00Z".to_string(),
    }
}

fn export(existing: Option<&str>, winner: &ExportWinner) -> String {
    let document =
        export_best_config(existing, "best-q36.json", "q36", 2, winner, &provenance()).unwrap();
    validated_store(
        &document,
        2,
        Validation::Read {
            schema: 2,
            supported: true,
        },
    )
    .unwrap()
}

fn entries(store: &str) -> Vec<Json> {
    json(store).get("entries").unwrap().items()
}

#[test]
fn a_fresh_store_validates_against_the_shared_schema() {
    let raw = export(None, &winner("apex", "396.67", false));
    assert!(raw.starts_with('{'), "no BOM");
    let value: serde_json::Value = serde_json::from_str(&raw).unwrap();
    assert_eq!(value["key"], "q36");
    assert_eq!(value["schema"], 2);
    assert_eq!(value["entries"].as_array().unwrap().len(), 1);
    assert_eq!(value["entries"][0]["score"], 396.67);
    assert_eq!(value["entries"][0]["searchStrategy"], "beam");
    assert_eq!(value["entries"][0]["beamWidth"], 3);
    // Provenance fields survive alongside the shared shape.
    assert_eq!(value["schema_version"], "localbox-autobest-v1");
    assert_eq!(value["source"], "localbench");
    assert_eq!(value["entries"][0]["launcher_export_version"], 3);
    assert_eq!(value["entries"][0]["vision"], false);
    assert_eq!(value["entries"][0]["measured_at"], "2026-07-01T00:00:00Z");
}

#[test]
fn a_current_retune_replaces_its_version_four_slot_but_preserves_other_slots() {
    let store = export(None, &winner("apex", "300.0", false));
    // A different quant lands in its own slot.
    let store = export(Some(&store), &winner("compact", "250.0", false));
    let stale = store.replace("\"tuner_version\": 5", "\"tuner_version\": 4");
    assert_ne!(stale, store);

    // Re-tuning the first slot replaces its stale entry, not appends, while an
    // unrelated stale slot remains available for explicit migration.
    let store = export(Some(&stale), &winner("apex", "310.0", false));
    let entries = entries(&store);
    assert_eq!(entries.len(), 2);
    let find = |quant: &str| {
        entries
            .iter()
            .find(|e| e.text_at("quant") == Some(quant.to_string()))
            .unwrap()
    };
    assert_eq!(find("apex").get("score"), json("[310.0]").items().first());
    assert_eq!(find("apex").get("tuner_version"), Some(&Json::Unsigned(5)));
    assert_eq!(find("compact").get("tuner_version"), Some(&Json::Unsigned(4)));
}

#[test]
fn vision_and_text_profiles_never_overwrite_each_other() {
    let store = export(None, &winner("apex", "300.0", false));
    let store = export(Some(&store), &winner("apex", "250.0", true));
    let entries = entries(&store);
    assert_eq!(entries.len(), 2, "vision + text coexist for one quant");
    assert!(entries
        .iter()
        .any(|e| e.get("vision") == Some(&Json::Bool(true))));
    assert!(entries
        .iter()
        .any(|e| e.get("vision") == Some(&Json::Bool(false))));
}

#[test]
fn exporting_the_same_winner_again_changes_no_entry() {
    let once = export(None, &winner("apex", "300.0", false));
    assert_eq!(export(Some(&once), &winner("apex", "300.0", false)), once);
}

#[test]
fn an_unreadable_existing_store_is_never_clobbered() {
    for raw in ["{ corrupt", "[1, 2]", "7"] {
        let err = export_best_config(
            Some(raw),
            "best-q36.json",
            "q36",
            2,
            &winner("apex", "300.0", false),
            &provenance(),
        )
        .unwrap_err();
        match &err {
            ExportError::UnreadableStore { path, reason } => {
                assert_eq!(path, "best-q36.json");
                assert!(!reason.is_empty() && reason != raw);
            }
            other => panic!("{other:?}"),
        }
        assert!(err
            .message()
            .starts_with("could not read existing launcher profile at best-q36.json: "));
    }
}

#[test]
fn unknown_provenance_survives_and_absent_fields_read_as_their_defaults() {
    let old = r#"{"note":"kept","entries":[
        {"quant":"apex","contextKey":"fast","mode":"turboquant","vramGB":24,"score":1.0},
        {"quant":"apex","contextKey":"fast","mode":"turboquant","vramGB":16,"score":2.0}]}"#;
    let legacy = json(old).get("entries").unwrap().items();
    // Neither prompt length, profile nor vision is named: short, pure, text.
    assert!(same_slot(&legacy[0], &winner("apex", "1.0", false)));
    assert!(!same_slot(&legacy[0], &winner("apex", "1.0", true)));
    assert!(!same_slot(&legacy[1], &winner("apex", "1.0", false)));
    let store = export(Some(old), &winner("apex", "3.0", false));
    assert_eq!(json(&store).text_at("note"), Some("kept".to_string()));
    assert_eq!(entries(&store).len(), 2);
}

#[test]
fn only_a_document_that_round_trips_is_written() {
    let document = export_best_config(
        None,
        "p",
        "q36",
        2,
        &winner("apex", "300.0", false),
        &provenance(),
    )
    .unwrap();
    assert_eq!(
        validated_store(&document, 2, Validation::Invalid("missing field".to_string())),
        Err(ExportError::SchemaInvalid("missing field".to_string()))
    );
    let err = validated_store(
        &document,
        2,
        Validation::Read {
            schema: 9,
            supported: false,
        },
    )
    .unwrap_err();
    assert_eq!(
        err.message(),
        "the merged store does not validate against the tuner schema: schema 9 is not the \
         supported 2"
    );
    assert_eq!(
        ExportError::Io("disk full".to_string()).message(),
        "could not write launcher profile: disk full"
    );
}

#[test]
fn store_paths_follow_the_on_disk_conventions() {
    let paths = StorePaths::new("/home/x/.local-llm");
    assert!(Path::new(&paths.best_config("q36"))
        .ends_with(PathBuf::from("tuner").join("best-q36.json")));
    assert!(Path::new(&paths.trial_cache("q36", "fast"))
        .ends_with(PathBuf::from("tuner").join("trial-cache-q36-fast.json")));
    assert!(Path::new(&paths.trial_cache("q36", ""))
        .ends_with(PathBuf::from("tuner").join("trial-cache-q36.json")));
    assert_eq!(
        paths.best_config("q36"),
        "/home/x/.local-llm/tuner/best-q36.json"
    );
    assert_eq!(
        StorePaths::new("/r/").best_config("k"),
        "/r/tuner/best-k.json"
    );
    assert_eq!(StorePaths::new("").best_config("k"), "tuner/best-k.json");
}

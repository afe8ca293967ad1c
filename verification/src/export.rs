//! Tuner best-config export: merge a winner into the launcher-readable
//! `best-<key>.json` store.
//!
//! One store holds one entry per distinct
//! (quant, context, mode, VRAM, prompt-length, profile, vision) combination: a
//! new winner replaces only its own combination and never overwrites across
//! the vision/text divide. Every write is validated against the shared store
//! schema before it lands.
use vstd::prelude::*;
use vstd::string::StringExecFns;

use crate::json::{
    json_pretty_text, no_members, object, parse_object, put_member, text_node, Json, Member,
};
#[allow(unused_imports)]
use crate::json::{
    alike, as_bool, as_i64, as_text, at, find_member, items_of, json_of, json_pretty_text_of,
    law_member_after_set, law_members_of_alike_documents_are_alike,
    law_setting_a_member_keeps_order, lemma_member_is_orderly, lemma_object_view, member,
    members_view, object_error_of, orderly, reads_as, set_member, trees, JsonV, MAX_NESTING,
};
use crate::text::{chars_of, dec_u64, is_blank, same};
#[allow(unused_imports)]
use crate::text::{dec, trimmed};

verus! {

pub const SCHEMA_VERSION: &'static str = "localbox-autobest-v1";

pub const SOURCE: &'static str = "localbench";

// ---------------------------------------------------------------------------
// Paths
// ---------------------------------------------------------------------------
/// `name` under `folder`.
pub open spec fn under(folder: Seq<char>, name: Seq<char>) -> Seq<char> {
    if folder.len() == 0 {
        name
    } else if folder.last() == '/' {
        folder + name
    } else {
        folder + "/"@ + name
    }
}

fn place(folder: &str, name: &str) -> (out: String)
    ensures
        out@ == under(folder@, name@),
{
    let chars: Vec<char> = chars_of(folder);
    if chars.len() == 0 {
        return name.to_string();
    }
    let mut out: String = folder.to_string();
    if chars[chars.len() - 1] != '/' {
        out.append("/");
    }
    out.append(name);
    out
}

/// The store/profile path conventions under a `~/.local-llm`-style root.
#[derive(Clone, Debug, PartialEq, Eq)]
pub struct StorePaths {
    root: String,
}

impl StorePaths {
    /// The root.
    pub closed spec fn root(self) -> Seq<char> {
        self.root@
    }

    /// Paths under the given `~/.local-llm`-style root (injected, never
    /// probed, so path logic stays pure).
    pub fn new(local_llm_root: &str) -> (out: Self)
        ensures
            out.root() == local_llm_root@,
    {
        StorePaths { root: local_llm_root.to_string() }
    }

    /// The launcher-readable tuner store: `tuner/best-<key>.json`.
    pub fn best_config(&self, key: &str) -> (out: String)
        ensures
            out@ == under(under(self.root(), "tuner"@), "best-"@ + key@ + ".json"@),
    {
        let mut name: String = "best-".to_string();
        name.append(key);
        name.append(".json");
        place(place(self.root.as_str(), "tuner").as_str(), name.as_str())
    }

    /// The trial cache: `tuner/trial-cache-<key>[-<contextKey>].json`.
    pub fn trial_cache(&self, key: &str, context_key: &str) -> (out: String)
        ensures
            out@ == under(
                under(self.root(), "tuner"@),
                "trial-cache-"@ + key@ + (if trimmed(context_key@).len() == 0 {
                    seq![]
                } else {
                    "-"@ + context_key@
                }) + ".json"@,
            ),
    {
        let mut name: String = "trial-cache-".to_string();
        name.append(key);
        let ghost front = name@;
        if !is_blank(context_key) {
            name.append("-");
            name.append(context_key);
            assert(name@ =~= front + ("-"@ + context_key@));
        } else {
            assert(name@ =~= front + seq![]);
        }
        name.append(".json");
        place(place(self.root.as_str(), "tuner").as_str(), name.as_str())
    }
}

// ---------------------------------------------------------------------------
// Winners
// ---------------------------------------------------------------------------
/// An export failure.
#[derive(Clone, Debug, PartialEq, Eq)]
pub enum ExportError {
    /// The existing store could not be read.
    UnreadableStore { path: String, reason: String },
    /// The merged store no longer validates against the shared schema.
    SchemaInvalid(String),
    /// The store could not be written.
    Io(String),
}

impl ExportError {
    /// The failure in words.
    pub fn message(&self) -> (out: String)
        ensures
            out@ == match self {
                ExportError::UnreadableStore { path, reason } => {
                    "could not read existing launcher profile at "@ + path@ + ": "@ + reason@
                },
                ExportError::SchemaInvalid(why) => {
                    "the merged store does not validate against the tuner schema: "@ + why@
                },
                ExportError::Io(why) => "could not write launcher profile: "@ + why@,
            },
    {
        match self {
            ExportError::UnreadableStore { path, reason } => {
                let mut m: String = "could not read existing launcher profile at ".to_string();
                m.append(path.as_str());
                m.append(": ");
                m.append(reason.as_str());
                m
            },
            ExportError::SchemaInvalid(why) => {
                let mut m: String =
                    "the merged store does not validate against the tuner schema: ".to_string();
                m.append(why.as_str());
                m
            },
            ExportError::Io(why) => {
                let mut m: String = "could not write launcher profile: ".to_string();
                m.append(why.as_str());
                m
            },
        }
    }
}

/// Provenance carried on the store and every exported entry.
#[derive(Clone, Debug, PartialEq, Eq)]
pub struct ExportProvenance {
    /// This product's version string.
    pub localbench_version: String,
    /// The export schema version (the version-triple member).
    pub launcher_export_version: u32,
    /// When the winner was measured (RFC3339 string, injected).
    pub measured_at: String,
}

/// One winner to export: what decides its slot, and the shared entry payload.
#[derive(Debug, PartialEq, Eq)]
pub struct ExportWinner {
    pub quant: String,
    pub context_key: String,
    pub mode: String,
    pub vram_gb: i64,
    pub prompt_length: String,
    pub profile: String,
    /// Whether the winner ran with a vision projector loaded.
    pub vision: bool,
    /// The shared-schema entry.
    pub entry: Json,
}

/// A text field, or its historical default.
pub open spec fn text_or(json: JsonV, name: Seq<char>, default: Seq<char>) -> Seq<char> {
    match as_text(at(json, name)) {
        Some(t) => t,
        None => default,
    }
}

/// Whether an entry is a vision entry; an absent flag reads as text-only.
pub open spec fn vision_of(json: JsonV) -> bool {
    match as_bool(at(json, "vision"@)) {
        Some(v) => v,
        None => false,
    }
}

/// Whether an entry occupies a winner's store slot: equal quant, context key,
/// mode, VRAM, prompt length, profile, and vision flag. Absent fields read as
/// their historical defaults.
pub open spec fn in_slot(existing: JsonV, winner: ExportWinner) -> bool {
    &&& as_text(at(existing, "quant"@)) == Some(winner.quant@)
    &&& as_text(at(existing, "contextKey"@)) == Some(winner.context_key@)
    &&& text_or(existing, "mode"@, seq![]) == winner.mode@
    &&& as_i64(at(existing, "vramGB"@)) == Some(winner.vram_gb as int)
    &&& text_or(existing, "prompt_length"@, "short"@) == winner.prompt_length@
    &&& text_or(existing, "profile"@, "pure"@) == winner.profile@
    &&& vision_of(existing) == winner.vision
}

fn read_text(json: &Json, name: &str) -> (out: Option<String>)
    ensures
        match out {
            Some(t) => as_text(at(json@, name@)) == Some(t@),
            None => as_text(at(json@, name@)) is None,
        },
{
    match json.get(name) {
        Some(v) => match v.text() {
            Some(t) => Some(t.clone()),
            None => None,
        },
        None => None,
    }
}

fn reads(json: &Json, name: &str, wanted: &str) -> (out: bool)
    ensures
        out == (as_text(at(json@, name@)) == Some(wanted@)),
{
    match read_text(json, name) {
        Some(t) => same(t.as_str(), wanted),
        None => false,
    }
}

fn reads_or(json: &Json, name: &str, default: &str, wanted: &str) -> (out: bool)
    ensures
        out == (text_or(json@, name@, default@) == wanted@),
{
    match read_text(json, name) {
        Some(t) => same(t.as_str(), wanted),
        None => same(default, wanted),
    }
}

/// Whether an entry occupies a winner's store slot.
pub fn same_slot(existing: &Json, winner: &ExportWinner) -> (out: bool)
    ensures
        out == in_slot(existing@, *winner),
{
    let vram: bool = match existing.get("vramGB") {
        Some(v) => match v.integer() {
            Some(n) => n == winner.vram_gb,
            None => false,
        },
        None => false,
    };
    let vision: bool = match existing.get("vision") {
        Some(v) => match v.flag() {
            Some(b) => b,
            None => false,
        },
        None => false,
    };
    let none: String = String::new();
    assert(none@ =~= seq![]);
    reads(existing, "quant", winner.quant.as_str()) && reads(
        existing,
        "contextKey",
        winner.context_key.as_str(),
    ) && reads_or(existing, "mode", none.as_str(), winner.mode.as_str()) && vram && reads_or(
        existing,
        "prompt_length",
        "short",
        winner.prompt_length.as_str(),
    ) && reads_or(existing, "profile", "pure", winner.profile.as_str()) && vision == winner.vision
}

// ---------------------------------------------------------------------------
// The merge
// ---------------------------------------------------------------------------
/// The first `n` entries that are in other slots than a winner's.
pub open spec fn other_entries(entries: Seq<JsonV>, winner: ExportWinner, n: int) -> Seq<JsonV>
    decreases n,
{
    if n <= 0 {
        seq![]
    } else {
        let front = other_entries(entries, winner, n - 1);
        if in_slot(entries[n - 1], winner) {
            front
        } else {
            front.push(entries[n - 1])
        }
    }
}

/// The members of a winner's entry with its provenance.
pub open spec fn provenanced(
    members: Seq<(Seq<char>, JsonV)>,
    vision: bool,
    p: ExportProvenance,
) -> Seq<(Seq<char>, JsonV)> {
    set_member(
        set_member(
            set_member(
                set_member(
                    set_member(
                        set_member(members, "source"@, JsonV::Text(SOURCE@)),
                        "schema_version"@,
                        JsonV::Text(SCHEMA_VERSION@),
                    ),
                    "localbench_version"@,
                    JsonV::Text(p.localbench_version@),
                ),
                "launcher_export_version"@,
                JsonV::Unsigned(p.launcher_export_version as u64),
            ),
            "vision"@,
            JsonV::Bool(vision),
        ),
        "measured_at"@,
        JsonV::Text(p.measured_at@),
    )
}

/// A winner's entry as it is stored.
pub open spec fn stored_entry(winner: ExportWinner, p: ExportProvenance) -> JsonV {
    match winner.entry@ {
        JsonV::Object(members) => JsonV::Object(provenanced(members, winner.vision, p)),
        other => other,
    }
}

/// The entries of a store.
pub open spec fn entries_of(store: Seq<(Seq<char>, JsonV)>) -> Seq<JsonV> {
    match find_member(store, "entries"@) {
        Some(v) => items_of(v),
        None => seq![],
    }
}

/// The entries of a store with a winner merged in.
pub open spec fn merged_entries(
    entries: Seq<JsonV>,
    winner: ExportWinner,
    p: ExportProvenance,
) -> Seq<JsonV> {
    other_entries(entries, winner, entries.len() as int).push(stored_entry(winner, p))
}

/// A store with a winner merged in.
pub open spec fn merged_store(
    store: Seq<(Seq<char>, JsonV)>,
    key: Seq<char>,
    schema: u64,
    winner: ExportWinner,
    p: ExportProvenance,
) -> Seq<(Seq<char>, JsonV)> {
    set_member(
        set_member(
            set_member(
                set_member(
                    set_member(
                        set_member(
                            set_member(store, "key"@, JsonV::Text(key)),
                            "schema"@,
                            JsonV::Unsigned(schema),
                        ),
                        "source"@,
                        JsonV::Text(SOURCE@),
                    ),
                    "schema_version"@,
                    JsonV::Text(SCHEMA_VERSION@),
                ),
                "localbench_version"@,
                JsonV::Text(p.localbench_version@),
            ),
            "launcher_export_version"@,
            JsonV::Unsigned(p.launcher_export_version as u64),
        ),
        "entries"@,
        JsonV::List(merged_entries(entries_of(store), winner, p)),
    )
}

fn put(members: &mut Vec<Member>, name: &str, value: Json)
    ensures
        members_view(final(members)@) == set_member(members_view(old(members)@), name@, value@),
{
    proof {
        lemma_object_view(*members);
    }
    put_member(members, name, value);
    proof {
        lemma_object_view(*members);
    }
}

fn keep_others(entries: Vec<Json>, winner: &ExportWinner) -> (out: Vec<Json>)
    ensures
        trees(out@) == other_entries(trees(entries@), *winner, entries@.len() as int),
{
    let ghost all = trees(entries@);
    let mut out: Vec<Json> = Vec::new();
    let mut i: usize = 0;
    assert(trees(out@) =~= seq![]);
    while i < entries.len()
        invariant
            i <= entries.len(),
            all == trees(entries@),
            trees(out@) == other_entries(all, *winner, i as int),
        decreases entries.len() - i,
    {
        assert(all[i as int] == entries@[i as int]@);
        if !same_slot(&entries[i], winner) {
            let ghost was = trees(out@);
            out.push(entries[i].copy());
            assert(trees(out@) =~= was.push(entries@[i as int]@));
        }
        i = i + 1;
    }
    out
}

fn store_entry(winner: &ExportWinner, p: &ExportProvenance) -> (out: Json)
    ensures
        out@ == stored_entry(*winner, *p),
{
    match winner.entry.copy() {
        Json::Object(members) => {
            let mut members: Vec<Member> = members;
            proof {
                lemma_object_view(members);
            }
            put(&mut members, "source", text_node(SOURCE));
            put(&mut members, "schema_version", text_node(SCHEMA_VERSION));
            put(&mut members, "localbench_version", text_node(p.localbench_version.as_str()));
            put(
                &mut members,
                "launcher_export_version",
                Json::Unsigned(p.launcher_export_version as u64),
            );
            put(&mut members, "vision", Json::Bool(winner.vision));
            put(&mut members, "measured_at", text_node(p.measured_at.as_str()));
            object(members)
        },
        other => other,
    }
}

/// The members of an existing store, if its text reads as one; no text means
/// no store yet.
pub open spec fn store_members(existing: Option<Seq<char>>) -> Option<Seq<(Seq<char>, JsonV)>> {
    match existing {
        None => Some(seq![]),
        Some(raw) => match json_of(raw) {
            Some(JsonV::Object(members)) => Some(members),
            _ => None,
        },
    }
}

/// Merge a winner into a store: take the existing store's text (tolerating
/// provenance fields the shared schema does not model), drop only the entry in
/// the same slot, and append the winner with its provenance. An existing store
/// that cannot be parsed is never silently clobbered.
pub fn export_best_config(
    existing: Option<&str>,
    path: &str,
    key: &str,
    schema: u64,
    winner: &ExportWinner,
    provenance: &ExportProvenance,
) -> (out: Result<Json, ExportError>)
    ensures
        ({
            let raw = match existing {
                Some(t) => Some(t@),
                None => None,
            };
            match store_members(raw) {
                Some(store) => out matches Ok(document) && document@ == JsonV::Object(
                    merged_store(store, key@, schema, *winner, *provenance),
                ),
                None => out matches Err(ExportError::UnreadableStore { path: p, reason }) && p@
                    == path@ && reason@ == object_error_of(raw->Some_0),
            }
        }),
        out matches Ok(document) ==> orderly(winner.entry@, MAX_NESTING - 2, true) ==> orderly(
            document@,
            MAX_NESTING as int,
            true,
        ),
{
    let store: Vec<Member> = match existing {
        None => no_members(),
        Some(raw) => match parse_object(raw) {
            Ok(members) => members,
            Err(reason) => {
                return Err(ExportError::UnreadableStore { path: path.to_string(), reason });
            },
        },
    };
    let ghost before = members_view(store@);
    let mut found: Vec<Json> = Vec::new();
    assert(trees(found@) =~= seq![]);
    let whole: Json = object(store);
    match whole.get("entries") {
        Some(v) => {
            found = v.items();
        },
        None => {},
    }
    assert(trees(found@) == entries_of(before));
    assert(trees(found@).len() == found@.len());
    let mut entries: Vec<Json> = keep_others(found, winner);
    let ghost others = trees(entries@);
    entries.push(store_entry(winner, provenance));
    assert(trees(entries@) =~= others.push(stored_entry(*winner, *provenance)));
    let list: Json = Json::List(entries);
    assert(list@->List_0 =~= trees(entries@));
    let mut store: Vec<Member> = match whole {
        Json::Object(members) => members,
        _ => no_members(),
    };
    proof {
        lemma_object_view(store);
    }
    put(&mut store, "key", text_node(key));
    put(&mut store, "schema", Json::Unsigned(schema));
    put(&mut store, "source", text_node(SOURCE));
    put(&mut store, "schema_version", text_node(SCHEMA_VERSION));
    put(&mut store, "localbench_version", text_node(provenance.localbench_version.as_str()));
    put(
        &mut store,
        "launcher_export_version",
        Json::Unsigned(provenance.launcher_export_version as u64),
    );
    put(&mut store, "entries", list);
    proof {
        if orderly(winner.entry@, MAX_NESTING - 2, true) {
            lemma_merged_store_is_orderly(before, key@, schema, *winner, *provenance);
        }
    }
    Ok(object(store))
}

/// What the shared schema's own reader says of a merged store.
#[derive(Clone, Debug, PartialEq, Eq)]
pub enum Validation {
    /// It does not read, and why.
    Invalid(String),
    /// It reads, with this schema, which is supported or not.
    Read { schema: u64, supported: bool },
}

/// The text of a merged store, once it has been held against the shared
/// schema: only a document that round-trips is written. The text reads as the
/// store that was merged.
pub fn validated_store(document: &Json, schema: u64, validation: Validation) -> (out: Result<
    String,
    ExportError,
>)
    ensures
        match validation {
            Validation::Invalid(why) => out == Err::<String, ExportError>(
                ExportError::SchemaInvalid(why),
            ),
            Validation::Read { schema: found, supported } => if supported {
                out matches Ok(text) && text@ == json_pretty_text_of(document@)
            } else {
                out matches Err(ExportError::SchemaInvalid(m)) && m@ == "schema "@ + dec(
                    found as nat,
                ) + " is not the supported "@ + dec(schema as nat)
            },
        },
        out matches Ok(text) ==> orderly(document@, MAX_NESTING as int, true) ==> reads_as(
            text@,
            document@,
        ),
{
    match validation {
        Validation::Invalid(why) => Err(ExportError::SchemaInvalid(why)),
        Validation::Read { schema: found, supported } => {
            if supported {
                Ok(json_pretty_text(document))
            } else {
                let mut m: String = "schema ".to_string();
                m.append(dec_u64(found).as_str());
                m.append(" is not the supported ");
                m.append(dec_u64(schema).as_str());
                Err(ExportError::SchemaInvalid(m))
            }
        },
    }
}

// ---------------------------------------------------------------------------
// Laws
// ---------------------------------------------------------------------------
proof fn lemma_others(entries: Seq<JsonV>, winner: ExportWinner, n: int)
    requires
        0 <= n <= entries.len(),
    ensures
        forall|i: int|
            0 <= i < other_entries(entries, winner, n).len() ==> !in_slot(
                #[trigger] other_entries(entries, winner, n)[i],
                winner,
            ),
        forall|k: int|
            0 <= k < n && !in_slot(#[trigger] entries[k], winner) ==> other_entries(
                entries,
                winner,
                n,
            ).contains(entries[k]),
        forall|i: int|
            0 <= i < other_entries(entries, winner, n).len() ==> entries.contains(
                #[trigger] other_entries(entries, winner, n)[i],
            ),
    decreases n,
{
    if n > 0 {
        lemma_others(entries, winner, n - 1);
        let front = other_entries(entries, winner, n - 1);
        let all = other_entries(entries, winner, n);
        assert forall|k: int| 0 <= k < n && !in_slot(#[trigger] entries[k], winner) implies all.contains(
            entries[k],
        ) by {
            if k < n - 1 {
                assert(front.contains(entries[k]));
                let i = choose|i: int| 0 <= i < front.len() && front[i] == entries[k];
                assert(all[i] == entries[k]);
            } else {
                assert(all[front.len() as int] == entries[k]);
            }
        }
        assert forall|i: int| 0 <= i < all.len() implies entries.contains(#[trigger] all[i]) by {
            if i < front.len() {
                assert(all[i] == front[i]);
            } else {
                assert(all[i] == entries[n - 1]);
            }
        }
    }
}

proof fn lemma_stored_entry_is_orderly(winner: ExportWinner, p: ExportProvenance, depth: int)
    requires
        orderly(winner.entry@, depth, true),
    ensures
        orderly(stored_entry(winner, p), depth, true),
{
    match winner.entry@ {
        JsonV::Object(members) => {
            let m1 = set_member(members, "source"@, JsonV::Text(SOURCE@));
            let m2 = set_member(m1, "schema_version"@, JsonV::Text(SCHEMA_VERSION@));
            let m3 = set_member(m2, "localbench_version"@, JsonV::Text(p.localbench_version@));
            let exporter = JsonV::Unsigned(p.launcher_export_version as u64);
            let m4 = set_member(m3, "launcher_export_version"@, exporter);
            let m5 = set_member(m4, "vision"@, JsonV::Bool(winner.vision));
            let source = JsonV::Text(SOURCE@);
            let version = JsonV::Text(SCHEMA_VERSION@);
            let bench = JsonV::Text(p.localbench_version@);
            let measured = JsonV::Text(p.measured_at@);
            law_setting_a_member_keeps_order(members, "source"@, source, depth, true);
            law_setting_a_member_keeps_order(m1, "schema_version"@, version, depth, true);
            law_setting_a_member_keeps_order(m2, "localbench_version"@, bench, depth, true);
            law_setting_a_member_keeps_order(m3, "launcher_export_version"@, exporter, depth, true);
            law_setting_a_member_keeps_order(
                m4,
                "vision"@,
                JsonV::Bool(winner.vision),
                depth,
                true,
            );
            law_setting_a_member_keeps_order(m5, "measured_at"@, measured, depth, true);
        },
        _ => {},
    }
}

/// A store in order stays in order when a winner in order is merged in.
proof fn lemma_merged_store_is_orderly(
    store: Seq<(Seq<char>, JsonV)>,
    key: Seq<char>,
    schema: u64,
    winner: ExportWinner,
    p: ExportProvenance,
)
    requires
        orderly(JsonV::Object(store), MAX_NESTING as int, true),
        orderly(winner.entry@, MAX_NESTING - 2, true),
    ensures
        orderly(
            JsonV::Object(merged_store(store, key, schema, winner, p)),
            MAX_NESTING as int,
            true,
        ),
{
    let depth = MAX_NESTING as int;
    let entries = entries_of(store);
    let merged = merged_entries(entries, winner, p);
    lemma_member_is_orderly(store, "entries"@, depth, true);
    lemma_others(entries, winner, entries.len() as int);
    lemma_stored_entry_is_orderly(winner, p, depth - 2);
    let list = JsonV::List(merged);
    assert(orderly(list, depth - 1, true)) by {
        assert forall|i: int| 0 <= i < merged.len() implies orderly(
            #[trigger] merged[i],
            depth - 2,
            true,
        ) by {
            let others = other_entries(entries, winner, entries.len() as int);
            if i < others.len() {
                assert(merged[i] == others[i]);
                assert(entries.contains(others[i]));
                let k = choose|k: int| 0 <= k < entries.len() && entries[k] == others[i];
                assert(orderly(entries[k], depth - 2, true));
            }
        }
    }
    let s1 = set_member(store, "key"@, JsonV::Text(key));
    let s2 = set_member(s1, "schema"@, JsonV::Unsigned(schema));
    let s3 = set_member(s2, "source"@, JsonV::Text(SOURCE@));
    let s4 = set_member(s3, "schema_version"@, JsonV::Text(SCHEMA_VERSION@));
    let s5 = set_member(s4, "localbench_version"@, JsonV::Text(p.localbench_version@));
    let exporter = JsonV::Unsigned(p.launcher_export_version as u64);
    let s6 = set_member(s5, "launcher_export_version"@, exporter);
    let source = JsonV::Text(SOURCE@);
    let version = JsonV::Text(SCHEMA_VERSION@);
    let bench = JsonV::Text(p.localbench_version@);
    law_setting_a_member_keeps_order(store, "key"@, JsonV::Text(key), depth, true);
    law_setting_a_member_keeps_order(s1, "schema"@, JsonV::Unsigned(schema), depth, true);
    law_setting_a_member_keeps_order(s2, "source"@, source, depth, true);
    law_setting_a_member_keeps_order(s3, "schema_version"@, version, depth, true);
    law_setting_a_member_keeps_order(s4, "localbench_version"@, bench, depth, true);
    law_setting_a_member_keeps_order(s5, "launcher_export_version"@, exporter, depth, true);
    law_setting_a_member_keeps_order(s6, "entries"@, list, depth, true);
}

/// A store that was written reads back with the same entries in the same
/// order, so the next export merges into what this one left.
pub proof fn law_a_written_store_reads_back(
    text: Seq<char>,
    store: Seq<(Seq<char>, JsonV)>,
    key: Seq<char>,
    schema: u64,
    winner: ExportWinner,
    p: ExportProvenance,
)
    requires
        reads_as(text, JsonV::Object(merged_store(store, key, schema, winner, p))),
        json_of(text) is Some,
    ensures
        store_members(Some(text)) matches Some(back) && {
            let merged = merged_entries(entries_of(store), winner, p);
            &&& entries_of(back).len() == merged.len()
            &&& forall|i: int|
                0 <= i < merged.len() ==> alike(#[trigger] merged[i], entries_of(back)[i])
        },
{
    let document = JsonV::Object(merged_store(store, key, schema, winner, p));
    let back = json_of(text)->Some_0;
    let s1 = set_member(store, "key"@, JsonV::Text(key));
    let s2 = set_member(s1, "schema"@, JsonV::Unsigned(schema));
    let s3 = set_member(s2, "source"@, JsonV::Text(SOURCE@));
    let s4 = set_member(s3, "schema_version"@, JsonV::Text(SCHEMA_VERSION@));
    let s5 = set_member(s4, "localbench_version"@, JsonV::Text(p.localbench_version@));
    let exporter = JsonV::Unsigned(p.launcher_export_version as u64);
    let s6 = set_member(s5, "launcher_export_version"@, exporter);
    let list = JsonV::List(merged_entries(entries_of(store), winner, p));
    law_member_after_set(s6, "entries"@, list, "entries"@);
    law_members_of_alike_documents_are_alike(document, back, "entries"@);
}

/// A winner replaces only its own combination: every entry in another slot
/// stays as it is, nothing else comes in but the winner, and no entry but the
/// winner's is left in its slot.
pub proof fn law_a_winner_replaces_only_its_own_slot(
    entries: Seq<JsonV>,
    winner: ExportWinner,
    p: ExportProvenance,
    i: int,
)
    requires
        0 <= i < merged_entries(entries, winner, p).len(),
    ensures
        ({
            let merged = merged_entries(entries, winner, p);
            &&& merged.last() == stored_entry(winner, p)
            &&& i < merged.len() - 1 ==> !in_slot(merged[i], winner) && entries.contains(merged[i])
            &&& forall|k: int|
                0 <= k < entries.len() && !in_slot(#[trigger] entries[k], winner)
                    ==> merged.contains(entries[k])
        }),
{
    let n = entries.len() as int;
    lemma_others(entries, winner, n);
    let others = other_entries(entries, winner, n);
    let merged = merged_entries(entries, winner, p);
    assert forall|k: int| 0 <= k < n && !in_slot(#[trigger] entries[k], winner) implies merged.contains(
        entries[k],
    ) by {
        let j = choose|j: int| 0 <= j < others.len() && others[j] == entries[k];
        assert(merged[j] == entries[k]);
    }
}

/// Vision and text profiles never overwrite each other: an entry on the other
/// side of the divide stays, whatever else it has in common with the winner.
pub proof fn law_vision_and_text_never_overwrite_each_other(
    entries: Seq<JsonV>,
    winner: ExportWinner,
    p: ExportProvenance,
    k: int,
)
    requires
        0 <= k < entries.len(),
        vision_of(entries[k]) != winner.vision,
    ensures
        merged_entries(entries, winner, p).contains(entries[k]),
{
    law_a_winner_replaces_only_its_own_slot(entries, winner, p, 0);
}

/// An entry stays if it differs from the winner in any one of the members that
/// make a slot: quant, context key, mode, VRAM, prompt length, profile or
/// vision. A member that is absent, or is of another kind, reads as the
/// member's default: no mode, short prompts, the pure profile, text only. A
/// quant, a context key or a VRAM size has none, so its absence is a difference.
pub proof fn law_an_entry_with_another_member_stays(
    entries: Seq<JsonV>,
    winner: ExportWinner,
    p: ExportProvenance,
    k: int,
)
    requires
        0 <= k < entries.len(),
        ({
            let e = entries[k];
            ||| member(e, "quant"@) != Some(JsonV::Text(winner.quant@))
            ||| member(e, "contextKey"@) != Some(JsonV::Text(winner.context_key@))
            ||| (match member(e, "mode"@) {
                Some(JsonV::Text(t)) => t != winner.mode@,
                _ => winner.mode@.len() > 0,
            })
            ||| (match member(e, "vramGB"@) {
                Some(JsonV::Unsigned(n)) => n != winner.vram_gb,
                Some(JsonV::Negative(n)) => n != winner.vram_gb,
                _ => true,
            })
            ||| (match member(e, "prompt_length"@) {
                Some(JsonV::Text(t)) => t != winner.prompt_length@,
                _ => winner.prompt_length@ != "short"@,
            })
            ||| (match member(e, "profile"@) {
                Some(JsonV::Text(t)) => t != winner.profile@,
                _ => winner.profile@ != "pure"@,
            })
            ||| (match member(e, "vision"@) {
                Some(JsonV::Bool(b)) => b != winner.vision,
                _ => winner.vision,
            })
        }),
    ensures
        merged_entries(entries, winner, p).drop_last().contains(entries[k]),
{
    let e = entries[k];
    let others = other_entries(entries, winner, entries.len() as int);
    assert(!in_slot(e, winner)) by {
        if in_slot(e, winner) {
            assert(as_text(at(e, "quant"@)) == Some(winner.quant@));
            assert(as_text(at(e, "contextKey"@)) == Some(winner.context_key@));
        }
    }
    lemma_others(entries, winner, entries.len() as int);
    let j = choose|j: int| 0 <= j < others.len() && others[j] == e;
    assert(merged_entries(entries, winner, p).drop_last() =~= others);
}

/// An entry that agrees with the winner in every member that makes a slot
/// goes: what is left of the store before the winner's own entry holds no
/// such entry, and keeps the rest in order.
pub proof fn law_an_entry_of_the_same_members_goes(
    entries: Seq<JsonV>,
    winner: ExportWinner,
    p: ExportProvenance,
    e: JsonV,
)
    requires
        member(e, "quant"@) == Some(JsonV::Text(winner.quant@)),
        member(e, "contextKey"@) == Some(JsonV::Text(winner.context_key@)),
        match member(e, "mode"@) {
            Some(JsonV::Text(t)) => t == winner.mode@,
            _ => winner.mode@.len() == 0,
        },
        match member(e, "vramGB"@) {
            Some(JsonV::Unsigned(n)) => n == winner.vram_gb,
            Some(JsonV::Negative(n)) => n == winner.vram_gb,
            _ => false,
        },
        match member(e, "prompt_length"@) {
            Some(JsonV::Text(t)) => t == winner.prompt_length@,
            _ => winner.prompt_length@ == "short"@,
        },
        match member(e, "profile"@) {
            Some(JsonV::Text(t)) => t == winner.profile@,
            _ => winner.profile@ == "pure"@,
        },
        match member(e, "vision"@) {
            Some(JsonV::Bool(b)) => b == winner.vision,
            _ => !winner.vision,
        },
    ensures
        !merged_entries(entries, winner, p).drop_last().contains(e),
{
    let others = other_entries(entries, winner, entries.len() as int);
    assert(winner.mode@.len() == 0 ==> winner.mode@ =~= seq![]);
    assert(in_slot(e, winner));
    lemma_others(entries, winner, entries.len() as int);
    assert(merged_entries(entries, winner, p).drop_last() =~= others);
}

/// The entries that stay keep their order, and none comes twice that stood
/// once: where what stays of the store comes from, place by place, the places
/// only grow.
pub proof fn law_the_entries_that_stay_keep_their_order(
    entries: Seq<JsonV>,
    winner: ExportWinner,
    p: ExportProvenance,
) -> (places: Seq<int>)
    ensures
        places.len() == merged_entries(entries, winner, p).len() - 1,
        forall|i: int|
            0 <= i < places.len() ==> 0 <= #[trigger] places[i] < entries.len()
                && merged_entries(entries, winner, p)[i] == entries[places[i]],
        forall|i: int, j: int| 0 <= i < j < places.len() ==> #[trigger] places[i] < #[trigger] places[j],
{
    lemma_places(entries, winner, entries.len() as int)
}

proof fn lemma_places(entries: Seq<JsonV>, winner: ExportWinner, n: int) -> (places: Seq<int>)
    requires
        0 <= n <= entries.len(),
    ensures
        places.len() == other_entries(entries, winner, n).len(),
        forall|i: int|
            0 <= i < places.len() ==> 0 <= #[trigger] places[i] < n && other_entries(
                entries,
                winner,
                n,
            )[i] == entries[places[i]],
        forall|i: int, j: int| 0 <= i < j < places.len() ==> #[trigger] places[i] < #[trigger] places[j],
    decreases n,
{
    if n == 0 {
        seq![]
    } else {
        let front = lemma_places(entries, winner, n - 1);
        if in_slot(entries[n - 1], winner) {
            front
        } else {
            front.push(n - 1)
        }
    }
}

/// The vision flag of a stored entry is the winner's own.
pub proof fn law_a_stored_entry_carries_its_provenance(winner: ExportWinner, p: ExportProvenance)
    requires
        winner.entry@ is Object,
    ensures
        vision_of(stored_entry(winner, p)) == winner.vision,
        member(stored_entry(winner, p), "measured_at"@) == Some(JsonV::Text(p.measured_at@)),
        member(stored_entry(winner, p), "source"@) == Some(JsonV::Text(SOURCE@)),
        member(stored_entry(winner, p), "schema_version"@) == Some(JsonV::Text(SCHEMA_VERSION@)),
        member(stored_entry(winner, p), "localbench_version"@) == Some(
            JsonV::Text(p.localbench_version@),
        ),
        member(stored_entry(winner, p), "launcher_export_version"@) == Some(
            JsonV::Unsigned(p.launcher_export_version as u64),
        ),
{
    lemma_names();
    let m0 = winner.entry@->Object_0;
    lemma_provenance_member(m0, winner.vision, p, "source"@);
    lemma_provenance_member(m0, winner.vision, p, "schema_version"@);
    lemma_provenance_member(m0, winner.vision, p, "localbench_version"@);
    lemma_provenance_member(m0, winner.vision, p, "launcher_export_version"@);
    lemma_provenance_member(m0, winner.vision, p, "vision"@);
    lemma_provenance_member(m0, winner.vision, p, "measured_at"@);
}

/// A stored entry has every other member of the winner's entry as it was, and
/// its marks of origin by name: who wrote it, and in which schema.
pub proof fn law_a_stored_entry_keeps_the_winner(
    winner: ExportWinner,
    p: ExportProvenance,
    name: Seq<char>,
)
    requires
        winner.entry@ is Object,
    ensures
        member(stored_entry(winner, p), "source"@) == Some(JsonV::Text("localbench"@)),
        member(stored_entry(winner, p), "schema_version"@) == Some(
            JsonV::Text("localbox-autobest-v1"@),
        ),
        name != "source"@ && name != "schema_version"@ && name != "localbench_version"@ && name
            != "launcher_export_version"@ && name != "vision"@ && name != "measured_at"@ ==> member(
            stored_entry(winner, p),
            name,
        ) == member(winner.entry@, name),
{
    lemma_names();
    let m0 = winner.entry@->Object_0;
    lemma_provenance_member(m0, winner.vision, p, "source"@);
    lemma_provenance_member(m0, winner.vision, p, "schema_version"@);
    lemma_provenance_member(m0, winner.vision, p, name);
}

/// A store that takes in a winner says whose it is and in which schema, carries
/// the marks of origin and the entries, and keeps every other member it had.
pub proof fn law_a_merged_store_keeps_its_other_members(
    store: Seq<(Seq<char>, JsonV)>,
    key: Seq<char>,
    schema: u64,
    winner: ExportWinner,
    p: ExportProvenance,
    name: Seq<char>,
)
    ensures
        ({
            let merged = merged_store(store, key, schema, winner, p);
            let found = find_member(merged, name);
            &&& name == "key"@ ==> found == Some(JsonV::Text(key))
            &&& name == "schema"@ ==> found == Some(JsonV::Unsigned(schema))
            &&& name == "source"@ ==> found == Some(JsonV::Text("localbench"@))
            &&& name == "schema_version"@ ==> found == Some(JsonV::Text("localbox-autobest-v1"@))
            &&& name == "localbench_version"@ ==> found == Some(JsonV::Text(p.localbench_version@))
            &&& name == "launcher_export_version"@ ==> found == Some(
                JsonV::Unsigned(p.launcher_export_version as u64),
            )
            &&& name == "entries"@ ==> (found matches Some(JsonV::List(entries)) && entries.len()
                > 0 && entries.last() == stored_entry(winner, p))
            &&& name != "key"@ && name != "schema"@ && name != "source"@ && name
                != "schema_version"@ && name != "localbench_version"@ && name
                != "launcher_export_version"@ && name != "entries"@ ==> found == find_member(
                store,
                name,
            )
        }),
{
    lemma_names();
    reveal_strlit("key");
    reveal_strlit("schema");
    reveal_strlit("entries");
    reveal_strlit("source");
    reveal_strlit("schema_version");
    reveal_strlit("localbench_version");
    reveal_strlit("launcher_export_version");
    assert("key"@.len() == 3 && "schema"@.len() == 6 && "entries"@.len() == 7);
    assert("source"@.len() == 6 && "source"@[1] == 'o' && "schema"@[1] == 'c');
    assert("schema_version"@.len() == 14 && "localbench_version"@.len() == 18);
    assert("launcher_export_version"@.len() == 23);
    let m1 = set_member(store, "key"@, JsonV::Text(key));
    law_member_after_set(store, "key"@, JsonV::Text(key), name);
    let m2 = set_member(m1, "schema"@, JsonV::Unsigned(schema));
    law_member_after_set(m1, "schema"@, JsonV::Unsigned(schema), name);
    let m3 = set_member(m2, "source"@, JsonV::Text(SOURCE@));
    law_member_after_set(m2, "source"@, JsonV::Text(SOURCE@), name);
    let m4 = set_member(m3, "schema_version"@, JsonV::Text(SCHEMA_VERSION@));
    law_member_after_set(m3, "schema_version"@, JsonV::Text(SCHEMA_VERSION@), name);
    let bench = JsonV::Text(p.localbench_version@);
    let m5 = set_member(m4, "localbench_version"@, bench);
    law_member_after_set(m4, "localbench_version"@, bench, name);
    let version = JsonV::Unsigned(p.launcher_export_version as u64);
    let m6 = set_member(m5, "launcher_export_version"@, version);
    law_member_after_set(m5, "launcher_export_version"@, version, name);
    let entries = merged_entries(entries_of(store), winner, p);
    law_member_after_set(m6, "entries"@, JsonV::List(entries), name);
    assert(entries.last() == stored_entry(winner, p));
}

/// What each member of a provenanced entry is.
proof fn lemma_provenance_member(
    members: Seq<(Seq<char>, JsonV)>,
    vision: bool,
    p: ExportProvenance,
    name: Seq<char>,
)
    ensures
        find_member(provenanced(members, vision, p), name) == if name == "measured_at"@ {
            Some(JsonV::Text(p.measured_at@))
        } else if name == "vision"@ {
            Some(JsonV::Bool(vision))
        } else if name == "launcher_export_version"@ {
            Some(JsonV::Unsigned(p.launcher_export_version as u64))
        } else if name == "localbench_version"@ {
            Some(JsonV::Text(p.localbench_version@))
        } else if name == "schema_version"@ {
            Some(JsonV::Text(SCHEMA_VERSION@))
        } else if name == "source"@ {
            Some(JsonV::Text(SOURCE@))
        } else {
            find_member(members, name)
        },
{
    let m1 = set_member(members, "source"@, JsonV::Text(SOURCE@));
    let m2 = set_member(m1, "schema_version"@, JsonV::Text(SCHEMA_VERSION@));
    let m3 = set_member(m2, "localbench_version"@, JsonV::Text(p.localbench_version@));
    let m4 = set_member(
        m3,
        "launcher_export_version"@,
        JsonV::Unsigned(p.launcher_export_version as u64),
    );
    let m5 = set_member(m4, "vision"@, JsonV::Bool(vision));
    law_member_after_set(members, "source"@, JsonV::Text(SOURCE@), name);
    law_member_after_set(m1, "schema_version"@, JsonV::Text(SCHEMA_VERSION@), name);
    law_member_after_set(m2, "localbench_version"@, JsonV::Text(p.localbench_version@), name);
    law_member_after_set(
        m3,
        "launcher_export_version"@,
        JsonV::Unsigned(p.launcher_export_version as u64),
        name,
    );
    law_member_after_set(m4, "vision"@, JsonV::Bool(vision), name);
    law_member_after_set(m5, "measured_at"@, JsonV::Text(p.measured_at@), name);
}

/// The names of the provenance members are distinct.
proof fn lemma_names()
    ensures
        "source"@.len() == 6,
        "schema_version"@.len() == 14,
        "localbench_version"@.len() == 18,
        "launcher_export_version"@.len() == 23,
        "vision"@.len() == 6,
        "vision"@[0] == 'v',
        "source"@[0] == 's',
        "measured_at"@.len() == 11,
{
    reveal_strlit("source");
    reveal_strlit("schema_version");
    reveal_strlit("localbench_version");
    reveal_strlit("launcher_export_version");
    reveal_strlit("vision");
    reveal_strlit("measured_at");
}

/// Exporting a winner once more changes nothing about the entries, provided
/// the winner's entry reads as being in the winner's own slot.
pub proof fn law_exporting_again_changes_no_entry(
    entries: Seq<JsonV>,
    winner: ExportWinner,
    p: ExportProvenance,
)
    requires
        in_slot(stored_entry(winner, p), winner),
    ensures
        merged_entries(merged_entries(entries, winner, p), winner, p) == merged_entries(
            entries,
            winner,
            p,
        ),
{
    let n = entries.len() as int;
    let others = other_entries(entries, winner, n);
    let merged = merged_entries(entries, winner, p);
    lemma_others(entries, winner, n);
    lemma_others_stay(merged, winner, others.len() as int);
    assert(merged.take(others.len() as int) =~= others);
    assert(other_entries(merged, winner, merged.len() as int) =~= others);
}

proof fn lemma_others_stay(entries: Seq<JsonV>, winner: ExportWinner, n: int)
    requires
        0 <= n <= entries.len(),
        forall|i: int| 0 <= i < n ==> !in_slot(#[trigger] entries[i], winner),
    ensures
        other_entries(entries, winner, n) == entries.take(n),
    decreases n,
{
    if n > 0 {
        lemma_others_stay(entries, winner, n - 1);
        assert(entries.take(n) =~= entries.take(n - 1).push(entries[n - 1]));
    } else {
        assert(entries.take(0) =~= seq![]);
    }
}

} // verus!

//! The launcher-contract consumer side: gate on the product-version floor and
//! the version triple before trusting a launcher, expose this product's own
//! version envelope for the reverse gate, and decide the pre-flight download.
use vstd::prelude::*;
use vstd::string::StringExecFns;

use crate::text::{chars_of, dec_u64, parse_unsigned, range_string};
#[allow(unused_imports)]
use crate::text::{dec, lemma_leading, pieces, unsigned, views};

verus! {

/// This product's version.
pub const VERSION: &'static str = "1.2.1";

/// This product's contract API version.
pub const API_VERSION: u32 = 1;

/// This product's launcher-export schema version.
pub const LAUNCHER_EXPORT_VERSION: u32 = 3;

/// The version envelope one product presents to another.
#[derive(Clone, Debug, PartialEq, Eq)]
pub struct LauncherVersion {
    pub version: String,
    pub api_version: u32,
    pub launcher_export_version: u32,
    pub supported_targets: Vec<String>,
    pub supported_runtimes: Vec<String>,
}

/// Why a launcher is not trusted.
#[derive(Clone, Debug, PartialEq, Eq)]
pub enum LauncherError {
    /// It does not meet the contract, and where.
    Incompatible(String),
}

/// The version envelope this product presents to a launcher's reverse gate:
/// it works for `target`, and for the launcher's earlier name, on `runtime`.
pub fn own_version(product_version: &str, target: &str, runtime: &str) -> (out: LauncherVersion)
    ensures
        out.version@ == product_version@,
        out.api_version == API_VERSION,
        out.launcher_export_version == LAUNCHER_EXPORT_VERSION,
        views(out.supported_targets@) == seq![target@, "LocalLLMLauncher"@],
        views(out.supported_runtimes@) == seq![runtime@],
{
    let mut supported_targets: Vec<String> = Vec::new();
    supported_targets.push(target.to_string());
    supported_targets.push("LocalLLMLauncher".to_string());
    let mut supported_runtimes: Vec<String> = Vec::new();
    supported_runtimes.push(runtime.to_string());
    assert(views(supported_targets@) =~= seq![target@, "LocalLLMLauncher"@]);
    assert(views(supported_runtimes@) =~= seq![runtime@]);
    LauncherVersion {
        version: product_version.to_string(),
        api_version: API_VERSION,
        launcher_export_version: LAUNCHER_EXPORT_VERSION,
        supported_targets,
        supported_runtimes,
    }
}

// ---------------------------------------------------------------------------
// Versions
// ---------------------------------------------------------------------------
/// The characters between the segments of a version.
pub open spec fn segment_break() -> spec_fn(char) -> bool {
    |c: char| c == '.' || c == '-' || c == '+'
}

/// The numbers that the first of `parts` spell, up to one that spells none.
pub open spec fn numbers(parts: Seq<Seq<char>>) -> Seq<u64>
    decreases parts.len(),
{
    if parts.len() == 0 {
        seq![]
    } else {
        match unsigned(parts[0]) {
            Some(n) => seq![n] + numbers(parts.skip(1)),
            None => seq![],
        }
    }
}

/// The leading numeric segments of a version.
pub open spec fn version_numbers(version: Seq<char>) -> Seq<u64> {
    numbers(pieces(version, segment_break()))
}

/// A version's segment; a missing one reads as zero.
pub open spec fn segment(version: Seq<u64>, i: int) -> u64 {
    if 0 <= i < version.len() {
        version[i]
    } else {
        0
    }
}

/// The number of segments that either version has.
pub open spec fn longer(a: Seq<u64>, b: Seq<u64>) -> nat {
    if a.len() >= b.len() {
        a.len()
    } else {
        b.len()
    }
}

/// From segment `i` on, `a` is not below `b`: the first difference decides.
pub open spec fn at_least_from(a: Seq<u64>, b: Seq<u64>, i: nat) -> bool
    decreases longer(a, b) - i,
{
    if i >= longer(a, b) {
        true
    } else if segment(a, i as int) != segment(b, i as int) {
        segment(a, i as int) > segment(b, i as int)
    } else {
        at_least_from(a, b, i + 1)
    }
}

/// `a` is not below `b`.
pub open spec fn at_least(a: Seq<u64>, b: Seq<u64>) -> bool {
    at_least_from(a, b, 0)
}

/// The first difference of two versions from segment `i` on decides, wherever
/// it is.
proof fn lemma_first_difference(a: Seq<u64>, b: Seq<u64>, i: nat, k: nat)
    requires
        i <= k,
        forall|j: int| i <= j < k ==> segment(a, j) == segment(b, j),
        segment(a, k as int) != segment(b, k as int),
    ensures
        at_least_from(a, b, i) == (segment(a, k as int) > segment(b, k as int)),
    decreases k - i,
{
    if i < k {
        assert(segment(a, i as int) == segment(b, i as int));
        lemma_first_difference(a, b, i + 1, k);
    }
}

proof fn lemma_no_difference(a: Seq<u64>, b: Seq<u64>, i: nat)
    requires
        forall|j: int| i <= j ==> segment(a, j) == segment(b, j),
    ensures
        at_least_from(a, b, i),
    decreases longer(a, b) - i,
{
    if i < longer(a, b) {
        assert(segment(a, i as int) == segment(b, i as int));
        lemma_no_difference(a, b, i + 1);
    }
}

/// Either two versions read the same from `i` on, or they have a first
/// difference.
proof fn lemma_difference_from(a: Seq<u64>, b: Seq<u64>, i: nat) -> (k: Option<nat>)
    ensures
        match k {
            Some(k) => i <= k && segment(a, k as int) != segment(b, k as int) && (forall|j: int|
                i <= j < k ==> segment(a, j) == segment(b, j)),
            None => forall|j: int| i <= j ==> segment(a, j) == segment(b, j),
        },
    decreases longer(a, b) - i,
{
    if i >= longer(a, b) {
        None
    } else if segment(a, i as int) != segment(b, i as int) {
        Some(i)
    } else {
        lemma_difference_from(a, b, i + 1)
    }
}

/// Of two versions one is not below the other, and where neither is below the
/// other they read the same in every segment.
pub proof fn law_versions_are_totally_ordered(a: Seq<u64>, b: Seq<u64>)
    ensures
        at_least(a, b) || at_least(b, a),
        at_least(a, b) && at_least(b, a) <==> forall|i: int|
            0 <= i ==> segment(a, i) == segment(b, i),
{
    match lemma_difference_from(a, b, 0) {
        Some(k) => {
            lemma_first_difference(a, b, 0, k);
            lemma_first_difference(b, a, 0, k);
        },
        None => {
            lemma_no_difference(a, b, 0);
            lemma_no_difference(b, a, 0);
        },
    }
}

/// A version that reaches a floor reaches every floor below it.
pub proof fn law_version_floors_are_transitive(a: Seq<u64>, b: Seq<u64>, c: Seq<u64>)
    requires
        at_least(a, b),
        at_least(b, c),
    ensures
        at_least(a, c),
{
    match (lemma_difference_from(a, b, 0), lemma_difference_from(b, c, 0)) {
        (Some(k), Some(l)) => {
            lemma_first_difference(a, b, 0, k);
            lemma_first_difference(b, c, 0, l);
            if k <= l {
                assert(forall|j: int| 0 <= j < k ==> segment(b, j) == segment(c, j));
                lemma_first_difference(a, c, 0, k);
            } else {
                assert(forall|j: int| 0 <= j < l ==> segment(a, j) == segment(b, j));
                assert(segment(a, l as int) == segment(b, l as int));
                lemma_first_difference(a, c, 0, l);
            }
        },
        (Some(k), None) => {
            lemma_first_difference(a, b, 0, k);
            assert(segment(b, k as int) == segment(c, k as int));
            lemma_first_difference(a, c, 0, k);
        },
        (None, Some(l)) => {
            lemma_first_difference(b, c, 0, l);
            assert(segment(a, l as int) == segment(b, l as int));
            lemma_first_difference(a, c, 0, l);
        },
        (None, None) => {
            lemma_no_difference(a, c, 0);
        },
    }
}

/// Zero segments at the end of a version do not change how it reads.
pub proof fn law_missing_segments_read_as_zero(a: Seq<u64>, b: Seq<u64>)
    ensures
        at_least(a.push(0), b) == at_least(a, b),
        at_least(a, b.push(0)) == at_least(a, b),
{
    assert forall|i: int| segment(a.push(0), i) == segment(a, i) by {}
    assert forall|i: int| segment(b.push(0), i) == segment(b, i) by {}
    match lemma_difference_from(a, b, 0) {
        Some(k) => {
            lemma_first_difference(a, b, 0, k);
            lemma_first_difference(a.push(0), b, 0, k);
            lemma_first_difference(a, b.push(0), 0, k);
        },
        None => {
            lemma_no_difference(a, b, 0);
            lemma_no_difference(a.push(0), b, 0);
            lemma_no_difference(a, b.push(0), 0);
        },
    }
}

/// The leading numeric segments of a version.
fn read_version(version: &str) -> (out: Vec<u64>)
    ensures
        out@ == version_numbers(version@),
{
    let chars: Vec<char> = chars_of(version);
    let ghost sep = segment_break();
    let mut out: Vec<u64> = Vec::new();
    let mut from: usize = 0;
    assert(chars@.skip(0) =~= chars@);
    assert(out@ + numbers(pieces(chars@, sep)) =~= version_numbers(version@));
    loop
        invariant
            chars@ == version@,
            from <= chars@.len(),
            sep == segment_break(),
            version_numbers(version@) == out@ + numbers(pieces(chars@.skip(from as int), sep)),
        decreases chars@.len() - from,
    {
        let ghost rest = chars@.skip(from as int);
        let mut to: usize = from;
        while to < chars.len() && !(chars[to] == '.' || chars[to] == '-' || chars[to] == '+')
            invariant
                from <= to <= chars@.len(),
                rest == chars@.skip(from as int),
                sep == segment_break(),
                forall|k: int| from <= k < to ==> !sep(#[trigger] chars@[k]),
            decreases chars@.len() - to,
        {
            to = to + 1;
        }
        let part: String = range_string(&chars, from, to);
        proof {
            let n: nat = (to - from) as nat;
            assert forall|k: int| 0 <= k < n implies (|c: char| !sep(c))(#[trigger] rest[k]) by {
                assert(rest[k] == chars@[from + k]);
            }
            lemma_leading(rest, |c: char| !sep(c), n);
            assert(part@ =~= rest.take(n as int));
            if to >= chars@.len() {
                assert(part@ =~= rest);
                assert(pieces(rest, sep) =~= seq![part@]);
                assert(pieces(rest, sep).skip(1) =~= seq![]);
            } else {
                assert(rest.skip((n + 1) as int) =~= chars@.skip(to + 1));
                assert(pieces(rest, sep) =~= seq![part@] + pieces(chars@.skip(to + 1), sep));
                assert(pieces(rest, sep).skip(1) =~= pieces(chars@.skip(to + 1), sep));
            }
            assert(pieces(rest, sep)[0] == part@);
        }
        match parse_unsigned(part.as_str()) {
            Some(n) => {
                let ghost before = out@;
                out.push(n);
                assert(before + (seq![n] + numbers(pieces(rest, sep).skip(1))) =~= out@ + numbers(
                    pieces(rest, sep).skip(1),
                ));
            },
            None => {
                assert(out@ + Seq::<u64>::empty() =~= out@);
                return out;
            },
        }
        if to >= chars.len() {
            assert(out@ + Seq::<u64>::empty() =~= out@);
            return out;
        }
        from = to + 1;
    }
}

/// Compare two dotted numeric versions (missing segments read as 0).
pub fn version_at_least(version: &str, minimum: &str) -> (out: bool)
    ensures
        out == at_least(version_numbers(version@), version_numbers(minimum@)),
{
    let a: Vec<u64> = read_version(version);
    let b: Vec<u64> = read_version(minimum);
    let segments: usize = if a.len() >= b.len() {
        a.len()
    } else {
        b.len()
    };
    let mut i: usize = 0;
    while i < segments
        invariant
            i <= segments == longer(a@, b@),
            a@ == version_numbers(version@),
            b@ == version_numbers(minimum@),
            at_least(a@, b@) == at_least_from(a@, b@, i as nat),
        decreases segments - i,
    {
        let x: u64 = if i < a.len() {
            a[i]
        } else {
            0
        };
        let y: u64 = if i < b.len() {
            b[i]
        } else {
            0
        };
        if x != y {
            return x > y;
        }
        i = i + 1;
    }
    true
}

/// Gate a launcher before the tuner trusts it: the product version must reach
/// `min_version`, and then the contract's own check of the version triple and
/// of the pairing, whose outcome is `compatible`, must pass.
pub fn assert_launcher_usable(
    version: &LauncherVersion,
    min_version: &str,
    compatible: Result<(), String>,
) -> (out: Result<(), LauncherError>)
    ensures
        ({
            let reached = at_least(version_numbers(version.version@), version_numbers(min_version@));
            match out {
                Ok(_) => reached && compatible is Ok,
                Err(LauncherError::Incompatible(m)) => if !reached {
                    m@ == "launcher "@ + version.version@ + " is below required "@ + min_version@
                } else {
                    compatible matches Err(why) && m == why
                },
            }
        }),
{
    if !version_at_least(version.version.as_str(), min_version) {
        let mut m: String = "launcher ".to_string();
        m.append(version.version.as_str());
        m.append(" is below required ");
        m.append(min_version);
        return Err(LauncherError::Incompatible(m));
    }
    match compatible {
        Ok(_) => Ok(()),
        Err(why) => Err(LauncherError::Incompatible(why)),
    }
}

// ---------------------------------------------------------------------------
// The pre-flight download
// ---------------------------------------------------------------------------
/// The kinds of artifact a model is made of.
#[derive(Clone, Copy, Debug, PartialEq, Eq, Structural)]
pub enum DownloadKind {
    /// The weights.
    Gguf,
    /// A vision projector, a draft model, or any other module.
    Module,
}

/// The artifact a tuning run needs on disk: the GGUF and nothing else. A trial
/// never loads a vision projector or a draft model, so a catalog that
/// configures them must not make a tuning run pull them.
pub const TUNING_DOWNLOADS: DownloadKind = DownloadKind::Gguf;

/// One artifact of a model, and whether it is on disk.
#[derive(Clone, Debug, PartialEq, Eq)]
pub struct DownloadTarget {
    pub kind: DownloadKind,
    pub present: bool,
    pub path: String,
}

/// What the pre-flight does.
#[derive(Clone, Debug, PartialEq, Eq)]
pub enum Preflight {
    /// The GGUF is on disk, here.
    Ready(String),
    /// Say this line, fetch the one kind, and hand back what came.
    Fetch(String),
}

/// The first artifact of the kind that tuning needs, from `i` on.
pub open spec fn tuning_target(targets: Seq<DownloadTarget>, i: int) -> Option<DownloadTarget>
    decreases targets.len() - i,
{
    if i < 0 || i >= targets.len() {
        None
    } else if targets[i].kind == TUNING_DOWNLOADS {
        Some(targets[i])
    } else {
        tuning_target(targets, i + 1)
    }
}

/// Make sure the model's GGUF is on disk before the first trial: what the
/// catalog's `targets` for the model say is to be done.
pub fn ensure_gguf_on_disk(key: &str, targets: Result<Vec<DownloadTarget>, String>) -> (out: Result<
    Preflight,
    String,
>)
    ensures
        match targets {
            Err(why) => out matches Err(m) && m == why,
            Ok(list) => match tuning_target(list@, 0) {
                None => out matches Err(m) && m@ == key@ + " names no GGUF file to tune"@,
                Some(gguf) => if gguf.present {
                    out matches Ok(Preflight::Ready(path)) && path@ == gguf.path@
                } else {
                    out matches Ok(Preflight::Fetch(line)) && line@
                        == "GGUF not on disk — downloading "@ + gguf.path@ + " …"@
                },
            },
        },
{
    let list: Vec<DownloadTarget> = match targets {
        Ok(list) => list,
        Err(why) => {
            return Err(why);
        },
    };
    let mut i: usize = 0;
    while i < list.len()
        invariant
            i <= list.len(),
            targets == Ok::<Vec<DownloadTarget>, String>(list),
            tuning_target(list@, 0) == tuning_target(list@, i as int),
        decreases list.len() - i,
    {
        if list[i].kind == TUNING_DOWNLOADS {
            if list[i].present {
                return Ok(Preflight::Ready(list[i].path.clone()));
            }
            let mut line: String = "GGUF not on disk — downloading ".to_string();
            line.append(list[i].path.as_str());
            line.append(" …");
            return Ok(Preflight::Fetch(line));
        }
        i = i + 1;
    }
    let mut m: String = key.to_string();
    m.append(" names no GGUF file to tune");
    Err(m)
}

/// What a pre-flight ends with: the line to say, if any, and the path.
#[derive(Debug, PartialEq, Eq)]
pub struct Fetched {
    pub line: Option<String>,
    pub outcome: Result<String, String>,
}

/// What a pre-flight makes of a fetch. A failed fetch never claims completion.
pub fn fetched_gguf(key: &str, fetched: Result<Vec<String>, String>) -> (out: Fetched)
    ensures
        match fetched {
            Err(why) => out.line is None && out.outcome == Err::<String, String>(why),
            Ok(paths) => out.line matches Some(line) && line@ == "Download complete."@ && (
            if paths@.len() > 0 {
                out.outcome matches Ok(path) && path@ == paths@[0]@
            } else {
                out.outcome matches Err(m) && m@ == key@
                    + ": the download reported success but produced no GGUF"@
            }),
        },
{
    match fetched {
        Err(why) => Fetched { line: None, outcome: Err(why) },
        Ok(paths) => {
            let line: Option<String> = Some("Download complete.".to_string());
            if paths.len() > 0 {
                Fetched { line, outcome: Ok(paths[0].clone()) }
            } else {
                let mut m: String = key.to_string();
                m.append(": the download reported success but produced no GGUF");
                Fetched { line, outcome: Err(m) }
            }
        },
    }
}

/// The largest of two numbers' product that fits.
pub open spec fn capped_product(a: u64, b: u64) -> u64 {
    if a * b <= u64::MAX {
        (a * b) as u64
    } else {
        u64::MAX
    }
}

fn product(a: u64, b: u64) -> (out: u64)
    ensures
        out == capped_product(a, b),
{
    match a.checked_mul(b) {
        Some(n) => n,
        None => u64::MAX,
    }
}

/// The step a download stands at: one per 5%, or one per 512 MiB where the
/// total is unknown.
pub open spec fn progress_step(received: u64, total: Option<u64>) -> u64 {
    match total {
        Some(t) => if t > 0 {
            capped_product(received, 20) / t
        } else {
            received / 536_870_912
        },
        None => received / 536_870_912,
    }
}

/// The percentage a download stands at.
pub open spec fn progress_percent(received: u64, total: u64) -> u64 {
    capped_product(received, 100) / if total > 0 {
        total
    } else {
        1
    }
}

/// The line for a download's state, given the worded sizes.
pub open spec fn progress_line(
    received: u64,
    total: Option<u64>,
    received_text: Seq<char>,
    total_text: Seq<char>,
) -> Seq<char> {
    match total {
        Some(t) => "  "@ + received_text + " / "@ + total_text + " ("@ + dec(
            progress_percent(received, t) as nat,
        ) + "%)"@,
        None => "  "@ + received_text,
    }
}

/// Coarse, log-friendly download progress: one line per step, never a spinner.
pub struct ProgressLog {
    last_step: Option<u64>,
}

impl ProgressLog {
    /// The step of the last line.
    pub closed spec fn last_step(self) -> Option<u64> {
        self.last_step
    }

    /// A log without a line.
    pub fn new() -> (out: Self)
        ensures
            out.last_step() is None,
    {
        ProgressLog { last_step: None }
    }

    /// The line for a report, if the step is a new one.
    pub fn report(
        &mut self,
        received: u64,
        total: Option<u64>,
        received_text: &str,
        total_text: &str,
    ) -> (out: Option<String>)
        ensures
            final(self).last_step() == Some(progress_step(received, total)),
            match out {
                Some(line) => old(self).last_step() != Some(progress_step(received, total)) && line@
                    == progress_line(received, total, received_text@, total_text@),
                None => old(self).last_step() == Some(progress_step(received, total)),
            },
    {
        let step: u64 = match total {
            Some(t) => if t > 0 {
                product(received, 20) / t
            } else {
                received / 536_870_912
            },
            None => received / 536_870_912,
        };
        let repeated: bool = match self.last_step {
            Some(last) => last == step,
            None => false,
        };
        if repeated {
            return None;
        }
        self.last_step = Some(step);
        let mut line: String = "  ".to_string();
        line.append(received_text);
        match total {
            Some(t) => {
                line.append(" / ");
                line.append(total_text);
                line.append(" (");
                let whole: u64 = if t > 0 {
                    t
                } else {
                    1
                };
                line.append(dec_u64(product(received, 100) / whole).as_str());
                line.append("%)");
            },
            None => {},
        }
        Some(line)
    }
}

} // verus!

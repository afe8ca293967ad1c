//! The search for the best launch configuration: its vocabulary and the pure
//! rules that its phases share.
use vstd::prelude::*;
use vstd::string::StringExecFns;

#[allow(unused_imports)]
use crate::overrides::{
    join_overrides, number_of, overlaid, put, Overrides, OverridesV, Setting, SettingV,
};
use crate::text::{dec_i64, dec_u64, same};
#[allow(unused_imports)]
use crate::text::{dec, dec_int};

verus! {

/// Default number of candidate lineages retained between phases.
pub const DEFAULT_BEAM_WIDTH: usize = 3;

/// Candidates per parent a screened phase still measures on the server: the
/// screen's best and runner-up, so a screen misjudgement costs one rank.
pub const SCREEN_KEEP: usize = 2;

/// Server trials a screen must save before it is worth running.
pub const SCREEN_MIN_SAVED: usize = 3;

/// How many placement steps past the oracle's edge the VRAM-fit phase probes.
pub const ORACLE_PROBE_STEPS: i64 = 2;

/// How far the VRAM-fit phase backs off when the oracle's own placement runs
/// out of memory.
pub const ORACLE_RECOVERY_STEPS: i64 = 3;

/// The refine grid around a retained `NCpuMoe` when the oracle bounded the
/// search.
pub const ORACLE_REFINE_RADIUS: i64 = 2;

/// Failed fresh verification can discard a winner and try the next beam
/// candidate; the complete retry ladder is reserved before the search spends.
pub const MAX_VERIFICATION_ATTEMPTS: i64 = 3;

/// No run's slack is further from the fitted placement than this.
pub const SLACK_LIMIT: i64 = 3;

/// Trials the KV-type recovery may spend.
pub const KV_RECOVERY_MAX_TRIALS: usize = 4;

/// Trials a phase that has not run yet is guaranteed.
pub const PHASE_TRIAL_FLOOR: i64 = 2;

/// The n-gram speculative type the tuner tries.
pub const NGRAM_SPEC_TYPE: &'static str = "ngram-mod";

/// The phases of a run, in the order in which they run. All but `Verify`
/// spend the search budget.
#[derive(Clone, Copy, Debug, PartialEq, Eq, Structural)]
pub enum Phase {
    Baseline,
    KvRecovery,
    VramFit,
    Batching,
    FlashAttn,
    MemoryFlags,
    CacheFlags,
    Threads,
    KvTypes,
    SpecNgram,
    Refine,
    Verify,
}

/// How many search phases come after `phase`.
pub open spec fn phases_after(phase: Phase) -> int {
    match phase {
        Phase::Baseline => 10,
        Phase::KvRecovery => 9,
        Phase::VramFit => 8,
        Phase::Batching => 7,
        Phase::FlashAttn => 6,
        Phase::MemoryFlags => 5,
        Phase::CacheFlags => 4,
        Phase::Threads => 3,
        Phase::KvTypes => 2,
        Phase::SpecNgram => 1,
        Phase::Refine => 0,
        Phase::Verify => 0,
    }
}

/// The name a phase has in progress lines and trial records.
pub open spec fn phase_name(phase: Phase) -> Seq<char> {
    match phase {
        Phase::Baseline => "baseline"@,
        Phase::KvRecovery => "kv-recovery"@,
        Phase::VramFit => "vram-fit"@,
        Phase::Batching => "batching"@,
        Phase::FlashAttn => "flash-attn"@,
        Phase::MemoryFlags => "memory-flags"@,
        Phase::CacheFlags => "cache-flags"@,
        Phase::Threads => "threads"@,
        Phase::KvTypes => "kv-types"@,
        Phase::SpecNgram => "spec-ngram"@,
        Phase::Refine => "refine"@,
        Phase::Verify => "verify"@,
    }
}

/// The search phase with a given name.
pub open spec fn search_phase_named(name: Seq<char>) -> Option<Phase> {
    if name == "baseline"@ {
        Some(Phase::Baseline)
    } else if name == "kv-recovery"@ {
        Some(Phase::KvRecovery)
    } else if name == "vram-fit"@ {
        Some(Phase::VramFit)
    } else if name == "batching"@ {
        Some(Phase::Batching)
    } else if name == "flash-attn"@ {
        Some(Phase::FlashAttn)
    } else if name == "memory-flags"@ {
        Some(Phase::MemoryFlags)
    } else if name == "cache-flags"@ {
        Some(Phase::CacheFlags)
    } else if name == "threads"@ {
        Some(Phase::Threads)
    } else if name == "kv-types"@ {
        Some(Phase::KvTypes)
    } else if name == "spec-ngram"@ {
        Some(Phase::SpecNgram)
    } else if name == "refine"@ {
        Some(Phase::Refine)
    } else {
        None
    }
}

impl Phase {
    /// The phase's name.
    pub fn name(self) -> (out: &'static str)
        ensures
            out@ == phase_name(self),
    {
        match self {
            Phase::Baseline => "baseline",
            Phase::KvRecovery => "kv-recovery",
            Phase::VramFit => "vram-fit",
            Phase::Batching => "batching",
            Phase::FlashAttn => "flash-attn",
            Phase::MemoryFlags => "memory-flags",
            Phase::CacheFlags => "cache-flags",
            Phase::Threads => "threads",
            Phase::KvTypes => "kv-types",
            Phase::SpecNgram => "spec-ngram",
            Phase::Refine => "refine",
            Phase::Verify => "verify",
        }
    }

    /// How many search phases come after this one.
    pub fn after(self) -> (n: i64)
        ensures
            n == phases_after(self),
            0 <= n <= 10,
    {
        match self {
            Phase::Baseline => 10,
            Phase::KvRecovery => 9,
            Phase::VramFit => 8,
            Phase::Batching => 7,
            Phase::FlashAttn => 6,
            Phase::MemoryFlags => 5,
            Phase::CacheFlags => 4,
            Phase::Threads => 3,
            Phase::KvTypes => 2,
            Phase::SpecNgram => 1,
            Phase::Refine => 0,
            Phase::Verify => 0,
        }
    }

    /// The search phase with a given name.
    pub fn named(name: &str) -> (out: Option<Phase>)
        ensures
            out == search_phase_named(name@),
    {
        if same(name, "baseline") {
            Some(Phase::Baseline)
        } else if same(name, "kv-recovery") {
            Some(Phase::KvRecovery)
        } else if same(name, "vram-fit") {
            Some(Phase::VramFit)
        } else if same(name, "batching") {
            Some(Phase::Batching)
        } else if same(name, "flash-attn") {
            Some(Phase::FlashAttn)
        } else if same(name, "memory-flags") {
            Some(Phase::MemoryFlags)
        } else if same(name, "cache-flags") {
            Some(Phase::CacheFlags)
        } else if same(name, "threads") {
            Some(Phase::Threads)
        } else if same(name, "kv-types") {
            Some(Phase::KvTypes)
        } else if same(name, "spec-ngram") {
            Some(Phase::SpecNgram)
        } else if same(name, "refine") {
            Some(Phase::Refine)
        } else {
            None
        }
    }
}

/// The larger of two integers.
pub open spec fn larger(a: int, b: int) -> int {
    if a >= b {
        a
    } else {
        b
    }
}

/// The cumulative trial count that a phase with `after` phases behind it may
/// not exceed.
pub open spec fn ceiling_with(after: int, trials_at_start: int, search_budget: int) -> int {
    larger(search_budget - after * PHASE_TRIAL_FLOOR, trials_at_start + 1)
}

/// The part of a trial budget that the search may spend: all but the
/// verification ladder, and at least one trial.
pub open spec fn search_share(budget: int) -> int {
    larger(budget - MAX_VERIFICATION_ATTEMPTS, 1)
}

/// The part of a trial budget that the search may spend.
pub fn search_budget_of(budget: i64) -> (out: i64)
    ensures
        out == search_share(budget as int),
{
    if budget > MAX_VERIFICATION_ATTEMPTS {
        budget - MAX_VERIFICATION_ATTEMPTS
    } else {
        1
    }
}

/// The cumulative trial count `phase` may not exceed, so every later phase
/// keeps its floor. A phase always gets at least one trial while the global
/// budget lasts. A name that is no search phase's has no phase after it.
pub fn phase_ceiling(phase: &str, trials_at_phase_start: usize, search_budget: i64) -> (out: i64)
    requires
        trials_at_phase_start < i64::MAX,
    ensures
        out == ceiling_with(
            match search_phase_named(phase@) {
                Some(p) => phases_after(p),
                None => 0,
            },
            trials_at_phase_start as int,
            search_budget as int,
        ),
{
    let after: i64 = match Phase::named(phase) {
        Some(p) => p.after(),
        None => 0,
    };
    ceiling_after(after, trials_at_phase_start as i64, search_budget)
}

/// The ceiling of a phase with `after` phases behind it.
pub fn ceiling_after(after: i64, trials_at_start: i64, search_budget: i64) -> (out: i64)
    requires
        0 <= after <= 10,
        0 <= trials_at_start < i64::MAX,
    ensures
        out == ceiling_with(after as int, trials_at_start as int, search_budget as int),
{
    let reserve: i64 = after * PHASE_TRIAL_FLOOR;
    if search_budget < i64::MIN + reserve {
        return trials_at_start + 1;
    }
    let share: i64 = search_budget - reserve;
    if share >= trials_at_start + 1 {
        share
    } else {
        trials_at_start + 1
    }
}

/// A phase that starts while its reserve is intact leaves every later phase
/// its floor: what it may spend and the floors after it fit the budget.
pub proof fn law_ceiling_leaves_later_floors(phase: Phase, trials: int, search_budget: int)
    requires
        trials + 1 + phases_after(phase) * PHASE_TRIAL_FLOOR <= search_budget,
    ensures
        ceiling_with(phases_after(phase), trials, search_budget) + phases_after(phase)
            * PHASE_TRIAL_FLOOR <= search_budget,
{
}

/// However little budget is left, a phase that starts may spend one trial.
pub proof fn law_ceiling_allows_one_trial(phase: Phase, trials: int, search_budget: int)
    ensures
        ceiling_with(phases_after(phase), trials, search_budget) > trials,
{
}

/// Every search phase is found under its own name.
pub proof fn law_phase_names_are_distinct(phase: Phase)
    requires
        phase != Phase::Verify,
    ensures
        search_phase_named(phase_name(phase)) == Some(phase),
{
    reveal_strlit("baseline");
    reveal_strlit("kv-recovery");
    reveal_strlit("vram-fit");
    reveal_strlit("batching");
    reveal_strlit("flash-attn");
    reveal_strlit("memory-flags");
    reveal_strlit("cache-flags");
    reveal_strlit("threads");
    reveal_strlit("kv-types");
    reveal_strlit("spec-ngram");
    reveal_strlit("refine");
    assert("kv-recovery"@.len() == 11 && "cache-flags"@.len() == 11 && "flash-attn"@.len() == 10);
    assert("spec-ngram"@.len() == 10 && "memory-flags"@.len() == 12 && "threads"@.len() == 7);
    assert("baseline"@.len() == 8 && "vram-fit"@.len() == 8 && "batching"@.len() == 8);
    assert("kv-types"@.len() == 8 && "refine"@.len() == 6);
    // Names of one length differ in a character.
    assert("baseline"@[0] == 'b' && "vram-fit"@[0] == 'v' && "batching"@[2] == 't');
    assert("baseline"@[2] == 's' && "kv-types"@[0] == 'k');
    assert("kv-recovery"@[0] == 'k' && "cache-flags"@[0] == 'c');
    assert("flash-attn"@[0] == 'f' && "spec-ngram"@[0] == 's');
}

/// What a run ranks by.
#[derive(Clone, Copy, Debug, PartialEq, Eq, Structural)]
pub enum ScoreProfile {
    Pure,
    Balanced,
    Both,
}

/// A single ranking profile.
#[derive(Clone, Copy, Debug, PartialEq, Eq, Structural)]
pub enum Profile {
    Pure,
    Balanced,
}

/// The rankable profile used to derive profile-sensitive smart seeds (`Both`
/// tracks both beam frontiers but uses pure-profile seed policy).
pub fn rank_profile(profile: ScoreProfile) -> (out: Profile)
    ensures
        out == (if profile == ScoreProfile::Balanced {
            Profile::Balanced
        } else {
            Profile::Pure
        }),
{
    match profile {
        ScoreProfile::Balanced => Profile::Balanced,
        _ => Profile::Pure,
    }
}

/// Whether a batching pair is dominated by an already-OOM'd pair (equal or
/// larger on both axes never fits either).
pub open spec fn dominated(ub: int, b: int, oomed: Seq<(i64, i64)>) -> bool {
    exists|i: int| 0 <= i < oomed.len() && ub >= (#[trigger] oomed[i]).0 && b >= oomed[i].1
}

/// Whether a batching pair is dominated by an already-OOM'd pair.
pub fn batching_dominated(ub: i64, b: i64, oomed: &[(i64, i64)]) -> (out: bool)
    ensures
        out == dominated(ub as int, b as int, oomed@),
{
    let mut i: usize = 0;
    while i < oomed.len()
        invariant
            i <= oomed@.len(),
            forall|k: int|
                0 <= k < i ==> !(ub >= (#[trigger] oomed@[k]).0 && b >= oomed@[k].1),
        decreases oomed@.len() - i,
    {
        if ub >= oomed[i].0 && b >= oomed[i].1 {
            assert(ub >= oomed@[i as int].0);
            return true;
        }
        i = i + 1;
    }
    false
}

/// Dominance is monotone: a pair no smaller on either axis than a dominated
/// one is dominated too, and more failures never lift a verdict.
pub proof fn law_dominance_is_monotone(
    ub: int,
    b: int,
    ub2: int,
    b2: int,
    oomed: Seq<(i64, i64)>,
    failed: (i64, i64),
)
    requires
        dominated(ub, b, oomed),
        ub2 >= ub,
        b2 >= b,
    ensures
        dominated(ub2, b2, oomed),
        dominated(ub, b, oomed.push(failed)),
{
    let i = choose|i: int|
        0 <= i < oomed.len() && ub >= (#[trigger] oomed[i]).0 && b >= oomed[i].1;
    assert(ub2 >= oomed[i].0 && b2 >= oomed[i].1);
    assert(oomed.push(failed)[i] == oomed[i]);
}

// ---------------------------------------------------------------------------
// KV cache pairs
// ---------------------------------------------------------------------------
/// The cache types of the K and the V tensors.
#[derive(Clone, Debug, PartialEq, Eq)]
pub struct KvPair {
    pub k: String,
    pub v: String,
}

impl KvPair {
    /// A copy of the pair.
    pub fn copy(&self) -> (out: KvPair)
        ensures
            out == *self,
    {
        KvPair { k: self.k.clone(), v: self.v.clone() }
    }

    /// Whether both types are the same.
    pub fn same(&self, other: &KvPair) -> (r: bool)
        ensures
            r == same_pair(*self, *other),
    {
        self.k == other.k && self.v == other.v
    }

    /// The overrides that choose this pair.
    pub fn overlay(&self) -> (out: Overrides)
        ensures
            out@ == kv_overlay(*self),
    {
        Overrides::new().with("KvK", Setting::Text(self.k.clone())).with(
            "KvV",
            Setting::Text(self.v.clone()),
        )
    }
}

/// Whether two pairs name the same types.
pub open spec fn same_pair(a: KvPair, b: KvPair) -> bool {
    a.k@ == b.k@ && a.v@ == b.v@
}

/// The overrides that choose a pair.
pub open spec fn kv_overlay(pair: KvPair) -> OverridesV {
    put(
        put(Seq::empty(), "KvK"@, SettingV::Text(pair.k@)),
        "KvV"@,
        SettingV::Text(pair.v@),
    )
}

/// The overrides that set one number.
pub open spec fn number_overlay(key: Seq<char>, n: int) -> OverridesV {
    put(Seq::empty(), key, SettingV::Number(n))
}

/// The overrides that set one flag.
pub open spec fn flag_overlay(key: Seq<char>, b: bool) -> OverridesV {
    put(Seq::empty(), key, SettingV::Flag(b))
}

/// `base` with one number set.
pub fn with_number(base: &Overrides, key: &str, n: i64) -> (out: Overrides)
    ensures
        out@ == overlaid(base@, number_overlay(key@, n as int)),
{
    let overlay: Overrides = Overrides::new().with(key, Setting::Number(n));
    join_overrides(base, &overlay)
}

/// The memory-flag candidates worth measuring on a host: loading into RAM
/// (`NoMmap`) and locking (`Mlock`) only where it is recommended.
pub open spec fn memory_overlays(mlock: bool, no_mmap: bool) -> Seq<OverridesV> {
    if mlock && no_mmap {
        seq![
            flag_overlay("Mlock"@, true),
            flag_overlay("NoMmap"@, true),
            put(flag_overlay("Mlock"@, true), "NoMmap"@, SettingV::Flag(true)),
        ]
    } else if mlock {
        seq![flag_overlay("Mlock"@, true)]
    } else if no_mmap {
        seq![flag_overlay("NoMmap"@, true)]
    } else {
        seq![]
    }
}

/// Whether loading into RAM and locking are worth trying on a host.
#[derive(Clone, Copy, Debug, PartialEq, Eq, Structural)]
pub struct MmapRecommendation {
    pub mlock: bool,
    pub no_mmap: bool,
}

/// The memory-flag candidates worth measuring on a host.
pub fn memory_flag_overlays(recommendation: MmapRecommendation) -> (out: Vec<Overrides>)
    ensures
        crate::overrides::all_views(out@) == memory_overlays(
            recommendation.mlock,
            recommendation.no_mmap,
        ),
{
    let mut out: Vec<Overrides> = Vec::new();
    if recommendation.mlock {
        out.push(Overrides::new().with("Mlock", Setting::Flag(true)));
    }
    if recommendation.no_mmap {
        out.push(Overrides::new().with("NoMmap", Setting::Flag(true)));
    }
    if recommendation.mlock && recommendation.no_mmap {
        out.push(
            Overrides::new().with("Mlock", Setting::Flag(true)).with("NoMmap", Setting::Flag(true)),
        );
    }
    assert(crate::overrides::all_views(out@) =~= memory_overlays(
        recommendation.mlock,
        recommendation.no_mmap,
    ));
    out
}

// ---------------------------------------------------------------------------
// The memory fitter's answers
// ---------------------------------------------------------------------------
/// One device of a fitted placement.
#[derive(Clone, Debug, PartialEq, Eq)]
pub struct FitDevice {
    pub name: String,
    pub used_mib: u64,
    pub free_mib: u64,
}

/// Where a memory shape fits: how many layers go to the GPU (negative: every
/// layer), how many expert blocks stay on the CPU, and the first device.
#[derive(Clone, Debug, PartialEq, Eq)]
pub struct FitPlacement {
    pub gpu_layers: i64,
    pub n_cpu_moe: u32,
    pub device: Option<FitDevice>,
}

/// The device part of a placement line.
pub open spec fn device_text(device: Option<FitDevice>) -> Seq<char> {
    match device {
        None => seq![],
        Some(d) => " ("@ + dec(d.used_mib as nat) + " MiB used, "@ + dec(d.free_mib as nat)
            + " MiB free on "@ + d.name@ + ")"@,
    }
}

/// One progress line describing a placement.
pub open spec fn oracle_note_text(fit: FitPlacement, is_moe: bool) -> Seq<char> {
    if is_moe {
        "oracle: fits with NCpuMoe="@ + dec(fit.n_cpu_moe as nat) + device_text(fit.device)
    } else if fit.gpu_layers < 0 {
        "oracle: every layer fits on the GPU"@ + device_text(fit.device)
    } else {
        "oracle: fits with NGpuLayers="@ + dec_int(fit.gpu_layers as int) + device_text(fit.device)
    }
}

/// One progress line describing the oracle's placement.
pub fn oracle_note(fit: &FitPlacement, is_moe: bool) -> (out: String)
    ensures
        out@ == oracle_note_text(*fit, is_moe),
{
    let mut device: String = String::new();
    match &fit.device {
        None => {},
        Some(d) => {
            device.append(" (");
            device.append(dec_u64(d.used_mib).as_str());
            device.append(" MiB used, ");
            device.append(dec_u64(d.free_mib).as_str());
            device.append(" MiB free on ");
            device.append(d.name.as_str());
            device.append(")");
            assert(Seq::<char>::empty() + " ("@ =~= " ("@);
        },
    }
    assert(device@ == device_text(fit.device));
    if is_moe {
        let mut out: String = "oracle: fits with NCpuMoe=".to_string();
        out.append(dec_u64(fit.n_cpu_moe as u64).as_str());
        out.append(device.as_str());
        out
    } else if fit.gpu_layers < 0 {
        let mut out: String = "oracle: every layer fits on the GPU".to_string();
        out.append(device.as_str());
        out
    } else {
        let mut out: String = "oracle: fits with NGpuLayers=".to_string();
        out.append(dec_i64(fit.gpu_layers).as_str());
        out.append(device.as_str());
        out
    }
}

/// The placement value that a memory shape needs, when `overrides` asks for
/// less: the fewest expert blocks on the CPU of a mixture model, the most
/// layers on the GPU of a dense one.
pub open spec fn refit_value(
    fit: FitPlacement,
    overrides: OverridesV,
    is_moe: bool,
    slack: int,
) -> Option<int> {
    if is_moe {
        let floor = larger(fit.n_cpu_moe - slack, 0);
        let asked = match number_of(overrides, "NCpuMoe"@) {
            Some(n) => n,
            None => 0,
        };
        if asked < floor {
            Some(floor)
        } else {
            None
        }
    } else if fit.gpu_layers < 0 {
        None
    } else {
        let cap = larger(fit.gpu_layers + slack, 1);
        match number_of(overrides, "NGpuLayers"@) {
            Some(layers) => if layers > cap {
                Some(cap)
            } else {
                None
            },
            None => Some(cap),
        }
    }
}

/// The key that places a model on the GPU.
pub open spec fn placement_key(is_moe: bool) -> Seq<char> {
    if is_moe {
        "NCpuMoe"@
    } else {
        "NGpuLayers"@
    }
}

/// The progress note of a refit to `value`.
pub open spec fn refit_note(overrides: OverridesV, is_moe: bool, value: int) -> Seq<char> {
    if is_moe {
        let asked = match number_of(overrides, "NCpuMoe"@) {
            Some(n) => n,
            None => 0,
        };
        "NCpuMoe "@ + dec_int(asked) + " -> "@ + dec_int(value)
            + ": this memory shape needs more of the model on the CPU"@
    } else {
        let asked = match number_of(overrides, "NGpuLayers"@) {
            Some(n) => dec_int(n),
            None => "all"@,
        };
        "NGpuLayers "@ + asked + " -> "@ + dec_int(value)
            + ": this memory shape does not fit every layer"@
    }
}

/// The candidate with its placement moved to what its memory shape needs
/// (per the fitter's `fit`, corrected by the slack this host showed), when it
/// asked for less, with a note that says so. `None` when it already fits.
pub fn refit_for_shape(fit: &FitPlacement, overrides: &Overrides, is_moe: bool, slack: i64) -> (out:
    Option<(Overrides, String)>)
    requires
        -SLACK_LIMIT <= slack <= SLACK_LIMIT,
        fit.gpu_layers <= i64::MAX - SLACK_LIMIT,
    ensures
        match out {
            Some((adjusted, note)) => refit_value(*fit, overrides@, is_moe, slack as int) is Some
                && ({
                let value = refit_value(*fit, overrides@, is_moe, slack as int).unwrap();
                &&& adjusted@ == overlaid(overrides@, number_overlay(placement_key(is_moe), value))
                &&& note@ == refit_note(overrides@, is_moe, value)
            }),
            None => refit_value(*fit, overrides@, is_moe, slack as int) is None,
        },
{
    if is_moe {
        let raw: i64 = fit.n_cpu_moe as i64 - slack;
        let floor: i64 = if raw >= 0 {
            raw
        } else {
            0
        };
        let asked: i64 = match overrides.number("NCpuMoe") {
            Some(n) => n,
            None => 0,
        };
        if asked < floor {
            let adjusted: Overrides = with_number(overrides, "NCpuMoe", floor);
            let mut note: String = "NCpuMoe ".to_string();
            note.append(dec_i64(asked).as_str());
            note.append(" -> ");
            note.append(dec_i64(floor).as_str());
            note.append(": this memory shape needs more of the model on the CPU");
            Some((adjusted, note))
        } else {
            None
        }
    } else {
        if fit.gpu_layers < 0 {
            return None;
        }
        let raw: i64 = fit.gpu_layers + slack;
        let cap: i64 = if raw >= 1 {
            raw
        } else {
            1
        };
        let asked: Option<i64> = overrides.number("NGpuLayers");
        let needed: bool = match asked {
            Some(layers) => layers > cap,
            None => true,
        };
        if needed {
            let adjusted: Overrides = with_number(overrides, "NGpuLayers", cap);
            let mut note: String = "NGpuLayers ".to_string();
            match asked {
                Some(layers) => {
                    note.append(dec_i64(layers).as_str());
                },
                None => {
                    note.append("all");
                },
            }
            note.append(" -> ");
            note.append(dec_i64(cap).as_str());
            note.append(": this memory shape does not fit every layer");
            Some((adjusted, note))
        } else {
            None
        }
    }
}

/// A refitted candidate asks for exactly what its shape needs, so refitting
/// it again changes nothing, and no other setting is touched.
pub proof fn law_refit_settles(
    fit: FitPlacement,
    overrides: OverridesV,
    is_moe: bool,
    slack: int,
    other: Seq<char>,
)
    requires
        crate::overrides::ordered(overrides),
        refit_value(fit, overrides, is_moe, slack) is Some,
    ensures
        ({
            let value = refit_value(fit, overrides, is_moe, slack).unwrap();
            let adjusted = overlaid(overrides, number_overlay(placement_key(is_moe), value));
            &&& number_of(adjusted, placement_key(is_moe)) == Some(value)
            &&& refit_value(fit, adjusted, is_moe, slack) is None
            &&& other != placement_key(is_moe) ==> crate::overrides::value_of(adjusted, other)
                == crate::overrides::value_of(overrides, other)
        }),
{
    let value = refit_value(fit, overrides, is_moe, slack).unwrap();
    let key = placement_key(is_moe);
    let one = number_overlay(key, value);
    assert(one =~= seq![(key, SettingV::Number(value))]);
    assert(overlaid(overrides, one) == put(overrides, key, SettingV::Number(value))) by {
        assert(one.drop_last() =~= Seq::empty());
        assert(overlaid(overrides, one.drop_last()) == overrides);
    }
    crate::overrides::law_value_after_put(overrides, key, SettingV::Number(value), key);
    crate::overrides::law_value_after_put(overrides, key, SettingV::Number(value), other);
}

// ---------------------------------------------------------------------------
// What a trial tells the search
// ---------------------------------------------------------------------------
/// Where a trial's evidence is kept.
#[derive(Clone, Debug, PartialEq, Eq)]
pub struct Evidence {
    pub log_path: String,
    pub manifest_path: String,
}

/// What the search reads from one measured trial.
#[derive(Clone, Debug, PartialEq, Eq)]
pub struct TrialFacts {
    /// The measurement can be scored.
    pub usable: bool,
    /// The failure is evidence that the configuration needs more memory.
    pub needs_memory_recovery: bool,
    /// The failure is evidence that the KV cache pair cannot produce text.
    pub needs_kv_recovery: bool,
    /// The candidate cannot seed the search.
    pub seed_failed: bool,
    pub oom: bool,
    /// The score fell below the spill ratio of the candidate measured just
    /// before it.
    pub spilled: bool,
    /// The score, in progress-line form.
    pub score: String,
    /// The typed failure's summary.
    pub failure: Option<String>,
    pub evidence: Option<Evidence>,
}

/// The evidence part of a trial's summary.
pub open spec fn evidence_text(evidence: Option<Evidence>) -> Seq<char> {
    match evidence {
        None => seq![],
        Some(e) => {
            let path = if e.log_path@.len() == 0 {
                e.manifest_path@
            } else {
                e.log_path@
            };
            if path.len() == 0 {
                seq![]
            } else {
                " (evidence: "@ + path + ")"@
            }
        },
    }
}

/// What a progress line says of a trial: its score when it is usable, else
/// its failure, else that it ran out of memory, else that it is unusable.
pub open spec fn summary_text(trial: TrialFacts) -> Seq<char> {
    let head = if trial.usable {
        trial.score@
    } else {
        match trial.failure {
            Some(f) => f@,
            None => if trial.oom {
                "readiness/out_of_memory"@
            } else {
                "unusable_measurement"@
            },
        }
    };
    head + evidence_text(trial.evidence)
}

/// What a progress line says of a trial.
pub fn trial_summary(trial: &TrialFacts) -> (out: String)
    ensures
        out@ == summary_text(*trial),
{
    let mut out: String = if trial.usable {
        trial.score.clone()
    } else {
        match &trial.failure {
            Some(f) => f.clone(),
            None => if trial.oom {
                "readiness/out_of_memory".to_string()
            } else {
                "unusable_measurement".to_string()
            },
        }
    };
    let ghost head = out@;
    match &trial.evidence {
        None => {},
        Some(e) => {
            let path: &str = if e.log_path.as_str().is_empty() {
                e.manifest_path.as_str()
            } else {
                e.log_path.as_str()
            };
            if !path.is_empty() {
                out.append(" (evidence: ");
                out.append(path);
                out.append(")");
                assert(out@ =~= head + (" (evidence: "@ + path@ + ")"@));
            }
        },
    }
    assert(out@ =~= head + evidence_text(trial.evidence));
    out
}

} // verus!

//! `llama-bench` screening: order a phase's candidates by throughput measured
//! in one `llama-bench` process, so only the most promising get a full server
//! measurement.
//!
//! A screen result is never a measurement. It only decides which candidates
//! are worth a real trial.
use vstd::prelude::*;
use vstd::string::StringExecFns;

use crate::json::{parse_json, Json};
#[allow(unused_imports)]
use crate::json::{
    as_i64, items_of, json_of, maybe, member, member_text, trees, JsonV,
};
use crate::overrides::stands_before;
#[allow(unused_imports)]
use crate::overrides::{before, law_key_order};
use crate::text::{
    chars_of, copy_strings, dec_i64, dec_u64, join, lower_chars, same, string_of, trim,
};
#[allow(unused_imports)]
use crate::text::{dec, dec_int, joined, lowered, trimmed, views};

verus! {

/// Prompt tokens per screening test: large enough that prefill speed, which
/// dominates a coding agent's latency, shows up.
pub const SCREEN_PROMPT_TOKENS: u32 = 2048;

/// Generated tokens per screening test.
pub const SCREEN_GEN_TOKENS: u32 = 128;

/// Repetitions per screening test (the server verify samples again).
pub const SCREEN_REPETITIONS: u32 = 2;

/// The `llama-bench` executable name for a platform.
pub fn bench_exe_name(windows: bool) -> (out: String)
    ensures
        out@ == if windows {
            "llama-bench.exe"@
        } else {
            "llama-bench"@
        },
{
    if windows {
        "llama-bench.exe".to_string()
    } else {
        "llama-bench".to_string()
    }
}

// ---------------------------------------------------------------------------
// Shapes
// ---------------------------------------------------------------------------
/// One flag and its value.
#[derive(Clone, Debug, PartialEq, Eq)]
pub struct BenchFlag {
    pub flag: String,
    pub value: String,
}

/// Flags and values, mathematically.
pub type FlagsV = Seq<(Seq<char>, Seq<char>)>;

/// The flags and values of a list.
pub open spec fn flags_view(flags: Seq<BenchFlag>) -> FlagsV {
    flags.map_values(|f: BenchFlag| (f.flag@, f.value@))
}

/// The launch parameters that `llama-bench` has a flag for.
#[derive(Clone, Copy, Debug, PartialEq, Eq)]
pub struct BenchParams {
    pub n_gpu_layers: Option<i64>,
    pub n_cpu_moe: Option<i64>,
    pub mlock: Option<bool>,
    pub no_mmap: Option<bool>,
    pub ubatch_size: Option<i64>,
    pub batch_size: Option<i64>,
    pub flash_attn: Option<bool>,
    pub threads: Option<i64>,
}

/// How a build spells its load flags.
#[derive(Clone, Copy, Debug, PartialEq, Eq, Structural)]
pub enum LoadFlags {
    /// One load-mode flag.
    LoadMode,
    /// A flag of its own for memory mapping.
    Legacy,
}

/// One candidate as `llama-bench` sees it.
#[derive(Clone, Debug, PartialEq, Eq)]
pub struct BenchShape {
    /// Values that reload the model when they change.
    pub model: Vec<BenchFlag>,
    /// Values `llama-bench` sweeps in-process.
    pub context: Vec<BenchFlag>,
}

/// A shape, mathematically.
#[verifier::ext_equal]
pub struct ShapeV {
    pub model: FlagsV,
    pub context: FlagsV,
}

impl View for BenchShape {
    type V = ShapeV;

    open spec fn view(&self) -> ShapeV {
        ShapeV { model: flags_view(self.model@), context: flags_view(self.context@) }
    }
}

/// A number that counts only if it is positive.
pub open spec fn positive(n: Option<i64>) -> Option<int> {
    match n {
        Some(n) => if n > 0 {
            Some(n as int)
        } else {
            None
        },
        None => None,
    }
}

/// A flag for a positive number, none otherwise.
pub open spec fn number_flag(flag: Seq<char>, n: Option<i64>) -> FlagsV {
    match positive(n) {
        Some(n) => seq![(flag, dec_int(n))],
        None => seq![],
    }
}

/// Whether a switch is set; an unset one is off.
pub open spec fn is_set(flag: Option<bool>) -> bool {
    match flag {
        Some(b) => b,
        None => false,
    }
}

/// The flags of how the model is loaded.
pub open spec fn load_flags(mlock: bool, no_mmap: bool, load: LoadFlags) -> FlagsV {
    match load {
        LoadFlags::LoadMode => match (mlock, no_mmap) {
            (false, false) => seq![],
            (false, true) => seq![("-lm"@, "none"@)],
            (true, false) => seq![("-lm"@, "mmap+mlock"@)],
            (true, true) => seq![("-lm"@, "mlock"@)],
        },
        LoadFlags::Legacy => if no_mmap {
            seq![("-mmp"@, "0"@)]
        } else {
            seq![]
        },
    }
}

pub open spec fn on_off(on: bool) -> Seq<char> {
    if on {
        "on"@
    } else {
        "off"@
    }
}

/// The flag of a switch that is set to something.
pub open spec fn flash_flag(flash: Option<bool>) -> FlagsV {
    match flash {
        Some(on) => seq![("-fa"@, on_off(on))],
        None => seq![],
    }
}

/// A candidate's launch parameters as `llama-bench` flags.
pub open spec fn shape_of(
    params: BenchParams,
    k_type: Seq<char>,
    v_type: Seq<char>,
    load: LoadFlags,
) -> ShapeV {
    ShapeV {
        model: seq![
            (
                "-ngl"@,
                match positive(params.n_gpu_layers) {
                    Some(n) => dec_int(n),
                    None => dec_int(99),
                },
            ),
            (
                "-ncmoe"@,
                match params.n_cpu_moe {
                    Some(n) => dec_int(n as int),
                    None => dec_int(0),
                },
            ),
        ] + load_flags(is_set(params.mlock), is_set(params.no_mmap), load),
        context: seq![("-ctk"@, lowered(k_type)), ("-ctv"@, lowered(v_type))] + number_flag(
            "-ub"@,
            params.ubatch_size,
        ) + number_flag("-b"@, params.batch_size) + flash_flag(params.flash_attn) + number_flag(
            "-t"@,
            params.threads,
        ),
    }
}

fn push_flag(flags: &mut Vec<BenchFlag>, flag: &str, value: &str)
    ensures
        flags_view(final(flags)@) == flags_view(old(flags)@).push((flag@, value@)),
{
    let one: BenchFlag = BenchFlag { flag: flag.to_string(), value: value.to_string() };
    flags.push(one);
    assert(flags_view(flags@) =~= flags_view(old(flags)@).push((flag@, value@)));
}

fn push_number(flags: &mut Vec<BenchFlag>, flag: &str, n: Option<i64>)
    ensures
        flags_view(final(flags)@) == flags_view(old(flags)@) + number_flag(flag@, n),
{
    match n {
        Some(n) => {
            if n > 0 {
                push_flag(flags, flag, dec_i64(n).as_str());
            }
        },
        None => {},
    }
    assert(flags_view(flags@) =~= flags_view(old(flags)@) + number_flag(flag@, n));
}

fn set_or_off(flag: Option<bool>) -> (out: bool)
    ensures
        out == is_set(flag),
{
    match flag {
        Some(b) => b,
        None => false,
    }
}

/// Translate a candidate's launch parameters into `llama-bench` flags.
pub fn bench_shape(params: &BenchParams, k_type: &str, v_type: &str, load: LoadFlags) -> (out:
    BenchShape)
    ensures
        out@ == shape_of(*params, k_type@, v_type@, load),
{
    let mut model: Vec<BenchFlag> = Vec::new();
    assert(flags_view(model@) =~= seq![]);
    let layers: String = match params.n_gpu_layers {
        Some(n) => if n > 0 {
            dec_i64(n)
        } else {
            dec_i64(99)
        },
        None => dec_i64(99),
    };
    push_flag(&mut model, "-ngl", layers.as_str());
    let experts: String = match params.n_cpu_moe {
        Some(n) => dec_i64(n),
        None => dec_i64(0),
    };
    push_flag(&mut model, "-ncmoe", experts.as_str());
    let ghost head = flags_view(model@);
    let mlock: bool = set_or_off(params.mlock);
    let no_mmap: bool = set_or_off(params.no_mmap);
    match load {
        LoadFlags::LoadMode => match (mlock, no_mmap) {
            (false, false) => {},
            (false, true) => push_flag(&mut model, "-lm", "none"),
            (true, false) => push_flag(&mut model, "-lm", "mmap+mlock"),
            (true, true) => push_flag(&mut model, "-lm", "mlock"),
        },
        LoadFlags::Legacy => {
            if no_mmap {
                push_flag(&mut model, "-mmp", "0");
            }
        },
    }
    assert(flags_view(model@) =~= head + load_flags(mlock, no_mmap, load));
    let mut context: Vec<BenchFlag> = Vec::new();
    assert(flags_view(context@) =~= seq![]);
    push_flag(
        &mut context,
        "-ctk",
        string_of(&lower_chars(&chars_of(k_type))).as_str(),
    );
    push_flag(
        &mut context,
        "-ctv",
        string_of(&lower_chars(&chars_of(v_type))).as_str(),
    );
    assert(flags_view(context@) =~= seq![("-ctk"@, lowered(k_type@)), ("-ctv"@, lowered(v_type@))]);
    push_number(&mut context, "-ub", params.ubatch_size);
    push_number(&mut context, "-b", params.batch_size);
    let ghost front = flags_view(context@);
    match params.flash_attn {
        Some(on) => push_flag(
            &mut context,
            "-fa",
            if on {
                "on"
            } else {
                "off"
            },
        ),
        None => {},
    }
    assert(flags_view(context@) =~= front + flash_flag(params.flash_attn));
    push_number(&mut context, "-t", params.threads);
    let out: BenchShape = BenchShape { model, context };
    assert(out@.model =~= shape_of(*params, k_type@, v_type@, load).model);
    out
}

// ---------------------------------------------------------------------------
// Argument lists
// ---------------------------------------------------------------------------
/// Flags with the values they sweep, in flag order.
pub type SweepV = Seq<(Seq<char>, Seq<Seq<char>>)>;

/// A sweep with one more value of a flag: each value once, in the order of
/// first use.
pub open spec fn swept_also(sweep: SweepV, flag: Seq<char>, value: Seq<char>) -> SweepV
    decreases sweep.len(),
{
    if sweep.len() == 0 {
        seq![(flag, seq![value])]
    } else if sweep[0].0 == flag {
        if sweep[0].1.contains(value) {
            sweep
        } else {
            seq![(flag, sweep[0].1.push(value))] + sweep.skip(1)
        }
    } else if before(flag, sweep[0].0) {
        seq![(flag, seq![value])] + sweep
    } else {
        seq![sweep[0]] + swept_also(sweep.skip(1), flag, value)
    }
}

/// A sweep with the first `n` of some flags.
pub open spec fn swept_flags(sweep: SweepV, flags: FlagsV, n: int) -> SweepV
    decreases n,
{
    if n <= 0 {
        sweep
    } else {
        swept_also(swept_flags(sweep, flags, n - 1), flags[n - 1].0, flags[n - 1].1)
    }
}

/// The sweep of the context flags of the first `n` shapes.
pub open spec fn swept(group: Seq<ShapeV>, n: int) -> SweepV
    decreases n,
{
    if n <= 0 {
        seq![]
    } else {
        swept_flags(
            swept(group, n - 1),
            group[n - 1].context,
            group[n - 1].context.len() as int,
        )
    }
}

/// The arguments of some flags.
pub open spec fn flag_args(flags: FlagsV, n: int) -> Seq<Seq<char>>
    decreases n,
{
    if n <= 0 {
        seq![]
    } else {
        flag_args(flags, n - 1) + seq![flags[n - 1].0, flags[n - 1].1]
    }
}

/// The arguments of a sweep: each flag with the comma list of its values.
pub open spec fn sweep_args(sweep: SweepV, n: int) -> Seq<Seq<char>>
    decreases n,
{
    if n <= 0 {
        seq![]
    } else {
        sweep_args(sweep, n - 1) + seq![sweep[n - 1].0, joined(sweep[n - 1].1, ","@)]
    }
}

/// The arguments of what every screening test measures.
pub open spec fn test_args() -> Seq<Seq<char>> {
    seq![
        "-p"@,
        dec(SCREEN_PROMPT_TOKENS as nat),
        "-n"@,
        dec(SCREEN_GEN_TOKENS as nat),
        "-r"@,
        dec(SCREEN_REPETITIONS as nat),
        "-o"@,
        "json"@,
    ]
}

/// The argument list for a group of candidates that share model values.
pub open spec fn group_args(model_path: Seq<char>, model: FlagsV, group: Seq<ShapeV>) -> Seq<
    Seq<char>,
> {
    let sweep = swept(group, group.len() as int);
    seq!["-m"@, model_path] + flag_args(model, model.len() as int) + sweep_args(
        sweep,
        sweep.len() as int,
    ) + test_args()
}

/// One flag of a sweep and its values.
struct SweepFlag {
    flag: String,
    values: Vec<String>,
}

spec fn sweep_view(sweep: Seq<SweepFlag>) -> SweepV {
    sweep.map_values(|f: SweepFlag| (f.flag@, views(f.values@)))
}

fn has_value(values: &Vec<String>, value: &str) -> (out: bool)
    ensures
        out == views(values@).contains(value@),
{
    let mut i: usize = 0;
    while i < values.len()
        invariant
            i <= values.len(),
            forall|k: int| 0 <= k < i ==> #[trigger] views(values@)[k] != value@,
        decreases values.len() - i,
    {
        if same(values[i].as_str(), value) {
            assert(views(values@)[i as int] == value@);
            return true;
        }
        i = i + 1;
    }
    assert(!views(values@).contains(value@)) by {
        if views(values@).contains(value@) {
            let k = choose|k: int| 0 <= k < views(values@).len() && views(values@)[k] == value@;
            assert(views(values@)[k] != value@);
        }
    }
    false
}

fn sweep_also(sweep: &mut Vec<SweepFlag>, flag: &str, value: &str)
    ensures
        sweep_view(final(sweep)@) == swept_also(sweep_view(old(sweep)@), flag@, value@),
{
    let ghost all = sweep_view(sweep@);
    let wanted: Vec<char> = chars_of(flag);
    let mut i: usize = 0;
    assert(all.skip(0) =~= all);
    assert(all.take(0) + swept_also(all, flag@, value@) =~= swept_also(all, flag@, value@));
    while i < sweep.len()
        invariant
            i <= sweep.len(),
            sweep@ == old(sweep)@,
            all == sweep_view(sweep@),
            wanted@ == flag@,
            swept_also(all, flag@, value@) == all.take(i as int) + swept_also(
                all.skip(i as int),
                flag@,
                value@,
            ),
        decreases sweep.len() - i,
    {
        proof {
            assert(all.skip(i as int)[0] == all[i as int]);
            assert(all[i as int] == (sweep@[i as int].flag@, views(sweep@[i as int].values@)));
            assert(all.skip(i as int).skip(1) =~= all.skip(i + 1));
        }
        if same(sweep[i].flag.as_str(), flag) {
            if has_value(&sweep[i].values, value) {
                assert(all.take(i as int) + all.skip(i as int) =~= all);
                return;
            }
            let mut values: Vec<String> = copy_strings(&sweep[i].values);
            let ghost was = views(values@);
            values.push(value.to_string());
            assert(views(values@) =~= was.push(value@));
            let one: SweepFlag = SweepFlag { flag: flag.to_string(), values };
            sweep.set(i, one);
            proof {
                let now = sweep_view(sweep@);
                assert(now =~= all.update(i as int, (flag@, was.push(value@))));
                assert(now =~= all.take(i as int) + (seq![(flag@, was.push(value@))] + all.skip(
                    i + 1,
                )));
            }
            return;
        }
        let other: Vec<char> = chars_of(sweep[i].flag.as_str());
        if stands_before(&wanted, &other) {
            let mut values: Vec<String> = Vec::new();
            values.push(value.to_string());
            assert(views(values@) =~= seq![value@]);
            let one: SweepFlag = SweepFlag { flag: flag.to_string(), values };
            sweep.insert(i, one);
            proof {
                let now = sweep_view(sweep@);
                assert(now =~= all.insert(i as int, (flag@, seq![value@])));
                assert(now =~= all.take(i as int) + (seq![(flag@, seq![value@])] + all.skip(
                    i as int,
                )));
            }
            return;
        }
        proof {
            assert(all.take(i as int) + (seq![all[i as int]] + swept_also(
                all.skip(i + 1),
                flag@,
                value@,
            )) =~= all.take(i + 1) + swept_also(all.skip(i + 1), flag@, value@));
        }
        i = i + 1;
    }
    let mut values: Vec<String> = Vec::new();
    values.push(value.to_string());
    assert(views(values@) =~= seq![value@]);
    let one: SweepFlag = SweepFlag { flag: flag.to_string(), values };
    sweep.push(one);
    proof {
        let now = sweep_view(sweep@);
        assert(all.skip(i as int) =~= seq![]);
        assert(now =~= all.push((flag@, seq![value@])));
        assert(now =~= all.take(i as int) + seq![(flag@, seq![value@])]);
    }
}

fn push_arg(args: &mut Vec<String>, arg: &str)
    ensures
        views(final(args)@) == views(old(args)@).push(arg@),
{
    args.push(arg.to_string());
    assert(views(args@) =~= views(old(args)@).push(arg@));
}

/// The shapes that some places of a list hold.
pub open spec fn picked(shapes: Seq<BenchShape>, group: Seq<usize>) -> Seq<ShapeV> {
    group.map_values(|i: usize| shapes[i as int]@)
}

/// The `llama-bench` argv for a group of candidates sharing model values: each
/// context flag carries the comma list of every value in the group. The group
/// is given as places in `shapes`.
pub fn bench_args(
    model_path: &str,
    model: &Vec<BenchFlag>,
    shapes: &Vec<BenchShape>,
    group: &Vec<usize>,
) -> (out: Vec<String>)
    requires
        forall|p: int| 0 <= p < group@.len() ==> (#[trigger] group@[p]) < shapes@.len(),
    ensures
        views(out@) == group_args(model_path@, flags_view(model@), picked(shapes@, group@)),
{
    let mut args: Vec<String> = Vec::new();
    assert(views(args@) =~= seq![]);
    push_arg(&mut args, "-m");
    push_arg(&mut args, model_path);
    let ghost head = views(args@);
    assert(head =~= seq!["-m"@, model_path@]);
    let ghost flags = flags_view(model@);
    let mut i: usize = 0;
    assert(views(args@) =~= head + flag_args(flags, 0));
    while i < model.len()
        invariant
            i <= model.len(),
            flags == flags_view(model@),
            views(args@) == head + flag_args(flags, i as int),
        decreases model.len() - i,
    {
        push_arg(&mut args, model[i].flag.as_str());
        push_arg(&mut args, model[i].value.as_str());
        assert(flags[i as int] == (model@[i as int].flag@, model@[i as int].value@));
        assert(views(args@) =~= head + (flag_args(flags, i as int) + seq![
            flags[i as int].0,
            flags[i as int].1,
        ]));
        i = i + 1;
    }
    let ghost front = views(args@);
    let ghost all = picked(shapes@, group@);
    let mut sweep: Vec<SweepFlag> = Vec::new();
    let mut g: usize = 0;
    assert(sweep_view(sweep@) =~= seq![]);
    while g < group.len()
        invariant
            g <= group.len(),
            all == picked(shapes@, group@),
            forall|p: int| 0 <= p < group@.len() ==> (#[trigger] group@[p]) < shapes@.len(),
            sweep_view(sweep@) == swept(all, g as int),
        decreases group.len() - g,
    {
        let context: &Vec<BenchFlag> = &shapes[group[g]].context;
        let ghost base = sweep_view(sweep@);
        let ghost list = flags_view(context@);
        assert(all[g as int].context == list);
        let mut c: usize = 0;
        while c < context.len()
            invariant
                c <= context.len(),
                list == flags_view(context@),
                sweep_view(sweep@) == swept_flags(base, list, c as int),
            decreases context.len() - c,
        {
            assert(list[c as int] == (context@[c as int].flag@, context@[c as int].value@));
            sweep_also(&mut sweep, context[c].flag.as_str(), context[c].value.as_str());
            c = c + 1;
        }
        g = g + 1;
    }
    let ghost table = sweep_view(sweep@);
    let mut s: usize = 0;
    assert(views(args@) =~= front + sweep_args(table, 0));
    while s < sweep.len()
        invariant
            s <= sweep.len(),
            table == sweep_view(sweep@),
            views(args@) == front + sweep_args(table, s as int),
        decreases sweep.len() - s,
    {
        let list: String = join(&sweep[s].values, ",");
        push_arg(&mut args, sweep[s].flag.as_str());
        push_arg(&mut args, list.as_str());
        assert(table[s as int] == (sweep@[s as int].flag@, views(sweep@[s as int].values@)));
        assert(views(args@) =~= front + (sweep_args(table, s as int) + seq![
            table[s as int].0,
            joined(table[s as int].1, ","@),
        ]));
        s = s + 1;
    }
    let ghost body = views(args@);
    push_arg(&mut args, "-p");
    push_arg(&mut args, dec_u64(SCREEN_PROMPT_TOKENS as u64).as_str());
    push_arg(&mut args, "-n");
    push_arg(&mut args, dec_u64(SCREEN_GEN_TOKENS as u64).as_str());
    push_arg(&mut args, "-r");
    push_arg(&mut args, dec_u64(SCREEN_REPETITIONS as u64).as_str());
    push_arg(&mut args, "-o");
    push_arg(&mut args, "json");
    assert(views(args@) =~= body + test_args());
    args
}

/// A sweep's flags are in strict order.
pub open spec fn in_flag_order(sweep: SweepV) -> bool {
    forall|i: int, j: int|
        0 <= i < j < sweep.len() ==> before(#[trigger] sweep[i].0, #[trigger] sweep[j].0)
}

/// Whether a sweep has a value of a flag.
pub open spec fn sweeps(sweep: SweepV, flag: Seq<char>, value: Seq<char>) -> bool {
    exists|k: int|
        0 <= k < sweep.len() && (#[trigger] sweep[k]).0 == flag && sweep[k].1.contains(value)
}

proof fn lemma_swept_also(sweep: SweepV, flag: Seq<char>, value: Seq<char>)
    requires
        in_flag_order(sweep),
    ensures
        in_flag_order(swept_also(sweep, flag, value)),
        sweeps(swept_also(sweep, flag, value), flag, value),
        swept_also(sweep, flag, value).len() > 0,
        forall|k: int|
            0 <= k < swept_also(sweep, flag, value).len() ==> {
                let f = (#[trigger] swept_also(sweep, flag, value)[k]).0;
                f == flag || exists|j: int| 0 <= j < sweep.len() && sweep[j].0 == f
            },
    decreases sweep.len(),
{
    let now = swept_also(sweep, flag, value);
    if sweep.len() == 0 {
        assert(now[0].1[0] == value);
    } else if sweep[0].0 == flag {
        if !sweep[0].1.contains(value) {
            assert(now[0].1[sweep[0].1.len() as int] == value);
            assert forall|k: int| 1 <= k < now.len() implies #[trigger] now[k] == sweep[k] by {}
        } else {
            assert(now[0] == sweep[0]);
        }
        assert(now[0].0 == flag && now[0].1.contains(value));
    } else if before(flag, sweep[0].0) {
        assert(now[0] == (flag, seq![value]));
        assert(now[0].1[0] == value);
        assert forall|k: int| 1 <= k < now.len() implies #[trigger] now[k] == sweep[k - 1] by {}
        assert forall|k: int| 1 <= k < now.len() implies before(flag, #[trigger] now[k].0) by {
            assert(now[k] == sweep[k - 1]);
            law_key_order(flag, sweep[0].0, sweep[k - 1].0);
        }
    } else {
        let rest = sweep.skip(1);
        assert forall|i: int, j: int| 0 <= i < j < rest.len() implies before(
            #[trigger] rest[i].0,
            #[trigger] rest[j].0,
        ) by {
            assert(rest[i] == sweep[i + 1] && rest[j] == sweep[j + 1]);
        }
        lemma_swept_also(rest, flag, value);
        let tail = swept_also(rest, flag, value);
        assert forall|k: int| 1 <= k < now.len() implies #[trigger] now[k] == tail[k - 1] by {}
        assert forall|k: int| 1 <= k < now.len() implies before(sweep[0].0, #[trigger] now[k].0) by {
            assert(now[k] == tail[k - 1]);
            law_key_order(flag, sweep[0].0, flag);
            if now[k].0 != flag {
                let j = choose|j: int| 0 <= j < rest.len() && rest[j].0 == tail[k - 1].0;
                assert(rest[j] == sweep[j + 1]);
            }
        }
        let k = choose|k: int|
            0 <= k < tail.len() && (#[trigger] tail[k]).0 == flag && tail[k].1.contains(value);
        assert(now[k + 1] == tail[k]);
        assert forall|k: int| 0 <= k < now.len() implies {
            let f = (#[trigger] now[k]).0;
            f == flag || exists|j: int| 0 <= j < sweep.len() && sweep[j].0 == f
        } by {
            if k == 0 {
                assert(sweep[0].0 == now[0].0);
            } else {
                assert(now[k] == tail[k - 1]);
                if now[k].0 != flag {
                    let j = choose|j: int| 0 <= j < rest.len() && rest[j].0 == tail[k - 1].0;
                    assert(sweep[j + 1].0 == now[k].0);
                }
            }
        }
    }
}

proof fn lemma_sweep_grows(
    sweep: SweepV,
    flag: Seq<char>,
    value: Seq<char>,
    f: Seq<char>,
    v: Seq<char>,
)
    requires
        sweeps(sweep, f, v),
    ensures
        sweeps(swept_also(sweep, flag, value), f, v),
    decreases sweep.len(),
{
    let now = swept_also(sweep, flag, value);
    let k = choose|k: int|
        0 <= k < sweep.len() && (#[trigger] sweep[k]).0 == f && sweep[k].1.contains(v);
    if sweep[0].0 == flag {
        if !sweep[0].1.contains(value) {
            if k == 0 {
                let i = choose|i: int| 0 <= i < sweep[0].1.len() && sweep[0].1[i] == v;
                assert(now[0].1[i] == v);
            } else {
                assert(now[k] == sweep[k]);
            }
        }
        assert(now[k].0 == f && now[k].1.contains(v));
    } else if before(flag, sweep[0].0) {
        assert(now[k + 1] == sweep[k]);
    } else if k == 0 {
        assert(now[0] == sweep[0]);
    } else {
        let rest = sweep.skip(1);
        assert(rest[k - 1] == sweep[k]);
        lemma_sweep_grows(rest, flag, value, f, v);
        let tail = swept_also(rest, flag, value);
        let j = choose|j: int|
            0 <= j < tail.len() && (#[trigger] tail[j]).0 == f && tail[j].1.contains(v);
        assert(now[j + 1] == tail[j]);
    }
}

proof fn lemma_swept_flags(sweep: SweepV, flags: FlagsV, n: int, f: Seq<char>, v: Seq<char>)
    requires
        in_flag_order(sweep),
        0 <= n <= flags.len(),
    ensures
        in_flag_order(swept_flags(sweep, flags, n)),
        sweeps(sweep, f, v) ==> sweeps(swept_flags(sweep, flags, n), f, v),
        forall|c: int|
            0 <= c < n && #[trigger] flags[c] == (f, v) ==> sweeps(
                swept_flags(sweep, flags, n),
                f,
                v,
            ),
    decreases n,
{
    if n > 0 {
        lemma_swept_flags(sweep, flags, n - 1, f, v);
        let front = swept_flags(sweep, flags, n - 1);
        lemma_swept_also(front, flags[n - 1].0, flags[n - 1].1);
        if sweeps(front, f, v) {
            lemma_sweep_grows(front, flags[n - 1].0, flags[n - 1].1, f, v);
        }
        assert forall|c: int| 0 <= c < n && #[trigger] flags[c] == (f, v) implies sweeps(
            swept_flags(sweep, flags, n),
            f,
            v,
        ) by {
            if c < n - 1 {
                assert(sweeps(front, f, v));
            }
        }
    }
}

/// One process sweeps a whole group: its flags stand in strict order, and the
/// value of every context flag of every shape in the group is among the values
/// of that flag.
pub proof fn law_a_group_sweeps_every_value(group: Seq<ShapeV>, n: int, g: int, c: int)
    requires
        0 <= g < n <= group.len(),
        0 <= c < group[g].context.len(),
    ensures
        in_flag_order(swept(group, n)),
        sweeps(swept(group, n), group[g].context[c].0, group[g].context[c].1),
    decreases n,
{
    let f = group[g].context[c].0;
    let v = group[g].context[c].1;
    lemma_swept_in_order(group, n - 1);
    if g < n - 1 {
        law_a_group_sweeps_every_value(group, n - 1, g, c);
    }
    lemma_swept_flags(
        swept(group, n - 1),
        group[n - 1].context,
        group[n - 1].context.len() as int,
        f,
        v,
    );
    if g == n - 1 {
        assert(group[n - 1].context[c] == (f, v));
    }
}

proof fn lemma_swept_in_order(group: Seq<ShapeV>, n: int)
    requires
        0 <= n <= group.len(),
    ensures
        in_flag_order(swept(group, n)),
    decreases n,
{
    if n > 0 {
        lemma_swept_in_order(group, n - 1);
        lemma_swept_flags(
            swept(group, n - 1),
            group[n - 1].context,
            group[n - 1].context.len() as int,
            seq![],
            seq![],
        );
    }
}

// ---------------------------------------------------------------------------
// Rows
// ---------------------------------------------------------------------------
/// What one context shape reported: its flags, and the nodes of its prompt and
/// generation throughput where it reported them.
#[derive(Debug, PartialEq, Eq)]
pub struct BenchRow {
    pub key: Vec<BenchFlag>,
    pub prompt: Option<Json>,
    pub generation: Option<Json>,
}

/// What one context shape reported, mathematically.
#[verifier::ext_equal]
pub struct RowV {
    pub key: FlagsV,
    pub prompt: Option<JsonV>,
    pub generation: Option<JsonV>,
}

impl View for BenchRow {
    type V = RowV;

    open spec fn view(&self) -> RowV {
        RowV {
            key: flags_view(self.key@),
            prompt: maybe(self.prompt),
            generation: maybe(self.generation),
        }
    }
}

/// The views of a list of rows.
pub open spec fn rows_view(rows: Seq<BenchRow>) -> Seq<RowV> {
    rows.map_values(|r: BenchRow| r@)
}

/// The integer of a row's field.
pub open spec fn row_int(row: JsonV, name: Seq<char>) -> Option<int> {
    match member(row, name) {
        Some(v) => as_i64(v),
        None => None,
    }
}

/// A row's flash-attention switch: a flag, or an integer that is positive.
pub open spec fn row_flash(row: JsonV) -> Option<bool> {
    match member(row, "flash_attn"@) {
        Some(JsonV::Bool(on)) => Some(on),
        Some(v) => match as_i64(v) {
            Some(n) => Some(n > 0),
            None => None,
        },
        None => None,
    }
}

/// A row's context flags in the same spelling that shapes have, in order.
pub open spec fn row_flags(row: JsonV) -> Option<FlagsV> {
    match (
        member_text(row, "type_k"@),
        member_text(row, "type_v"@),
        row_int(row, "n_ubatch"@),
        row_int(row, "n_batch"@),
        row_int(row, "n_threads"@),
    ) {
        (Some(k), Some(v), Some(ub), Some(b), Some(t)) => Some(
            seq![("-b"@, dec_int(b)), ("-ctk"@, k), ("-ctv"@, v)] + flash_flag(row_flash(row))
                + seq![("-t"@, dec_int(t)), ("-ub"@, dec_int(ub))],
        ),
        _ => None,
    }
}

fn read_int(row: &Json, name: &str) -> (out: Option<i64>)
    ensures
        match out {
            Some(n) => row_int(row@, name@) == Some(n as int),
            None => row_int(row@, name@) is None,
        },
{
    match row.get(name) {
        Some(v) => v.integer(),
        None => None,
    }
}

/// A row's context flags in the same spelling that shapes have.
pub fn row_key(row: &Json) -> (out: Option<Vec<BenchFlag>>)
    ensures
        match out {
            Some(key) => row_flags(row@) == Some(flags_view(key@)),
            None => row_flags(row@) is None,
        },
{
    let flash: Option<bool> = match row.get("flash_attn") {
        Some(v) => match v {
            Json::Bool(on) => Some(*on),
            _ => match v.integer() {
                Some(n) => Some(n > 0),
                None => None,
            },
        },
        None => None,
    };
    match (
        row.text_at("type_k"),
        row.text_at("type_v"),
        read_int(row, "n_ubatch"),
        read_int(row, "n_batch"),
        read_int(row, "n_threads"),
    ) {
        (Some(k), Some(v), Some(ub), Some(b), Some(t)) => {
            let mut key: Vec<BenchFlag> = Vec::new();
            assert(flags_view(key@) =~= seq![]);
            push_flag(&mut key, "-b", dec_i64(b).as_str());
            push_flag(&mut key, "-ctk", k.as_str());
            push_flag(&mut key, "-ctv", v.as_str());
            assert(flags_view(key@) =~= seq![
                ("-b"@, dec_int(b as int)),
                ("-ctk"@, k@),
                ("-ctv"@, v@),
            ]);
            let ghost head = flags_view(key@);
            match flash {
                Some(on) => push_flag(
                    &mut key,
                    "-fa",
                    if on {
                        "on"
                    } else {
                        "off"
                    },
                ),
                None => {},
            }
            assert(flags_view(key@) =~= head + flash_flag(row_flash(row@)));
            let ghost front = flags_view(key@);
            push_flag(&mut key, "-t", dec_i64(t).as_str());
            push_flag(&mut key, "-ub", dec_i64(ub).as_str());
            assert(flags_view(key@) =~= front + seq![
                ("-t"@, dec_int(t as int)),
                ("-ub"@, dec_int(ub as int)),
            ]);
            Some(key)
        },
        _ => None,
    }
}

/// The node of a row's throughput, if it is a number.
pub open spec fn row_rate(row: JsonV) -> Option<JsonV> {
    match member(row, "avg_ts"@) {
        Some(JsonV::Unsigned(n)) => Some(JsonV::Unsigned(n)),
        Some(JsonV::Negative(n)) => Some(JsonV::Negative(n)),
        Some(JsonV::Float(n)) => Some(JsonV::Float(n)),
        _ => None,
    }
}

/// Whether a row measured prompt processing.
pub open spec fn is_prompt_row(row: JsonV) -> bool {
    row_int(row, "n_prompt"@) matches Some(n) && n > 0
}

/// What a shape reported, with one more row.
pub open spec fn reported(known: RowV, row: JsonV) -> RowV {
    if is_prompt_row(row) {
        RowV { prompt: row_rate(row), ..known }
    } else {
        RowV { generation: row_rate(row), ..known }
    }
}

/// Whether one flag and its value stand before another.
pub open spec fn flag_before(a: (Seq<char>, Seq<char>), b: (Seq<char>, Seq<char>)) -> bool {
    before(a.0, b.0) || (a.0 == b.0 && before(a.1, b.1))
}

/// Whether one list of flags stands before another.
pub open spec fn flags_before(a: FlagsV, b: FlagsV) -> bool
    decreases a.len(),
{
    if b.len() == 0 {
        false
    } else if a.len() == 0 {
        true
    } else if a[0] != b[0] {
        flag_before(a[0], b[0])
    } else {
        flags_before(a.skip(1), b.skip(1))
    }
}

/// The order of flag lists is a strict total order.
pub proof fn law_flags_are_ordered(a: FlagsV, b: FlagsV, c: FlagsV)
    ensures
        !flags_before(a, a),
        flags_before(a, b) ==> !flags_before(b, a),
        a == b || flags_before(a, b) || flags_before(b, a),
        flags_before(a, b) && flags_before(b, c) ==> flags_before(a, c),
    decreases a.len(),
{
    if a.len() > 0 {
        let b1 = if b.len() > 0 {
            b.skip(1)
        } else {
            b
        };
        let c1 = if c.len() > 0 {
            c.skip(1)
        } else {
            c
        };
        law_flags_are_ordered(a.skip(1), b1, c1);
        if b.len() > 0 {
            law_key_order(a[0].0, b[0].0, a[0].0);
            law_key_order(a[0].1, b[0].1, a[0].1);
            law_key_order(b[0].0, a[0].0, b[0].0);
            if c.len() > 0 {
                law_key_order(a[0].0, b[0].0, c[0].0);
                law_key_order(a[0].1, b[0].1, c[0].1);
                law_key_order(b[0].0, c[0].0, b[0].0);
                law_key_order(b[0].1, c[0].1, b[0].1);
            }
            if a[0] == b[0] && a.skip(1) == b.skip(1) {
                assert(a =~= seq![a[0]] + a.skip(1));
                assert(b =~= seq![b[0]] + b.skip(1));
            }
        }
    } else if b.len() == 0 {
        assert(a =~= b);
    }
}

/// Whether one list of flags stands before another.
fn flags_stand_before(a: &Vec<BenchFlag>, b: &Vec<BenchFlag>) -> (out: bool)
    ensures
        out == flags_before(flags_view(a@), flags_view(b@)),
{
    let ghost av = flags_view(a@);
    let ghost bv = flags_view(b@);
    let mut i: usize = 0;
    assert(av.skip(0) =~= av);
    assert(bv.skip(0) =~= bv);
    while i < a.len() && i < b.len()
        invariant
            i <= a.len(),
            i <= b.len(),
            av == flags_view(a@),
            bv == flags_view(b@),
            flags_before(av, bv) == flags_before(av.skip(i as int), bv.skip(i as int)),
        decreases a.len() - i,
    {
        proof {
            assert(av.skip(i as int)[0] == (a@[i as int].flag@, a@[i as int].value@));
            assert(bv.skip(i as int)[0] == (b@[i as int].flag@, b@[i as int].value@));
            assert(av.skip(i as int).skip(1) =~= av.skip(i + 1));
            assert(bv.skip(i as int).skip(1) =~= bv.skip(i + 1));
        }
        let same_flag: bool = same(a[i].flag.as_str(), b[i].flag.as_str());
        if !same_flag || !same(a[i].value.as_str(), b[i].value.as_str()) {
            if same_flag {
                proof {
                    law_key_order(a@[i as int].flag@, a@[i as int].flag@, a@[i as int].flag@);
                }
                return stands_before(
                    &chars_of(a[i].value.as_str()),
                    &chars_of(b[i].value.as_str()),
                );
            }
            return stands_before(&chars_of(a[i].flag.as_str()), &chars_of(b[i].flag.as_str()));
        }
        i = i + 1;
    }
    i < b.len()
}

/// What the shapes reported, with one more row of the shape `key`.
pub open spec fn reported_also(rows: Seq<RowV>, key: FlagsV, row: JsonV) -> Seq<RowV>
    decreases rows.len(),
{
    if rows.len() == 0 {
        seq![reported(RowV { key, prompt: None, generation: None }, row)]
    } else if rows[0].key == key {
        seq![reported(rows[0], row)] + rows.skip(1)
    } else if flags_before(key, rows[0].key) {
        seq![reported(RowV { key, prompt: None, generation: None }, row)] + rows
    } else {
        seq![rows[0]] + reported_also(rows.skip(1), key, row)
    }
}

/// Whether rows stand in the strict order of their keys.
pub open spec fn in_key_order(rows: Seq<RowV>) -> bool {
    forall|i: int, j: int|
        0 <= i < j < rows.len() ==> flags_before(
            (#[trigger] rows[i]).key,
            (#[trigger] rows[j]).key,
        )
}

proof fn lemma_reported_in_order(rows: Seq<RowV>, key: FlagsV, row: JsonV)
    requires
        in_key_order(rows),
    ensures
        in_key_order(reported_also(rows, key, row)),
        forall|k: int|
            0 <= k < reported_also(rows, key, row).len() ==> {
                let f = (#[trigger] reported_also(rows, key, row)[k]).key;
                f == key || exists|j: int| 0 <= j < rows.len() && (#[trigger] rows[j]).key == f
            },
    decreases rows.len(),
{
    let now = reported_also(rows, key, row);
    if rows.len() > 0 {
        if rows[0].key == key {
            assert forall|k: int| 1 <= k < now.len() implies #[trigger] now[k] == rows[k] by {}
            assert(now[0].key == key);
        } else if flags_before(key, rows[0].key) {
            assert forall|k: int| 1 <= k < now.len() implies #[trigger] now[k] == rows[k - 1] by {}
            assert forall|k: int| 1 <= k < now.len() implies flags_before(
                key,
                (#[trigger] now[k]).key,
            ) by {
                assert(now[k] == rows[k - 1]);
                law_flags_are_ordered(key, rows[0].key, rows[k - 1].key);
            }
        } else {
            let rest = rows.skip(1);
            assert forall|i: int, j: int| 0 <= i < j < rest.len() implies flags_before(
                (#[trigger] rest[i]).key,
                (#[trigger] rest[j]).key,
            ) by {
                assert(rest[i] == rows[i + 1] && rest[j] == rows[j + 1]);
            }
            lemma_reported_in_order(rest, key, row);
            let tail = reported_also(rest, key, row);
            assert forall|k: int| 1 <= k < now.len() implies #[trigger] now[k] == tail[k - 1] by {}
            assert forall|k: int| 1 <= k < now.len() implies flags_before(
                rows[0].key,
                (#[trigger] now[k]).key,
            ) by {
                assert(now[k] == tail[k - 1]);
                law_flags_are_ordered(key, rows[0].key, key);
                if now[k].key != key {
                    let j = choose|j: int|
                        0 <= j < rest.len() && (#[trigger] rest[j]).key == tail[k - 1].key;
                    assert(rest[j] == rows[j + 1]);
                }
            }
            assert forall|k: int| 0 <= k < now.len() implies {
                let f = (#[trigger] now[k]).key;
                f == key || exists|j: int| 0 <= j < rows.len() && (#[trigger] rows[j]).key == f
            } by {
                if k == 0 {
                    assert(rows[0].key == now[0].key);
                } else {
                    assert(now[k] == tail[k - 1]);
                    if now[k].key != key {
                        let j = choose|j: int|
                            0 <= j < rest.len() && (#[trigger] rest[j]).key == tail[k - 1].key;
                        assert(rows[j + 1].key == now[k].key);
                    }
                }
            }
        }
    }
}

/// What the shapes reported stands in the order of their flags, each shape
/// once.
pub proof fn law_reports_stand_in_key_order(rows: Seq<JsonV>, n: int)
    ensures
        in_key_order(reports(rows, n)),
    decreases n,
{
    if n > 0 {
        law_reports_stand_in_key_order(rows, n - 1);
        match row_flags(rows[n - 1]) {
            Some(key) => {
                lemma_reported_in_order(reports(rows, n - 1), key, rows[n - 1]);
            },
            None => {},
        }
    }
}

/// What the shapes reported in the first `n` rows.
pub open spec fn reports(rows: Seq<JsonV>, n: int) -> Seq<RowV>
    decreases n,
{
    if n <= 0 {
        seq![]
    } else {
        match row_flags(rows[n - 1]) {
            Some(key) => reported_also(reports(rows, n - 1), key, rows[n - 1]),
            None => reports(rows, n - 1),
        }
    }
}

/// The rows of `llama-bench -o json`.
pub open spec fn bench_rows(stdout: Seq<char>) -> Seq<JsonV> {
    match json_of(trimmed(stdout)) {
        Some(json) => items_of(json),
        None => seq![],
    }
}

/// Whether two lists of flags are the same.
pub fn same_flags(a: &Vec<BenchFlag>, b: &Vec<BenchFlag>) -> (out: bool)
    ensures
        out == (flags_view(a@) == flags_view(b@)),
{
    if a.len() != b.len() {
        assert(flags_view(a@).len() != flags_view(b@).len());
        return false;
    }
    let mut i: usize = 0;
    while i < a.len()
        invariant
            i <= a.len() == b.len(),
            forall|k: int| 0 <= k < i ==> #[trigger] flags_view(a@)[k] == flags_view(b@)[k],
        decreases a.len() - i,
    {
        if !same(a[i].flag.as_str(), b[i].flag.as_str()) || !same(
            a[i].value.as_str(),
            b[i].value.as_str(),
        ) {
            assert(flags_view(a@)[i as int] != flags_view(b@)[i as int]);
            return false;
        }
        i = i + 1;
    }
    assert(flags_view(a@) =~= flags_view(b@));
    true
}

fn read_rate(row: &Json) -> (out: Option<Json>)
    ensures
        maybe(out) == row_rate(row@),
{
    match row.get("avg_ts") {
        Some(v) => match v {
            Json::Unsigned(_) => Some(v.copy()),
            Json::Negative(_) => Some(v.copy()),
            Json::Float(_) => Some(v.copy()),
            _ => None,
        },
        None => None,
    }
}

fn report(known: &mut BenchRow, row: &Json)
    ensures
        final(known)@ == reported(old(known)@, row@),
{
    let rate: Option<Json> = read_rate(row);
    let prompt: bool = match read_int(row, "n_prompt") {
        Some(n) => n > 0,
        None => false,
    };
    if prompt {
        known.prompt = rate;
    } else {
        known.generation = rate;
    }
}

fn report_also(rows: Vec<BenchRow>, key: Vec<BenchFlag>, row: &Json) -> (out: Vec<BenchRow>)
    ensures
        rows_view(out@) == reported_also(rows_view(rows@), flags_view(key@), row@),
{
    let mut kept: Vec<BenchRow> = rows;
    let ghost all = rows_view(kept@);
    let ghost k = flags_view(key@);
    let mut i: usize = 0;
    assert(all.skip(0) =~= all);
    assert(all.take(0) + reported_also(all, k, row@) =~= reported_also(all, k, row@));
    while i < kept.len()
        invariant
            i <= kept.len(),
            all == rows_view(kept@),
            all == rows_view(rows@),
            k == flags_view(key@),
            reported_also(all, k, row@) == all.take(i as int) + reported_also(
                all.skip(i as int),
                k,
                row@,
            ),
        decreases kept.len() - i,
    {
        proof {
            assert(all.skip(i as int)[0] == kept@[i as int]@);
            assert(all.skip(i as int).skip(1) =~= all.skip(i + 1));
        }
        if same_flags(&kept[i].key, &key) {
            let mut known: BenchRow = kept.remove(i);
            let ghost was = known@;
            report(&mut known, row);
            kept.insert(i, known);
            proof {
                assert(was == all[i as int]);
                assert(rows_view(kept@) =~= all.update(i as int, reported(was, row@)));
                assert(rows_view(kept@) =~= all.take(i as int) + (seq![reported(was, row@)]
                    + all.skip(i + 1)));
            }
            return kept;
        }
        if flags_stand_before(&key, &kept[i].key) {
            let mut one: BenchRow = BenchRow { key, prompt: None, generation: None };
            report(&mut one, row);
            kept.insert(i, one);
            proof {
                assert(rows_view(kept@) =~= all.insert(i as int, one@));
                assert(rows_view(kept@) =~= all.take(i as int) + (seq![one@] + all.skip(
                    i as int,
                )));
            }
            return kept;
        }
        proof {
            assert(all.take(i as int) + (seq![all[i as int]] + reported_also(
                all.skip(i + 1),
                k,
                row@,
            )) =~= all.take(i + 1) + reported_also(all.skip(i + 1), k, row@));
        }
        i = i + 1;
    }
    let mut one: BenchRow = BenchRow { key, prompt: None, generation: None };
    report(&mut one, row);
    kept.push(one);
    proof {
        assert(all.skip(i as int) =~= seq![]);
        assert(rows_view(kept@) =~= all.push(one@));
        assert(rows_view(kept@) =~= all.take(i as int) + seq![one@]);
    }
    kept
}

/// Throughput per context shape from `llama-bench -o json`: prompt and
/// generation rates, keyed by the context flags the rows report.
pub fn parse_bench_json(stdout: &str) -> (out: Vec<BenchRow>)
    ensures
        rows_view(out@) == reports(bench_rows(stdout@), bench_rows(stdout@).len() as int),
        in_key_order(rows_view(out@)),
{
    let rows: Vec<Json> = match parse_json(trim(stdout).as_str()) {
        Some(json) => json.items(),
        None => Vec::new(),
    };
    let ghost all = bench_rows(stdout@);
    assert(trees(rows@) =~= all);
    let mut out: Vec<BenchRow> = Vec::new();
    let mut i: usize = 0;
    assert(rows_view(out@) =~= seq![]);
    while i < rows.len()
        invariant
            i <= rows.len(),
            all == trees(rows@),
            rows_view(out@) == reports(all, i as int),
        decreases rows.len() - i,
    {
        assert(all[i as int] == rows@[i as int]@);
        match row_key(&rows[i]) {
            Some(key) => {
                out = report_also(out, key, &rows[i]);
            },
            None => {},
        }
        i = i + 1;
    }
    assert(all.len() == rows@.len());
    proof {
        law_reports_stand_in_key_order(all, all.len() as int);
    }
    out
}

/// Whether a row matches a shape's context flags (a shape leaves unset flags
/// at the bench default, which any row value satisfies).
pub open spec fn matches_shape(row: FlagsV, context: FlagsV) -> bool {
    forall|c: int| 0 <= c < context.len() ==> row.contains(#[trigger] context[c])
}

fn has_flag(row: &Vec<BenchFlag>, wanted: &BenchFlag) -> (out: bool)
    ensures
        out == flags_view(row@).contains((wanted.flag@, wanted.value@)),
{
    let ghost pair = (wanted.flag@, wanted.value@);
    let mut i: usize = 0;
    while i < row.len()
        invariant
            i <= row.len(),
            pair == (wanted.flag@, wanted.value@),
            forall|k: int| 0 <= k < i ==> #[trigger] flags_view(row@)[k] != pair,
        decreases row.len() - i,
    {
        if same(row[i].flag.as_str(), wanted.flag.as_str()) && same(
            row[i].value.as_str(),
            wanted.value.as_str(),
        ) {
            assert(flags_view(row@)[i as int] == pair);
            return true;
        }
        i = i + 1;
    }
    proof {
        if flags_view(row@).contains(pair) {
            let k = choose|k: int| 0 <= k < flags_view(row@).len() && flags_view(row@)[k] == pair;
            assert(flags_view(row@)[k] != pair);
        }
    }
    false
}

/// Whether a row matches a shape's context flags.
pub fn row_matches(row: &Vec<BenchFlag>, shape: &BenchShape) -> (out: bool)
    ensures
        out == matches_shape(flags_view(row@), shape@.context),
{
    let ghost context = shape@.context;
    let mut i: usize = 0;
    while i < shape.context.len()
        invariant
            i <= shape.context.len(),
            context == flags_view(shape.context@),
            forall|c: int| 0 <= c < i ==> flags_view(row@).contains(#[trigger] context[c]),
        decreases shape.context.len() - i,
    {
        assert(context[i as int] == (shape.context@[i as int].flag@, shape.context@[i as int].value@));
        if !has_flag(row, &shape.context[i]) {
            return false;
        }
        i = i + 1;
    }
    true
}

// ---------------------------------------------------------------------------
// Ranking
// ---------------------------------------------------------------------------
/// The place of the first shape of a group, from `p` on, that a row matches.
pub open spec fn first_match(
    row: FlagsV,
    shapes: Seq<BenchShape>,
    group: Seq<usize>,
    p: int,
) -> Option<usize>
    decreases group.len() - p,
{
    if p < 0 || p >= group.len() {
        None
    } else if matches_shape(row, shapes[group[p] as int]@.context) {
        Some(group[p])
    } else {
        first_match(row, shapes, group, p + 1)
    }
}

/// The shape of a group that a row belongs to, if it belongs to one.
pub fn shape_of_row(row: &Vec<BenchFlag>, shapes: &Vec<BenchShape>, group: &Vec<usize>) -> (out:
    Option<usize>)
    requires
        forall|p: int| 0 <= p < group@.len() ==> (#[trigger] group@[p]) < shapes@.len(),
    ensures
        out == first_match(flags_view(row@), shapes@, group@, 0),
{
    let mut p: usize = 0;
    while p < group.len()
        invariant
            p <= group.len(),
            forall|q: int| 0 <= q < group@.len() ==> (#[trigger] group@[q]) < shapes@.len(),
            first_match(flags_view(row@), shapes@, group@, 0) == first_match(
                flags_view(row@),
                shapes@,
                group@,
                p as int,
            ),
        decreases group.len() - p,
    {
        if row_matches(row, &shapes[group[p]]) {
            return Some(group[p]);
        }
        p = p + 1;
    }
    None
}

/// Whether two candidates are the same to `llama-bench`.
pub fn same_shape(a: &BenchShape, b: &BenchShape) -> (out: bool)
    ensures
        out == (a@ == b@),
{
    same_flags(&a.model, &b.model) && same_flags(&a.context, &b.context)
}

/// The groups with one more place: it joins the group with its model values,
/// or begins one where those values stand in order.
pub open spec fn grouped_also(
    groups: Seq<Seq<usize>>,
    shapes: Seq<BenchShape>,
    i: usize,
) -> Seq<Seq<usize>>
    decreases groups.len(),
{
    if groups.len() == 0 {
        seq![seq![i]]
    } else if shapes[groups[0][0] as int]@.model == shapes[i as int]@.model {
        seq![groups[0].push(i)] + groups.skip(1)
    } else if flags_before(shapes[i as int]@.model, shapes[groups[0][0] as int]@.model) {
        seq![seq![i]] + groups
    } else {
        seq![groups[0]] + grouped_also(groups.skip(1), shapes, i)
    }
}

/// The first `n` places, grouped by the model values of their shapes.
pub open spec fn grouped(shapes: Seq<BenchShape>, n: int) -> Seq<Seq<usize>>
    decreases n,
{
    if n <= 0 {
        seq![]
    } else {
        grouped_also(grouped(shapes, n - 1), shapes, (n - 1) as usize)
    }
}

/// The lists that a list of lists holds.
pub open spec fn lists_view(groups: Seq<Vec<usize>>) -> Seq<Seq<usize>> {
    groups.map_values(|g: Vec<usize>| g@)
}

/// Every group has a member, and every member is a place below `n`.
pub open spec fn groups_fit(groups: Seq<Seq<usize>>, n: int) -> bool {
    forall|g: int|
        0 <= g < groups.len() ==> (#[trigger] groups[g]).len() > 0 && forall|p: int|
            0 <= p < groups[g].len() ==> (#[trigger] groups[g][p]) < n
}

proof fn lemma_groups_fit(groups: Seq<Seq<usize>>, shapes: Seq<BenchShape>, i: usize)
    requires
        groups_fit(groups, i as int),
    ensures
        groups_fit(grouped_also(groups, shapes, i), i + 1),
    decreases groups.len(),
{
    let now = grouped_also(groups, shapes, i);
    if groups.len() > 0 {
        let rest = groups.skip(1);
        assert forall|g: int| 0 <= g < rest.len() implies (#[trigger] rest[g]).len() > 0 && forall|
            p: int,
        |
            0 <= p < rest[g].len() ==> (#[trigger] rest[g][p]) < i by {
            assert(rest[g] == groups[g + 1]);
        }
        lemma_groups_fit(rest, shapes, i);
        assert(groups[0].len() > 0);
        if shapes[groups[0][0] as int]@.model == shapes[i as int]@.model {
            assert forall|g: int| 0 <= g < now.len() implies (#[trigger] now[g]).len() > 0 && forall|
                p: int,
            |
                0 <= p < now[g].len() ==> (#[trigger] now[g][p]) < i + 1 by {
                if g > 0 {
                    assert(now[g] == groups[g]);
                }
            }
        } else if flags_before(shapes[i as int]@.model, shapes[groups[0][0] as int]@.model) {
            assert forall|g: int| 0 <= g < now.len() implies (#[trigger] now[g]).len() > 0 && forall|
                p: int,
            |
                0 <= p < now[g].len() ==> (#[trigger] now[g][p]) < i + 1 by {
                if g > 0 {
                    assert(now[g] == groups[g - 1]);
                }
            }
        } else {
            let tail = grouped_also(rest, shapes, i);
            assert forall|g: int| 0 <= g < now.len() implies (#[trigger] now[g]).len() > 0 && forall|
                p: int,
            |
                0 <= p < now[g].len() ==> (#[trigger] now[g][p]) < i + 1 by {
                if g > 0 {
                    assert(now[g] == tail[g - 1]);
                } else {
                    assert(now[0] == groups[0]);
                }
            }
        }
    }
}

/// Whether the groups stand in the strict order of their model values.
pub open spec fn groups_in_order(groups: Seq<Seq<usize>>, shapes: Seq<BenchShape>) -> bool {
    forall|g: int, h: int|
        0 <= g < h < groups.len() ==> flags_before(
            shapes[(#[trigger] groups[g])[0] as int]@.model,
            shapes[(#[trigger] groups[h])[0] as int]@.model,
        )
}

proof fn lemma_grouped_in_order(groups: Seq<Seq<usize>>, shapes: Seq<BenchShape>, i: usize)
    requires
        groups_fit(groups, i as int),
        groups_in_order(groups, shapes),
    ensures
        groups_in_order(grouped_also(groups, shapes, i), shapes),
        forall|k: int|
            0 <= k < grouped_also(groups, shapes, i).len() ==> {
                let first = (#[trigger] grouped_also(groups, shapes, i)[k])[0];
                first == i || exists|j: int| 0 <= j < groups.len() && (#[trigger] groups[j])[0] == first
            },
    decreases groups.len(),
{
    let now = grouped_also(groups, shapes, i);
    let own = shapes[i as int]@.model;
    if groups.len() > 0 {
        assert(groups[0].len() > 0);
        let first = shapes[groups[0][0] as int]@.model;
        if first == own {
            assert(now[0][0] == groups[0][0]);
            assert forall|k: int| 1 <= k < now.len() implies #[trigger] now[k] == groups[k] by {}
        } else if flags_before(own, first) {
            assert(now[0][0] == i);
            assert forall|k: int| 1 <= k < now.len() implies #[trigger] now[k] == groups[k - 1] by {}
            assert forall|k: int| 1 <= k < now.len() implies flags_before(
                own,
                shapes[(#[trigger] now[k])[0] as int]@.model,
            ) by {
                assert(now[k] == groups[k - 1]);
                law_flags_are_ordered(own, first, shapes[groups[k - 1][0] as int]@.model);
            }
        } else {
            let rest = groups.skip(1);
            assert forall|g: int| 0 <= g < rest.len() implies (#[trigger] rest[g]).len() > 0
                && forall|p: int| 0 <= p < rest[g].len() ==> (#[trigger] rest[g][p]) < i by {
                assert(rest[g] == groups[g + 1]);
            }
            assert forall|g: int, h: int| 0 <= g < h < rest.len() implies flags_before(
                shapes[(#[trigger] rest[g])[0] as int]@.model,
                shapes[(#[trigger] rest[h])[0] as int]@.model,
            ) by {
                assert(rest[g] == groups[g + 1] && rest[h] == groups[h + 1]);
            }
            lemma_grouped_in_order(rest, shapes, i);
            let tail = grouped_also(rest, shapes, i);
            assert(now[0] == groups[0]);
            assert forall|k: int| 1 <= k < now.len() implies #[trigger] now[k] == tail[k - 1] by {}
            assert forall|k: int| 1 <= k < now.len() implies flags_before(
                first,
                shapes[(#[trigger] now[k])[0] as int]@.model,
            ) by {
                assert(now[k] == tail[k - 1]);
                law_flags_are_ordered(own, first, own);
                if now[k][0] != i {
                    let j = choose|j: int|
                        0 <= j < rest.len() && (#[trigger] rest[j])[0] == tail[k - 1][0];
                    assert(rest[j] == groups[j + 1]);
                }
            }
            assert forall|k: int| 0 <= k < now.len() implies {
                let f = (#[trigger] now[k])[0];
                f == i || exists|j: int| 0 <= j < groups.len() && (#[trigger] groups[j])[0] == f
            } by {
                if k == 0 {
                    assert(groups[0][0] == now[0][0]);
                } else {
                    assert(now[k] == tail[k - 1]);
                    if now[k][0] != i {
                        let j = choose|j: int|
                            0 <= j < rest.len() && (#[trigger] rest[j])[0] == tail[k - 1][0];
                        assert(groups[j + 1][0] == now[k][0]);
                    }
                }
            }
        }
    }
}

/// The candidates' places, one group per set of model-reloading values, in the
/// order of those values: one `llama-bench` process each.
pub fn group_shapes(shapes: &Vec<BenchShape>) -> (out: Vec<Vec<usize>>)
    ensures
        lists_view(out@) == grouped(shapes@, shapes@.len() as int),
        groups_fit(lists_view(out@), shapes@.len() as int),
        groups_in_order(lists_view(out@), shapes@),
{
    let mut out: Vec<Vec<usize>> = Vec::new();
    let mut i: usize = 0;
    assert(lists_view(out@) =~= seq![]);
    while i < shapes.len()
        invariant
            i <= shapes.len(),
            lists_view(out@) == grouped(shapes@, i as int),
            groups_fit(lists_view(out@), i as int),
            groups_in_order(lists_view(out@), shapes@),
        decreases shapes.len() - i,
    {
        proof {
            lemma_groups_fit(lists_view(out@), shapes@, i);
            lemma_grouped_in_order(lists_view(out@), shapes@, i);
        }
        let ghost all = lists_view(out@);
        let mut g: usize = 0;
        let mut placed: bool = false;
        assert(all.skip(0) =~= all);
        assert(all.take(0) + grouped_also(all, shapes@, i) =~= grouped_also(all, shapes@, i));
        while g < out.len() && !placed
            invariant
                i < shapes.len(),
                g <= out.len(),
                groups_fit(all, i as int),
                !placed ==> all == lists_view(out@),
                !placed ==> grouped_also(all, shapes@, i) == all.take(g as int) + grouped_also(
                    all.skip(g as int),
                    shapes@,
                    i,
                ),
                placed ==> lists_view(out@) == grouped_also(all, shapes@, i),
            decreases
                    if placed {
                        0int
                    } else {
                        1 + out.len() - g
                    },
        {
            proof {
                assert(all.skip(g as int)[0] == all[g as int]);
                assert(all[g as int] == out@[g as int]@);
                assert(all.skip(g as int).skip(1) =~= all.skip(g + 1));
                assert(all[g as int].len() > 0);
                assert(all[g as int][0] < i);
            }
            if same_flags(&shapes[out[g][0]].model, &shapes[i].model) {
                let mut one: Vec<usize> = out.remove(g);
                one.push(i);
                out.insert(g, one);
                placed = true;
                proof {
                    assert(lists_view(out@) =~= all.update(g as int, all[g as int].push(i)));
                    assert(lists_view(out@) =~= all.take(g as int) + (seq![all[g as int].push(i)]
                        + all.skip(g + 1)));
                }
            } else if flags_stand_before(&shapes[i].model, &shapes[out[g][0]].model) {
                let mut one: Vec<usize> = Vec::new();
                one.push(i);
                out.insert(g, one);
                placed = true;
                proof {
                    assert(one@ =~= seq![i]);
                    assert(lists_view(out@) =~= all.insert(g as int, seq![i]));
                    assert(lists_view(out@) =~= all.take(g as int) + (seq![seq![i]] + all.skip(
                        g as int,
                    )));
                }
            } else {
                proof {
                    assert(all.take(g as int) + (seq![all[g as int]] + grouped_also(
                        all.skip(g + 1),
                        shapes@,
                        i,
                    )) =~= all.take(g + 1) + grouped_also(all.skip(g + 1), shapes@, i));
                }
                g = g + 1;
            }
        }
        if !placed {
            let mut one: Vec<usize> = Vec::new();
            one.push(i);
            out.push(one);
            proof {
                assert(all.skip(g as int) =~= seq![]);
                assert(one@ =~= seq![i]);
                assert(lists_view(out@) =~= all.push(seq![i]));
                assert(lists_view(out@) =~= all.take(g as int) + seq![seq![i]]);
            }
        }
        i = i + 1;
    }
    out
}

/// Whether place `i` comes before place `j` by descending key, then by place.
pub open spec fn ranks_before(keys: Seq<u64>, i: int, j: int) -> bool {
    keys[i] > keys[j] || (keys[i] == keys[j] && i < j)
}

/// The places in descending order of their keys, equal ones in their own
/// order.
pub fn rank_by(keys: &Vec<u64>) -> (out: Vec<usize>)
    ensures
        out@.len() == keys@.len(),
        forall|p: int| 0 <= p < out@.len() ==> (#[trigger] out@[p]) < keys@.len(),
        forall|p: int, q: int|
            0 <= p < q < out@.len() ==> ranks_before(
                keys@,
                #[trigger] out@[p] as int,
                #[trigger] out@[q] as int,
            ),
{
    let mut out: Vec<usize> = Vec::new();
    let mut i: usize = 0;
    while i < keys.len()
        invariant
            i <= keys.len(),
            out@.len() == i,
            forall|p: int| 0 <= p < out@.len() ==> (#[trigger] out@[p]) < i,
            forall|p: int, q: int|
                0 <= p < q < out@.len() ==> ranks_before(
                    keys@,
                    #[trigger] out@[p] as int,
                    #[trigger] out@[q] as int,
                ),
        decreases keys.len() - i,
    {
        let mut to: usize = 0;
        while to < out.len() && keys[out[to]] >= keys[i]
            invariant
                i < keys.len(),
                to <= out.len(),
                forall|p: int| 0 <= p < out@.len() ==> (#[trigger] out@[p]) < i,
                forall|p: int|
                    0 <= p < to ==> ranks_before(keys@, #[trigger] out@[p] as int, i as int),
            decreases out.len() - to,
        {
            to = to + 1;
        }
        let ghost was = out@;
        out.insert(to, i);
        proof {
            let now = out@;
            assert forall|q: int| to <= q < was.len() implies ranks_before(
                keys@,
                i as int,
                #[trigger] was[q] as int,
            ) by {
                if q > to {
                    assert(ranks_before(keys@, was[to as int] as int, was[q] as int));
                }
            }
            assert forall|p: int| 0 <= p < now.len() implies (#[trigger] now[p]) < i + 1 by {
                if p < to {
                    assert(now[p] == was[p]);
                } else if p > to {
                    assert(now[p] == was[p - 1]);
                }
            }
            assert forall|p: int, q: int| 0 <= p < q < now.len() implies ranks_before(
                keys@,
                #[trigger] now[p] as int,
                #[trigger] now[q] as int,
            ) by {
                if q < to {
                    assert(now[p] == was[p] && now[q] == was[q]);
                } else if q == to {
                    assert(now[p] == was[p]);
                } else if p < to {
                    assert(now[p] == was[p] && now[q] == was[q - 1]);
                } else if p == to {
                    assert(now[q] == was[q - 1]);
                } else {
                    assert(now[p] == was[p - 1] && now[q] == was[q - 1]);
                }
            }
        }
        i = i + 1;
    }
    out
}

/// The ranking of a screen: none when no row matched any candidate, else the
/// places in descending order of their keys, equal ones in their own order.
pub fn ranking(matched: usize, keys: &Vec<u64>) -> (out: Option<Vec<usize>>)
    ensures
        out is None <==> matched == 0,
        out matches Some(order) ==> {
            &&& order@.len() == keys@.len()
            &&& forall|p: int| 0 <= p < order@.len() ==> (#[trigger] order@[p]) < keys@.len()
            &&& forall|p: int, q: int|
                0 <= p < q < order@.len() ==> ranks_before(
                    keys@,
                    #[trigger] order@[p] as int,
                    #[trigger] order@[q] as int,
                )
        },
{
    if matched == 0 {
        None
    } else {
        Some(rank_by(keys))
    }
}

} // verus!

//! What a screen asks of the bench, and what it makes of the bench's rows.
use vstd::prelude::*;

#[allow(unused_imports)]
use crate::json::{json_of, member, JsonV};
#[allow(unused_imports)]
use crate::overrides::before;
#[allow(unused_imports)]
use crate::screen::{
    bench_rows, first_match, flag_args, flags_before, group_args, grouped, grouped_also,
    in_key_order, law_reports_stand_in_key_order, matches_shape, reported, reported_also, reports,
    row_flags, row_flash, row_int, shape_of, sweep_args, swept, test_args, BenchParams, BenchShape,
    FlagsV, LoadFlags, RowV, ShapeV, SweepV,
};
#[allow(unused_imports)]
use crate::text::{dec, dec_int, joined, lowered, trimmed};
#[allow(unused_imports)]
use crate::text_laws::law_a_written_integer_reads_back;

verus! {

// ---------------------------------------------------------------------------
// Shapes
// ---------------------------------------------------------------------------
/// The flags of a candidate that load the model: its layers on the GPU, 99 for
/// all; its expert blocks on the CPU; and how it is loaded, in the build's own
/// spelling.
pub proof fn law_a_shape_loads_as_the_candidate_does(
    params: BenchParams,
    k: Seq<char>,
    v: Seq<char>,
    load: LoadFlags,
)
    ensures
        ({
            let model = shape_of(params, k, v, load).model;
            let lock = params.mlock == Some(true);
            let load_in = params.no_mmap == Some(true);
            &&& model.len() >= 2
            &&& model[0] == ("-ngl"@, if params.n_gpu_layers matches Some(n) && n > 0 {
                dec_int(params.n_gpu_layers->Some_0 as int)
            } else {
                seq!['9', '9']
            })
            &&& model[1] == ("-ncmoe"@, if params.n_cpu_moe is Some {
                dec_int(params.n_cpu_moe->Some_0 as int)
            } else {
                seq!['0']
            })
            &&& load == LoadFlags::LoadMode && !lock && !load_in ==> model.len() == 2
            &&& load == LoadFlags::LoadMode && !lock && load_in ==> model.len() == 3 && model[2] == (
                "-lm"@,
                "none"@,
            )
            &&& load == LoadFlags::LoadMode && lock && !load_in ==> model.len() == 3 && model[2] == (
                "-lm"@,
                "mmap+mlock"@,
            )
            &&& load == LoadFlags::LoadMode && lock && load_in ==> model.len() == 3 && model[2] == (
                "-lm"@,
                "mlock"@,
            )
            &&& load == LoadFlags::Legacy && load_in ==> model.len() == 3 && model[2] == (
                "-mmp"@,
                "0"@,
            )
            &&& load == LoadFlags::Legacy && !load_in ==> model.len() == 2
        }),
{
    reveal_with_fuel(dec, 3);
    assert(dec_int(99) =~= seq!['9', '9']);
    assert(dec_int(0) =~= seq!['0']);
}

/// The row that a candidate leads to is the candidate's own: a row with the
/// cache types, the batch sizes, the threads and the flash switch that the
/// candidate asks for matches its shape.
pub proof fn law_a_row_matches_the_candidate_that_asked_for_it(
    params: BenchParams,
    k: Seq<char>,
    v: Seq<char>,
    load: LoadFlags,
    row: JsonV,
    ub: i64,
    b: i64,
    t: i64,
)
    requires
        row_int(row, "n_ubatch"@) == Some(ub as int),
        row_int(row, "n_batch"@) == Some(b as int),
        row_int(row, "n_threads"@) == Some(t as int),
        member(row, "type_k"@) == Some(JsonV::Text(lowered(k))),
        member(row, "type_v"@) == Some(JsonV::Text(lowered(v))),
        params.ubatch_size matches Some(n) ==> n <= 0 || n == ub,
        params.batch_size matches Some(n) ==> n <= 0 || n == b,
        params.threads matches Some(n) ==> n <= 0 || n == t,
        params.flash_attn matches Some(on) ==> member(row, "flash_attn"@) == Some(JsonV::Bool(on)),
    ensures
        row_flags(row) matches Some(flags) && matches_shape(
            flags,
            shape_of(params, k, v, load).context,
        ),
{
    let flags = row_flags(row)->Some_0;
    let context = shape_of(params, k, v, load).context;
    assert forall|c: int| 0 <= c < context.len() implies flags.contains(#[trigger] context[c]) by {
        let n = flags.len() as int;
        assert(flags[0] == ("-b"@, dec_int(b as int)));
        assert(flags[1] == ("-ctk"@, lowered(k)));
        assert(flags[2] == ("-ctv"@, lowered(v)));
        assert(flags[n - 2] == ("-t"@, dec_int(t as int)));
        assert(flags[n - 1] == ("-ub"@, dec_int(ub as int)));
        if params.flash_attn is Some {
            assert(flags[3] == ("-fa"@, crate::screen::on_off(params.flash_attn->Some_0)));
        }
    }
}

proof fn lemma_flag_names()
    ensures
        "-b"@.len() == 2 && "-b"@[1] == 'b',
        "-t"@.len() == 2 && "-t"@[1] == 't',
        "-ub"@.len() == 3 && "-ub"@[1] == 'u',
        "-fa"@.len() == 3 && "-fa"@[1] == 'f',
        "-ctk"@.len() == 4 && "-ctk"@[3] == 'k',
        "-ctv"@.len() == 4 && "-ctv"@[3] == 'v',
        "on"@.len() == 2,
        "off"@.len() == 3,
{
    reveal_strlit("-b");
    reveal_strlit("-t");
    reveal_strlit("-ub");
    reveal_strlit("-fa");
    reveal_strlit("-ctk");
    reveal_strlit("-ctv");
    reveal_strlit("on");
    reveal_strlit("off");
}

/// A row of another candidate does not match: one that differs in a batch size,
/// in the threads, in a cache type or in the flash switch that the candidate
/// asks for is not its own.
pub proof fn law_a_row_of_another_candidate_does_not_match(
    params: BenchParams,
    k: Seq<char>,
    v: Seq<char>,
    load: LoadFlags,
    row: JsonV,
    ub: i64,
    b: i64,
    t: i64,
    tk: Seq<char>,
    tv: Seq<char>,
)
    requires
        row_int(row, "n_ubatch"@) == Some(ub as int),
        row_int(row, "n_batch"@) == Some(b as int),
        row_int(row, "n_threads"@) == Some(t as int),
        member(row, "type_k"@) == Some(JsonV::Text(tk)),
        member(row, "type_v"@) == Some(JsonV::Text(tv)),
        ({
            ||| (params.ubatch_size matches Some(n) && n > 0 && n != ub)
            ||| (params.batch_size matches Some(n) && n > 0 && n != b)
            ||| (params.threads matches Some(n) && n > 0 && n != t)
            ||| tk != lowered(k)
            ||| tv != lowered(v)
            ||| (params.flash_attn matches Some(on) && member(row, "flash_attn"@) == Some(
                JsonV::Bool(!on),
            ))
        }),
    ensures
        row_flags(row) matches Some(flags) && !matches_shape(
            flags,
            shape_of(params, k, v, load).context,
        ),
{
    lemma_flag_names();
    let flags = row_flags(row)->Some_0;
    let context = shape_of(params, k, v, load).context;
    law_a_written_integer_reads_back(ub);
    law_a_written_integer_reads_back(b);
    law_a_written_integer_reads_back(t);
    if params.ubatch_size is Some {
        law_a_written_integer_reads_back(params.ubatch_size->Some_0);
    }
    if params.batch_size is Some {
        law_a_written_integer_reads_back(params.batch_size->Some_0);
    }
    if params.threads is Some {
        law_a_written_integer_reads_back(params.threads->Some_0);
    }
    assert forall|i: int| 0 <= i < flags.len() implies {
        &&& (#[trigger] flags[i]).0 == "-b"@ ==> flags[i].1 == dec_int(b as int)
        &&& flags[i].0 == "-ctk"@ ==> flags[i].1 == tk
        &&& flags[i].0 == "-ctv"@ ==> flags[i].1 == tv
        &&& flags[i].0 == "-t"@ ==> flags[i].1 == dec_int(t as int)
        &&& flags[i].0 == "-ub"@ ==> flags[i].1 == dec_int(ub as int)
        &&& flags[i].0 == "-fa"@ ==> row_flash(row) is Some && flags[i].1 == crate::screen::on_off(
            row_flash(row)->Some_0,
        )
    } by {}
    assert(context[0] == ("-ctk"@, lowered(k)));
    assert(context[1] == ("-ctv"@, lowered(v)));
    let ubf = crate::screen::number_flag("-ub"@, params.ubatch_size);
    let bf = crate::screen::number_flag("-b"@, params.batch_size);
    let faf = crate::screen::flash_flag(params.flash_attn);
    if ubf.len() > 0 {
        assert(context[2] == ubf[0]);
    }
    if bf.len() > 0 {
        assert(context[2 + ubf.len() as int] == bf[0]);
    }
    if faf.len() > 0 {
        assert(context[2 + ubf.len() + bf.len() as int] == faf[0]);
    }
    if params.threads matches Some(n) && n > 0 {
        assert(context[2 + ubf.len() + bf.len() + faf.len() as int] == (
            "-t"@,
            dec_int(params.threads->Some_0 as int),
        ));
    }
}

// ---------------------------------------------------------------------------
// Arguments
// ---------------------------------------------------------------------------
proof fn lemma_flag_args(flags: FlagsV, n: int, i: int)
    requires
        0 <= i < n <= flags.len(),
    ensures
        flag_args(flags, n).len() == 2 * n,
        flag_args(flags, n)[2 * i] == flags[i].0,
        flag_args(flags, n)[2 * i + 1] == flags[i].1,
    decreases n,
{
    if n > 1 {
        lemma_flag_args(
            flags,
            n - 1,
            if i < n - 1 {
                i
            } else {
                0
            },
        );
    }
    if i == n - 1 && n == 1 {
        assert(flag_args(flags, 0).len() == 0);
    }
}

proof fn lemma_sweep_args(sweep: SweepV, n: int, i: int)
    requires
        0 <= i < n <= sweep.len(),
    ensures
        sweep_args(sweep, n).len() == 2 * n,
        sweep_args(sweep, n)[2 * i] == sweep[i].0,
        sweep_args(sweep, n)[2 * i + 1] == joined(sweep[i].1, ","@),
    decreases n,
{
    if n > 1 {
        lemma_sweep_args(
            sweep,
            n - 1,
            if i < n - 1 {
                i
            } else {
                0
            },
        );
    }
    if i == n - 1 && n == 1 {
        assert(sweep_args(sweep, 0).len() == 0);
    }
}

/// The bench's command line: the model's path, each of the group's load flags
/// with its value, each swept flag with its values between commas, and the test
/// of 2048 tokens in and 128 out, twice, as JSON.
pub proof fn law_a_bench_command_names_all(
    path: Seq<char>,
    model: FlagsV,
    group: Seq<ShapeV>,
    i: int,
    j: int,
)
    requires
        0 <= i < model.len(),
        0 <= j < swept(group, group.len() as int).len(),
    ensures
        ({
            let args = group_args(path, model, group);
            let sweep = swept(group, group.len() as int);
            let m = 2 + 2 * (model.len() as int);
            let s = m + 2 * (sweep.len() as int);
            &&& args.len() == s + 8
            &&& args[0] == "-m"@ && args[1] == path
            &&& args[2 + 2 * i] == model[i].0 && args[3 + 2 * i] == model[i].1
            &&& args[m + 2 * j] == sweep[j].0 && args[m + 2 * j + 1] == joined(sweep[j].1, ","@)
            &&& args[s] == "-p"@ && args[s + 1] == seq!['2', '0', '4', '8']
            &&& args[s + 2] == "-n"@ && args[s + 3] == seq!['1', '2', '8']
            &&& args[s + 4] == "-r"@ && args[s + 5] == seq!['2']
            &&& args[s + 6] == "-o"@ && args[s + 7] == "json"@
        }),
{
    let sweep = swept(group, group.len() as int);
    lemma_flag_args(model, model.len() as int, i);
    lemma_sweep_args(sweep, sweep.len() as int, j);
    reveal_with_fuel(dec, 5);
    assert(dec(2048) =~= seq!['2', '0', '4', '8']);
    assert(dec(128) =~= seq!['1', '2', '8']);
    assert(dec(2) =~= seq!['2']);
    let front = seq!["-m"@, path] + flag_args(model, model.len() as int);
    let body = front + sweep_args(sweep, sweep.len() as int);
    assert(group_args(path, model, group) == body + test_args());
}

// ---------------------------------------------------------------------------
// Reports
// ---------------------------------------------------------------------------
/// The report under a key, if there is one.
pub open spec fn report_under(rows: Seq<RowV>, key: FlagsV) -> Option<RowV>
    decreases rows.len(),
{
    if rows.len() == 0 {
        None
    } else if rows[0].key == key {
        Some(rows[0])
    } else {
        report_under(rows.skip(1), key)
    }
}

proof fn lemma_report(rows: Seq<RowV>, key: FlagsV, row: JsonV, other: FlagsV)
    requires
        in_key_order(rows),
    ensures
        report_under(reported_also(rows, key, row), other) == if other == key {
            Some(
                reported(
                    match report_under(rows, key) {
                        Some(r) => r,
                        None => RowV { key, prompt: None, generation: None },
                    },
                    row,
                ),
            )
        } else {
            report_under(rows, other)
        },
    decreases rows.len(),
{
    let after = reported_also(rows, key, row);
    let fresh = reported(RowV { key, prompt: None, generation: None }, row);
    if rows.len() == 0 {
        assert(after.skip(1) =~= seq![]);
        assert(report_under(after.skip(1), other) is None);
    } else if rows[0].key == key {
        assert(after.skip(1) =~= rows.skip(1));
    } else if flags_before(key, rows[0].key) {
        assert(after.skip(1) =~= rows);
        assert(report_under(rows, key) is None) by {
            lemma_absent(rows, key);
        }
    } else {
        let rest = rows.skip(1);
        assert forall|i: int, j: int| 0 <= i < j < rest.len() implies flags_before(
            (#[trigger] rest[i]).key,
            (#[trigger] rest[j]).key,
        ) by {
            assert(rest[i] == rows[i + 1] && rest[j] == rows[j + 1]);
        }
        lemma_report(rest, key, row, other);
        assert(after.skip(1) =~= reported_also(rest, key, row));
    }
}

proof fn lemma_absent(rows: Seq<RowV>, key: FlagsV)
    requires
        in_key_order(rows),
        rows.len() > 0 ==> flags_before(key, rows[0].key),
    ensures
        report_under(rows, key) is None,
    decreases rows.len(),
{
    if rows.len() > 0 {
        crate::screen::law_flags_are_ordered(key, rows[0].key, key);
        let rest = rows.skip(1);
        assert forall|i: int, j: int| 0 <= i < j < rest.len() implies flags_before(
            (#[trigger] rest[i]).key,
            (#[trigger] rest[j]).key,
        ) by {
            assert(rest[i] == rows[i + 1] && rest[j] == rows[j + 1]);
        }
        if rest.len() > 0 {
            assert(rest[0] == rows[1]);
            crate::screen::law_flags_are_ordered(key, rows[0].key, rows[1].key);
        }
        lemma_absent(rest, key);
    }
}

/// A row adds its rate to the report of its own flags, as the prompt's if it
/// had prompt tokens and as the generation's if not; the last such row counts.
/// A row that lacks a flag adds nothing.
pub proof fn law_a_row_adds_its_rate_to_its_own_report(rows: Seq<JsonV>, n: int, other: FlagsV)
    requires
        0 < n <= rows.len(),
    ensures
        ({
            let row = rows[n - 1];
            let earlier = report_under(reports(rows, n - 1), other);
            let now = report_under(reports(rows, n), other);
            let rate = match member(row, "avg_ts"@) {
                Some(JsonV::Unsigned(x)) => Some(JsonV::Unsigned(x)),
                Some(JsonV::Negative(x)) => Some(JsonV::Negative(x)),
                Some(JsonV::Float(x)) => Some(JsonV::Float(x)),
                _ => None::<JsonV>,
            };
            let prompt = row_int(row, "n_prompt"@) matches Some(p) && p > 0;
            &&& row_flags(row) != Some(other) ==> now == earlier
            &&& row_flags(row) == Some(other) ==> (now matches Some(r) && {
                &&& prompt ==> r.prompt == rate && r.generation == (match earlier {
                    Some(e) => e.generation,
                    None => None,
                })
                &&& !prompt ==> r.generation == rate && r.prompt == (match earlier {
                    Some(e) => e.prompt,
                    None => None,
                })
            })
        }),
{
    law_reports_stand_in_key_order(rows, n - 1);
    match row_flags(rows[n - 1]) {
        Some(key) => lemma_report(reports(rows, n - 1), key, rows[n - 1], other),
        None => {},
    }
}

/// The rows of a bench's answer are the items of the list that it is; anything
/// else has none.
pub proof fn law_only_a_list_has_rows(stdout: Seq<char>)
    ensures
        json_of(trimmed(stdout)) matches Some(JsonV::List(items)) ==> bench_rows(stdout) == items,
        json_of(trimmed(stdout)) is None ==> bench_rows(stdout).len() == 0,
        json_of(trimmed(stdout)) matches Some(JsonV::Object(_)) ==> bench_rows(stdout).len() == 0,
{
}

/// A row belongs to the first shape of its group that it matches.
pub proof fn law_a_row_belongs_to_its_first_match(
    row: FlagsV,
    shapes: Seq<BenchShape>,
    group: Seq<usize>,
    k: int,
)
    requires
        0 <= k <= group.len(),
        forall|p: int|
            0 <= p < k ==> !matches_shape(row, shapes[#[trigger] group[p] as int]@.context),
        k < group.len() ==> matches_shape(row, shapes[group[k] as int]@.context),
    ensures
        first_match(row, shapes, group, 0) == if k < group.len() {
            Some(group[k])
        } else {
            None
        },
{
    lemma_first_match(row, shapes, group, 0, k);
}

proof fn lemma_first_match(
    row: FlagsV,
    shapes: Seq<BenchShape>,
    group: Seq<usize>,
    from: int,
    k: int,
)
    requires
        0 <= from <= k <= group.len(),
        forall|p: int|
            from <= p < k ==> !matches_shape(row, shapes[#[trigger] group[p] as int]@.context),
        k < group.len() ==> matches_shape(row, shapes[group[k] as int]@.context),
    ensures
        first_match(row, shapes, group, from) == if k < group.len() {
            Some(group[k])
        } else {
            None
        },
    decreases k - from,
{
    if from < k {
        assert(!matches_shape(row, shapes[group[from] as int]@.context));
        lemma_first_match(row, shapes, group, from + 1, k);
    }
}

// ---------------------------------------------------------------------------
// Groups
// ---------------------------------------------------------------------------
/// Whether a place stands in some group.
pub open spec fn stands_in(groups: Seq<Seq<usize>>, i: usize) -> bool {
    exists|g: int| 0 <= g < groups.len() && (#[trigger] groups[g]).contains(i)
}

/// Whether the shapes of each group load the same model.
pub open spec fn groups_agree(groups: Seq<Seq<usize>>, shapes: Seq<BenchShape>) -> bool {
    forall|g: int, p: int|
        0 <= g < groups.len() && 0 <= p < groups[g].len() ==> shapes[(#[trigger] groups[g][p]) as int]@.model
            == shapes[groups[g][0] as int]@.model
}

proof fn lemma_grouped(groups: Seq<Seq<usize>>, shapes: Seq<BenchShape>, i: usize)
    requires
        forall|g: int| 0 <= g < groups.len() ==> (#[trigger] groups[g]).len() > 0,
        groups_agree(groups, shapes),
    ensures
        ({
            let now = grouped_also(groups, shapes, i);
            &&& forall|g: int| 0 <= g < now.len() ==> (#[trigger] now[g]).len() > 0
            &&& groups_agree(now, shapes)
            &&& stands_in(now, i)
            &&& forall|j: usize| #[trigger] stands_in(groups, j) ==> stands_in(now, j)
            &&& forall|j: usize| #[trigger] stands_in(now, j) ==> j == i || stands_in(groups, j)
        }),
    decreases groups.len(),
{
    let now = grouped_also(groups, shapes, i);
    if groups.len() == 0 {
        assert(now[0] =~= seq![i]);
        assert(now[0][0] == i);
        assert(now[0].contains(i));
        assert(stands_in(now, i));
        assert forall|j: usize| #[trigger] stands_in(now, j) implies j == i by {
            let g = choose|g: int| 0 <= g < now.len() && (#[trigger] now[g]).contains(j);
            assert(g == 0);
        }
    } else if shapes[groups[0][0] as int]@.model == shapes[i as int]@.model {
        let first = groups[0].push(i);
        assert(now[0] == first);
        assert forall|g: int| 1 <= g < now.len() implies #[trigger] now[g] == groups[g] by {}
        assert(first[groups[0].len() as int] == i);
        assert(now[0].contains(i));
        assert(stands_in(now, i));
        assert(first[0] == groups[0][0]);
        assert forall|g: int, p: int| 0 <= g < now.len() && 0 <= p < now[g].len() implies shapes[(
        #[trigger] now[g][p]) as int]@.model == shapes[now[g][0] as int]@.model by {
            if g > 0 {
                assert(now[g] == groups[g]);
                assert(shapes[groups[g][p] as int]@.model == shapes[groups[g][0] as int]@.model);
            } else if p < groups[0].len() {
                assert(now[0][p] == groups[0][p]);
                assert(shapes[groups[0][p] as int]@.model == shapes[groups[0][0] as int]@.model);
            }
        }
        assert forall|j: usize| #[trigger] stands_in(groups, j) implies stands_in(now, j) by {
            let g = choose|g: int| 0 <= g < groups.len() && (#[trigger] groups[g]).contains(j);
            if g == 0 {
                let p = choose|p: int| 0 <= p < groups[0].len() && groups[0][p] == j;
                assert(first[p] == j);
                assert(now[0].contains(j));
            } else {
                assert(now[g].contains(j));
            }
        }
        assert forall|j: usize| #[trigger] stands_in(now, j) implies j == i || stands_in(groups, j) by {
            let g = choose|g: int| 0 <= g < now.len() && (#[trigger] now[g]).contains(j);
            if g == 0 {
                let p = choose|p: int| 0 <= p < first.len() && first[p] == j;
                if p < groups[0].len() {
                    assert(groups[0][p] == j);
                    assert(groups[0].contains(j));
                }
            } else {
                assert(groups[g].contains(j));
            }
        }
    } else if flags_before(shapes[i as int]@.model, shapes[groups[0][0] as int]@.model) {
        assert(now[0] =~= seq![i]);
        assert forall|g: int| 1 <= g < now.len() implies #[trigger] now[g] == groups[g - 1] by {}
        assert(now[0][0] == i);
        assert(now[0].contains(i));
        assert(stands_in(now, i));
        assert forall|g: int, p: int| 0 <= g < now.len() && 0 <= p < now[g].len() implies shapes[(
        #[trigger] now[g][p]) as int]@.model == shapes[now[g][0] as int]@.model by {
            if g > 0 {
                assert(now[g] == groups[g - 1]);
                assert(shapes[groups[g - 1][p] as int]@.model
                    == shapes[groups[g - 1][0] as int]@.model);
            }
        }
        assert forall|j: usize| #[trigger] stands_in(groups, j) implies stands_in(now, j) by {
            let g = choose|g: int| 0 <= g < groups.len() && (#[trigger] groups[g]).contains(j);
            assert(now[g + 1].contains(j));
        }
        assert forall|j: usize| #[trigger] stands_in(now, j) implies j == i || stands_in(groups, j) by {
            let g = choose|g: int| 0 <= g < now.len() && (#[trigger] now[g]).contains(j);
            if g > 0 {
                assert(groups[g - 1].contains(j));
            }
        }
    } else {
        let rest = groups.skip(1);
        assert forall|g: int| 0 <= g < rest.len() implies (#[trigger] rest[g]).len() > 0 by {
            assert(rest[g] == groups[g + 1]);
        }
        assert forall|g: int, p: int| 0 <= g < rest.len() && 0 <= p < rest[g].len() implies shapes[(
        #[trigger] rest[g][p]) as int]@.model == shapes[rest[g][0] as int]@.model by {
            assert(rest[g] == groups[g + 1]);
            assert(shapes[groups[g + 1][p] as int]@.model == shapes[groups[g + 1][0] as int]@.model);
        }
        lemma_grouped(rest, shapes, i);
        let tail = grouped_also(rest, shapes, i);
        assert(now[0] == groups[0]);
        assert forall|g: int| 1 <= g < now.len() implies #[trigger] now[g] == tail[g - 1] by {}
        assert forall|g: int, p: int| 0 <= g < now.len() && 0 <= p < now[g].len() implies shapes[(
        #[trigger] now[g][p]) as int]@.model == shapes[now[g][0] as int]@.model by {
            if g > 0 {
                assert(now[g] == tail[g - 1]);
                assert(shapes[tail[g - 1][p] as int]@.model == shapes[tail[g - 1][0] as int]@.model);
            } else {
                assert(shapes[groups[0][p] as int]@.model == shapes[groups[0][0] as int]@.model);
            }
        }
        assert forall|j: usize| #[trigger] stands_in(tail, j) implies stands_in(now, j) by {
            let g = choose|g: int| 0 <= g < tail.len() && (#[trigger] tail[g]).contains(j);
            assert(now[g + 1].contains(j));
        }
        assert(stands_in(now, i));
        assert forall|j: usize| #[trigger] stands_in(groups, j) implies stands_in(now, j) by {
            let g = choose|g: int| 0 <= g < groups.len() && (#[trigger] groups[g]).contains(j);
            if g == 0 {
                assert(now[0].contains(j));
            } else {
                assert(rest[g - 1].contains(j));
                assert(stands_in(rest, j));
                assert(stands_in(tail, j));
            }
        }
        assert forall|j: usize| #[trigger] stands_in(now, j) implies j == i || stands_in(groups, j) by {
            let g = choose|g: int| 0 <= g < now.len() && (#[trigger] now[g]).contains(j);
            if g == 0 {
                assert(groups[0].contains(j));
            } else {
                assert(tail[g - 1].contains(j));
                assert(stands_in(tail, j));
                if j != i {
                    assert(stands_in(rest, j));
                    let h = choose|h: int| 0 <= h < rest.len() && (#[trigger] rest[h]).contains(j);
                    assert(groups[h + 1].contains(j));
                }
            }
        }
    }
}

/// Every candidate is in a group, no group holds anything else, and the
/// candidates of a group load the same model.
pub proof fn law_candidates_are_grouped_by_what_they_load(shapes: Seq<BenchShape>, n: int)
    requires
        0 <= n <= shapes.len(),
        n <= usize::MAX,
    ensures
        groups_agree(grouped(shapes, n), shapes),
        forall|i: usize| #[trigger] stands_in(grouped(shapes, n), i) <==> i < n,
        forall|g: int| 0 <= g < grouped(shapes, n).len() ==> (#[trigger] grouped(shapes, n)[g]).len() > 0,
    decreases n,
{
    if n > 0 {
        law_candidates_are_grouped_by_what_they_load(shapes, n - 1);
        lemma_grouped(grouped(shapes, n - 1), shapes, (n - 1) as usize);
        assert forall|i: usize| #[trigger] stands_in(grouped(shapes, n), i) <==> i < n by {
            if i < n - 1 {
                assert(stands_in(grouped(shapes, n - 1), i));
            }
        }
    }
}

/// A sweep lists each value of a flag once.
pub proof fn law_a_sweep_lists_a_value_once(group: Seq<ShapeV>, n: int)
    requires
        0 <= n <= group.len(),
    ensures
        lists_once(swept(group, n)),
    decreases n,
{
    if n > 0 {
        law_a_sweep_lists_a_value_once(group, n - 1);
        lemma_flags_once(
            swept(group, n - 1),
            group[n - 1].context,
            group[n - 1].context.len() as int,
        );
    }
}

/// Whether no flag of a sweep has a value twice.
pub open spec fn lists_once(sweep: SweepV) -> bool {
    forall|f: int, i: int, j: int|
        #![trigger sweep[f].1[i], sweep[f].1[j]]
        0 <= f < sweep.len() && 0 <= i < j < sweep[f].1.len() ==> sweep[f].1[i] != sweep[f].1[j]
}

proof fn lemma_flags_once(sweep: SweepV, flags: FlagsV, n: int)
    requires
        lists_once(sweep),
        0 <= n <= flags.len(),
    ensures
        lists_once(crate::screen::swept_flags(sweep, flags, n)),
    decreases n,
{
    if n > 0 {
        lemma_flags_once(sweep, flags, n - 1);
        lemma_value_once(
            crate::screen::swept_flags(sweep, flags, n - 1),
            flags[n - 1].0,
            flags[n - 1].1,
        );
    }
}

proof fn lemma_value_once(sweep: SweepV, flag: Seq<char>, value: Seq<char>)
    requires
        lists_once(sweep),
    ensures
        lists_once(crate::screen::swept_also(sweep, flag, value)),
    decreases sweep.len(),
{
    let now = crate::screen::swept_also(sweep, flag, value);
    if sweep.len() > 0 && sweep[0].0 != flag && !before(flag, sweep[0].0) {
        let rest = sweep.skip(1);
        assert forall|f: int, i: int, j: int|
            #![trigger rest[f].1[i], rest[f].1[j]]
            0 <= f < rest.len() && 0 <= i < j < rest[f].1.len() implies rest[f].1[i]
            != rest[f].1[j] by {
            assert(rest[f] == sweep[f + 1]);
            assert(sweep[f + 1].1[i] != sweep[f + 1].1[j]);
        }
        lemma_value_once(rest, flag, value);
    }
    assert forall|f: int, i: int, j: int|
        #![trigger now[f].1[i], now[f].1[j]]
        0 <= f < now.len() && 0 <= i < j < now[f].1.len() implies now[f].1[i] != now[f].1[j] by {
        if sweep.len() == 0 {
        } else if sweep[0].0 == flag {
            if f > 0 {
                assert(now[f] == sweep[f]);
                assert(sweep[f].1[i] != sweep[f].1[j]);
            } else if j < sweep[0].1.len() {
                assert(now[0].1[i] == sweep[0].1[i] && now[0].1[j] == sweep[0].1[j]);
                assert(sweep[0].1[i] != sweep[0].1[j]);
            } else {
                assert(now[0].1[i] == sweep[0].1[i] && now[0].1[j] == value);
                if sweep[0].1[i] == value {
                    assert(sweep[0].1.contains(value));
                }
            }
        } else if before(flag, sweep[0].0) {
            if f > 0 {
                assert(now[f] == sweep[f - 1]);
                assert(sweep[f - 1].1[i] != sweep[f - 1].1[j]);
            }
        } else if f == 0 {
            assert(now[0] == sweep[0]);
            assert(sweep[0].1[i] != sweep[0].1[j]);
        } else {
            let tail = crate::screen::swept_also(sweep.skip(1), flag, value);
            assert(now[f] == tail[f - 1]);
            assert(tail[f - 1].1[i] != tail[f - 1].1[j]);
        }
    }
}

} // verus!

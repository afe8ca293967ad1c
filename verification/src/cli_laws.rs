//! What a command line asks for, and what the host's answers list.
use vstd::prelude::*;

#[allow(unused_imports)]
use crate::cli::{
    arms_defect, beam_of, budget_of, filled_lines, findbest_defect, findbest_document, flag_at,
    format_of, goal_named, intended_of, mode_of, number_or, profile_named, uplift_defect, value_of,
    without_colons, FindBestResult, Mode, Optimize,
};
#[allow(unused_imports)]
use crate::json::{law_the_first_member_of_a_name_is_found, member, JsonV};
#[allow(unused_imports)]
use crate::output::OutputFormat;
#[allow(unused_imports)]
use crate::text::{contains, dec, dec_int, occurs_at, pieces, signed, trimmed, unsigned};
#[allow(unused_imports)]
use crate::text_laws::{
    law_a_written_integer_reads_back, law_a_written_number_reads_back,
    law_pieces_stand_between_separators,
};
#[allow(unused_imports)]
use crate::tuner::ScoreProfile;

verus! {

// ---------------------------------------------------------------------------
// Flags
// ---------------------------------------------------------------------------
proof fn lemma_flag(args: Seq<Seq<char>>, name: Seq<char>, from: int, k: int)
    requires
        0 <= from <= k <= args.len(),
        forall|j: int| from <= j < k ==> #[trigger] args[j] != name,
        k < args.len() ==> args[k] == name,
    ensures
        flag_at(args, name, from) == if k < args.len() {
            Some(k)
        } else {
            None
        },
    decreases k - from,
{
    if from < k {
        assert(args[from] != name);
        lemma_flag(args, name, from + 1, k);
    }
}

/// A flag's value is the argument behind its first occurrence; a flag that is
/// last, or that does not occur, has none.
pub proof fn law_a_value_stands_behind_its_flag(args: Seq<Seq<char>>, name: Seq<char>, k: int)
    requires
        0 <= k <= args.len(),
        forall|j: int| 0 <= j < k ==> #[trigger] args[j] != name,
        k < args.len() ==> args[k] == name,
    ensures
        value_of(args, name) == if k + 1 < args.len() {
            Some(args[k + 1])
        } else {
            None
        },
{
    lemma_flag(args, name, 0, k);
}

/// A number flag that is not given has its default. One that is given in
/// decimal has that number, up to its maximum; beyond it, or where it spells no
/// number, the error quotes what was given.
pub proof fn law_a_number_flag_reads_what_was_written(
    args: Seq<Seq<char>>,
    name: Seq<char>,
    n: u64,
    default: u64,
    max: u64,
)
    ensures
        value_of(args, name) is None ==> number_or(args, name, default, max) == Ok::<
            u64,
            Seq<char>,
        >(default),
        value_of(args, name) == Some(dec(n as nat)) && n <= max ==> number_or(
            args,
            name,
            default,
            max,
        ) == Ok::<u64, Seq<char>>(n),
        value_of(args, name) == Some(dec(n as nat)) && n > max ==> number_or(
            args,
            name,
            default,
            max,
        ) is Err,
        value_of(args, name) matches Some(v) ==> (unsigned(v) is None ==> (number_or(
            args,
            name,
            default,
            max,
        ) matches Err(m) && contains(m, name) && contains(m, v))),
{
    law_a_written_number_reads_back(n);
    match value_of(args, name) {
        Some(v) => {
            let m = crate::cli::bad_value(name, v);
            let a = "bad "@.len() as int;
            let b = " '"@.len() as int;
            assert(m.subrange(a, a + name.len()) =~= name);
            assert(occurs_at(m, name, a));
            assert(m.subrange(a + name.len() + b, a + name.len() + b + v.len()) =~= v);
            assert(occurs_at(m, v, a + name.len() + b));
        },
        None => {},
    }
}

/// The budget is 30 where none is given, and else the number that is written,
/// also one below zero.
pub proof fn law_a_budget_reads_what_was_written(args: Seq<Seq<char>>, n: i64)
    ensures
        value_of(args, "--budget"@) is None ==> budget_of(args) == Ok::<i64, Seq<char>>(30),
        value_of(args, "--budget"@) == Some(dec_int(n as int)) ==> budget_of(args) == Ok::<
            i64,
            Seq<char>,
        >(n),
        value_of(args, "--budget"@) matches Some(v) ==> (signed(v) is None ==> budget_of(
            args,
        ) is Err),
{
    law_a_written_integer_reads_back(n);
}

/// The beam is 3 wide where nothing is given, and else as wide as is written,
/// from 1 to 100; any other width is an error that says which it was.
pub proof fn law_a_beam_is_one_to_a_hundred_wide(args: Seq<Seq<char>>, n: u64)
    requires
        n <= usize::MAX,
    ensures
        value_of(args, "--beam-width"@) is None ==> beam_of(args) == Ok::<u64, Seq<char>>(3),
        value_of(args, "--beam-width"@) == Some(dec(n as nat)) && 1 <= n <= 100 ==> beam_of(args)
            == Ok::<u64, Seq<char>>(n),
        value_of(args, "--beam-width"@) == Some(dec(n as nat)) && (n == 0 || n > 100) ==> (beam_of(
            args,
        ) matches Err(m) && contains(m, dec(n as nat))),
        beam_of(args) matches Ok(w) ==> 1 <= w <= 100,
{
    law_a_written_number_reads_back(n);
    let head = "--beam-width must be between 1 and 100 (got "@;
    let m = head + dec(n as nat) + ")"@;
    assert(m.subrange(head.len() as int, (head.len() + dec(n as nat).len()) as int) =~= dec(n as nat));
    assert(occurs_at(m, dec(n as nat), head.len() as int));
}

/// The four modes are asked for by their names, and the fourth also by its full
/// name. A command line without the flag asks for none, and any other word is an
/// error that quotes it.
pub proof fn law_a_mode_is_asked_for_by_name(args: Seq<Seq<char>>, word: Seq<char>)
    requires
        value_of(args, "--mode"@) == Some(word),
    ensures
        word == "native"@ ==> mode_of(args) == Ok::<Option<Mode>, Seq<char>>(Some(Mode::Native)),
        word == "turboquant"@ ==> mode_of(args) == Ok::<Option<Mode>, Seq<char>>(
            Some(Mode::Turboquant),
        ),
        word == "mtpturbo"@ ==> mode_of(args) == Ok::<Option<Mode>, Seq<char>>(
            Some(Mode::Mtpturbo),
        ),
        word == "prism"@ ==> mode_of(args) == Ok::<Option<Mode>, Seq<char>>(Some(Mode::PrismMl)),
        word == "prismml"@ ==> mode_of(args) == Ok::<Option<Mode>, Seq<char>>(Some(Mode::PrismMl)),
        mode_of(args) is Ok <==> seq![
            "native"@,
            "turboquant"@,
            "mtpturbo"@,
            "prism"@,
            "prismml"@,
        ].contains(word),
        mode_of(args) matches Err(m) ==> contains(m, word),
{
    reveal_strlit("native");
    reveal_strlit("turboquant");
    reveal_strlit("mtpturbo");
    reveal_strlit("prism");
    reveal_strlit("prismml");
    assert("turboquant"@.len() == 10 && "mtpturbo"@.len() == 8 && "native"@.len() == 6);
    assert("prism"@.len() == 5 && "prismml"@.len() == 7);
    let names = seq!["native"@, "turboquant"@, "mtpturbo"@, "prism"@, "prismml"@];
    assert(names[0] == "native"@ && names[1] == "turboquant"@ && names[2] == "mtpturbo"@);
    assert(names[3] == "prism"@ && names[4] == "prismml"@);
    let head = "unknown --mode '"@;
    let m = head + word + "' (use native|turboquant|mtpturbo|prism)"@;
    assert(m.subrange(head.len() as int, (head.len() + word.len()) as int) =~= word);
    assert(occurs_at(m, word, head.len() as int));
}

/// Each profile and each goal has one name of its own.
pub proof fn law_profiles_and_goals_have_one_name_each(word: Seq<char>)
    ensures
        profile_named("pure"@) == Some(ScoreProfile::Pure),
        profile_named("balanced"@) == Some(ScoreProfile::Balanced),
        profile_named("both"@) == Some(ScoreProfile::Both),
        profile_named(word) is Some ==> word == "pure"@ || word == "balanced"@ || word == "both"@,
        goal_named("gen"@) == Some(Optimize::Gen),
        goal_named("prompt"@) == Some(Optimize::Prompt),
        goal_named("both"@) == Some(Optimize::Both),
        goal_named("coding-agent"@) == Some(Optimize::CodingAgent),
        goal_named(word) is Some ==> word == "gen"@ || word == "prompt"@ || word == "both"@ || word
            == "coding-agent"@,
{
    reveal_strlit("pure");
    reveal_strlit("balanced");
    reveal_strlit("both");
    reveal_strlit("gen");
    reveal_strlit("prompt");
    reveal_strlit("coding-agent");
    assert("pure"@[0] == 'p' && "both"@[0] == 'b');
    assert("balanced"@.len() == 8 && "both"@.len() == 4 && "gen"@.len() == 3);
    assert("prompt"@.len() == 6 && "coding-agent"@.len() == 12);
}

/// An explicit format is what it says, whatever the terminal; without one a
/// terminal gets text and anything else gets JSON.
pub proof fn law_a_format_is_asked_for_or_follows_the_terminal(args: Seq<Seq<char>>, tty: bool)
    ensures
        value_of(args, "--format"@) == Some("text"@) ==> format_of(args, tty) == Ok::<
            OutputFormat,
            Seq<char>,
        >(OutputFormat::Text),
        value_of(args, "--format"@) == Some("json"@) ==> format_of(args, tty) == Ok::<
            OutputFormat,
            Seq<char>,
        >(OutputFormat::Json),
        value_of(args, "--format"@) is None ==> format_of(args, true) == Ok::<
            OutputFormat,
            Seq<char>,
        >(OutputFormat::Text) && format_of(args, false) == Ok::<OutputFormat, Seq<char>>(
            OutputFormat::Json,
        ),
        value_of(args, "--format"@) matches Some(v) ==> (v != "text"@ && v != "json"@ ==> (format_of(
            args,
            tty,
        ) matches Err(m) && contains(m, v))),
{
    reveal_strlit("text");
    reveal_strlit("json");
    assert("text"@[0] == 't' && "json"@[0] == 'j');
    match value_of(args, "--format"@) {
        Some(v) => {
            let head = "unknown --format '"@;
            let m = head + v + "' (use text|json)"@;
            assert(m.subrange(head.len() as int, (head.len() + v.len()) as int) =~= v);
            assert(occurs_at(m, v, head.len() as int));
        },
        None => {},
    }
}

// ---------------------------------------------------------------------------
// Commands
// ---------------------------------------------------------------------------
/// An arms command line is in order if and only if each flag that it gives
/// reads: two numbers, a format, and a way to grade. A bare one is.
pub proof fn law_an_arms_line_is_in_order_if_its_flags_read(args: Seq<Seq<char>>, tty: bool)
    ensures
        arms_defect(args, tty) is None <==> {
            &&& value_of(args, "--solver-timeout"@) matches Some(v) ==> unsigned(v) is Some
            &&& value_of(args, "--grade-timeout"@) matches Some(v) ==> unsigned(v) is Some
            &&& value_of(args, "--format"@) matches Some(v) ==> v == "text"@ || v == "json"@
            &&& value_of(args, "--grade"@) matches Some(v) ==> v == "docker"@ || v == "none"@
        },
{
}

/// An uplift command line is in order if and only if it names a workspace and a
/// model and the numbers that it gives read, the trials among them as a number
/// of 32 bits.
pub proof fn law_an_uplift_line_is_in_order_if_it_names_its_parts(args: Seq<Seq<char>>)
    ensures
        uplift_defect(args) is None <==> {
            &&& value_of(args, "--workspace"@) is Some
            &&& value_of(args, "--model"@) is Some
            &&& value_of(args, "--trials"@) matches Some(v) ==> (unsigned(v) matches Some(n) && n
                < 0x1_0000_0000)
            &&& value_of(args, "--timeout"@) matches Some(v) ==> unsigned(v) is Some
        },
{
}

/// A tuning command line is in order if and only if it names a model and every
/// flag that it gives reads.
pub proof fn law_a_tuning_line_is_in_order_if_its_flags_read(args: Seq<Seq<char>>)
    ensures
        findbest_defect(args) is None <==> {
            &&& value_of(args, "--model"@) is Some
            &&& value_of(args, "--mode"@) matches Some(v) ==> v == "native"@ || v == "turboquant"@
                || v == "mtpturbo"@ || v == "prism"@ || v == "prismml"@
            &&& value_of(args, "--profile"@) matches Some(v) ==> v == "pure"@ || v == "balanced"@
                || v == "both"@
            &&& value_of(args, "--optimize"@) matches Some(v) ==> v == "gen"@ || v == "prompt"@ || v
                == "both"@ || v == "coding-agent"@
            &&& value_of(args, "--budget"@) matches Some(v) ==> signed(v) is Some
            &&& value_of(args, "--beam-width"@) matches Some(v) ==> (unsigned(v) matches Some(n)
                && 1 <= n <= 100)
            &&& value_of(args, "--runs"@) matches Some(v) ==> (unsigned(v) matches Some(n) && n
                <= usize::MAX)
            &&& value_of(args, "--startup-timeout"@) matches Some(v) ==> (unsigned(v) matches Some(
                n,
            ) && n < 0x1_0000_0000)
        },
{
}

/// The intended lessons are those between the commas of the list, without the
/// white space around each; without a list they are the ones declared.
pub proof fn law_intended_lessons_stand_between_commas(
    args: Seq<Seq<char>>,
    declared: Seq<Seq<char>>,
    first: Seq<char>,
    rest: Seq<char>,
    other: Seq<Seq<char>>,
)
    requires
        !first.contains(','),
    ensures
        value_of(args, "--intended"@) is None ==> intended_of(args, declared) == declared,
        value_of(args, "--intended"@) == Some(first) ==> intended_of(args, declared) == seq![
            trimmed(first),
        ],
        value_of(args, "--intended"@) == Some(first.push(',') + rest) && value_of(
            other,
            "--intended"@,
        ) == Some(rest) ==> intended_of(args, declared) == seq![trimmed(first)] + intended_of(
            other,
            declared,
        ),
{
    law_pieces_stand_between_separators(first, ',', rest);
    let breaks = |c: char| c == ',';
    assert(crate::cli::all_trimmed(pieces(first, breaks)) =~= seq![trimmed(first)]);
    assert(crate::cli::all_trimmed(seq![first] + pieces(rest, breaks)) =~= seq![trimmed(first)]
        + crate::cli::all_trimmed(pieces(rest, breaks)));
}

// ---------------------------------------------------------------------------
// Texts
// ---------------------------------------------------------------------------
/// A stamp loses its colons and nothing else: taking the colons out of two texts
/// in a row is taking them out of each, a text without any stays as it is, and a
/// colon leaves nothing.
pub proof fn law_a_stamp_loses_only_its_colons(a: Seq<char>, b: Seq<char>)
    ensures
        without_colons(a + b) == without_colons(a) + without_colons(b),
        !a.contains(':') ==> without_colons(a) == a,
        without_colons(seq![':']) == Seq::<char>::empty(),
    decreases b.len(),
{
    lemma_no_colons(a);
    let colon = seq![':'];
    assert(colon.drop_last() =~= seq![]);
    assert(without_colons(colon.drop_last()) =~= seq![]);
    assert(without_colons(colon) == without_colons(colon.drop_last()));
    if b.len() == 0 {
        assert(a + b =~= a);
        assert(without_colons(a) + seq![] =~= without_colons(a));
    } else {
        let all = a + b;
        assert(all.drop_last() =~= a + b.drop_last());
        law_a_stamp_loses_only_its_colons(a, b.drop_last());
        if b.last() != ':' {
            assert((without_colons(a) + without_colons(b.drop_last())).push(b.last())
                =~= without_colons(a) + without_colons(b.drop_last()).push(b.last()));
        }
    }
}

proof fn lemma_no_colons(a: Seq<char>)
    ensures
        !a.contains(':') ==> without_colons(a) == a,
    decreases a.len(),
{
    if !a.contains(':') && a.len() > 0 {
        let front = a.drop_last();
        if front.contains(':') {
            let k = choose|k: int| 0 <= k < front.len() && front[k] == ':';
            assert(a[k] == ':');
        }
        assert(a[a.len() - 1] == a.last());
        lemma_no_colons(front);
        assert(front.push(a.last()) =~= a);
    } else if a.len() == 0 {
        assert(without_colons(a) =~= a);
    }
}

/// The GPU names are the lines that are not blank, each without the white space
/// around it, in the answer's order: `places` are those lines.
pub proof fn law_every_filled_line_is_a_name(all: Seq<Seq<char>>, n: int) -> (places: Seq<int>)
    requires
        0 <= n <= all.len(),
    ensures
        places.len() == filled_lines(all, n).len(),
        forall|k: int|
            0 <= k < places.len() ==> 0 <= #[trigger] places[k] < n && filled_lines(all, n)[k]
                == trimmed(all[places[k]]) && trimmed(all[places[k]]).len() > 0,
        forall|j: int, k: int| 0 <= j < k < places.len() ==> places[j] < places[k],
        forall|i: int| 0 <= i < n && trimmed(#[trigger] all[i]).len() > 0 ==> places.contains(i),
    decreases n,
{
    if n == 0 {
        seq![]
    } else {
        let before = law_every_filled_line_is_a_name(all, n - 1);
        if trimmed(all[n - 1]).len() == 0 {
            before
        } else {
            let now = before.push(n - 1);
            assert(now[before.len() as int] == n - 1);
            assert forall|i: int|
                0 <= i < n && trimmed(#[trigger] all[i]).len() > 0 implies now.contains(i) by {
                if i < n - 1 {
                    let k = choose|k: int| 0 <= k < before.len() && before[k] == i;
                    assert(now[k] == i);
                }
            }
            now
        }
    }
}

// ---------------------------------------------------------------------------
// The result of a tuning run
// ---------------------------------------------------------------------------
proof fn lemma_result_names()
    ensures
        "model"@.len() == 5 && "model"@[0] == 'm',
        "context"@.len() == 7,
        "mode"@.len() == 4,
        "score"@.len() == 5 && "score"@[0] == 's',
        "signature"@.len() == 9,
        "trials"@.len() == 6,
        "verified"@.len() == 8,
        "search_strategy"@.len() == 15,
        "beam_width"@.len() == 10 && "beam_width"@[0] == 'b',
        "diagnostics"@.len() == 11,
        "confidence"@.len() == 10 && "confidence"@[0] == 'c',
        "missing_telemetry"@.len() == 17,
        "saved"@.len() == 5 && "saved"@[0] == 's' && "saved"@[1] == 'a' && "score"@[1] == 'c',
{
    reveal_strlit("model");
    reveal_strlit("context");
    reveal_strlit("mode");
    reveal_strlit("score");
    reveal_strlit("signature");
    reveal_strlit("trials");
    reveal_strlit("verified");
    reveal_strlit("search_strategy");
    reveal_strlit("beam_width");
    reveal_strlit("diagnostics");
    reveal_strlit("confidence");
    reveal_strlit("missing_telemetry");
    reveal_strlit("saved");
}

/// The document of a tuning run has each of its findings under its own name, and
/// says where the winner was saved only if it was.
pub proof fn law_a_result_says_what_was_found(r: FindBestResult)
    ensures
        ({
            let doc = findbest_document(r);
            &&& member(doc, "model"@) == Some(JsonV::Text(r.model@))
            &&& member(doc, "context"@) == Some(JsonV::Text(r.context@))
            &&& member(doc, "mode"@) == Some(JsonV::Text(r.mode@))
            &&& member(doc, "score"@) == Some(r.score@)
            &&& member(doc, "signature"@) == Some(JsonV::Text(r.signature@))
            &&& member(doc, "trials"@) == Some(JsonV::Unsigned(r.trials))
            &&& member(doc, "verified"@) == Some(JsonV::Bool(r.verified))
            &&& member(doc, "search_strategy"@) == Some(JsonV::Text("beam"@))
            &&& member(doc, "beam_width"@) == Some(JsonV::Unsigned(r.beam_width))
            &&& member(doc, "diagnostics"@) == Some(JsonV::Text(r.diagnostics@))
            &&& member(doc, "confidence"@) == Some(r.confidence@)
            &&& member(doc, "missing_telemetry"@) == Some(r.missing_telemetry@)
            &&& member(doc, "saved"@) == (match r.saved {
                Some(path) => Some(JsonV::Text(path@)),
                None => None,
            })
        }),
{
    lemma_result_names();
    let all = findbest_document(r)->Object_0;
    law_the_first_member_of_a_name_is_found(all, "model"@, 0);
    law_the_first_member_of_a_name_is_found(all, "context"@, 1);
    law_the_first_member_of_a_name_is_found(all, "mode"@, 2);
    law_the_first_member_of_a_name_is_found(all, "score"@, 3);
    law_the_first_member_of_a_name_is_found(all, "signature"@, 4);
    law_the_first_member_of_a_name_is_found(all, "trials"@, 5);
    law_the_first_member_of_a_name_is_found(all, "verified"@, 6);
    law_the_first_member_of_a_name_is_found(all, "search_strategy"@, 7);
    law_the_first_member_of_a_name_is_found(all, "beam_width"@, 8);
    law_the_first_member_of_a_name_is_found(all, "diagnostics"@, 9);
    law_the_first_member_of_a_name_is_found(all, "confidence"@, 10);
    law_the_first_member_of_a_name_is_found(all, "missing_telemetry"@, 11);
    law_the_first_member_of_a_name_is_found(all, "saved"@, 12);
}

} // verus!

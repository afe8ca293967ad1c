//! What one trial's evidence may say and how its response is read: bounded and
//! redacted diagnostics, portable file names, the chat request and its
//! response, and the typed failures of a trial.
use vstd::prelude::*;
use vstd::string::StringExecFns;

use crate::json::{no_members, object, push_member, text_node, Json, Member};
#[allow(unused_imports)]
use crate::json::{member, members_view, JsonV};
use crate::text::{
    alphanumeric, chars_of, find, join, lower_chars, range_string, split_lines, split_words,
    str_contains, string_of,
};
#[allow(unused_imports)]
use crate::text::{contains, is_alphanumeric, joined, lines, lowered, occurs_at, views, words};

verus! {

/// Versioned public inference surface used by the live tuner.
pub const MEASUREMENT_PROTOCOL: &'static str = "openai-chat-completions-v1";

/// Host resource sampler whose outputs participate in balanced scoring.
pub const TELEMETRY_PROTOCOL: &'static str = "host-cpu-ram-nvidia-vram-v1";

/// Required response fields consumed by the tuner.
pub const RESPONSE_SCHEMA: &'static str =
    "choices[0].message.content+timings.prompt_per_second+timings.predicted_per_second";

/// The longest diagnostic excerpt, in characters.
pub const MAX_DIAGNOSTIC_CHARS: usize = 2048;

/// The length of the chat prompt, in tokens.
pub const CHAT_PROMPT_TARGET_TOKENS: u64 = 512;

// ---------------------------------------------------------------------------
// Excerpts
// ---------------------------------------------------------------------------
/// The first `n` characters of a text.
pub open spec fn capped(s: Seq<char>, n: int) -> Seq<char> {
    if s.len() <= n {
        s
    } else {
        s.take(n)
    }
}

/// The first `n` characters of a text.
pub fn cap_text(s: &str, n: usize) -> (out: String)
    ensures
        out@ == capped(s@, n as int),
{
    let chars: Vec<char> = chars_of(s);
    if chars.len() <= n {
        s.to_string()
    } else {
        let out: String = range_string(&chars, 0, n);
        assert(out@ =~= s@.take(n as int));
        out
    }
}

/// The words that mark a text as carrying a credential.
pub open spec fn credential_words() -> Seq<Seq<char>> {
    seq![
        "authorization"@,
        "api_key"@,
        "api-key"@,
        "password"@,
        "secret"@,
        "bearer "@,
    ]
}

/// Whether a text, in lower case, has one of these words.
pub open spec fn mentions(s: Seq<char>, needles: Seq<Seq<char>>) -> bool {
    exists|i: int| 0 <= i < needles.len() && contains(s, #[trigger] needles[i])
}

fn mentions_any(s: &Vec<char>, needles: &Vec<String>) -> (out: bool)
    ensures
        out == mentions(s@, views(needles@)),
{
    let mut i: usize = 0;
    while i < needles.len()
        invariant
            i <= needles.len(),
            forall|k: int| 0 <= k < i ==> !contains(s@, #[trigger] views(needles@)[k]),
        decreases needles.len() - i,
    {
        let needle: Vec<char> = chars_of(needles[i].as_str());
        assert(views(needles@)[i as int] == needle@);
        if find(s, &needle) {
            return true;
        }
        i = i + 1;
    }
    false
}

fn credential_needles() -> (out: Vec<String>)
    ensures
        views(out@) == credential_words(),
{
    let mut out: Vec<String> = Vec::new();
    out.push("authorization".to_string());
    out.push("api_key".to_string());
    out.push("api-key".to_string());
    out.push("password".to_string());
    out.push("secret".to_string());
    out.push("bearer ".to_string());
    assert(views(out@) =~= credential_words());
    out
}

/// What stands for a text that may carry a credential.
pub open spec fn redacted() -> Seq<char> {
    "[REDACTED]"@
}

/// The excerpt of a text: white space collapsed, the whole redacted if it may
/// carry a credential, and bounded.
pub open spec fn excerpt(s: Seq<char>) -> Seq<char> {
    let collapsed = joined(words(s), " "@);
    if mentions(lowered(collapsed), credential_words()) {
        redacted()
    } else {
        capped(collapsed, MAX_DIAGNOSTIC_CHARS as int)
    }
}

/// Collapse whitespace, redact likely secrets, and cap diagnostic evidence.
pub fn sanitize_excerpt(text: &str) -> (out: String)
    ensures
        out@ == excerpt(text@),
{
    let collapsed: String = join(&split_words(&chars_of(text)), " ");
    let lower: Vec<char> = lower_chars(&chars_of(collapsed.as_str()));
    if mentions_any(&lower, &credential_needles()) {
        return "[REDACTED]".to_string();
    }
    cap_text(collapsed.as_str(), MAX_DIAGNOSTIC_CHARS)
}

proof fn lemma_prefix_mentions(s: Seq<char>, n: int, needle: Seq<char>)
    requires
        0 <= n <= s.len(),
        contains(lowered(s.take(n)), needle),
    ensures
        contains(lowered(s), needle),
{
    let i = choose|i: int| #[trigger] occurs_at(lowered(s.take(n)), needle, i);
    assert(lowered(s.take(n)) =~= lowered(s).take(n));
    assert(lowered(s).take(n).subrange(i, i + needle.len()) =~= lowered(s).subrange(
        i,
        i + needle.len(),
    ));
    assert(occurs_at(lowered(s), needle, i));
}

/// Every character of the redaction mark, in lower case.
proof fn lemma_mark()
    ensures
        lowered(redacted()) == seq!['[', 'r', 'e', 'd', 'a', 'c', 't', 'e', 'd', ']'],
{
    reveal_strlit("[REDACTED]");
    assert(lowered(redacted()) =~= seq!['[', 'r', 'e', 'd', 'a', 'c', 't', 'e', 'd', ']']);
}

proof fn lemma_mark_is_clean()
    ensures
        !mentions(lowered(redacted()), credential_words()),
        redacted().len() == 10,
{
    reveal_strlit("[REDACTED]");
    reveal_strlit("authorization");
    reveal_strlit("api_key");
    reveal_strlit("api-key");
    reveal_strlit("password");
    reveal_strlit("secret");
    reveal_strlit("bearer ");
    lemma_mark();
    let s = lowered(redacted());
    assert forall|k: int| 0 <= k < credential_words().len() implies !contains(
        s,
        #[trigger] credential_words()[k],
    ) by {
        let needle = credential_words()[k];
        assert forall|i: int| !#[trigger] occurs_at(s, needle, i) by {
            if occurs_at(s, needle, i) {
                // The second letter of every word but one is no letter of the
                // mark, and that one is too long for it.
                assert(s.subrange(i, i + needle.len())[1] == s[i + 1]);
                assert(s.subrange(i, i + needle.len())[2] == s[i + 2]);
                assert(s.subrange(i, i + needle.len())[0] == s[i]);
                assert(false);
            }
        }
    }
}

/// No excerpt is longer than the cap, and none mentions a credential word.
pub proof fn law_excerpts_are_bounded_and_redacted(s: Seq<char>)
    ensures
        excerpt(s).len() <= MAX_DIAGNOSTIC_CHARS,
        !mentions(lowered(excerpt(s)), credential_words()),
{
    let collapsed = joined(words(s), " "@);
    lemma_mark_is_clean();
    if !mentions(lowered(collapsed), credential_words()) {
        let e = excerpt(s);
        if mentions(lowered(e), credential_words()) {
            let k = choose|k: int|
                0 <= k < credential_words().len() && contains(
                    lowered(e),
                    #[trigger] credential_words()[k],
                );
            if collapsed.len() > MAX_DIAGNOSTIC_CHARS {
                lemma_prefix_mentions(
                    collapsed,
                    MAX_DIAGNOSTIC_CHARS as int,
                    credential_words()[k],
                );
            }
            assert(contains(lowered(collapsed), credential_words()[k]));
        }
    }
}

// ---------------------------------------------------------------------------
// Launch arguments
// ---------------------------------------------------------------------------
/// The words that mark a flag as one whose value is a credential.
pub open spec fn credential_flags() -> Seq<Seq<char>> {
    seq!["api-key"@, "token"@, "password"@, "secret"@, "authorization"@]
}

fn credential_flag_needles() -> (out: Vec<String>)
    ensures
        views(out@) == credential_flags(),
{
    let mut out: Vec<String> = Vec::new();
    out.push("api-key".to_string());
    out.push("token".to_string());
    out.push("password".to_string());
    out.push("secret".to_string());
    out.push("authorization".to_string());
    assert(views(out@) =~= credential_flags());
    out
}

/// Whether an argument is a flag whose value is a credential.
pub open spec fn is_credential_flag(arg: Seq<char>) -> bool {
    lowered(arg).len() > 0 && lowered(arg)[0] == '-' && mentions(lowered(arg), credential_flags())
}

/// Whether a flag carries its value itself.
pub open spec fn has_value(arg: Seq<char>) -> bool {
    arg.contains('=')
}

/// What is kept of one argument; `redact` says that it is a credential.
pub open spec fn kept_arg(arg: Seq<char>, redact: bool) -> Seq<char> {
    if redact {
        redacted()
    } else if is_credential_flag(arg) {
        if has_value(arg) {
            redacted()
        } else {
            capped(arg, 128)
        }
    } else {
        capped(excerpt(arg), 512)
    }
}

/// Whether the next argument is a credential.
pub open spec fn redacts_next(arg: Seq<char>, redact: bool) -> bool {
    !redact && is_credential_flag(arg) && !has_value(arg)
}

/// What is kept of a list of arguments.
pub open spec fn kept_args(args: Seq<Seq<char>>, redact: bool) -> Seq<Seq<char>>
    decreases args.len(),
{
    if args.len() == 0 {
        seq![]
    } else {
        seq![kept_arg(args[0], redact)] + kept_args(args.skip(1), redacts_next(args[0], redact))
    }
}

/// The launch arguments as they may be recorded: at most 256 of them.
pub open spec fn recorded_args(args: Seq<Seq<char>>) -> Seq<Seq<char>> {
    kept_args(
        if args.len() <= 256 {
            args
        } else {
            args.take(256)
        },
        false,
    )
}

fn keep_arg(arg: &str, redact: bool) -> (out: (String, bool))
    ensures
        out.0@ == kept_arg(arg@, redact),
        out.1 == redacts_next(arg@, redact),
{
    if redact {
        return ("[REDACTED]".to_string(), false);
    }
    let chars: Vec<char> = chars_of(arg);
    let lower: Vec<char> = lower_chars(&chars);
    if lower.len() > 0 && lower[0] == '-' && mentions_any(&lower, &credential_flag_needles()) {
        let mut i: usize = 0;
        while i < chars.len()
            invariant
                i <= chars.len(),
                chars@ == arg@,
                !redact,
                is_credential_flag(arg@),
                forall|k: int| 0 <= k < i ==> chars@[k] != '=',
            decreases chars.len() - i,
        {
            if chars[i] == '=' {
                return ("[REDACTED]".to_string(), false);
            }
            i = i + 1;
        }
        return (cap_text(arg, 128), true);
    }
    (cap_text(sanitize_excerpt(arg).as_str(), 512), false)
}

/// Bound launch arguments and redact values following credential-like flags
/// before they enter manifests, caches, or saved-profile provenance.
pub fn sanitize_launch_args(args: &Vec<String>) -> (out: Vec<String>)
    ensures
        views(out@) == recorded_args(views(args@)),
{
    let ghost all = if args@.len() <= 256 {
        views(args@)
    } else {
        views(args@).take(256)
    };
    let mut out: Vec<String> = Vec::new();
    let mut redact: bool = false;
    let mut i: usize = 0;
    assert(all.skip(0) =~= all);
    assert(views(out@) + kept_args(all, false) =~= kept_args(all, false));
    while i < args.len() && i < 256
        invariant
            i <= args.len(),
            i <= 256,
            all == if args@.len() <= 256 {
                views(args@)
            } else {
                views(args@).take(256)
            },
            kept_args(all, false) == views(out@) + kept_args(all.skip(i as int), redact),
        decreases args.len() - i,
    {
        proof {
            assert(all.skip(i as int)[0] == args@[i as int]@);
            assert(all.skip(i as int).skip(1) =~= all.skip(i + 1));
        }
        let ghost before = views(out@);
        let (kept, next) = keep_arg(args[i].as_str(), redact);
        out.push(kept);
        proof {
            assert(views(out@) =~= before.push(kept@));
            assert(before + (seq![kept@] + kept_args(all.skip(i + 1), next)) =~= views(out@)
                + kept_args(all.skip(i + 1), next));
        }
        redact = next;
        i = i + 1;
    }
    assert(all.skip(i as int).len() == 0);
    assert(views(out@) + Seq::<Seq<char>>::empty() =~= views(out@));
    out
}

proof fn lemma_kept_args(args: Seq<Seq<char>>, redact: bool, i: int)
    requires
        0 <= i < args.len(),
    ensures
        kept_args(args, redact).len() == args.len(),
        kept_args(args, redact)[i] == kept_arg(args[i], true) || kept_args(args, redact)[i]
            == kept_arg(args[i], false),
        i > 0 && redacts_next(args[i - 1], false) ==> kept_args(args, redact)[i] == redacted()
            || kept_args(args, redact)[i - 1] == redacted(),
    decreases i,
{
    lemma_kept_args_length(args, redact);
    if i > 0 {
        let next = redacts_next(args[0], redact);
        lemma_kept_args_length(args.skip(1), next);
        assert(args.skip(1)[i - 1] == args[i]);
        lemma_kept_args(args.skip(1), next, i - 1);
        if i > 1 {
            assert(args.skip(1)[i - 2] == args[i - 1]);
        }
    }
}

proof fn lemma_kept_args_length(args: Seq<Seq<char>>, redact: bool)
    ensures
        kept_args(args, redact).len() == args.len(),
    decreases args.len(),
{
    if args.len() > 0 {
        lemma_kept_args_length(args.skip(1), redacts_next(args[0], redact));
    }
}

/// Recorded arguments are bounded in number and in length, and of a flag that
/// takes a credential and the argument behind it at least one is redacted: the
/// value, unless the flag itself stood where a value was expected.
pub proof fn law_recorded_args_hide_credentials(args: Seq<Seq<char>>, i: int)
    requires
        0 <= i < args.len(),
        i < 256,
    ensures
        recorded_args(args).len() <= 256,
        recorded_args(args).len() == if args.len() <= 256 {
            args.len()
        } else {
            256
        },
        recorded_args(args)[i].len() <= 512,
        is_credential_flag(args[i]) && has_value(args[i]) ==> recorded_args(args)[i] == redacted(),
        i > 0 && redacts_next(args[i - 1], false) ==> recorded_args(args)[i] == redacted()
            || recorded_args(args)[i - 1] == redacted(),
{
    let list = if args.len() <= 256 {
        args
    } else {
        args.take(256)
    };
    lemma_kept_args(list, false, i);
    lemma_mark_is_clean();
}

// ---------------------------------------------------------------------------
// Advisories
// ---------------------------------------------------------------------------
/// Whether a log line tells of an engine adjustment.
pub open spec fn is_advisory(line: Seq<char>) -> bool {
    let lower = lowered(line);
    ||| (contains(lower, "upgrade"@) || contains(lower, "adjust"@)) && (contains(lower, "kv"@)
        || contains(lower, "cache"@) || contains(lower, "turbo"@))
    ||| contains(lower, "using n_parallel"@)
}

/// The excerpts of the first `n` lines that tell of an adjustment.
pub open spec fn advisories(log: Seq<Seq<char>>, n: int) -> Seq<Seq<char>>
    decreases n,
{
    if n <= 0 {
        seq![]
    } else {
        let front = advisories(log, n - 1);
        if is_advisory(log[n - 1]) && excerpt(log[n - 1]).len() > 0 {
            front.push(excerpt(log[n - 1]))
        } else {
            front
        }
    }
}

/// At most the first eight.
pub open spec fn first_eight(all: Seq<Seq<char>>) -> Seq<Seq<char>> {
    if all.len() <= 8 {
        all
    } else {
        all.take(8)
    }
}

fn tells_of_adjustment(line: &str) -> (out: bool)
    ensures
        out == is_advisory(line@),
{
    let lower: String = string_of(&lower_chars(&chars_of(line)));
    let l: &str = lower.as_str();
    ((str_contains(l, "upgrade") || str_contains(l, "adjust")) && (str_contains(l, "kv")
        || str_contains(l, "cache") || str_contains(l, "turbo"))) || str_contains(
        l,
        "using n_parallel",
    )
}

proof fn lemma_advisories_grow(log: Seq<Seq<char>>, n: int, m: int)
    requires
        0 <= n <= m,
    ensures
        advisories(log, n).len() <= advisories(log, m).len(),
        advisories(log, n) == advisories(log, m).take(advisories(log, n).len() as int),
    decreases m,
{
    if n < m {
        lemma_advisories_grow(log, n, m - 1);
        assert(advisories(log, m).take(advisories(log, n).len() as int) =~= advisories(log, m
            - 1).take(advisories(log, n).len() as int));
    } else {
        assert(advisories(log, m).take(advisories(log, n).len() as int) =~= advisories(log, n));
    }
}

/// Extract bounded, explicitly advisory engine-adjustment observations. Logs
/// are not authoritative configuration, so these strings never populate the
/// observed map or influence ranking.
pub fn infer_runtime_advisories(text: &str) -> (out: Vec<String>)
    ensures
        views(out@) == first_eight(advisories(lines(text@), lines(text@).len() as int)),
{
    let log: Vec<String> = split_lines(text);
    let ghost all = lines(text@);
    let mut out: Vec<String> = Vec::new();
    let mut i: usize = 0;
    assert(views(out@) =~= seq![]);
    while i < log.len() && out.len() < 8
        invariant
            i <= log.len(),
            all == views(log@),
            out@.len() <= 8,
            views(out@) == advisories(all, i as int),
        decreases log.len() - i,
    {
        if tells_of_adjustment(log[i].as_str()) {
            let one: String = sanitize_excerpt(log[i].as_str());
            if !one.as_str().is_empty() {
                let ghost before = views(out@);
                out.push(one);
                assert(views(out@) =~= before.push(one@));
            }
        }
        i = i + 1;
    }
    proof {
        lemma_advisories_grow(all, i as int, all.len() as int);
        if i < all.len() {
            assert(advisories(all, all.len() as int).take(8) =~= views(out@) || advisories(
                all,
                all.len() as int,
            ).len() <= 8);
            if advisories(all, all.len() as int).len() <= 8 {
                assert(advisories(all, all.len() as int).take(8) =~= advisories(
                    all,
                    all.len() as int,
                ));
            }
        }
    }
    out
}

proof fn lemma_advisory_bounds(log: Seq<Seq<char>>, n: int, i: int)
    requires
        0 <= i < advisories(log, n).len(),
    ensures
        0 < advisories(log, n)[i].len() <= MAX_DIAGNOSTIC_CHARS,
    decreases n,
{
    if n > 0 {
        if i < advisories(log, n - 1).len() {
            lemma_advisory_bounds(log, n - 1, i);
        } else {
            law_excerpts_are_bounded_and_redacted(log[n - 1]);
        }
    }
}

/// There are at most eight advisories, none empty and none beyond the cap.
pub proof fn law_advisories_are_bounded(text: Seq<char>, i: int)
    requires
        0 <= i < first_eight(advisories(lines(text), lines(text).len() as int)).len(),
    ensures
        first_eight(advisories(lines(text), lines(text).len() as int)).len() <= 8,
        0 < first_eight(advisories(lines(text), lines(text).len() as int))[i].len()
            <= MAX_DIAGNOSTIC_CHARS,
{
    lemma_advisory_bounds(lines(text), lines(text).len() as int, i);
}

// ---------------------------------------------------------------------------
// Portable names
// ---------------------------------------------------------------------------
/// A character as it may stand in a file name on every host.
pub open spec fn portable(c: char) -> char {
    if is_alphanumeric(c) || c == '-' || c == '_' {
        c
    } else {
        '-'
    }
}

/// Runs of dashes made one dash each.
pub open spec fn squeezed(s: Seq<char>) -> Seq<char>
    decreases s.len(),
{
    if s.len() == 0 {
        seq![]
    } else {
        let front = squeezed(s.drop_last());
        if s.last() == '-' && front.len() > 0 && front.last() == '-' {
            front
        } else {
            front.push(s.last())
        }
    }
}

/// A text without a dash at either end.
pub open spec fn undashed(s: Seq<char>) -> Seq<char> {
    let t = if s.len() > 0 && s[0] == '-' {
        s.skip(1)
    } else {
        s
    };
    if t.len() > 0 && t.last() == '-' {
        t.drop_last()
    } else {
        t
    }
}

/// The portable component that stands for a name, at most `limit` characters
/// of it, `fallback` where nothing is left.
pub open spec fn component(value: Seq<char>, limit: int, fallback: Seq<char>) -> Seq<char> {
    let safe = undashed(squeezed(capped(value, limit).map_values(|c: char| portable(c))));
    if safe.len() == 0 {
        fallback
    } else {
        safe
    }
}

/// A portable file-name component for a name.
pub fn portable_component(value: &str, limit: usize, fallback: &str) -> (out: String)
    ensures
        out@ == component(value@, limit as int, fallback@),
{
    let chars: Vec<char> = chars_of(value);
    let end: usize = if chars.len() <= limit {
        chars.len()
    } else {
        limit
    };
    let ghost mapped = capped(value@, limit as int).map_values(|c: char| portable(c));
    let mut safe: Vec<char> = Vec::new();
    let mut i: usize = 0;
    while i < end
        invariant
            i <= end <= chars@.len(),
            chars@ == value@,
            mapped == capped(value@, limit as int).map_values(|c: char| portable(c)),
            mapped.len() == end,
            safe@ == squeezed(mapped.take(i as int)),
        decreases end - i,
    {
        let c: char = chars[i];
        let p: char = if alphanumeric(c) || c == '-' || c == '_' {
            c
        } else {
            '-'
        };
        proof {
            assert(mapped[i as int] == p);
            assert(mapped.take(i + 1).drop_last() =~= mapped.take(i as int));
            assert(mapped.take(i + 1).last() == p);
        }
        let repeated: bool = p == '-' && safe.len() > 0 && safe[safe.len() - 1] == '-';
        if !repeated {
            safe.push(p);
        }
        i = i + 1;
    }
    assert(mapped.take(i as int) =~= mapped);
    let mut from: usize = 0;
    let mut to: usize = safe.len();
    if from < to && safe[0] == '-' {
        from = 1;
    }
    if from < to && safe[to - 1] == '-' {
        to = to - 1;
    }
    assert(safe@.subrange(from as int, to as int) =~= undashed(safe@));
    if from >= to {
        return fallback.to_string();
    }
    range_string(&safe, from, to)
}

proof fn lemma_squeezed(s: Seq<char>)
    ensures
        squeezed(s).len() <= s.len(),
        forall|i: int| 0 <= i < squeezed(s).len() ==> s.contains(#[trigger] squeezed(s)[i]),
        forall|i: int|
            0 < i < squeezed(s).len() ==> !(#[trigger] squeezed(s)[i] == '-' && squeezed(s)[i - 1]
                == '-'),
    decreases s.len(),
{
    if s.len() > 0 {
        let t = s.drop_last();
        lemma_squeezed(t);
        assert forall|i: int| 0 <= i < squeezed(s).len() implies s.contains(
            #[trigger] squeezed(s)[i],
        ) by {
            if i < squeezed(t).len() {
                assert(t.contains(squeezed(t)[i]));
                let k = choose|k: int| 0 <= k < t.len() && t[k] == squeezed(t)[i];
                assert(s[k] == squeezed(s)[i]);
            } else {
                assert(s[s.len() - 1] == squeezed(s)[i]);
            }
        }
    }
}

/// A component is a portable name whatever it stands for: not empty, within
/// its limit, made of letters, digits, dashes and underscores, without two
/// dashes in a row and without a dash at either end.
pub proof fn law_components_are_portable(value: Seq<char>, limit: int, fallback: Seq<char>, i: int)
    requires
        0 < fallback.len() <= limit,
        forall|k: int|
            0 <= k < fallback.len() ==> is_alphanumeric(#[trigger] fallback[k]) || fallback[k]
                == '_',
        0 <= i < component(value, limit, fallback).len(),
    ensures
        0 < component(value, limit, fallback).len() <= limit,
        ({
            let c = component(value, limit, fallback);
            &&& is_alphanumeric(c[i]) || c[i] == '-' || c[i] == '_'
            &&& c[0] != '-' && c.last() != '-'
            &&& i > 0 ==> !(c[i] == '-' && c[i - 1] == '-')
        }),
{
    let mapped = capped(value, limit).map_values(|c: char| portable(c));
    let q = squeezed(mapped);
    let safe = undashed(q);
    lemma_squeezed(mapped);
    if safe.len() > 0 {
        let shift = if q[0] == '-' {
            1int
        } else {
            0int
        };
        assert forall|k: int| 0 <= k < safe.len() implies #[trigger] safe[k] == q[k + shift] by {}
        assert(safe[i] == q[i + shift]);
        assert(mapped.contains(q[i + shift]));
        let k = choose|k: int| 0 <= k < mapped.len() && mapped[k] == q[i + shift];
        assert(mapped[k] == portable(capped(value, limit)[k]));
        assert(safe[0] == q[shift]);
        assert(safe.last() == q[safe.len() - 1 + shift]);
        if i > 0 {
            assert(safe[i - 1] == q[i + shift - 1]);
        }
    } else {
        assert(is_alphanumeric(fallback[i]) || fallback[i] == '_');
        assert(is_alphanumeric(fallback[0]) || fallback[0] == '_');
        assert(is_alphanumeric(fallback[fallback.len() - 1]) || fallback[fallback.len() - 1] == '_');
    }
}

/// The component that stands for a run or a phase in a trial's file names.
pub fn safe_path_component(value: &str) -> (out: String)
    ensures
        out@ == component(value@, 48, "unknown"@),
{
    portable_component(value, 48, "unknown")
}

// ---------------------------------------------------------------------------
// Typed failures
// ---------------------------------------------------------------------------
/// The stage at which a trial failed.
#[derive(Clone, Copy, Debug, PartialEq, Eq, Structural)]
pub enum TrialFailureStage {
    Launch,
    Readiness,
    Request,
    Response,
    Content,
}

/// Why a trial failed.
#[derive(Clone, Copy, Debug, PartialEq, Eq, Structural)]
pub enum TrialFailureReason {
    InvalidOverrides,
    PortUnavailable,
    ArgumentConstruction,
    BinaryUnavailable,
    SpawnFailed,
    ReadinessExited,
    ReadinessExitedOom,
    ReadinessTimeout,
    Transport,
    HttpStatus,
    ResponseDecode,
    ResponseSchema,
    MissingTimings,
    InvalidTimings,
    EmptyContent,
    ThinkingOnly,
    DegenerateContent,
}

/// A typed failure with its bounded detail.
#[derive(Clone, Debug, PartialEq, Eq)]
pub struct TrialFailure {
    pub stage: TrialFailureStage,
    pub reason: TrialFailureReason,
    pub detail: String,
}

/// A typed failure, mathematically.
pub struct FailureV {
    pub stage: TrialFailureStage,
    pub reason: TrialFailureReason,
    pub detail: Seq<char>,
}

impl View for TrialFailure {
    type V = FailureV;

    open spec fn view(&self) -> FailureV {
        FailureV { stage: self.stage, reason: self.reason, detail: self.detail@ }
    }
}

/// The failure for a stage, a reason and a detail.
pub open spec fn failed(
    stage: TrialFailureStage,
    reason: TrialFailureReason,
    detail: Seq<char>,
) -> FailureV {
    FailureV { stage, reason, detail: excerpt(detail) }
}

/// A typed failure; its detail is an excerpt.
pub fn failure(stage: TrialFailureStage, reason: TrialFailureReason, detail: &str) -> (out:
    TrialFailure)
    ensures
        out@ == failed(stage, reason, detail@),
{
    TrialFailure { stage, reason, detail: sanitize_excerpt(detail) }
}

// ---------------------------------------------------------------------------
// The chat request
// ---------------------------------------------------------------------------
/// The chat request for a prompt.
pub open spec fn chat_request(prompt: Seq<char>) -> JsonV {
    JsonV::Object(
        seq![
            ("messages"@, JsonV::List(seq![user_message(prompt)])),
            ("max_tokens"@, JsonV::Unsigned(256)),
            ("temperature"@, JsonV::Unsigned(0)),
            ("top_p"@, JsonV::Unsigned(1)),
            ("seed"@, JsonV::Unsigned(0)),
            ("stream"@, JsonV::Bool(false)),
            ("cache_prompt"@, JsonV::Bool(false)),
        ],
    )
}

/// One message of the user.
pub open spec fn user_message(content: Seq<char>) -> JsonV {
    JsonV::Object(seq![("role"@, JsonV::Text("user"@)), ("content"@, JsonV::Text(content))])
}

fn messages_node(content: &str) -> (out: Json)
    ensures
        out@ == JsonV::List(seq![user_message(content@)]),
{
    let mut message: Vec<Member> = no_members();
    push_member(&mut message, "role", text_node("user"));
    push_member(&mut message, "content", text_node(content));
    assert(members_view(message@) =~= seq![
        ("role"@, JsonV::Text("user"@)),
        ("content"@, JsonV::Text(content@)),
    ]);
    let mut items: Vec<Json> = Vec::new();
    items.push(object(message));
    let out: Json = Json::List(items);
    assert(out@->List_0 =~= seq![user_message(content@)]);
    out
}

fn push_sampling(members: &mut Vec<Member>)
    ensures
        members_view(final(members)@) == members_view(old(members)@) + seq![
            ("max_tokens"@, JsonV::Unsigned(256)),
            ("temperature"@, JsonV::Unsigned(0)),
            ("top_p"@, JsonV::Unsigned(1)),
            ("seed"@, JsonV::Unsigned(0)),
            ("stream"@, JsonV::Bool(false)),
            ("cache_prompt"@, JsonV::Bool(false)),
        ],
{
    push_member(members, "max_tokens", Json::Unsigned(256));
    push_member(members, "temperature", Json::Unsigned(0));
    push_member(members, "top_p", Json::Unsigned(1));
    push_member(members, "seed", Json::Unsigned(0));
    push_member(members, "stream", Json::Bool(false));
    push_member(members, "cache_prompt", Json::Bool(false));
    assert(members_view(members@) =~= members_view(old(members)@) + seq![
        ("max_tokens"@, JsonV::Unsigned(256)),
        ("temperature"@, JsonV::Unsigned(0)),
        ("top_p"@, JsonV::Unsigned(1)),
        ("seed"@, JsonV::Unsigned(0)),
        ("stream"@, JsonV::Bool(false)),
        ("cache_prompt"@, JsonV::Bool(false)),
    ]);
}

/// Build the deterministic request body whose shape participates in the cache
/// fingerprint. The full prompt is never written to diagnostics.
pub fn chat_measurement_request(prompt: &str) -> (out: Json)
    ensures
        out@ == chat_request(prompt@),
{
    let mut members: Vec<Member> = no_members();
    push_member(&mut members, "messages", messages_node(prompt));
    push_sampling(&mut members);
    assert(members_view(members@) =~= chat_request(prompt@)->Object_0);
    object(members)
}

/// The document whose hash identifies the exact embedded prompt that the live
/// trial path sends.
pub fn chat_prompt_document(prompt: &str) -> (out: Json)
    ensures
        out@ == JsonV::Object(
            seq![
                ("target_tokens"@, JsonV::Unsigned(CHAT_PROMPT_TARGET_TOKENS)),
                ("content"@, JsonV::Text(prompt@)),
            ],
        ),
{
    let mut members: Vec<Member> = no_members();
    push_member(&mut members, "target_tokens", Json::Unsigned(CHAT_PROMPT_TARGET_TOKENS));
    push_member(&mut members, "content", text_node(prompt));
    assert(members_view(members@) =~= seq![
        ("target_tokens"@, JsonV::Unsigned(CHAT_PROMPT_TARGET_TOKENS)),
        ("content"@, JsonV::Text(prompt@)),
    ]);
    object(members)
}

/// The document whose hash identifies the request's shape: the request with a
/// stand-in for the prompt, and where it is sent.
pub fn chat_request_shape() -> (out: Json)
    ensures
        out@ == JsonV::Object(
            seq![
                ("path"@, JsonV::Text("/v1/chat/completions"@)),
            ] + chat_request("stress-prompt-512"@)->Object_0,
        ),
{
    let mut members: Vec<Member> = no_members();
    push_member(&mut members, "path", text_node("/v1/chat/completions"));
    push_member(&mut members, "messages", messages_node("stress-prompt-512"));
    push_sampling(&mut members);
    assert(members_view(members@) =~= seq![
        ("path"@, JsonV::Text("/v1/chat/completions"@)),
    ] + chat_request("stress-prompt-512"@)->Object_0);
    object(members)
}

/// The launch parameters that shape a session.
#[derive(Clone, Copy, Debug, PartialEq, Eq)]
pub struct SessionParams {
    pub parallel: Option<i64>,
    pub cache_reuse: Option<i64>,
    pub n_cpu_moe: Option<i64>,
    pub mlock: Option<bool>,
    pub no_mmap: Option<bool>,
}

/// An integer's node.
pub open spec fn integer_node(n: i64) -> JsonV {
    if n >= 0 {
        JsonV::Unsigned(n as u64)
    } else {
        JsonV::Negative(n)
    }
}

/// A member for a value that is set, none for one that is not.
pub open spec fn maybe_integer(name: Seq<char>, value: Option<i64>) -> Seq<(Seq<char>, JsonV)> {
    match value {
        Some(n) => seq![(name, integer_node(n))],
        None => seq![],
    }
}

/// A member for a flag that is set, none for one that is not.
pub open spec fn maybe_flag(name: Seq<char>, value: Option<bool>) -> Seq<(Seq<char>, JsonV)> {
    match value {
        Some(b) => seq![(name, JsonV::Bool(b))],
        None => seq![],
    }
}

/// Add a member for a value that is set.
pub fn push_integer(members: &mut Vec<Member>, name: &str, value: Option<i64>)
    ensures
        members_view(final(members)@) == members_view(old(members)@) + maybe_integer(name@, value),
{
    match value {
        Some(n) => {
            let node: Json = if n >= 0 {
                Json::Unsigned(n as u64)
            } else {
                Json::Negative(n)
            };
            push_member(members, name, node);
        },
        None => {},
    }
    assert(members_view(members@) =~= members_view(old(members)@) + maybe_integer(name@, value));
}

fn push_flag(members: &mut Vec<Member>, name: &str, value: Option<bool>)
    ensures
        members_view(final(members)@) == members_view(old(members)@) + maybe_flag(name@, value),
{
    match value {
        Some(b) => push_member(members, name, Json::Bool(b)),
        None => {},
    }
    assert(members_view(members@) =~= members_view(old(members)@) + maybe_flag(name@, value));
}

/// Session-shaping values represented in the run fingerprint, by name.
/// Candidate-owned values remain in the per-entry candidate signature and
/// override this base.
pub fn session_fingerprint(params: &SessionParams) -> (out: Vec<Member>)
    ensures
        members_view(out@) == maybe_integer("cache_reuse"@, params.cache_reuse) + maybe_flag(
            "mlock"@,
            params.mlock,
        ) + maybe_integer("n_cpu_moe"@, params.n_cpu_moe) + maybe_flag("no_mmap"@, params.no_mmap)
            + maybe_integer("parallel"@, params.parallel),
{
    let mut members: Vec<Member> = no_members();
    push_integer(&mut members, "cache_reuse", params.cache_reuse);
    assert(members_view(members@) =~= maybe_integer("cache_reuse"@, params.cache_reuse));
    push_flag(&mut members, "mlock", params.mlock);
    push_integer(&mut members, "n_cpu_moe", params.n_cpu_moe);
    push_flag(&mut members, "no_mmap", params.no_mmap);
    push_integer(&mut members, "parallel", params.parallel);
    members
}

// ---------------------------------------------------------------------------
// What a server says of itself
// ---------------------------------------------------------------------------
/// The last of a log's lines.
pub open spec fn tail_of(text: Seq<char>) -> Seq<char> {
    let all = lines(text);
    joined(
        if all.len() <= 80 {
            all
        } else {
            all.skip(all.len() - 80)
        },
        "\n"@,
    )
}

/// The last 80 lines of a log.
pub fn log_tail(text: &str) -> (out: String)
    ensures
        out@ == tail_of(text@),
{
    let all: Vec<String> = split_lines(text);
    let from: usize = if all.len() <= 80 {
        0
    } else {
        all.len() - 80
    };
    let mut kept: Vec<String> = Vec::new();
    let mut i: usize = from;
    assert(views(kept@) =~= views(all@).subrange(from as int, i as int));
    while i < all.len()
        invariant
            from <= i <= all.len(),
            views(kept@) == views(all@).subrange(from as int, i as int),
        decreases all.len() - i,
    {
        let ghost before = views(kept@);
        kept.push(all[i].clone());
        assert(views(kept@) =~= before.push(all@[i as int]@));
        assert(views(kept@) =~= views(all@).subrange(from as int, i + 1));
        i = i + 1;
    }
    assert(views(kept@) =~= views(all@).skip(from as int));
    assert(views(all@).skip(0) =~= views(all@));
    join(&kept, "\n")
}

/// A value as it may be recorded: a text is bounded, anything else stands.
pub open spec fn bounded(value: JsonV) -> JsonV {
    match value {
        JsonV::Text(t) => JsonV::Text(excerpt(t)),
        _ => value,
    }
}

/// A field of the server's properties, as it may be recorded.
pub open spec fn observed_field(props: JsonV, name: Seq<char>) -> Seq<(Seq<char>, JsonV)> {
    match member(props, name) {
        Some(value) => seq![(name, bounded(value))],
        None => seq![],
    }
}

/// The hash of the server's chat template, if it has one.
pub open spec fn observed_template(props: JsonV, hash: Seq<char>) -> Seq<(Seq<char>, JsonV)> {
    match member(props, "chat_template"@) {
        Some(_) => seq![("chat_template_hash"@, JsonV::Text(hash))],
        None => seq![],
    }
}

fn push_observed(members: &mut Vec<Member>, props: &Json, name: &str)
    ensures
        members_view(final(members)@) == members_view(old(members)@) + observed_field(
            props@,
            name@,
        ),
{
    match props.get(name) {
        Some(value) => {
            let kept: Json = match value.text() {
                Some(t) => Json::Text(sanitize_excerpt(t.as_str())),
                None => value.copy(),
            };
            push_member(members, name, kept);
        },
        None => {},
    }
    assert(members_view(members@) =~= members_view(old(members)@) + observed_field(props@, name@));
}

/// What is recorded of a server's properties, by name; `template_hash` is the
/// hash of its chat template.
pub fn observed_runtime(props: &Json, template_hash: &str) -> (out: Vec<Member>)
    ensures
        members_view(out@) == observed_field(props@, "build_info"@) + observed_template(
            props@,
            template_hash@,
        ) + observed_field(props@, "total_slots"@),
{
    let mut members: Vec<Member> = no_members();
    push_observed(&mut members, props, "build_info");
    assert(members_view(members@) =~= observed_field(props@, "build_info"@));
    let ghost before = members_view(members@);
    match props.get("chat_template") {
        Some(_) => push_member(&mut members, "chat_template_hash", text_node(template_hash)),
        None => {},
    }
    assert(members_view(members@) =~= before + observed_template(props@, template_hash@));
    push_observed(&mut members, props, "total_slots");
    members
}

} // verus!

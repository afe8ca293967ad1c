//! The command surface: what a command line asks for, and what its answer says.
use vstd::prelude::*;
use vstd::string::StringExecFns;

use crate::json::{no_members, object, push_member, text_node, Json, Member};
#[allow(unused_imports)]
use crate::json::{members_view, JsonV};
use crate::output::{resolve_format, OutputFormat};
use crate::text::{
    chars_of, copy_strings, dec_u64, is_blank, join, parse_signed, parse_unsigned, same,
    split_lines, split_on, trim,
};
#[allow(unused_imports)]
use crate::text::{dec, joined, lines, pieces, signed, trimmed, unsigned, views};
use crate::tuner::{ScoreProfile, DEFAULT_BEAM_WIDTH};

verus! {

// ---------------------------------------------------------------------------
// Flags
// ---------------------------------------------------------------------------
/// The place of the first argument that is `name`, from `i` on.
pub open spec fn flag_at(args: Seq<Seq<char>>, name: Seq<char>, i: int) -> Option<int>
    decreases args.len() - i,
{
    if i < 0 || i >= args.len() {
        None
    } else if args[i] == name {
        Some(i)
    } else {
        flag_at(args, name, i + 1)
    }
}

/// The argument behind the first `name`.
pub open spec fn value_of(args: Seq<Seq<char>>, name: Seq<char>) -> Option<Seq<char>> {
    match flag_at(args, name, 0) {
        Some(i) => if i + 1 < args.len() {
            Some(args[i + 1])
        } else {
            None
        },
        None => None,
    }
}

/// The argument behind the first `name`.
pub fn flag_value(args: &Vec<String>, name: &str) -> (out: Option<String>)
    ensures
        match out {
            Some(v) => value_of(views(args@), name@) == Some(v@),
            None => value_of(views(args@), name@) is None,
        },
{
    let ghost all = views(args@);
    let mut i: usize = 0;
    while i < args.len()
        invariant
            i <= args.len(),
            all == views(args@),
            flag_at(all, name@, 0) == flag_at(all, name@, i as int),
        decreases args.len() - i,
    {
        assert(all[i as int] == args@[i as int]@);
        if same(args[i].as_str(), name) {
            if i + 1 < args.len() {
                assert(all[i + 1] == args@[i + 1]@);
                return Some(args[i + 1].clone());
            }
            return None;
        }
        i = i + 1;
    }
    None
}

/// Whether an argument is given.
pub fn has_flag(args: &Vec<String>, name: &str) -> (out: bool)
    ensures
        out == views(args@).contains(name@),
{
    let ghost all = views(args@);
    let mut i: usize = 0;
    while i < args.len()
        invariant
            i <= args.len(),
            all == views(args@),
            forall|k: int| 0 <= k < i ==> #[trigger] all[k] != name@,
        decreases args.len() - i,
    {
        if same(args[i].as_str(), name) {
            assert(all[i as int] == name@);
            return true;
        }
        i = i + 1;
    }
    proof {
        if all.contains(name@) {
            let k = choose|k: int| 0 <= k < all.len() && all[k] == name@;
            assert(all[k] != name@);
        }
    }
    false
}

/// Whether the winner is not to be saved.
pub fn has_no_save(args: &Vec<String>) -> (out: bool)
    ensures
        out == views(args@).contains("--no-save"@),
{
    has_flag(args, "--no-save")
}

/// The flag's value, or a default.
pub open spec fn value_or(args: Seq<Seq<char>>, name: Seq<char>, default: Seq<char>) -> Seq<char> {
    match value_of(args, name) {
        Some(v) => v,
        None => default,
    }
}

fn flag_or(args: &Vec<String>, name: &str, default: &str) -> (out: String)
    ensures
        out@ == value_or(views(args@), name@, default@),
{
    match flag_value(args, name) {
        Some(v) => v,
        None => default.to_string(),
    }
}

/// The message about a flag's value that is no number.
pub open spec fn bad_value(name: Seq<char>, value: Seq<char>) -> Seq<char> {
    "bad "@ + name + " '"@ + value + "'"@
}

fn bad(name: &str, value: &str) -> (out: String)
    ensures
        out@ == bad_value(name@, value@),
{
    let mut m: String = "bad ".to_string();
    m.append(name);
    m.append(" '");
    m.append(value);
    m.append("'");
    m
}

/// A number flag of at most `max`: its value, its default, or what is wrong.
pub open spec fn number_or(
    args: Seq<Seq<char>>,
    name: Seq<char>,
    default: u64,
    max: u64,
) -> Result<u64, Seq<char>> {
    match value_of(args, name) {
        None => Ok(default),
        Some(v) => match unsigned(v) {
            Some(n) => if n <= max {
                Ok(n)
            } else {
                Err(bad_value(name, v))
            },
            None => Err(bad_value(name, v)),
        },
    }
}

/// A number flag of at most `max`.
pub fn number_flag(args: &Vec<String>, name: &str, default: u64, max: u64) -> (out: Result<
    u64,
    String,
>)
    ensures
        match out {
            Ok(n) => number_or(views(args@), name@, default, max) == Ok::<u64, Seq<char>>(n),
            Err(m) => number_or(views(args@), name@, default, max) == Err::<u64, Seq<char>>(m@),
        },
{
    match flag_value(args, name) {
        None => Ok(default),
        Some(v) => match parse_unsigned(v.as_str()) {
            Some(n) => if n <= max {
                Ok(n)
            } else {
                Err(bad(name, v.as_str()))
            },
            None => Err(bad(name, v.as_str())),
        },
    }
}

// ---------------------------------------------------------------------------
// Modes and formats
// ---------------------------------------------------------------------------
/// The engine a model runs on.
#[derive(Clone, Copy, Debug, PartialEq, Eq, Structural)]
pub enum Mode {
    Native,
    Turboquant,
    Mtpturbo,
    PrismMl,
}

/// The engines the search space knows.
#[derive(Clone, Copy, Debug, PartialEq, Eq, Structural)]
pub enum SpaceMode {
    Native,
    Turboquant,
    PrismMl,
}

/// The search space's engine for a mode, if it knows one.
pub fn space_mode(mode: Mode) -> (out: Option<SpaceMode>)
    ensures
        out == match mode {
            Mode::Native => Some(SpaceMode::Native),
            Mode::Turboquant => Some(SpaceMode::Turboquant),
            Mode::PrismMl => Some(SpaceMode::PrismMl),
            Mode::Mtpturbo => None,
        },
{
    match mode {
        Mode::Native => Some(SpaceMode::Native),
        Mode::Turboquant => Some(SpaceMode::Turboquant),
        Mode::PrismMl => Some(SpaceMode::PrismMl),
        Mode::Mtpturbo => None,
    }
}

/// The mode that a spelling names.
pub open spec fn mode_named(value: Seq<char>) -> Option<Mode> {
    if value == "native"@ {
        Some(Mode::Native)
    } else if value == "turboquant"@ {
        Some(Mode::Turboquant)
    } else if value == "mtpturbo"@ {
        Some(Mode::Mtpturbo)
    } else if value == "prism"@ || value == "prismml"@ {
        Some(Mode::PrismMl)
    } else {
        None
    }
}

/// The mode that a flag's value asks for; no value asks for none.
pub fn parse_mode(value: Option<&str>) -> (out: Result<Option<Mode>, String>)
    ensures
        match value {
            None => out == Ok::<Option<Mode>, String>(None),
            Some(v) => match mode_named(v@) {
                Some(mode) => out == Ok::<Option<Mode>, String>(Some(mode)),
                None => out matches Err(m) && m@ == "unknown --mode '"@ + v@
                    + "' (use native|turboquant|mtpturbo|prism)"@,
            },
        },
{
    match value {
        None => Ok(None),
        Some(v) => {
            if same(v, "native") {
                Ok(Some(Mode::Native))
            } else if same(v, "turboquant") {
                Ok(Some(Mode::Turboquant))
            } else if same(v, "mtpturbo") {
                Ok(Some(Mode::Mtpturbo))
            } else if same(v, "prism") || same(v, "prismml") {
                Ok(Some(Mode::PrismMl))
            } else {
                let mut m: String = "unknown --mode '".to_string();
                m.append(v);
                m.append("' (use native|turboquant|mtpturbo|prism)");
                Err(m)
            }
        },
    }
}

/// The command line's spelling of a mode.
pub open spec fn mode_name(mode: Mode) -> Seq<char> {
    match mode {
        Mode::Native => "native"@,
        Mode::Turboquant => "turboquant"@,
        Mode::Mtpturbo => "mtpturbo"@,
        Mode::PrismMl => "prism"@,
    }
}

/// The command line's spelling of a mode.
pub fn cli_mode_name(mode: Mode) -> (out: String)
    ensures
        out@ == mode_name(mode),
{
    match mode {
        Mode::Native => "native".to_string(),
        Mode::Turboquant => "turboquant".to_string(),
        Mode::Mtpturbo => "mtpturbo".to_string(),
        Mode::PrismMl => "prism".to_string(),
    }
}

/// What the command line spells, it reads.
pub proof fn law_mode_names_read_back(mode: Mode)
    ensures
        mode_named(mode_name(mode)) == Some(mode),
{
    reveal_strlit("native");
    reveal_strlit("turboquant");
    reveal_strlit("mtpturbo");
    reveal_strlit("prism");
    reveal_strlit("prismml");
    assert("native"@.len() == 6);
    assert("turboquant"@.len() == 10);
    assert("mtpturbo"@.len() == 8);
    assert("prism"@.len() == 5);
}

/// Resolve the engine: a model's required mode wins, and an explicit request
/// that conflicts with it is refused.
pub fn resolve_mode(model: &str, requested: Option<Mode>, required: Option<Mode>) -> (out: Result<
    Mode,
    String,
>)
    ensures
        match (required, requested) {
            (Some(need), Some(want)) => if want == need {
                out == Ok::<Mode, String>(need)
            } else {
                out matches Err(m) && m@ == model@ + " requires --mode "@ + mode_name(need)
                    + "; '"@ + mode_name(want) + "' is incompatible"@
            },
            (Some(need), None) => out == Ok::<Mode, String>(need),
            (None, Some(want)) => out == Ok::<Mode, String>(want),
            (None, None) => out == Ok::<Mode, String>(Mode::Native),
        },
{
    match (required, requested) {
        (Some(need), Some(want)) => {
            if want == need {
                Ok(need)
            } else {
                let mut m: String = model.to_string();
                m.append(" requires --mode ");
                m.append(cli_mode_name(need).as_str());
                m.append("; '");
                m.append(cli_mode_name(want).as_str());
                m.append("' is incompatible");
                Err(m)
            }
        },
        (Some(need), None) => Ok(need),
        (None, Some(want)) => Ok(want),
        (None, None) => Ok(Mode::Native),
    }
}

/// The output format that a command line and its terminal ask for.
pub open spec fn format_of(args: Seq<Seq<char>>, tty: bool) -> Result<OutputFormat, Seq<char>> {
    match value_of(args, "--format"@) {
        Some(v) => if v == "text"@ {
            Ok(OutputFormat::Text)
        } else if v == "json"@ {
            Ok(OutputFormat::Json)
        } else {
            Err("unknown --format '"@ + v + "' (use text|json)"@)
        },
        None => Ok(
            if tty {
                OutputFormat::Text
            } else {
                OutputFormat::Json
            },
        ),
    }
}

/// The output format that a command line and its terminal ask for.
pub fn output_format(args: &Vec<String>, stdout_is_tty: bool) -> (out: Result<OutputFormat, String>)
    ensures
        match out {
            Ok(f) => format_of(views(args@), stdout_is_tty) == Ok::<OutputFormat, Seq<char>>(f),
            Err(m) => format_of(views(args@), stdout_is_tty) == Err::<OutputFormat, Seq<char>>(m@),
        },
{
    let explicit: Option<OutputFormat> = match flag_value(args, "--format") {
        Some(v) => {
            if same(v.as_str(), "text") {
                Some(OutputFormat::Text)
            } else if same(v.as_str(), "json") {
                Some(OutputFormat::Json)
            } else {
                let mut m: String = "unknown --format '".to_string();
                m.append(v.as_str());
                m.append("' (use text|json)");
                return Err(m);
            }
        },
        None => None,
    };
    Ok(resolve_format(explicit, stdout_is_tty))
}

// ---------------------------------------------------------------------------
// Commands
// ---------------------------------------------------------------------------
/// What a command line asks for.
#[derive(Clone, Debug, PartialEq, Eq)]
pub enum Command {
    /// Nothing was asked.
    Nothing,
    Version,
    Instruments,
    FindBest,
    Arms,
    Uplift,
    Rescore,
    Help,
    Unknown(String),
}

/// The command that a word names.
pub open spec fn names_command(word: Seq<char>, command: Command) -> bool {
    match command {
        Command::Nothing => false,
        Command::Version => word == "version"@,
        Command::Instruments => word == "instruments"@,
        Command::FindBest => word == "findbest"@,
        Command::Arms => word == "arms"@,
        Command::Uplift => word == "uplift"@,
        Command::Rescore => word == "rescore"@,
        Command::Help => word == "--help"@ || word == "-h"@ || word == "help"@,
        Command::Unknown(w) => w@ == word && word != "version"@ && word != "instruments"@ && word
            != "findbest"@ && word != "arms"@ && word != "uplift"@ && word != "rescore"@ && word
            != "--help"@ && word != "-h"@ && word != "help"@,
    }
}

/// The command of a command line: its first argument.
pub fn command_of(args: &Vec<String>) -> (out: Command)
    ensures
        args@.len() == 0 ==> out is Nothing,
        args@.len() > 0 ==> names_command(args@[0]@, out),
{
    if args.len() == 0 {
        return Command::Nothing;
    }
    let word: &str = args[0].as_str();
    if same(word, "version") {
        Command::Version
    } else if same(word, "instruments") {
        Command::Instruments
    } else if same(word, "findbest") {
        Command::FindBest
    } else if same(word, "arms") {
        Command::Arms
    } else if same(word, "uplift") {
        Command::Uplift
    } else if same(word, "rescore") {
        Command::Rescore
    } else if same(word, "--help") || same(word, "-h") || same(word, "help") {
        Command::Help
    } else {
        Command::Unknown(args[0].clone())
    }
}

/// What a rescore reads.
#[derive(Clone, Debug, PartialEq, Eq)]
pub struct RescoreOptions {
    pub dir: String,
    pub corpus: String,
}

/// The options of a rescore.
pub fn rescore_options(args: &Vec<String>) -> (out: Result<RescoreOptions, String>)
    ensures
        ({
            let all = views(args@);
            let corpus = value_or(all, "--corpus"@, "external"@);
            match value_of(all, "--dir"@) {
                None => out matches Err(m) && m@ == "rescore needs --dir <cells-dir>"@,
                Some(dir) => if corpus == "external"@ || corpus == "first-party"@ {
                    out matches Ok(o) && o.dir@ == dir && o.corpus@ == corpus
                } else {
                    out matches Err(m) && m@ == "unknown --corpus '"@ + corpus
                        + "' (use first-party|external)"@
                },
            }
        }),
{
    let dir: String = match flag_value(args, "--dir") {
        Some(dir) => dir,
        None => {
            return Err("rescore needs --dir <cells-dir>".to_string());
        },
    };
    let corpus: String = flag_or(args, "--corpus", "external");
    if same(corpus.as_str(), "external") || same(corpus.as_str(), "first-party") {
        Ok(RescoreOptions { dir, corpus })
    } else {
        let mut m: String = "unknown --corpus '".to_string();
        m.append(corpus.as_str());
        m.append("' (use first-party|external)");
        Err(m)
    }
}

/// How an arms run is graded.
#[derive(Clone, Copy, Debug, PartialEq, Eq, Structural)]
pub enum GradeMode {
    Docker,
    Ungraded,
}

/// What an arms run is told beside its specification and its cells directory.
#[derive(Clone, Debug, PartialEq, Eq)]
pub struct ArmsOptions {
    pub solver_timeout: u64,
    pub grade_timeout: u64,
    pub bin: String,
    pub format: OutputFormat,
    pub grade: GradeMode,
}

/// What is wrong with an arms command line, if anything is: the first of its
/// timeouts, its format and its grading that does not read.
pub open spec fn arms_defect(args: Seq<Seq<char>>, tty: bool) -> Option<Seq<char>> {
    let grade = value_or(args, "--grade"@, "docker"@);
    match (
        number_or(args, "--solver-timeout"@, 600, u64::MAX),
        number_or(args, "--grade-timeout"@, 900, u64::MAX),
        format_of(args, tty),
    ) {
        (Err(m), _, _) => Some(m),
        (_, Err(m), _) => Some(m),
        (_, _, Err(m)) => Some(m),
        _ => if grade == "docker"@ || grade == "none"@ {
            None
        } else {
            Some("unknown --grade '"@ + grade + "' (use docker|none)"@)
        },
    }
}

/// The options of an arms run.
pub fn arms_options(args: &Vec<String>, stdout_is_tty: bool) -> (out: Result<ArmsOptions, String>)
    ensures
        match out {
            Err(m) => arms_defect(views(args@), stdout_is_tty) == Some(m@),
            Ok(o) => {
                let all = views(args@);
                &&& arms_defect(all, stdout_is_tty) is None
                &&& number_or(all, "--solver-timeout"@, 600, u64::MAX) == Ok::<u64, Seq<char>>(
                    o.solver_timeout,
                )
                &&& number_or(all, "--grade-timeout"@, 900, u64::MAX) == Ok::<u64, Seq<char>>(
                    o.grade_timeout,
                )
                &&& o.bin@ == value_or(all, "--localpilot"@, "localpilot"@)
                &&& format_of(all, stdout_is_tty) == Ok::<OutputFormat, Seq<char>>(o.format)
                &&& (o.grade is Docker) == (value_or(all, "--grade"@, "docker"@) == "docker"@)
            },
        },
{
    let solver_timeout: u64 = match number_flag(args, "--solver-timeout", 600, u64::MAX) {
        Ok(n) => n,
        Err(m) => {
            return Err(m);
        },
    };
    let grade_timeout: u64 = match number_flag(args, "--grade-timeout", 900, u64::MAX) {
        Ok(n) => n,
        Err(m) => {
            return Err(m);
        },
    };
    let bin: String = flag_or(args, "--localpilot", "localpilot");
    let mode: String = flag_or(args, "--grade", "docker");
    let format: OutputFormat = match output_format(args, stdout_is_tty) {
        Ok(f) => f,
        Err(m) => {
            return Err(m);
        },
    };
    let grade: GradeMode = if same(mode.as_str(), "docker") {
        GradeMode::Docker
    } else if same(mode.as_str(), "none") {
        GradeMode::Ungraded
    } else {
        let mut m: String = "unknown --grade '".to_string();
        m.append(mode.as_str());
        m.append("' (use docker|none)");
        return Err(m);
    };
    Ok(ArmsOptions { solver_timeout, grade_timeout, bin, format, grade })
}

/// A text without its colons.
pub open spec fn without_colons(s: Seq<char>) -> Seq<char>
    decreases s.len(),
{
    if s.len() == 0 {
        seq![]
    } else if s.last() == ':' {
        without_colons(s.drop_last())
    } else {
        without_colons(s.drop_last()).push(s.last())
    }
}

/// The name of an arms run's own folder, so that a new run's cells never mix
/// with a prior run's. The stamp is filesystem-safe.
pub fn cells_folder(model: &str, stamp: &str) -> (out: String)
    ensures
        out@ == "arms-"@ + model@ + "-"@ + without_colons(stamp@),
{
    let chars: Vec<char> = chars_of(stamp);
    let mut kept: String = String::new();
    let mut i: usize = 0;
    assert(kept@ =~= without_colons(chars@.take(0)));
    while i < chars.len()
        invariant
            i <= chars.len(),
            kept@ == without_colons(chars@.take(i as int)),
        decreases chars.len() - i,
    {
        proof {
            assert(chars@.take(i + 1).drop_last() =~= chars@.take(i as int));
            assert(chars@.take(i + 1).last() == chars@[i as int]);
        }
        if chars[i] != ':' {
            kept.push(chars[i]);
        }
        i = i + 1;
    }
    assert(chars@.take(i as int) =~= chars@);
    let mut name: String = "arms-".to_string();
    name.append(model);
    name.append("-");
    name.append(kept.as_str());
    name
}

/// A folder's stamp holds no character that a path may not.
pub proof fn law_stamps_hold_no_colons(s: Seq<char>)
    ensures
        !without_colons(s).contains(':'),
    decreases s.len(),
{
    if s.len() > 0 {
        law_stamps_hold_no_colons(s.drop_last());
        let front = without_colons(s.drop_last());
        let all = without_colons(s);
        if all.contains(':') {
            let k = choose|k: int| 0 <= k < all.len() && all[k] == ':';
            if k < front.len() {
                assert(front[k] == ':');
                assert(front.contains(':'));
            }
        }
    }
}

/// What an uplift command line asks for.
#[derive(Clone, Debug, PartialEq, Eq)]
pub enum UpliftRequest {
    /// Render this saved report.
    Render(String),
    /// Print the seed pack of a task set.
    EmitSeedPack(String),
    /// Run a task set.
    Run(String),
}

/// What an uplift command line asks for.
pub fn uplift_request(args: &Vec<String>) -> (out: Result<UpliftRequest, String>)
    ensures
        ({
            let all = views(args@);
            match (value_of(all, "--report"@), value_of(all, "--task-set"@)) {
                (Some(path), _) => out matches Ok(UpliftRequest::Render(p)) && p@ == path,
                (None, Some(path)) => if all.contains("--emit-seed-pack"@) {
                    out matches Ok(UpliftRequest::EmitSeedPack(p)) && p@ == path
                } else {
                    out matches Ok(UpliftRequest::Run(p)) && p@ == path
                },
                (None, None) => out matches Err(m) && m@
                    == "uplift needs --report <file> or --task-set <file>"@,
            }
        }),
{
    match flag_value(args, "--report") {
        Some(path) => {
            return Ok(UpliftRequest::Render(path));
        },
        None => {},
    }
    match flag_value(args, "--task-set") {
        Some(path) => {
            if has_flag(args, "--emit-seed-pack") {
                Ok(UpliftRequest::EmitSeedPack(path))
            } else {
                Ok(UpliftRequest::Run(path))
            }
        },
        None => Err("uplift needs --report <file> or --task-set <file>".to_string()),
    }
}

/// What an uplift run is told beside its task set.
#[derive(Clone, Debug, PartialEq, Eq)]
pub struct UpliftOptions {
    pub workspace: String,
    pub model: String,
    pub trials: u32,
    pub timeout: u64,
    pub bin: String,
    /// The lessons the lesson arm is meant to inject.
    pub intended: Vec<String>,
}

/// Texts without the white space around them.
pub open spec fn all_trimmed(texts: Seq<Seq<char>>) -> Seq<Seq<char>> {
    texts.map_values(|t: Seq<char>| trimmed(t))
}

/// The intended lessons: those listed, or else those that the task set
/// declares.
pub open spec fn intended_of(args: Seq<Seq<char>>, declared: Seq<Seq<char>>) -> Seq<Seq<char>> {
    match value_of(args, "--intended"@) {
        Some(list) => all_trimmed(pieces(list, |c: char| c == ',')),
        None => declared,
    }
}

/// What is wrong with an uplift command line, if anything is.
pub open spec fn uplift_defect(args: Seq<Seq<char>>) -> Option<Seq<char>> {
    if value_of(args, "--workspace"@) is None {
        Some("uplift needs --workspace <dir>"@)
    } else if value_of(args, "--model"@) is None {
        Some("uplift needs --model <key>"@)
    } else {
        match (
            number_or(args, "--trials"@, 5, u32::MAX as u64),
            number_or(args, "--timeout"@, 600, u64::MAX),
        ) {
            (Err(m), _) => Some(m),
            (_, Err(m)) => Some(m),
            _ => None,
        }
    }
}

fn trim_all(texts: &Vec<String>) -> (out: Vec<String>)
    ensures
        views(out@) == all_trimmed(views(texts@)),
{
    let mut out: Vec<String> = Vec::new();
    let mut i: usize = 0;
    while i < texts.len()
        invariant
            i <= texts.len(),
            out@.len() == i,
            forall|k: int| 0 <= k < i ==> (#[trigger] out@[k])@ == trimmed(texts@[k]@),
        decreases texts.len() - i,
    {
        out.push(trim(texts[i].as_str()));
        i = i + 1;
    }
    assert(views(out@) =~= all_trimmed(views(texts@)));
    out
}

/// The options of an uplift run; `declared` are the task set's own lesson ids.
pub fn uplift_options(args: &Vec<String>, declared: &Vec<String>) -> (out: Result<
    UpliftOptions,
    String,
>)
    ensures
        match out {
            Err(m) => uplift_defect(views(args@)) == Some(m@),
            Ok(o) => {
                let all = views(args@);
                &&& uplift_defect(all) is None
                &&& value_of(all, "--workspace"@) == Some(o.workspace@)
                &&& value_of(all, "--model"@) == Some(o.model@)
                &&& number_or(all, "--trials"@, 5, u32::MAX as u64) == Ok::<u64, Seq<char>>(
                    o.trials as u64,
                )
                &&& number_or(all, "--timeout"@, 600, u64::MAX) == Ok::<u64, Seq<char>>(o.timeout)
                &&& o.bin@ == value_or(all, "--localpilot"@, "localpilot"@)
                &&& views(o.intended@) == intended_of(all, views(declared@))
            },
        },
{
    let workspace: String = match flag_value(args, "--workspace") {
        Some(v) => v,
        None => {
            return Err("uplift needs --workspace <dir>".to_string());
        },
    };
    let model: String = match flag_value(args, "--model") {
        Some(v) => v,
        None => {
            return Err("uplift needs --model <key>".to_string());
        },
    };
    let trials: u64 = match number_flag(args, "--trials", 5, u32::MAX as u64) {
        Ok(n) => n,
        Err(m) => {
            return Err(m);
        },
    };
    let timeout: u64 = match number_flag(args, "--timeout", 600, u64::MAX) {
        Ok(n) => n,
        Err(m) => {
            return Err(m);
        },
    };
    let bin: String = flag_or(args, "--localpilot", "localpilot");
    let intended: Vec<String> = match flag_value(args, "--intended") {
        Some(list) => trim_all(&split_on(list.as_str(), ',')),
        None => copy_strings(declared),
    };
    Ok(UpliftOptions { workspace, model, trials: trials as u32, timeout, bin, intended })
}

/// What a tuning run optimises.
#[derive(Clone, Copy, Debug, PartialEq, Eq, Structural)]
pub enum Optimize {
    Gen,
    Prompt,
    Both,
    CodingAgent,
}

/// What a tuning run is told.
#[derive(Clone, Debug, PartialEq, Eq)]
pub struct FindBestOptions {
    pub key: String,
    pub context_key: String,
    pub mode: Option<Mode>,
    pub profile: ScoreProfile,
    pub optimize: Optimize,
    pub budget: i64,
    pub beam_width: usize,
    pub runs: usize,
    pub startup_timeout_secs: u32,
}

/// The profile that a value names.
pub open spec fn profile_named(value: Seq<char>) -> Option<ScoreProfile> {
    if value == "pure"@ {
        Some(ScoreProfile::Pure)
    } else if value == "balanced"@ {
        Some(ScoreProfile::Balanced)
    } else if value == "both"@ {
        Some(ScoreProfile::Both)
    } else {
        None
    }
}

/// The goal that a value names.
pub open spec fn goal_named(value: Seq<char>) -> Option<Optimize> {
    if value == "gen"@ {
        Some(Optimize::Gen)
    } else if value == "prompt"@ {
        Some(Optimize::Prompt)
    } else if value == "both"@ {
        Some(Optimize::Both)
    } else if value == "coding-agent"@ {
        Some(Optimize::CodingAgent)
    } else {
        None
    }
}

/// The mode that a command line asks for.
pub open spec fn mode_of(args: Seq<Seq<char>>) -> Result<Option<Mode>, Seq<char>> {
    match value_of(args, "--mode"@) {
        None => Ok(None),
        Some(v) => match mode_named(v) {
            Some(mode) => Ok(Some(mode)),
            None => Err(
                "unknown --mode '"@ + v + "' (use native|turboquant|mtpturbo|prism)"@,
            ),
        },
    }
}

/// The budget that a command line asks for.
pub open spec fn budget_of(args: Seq<Seq<char>>) -> Result<i64, Seq<char>> {
    match value_of(args, "--budget"@) {
        None => Ok(30),
        Some(v) => match signed(v) {
            Some(n) => Ok(n),
            None => Err(bad_value("--budget"@, v)),
        },
    }
}

/// The beam width that a command line asks for, between 1 and 100.
pub open spec fn beam_of(args: Seq<Seq<char>>) -> Result<u64, Seq<char>> {
    match number_or(args, "--beam-width"@, DEFAULT_BEAM_WIDTH as u64, usize::MAX as u64) {
        Err(m) => Err(m),
        Ok(n) => if 1 <= n <= 100 {
            Ok(n)
        } else {
            Err("--beam-width must be between 1 and 100 (got "@ + dec(n as nat) + ")"@)
        },
    }
}

/// What is wrong with a tuning command line, if anything is.
pub open spec fn findbest_defect(args: Seq<Seq<char>>) -> Option<Seq<char>> {
    let profile = value_or(args, "--profile"@, "pure"@);
    let goal = value_or(args, "--optimize"@, "coding-agent"@);
    if value_of(args, "--model"@) is None {
        Some("findbest needs --model <key>"@)
    } else if mode_of(args) is Err {
        Some(mode_of(args)->Err_0)
    } else if profile_named(profile) is None {
        Some("unknown --profile '"@ + profile + "'"@)
    } else if goal_named(goal) is None {
        Some("unknown --optimize '"@ + goal + "'"@)
    } else if budget_of(args) is Err {
        Some(budget_of(args)->Err_0)
    } else if beam_of(args) is Err {
        Some(beam_of(args)->Err_0)
    } else if number_or(args, "--runs"@, 3, usize::MAX as u64) is Err {
        Some(number_or(args, "--runs"@, 3, usize::MAX as u64)->Err_0)
    } else if number_or(args, "--startup-timeout"@, 300, u32::MAX as u64) is Err {
        Some(number_or(args, "--startup-timeout"@, 300, u32::MAX as u64)->Err_0)
    } else {
        None
    }
}

fn read_mode(args: &Vec<String>) -> (out: Result<Option<Mode>, String>)
    ensures
        match out {
            Ok(mode) => mode_of(views(args@)) == Ok::<Option<Mode>, Seq<char>>(mode),
            Err(m) => mode_of(views(args@)) == Err::<Option<Mode>, Seq<char>>(m@),
        },
{
    match flag_value(args, "--mode") {
        None => Ok(None),
        Some(v) => parse_mode(Some(v.as_str())),
    }
}

fn read_profile(args: &Vec<String>) -> (out: Result<ScoreProfile, String>)
    ensures
        ({
            let profile = value_or(views(args@), "--profile"@, "pure"@);
            match out {
                Ok(p) => profile_named(profile) == Some(p),
                Err(m) => profile_named(profile) is None && m@ == "unknown --profile '"@ + profile
                    + "'"@,
            }
        }),
{
    let value: String = flag_or(args, "--profile", "pure");
    if same(value.as_str(), "pure") {
        Ok(ScoreProfile::Pure)
    } else if same(value.as_str(), "balanced") {
        Ok(ScoreProfile::Balanced)
    } else if same(value.as_str(), "both") {
        Ok(ScoreProfile::Both)
    } else {
        let mut m: String = "unknown --profile '".to_string();
        m.append(value.as_str());
        m.append("'");
        Err(m)
    }
}

fn read_goal(args: &Vec<String>) -> (out: Result<Optimize, String>)
    ensures
        ({
            let goal = value_or(views(args@), "--optimize"@, "coding-agent"@);
            match out {
                Ok(o) => goal_named(goal) == Some(o),
                Err(m) => goal_named(goal) is None && m@ == "unknown --optimize '"@ + goal + "'"@,
            }
        }),
{
    let value: String = flag_or(args, "--optimize", "coding-agent");
    if same(value.as_str(), "gen") {
        Ok(Optimize::Gen)
    } else if same(value.as_str(), "prompt") {
        Ok(Optimize::Prompt)
    } else if same(value.as_str(), "both") {
        Ok(Optimize::Both)
    } else if same(value.as_str(), "coding-agent") {
        Ok(Optimize::CodingAgent)
    } else {
        let mut m: String = "unknown --optimize '".to_string();
        m.append(value.as_str());
        m.append("'");
        Err(m)
    }
}

fn read_budget(args: &Vec<String>) -> (out: Result<i64, String>)
    ensures
        match out {
            Ok(n) => budget_of(views(args@)) == Ok::<i64, Seq<char>>(n),
            Err(m) => budget_of(views(args@)) == Err::<i64, Seq<char>>(m@),
        },
{
    match flag_value(args, "--budget") {
        None => Ok(30),
        Some(v) => match parse_signed(v.as_str()) {
            Some(n) => Ok(n),
            None => Err(bad("--budget", v.as_str())),
        },
    }
}

fn read_beam(args: &Vec<String>) -> (out: Result<u64, String>)
    ensures
        match out {
            Ok(n) => beam_of(views(args@)) == Ok::<u64, Seq<char>>(n) && 1 <= n <= 100,
            Err(m) => beam_of(views(args@)) == Err::<u64, Seq<char>>(m@),
        },
{
    match number_flag(
        args,
        "--beam-width",
        DEFAULT_BEAM_WIDTH as u64,
        usize::MAX as u64,
    ) {
        Err(m) => Err(m),
        Ok(n) => {
            if 1 <= n && n <= 100 {
                Ok(n)
            } else {
                let mut m: String = "--beam-width must be between 1 and 100 (got ".to_string();
                m.append(dec_u64(n).as_str());
                m.append(")");
                Err(m)
            }
        },
    }
}

/// The options of a tuning run.
pub fn findbest_options(args: &Vec<String>) -> (out: Result<FindBestOptions, String>)
    ensures
        match out {
            Err(m) => findbest_defect(views(args@)) == Some(m@),
            Ok(o) => {
                let all = views(args@);
                &&& findbest_defect(all) is None
                &&& value_of(all, "--model"@) == Some(o.key@)
                &&& o.context_key@ == value_or(all, "--context"@, seq![])
                &&& mode_of(all) == Ok::<Option<Mode>, Seq<char>>(o.mode)
                &&& profile_named(value_or(all, "--profile"@, "pure"@)) == Some(o.profile)
                &&& goal_named(value_or(all, "--optimize"@, "coding-agent"@)) == Some(o.optimize)
                &&& budget_of(all) == Ok::<i64, Seq<char>>(o.budget)
                &&& beam_of(all) == Ok::<u64, Seq<char>>(o.beam_width as u64)
                &&& number_or(all, "--runs"@, 3, usize::MAX as u64) == Ok::<u64, Seq<char>>(
                    o.runs as u64,
                )
                &&& number_or(all, "--startup-timeout"@, 300, u32::MAX as u64) == Ok::<
                    u64,
                    Seq<char>,
                >(o.startup_timeout_secs as u64)
                &&& 1 <= o.beam_width <= 100
            },
        },
{
    let key: String = match flag_value(args, "--model") {
        Some(v) => v,
        None => {
            return Err("findbest needs --model <key>".to_string());
        },
    };
    let context_key: String = match flag_value(args, "--context") {
        Some(v) => v,
        None => String::new(),
    };
    assert(context_key@ =~= value_or(views(args@), "--context"@, seq![]));
    let mode: Option<Mode> = match read_mode(args) {
        Ok(mode) => mode,
        Err(m) => {
            return Err(m);
        },
    };
    let profile: ScoreProfile = match read_profile(args) {
        Ok(p) => p,
        Err(m) => {
            return Err(m);
        },
    };
    let optimize: Optimize = match read_goal(args) {
        Ok(o) => o,
        Err(m) => {
            return Err(m);
        },
    };
    let budget: i64 = match read_budget(args) {
        Ok(n) => n,
        Err(m) => {
            return Err(m);
        },
    };
    let beam: u64 = match read_beam(args) {
        Ok(n) => n,
        Err(m) => {
            return Err(m);
        },
    };
    let runs: u64 = match number_flag(args, "--runs", 3, usize::MAX as u64) {
        Ok(n) => n,
        Err(m) => {
            return Err(m);
        },
    };
    let startup: u64 = match number_flag(args, "--startup-timeout", 300, u32::MAX as u64) {
        Ok(n) => n,
        Err(m) => {
            return Err(m);
        },
    };
    Ok(
        FindBestOptions {
            key,
            context_key,
            mode,
            profile,
            optimize,
            budget,
            beam_width: beam as usize,
            runs: runs as usize,
            startup_timeout_secs: startup as u32,
        },
    )
}

// ---------------------------------------------------------------------------
// The host
// ---------------------------------------------------------------------------
/// The first `n` lines that are not blank, without the white space around
/// them.
pub open spec fn filled_lines(all: Seq<Seq<char>>, n: int) -> Seq<Seq<char>>
    decreases n,
{
    if n <= 0 {
        seq![]
    } else if trimmed(all[n - 1]).len() == 0 {
        filled_lines(all, n - 1)
    } else {
        filled_lines(all, n - 1).push(trimmed(all[n - 1]))
    }
}

/// The GPU names that a query's answer lists.
pub fn gpu_names(stdout: &str) -> (out: Vec<String>)
    ensures
        views(out@) == filled_lines(lines(stdout@), lines(stdout@).len() as int),
{
    let all: Vec<String> = split_lines(stdout);
    let ghost texts = lines(stdout@);
    let mut out: Vec<String> = Vec::new();
    let mut i: usize = 0;
    assert(views(out@) =~= seq![]);
    while i < all.len()
        invariant
            i <= all.len(),
            texts == views(all@),
            views(out@) == filled_lines(texts, i as int),
        decreases all.len() - i,
    {
        assert(texts[i as int] == all@[i as int]@);
        let name: String = trim(all[i].as_str());
        if !name.as_str().is_empty() {
            let ghost was = views(out@);
            out.push(name);
            assert(views(out@) =~= was.push(name@));
        }
        i = i + 1;
    }
    assert(texts.len() == all@.len());
    out
}

/// A build signature for a server binary: its variant folder plus its size, so
/// that an update which swaps the binary invalidates measurements tuned
/// against the old one.
pub fn build_signature(variant: &str, size: u64) -> (out: String)
    ensures
        out@ == if variant@.len() == 0 && size == 0 {
            seq![]
        } else {
            variant@ + ":"@ + dec(size as nat)
        },
{
    if variant.is_empty() && size == 0 {
        let none: String = String::new();
        assert(none@ =~= seq![]);
        return none;
    }
    let mut out: String = variant.to_string();
    out.append(":");
    out.append(dec_u64(size).as_str());
    out
}

/// The home directory that an environment variable names, unless it is blank.
pub fn home_of(value: Option<String>) -> (out: Option<String>)
    ensures
        out == match value {
            Some(v) => if trimmed(v@).len() == 0 {
                None
            } else {
                Some(v)
            },
            None => None,
        },
{
    match value {
        Some(v) => if is_blank(v.as_str()) {
            None
        } else {
            Some(v)
        },
        None => None,
    }
}

// ---------------------------------------------------------------------------
// Answers
// ---------------------------------------------------------------------------
/// What became of the trial cache when it was opened.
#[derive(Clone, Debug, PartialEq, Eq)]
pub enum CacheOutcome {
    Loaded(u64),
    RecoveredFromBackup(u64),
    /// The run differs in these fields.
    FingerprintMismatch(Vec<String>),
    LoadFailed(String),
    Empty,
}

/// What the user is told about the trial cache.
pub fn cache_note(outcome: &CacheOutcome) -> (out: Option<String>)
    ensures
        match *outcome {
            CacheOutcome::Loaded(n) => out matches Some(m) && m@ == "trial cache: "@ + dec(n as nat)
                + " reusable measurement(s)"@,
            CacheOutcome::RecoveredFromBackup(n) => out matches Some(m) && m@ == "trial cache: "@
                + dec(n as nat) + " measurement(s) recovered from the backup copy"@,
            CacheOutcome::FingerprintMismatch(fields) => out matches Some(m) && m@
                == "trial cache: starting fresh — the run differs in "@ + joined(
                views(fields@),
                ", "@,
            ),
            CacheOutcome::LoadFailed(e) => out matches Some(m) && m@
                == "trial cache: starting fresh — the file did not parse ("@ + e@ + ")"@,
            CacheOutcome::Empty => out is None,
        },
{
    match outcome {
        CacheOutcome::Loaded(n) => {
            let mut m: String = "trial cache: ".to_string();
            m.append(dec_u64(*n).as_str());
            m.append(" reusable measurement(s)");
            Some(m)
        },
        CacheOutcome::RecoveredFromBackup(n) => {
            let mut m: String = "trial cache: ".to_string();
            m.append(dec_u64(*n).as_str());
            m.append(" measurement(s) recovered from the backup copy");
            Some(m)
        },
        CacheOutcome::FingerprintMismatch(fields) => {
            let mut m: String = "trial cache: starting fresh — the run differs in ".to_string();
            m.append(join(fields, ", ").as_str());
            Some(m)
        },
        CacheOutcome::LoadFailed(e) => {
            let mut m: String =
                "trial cache: starting fresh — the file did not parse (".to_string();
            m.append(e.as_str());
            m.append(")");
            Some(m)
        },
        CacheOutcome::Empty => None,
    }
}

/// Why a tuning run has no winner.
pub fn no_winner(last_failure: &Option<String>, manifest_path: &str) -> (out: String)
    ensures
        out@ == "no candidate produced and passed a usable measurement"@ + (match *last_failure {
            Some(f) => "; last outcome: "@ + f@,
            None => seq![],
        }) + "; diagnostics: "@ + manifest_path@,
{
    let mut m: String = "no candidate produced and passed a usable measurement".to_string();
    let ghost start = m@;
    match last_failure {
        Some(f) => {
            m.append("; last outcome: ");
            m.append(f.as_str());
            assert(m@ =~= start + ("; last outcome: "@ + f@));
        },
        None => {
            assert(m@ =~= start + seq![]);
        },
    }
    m.append("; diagnostics: ");
    m.append(manifest_path);
    m
}

/// What a tuning run found.
#[derive(Debug, PartialEq, Eq)]
pub struct FindBestResult {
    pub model: String,
    pub context: String,
    pub mode: String,
    /// The node of the selected score.
    pub score: Json,
    pub signature: String,
    pub trials: u64,
    pub verified: bool,
    pub beam_width: u64,
    pub diagnostics: String,
    /// How much of the balanced discount actually fired.
    pub confidence: Json,
    /// The probes that were not available.
    pub missing_telemetry: Json,
    /// Where the winner was saved, if it was.
    pub saved: Option<String>,
}

/// The document of what a tuning run found.
pub open spec fn findbest_document(r: FindBestResult) -> JsonV {
    JsonV::Object(
        seq![
            ("model"@, JsonV::Text(r.model@)),
            ("context"@, JsonV::Text(r.context@)),
            ("mode"@, JsonV::Text(r.mode@)),
            ("score"@, r.score@),
            ("signature"@, JsonV::Text(r.signature@)),
            ("trials"@, JsonV::Unsigned(r.trials)),
            ("verified"@, JsonV::Bool(r.verified)),
            ("search_strategy"@, JsonV::Text("beam"@)),
            ("beam_width"@, JsonV::Unsigned(r.beam_width)),
            ("diagnostics"@, JsonV::Text(r.diagnostics@)),
            ("confidence"@, r.confidence@),
            ("missing_telemetry"@, r.missing_telemetry@),
        ] + match r.saved {
            Some(path) => seq![("saved"@, JsonV::Text(path@))],
            None => seq![],
        },
    )
}

/// The document of what a tuning run found.
pub fn findbest_result(r: FindBestResult) -> (out: Json)
    ensures
        out@ == findbest_document(r),
{
    let ghost document = findbest_document(r);
    let mut members: Vec<Member> = no_members();
    push_member(&mut members, "model", text_node(r.model.as_str()));
    push_member(&mut members, "context", text_node(r.context.as_str()));
    push_member(&mut members, "mode", text_node(r.mode.as_str()));
    push_member(&mut members, "score", r.score.copy());
    push_member(&mut members, "signature", text_node(r.signature.as_str()));
    push_member(&mut members, "trials", Json::Unsigned(r.trials));
    push_member(&mut members, "verified", Json::Bool(r.verified));
    push_member(&mut members, "search_strategy", text_node("beam"));
    push_member(&mut members, "beam_width", Json::Unsigned(r.beam_width));
    push_member(&mut members, "diagnostics", text_node(r.diagnostics.as_str()));
    push_member(&mut members, "confidence", r.confidence.copy());
    push_member(&mut members, "missing_telemetry", r.missing_telemetry.copy());
    match &r.saved {
        Some(path) => push_member(&mut members, "saved", text_node(path.as_str())),
        None => {},
    }
    assert(members_view(members@) =~= document->Object_0);
    object(members)
}

} // verus!

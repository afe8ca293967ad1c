//! The scripted coach: a deterministic client that drives the
//! solver-under-test's serve surface for a coached arm.
//!
//! A coach script is a list of rules, "when this event appears, steer, cancel
//! or answer", so a coached cell is replayable: the same event stream always
//! produces the same interventions.
use vstd::prelude::*;
use vstd::string::StringExecFns;

use crate::json::{json_text, Json};
#[allow(unused_imports)]
use crate::json::{json_of, json_text_of, member, member_text, zero_point, JsonV};
use crate::scorecard::scorecard_text;
#[allow(unused_imports)]
use crate::scorecard::{process_card, rescores};
use crate::solver::{Poll, SolveSpec};
#[allow(unused_imports)]
use crate::solver::{cell_text, maybe_text};
use crate::text::{dec_u64, is_blank, str_contains};
#[allow(unused_imports)]
use crate::text::{contains, dec, occurs_at, trimmed, views};

verus! {

// ---------------------------------------------------------------------------
// Scripts
// ---------------------------------------------------------------------------
/// One trigger: an event type, optionally narrowed by a substring of the
/// event's serialized form.
#[derive(Clone, Debug, PartialEq, Eq)]
pub struct RuleTrigger {
    /// The event `type` to match.
    pub event: String,
    /// Additional substring the serialized event must contain.
    pub detail_contains: Option<String>,
}

/// One coach rule. Exactly one of `steer` / `reply` / `cancel` is the action.
#[derive(Clone, Debug, PartialEq, Eq)]
pub struct CoachRule {
    pub on: RuleTrigger,
    /// Steer text injected at the next safe boundary.
    pub steer: Option<String>,
    /// Answer a `permission_ask` (`true` allows, `false` denies).
    pub reply: Option<bool>,
    /// Cancel the running turn.
    pub cancel: bool,
    /// How many times this rule may fire over the whole drive.
    pub max_fires: u32,
}

/// How often a rule that does not say may fire.
pub fn default_max_fires() -> (out: u32)
    ensures
        out == 1,
{
    1
}

/// A versioned coach script.
#[derive(Clone, Debug, PartialEq, Eq)]
pub struct CoachScript {
    pub schema: u32,
    /// The client name reported in the handshake.
    pub client: String,
    pub rules: Vec<CoachRule>,
}

/// The client name of a script that names none.
pub fn default_client() -> (out: String)
    ensures
        out@ == "localbench-coach"@,
{
    "localbench-coach".to_string()
}

/// How many actions a rule has.
pub open spec fn action_count(rule: CoachRule) -> int {
    (if rule.steer is Some {
        1int
    } else {
        0
    }) + (if rule.reply is Some {
        1int
    } else {
        0
    }) + (if rule.cancel {
        1int
    } else {
        0
    })
}

/// What is wrong with the rules from `index` on, if anything is.
pub open spec fn rules_defect(rules: Seq<CoachRule>, index: int) -> Option<Seq<char>>
    decreases rules.len() - index,
{
    if index < 0 || index >= rules.len() {
        None
    } else if action_count(rules[index]) != 1 {
        Some(
            "coach rule "@ + dec(index as nat)
                + " must have exactly one action (steer, reply, or cancel)"@,
        )
    } else if trimmed(rules[index].on.event@).len() == 0 {
        Some("coach rule "@ + dec(index as nat) + " names no event"@)
    } else {
        rules_defect(rules, index + 1)
    }
}

/// What is wrong with a script, if anything is.
pub open spec fn script_defect(script: CoachScript) -> Option<Seq<char>> {
    if script.schema != 1 {
        Some("unsupported coach-script schema "@ + dec(script.schema as nat) + " (expected 1)"@)
    } else {
        rules_defect(script.rules@, 0)
    }
}

/// Validate a coach script, failing loud on anything unusable. The message
/// names the first defect.
pub fn load_coach_script(script: CoachScript) -> (out: Result<CoachScript, String>)
    ensures
        match out {
            Ok(valid) => valid == script && script_defect(script) is None,
            Err(m) => script_defect(script) == Some(m@),
        },
{
    if script.schema != 1 {
        let mut m: String = "unsupported coach-script schema ".to_string();
        m.append(dec_u64(script.schema as u64).as_str());
        m.append(" (expected 1)");
        return Err(m);
    }
    let mut index: usize = 0;
    while index < script.rules.len()
        invariant
            index <= script.rules.len(),
            script.schema == 1,
            script_defect(script) == rules_defect(script.rules@, index as int),
        decreases script.rules.len() - index,
    {
        let rule: &CoachRule = &script.rules[index];
        let mut actions: u32 = 0;
        if rule.steer.is_some() {
            actions = actions + 1;
        }
        if rule.reply.is_some() {
            actions = actions + 1;
        }
        if rule.cancel {
            actions = actions + 1;
        }
        let mut m: String = "coach rule ".to_string();
        m.append(dec_u64(index as u64).as_str());
        if actions != 1 {
            m.append(" must have exactly one action (steer, reply, or cancel)");
            return Err(m);
        }
        if is_blank(rule.on.event.as_str()) {
            m.append(" names no event");
            return Err(m);
        }
        index = index + 1;
    }
    Ok(script)
}

// ---------------------------------------------------------------------------
// The rule engine
// ---------------------------------------------------------------------------
/// One action the engine decided on.
#[derive(Clone, Debug, PartialEq, Eq)]
pub enum CoachAction {
    Steer(String),
    Reply { ask_id: String, allow: bool },
    Cancel,
}

/// An action, mathematically.
pub enum ActionV {
    Steer(Seq<char>),
    Reply(Seq<char>, bool),
    Cancel,
}

impl View for CoachAction {
    type V = ActionV;

    open spec fn view(&self) -> ActionV {
        match self {
            CoachAction::Steer(text) => ActionV::Steer(text@),
            CoachAction::Reply { ask_id, allow } => ActionV::Reply(ask_id@, *allow),
            CoachAction::Cancel => ActionV::Cancel,
        }
    }
}

/// The views of a list of actions.
pub open spec fn action_views(actions: Seq<CoachAction>) -> Seq<ActionV> {
    actions.map_values(|a: CoachAction| a@)
}

/// An event's type; an event without one has the empty type.
pub open spec fn event_type(event: JsonV) -> Seq<char> {
    match member_text(event, "type"@) {
        Some(t) => t,
        None => seq![],
    }
}

/// Whether a rule that has fired `fires` times applies to an event.
pub open spec fn applies(rule: CoachRule, fires: u32, event: JsonV) -> bool {
    &&& fires < rule.max_fires
    &&& rule.on.event@ == event_type(event)
    &&& match rule.on.detail_contains {
        Some(needle) => contains(json_text_of(event), needle@),
        None => true,
    }
}

/// What a rule does about an event: steer, answer the ask that the event
/// carries, or cancel. An answer makes no sense where nothing was asked.
pub open spec fn rule_action(rule: CoachRule, event: JsonV) -> Option<ActionV> {
    match (rule.steer, rule.reply) {
        (Some(text), _) => Some(ActionV::Steer(text@)),
        (None, Some(allow)) => match member_text(event, "ask_id"@) {
            Some(ask_id) => Some(ActionV::Reply(ask_id, allow)),
            None => None,
        },
        (None, None) => Some(ActionV::Cancel),
    }
}

/// What a rule that has fired `fires` times does about an event.
pub open spec fn fired(rule: CoachRule, fires: u32, event: JsonV) -> Option<ActionV> {
    if applies(rule, fires, event) {
        rule_action(rule, event)
    } else {
        None
    }
}

/// The actions of the first `n` rules on an event, in rule order.
pub open spec fn actions_of(rules: Seq<CoachRule>, fires: Seq<u32>, event: JsonV, n: int) -> Seq<
    ActionV,
>
    decreases n,
{
    if n <= 0 {
        seq![]
    } else {
        let front = actions_of(rules, fires, event, n - 1);
        match fired(rules[n - 1], fires[n - 1], event) {
            Some(action) => front.push(action),
            None => front,
        }
    }
}

/// How often each rule has fired after an event.
pub open spec fn fires_after(rules: Seq<CoachRule>, fires: Seq<u32>, event: JsonV) -> Seq<u32> {
    Seq::new(
        fires.len(),
        |i: int|
            if fired(rules[i], fires[i], event) is Some {
                (fires[i] + 1) as u32
            } else {
                fires[i]
            },
    )
}

/// The deterministic rule engine: same event sequence in, same actions out.
pub struct CoachEngine {
    script: CoachScript,
    fires: Vec<u32>,
}

impl CoachEngine {
    /// The script.
    pub closed spec fn script(self) -> CoachScript {
        self.script
    }

    /// How often each rule has fired.
    pub closed spec fn fires(self) -> Seq<u32> {
        self.fires@
    }

    /// Every rule is counted, and none beyond its bound.
    pub open spec fn well_formed(self) -> bool {
        within_bounds(self.script().rules@, self.fires())
    }

    /// An engine whose rules have not fired.
    pub fn new(script: CoachScript) -> (out: Self)
        ensures
            out.script() == script,
            out.fires() == Seq::new(script.rules@.len(), |i: int| 0u32),
            out.well_formed(),
    {
        let mut fires: Vec<u32> = Vec::new();
        let mut i: usize = 0;
        while i < script.rules.len()
            invariant
                i <= script.rules.len(),
                fires@ =~= Seq::new(i as nat, |k: int| 0u32),
            decreases script.rules.len() - i,
        {
            fires.push(0);
            i = i + 1;
        }
        CoachEngine { script, fires }
    }

    /// The actions the script takes on one event, in rule order.
    pub fn on_event(&mut self, event: &Json) -> (out: Vec<CoachAction>)
        requires
            old(self).well_formed(),
        ensures
            final(self).well_formed(),
            final(self).script() == old(self).script(),
            action_views(out@) == actions_of(
                old(self).script().rules@,
                old(self).fires(),
                event@,
                old(self).script().rules@.len() as int,
            ),
            final(self).fires() == fires_after(
                old(self).script().rules@,
                old(self).fires(),
                event@,
            ),
    {
        let ghost rules = self.script.rules@;
        let ghost before = self.fires@;
        let kind: String = match event.text_at("type") {
            Some(t) => t,
            None => String::new(),
        };
        assert(kind@ =~= event_type(event@));
        let serialized: String = json_text(event);
        let mut actions: Vec<CoachAction> = Vec::new();
        let mut index: usize = 0;
        assert(action_views(actions@) =~= seq![]);
        while index < self.script.rules.len()
            invariant
                index <= self.script.rules.len(),
                self.script == old(self).script,
                rules == self.script.rules@,
                before == old(self).fires@,
                before.len() == rules.len(),
                within_bounds(rules, before),
                kind@ == event_type(event@),
                serialized@ == json_text_of(event@),
                self.fires@.len() == before.len(),
                forall|k: int|
                    0 <= k < index ==> #[trigger] self.fires@[k] == fires_after(
                        rules,
                        before,
                        event@,
                    )[k],
                forall|k: int| index <= k < before.len() ==> #[trigger] self.fires@[k] == before[k],
                action_views(actions@) == actions_of(rules, before, event@, index as int),
            decreases self.script.rules.len() - index,
        {
            let rule: &CoachRule = &self.script.rules[index];
            let narrowed: bool = match &rule.on.detail_contains {
                Some(needle) => str_contains(serialized.as_str(), needle.as_str()),
                None => true,
            };
            let applicable: bool = self.fires[index] < rule.max_fires && rule.on.event == kind
                && narrowed;
            assert(applicable == applies(rules[index as int], before[index as int], event@));
            let mut action: Option<CoachAction> = None;
            if applicable {
                match (&rule.steer, rule.reply) {
                    (Some(text), _) => {
                        action = Some(CoachAction::Steer(text.clone()));
                    },
                    (None, Some(allow)) => {
                        match event.text_at("ask_id") {
                            Some(ask_id) => {
                                action = Some(CoachAction::Reply { ask_id, allow });
                            },
                            None => {},
                        }
                    },
                    (None, None) => {
                        action = Some(CoachAction::Cancel);
                    },
                }
            }
            let ghost was = action_views(actions@);
            match action {
                Some(a) => {
                    let count: u32 = self.fires[index];
                    self.fires.set(index, count + 1);
                    actions.push(a);
                    assert(action_views(actions@) =~= was.push(a@));
                },
                None => {},
            }
            index = index + 1;
        }
        assert(self.fires@ =~= fires_after(rules, before, event@));
        proof {
            law_no_rule_fires_beyond_its_bound(rules, before, event@);
        }
        actions
    }
}

/// Every rule is counted, and none beyond its bound.
pub open spec fn within_bounds(rules: Seq<CoachRule>, fires: Seq<u32>) -> bool {
    &&& fires.len() == rules.len()
    &&& forall|i: int| 0 <= i < rules.len() ==> #[trigger] fires[i] <= rules[i].max_fires
}

/// No event makes a rule fire beyond its bound.
pub proof fn law_no_rule_fires_beyond_its_bound(rules: Seq<CoachRule>, fires: Seq<u32>, event: JsonV)
    requires
        within_bounds(rules, fires),
    ensures
        within_bounds(rules, fires_after(rules, fires, event)),
{
    let next = fires_after(rules, fires, event);
    assert forall|i: int| 0 <= i < rules.len() implies #[trigger] next[i] <= rules[i].max_fires by {
        assert(fires[i] <= rules[i].max_fires);
    }
}

/// The actions of the first rules stand in front of those of all of them.
proof fn lemma_earlier_actions_stay(
    rules: Seq<CoachRule>,
    fires: Seq<u32>,
    event: JsonV,
    n: int,
    m: int,
)
    requires
        0 <= n <= m,
    ensures
        ({
            let some = actions_of(rules, fires, event, n);
            let all = actions_of(rules, fires, event, m);
            &&& some.len() <= all.len()
            &&& forall|k: int| 0 <= k < some.len() ==> #[trigger] all[k] == some[k]
        }),
    decreases m - n,
{
    if n < m {
        lemma_earlier_actions_stay(rules, fires, event, n, m - 1);
    }
}

/// A rule that may still fire, on an event of its type that holds its text,
/// takes its own action and no other: a steer carries the rule's own words, a
/// reply carries the event's ask and the rule's own answer, whichever it is,
/// and a rule with neither cancels. The action follows those of the rules
/// before it, and the rule has fired once more.
pub proof fn law_a_rule_takes_its_own_action(
    rules: Seq<CoachRule>,
    fires: Seq<u32>,
    event: JsonV,
    i: int,
)
    requires
        within_bounds(rules, fires),
        0 <= i < rules.len(),
        fires[i] < rules[i].max_fires,
        member(event, "type"@) == Some(JsonV::Text(rules[i].on.event@)),
        rules[i].on.detail_contains matches Some(needle) ==> exists|at: int|
            0 <= at <= json_text_of(event).len() - needle@.len()
                && #[trigger] json_text_of(event).subrange(
                at,
                at + needle@.len(),
            ) == needle@,
    ensures
        ({
            let before = actions_of(rules, fires, event, i).len() as int;
            let after = actions_of(rules, fires, event, i + 1);
            let all = actions_of(rules, fires, event, rules.len() as int);
            &&& rules[i].steer matches Some(words) ==> {
                &&& before < all.len() && after.len() == before + 1
                &&& all[before] == ActionV::Steer(words@)
                &&& fires_after(rules, fires, event)[i] == fires[i] + 1
            }
            &&& rules[i].steer is None ==> (rules[i].reply matches Some(allow) ==> (match member(
                event,
                "ask_id"@,
            ) {
                Some(JsonV::Text(ask)) => {
                    &&& before < all.len() && after.len() == before + 1
                    &&& all[before] == ActionV::Reply(ask, allow)
                    &&& fires_after(rules, fires, event)[i] == fires[i] + 1
                },
                _ => after.len() == before && fires_after(rules, fires, event)[i] == fires[i],
            }))
            &&& rules[i].steer is None && rules[i].reply is None ==> {
                &&& before < all.len() && after.len() == before + 1
                &&& all[before] == ActionV::Cancel
                &&& fires_after(rules, fires, event)[i] == fires[i] + 1
            }
        }),
{
    match rules[i].on.detail_contains {
        Some(needle) => {
            let hay = json_text_of(event);
            let at = choose|at: int|
                0 <= at <= hay.len() - needle@.len() && #[trigger] hay.subrange(
                    at,
                    at + needle@.len(),
                ) == needle@;
            assert(occurs_at(hay, needle@, at));
        },
        None => {},
    }
    lemma_earlier_actions_stay(rules, fires, event, i + 1, rules.len() as int);
}

/// A rule that is spent, or meets an event of another type, or misses its text
/// in the event, does nothing and does not count as having fired.
pub proof fn law_a_rule_that_does_not_apply_is_silent(
    rules: Seq<CoachRule>,
    fires: Seq<u32>,
    event: JsonV,
    i: int,
)
    requires
        within_bounds(rules, fires),
        0 <= i < rules.len(),
        ({
            ||| fires[i] == rules[i].max_fires
            ||| (member(event, "type"@) matches Some(JsonV::Text(kind)) && kind
                != rules[i].on.event@)
            ||| (!(member(event, "type"@) matches Some(JsonV::Text(_))) && rules[i].on.event@.len()
                > 0)
            ||| (rules[i].on.detail_contains matches Some(needle) && forall|at: int|
                0 <= at <= json_text_of(event).len() - needle@.len()
                    ==> #[trigger] json_text_of(event).subrange(at, at + needle@.len()) != needle@)
        }),
    ensures
        actions_of(rules, fires, event, i + 1) == actions_of(rules, fires, event, i),
        fires_after(rules, fires, event)[i] == fires[i],
{
    match rules[i].on.detail_contains {
        Some(needle) => {
            let hay = json_text_of(event);
            if contains(hay, needle@) {
                let at = choose|at: int| occurs_at(hay, needle@, at);
                assert(hay.subrange(at, at + needle@.len()) == needle@);
            }
        },
        None => {},
    }
}

/// How often the rules have fired after a whole event stream.
pub open spec fn fires_over(rules: Seq<CoachRule>, events: Seq<JsonV>) -> Seq<u32>
    decreases events.len(),
{
    if events.len() == 0 {
        Seq::new(rules.len(), |i: int| 0u32)
    } else {
        fires_after(rules, fires_over(rules, events.drop_last()), events.last())
    }
}

/// The actions over a whole event stream.
pub open spec fn actions_over(rules: Seq<CoachRule>, events: Seq<JsonV>) -> Seq<ActionV>
    decreases events.len(),
{
    if events.len() == 0 {
        seq![]
    } else {
        actions_over(rules, events.drop_last()) + actions_of(
            rules,
            fires_over(rules, events.drop_last()),
            events.last(),
            rules.len() as int,
        )
    }
}

/// The sum of the first `n` counts.
pub open spec fn total(fires: Seq<u32>, n: int) -> int
    decreases n,
{
    if n <= 0 {
        0
    } else {
        total(fires, n - 1) + fires[n - 1]
    }
}

/// An event's actions are as many as the firings it adds.
pub proof fn lemma_actions_are_counted(rules: Seq<CoachRule>, fires: Seq<u32>, event: JsonV, n: int)
    requires
        within_bounds(rules, fires),
        0 <= n <= rules.len(),
    ensures
        actions_of(rules, fires, event, n).len() == total(fires_after(rules, fires, event), n)
            - total(fires, n),
    decreases n,
{
    if n > 0 {
        lemma_actions_are_counted(rules, fires, event, n - 1);
        assert(fires[n - 1] <= rules[n - 1].max_fires);
    }
}

/// Over a whole drive the script intervenes exactly as often as its rules
/// fired, and no rule fires more often than it may.
pub proof fn law_interventions_are_bounded(rules: Seq<CoachRule>, events: Seq<JsonV>)
    ensures
        within_bounds(rules, fires_over(rules, events)),
        actions_over(rules, events).len() == total(fires_over(rules, events), rules.len() as int),
    decreases events.len(),
{
    let n = rules.len() as int;
    if events.len() == 0 {
        lemma_total_of_zeros(fires_over(rules, events), n);
    } else {
        let front = events.drop_last();
        law_interventions_are_bounded(rules, front);
        law_no_rule_fires_beyond_its_bound(rules, fires_over(rules, front), events.last());
        lemma_actions_are_counted(rules, fires_over(rules, front), events.last(), n);
    }
}

/// Rules that have not fired add up to nothing.
pub proof fn lemma_total_of_zeros(fires: Seq<u32>, n: int)
    requires
        0 <= n <= fires.len(),
        forall|i: int| 0 <= i < fires.len() ==> #[trigger] fires[i] == 0,
    ensures
        total(fires, n) == 0,
    decreases n,
{
    if n > 0 {
        lemma_total_of_zeros(fires, n - 1);
    }
}

// ---------------------------------------------------------------------------
// Around the drive
// ---------------------------------------------------------------------------
/// What one coached drive observed.
#[derive(Clone, Debug, PartialEq, Eq)]
pub struct DriveObservation {
    pub tool_calls: u32,
    pub interventions: u32,
    pub exit_reason: String,
}

/// The synthesized scorecard for a coached drive: process facts the drive
/// observed, everything else zero or false.
pub fn coached_scorecard(spec: &SolveSpec, observation: &DriveObservation, wall_ms: u64) -> (out:
    String)
    ensures
        out@ == json_text_of(
            process_card(
                spec.task@,
                spec.arm@,
                spec.model@,
                observation.tool_calls as u64,
                observation.exit_reason@,
                observation.interventions as u64,
                wall_ms,
            ),
        ),
        json_of(out@) is Some,
        rescores(out@, false),
        zero_point() is Float,
{
    scorecard_text(
        spec.task.as_str(),
        spec.arm.as_str(),
        spec.model.as_str(),
        observation.tool_calls as u64,
        observation.exit_reason.as_str(),
        observation.interventions as u64,
        wall_ms,
    )
}

/// The argv for the coached serve child.
pub fn serve_args(spec: &SolveSpec) -> (out: Vec<String>)
    ensures
        views(out@) == seq![
            "mcp"@,
            "serve"@,
            "--model"@,
            spec.model@,
            "--permission"@,
            spec.permission@,
        ],
{
    let mut argv: Vec<String> = Vec::new();
    argv.push("mcp".to_string());
    argv.push("serve".to_string());
    argv.push("--model".to_string());
    argv.push(spec.model.clone());
    argv.push("--permission".to_string());
    argv.push(spec.permission.clone());
    assert(views(argv@) =~= seq![
        "mcp"@,
        "serve"@,
        "--model"@,
        spec.model@,
        "--permission"@,
        spec.permission@,
    ]);
    argv
}

/// What the watchdog of a coached child does next.
#[derive(Clone, Debug, PartialEq, Eq)]
pub enum Watch {
    /// The cell's time is up: end the process tree.
    Expire,
    /// The child is done, or cannot be watched, and why.
    Done(Option<String>),
    /// Look again after a pause.
    Again,
}

/// What the watchdog does after a look at the child: the bound comes first.
pub fn watchdog_next(expired: bool, poll: Poll) -> (out: Watch)
    ensures
        expired ==> out == Watch::Expire,
        !expired ==> match poll {
            Poll::Exited(_) => out matches Watch::Done(d) && d is None,
            Poll::Running => out == Watch::Again,
            Poll::Failed(error) => out matches Watch::Done(Some(m)) && m@
                == "coached process watchdog wait failed: "@ + error@,
        },
{
    if expired {
        return Watch::Expire;
    }
    match poll {
        Poll::Exited(_) => Watch::Done(None),
        Poll::Running => Watch::Again,
        Poll::Failed(error) => {
            let mut m: String = "coached process watchdog wait failed: ".to_string();
            m.append(error.as_str());
            Watch::Done(Some(m))
        },
    }
}

/// What a reader that tails a growing file does after a read.
#[derive(Clone, Copy, Debug, PartialEq, Eq, Structural)]
pub enum Tail {
    /// Hand the bytes on.
    Deliver,
    /// There will be no more.
    End,
    /// There may be more: look again after a pause.
    Again,
}

/// What a tailing reader does after reading `length` bytes: an empty read ends
/// the stream only once the process is done or the deadline has passed.
pub fn tail_next(length: usize, process_done: bool, expired: bool) -> (out: Tail)
    ensures
        out == (if length > 0 {
            Tail::Deliver
        } else if process_done || expired {
            Tail::End
        } else {
            Tail::Again
        }),
{
    if length > 0 {
        Tail::Deliver
    } else if process_done || expired {
        Tail::End
    } else {
        Tail::Again
    }
}

/// What is left of a coached cell once its process is gone.
#[derive(Clone, Debug, PartialEq, Eq)]
pub struct CoachedEnd {
    /// The cell's bound expired.
    pub timed_out: bool,
    /// What ending the process left to say.
    pub cleanup_diagnostic: Option<String>,
    pub wall_ms: u64,
}

/// `<lead><text>`, or nothing where there is no text.
pub open spec fn lead(prefix: Seq<char>, text: Option<Seq<char>>) -> Seq<char> {
    match text {
        Some(t) => prefix + t,
        None => seq![],
    }
}

fn append_lead(out: &mut String, prefix: &str, text: &Option<String>)
    ensures
        final(out)@ == old(out)@ + lead(prefix@, maybe_text(*text)),
{
    match text {
        Some(t) => {
            out.append(prefix);
            out.append(t.as_str());
            assert(out@ =~= old(out)@ + (prefix@ + t@));
        },
        None => {
            assert(out@ =~= old(out)@ + seq![]);
        },
    }
}

/// Why a coached cell failed, if it did: its bound expired, or its process's
/// end is uncertain, or the drive failed.
pub open spec fn coached_failure(
    spec: SolveSpec,
    timeout_secs: nat,
    drive_error: Option<Seq<char>>,
    end: CoachedEnd,
) -> Option<Seq<char>> {
    let cleanup = maybe_text(end.cleanup_diagnostic);
    if end.timed_out {
        Some(
            "coached drive timed out after "@ + dec(timeout_secs) + "s"@ + cell_text(spec) + lead(
                "; drive: "@,
                drive_error,
            ) + lead("; cleanup: "@, cleanup),
        )
    } else {
        match (drive_error, cleanup) {
            (None, Some(d)) => Some(
                "coached drive completed but process completion is uncertain"@ + cell_text(spec)
                    + ": "@ + d,
            ),
            (Some(reason), _) => Some(
                "coached drive failed"@ + cell_text(spec) + ": "@ + reason + lead("; "@, cleanup),
            ),
            (None, None) => None,
        }
    }
}

/// A coached cell's scorecard, or why it failed.
pub fn drive_coached(
    spec: &SolveSpec,
    timeout_secs: u64,
    outcome: Result<DriveObservation, String>,
    end: &CoachedEnd,
) -> (out: Result<String, String>)
    ensures
        ({
            let error = match outcome {
                Ok(_) => None,
                Err(m) => Some(m@),
            };
            match out {
                Ok(card) => coached_failure(*spec, timeout_secs as nat, error, *end) is None && (
                outcome matches Ok(o) && card@ == json_text_of(
                    process_card(
                        spec.task@,
                        spec.arm@,
                        spec.model@,
                        o.tool_calls as u64,
                        o.exit_reason@,
                        o.interventions as u64,
                        end.wall_ms,
                    ),
                )),
                Err(m) => coached_failure(*spec, timeout_secs as nat, error, *end) == Some(m@),
            }
        }),
{
    let mut cell: String = " (arm '".to_string();
    cell.append(spec.arm.as_str());
    cell.append("', task '");
    cell.append(spec.task.as_str());
    cell.append("')");
    if end.timed_out {
        let mut m: String = "coached drive timed out after ".to_string();
        m.append(dec_u64(timeout_secs).as_str());
        m.append("s");
        m.append(cell.as_str());
        let error: Option<String> = match outcome {
            Ok(_) => None,
            Err(reason) => Some(reason),
        };
        append_lead(&mut m, "; drive: ", &error);
        append_lead(&mut m, "; cleanup: ", &end.cleanup_diagnostic);
        return Err(m);
    }
    match outcome {
        Ok(observation) => {
            match &end.cleanup_diagnostic {
                Some(d) => {
                    let mut m: String = "coached drive completed but process completion is uncertain".to_string();
                    m.append(cell.as_str());
                    m.append(": ");
                    m.append(d.as_str());
                    Err(m)
                },
                None => Ok(coached_scorecard(spec, &observation, end.wall_ms)),
            }
        },
        Err(reason) => {
            let mut m: String = "coached drive failed".to_string();
            m.append(cell.as_str());
            m.append(": ");
            m.append(reason.as_str());
            append_lead(&mut m, "; ", &end.cleanup_diagnostic);
            Err(m)
        },
    }
}

} // verus!

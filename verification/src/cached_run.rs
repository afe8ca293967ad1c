//! A trial through the persistent cache: consult it before measuring, record
//! the evidence first, and store a decisive result after.
//!
//! The run decides; its driver looks up, measures, appends and saves.
use vstd::prelude::*;
use vstd::string::StringExecFns;

use crate::json::{no_members, push_member, Member};
#[allow(unused_imports)]
use crate::json::members_view;
use crate::text::{copy_strings, copy_text};
use crate::trial::TrialFailure;
use crate::trial_run::{blank, Trial, TrialDiagnosticRef};
#[allow(unused_imports)]
use crate::trial_run::{blank_trial, DiagnosticV, TrialV};

verus! {

// ---------------------------------------------------------------------------
// Trials that may be reused
// ---------------------------------------------------------------------------
/// A trial without its run-scoped evidence: that belongs to the attempt that
/// measured it.
pub open spec fn scrubbed(trial: TrialV) -> TrialV {
    TrialV { diagnostic: None, diagnostic_excerpt: seq![], process_status: None, ..trial }
}

fn copy_members(members: &Vec<Member>) -> (out: Vec<Member>)
    ensures
        members_view(out@) == members_view(members@),
{
    let ghost all = members_view(members@);
    let mut out: Vec<Member> = no_members();
    let mut i: usize = 0;
    assert(members_view(out@) =~= all.take(0));
    while i < members.len()
        invariant
            i <= members.len(),
            all == members_view(members@),
            members_view(out@) == all.take(i as int),
        decreases members.len() - i,
    {
        assert(all[i as int] == (members@[i as int].name@, members@[i as int].value@));
        assert(all.take(i + 1) =~= all.take(i as int).push(all[i as int]));
        push_member(&mut out, members[i].name.as_str(), members[i].value.copy());
        i = i + 1;
    }
    assert(all.take(i as int) =~= all);
    out
}

/// A copy of a trial.
pub fn copy_trial(trial: &Trial) -> (out: Trial)
    ensures
        out@ == trial@,
{
    Trial {
        startup_ok: trial.startup_ok,
        oom: trial.oom,
        startup_failure: trial.startup_failure,
        measurement_usable: trial.measurement_usable,
        failure: match &trial.failure {
            Some(f) => Some(
                TrialFailure { stage: f.stage, reason: f.reason, detail: f.detail.clone() },
            ),
            None => None,
        },
        pp_tps: copy_text(&trial.pp_tps),
        tg_tps: copy_text(&trial.tg_tps),
        variance: copy_text(&trial.variance),
        process_status: trial.process_status,
        diagnostic_excerpt: trial.diagnostic_excerpt.clone(),
        diagnostic: match &trial.diagnostic {
            Some(d) => Some(
                TrialDiagnosticRef {
                    attempt_id: d.attempt_id.clone(),
                    manifest_path: d.manifest_path.clone(),
                    log_path: d.log_path.clone(),
                },
            ),
            None => None,
        },
        observed_configuration: copy_members(&trial.observed_configuration),
        launch_args: copy_strings(&trial.launch_args),
        advisory_observations: copy_strings(&trial.advisory_observations),
    }
}

/// A trial without its run-scoped evidence.
pub fn reusable_trial(trial: &Trial) -> (out: Trial)
    ensures
        out@ == scrubbed(trial@),
{
    let mut out: Trial = copy_trial(trial);
    let nothing: String = String::new();
    assert(nothing@ =~= seq![]);
    out.diagnostic = None;
    out.diagnostic_excerpt = nothing;
    out.process_status = None;
    out
}

/// Where the evidence of a trial is, in words.
pub open spec fn evidence_note(diagnostic: Option<DiagnosticV>) -> Seq<char> {
    match diagnostic {
        None => seq![],
        Some(d) => {
            let evidence = if d.log_path.len() == 0 {
                d.manifest_path
            } else {
                d.log_path
            };
            if evidence.len() == 0 {
                seq![]
            } else {
                " (evidence: "@ + evidence + ")"@
            }
        },
    }
}

/// The summary of the final attempt, if it failed: the typed failure's own,
/// and where the evidence is.
pub fn last_failure_summary(last_trial: &Option<Trial>, summary: &str) -> (out: Option<String>)
    ensures
        match out {
            Some(m) => *last_trial matches Some(t) && t@.failure is Some && m@ == summary@
                + evidence_note(t@.diagnostic),
            None => *last_trial matches Some(t) ==> t@.failure is None,
        },
{
    match last_trial {
        None => None,
        Some(trial) => {
            if trial.failure.is_none() {
                return None;
            }
            let mut m: String = summary.to_string();
            let ghost start = m@;
            match &trial.diagnostic {
                None => {},
                Some(d) => {
                    let evidence: &String = if d.log_path.as_str().is_empty() {
                        &d.manifest_path
                    } else {
                        &d.log_path
                    };
                    if !evidence.as_str().is_empty() {
                        m.append(" (evidence: ");
                        m.append(evidence.as_str());
                        m.append(")");
                        assert(m@ =~= start + (" (evidence: "@ + evidence@ + ")"@));
                    }
                },
            }
            assert(m@ =~= start + evidence_note(trial@.diagnostic));
            Some(m)
        },
    }
}

// ---------------------------------------------------------------------------
// Vocabulary
// ---------------------------------------------------------------------------
/// Where a cached trial stands: what it waits for.
#[derive(Clone, Copy, Debug, PartialEq, Eq, Structural)]
pub enum CachedStage {
    Start,
    Lookup,
    RecordHit,
    Measure,
    RecordLive,
    Put,
    Save,
    Finished,
}

/// What a cached trial asks of its driver.
#[derive(Debug, PartialEq, Eq)]
pub enum CachedAsk {
    Proceed,
    /// Look the candidate up.
    Lookup,
    /// Measure the candidate.
    Measure,
    /// Record this trial in the ledger, as coming from here.
    Record(Trial, String),
    /// Store this trial, with these facts: out of memory, started, usable.
    Put(Trial, bool, bool, bool),
    /// Save the cache.
    Save,
    Finished,
}

/// A question, mathematically.
pub enum CachedAskV {
    Proceed,
    Lookup,
    Measure,
    Record(TrialV, Seq<char>),
    Put(TrialV, bool, bool, bool),
    Save,
    Finished,
}

impl View for CachedAsk {
    type V = CachedAskV;

    open spec fn view(&self) -> CachedAskV {
        match self {
            CachedAsk::Proceed => CachedAskV::Proceed,
            CachedAsk::Lookup => CachedAskV::Lookup,
            CachedAsk::Measure => CachedAskV::Measure,
            CachedAsk::Record(trial, source) => CachedAskV::Record(trial@, source@),
            CachedAsk::Put(trial, oom, started, usable) => CachedAskV::Put(
                trial@,
                *oom,
                *started,
                *usable,
            ),
            CachedAsk::Save => CachedAskV::Save,
            CachedAsk::Finished => CachedAskV::Finished,
        }
    }
}

/// What a driver replies.
#[derive(Debug, PartialEq, Eq)]
pub enum CachedReply {
    Proceed,
    /// The cached trial, if there is one that reads.
    Cached(Option<Trial>),
    Measured(Trial),
    /// The trial as the ledger has it.
    Recorded(Trial),
    /// The result was decisive and is in the cache.
    Stored(bool),
    Saved,
}

// ---------------------------------------------------------------------------
// The model
// ---------------------------------------------------------------------------
/// A cached trial in progress, mathematically.
#[verifier::ext_equal]
pub struct CachedV {
    pub at: CachedStage,
    pub trial: Option<TrialV>,
    /// What may be reused of a measured trial.
    pub reusable: TrialV,
    /// The evidence of the attempt is in the ledger.
    pub evidenced: bool,
    /// The trial was measured, not looked up.
    pub measured: bool,
}

/// The cached trial before its first transition.
pub open spec fn cached_start() -> CachedV {
    CachedV {
        at: CachedStage::Start,
        trial: None,
        reusable: blank_trial(),
        evidenced: false,
        measured: false,
    }
}

/// One transition. A reply that answers no question changes nothing.
pub open spec fn cached_step(s: CachedV, reply: CachedReply) -> (CachedV, CachedAskV) {
    match (s.at, reply) {
        (CachedStage::Start, CachedReply::Proceed) => (
            CachedV { at: CachedStage::Lookup, ..s },
            CachedAskV::Lookup,
        ),
        (CachedStage::Lookup, CachedReply::Cached(Some(trial))) => (
            CachedV { at: CachedStage::RecordHit, ..s },
            CachedAskV::Record(scrubbed(trial@), "cache"@),
        ),
        (CachedStage::Lookup, CachedReply::Cached(None)) => (
            CachedV { at: CachedStage::Measure, ..s },
            CachedAskV::Measure,
        ),
        (CachedStage::RecordHit, CachedReply::Recorded(trial)) => (
            CachedV {
                trial: Some(trial@),
                evidenced: true,
                at: CachedStage::Finished,
                ..s
            },
            CachedAskV::Finished,
        ),
        (CachedStage::Measure, CachedReply::Measured(trial)) => (
            CachedV {
                reusable: scrubbed(trial@),
                measured: true,
                at: CachedStage::RecordLive,
                ..s
            },
            CachedAskV::Record(trial@, "live"@),
        ),
        (CachedStage::RecordLive, CachedReply::Recorded(trial)) => (
            CachedV { trial: Some(trial@), evidenced: true, at: CachedStage::Put, ..s },
            CachedAskV::Put(
                s.reusable,
                trial@.oom,
                trial@.startup_ok,
                trial@.measurement_usable,
            ),
        ),
        (CachedStage::Put, CachedReply::Stored(stored)) => if stored {
            (CachedV { at: CachedStage::Save, ..s }, CachedAskV::Save)
        } else {
            (CachedV { at: CachedStage::Finished, ..s }, CachedAskV::Finished)
        },
        (CachedStage::Save, CachedReply::Saved) => (
            CachedV { at: CachedStage::Finished, ..s },
            CachedAskV::Finished,
        ),
        _ => (s, CachedAskV::Proceed),
    }
}

// ---------------------------------------------------------------------------
// Laws
// ---------------------------------------------------------------------------
/// What holds of every cached trial.
pub open spec fn cached_sound(s: CachedV) -> bool {
    &&& s.at is Put || s.at is Save || s.at is Finished ==> s.evidenced && s.trial is Some
    &&& s.at is RecordLive || s.at is Put || s.at is Save ==> s.measured
    &&& s.at is RecordHit || s.at is Lookup || s.at is Start || s.at is Measure ==> !s.measured
    &&& s.reusable.diagnostic is None && s.reusable.diagnostic_excerpt.len() == 0
        && s.reusable.process_status is None
}

/// Evidence is the first durable write for an attempt: nothing is put into the
/// cache before the ledger has it, only a measured trial is put there, and
/// what is put there carries no run-scoped evidence.
pub proof fn law_evidence_comes_before_the_cache(s: CachedV, reply: CachedReply)
    requires
        cached_sound(s),
    ensures
        cached_sound(cached_step(s, reply).0),
        cached_step(s, reply).1 matches CachedAskV::Put(trial, _, _, _) ==> {
            &&& cached_step(s, reply).0.evidenced
            &&& cached_step(s, reply).0.measured
            &&& trial.diagnostic is None && trial.diagnostic_excerpt.len() == 0
                && trial.process_status is None
        },
        s.at is Lookup && (reply matches CachedReply::Cached(Some(_))) ==> {
            let (t, ask) = cached_step(s, reply);
            &&& t.at is RecordHit
            &&& ask matches CachedAskV::Record(trial, source) && trial.diagnostic is None
                && source == "cache"@
        },
{
}

/// What may be reused of a trial is everything that was measured of the
/// configuration, and nothing of the attempt that measured it.
pub proof fn law_reuse_keeps_what_was_measured(trial: TrialV)
    ensures
        ({
            let kept = scrubbed(trial);
            &&& kept.startup_ok == trial.startup_ok && kept.oom == trial.oom
            &&& kept.startup_failure == trial.startup_failure && kept.failure == trial.failure
            &&& kept.measurement_usable == trial.measurement_usable
            &&& kept.pp_tps == trial.pp_tps && kept.tg_tps == trial.tg_tps && kept.variance
                == trial.variance
            &&& kept.observed == trial.observed && kept.launch_args == trial.launch_args
                && kept.advisories == trial.advisories
            &&& kept.diagnostic is None && kept.process_status is None
                && kept.diagnostic_excerpt.len() == 0
        }),
{
}

/// A trial that the cache lacks is measured, recorded as it came and as live,
/// and handed back as the ledger has it; it is offered to the cache with the
/// ledger's own facts, and the cache is saved exactly if it took the trial.
pub proof fn law_a_miss_is_measured_recorded_and_offered(
    s: CachedV,
    live: Trial,
    filed: Trial,
    stored: bool,
)
    requires
        s.at is Lookup,
    ensures
        ({
            let (t1, a1) = cached_step(s, CachedReply::Cached(None));
            let (t2, a2) = cached_step(t1, CachedReply::Measured(live));
            let (t3, a3) = cached_step(t2, CachedReply::Recorded(filed));
            let (t4, a4) = cached_step(t3, CachedReply::Stored(stored));
            let (t5, a5) = cached_step(t4, CachedReply::Saved);
            &&& a1 == CachedAskV::Measure
            &&& a2 == CachedAskV::Record(live@, "live"@)
            &&& a3 matches CachedAskV::Put(offer, oom, started, usable) && oom == filed@.oom
                && started == filed@.startup_ok && usable == filed@.measurement_usable
                && offer.pp_tps == live@.pp_tps && offer.tg_tps == live@.tg_tps && offer.failure
                == live@.failure && offer.oom == live@.oom && offer.startup_ok == live@.startup_ok
            &&& t3.trial == Some(filed@) && t4.trial == Some(filed@)
            &&& stored ==> a4 == CachedAskV::Save && a5 == CachedAskV::Finished && t5.at is Finished
                && t5.trial == Some(filed@)
            &&& !stored ==> a4 == CachedAskV::Finished && t4.at is Finished
        }),
{
}

/// A cached trial begins sound.
pub proof fn law_a_cached_trial_begins_sound()
    ensures
        cached_sound(cached_start()),
{
}

/// The cached trial after a sequence of replies.
pub open spec fn cached_after(replies: Seq<CachedReply>) -> CachedV
    decreases replies.len(),
{
    if replies.len() == 0 {
        cached_start()
    } else {
        cached_step(cached_after(replies.drop_last()), replies.last()).0
    }
}

/// What the last of a sequence of replies is answered with.
pub open spec fn cached_ask(replies: Seq<CachedReply>) -> CachedAskV
    recommends
        replies.len() > 0,
{
    cached_step(cached_after(replies.drop_last()), replies.last()).1
}

/// A trial that the cache holds is not measured: once the lookup has found it,
/// no reply makes the run ask for a measurement.
pub proof fn law_a_hit_is_never_measured(replies: Seq<CachedReply>, n: int)
    requires
        0 <= n < replies.len(),
        cached_after(replies.take(n)).at is Lookup,
        replies[n] matches CachedReply::Cached(Some(_)),
    ensures
        !cached_after(replies).measured,
        !(cached_ask(replies) is Measure),
        !(cached_ask(replies) is Put),
    decreases replies.len(),
{
    lemma_reached_is_sound(replies.take(n));
    lemma_after_a_hit(replies, n);
}

proof fn lemma_reached_is_sound(replies: Seq<CachedReply>)
    ensures
        cached_sound(cached_after(replies)),
    decreases replies.len(),
{
    if replies.len() > 0 {
        lemma_reached_is_sound(replies.drop_last());
        law_evidence_comes_before_the_cache(cached_after(replies.drop_last()), replies.last());
    }
}

proof fn lemma_after_a_hit(replies: Seq<CachedReply>, n: int)
    requires
        0 <= n < replies.len(),
        cached_after(replies.take(n)).at is Lookup,
        !cached_after(replies.take(n)).measured,
        replies[n] matches CachedReply::Cached(Some(_)),
    ensures
        cached_after(replies).at is RecordHit || cached_after(replies).at is Finished,
        !cached_after(replies).measured,
        !(cached_ask(replies) is Measure),
        !(cached_ask(replies) is Put),
    decreases replies.len(),
{
    if n == replies.len() - 1 {
        assert(replies.drop_last() =~= replies.take(n));
    } else {
        assert(replies.drop_last().take(n) =~= replies.take(n));
        lemma_after_a_hit(replies.drop_last(), n);
    }
}

/// A measured trial is handed to the cache without its run-scoped evidence,
/// and comes back so: the next measurement that finds it stored records and
/// returns the same measured values, under evidence of its own, and measures
/// nothing. One that does not find it is measured again.
pub proof fn law_a_stored_trial_comes_back(
    live: Trial,
    filed: Trial,
    stored: Trial,
    refiled: Trial,
)
    requires
        stored@ == scrubbed(live@),
    ensures
        ({
            let proceed = CachedReply::Proceed;
            let first = seq![
                proceed,
                CachedReply::Cached(None),
                CachedReply::Measured(live),
                CachedReply::Recorded(filed),
            ];
            &&& cached_ask(first.take(2)) is Measure
            &&& cached_ask(first) == CachedAskV::Put(
                stored@,
                filed@.oom,
                filed@.startup_ok,
                filed@.measurement_usable,
            )
            &&& cached_after(first).trial == Some(filed@)
        }),
        ({
            let again = seq![
                CachedReply::Proceed,
                CachedReply::Cached(Some(stored)),
                CachedReply::Recorded(refiled),
            ];
            &&& cached_ask(again.take(2)) == CachedAskV::Record(scrubbed(live@), "cache"@)
            &&& cached_after(again).at is Finished
            &&& cached_after(again).trial == Some(refiled@)
            &&& !cached_after(again).measured
            // The ledger sets where the evidence is and nothing else.
            &&& refiled@ == (TrialV { diagnostic: refiled@.diagnostic, ..scrubbed(live@) }) ==> {
                &&& scrubbed(refiled@) == scrubbed(live@)
                &&& refiled@.diagnostic_excerpt == Seq::<char>::empty()
                &&& refiled@.process_status is None
            }
        }),
        cached_ask(seq![CachedReply::Proceed, CachedReply::Cached(None)]) is Measure,
        scrubbed(live@).diagnostic_excerpt == Seq::<char>::empty(),
        scrubbed(live@).process_status is None,
{
    let none = CachedReply::Cached(None);
    let first = seq![
        CachedReply::Proceed,
        none,
        CachedReply::Measured(live),
        CachedReply::Recorded(filed),
    ];
    let again = seq![
        CachedReply::Proceed,
        CachedReply::Cached(Some(stored)),
        CachedReply::Recorded(refiled),
    ];
    reveal_with_fuel(cached_after, 5);
    assert(first.take(2) =~= seq![CachedReply::Proceed, none]);
    assert(first.drop_last() =~= seq![
        CachedReply::Proceed,
        none,
        CachedReply::Measured(live),
    ]);
    assert(first.drop_last().drop_last() =~= first.take(2));
    assert(first.take(2).drop_last() =~= seq![CachedReply::Proceed]);
    assert(first.take(2).drop_last().drop_last() =~= seq![]);
    assert(again.take(2) =~= again.drop_last());
    assert(again.take(2).drop_last() =~= seq![CachedReply::Proceed]);
    assert(again.take(2).drop_last().drop_last() =~= seq![]);
}

// ---------------------------------------------------------------------------
// The run
// ---------------------------------------------------------------------------
/// A cached trial in progress.
pub struct CachedRunner {
    at: CachedStage,
    trial: Option<Trial>,
    reusable: Trial,
    evidenced: bool,
    measured: bool,
}

impl View for CachedRunner {
    type V = CachedV;

    closed spec fn view(&self) -> CachedV {
        CachedV {
            at: self.at,
            trial: match self.trial {
                Some(t) => Some(t@),
                None => None,
            },
            reusable: self.reusable@,
            evidenced: self.evidenced,
            measured: self.measured,
        }
    }
}

impl CachedRunner {
    /// A cached trial that has not been looked up.
    pub fn new() -> (out: Self)
        ensures
            out@ == cached_start(),
    {
        CachedRunner {
            at: CachedStage::Start,
            trial: None,
            reusable: blank(),
            evidenced: false,
            measured: false,
        }
    }

    /// Where the trial stands.
    pub fn stage(&self) -> (out: CachedStage)
        ensures
            out == self@.at,
    {
        self.at
    }

    /// The trial, once there is one.
    pub fn trial(self) -> (out: Option<Trial>)
        ensures
            match out {
                Some(t) => self@.trial == Some(t@),
                None => self@.trial is None,
            },
    {
        self.trial
    }

    /// One transition.
    pub fn step(&mut self, reply: CachedReply) -> (ask: CachedAsk)
        ensures
            final(self)@ == cached_step(old(self)@, reply).0,
            ask@ == cached_step(old(self)@, reply).1,
    {
        match (self.at, reply) {
            (CachedStage::Start, CachedReply::Proceed) => {
                self.at = CachedStage::Lookup;
                CachedAsk::Lookup
            },
            (CachedStage::Lookup, CachedReply::Cached(Some(trial))) => {
                self.at = CachedStage::RecordHit;
                CachedAsk::Record(reusable_trial(&trial), "cache".to_string())
            },
            (CachedStage::Lookup, CachedReply::Cached(None)) => {
                self.at = CachedStage::Measure;
                CachedAsk::Measure
            },
            (CachedStage::RecordHit, CachedReply::Recorded(trial)) => {
                self.trial = Some(trial);
                self.evidenced = true;
                self.at = CachedStage::Finished;
                CachedAsk::Finished
            },
            (CachedStage::Measure, CachedReply::Measured(trial)) => {
                self.reusable = reusable_trial(&trial);
                self.measured = true;
                self.at = CachedStage::RecordLive;
                CachedAsk::Record(trial, "live".to_string())
            },
            (CachedStage::RecordLive, CachedReply::Recorded(trial)) => {
                let ask: CachedAsk = CachedAsk::Put(
                    copy_trial(&self.reusable),
                    trial.oom,
                    trial.startup_ok,
                    trial.measurement_usable,
                );
                self.trial = Some(trial);
                self.evidenced = true;
                self.at = CachedStage::Put;
                ask
            },
            (CachedStage::Put, CachedReply::Stored(stored)) => {
                if stored {
                    self.at = CachedStage::Save;
                    CachedAsk::Save
                } else {
                    self.at = CachedStage::Finished;
                    CachedAsk::Finished
                }
            },
            (CachedStage::Save, CachedReply::Saved) => {
                self.at = CachedStage::Finished;
                CachedAsk::Finished
            },
            _ => CachedAsk::Proceed,
        }
    }
}

} // verus!

//! llama.cpp's memory fitter as the tuner's oracle: which part of a candidate
//! decides how much memory it needs, and one answer per such shape.
use vstd::prelude::*;

use crate::overrides::Overrides;
#[allow(unused_imports)]
use crate::overrides::{
    law_dropped_keys_do_not_matter, put, signature, without_keys, OverridesV, SettingV,
};
use crate::text::same;
#[allow(unused_imports)]
use crate::text::views;
use crate::tuner::{FitDevice, FitPlacement};

verus! {

/// Free VRAM the fitter keeps per device: llama.cpp's own default. The
/// VRAM-fit phase probes past it, so this sets where the search starts, not a
/// hard limit.
pub const DEFAULT_FIT_MARGIN_MIB: u32 = 1024;

/// Keys that choose a placement or a CPU thread count: they never change where
/// the model fits.
pub open spec fn non_shape_keys() -> Seq<Seq<char>> {
    seq!["NCpuMoe"@, "NGpuLayers"@, "Threads"@, "ThreadsBatch"@]
}

/// The memory shape of a candidate.
pub open spec fn memory_shape(s: OverridesV) -> Seq<char> {
    signature(without_keys(s, non_shape_keys(), s.len() as int))
}

/// The part of a candidate that decides how much memory it needs.
pub fn shape_key(overrides: &Overrides) -> (out: String)
    ensures
        out@ == memory_shape(overrides@),
{
    let mut dropped: Vec<String> = Vec::new();
    dropped.push("NCpuMoe".to_string());
    dropped.push("NGpuLayers".to_string());
    dropped.push("Threads".to_string());
    dropped.push("ThreadsBatch".to_string());
    assert(views(dropped@) =~= non_shape_keys());
    overrides.without(&dropped).candidate_signature()
}

/// Placement and threads do not change a candidate's memory shape.
pub proof fn law_placement_does_not_change_the_shape(
    s: OverridesV,
    key: Seq<char>,
    value: SettingV,
)
    requires
        non_shape_keys().contains(key),
    ensures
        memory_shape(put(s, key, value)) == memory_shape(s),
{
    law_dropped_keys_do_not_matter(s, non_shape_keys(), key, value);
}

/// The fitter's answer for one memory shape.
#[derive(Clone, Debug, PartialEq, Eq)]
pub enum FitAnswer {
    Placed(FitPlacement),
    /// It cannot fit, and why.
    Rejected(String),
    /// The fitter did not answer.
    Failed,
}

/// A copy of an answer.
fn copy_answer(answer: &FitAnswer) -> (out: FitAnswer)
    ensures
        out == *answer,
{
    match answer {
        FitAnswer::Placed(fit) => FitAnswer::Placed(
            FitPlacement {
                gpu_layers: fit.gpu_layers,
                n_cpu_moe: fit.n_cpu_moe,
                device: match &fit.device {
                    Some(d) => Some(
                        FitDevice {
                            name: d.name.clone(),
                            used_mib: d.used_mib,
                            free_mib: d.free_mib,
                        },
                    ),
                    None => None,
                },
            },
        ),
        FitAnswer::Rejected(why) => FitAnswer::Rejected(why.clone()),
        FitAnswer::Failed => FitAnswer::Failed,
    }
}

/// The placement an answer gives.
pub fn placement(answer: &FitAnswer) -> (out: Option<FitPlacement>)
    ensures
        out == match *answer {
            FitAnswer::Placed(fit) => Some(fit),
            _ => None,
        },
{
    match copy_answer(answer) {
        FitAnswer::Placed(fit) => Some(fit),
        _ => None,
    }
}

/// Why an answer rules a candidate out, if it does.
pub fn rejection(answer: &FitAnswer) -> (out: Option<String>)
    ensures
        out == match *answer {
            FitAnswer::Rejected(why) => Some(why),
            _ => None,
        },
{
    match copy_answer(answer) {
        FitAnswer::Rejected(why) => Some(why),
        _ => None,
    }
}

/// The answers known so far, newest first.
pub open spec fn known_answer(
    keys: Seq<Seq<char>>,
    answers: Seq<FitAnswer>,
    key: Seq<char>,
) -> Option<FitAnswer>
    decreases keys.len(),
{
    if keys.len() == 0 {
        None
    } else if keys.last() == key {
        Some(answers[keys.len() - 1])
    } else {
        known_answer(keys.drop_last(), answers, key)
    }
}

/// The fitter to run, and its answers, one per memory shape.
pub struct LiveFitOracle {
    binary: String,
    margin_mib: u32,
    keys: Vec<String>,
    answers: Vec<FitAnswer>,
}

impl LiveFitOracle {
    /// What is known of a memory shape.
    pub closed spec fn known(self, key: Seq<char>) -> Option<FitAnswer> {
        known_answer(views(self.keys@), self.answers@, key)
    }

    /// The fitter that is run.
    pub closed spec fn fitter(self) -> Seq<char> {
        self.binary@
    }

    /// The free VRAM that the fitter keeps per device.
    pub closed spec fn margin(self) -> u32 {
        self.margin_mib
    }

    /// As many answers as shapes.
    pub closed spec fn well_formed(self) -> bool {
        self.keys@.len() == self.answers@.len()
    }

    /// An oracle that has not been asked, when the engine ships a fitter.
    pub fn new(binary: Option<String>, margin_mib: u32) -> (out: Option<Self>)
        ensures
            out is Some <==> binary is Some,
            out matches Some(oracle) ==> {
                &&& oracle.well_formed()
                &&& oracle.fitter() == binary->Some_0@
                &&& oracle.margin() == margin_mib
                &&& forall|key: Seq<char>| oracle.known(key) is None
            },
    {
        match binary {
            Some(binary) => {
                let keys: Vec<String> = Vec::new();
                assert(views(keys@).len() == 0);
                Some(LiveFitOracle { binary, margin_mib, keys, answers: Vec::new() })
            },
            None => None,
        }
    }

    /// The fitter to run.
    pub fn binary(&self) -> (out: &str)
        ensures
            out@ == self.fitter(),
    {
        self.binary.as_str()
    }

    /// The free VRAM that the fitter keeps per device.
    pub fn margin_mib(&self) -> (out: u32)
        ensures
            out == self.margin(),
    {
        self.margin_mib
    }

    /// The answer for a candidate's memory shape, if the fitter gave it.
    pub fn answer(&self, overrides: &Overrides) -> (out: Option<FitAnswer>)
        requires
            self.well_formed(),
        ensures
            out == self.known(memory_shape(overrides@)),
    {
        let key: String = shape_key(overrides);
        let ghost all = views(self.keys@);
        let mut i: usize = self.keys.len();
        assert(all.take(i as int) =~= all);
        while i > 0
            invariant
                i <= self.keys.len(),
                all == views(self.keys@),
                self.keys@.len() == self.answers@.len(),
                key@ == memory_shape(overrides@),
                known_answer(all, self.answers@, key@) == known_answer(
                    all.take(i as int),
                    self.answers@,
                    key@,
                ),
            decreases i,
        {
            proof {
                assert(all.take(i as int).last() == self.keys@[i - 1]@);
                assert(all.take(i as int).drop_last() =~= all.take(i - 1));
            }
            if same(self.keys[i - 1].as_str(), key.as_str()) {
                return Some(copy_answer(&self.answers[i - 1]));
            }
            i = i - 1;
        }
        assert(all.take(0).len() == 0);
        None
    }

    /// Remember the fitter's answer for a candidate's memory shape: every
    /// candidate of that shape gets it from now on, and no other shape's
    /// answer changes.
    pub fn remember(&mut self, overrides: &Overrides, answer: FitAnswer)
        requires
            old(self).well_formed(),
        ensures
            final(self).well_formed(),
            final(self).fitter() == old(self).fitter(),
            final(self).margin() == old(self).margin(),
            forall|key: Seq<char>| #[trigger]
                final(self).known(key) == if key == memory_shape(overrides@) {
                    Some(answer)
                } else {
                    old(self).known(key)
                },
    {
        let ghost before = views(self.keys@);
        let ghost answers = self.answers@;
        let key: String = shape_key(overrides);
        self.keys.push(key);
        self.answers.push(answer);
        proof {
            let now = views(self.keys@);
            assert(now =~= before.push(key@));
            assert(now.drop_last() =~= before);
            assert forall|k: Seq<char>| #[trigger] self.known(k) == if k == memory_shape(
                overrides@,
            ) {
                Some(answer)
            } else {
                old(self).known(k)
            } by {
                lemma_known_prefix(before, answers, self.answers@, k);
            }
        }
    }
}

proof fn lemma_known_prefix(
    keys: Seq<Seq<char>>,
    a: Seq<FitAnswer>,
    b: Seq<FitAnswer>,
    key: Seq<char>,
)
    requires
        keys.len() <= a.len(),
        keys.len() <= b.len(),
        forall|i: int| 0 <= i < keys.len() ==> #[trigger] a[i] == b[i],
    ensures
        known_answer(keys, a, key) == known_answer(keys, b, key),
    decreases keys.len(),
{
    if keys.len() > 0 {
        lemma_known_prefix(keys.drop_last(), a, b, key);
        assert(a[keys.len() - 1] == b[keys.len() - 1]);
    }
}

} // verus!

//! Launch overrides: the settings a candidate configuration changes.
//!
//! A set of overrides is an ordered list of `key = value` settings, one per
//! key. Its order is the key order, so two sets with the same settings have
//! the same signature.
use vstd::prelude::*;
use vstd::string::StringExecFns;

use crate::json::{no_members, object, push_member, Json, Member};
#[allow(unused_imports)]
use crate::json::{members_view, JsonV};
use crate::text::{chars_of, dec_i64, join};

verus! {

/// One setting's value.
#[derive(Clone, Debug, PartialEq, Eq)]
pub enum Setting {
    Flag(bool),
    Number(i64),
    Text(String),
}

/// The mathematical value of a setting.
pub enum SettingV {
    Flag(bool),
    Number(int),
    Text(Seq<char>),
}

impl View for Setting {
    type V = SettingV;

    open spec fn view(&self) -> SettingV {
        match self {
            Setting::Flag(b) => SettingV::Flag(*b),
            Setting::Number(n) => SettingV::Number(*n as int),
            Setting::Text(t) => SettingV::Text(t@),
        }
    }
}

impl Setting {
    /// A copy with the same value.
    pub fn copy(&self) -> (out: Setting)
        ensures
            out@ == self@,
    {
        match self {
            Setting::Flag(b) => Setting::Flag(*b),
            Setting::Number(n) => Setting::Number(*n),
            Setting::Text(t) => Setting::Text(t.clone()),
        }
    }
}

/// A set of overrides as its settings in key order.
pub type OverridesV = Seq<(Seq<char>, SettingV)>;

/// One `key = value` setting.
#[derive(Clone, Debug, PartialEq, Eq)]
struct Entry {
    key: String,
    value: Setting,
}

/// The settings of a candidate configuration, ordered by key.
#[derive(Clone, Debug, PartialEq, Eq)]
pub struct Overrides {
    entries: Vec<Entry>,
}

impl View for Overrides {
    type V = OverridesV;

    closed spec fn view(&self) -> OverridesV {
        self.entries@.map_values(|e: Entry| (e.key@, e.value@))
    }
}

// ---------------------------------------------------------------------------
// Key order
// ---------------------------------------------------------------------------
/// Whether `a` stands before `b` in dictionary order.
pub open spec fn before(a: Seq<char>, b: Seq<char>) -> bool
    decreases a.len(),
{
    if b.len() == 0 {
        false
    } else if a.len() == 0 {
        true
    } else if a[0] != b[0] {
        a[0] < b[0]
    } else {
        before(a.skip(1), b.skip(1))
    }
}

/// The key order is a strict total order.
pub proof fn law_key_order(a: Seq<char>, b: Seq<char>, c: Seq<char>)
    ensures
        !before(a, a),
        before(a, b) ==> !before(b, a),
        a == b || before(a, b) || before(b, a),
        before(a, b) && before(b, c) ==> before(a, c),
    decreases a.len(),
{
    if a.len() > 0 {
        let b1 = if b.len() > 0 {
            b.skip(1)
        } else {
            b
        };
        let c1 = if c.len() > 0 {
            c.skip(1)
        } else {
            c
        };
        law_key_order(a.skip(1), b1, c1);
        if b.len() > 0 && a[0] == b[0] && a.skip(1) == b.skip(1) {
            assert(a == seq![a[0]] + a.skip(1));
            assert(b == seq![b[0]] + b.skip(1));
        }
    } else if b.len() == 0 {
        assert(a == b);
    }
}

/// Whether the settings are in strict key order.
pub open spec fn ordered(s: OverridesV) -> bool {
    forall|i: int, j: int| 0 <= i < j < s.len() ==> before(#[trigger] s[i].0, #[trigger] s[j].0)
}

/// Whether `a` stands before `b` in dictionary order.
pub fn stands_before(a: &Vec<char>, b: &Vec<char>) -> (r: bool)
    ensures
        r == before(a@, b@),
{
    let mut i: usize = 0;
    assert(a@.skip(0) == a@);
    assert(b@.skip(0) == b@);
    while i < a.len() && i < b.len()
        invariant
            i <= a.len(),
            i <= b.len(),
            before(a@, b@) == before(a@.skip(i as int), b@.skip(i as int)),
        decreases a.len() - i,
    {
        if a[i] != b[i] {
            return a[i] < b[i];
        }
        assert(a@.skip(i as int).skip(1) == a@.skip(i + 1));
        assert(b@.skip(i as int).skip(1) == b@.skip(i + 1));
        i = i + 1;
    }
    i < b.len()
}

// ---------------------------------------------------------------------------
// Reading and changing settings
// ---------------------------------------------------------------------------
/// How many settings at the front have a key before `key`.
pub open spec fn slot(s: OverridesV, key: Seq<char>) -> nat
    decreases s.len(),
{
    if s.len() == 0 || !before(s[0].0, key) {
        0
    } else {
        1 + slot(s.skip(1), key)
    }
}

/// The value of `key`, if it is set.
pub open spec fn value_of(s: OverridesV, key: Seq<char>) -> Option<SettingV> {
    let i = slot(s, key) as int;
    if i < s.len() && s[i].0 == key {
        Some(s[i].1)
    } else {
        None
    }
}

/// The number that `key` is set to, if it is set to a number.
pub open spec fn number_of(s: OverridesV, key: Seq<char>) -> Option<int> {
    match value_of(s, key) {
        Some(SettingV::Number(n)) => Some(n),
        _ => None,
    }
}

/// The settings with `key` set to `value`.
pub open spec fn put(s: OverridesV, key: Seq<char>, value: SettingV) -> OverridesV {
    let i = slot(s, key) as int;
    if i < s.len() && s[i].0 == key {
        s.update(i, (key, value))
    } else {
        s.insert(i, (key, value))
    }
}

/// The settings of `base`, with those of `overlay` set on top in order.
pub open spec fn overlaid(base: OverridesV, overlay: OverridesV) -> OverridesV
    decreases overlay.len(),
{
    if overlay.len() == 0 {
        base
    } else {
        put(overlaid(base, overlay.drop_last()), overlay.last().0, overlay.last().1)
    }
}

/// A setting's value in a signature.
pub open spec fn setting_text(v: SettingV) -> Seq<char> {
    match v {
        SettingV::Flag(b) => if b {
            "true"@
        } else {
            "false"@
        },
        SettingV::Number(n) => crate::text::dec_int(n),
        SettingV::Text(t) => t,
    }
}

/// One `key=value` part of a signature.
pub open spec fn setting_part(e: (Seq<char>, SettingV)) -> Seq<char> {
    e.0 + "="@ + setting_text(e.1)
}

/// The identity of a configuration: its settings as `key=value`, in key
/// order, with `;` between them.
pub open spec fn signature(s: OverridesV) -> Seq<char> {
    crate::text::joined(s.map_values(|e: (Seq<char>, SettingV)| setting_part(e)), ";"@)
}

/// The views of a list of override sets.
pub open spec fn all_views(list: Seq<Overrides>) -> Seq<OverridesV> {
    list.map_values(|o: Overrides| o@)
}

proof fn lemma_slot(s: OverridesV, key: Seq<char>, n: nat)
    requires
        n <= s.len(),
        forall|k: int| 0 <= k < n ==> before(#[trigger] s[k].0, key),
        n < s.len() ==> !before(s[n as int].0, key),
    ensures
        slot(s, key) == n,
    decreases n,
{
    if n > 0 {
        let t = s.skip(1);
        assert forall|k: int| 0 <= k < n - 1 implies before(#[trigger] t[k].0, key) by {
            assert(t[k] == s[k + 1]);
        }
        if n - 1 < t.len() {
            assert(t[n - 1] == s[n as int]);
        }
        lemma_slot(t, key, (n - 1) as nat);
    }
}

proof fn lemma_slot_bound(s: OverridesV, key: Seq<char>)
    ensures
        slot(s, key) <= s.len(),
        forall|k: int| 0 <= k < slot(s, key) ==> before(#[trigger] s[k].0, key),
        slot(s, key) < s.len() ==> !before(s[slot(s, key) as int].0, key),
    decreases s.len(),
{
    if s.len() > 0 && before(s[0].0, key) {
        lemma_slot_bound(s.skip(1), key);
        assert forall|k: int| 0 <= k < slot(s, key) implies before(#[trigger] s[k].0, key) by {
            if k > 0 {
                assert(s.skip(1)[k - 1] == s[k]);
            }
        }
    }
}

/// Setting a key keeps the key order.
pub proof fn law_put_keeps_order(s: OverridesV, key: Seq<char>, value: SettingV)
    requires
        ordered(s),
    ensures
        ordered(put(s, key, value)),
{
    lemma_slot_bound(s, key);
    let n = slot(s, key) as int;
    let t = put(s, key, value);
    assert forall|i: int, j: int| 0 <= i < j < t.len() implies before(
        #[trigger] t[i].0,
        #[trigger] t[j].0,
    ) by {
        if n < s.len() && s[n].0 == key {
            assert(t[i].0 == s[i].0 && t[j].0 == s[j].0);
        } else {
            if n < s.len() {
                law_key_order(s[n].0, key, key);
            }
            if j < n {
                assert(t[i] == s[i] && t[j] == s[j]);
            } else if j == n {
                assert(t[i] == s[i]);
            } else if i < n {
                assert(t[i] == s[i] && t[j] == s[j - 1]);
            } else if i == n {
                assert(t[j] == s[j - 1]);
                if j - 1 > n {
                    law_key_order(key, s[n].0, s[j - 1].0);
                }
            } else {
                assert(t[i] == s[i - 1] && t[j] == s[j - 1]);
            }
        }
    }
}

/// A key reads back what was last set, and setting it changes no other key.
pub proof fn law_value_after_put(s: OverridesV, key: Seq<char>, value: SettingV, other: Seq<char>)
    requires
        ordered(s),
    ensures
        value_of(put(s, key, value), other) == if other == key {
            Some(value)
        } else {
            value_of(s, other)
        },
{
    lemma_slot_bound(s, key);
    lemma_slot_bound(s, other);
    let n = slot(s, key) as int;
    let m = slot(s, other) as int;
    let t = put(s, key, value);
    law_key_order(key, other, key);
    if n < s.len() && s[n].0 == key {
        assert forall|k: int| 0 <= k < m implies before(#[trigger] t[k].0, other) by {
            assert(t[k].0 == s[k].0);
        }
        lemma_slot(t, other, m as nat);
        if other == key {
            assert(m == n);
        } else if m == n {
            assert(s[m].0 == key);
        }
    } else if other == key {
        assert forall|k: int| 0 <= k < n implies before(#[trigger] t[k].0, other) by {
            assert(t[k] == s[k]);
        }
        lemma_slot(t, other, n as nat);
    } else if before(key, other) {
        // Everything before the new entry is before `other` too.
        assert(n <= m) by {
            if m < n {
                assert(before(s[m].0, key));
                law_key_order(s[m].0, key, other);
            }
        }
        assert forall|k: int| 0 <= k < m + 1 implies before(#[trigger] t[k].0, other) by {
            if k < n {
                assert(t[k] == s[k]);
            } else if k > n {
                assert(t[k] == s[k - 1]);
            }
        }
        if m < s.len() {
            assert(t[m + 1] == s[m]);
        }
        lemma_slot(t, other, (m + 1) as nat);
    } else {
        assert(m <= n) by {
            if n < m {
                assert(before(s[n].0, other));
                law_key_order(s[n].0, other, key);
            }
        }
        assert forall|k: int| 0 <= k < m implies before(#[trigger] t[k].0, other) by {
            assert(t[k] == s[k]);
        }
        if m < n {
            assert(t[m] == s[m]);
        } else {
            assert(t[m].0 == key);
            if m < s.len() && s[m].0 == other {
                // `other` would stand at the insertion point, after `key`.
                assert(before(other, key));
                assert(!before(s[n].0, key));
            }
        }
        lemma_slot(t, other, m as nat);
    }
}

/// The key order is the dictionary's: of two keys that agree up to a place, the
/// one that ends there, or has the smaller character there, comes first.
pub proof fn law_keys_stand_as_in_a_dictionary(a: Seq<char>, b: Seq<char>, i: int)
    requires
        0 <= i <= a.len(),
        i < b.len(),
        forall|k: int| 0 <= k < i ==> a[k] == b[k],
        i < a.len() ==> a[i] < b[i],
    ensures
        before(a, b),
        !before(b, a),
    decreases i,
{
    law_key_order(a, b, a);
    if i > 0 {
        assert(a[0] == b[0]);
        assert forall|k: int| 0 <= k < i - 1 implies a.skip(1)[k] == b.skip(1)[k] by {
            assert(a[k + 1] == b[k + 1]);
        }
        law_keys_stand_as_in_a_dictionary(a.skip(1), b.skip(1), i - 1);
    }
}

/// A key is set to a value exactly if the setting stands among the settings.
pub proof fn law_a_value_is_a_setting_that_stands(s: OverridesV, key: Seq<char>, value: SettingV)
    requires
        ordered(s),
    ensures
        value_of(s, key) == Some(value) <==> s.contains((key, value)),
        value_of(s, key) is None <==> forall|i: int|
            0 <= i < s.len() ==> (#[trigger] s[i]).0 != key,
{
    lemma_slot_bound(s, key);
    if s.contains((key, value)) {
        let i = choose|i: int| 0 <= i < s.len() && s[i] == (key, value);
        lemma_value_at(s, i);
    }
    if exists|i: int| 0 <= i < s.len() && (#[trigger] s[i]).0 == key {
        let i = choose|i: int| 0 <= i < s.len() && (#[trigger] s[i]).0 == key;
        lemma_value_at(s, i);
    } else {
        lemma_value_absent(s, key);
    }
}

/// The number of a key is the one that its setting holds.
pub proof fn law_a_number_is_a_setting_that_stands(s: OverridesV, key: Seq<char>, n: int)
    requires
        ordered(s),
    ensures
        number_of(s, key) == Some(n) <==> s.contains((key, SettingV::Number(n))),
{
    law_a_value_is_a_setting_that_stands(s, key, SettingV::Number(n));
}

/// What a configuration is known by: each setting as its key, `=` and its
/// value, with `;` between one setting and the next.
pub proof fn law_a_signature_lists_every_setting(s: OverridesV, key: Seq<char>, value: SettingV)
    ensures
        signature(Seq::empty()) == Seq::<char>::empty(),
        signature(s.push((key, value))) == (if s.len() == 0 {
            seq![]
        } else {
            signature(s) + seq![';']
        }) + key + seq!['='] + match value {
            SettingV::Flag(true) => seq!['t', 'r', 'u', 'e'],
            SettingV::Flag(false) => seq!['f', 'a', 'l', 's', 'e'],
            SettingV::Number(n) => if n < 0 {
                seq!['-'] + crate::text::dec((-n) as nat)
            } else {
                crate::text::dec(n as nat)
            },
            SettingV::Text(t) => t,
        },
{
    reveal_strlit(";");
    reveal_strlit("=");
    reveal_strlit("true");
    reveal_strlit("false");
    reveal_strlit("-");
    let f = |e: (Seq<char>, SettingV)| setting_part(e);
    let parts = s.map_values(f);
    let more = s.push((key, value)).map_values(f);
    assert(more =~= parts.push(setting_part((key, value))));
    assert(more.drop_last() =~= parts);
    assert(Seq::<(Seq<char>, SettingV)>::empty().map_values(f) =~= Seq::empty());
    reveal_with_fuel(crate::text::joined, 2);
    assert("true"@ =~= seq!['t', 'r', 'u', 'e']);
    assert("false"@ =~= seq!['f', 'a', 'l', 's', 'e']);
    assert(";"@ =~= seq![';']);
    assert("="@ =~= seq!['=']);
    assert("-"@ =~= seq!['-']);
    if s.len() == 0 {
        assert(signature(s.push((key, value))) =~= seq![] + key + seq!['='] + setting_text(value));
    } else {
        assert(signature(s.push((key, value))) =~= signature(s) + seq![';'] + key + seq!['=']
            + setting_text(value));
    }
}

/// An overlay keeps the key order.
pub proof fn law_overlay_keeps_order(base: OverridesV, overlay: OverridesV)
    requires
        ordered(base),
    ensures
        ordered(overlaid(base, overlay)),
    decreases overlay.len(),
{
    if overlay.len() > 0 {
        law_overlay_keeps_order(base, overlay.drop_last());
        law_put_keeps_order(
            overlaid(base, overlay.drop_last()),
            overlay.last().0,
            overlay.last().1,
        );
    }
}

proof fn lemma_value_at(s: OverridesV, i: int)
    requires
        ordered(s),
        0 <= i < s.len(),
    ensures
        value_of(s, s[i].0) == Some(s[i].1),
{
    law_key_order(s[i].0, s[i].0, s[i].0);
    lemma_slot(s, s[i].0, i as nat);
}

proof fn lemma_value_absent(s: OverridesV, key: Seq<char>)
    requires
        forall|i: int| 0 <= i < s.len() ==> (#[trigger] s[i]).0 != key,
    ensures
        value_of(s, key) == None::<SettingV>,
{
    lemma_slot_bound(s, key);
}

/// Under an overlay, the overlay's settings win and the base's others stay.
pub proof fn law_value_after_overlay(base: OverridesV, overlay: OverridesV, key: Seq<char>)
    requires
        ordered(base),
        ordered(overlay),
    ensures
        value_of(overlaid(base, overlay), key) == match value_of(overlay, key) {
            Some(v) => Some(v),
            None => value_of(base, key),
        },
    decreases overlay.len(),
{
    if overlay.len() == 0 {
    } else {
        let front = overlay.drop_last();
        let last = overlay.last();
        assert(ordered(front)) by {
            assert forall|i: int, j: int| 0 <= i < j < front.len() implies before(
                #[trigger] front[i].0,
                #[trigger] front[j].0,
            ) by {
                assert(front[i] == overlay[i] && front[j] == overlay[j]);
            }
        }
        law_overlay_keeps_order(base, front);
        law_value_after_overlay(base, front, key);
        law_value_after_put(overlaid(base, front), last.0, last.1, key);
        if key == last.0 {
            lemma_value_at(overlay, overlay.len() - 1);
        } else if exists|i: int| 0 <= i < front.len() && (#[trigger] front[i]).0 == key {
            let i = choose|i: int| 0 <= i < front.len() && (#[trigger] front[i]).0 == key;
            assert(overlay[i] == front[i]);
            lemma_value_at(overlay, i);
            lemma_value_at(front, i);
        } else {
            assert forall|i: int| 0 <= i < overlay.len() implies (#[trigger] overlay[i]).0
                != key by {
                if i < front.len() {
                    assert(front[i] == overlay[i]);
                }
            }
            lemma_value_absent(overlay, key);
            lemma_value_absent(front, key);
        }
    }
}

impl Overrides {
    /// No settings.
    pub fn new() -> (out: Overrides)
        ensures
            out@ == Seq::<(Seq<char>, SettingV)>::empty(),
    {
        let out: Overrides = Overrides { entries: Vec::new() };
        assert(out@ =~= Seq::<(Seq<char>, SettingV)>::empty());
        out
    }

    fn position(&self, key: &str) -> (i: usize)
        ensures
            i == slot(self@, key@),
            i <= self@.len(),
    {
        let wanted: Vec<char> = chars_of(key);
        let mut i: usize = 0;
        while i < self.entries.len()
            invariant
                i <= self.entries.len(),
                wanted@ == key@,
                forall|k: int| 0 <= k < i ==> before(#[trigger] self@[k].0, key@),
            decreases self.entries.len() - i,
        {
            let here: Vec<char> = chars_of(self.entries[i].key.as_str());
            if !stands_before(&here, &wanted) {
                proof {
                    assert(self@[i as int].0 == here@);
                    lemma_slot(self@, key@, i as nat);
                }
                return i;
            }
            assert(self@[i as int].0 == here@);
            i = i + 1;
        }
        proof {
            lemma_slot(self@, key@, i as nat);
        }
        i
    }

    /// The value of `key`, if it is set.
    pub fn get(&self, key: &str) -> (out: Option<&Setting>)
        ensures
            match out {
                Some(v) => value_of(self@, key@) == Some(v@),
                None => value_of(self@, key@) == None::<SettingV>,
            },
    {
        let i: usize = self.position(key);
        if i < self.entries.len() {
            assert(self@[i as int] == (
                self.entries@[i as int].key@,
                self.entries@[i as int].value@,
            ));
            let here: Vec<char> = chars_of(self.entries[i].key.as_str());
            let wanted: Vec<char> = chars_of(key);
            if crate::text::same_chars(&here, &wanted) {
                return Some(&self.entries[i].value);
            }
        }
        None
    }

    /// Whether `key` is set.
    pub fn contains_key(&self, key: &str) -> (r: bool)
        ensures
            r == (value_of(self@, key@) is Some),
    {
        self.get(key).is_some()
    }

    /// The number that `key` is set to, if it is set to a number.
    pub fn number(&self, key: &str) -> (out: Option<i64>)
        ensures
            match out {
                Some(n) => number_of(self@, key@) == Some(n as int),
                None => number_of(self@, key@) == None::<int>,
            },
    {
        match self.get(key) {
            Some(Setting::Number(n)) => Some(*n),
            _ => None,
        }
    }

    /// Set `key` to `value`.
    pub fn set(&mut self, key: &str, value: Setting)
        ensures
            final(self)@ == put(old(self)@, key@, value@),
    {
        let ghost s = self@;
        let i: usize = self.position(key);
        let entry: Entry = Entry { key: key.to_string(), value };
        if i < self.entries.len() {
            assert(s[i as int].0 == self.entries@[i as int].key@);
            let here: Vec<char> = chars_of(self.entries[i].key.as_str());
            let wanted: Vec<char> = chars_of(key);
            if crate::text::same_chars(&here, &wanted) {
                self.entries.set(i, entry);
                assert(self@ =~= s.update(i as int, (key@, value@)));
                return;
            }
        }
        self.entries.insert(i, entry);
        assert(self@ =~= s.insert(i as int, (key@, value@)));
    }

    /// These settings with one more.
    pub fn with(self, key: &str, value: Setting) -> (out: Overrides)
        ensures
            out@ == put(self@, key@, value@),
    {
        let mut out: Overrides = self;
        out.set(key, value);
        out
    }

    /// A copy with the same settings.
    pub fn copy(&self) -> (out: Overrides)
        ensures
            out@ == self@,
    {
        let mut entries: Vec<Entry> = Vec::new();
        let mut i: usize = 0;
        while i < self.entries.len()
            invariant
                i <= self.entries.len(),
                entries@.len() == i,
                forall|k: int|
                    0 <= k < i ==> (#[trigger] entries@[k]).key@ == self.entries@[k].key@
                        && entries@[k].value@ == self.entries@[k].value@,
            decreases self.entries.len() - i,
        {
            entries.push(
                Entry { key: self.entries[i].key.clone(), value: self.entries[i].value.copy() },
            );
            i = i + 1;
        }
        let out: Overrides = Overrides { entries };
        assert(out@ =~= self@);
        out
    }

    /// The identity of this configuration.
    pub fn candidate_signature(&self) -> (out: String)
        ensures
            out@ == signature(self@),
    {
        let mut parts: Vec<String> = Vec::new();
        let mut i: usize = 0;
        while i < self.entries.len()
            invariant
                i <= self.entries.len(),
                parts@.len() == i,
                forall|k: int| 0 <= k < i ==> (#[trigger] parts@[k])@ == setting_part(self@[k]),
            decreases self.entries.len() - i,
        {
            let mut part: String = self.entries[i].key.clone();
            part.append("=");
            let value: String = match &self.entries[i].value {
                Setting::Flag(b) => if *b {
                    "true".to_string()
                } else {
                    "false".to_string()
                },
                Setting::Number(n) => dec_i64(*n),
                Setting::Text(t) => t.clone(),
            };
            part.append(value.as_str());
            parts.push(part);
            i = i + 1;
        }
        proof {
            assert(crate::text::views(parts@) =~= self@.map_values(
                |e: (Seq<char>, SettingV)| setting_part(e),
            ));
        }
        join(&parts, ";")
    }
}

/// The first `n` settings whose keys are not among `dropped`.
pub open spec fn without_keys(s: OverridesV, dropped: Seq<Seq<char>>, n: int) -> OverridesV
    decreases n,
{
    if n <= 0 {
        seq![]
    } else {
        let front = without_keys(s, dropped, n - 1);
        if dropped.contains(s[n - 1].0) {
            front
        } else {
            front.push(s[n - 1])
        }
    }
}

proof fn lemma_without_keys_prefix(
    s: OverridesV,
    t: OverridesV,
    dropped: Seq<Seq<char>>,
    n: int,
)
    requires
        0 <= n <= s.len(),
        n <= t.len(),
        forall|k: int|
            0 <= k < n ==> (#[trigger] s[k]) == t[k] || (s[k].0 == t[k].0 && dropped.contains(
                s[k].0,
            )),
    ensures
        without_keys(s, dropped, n) == without_keys(t, dropped, n),
    decreases n,
{
    if n > 0 {
        lemma_without_keys_prefix(s, t, dropped, n - 1);
        assert(s[n - 1] == t[n - 1] || s[n - 1].0 == t[n - 1].0);
    }
}

proof fn lemma_without_inserted(
    s: OverridesV,
    dropped: Seq<Seq<char>>,
    at: int,
    e: (Seq<char>, SettingV),
    n: int,
)
    requires
        0 <= at <= n <= s.len(),
        dropped.contains(e.0),
    ensures
        without_keys(s.insert(at, e), dropped, n + 1) == without_keys(s, dropped, n),
    decreases n,
{
    let t = s.insert(at, e);
    if n == at {
        assert forall|k: int| 0 <= k < n implies (#[trigger] s[k]) == t[k] by {}
        lemma_without_keys_prefix(s, t, dropped, n);
        assert(t[n] == e);
    } else {
        lemma_without_inserted(s, dropped, at, e, n - 1);
        assert(t[n] == s[n - 1]);
    }
}

/// Setting a dropped key does not change what is left.
pub proof fn law_dropped_keys_do_not_matter(
    s: OverridesV,
    dropped: Seq<Seq<char>>,
    key: Seq<char>,
    value: SettingV,
)
    requires
        dropped.contains(key),
    ensures
        ({
            let t = put(s, key, value);
            without_keys(t, dropped, t.len() as int) == without_keys(s, dropped, s.len() as int)
        }),
{
    lemma_slot_bound(s, key);
    let i = slot(s, key) as int;
    if i < s.len() && s[i].0 == key {
        let t = s.update(i, (key, value));
        assert forall|k: int| 0 <= k < s.len() implies (#[trigger] s[k]) == t[k] || (s[k].0 == t[k].0
            && dropped.contains(s[k].0)) by {}
        lemma_without_keys_prefix(s, t, dropped, s.len() as int);
    } else {
        lemma_without_inserted(s, dropped, i, (key, value), s.len() as int);
    }
}

impl Overrides {
    /// The settings whose keys are not among `dropped`.
    pub fn without(&self, dropped: &Vec<String>) -> (out: Overrides)
        ensures
            out@ == without_keys(self@, crate::text::views(dropped@), self@.len() as int),
    {
        let ghost s = self@;
        let ghost gone = crate::text::views(dropped@);
        let mut entries: Vec<Entry> = Vec::new();
        let mut i: usize = 0;
        let ghost shown = |list: Seq<Entry>| list.map_values(|e: Entry| (e.key@, e.value@));
        assert(shown(entries@) =~= seq![]);
        while i < self.entries.len()
            invariant
                i <= self.entries.len(),
                s == self@,
                gone == crate::text::views(dropped@),
                shown == (|list: Seq<Entry>| list.map_values(|e: Entry| (e.key@, e.value@))),
                shown(entries@) == without_keys(s, gone, i as int),
            decreases self.entries.len() - i,
        {
            let entry: &Entry = &self.entries[i];
            assert(s[i as int] == (entry.key@, entry.value@));
            let mut listed: bool = false;
            let mut d: usize = 0;
            while d < dropped.len()
                invariant
                    d <= dropped.len(),
                    gone == crate::text::views(dropped@),
                    listed == exists|k: int| 0 <= k < d && #[trigger] gone[k] == entry.key@,
                decreases dropped.len() - d,
            {
                assert(gone[d as int] == dropped@[d as int]@);
                if crate::text::same(dropped[d].as_str(), entry.key.as_str()) {
                    listed = true;
                }
                d = d + 1;
            }
            assert(listed == gone.contains(entry.key@)) by {
                if gone.contains(entry.key@) {
                    let k = choose|k: int| 0 <= k < gone.len() && gone[k] == entry.key@;
                    assert(gone[k] == entry.key@);
                }
            }
            if !listed {
                let ghost was = shown(entries@);
                let one: Entry = Entry { key: entry.key.clone(), value: entry.value.copy() };
                entries.push(one);
                assert(shown(entries@) =~= was.push((entry.key@, entry.value@)));
            }
            i = i + 1;
        }
        Overrides { entries }
    }
}

/// The node of a setting.
pub open spec fn setting_node(value: SettingV) -> JsonV {
    match value {
        SettingV::Flag(b) => JsonV::Bool(b),
        SettingV::Number(n) => if n >= 0 {
            JsonV::Unsigned(n as u64)
        } else {
            JsonV::Negative(n as i64)
        },
        SettingV::Text(t) => JsonV::Text(t),
    }
}

/// The document of a configuration.
pub open spec fn overrides_node(s: OverridesV) -> JsonV {
    JsonV::Object(s.map_values(|e: (Seq<char>, SettingV)| (e.0, setting_node(e.1))))
}

impl Overrides {
    /// The configuration as a document.
    pub fn document(&self) -> (out: Json)
        ensures
            out@ == overrides_node(self@),
    {
        let ghost all = self@.map_values(|e: (Seq<char>, SettingV)| (e.0, setting_node(e.1)));
        let mut members: Vec<Member> = no_members();
        let mut i: usize = 0;
        assert(all.take(0) =~= members_view(members@));
        while i < self.entries.len()
            invariant
                i <= self.entries.len(),
                all == self@.map_values(|e: (Seq<char>, SettingV)| (e.0, setting_node(e.1))),
                members_view(members@) == all.take(i as int),
            decreases self.entries.len() - i,
        {
            let entry: &Entry = &self.entries[i];
            let node: Json = match &entry.value {
                Setting::Flag(b) => Json::Bool(*b),
                Setting::Number(n) => if *n >= 0 {
                    Json::Unsigned(*n as u64)
                } else {
                    Json::Negative(*n)
                },
                Setting::Text(t) => Json::Text(t.clone()),
            };
            assert(all[i as int] == (entry.key@, node@));
            assert(all.take(i + 1) =~= all.take(i as int).push((entry.key@, node@)));
            push_member(&mut members, entry.key.as_str(), node);
            i = i + 1;
        }
        assert(all.take(i as int) =~= all);
        object(members)
    }
}

/// The settings of `base`, with those of `overlay` on top.
pub fn join_overrides(base: &Overrides, overlay: &Overrides) -> (out: Overrides)
    ensures
        out@ == overlaid(base@, overlay@),
{
    let mut out: Overrides = base.copy();
    let mut i: usize = 0;
    assert(overlay@.take(0) =~= Seq::<(Seq<char>, SettingV)>::empty());
    while i < overlay.entries.len()
        invariant
            i <= overlay.entries.len(),
            out@ == overlaid(base@, overlay@.take(i as int)),
        decreases overlay.entries.len() - i,
    {
        out.set(overlay.entries[i].key.as_str(), overlay.entries[i].value.copy());
        proof {
            assert(overlay@.take(i + 1).drop_last() =~= overlay@.take(i as int));
            assert(overlay@.take(i + 1).last() == overlay@[i as int]);
        }
        i = i + 1;
    }
    assert(overlay@.take(overlay@.len() as int) =~= overlay@);
    out
}

/// A copy of a list of override sets.
pub fn copy_all(list: &Vec<Overrides>) -> (out: Vec<Overrides>)
    ensures
        all_views(out@) == all_views(list@),
{
    let mut out: Vec<Overrides> = Vec::new();
    let mut i: usize = 0;
    while i < list.len()
        invariant
            i <= list.len(),
            all_views(out@) == all_views(list@).take(i as int),
        decreases list.len() - i,
    {
        let ghost was = all_views(out@);
        out.push(list[i].copy());
        assert(all_views(out@) =~= was.push(list@[i as int]@));
        i = i + 1;
    }
    assert(all_views(list@).take(list.len() as int) =~= all_views(list@));
    out
}

/// What is left of some settings without certain keys is every setting of another
/// key, as it was and in order: `places` are those settings.
pub proof fn law_the_other_keys_are_left(s: OverridesV, dropped: Seq<Seq<char>>, n: int) -> (places:
    Seq<int>)
    requires
        0 <= n <= s.len(),
    ensures
        places.len() == without_keys(s, dropped, n).len(),
        forall|k: int|
            0 <= k < places.len() ==> 0 <= #[trigger] places[k] < n && without_keys(s, dropped, n)[k]
                == s[places[k]] && !dropped.contains(s[places[k]].0),
        forall|j: int, k: int| 0 <= j < k < places.len() ==> places[j] < places[k],
        forall|i: int| 0 <= i < n && !dropped.contains((#[trigger] s[i]).0) ==> places.contains(i),
    decreases n,
{
    if n == 0 {
        seq![]
    } else {
        let before = law_the_other_keys_are_left(s, dropped, n - 1);
        if dropped.contains(s[n - 1].0) {
            before
        } else {
            let now = before.push(n - 1);
            assert(now[before.len() as int] == n - 1);
            assert forall|i: int| 0 <= i < n && !dropped.contains((#[trigger] s[i]).0) implies
                now.contains(i) by {
                if i < n - 1 {
                    let k = choose|k: int| 0 <= k < before.len() && before[k] == i;
                    assert(now[k] == i);
                }
            }
            now
        }
    }
}

/// A setting is written as the JSON value of its own kind.
pub proof fn law_a_setting_is_written_as_its_kind(value: SettingV)
    ensures
        match value {
            SettingV::Flag(b) => setting_node(value) == JsonV::Bool(b),
            SettingV::Number(n) => (0 <= n <= u64::MAX ==> (setting_node(value) matches
                JsonV::Unsigned(m) && m == n)) && (i64::MIN <= n < 0 ==> (setting_node(value)
                matches JsonV::Negative(m) && m == n)),
            SettingV::Text(t) => setting_node(value) == JsonV::Text(t),
        },
{
}

} // verus!

//! Signal maps: named real-valued magnitudes produced by sensors.
//!
//! A [`Signals`] value maps signal names to scaled fixed-point magnitudes.
//! It is stored as an association vector with unique names; lookups and
//! updates are specified against the recursive [`sig_get`] function.

use vstd::prelude::*;

use crate::fixed::{ema_blend, spec_ema};

verus! {

/// One named signal channel.
pub struct SignalEntry {
    pub name: String,
    pub value: i64,
}

/// A mapping from signal names to scaled magnitudes.
pub struct Signals {
    pub entries: Vec<SignalEntry>,
}

/// The value bound to `name` in `s`, scanning from the front.
pub open spec fn sig_get(s: Seq<SignalEntry>, name: Seq<char>) -> Option<i64>
    decreases s.len(),
{
    if s.len() == 0 {
        None
    } else if s[0].name@ == name {
        Some(s[0].value)
    } else {
        sig_get(s.drop_first(), name)
    }
}

/// The value bound to `name`, or zero when the channel is absent.
pub open spec fn sig_value(s: Seq<SignalEntry>, name: Seq<char>) -> int {
    match sig_get(s, name) {
        Some(v) => v as int,
        None => 0,
    }
}

/// Entry names are pairwise distinct.
pub open spec fn sig_unique(s: Seq<SignalEntry>) -> bool {
    forall|i: int, j: int| 0 <= i < j < s.len() ==> s[i].name@ != s[j].name@
}

/// Relates `sig_get` to a positional witness: the first match decides.
proof fn lemma_sig_get_index(s: Seq<SignalEntry>, name: Seq<char>, i: int)
    requires
        sig_unique(s),
        0 <= i < s.len(),
        s[i].name@ == name,
    ensures
        sig_get(s, name) == Some(s[i].value),
    decreases s.len(),
{
    if i > 0 {
        assert(s.drop_first()[i - 1] == s[i]);
        assert(sig_unique(s.drop_first())) by {
            assert(forall|a: int, b: int|
                0 <= a < b < s.drop_first().len() ==> s.drop_first()[a] == s[a + 1]
                    && s.drop_first()[b] == s[b + 1]);
        }
        lemma_sig_get_index(s.drop_first(), name, i - 1);
    }
}

/// When no entry carries `name`, `sig_get` is `None`.
proof fn lemma_sig_get_absent(s: Seq<SignalEntry>, name: Seq<char>)
    requires
        forall|i: int| 0 <= i < s.len() ==> s[i].name@ != name,
    ensures
        sig_get(s, name) == None::<i64>,
    decreases s.len(),
{
    if s.len() > 0 {
        assert(forall|i: int|
            0 <= i < s.drop_first().len() ==> s.drop_first()[i] == s[i + 1]);
        lemma_sig_get_absent(s.drop_first(), name);
    }
}

/// Appending an entry only affects lookups of its own name, and only when
/// that name was previously absent.
proof fn lemma_sig_get_push(s: Seq<SignalEntry>, e: SignalEntry, name: Seq<char>)
    ensures
        sig_get(s.push(e), name) == (if sig_get(s, name) is Some {
            sig_get(s, name)
        } else if e.name@ == name {
            Some(e.value)
        } else {
            None::<i64>
        }),
    decreases s.len(),
{
    if s.len() == 0 {
        assert(s.push(e)[0] == e);
        assert(s.push(e).drop_first() =~= Seq::<SignalEntry>::empty());
        if e.name@ != name {
            assert(sig_get(s.push(e), name) == sig_get(s.push(e).drop_first(), name));
        }
    } else {
        assert(s.push(e)[0] == s[0]);
        assert(s.push(e).drop_first() =~= s.drop_first().push(e));
        lemma_sig_get_push(s.drop_first(), e, name);
        if s[0].name@ == name {
            assert(sig_get(s.push(e), name) == Some(s[0].value));
            assert(sig_get(s, name) == Some(s[0].value));
        } else {
            assert(sig_get(s.push(e), name) == sig_get(s.drop_first().push(e), name));
            assert(sig_get(s, name) == sig_get(s.drop_first(), name));
        }
    }
}

/// Updating the value at a position changes only lookups of that name,
/// provided names are unique.
proof fn lemma_sig_get_set_value(s: Seq<SignalEntry>, i: int, e: SignalEntry, name: Seq<char>)
    requires
        sig_unique(s),
        0 <= i < s.len(),
        e.name@ == s[i].name@,
    ensures
        sig_get(s.update(i, e), name) == (if s[i].name@ == name {
            Some(e.value)
        } else {
            sig_get(s, name)
        }),
    decreases s.len(),
{
    let t = s.update(i, e);
    assert(sig_unique(t)) by {
        assert(forall|a: int| 0 <= a < t.len() ==> t[a].name@ == s[a].name@);
    }
    if s[i].name@ == name {
        lemma_sig_get_index(t, name, i);
    } else {
        if i == 0 {
            assert(t.drop_first() =~= s.drop_first());
        } else {
            match sig_get(s, name) {
                Some(_) => {
                    let w = choose|w: int|
                        0 <= w < s.len() && s[w].name@ == name && sig_get(s, name) == Some(
                            s[w].value,
                        );
                    assert(exists|w: int|
                        0 <= w < s.len() && s[w].name@ == name && sig_get(s, name) == Some(
                            s[w].value,
                        )) by {
                        lemma_sig_get_witness(s, name);
                    }
                    let w2 = choose|w2: int|
                        0 <= w2 < s.len() && s[w2].name@ == name && sig_get(s, name) == Some(
                            s[w2].value,
                        );
                    assert(t[w2] == s[w2]);
                    lemma_sig_get_index(s, name, w2);
                    lemma_sig_get_index(t, name, w2);
                },
                None => {
                    assert(forall|a: int| 0 <= a < s.len() ==> s[a].name@ != name) by {
                        lemma_sig_get_absent_converse(s, name);
                    }
                    assert(forall|a: int| 0 <= a < t.len() ==> t[a].name@ != name);
                    lemma_sig_get_absent(t, name);
                },
            }
        }
    }
}

/// A successful lookup exhibits a position holding the result.
proof fn lemma_sig_get_witness(s: Seq<SignalEntry>, name: Seq<char>)
    requires
        sig_get(s, name) is Some,
    ensures
        exists|w: int|
            0 <= w < s.len() && s[w].name@ == name && sig_get(s, name) == Some(s[w].value),
    decreases s.len(),
{
    if s.len() > 0 && s[0].name@ != name {
        lemma_sig_get_witness(s.drop_first(), name);
        let w = choose|w: int|
            0 <= w < s.drop_first().len() && s.drop_first()[w].name@ == name && sig_get(
                s.drop_first(),
                name,
            ) == Some(s.drop_first()[w].value);
        assert(s[w + 1] == s.drop_first()[w]);
    }
}

/// A failed lookup means no entry carries the name.
proof fn lemma_sig_get_absent_converse(s: Seq<SignalEntry>, name: Seq<char>)
    requires
        sig_get(s, name) is None,
    ensures
        forall|i: int| 0 <= i < s.len() ==> s[i].name@ != name,
    decreases s.len(),
{
    if s.len() > 0 {
        lemma_sig_get_absent_converse(s.drop_first(), name);
        assert(forall|i: int| 1 <= i < s.len() ==> s[i] == s.drop_first()[i - 1]);
    }
}

impl Signals {
    /// Names are pairwise distinct.
    pub open spec fn wf(&self) -> bool {
        sig_unique(self.entries@)
    }

    /// The spec-level lookup on this map.
    pub open spec fn spec_get(&self, name: Seq<char>) -> Option<i64> {
        sig_get(self.entries@, name)
    }

    /// The spec-level lookup, defaulting to zero.
    pub open spec fn spec_value(&self, name: Seq<char>) -> int {
        sig_value(self.entries@, name)
    }

    /// An empty signal map.
    pub fn new() -> (s: Signals)
        ensures
            s.wf(),
            forall|n: Seq<char>| s.spec_get(n) == None::<i64>,
            s.entries@.len() == 0,
    {
        Signals { entries: Vec::new() }
    }

    /// The number of channels.
    pub fn len(&self) -> (n: usize)
        ensures
            n == self.entries@.len(),
    {
        self.entries.len()
    }

    /// Look a channel up by name.
    pub fn get(&self, name: &String) -> (r: Option<i64>)
        requires
            self.wf(),
        ensures
            r == self.spec_get(name@),
    {
        let n = self.entries.len();
        let mut i: usize = 0;
        while i < n
            invariant
                n == self.entries@.len(),
                self.wf(),
                0 <= i <= n,
                forall|j: int| 0 <= j < i ==> self.entries@[j].name@ != name@,
            decreases n - i,
        {
            if self.entries[i].name == *name {
                proof {
                    lemma_sig_get_index(self.entries@, name@, i as int);
                }
                return Some(self.entries[i].value);
            }
            i = i + 1;
        }
        proof {
            lemma_sig_get_absent(self.entries@, name@);
        }
        None
    }

    /// Look a channel up by name, treating absence as zero.
    pub fn value_or_zero(&self, name: &String) -> (v: i64)
        requires
            self.wf(),
        ensures
            v as int == self.spec_value(name@),
    {
        match self.get(name) {
            Some(v) => v,
            None => 0,
        }
    }

    /// Bind `name` to `value`, replacing any previous binding.
    pub fn set(&mut self, name: String, value: i64)
        requires
            old(self).wf(),
        ensures
            final(self).wf(),
            final(self).spec_get(name@) == Some(value),
            forall|n: Seq<char>|
                n != name@ ==> final(self).spec_get(n) == old(self).spec_get(n),
    {
        let ghost s0 = self.entries@;
        let n = self.entries.len();
        let mut i: usize = 0;
        while i < n
            invariant
                n == self.entries@.len(),
                self.entries@ == s0,
                s0 == old(self).entries@,
                sig_unique(s0),
                0 <= i <= n,
                forall|j: int| 0 <= j < i ==> s0[j].name@ != name@,
            decreases n - i,
        {
            if self.entries[i].name == *(&name) {
                let ghost nm = name@;
                let e = SignalEntry { name, value };
                self.entries[i] = e;
                proof {
                    assert(self.entries@ =~= s0.update(i as int, e));
                    assert(forall|a: int|
                        0 <= a < self.entries@.len() ==> self.entries@[a].name@ == s0[a].name@);
                    assert forall|nn: Seq<char>| nn != nm implies sig_get(self.entries@, nn)
                        == sig_get(s0, nn) by {
                        lemma_sig_get_set_value(s0, i as int, e, nn);
                    }
                    assert(sig_get(self.entries@, nm) == Some(value)) by {
                        lemma_sig_get_index(self.entries@, nm, i as int);
                    }
                }
                return ;
            }
            i = i + 1;
        }
        let ghost nm = name@;
        let e = SignalEntry { name, value };
        proof {
            lemma_sig_get_absent(s0, nm);
        }
        self.entries.push(e);
        proof {
            assert(self.entries@ =~= s0.push(e));
            assert forall|a: int, b: int|
                0 <= a < b < self.entries@.len() implies self.entries@[a].name@
                != self.entries@[b].name@ by {
                if b < s0.len() {
                } else {
                    assert(self.entries@[b] == e);
                    assert(s0[a].name@ != nm);
                }
            }
            assert forall|nn: Seq<char>| nn != nm implies sig_get(self.entries@, nn) == sig_get(
                s0,
                nn,
            ) by {
                lemma_sig_get_push(s0, e, nn);
            }
            assert(sig_get(self.entries@, nm) == Some(value)) by {
                lemma_sig_get_push(s0, e, nm);
            }
        }
    }

    /// Blend an incoming measurement into this map, channel by channel.
    ///
    /// A channel already present is smoothed with coefficient `alpha`
    /// (`old + alpha * (new - old)`); a channel seen for the first time is
    /// taken unsmoothed.  Channels the measurement does not carry keep
    /// their previous value.
    pub fn ema_merge(&mut self, incoming: &Signals, alpha: i64)
        requires
            old(self).wf(),
            incoming.wf(),
        ensures
            final(self).wf(),
            forall|n: Seq<char>|
                #![auto]
                final(self).spec_get(n) == (match incoming.spec_get(n) {
                    Some(nv) => Some(
                        match old(self).spec_get(n) {
                            Some(ov) => (spec_ema(alpha as int, ov as int, nv as int)) as i64,
                            None => nv,
                        },
                    ),
                    None => old(self).spec_get(n),
                }),
    {
        let ghost self0 = *self;
        let m = incoming.entries.len();
        let mut k: usize = 0;
        while k < m
            invariant
                m == incoming.entries@.len(),
                incoming.wf(),
                self0 == *old(self),
                self0.wf(),
                self.wf(),
                0 <= k <= m,
                forall|n: Seq<char>|
                    #![auto]
                    self.spec_get(n) == (match first_k(incoming.entries@, k as int, n) {
                        Some(nv) => Some(
                            match self0.spec_get(n) {
                                Some(ov) => (spec_ema(alpha as int, ov as int, nv as int)) as i64,
                                None => nv,
                            },
                        ),
                        None => self0.spec_get(n),
                    }),
            decreases m - k,
        {
            let e_name = clone_string(&incoming.entries[k].name);
            let e_value = incoming.entries[k].value;
            let ghost pre = *self;
            let blended: i64 = match self.get(&e_name) {
                Some(ov) => ema_blend(alpha, ov, e_value),
                None => e_value,
            };
            proof {
                lemma_sig_get_index(incoming.entries@, e_name@, k as int);
                assert(self0.spec_get(e_name@) == pre.spec_get(e_name@)) by {
                    assert(first_k(incoming.entries@, k as int, e_name@) is None) by {
                        if first_k(incoming.entries@, k as int, e_name@) is Some {
                            lemma_first_k_witness(incoming.entries@, k as int, e_name@);
                        }
                    }
                }
            }
            self.set(e_name, blended);
            proof {
                assert forall|n: Seq<char>| true implies first_k(
                    incoming.entries@,
                    k + 1,
                    n,
                ) == (if incoming.entries@[k as int].name@ == n {
                    Some(incoming.entries@[k as int].value)
                } else {
                    first_k(incoming.entries@, k as int, n)
                }) by {
                    lemma_first_k_step(incoming.entries@, k as int, n);
                }
            }
            k = k + 1;
        }
        proof {
            assert forall|n: Seq<char>| true implies first_k(incoming.entries@, m as int, n)
                == incoming.spec_get(n) by {
                lemma_first_k_full(incoming.entries@, n);
            }
        }
    }
}

/// Pointwise view-equal entry sequences answer every lookup alike.
proof fn lemma_sig_get_congruent(s1: Seq<SignalEntry>, s2: Seq<SignalEntry>, name: Seq<char>)
    requires
        s1.len() == s2.len(),
        forall|i: int|
            0 <= i < s1.len() ==> (#[trigger] s1[i]).name@ == s2[i].name@ && s1[i].value
                == s2[i].value,
    ensures
        sig_get(s1, name) == sig_get(s2, name),
    decreases s1.len(),
{
    if s1.len() > 0 {
        assert(forall|i: int|
            0 <= i < s1.drop_first().len() ==> (#[trigger] s1.drop_first()[i]) == s1[i + 1]
                && s2.drop_first()[i] == s2[i + 1]);
        lemma_sig_get_congruent(s1.drop_first(), s2.drop_first(), name);
    }
}

impl Signals {
    /// A copy of this map answering every lookup alike.
    pub fn duplicate(&self) -> (r: Signals)
        ensures
            r.entries@.len() == self.entries@.len(),
            self.wf() ==> r.wf(),
            forall|n: Seq<char>| #[trigger] r.spec_get(n) == self.spec_get(n),
    {
        let m = self.entries.len();
        let mut entries: Vec<SignalEntry> = Vec::new();
        let mut k: usize = 0;
        while k < m
            invariant
                m == self.entries@.len(),
                0 <= k <= m,
                entries@.len() == k,
                forall|i: int|
                    0 <= i < k ==> (#[trigger] entries@[i]).name@ == self.entries@[i].name@
                        && entries@[i].value == self.entries@[i].value,
            decreases m - k,
        {
            let e = SignalEntry {
                name: clone_string(&self.entries[k].name),
                value: self.entries[k].value,
            };
            entries.push(e);
            k = k + 1;
        }
        let r = Signals { entries };
        proof {
            assert forall|n: Seq<char>| #[trigger] r.spec_get(n) == self.spec_get(n) by {
                lemma_sig_get_congruent(r.entries@, self.entries@, n);
            }
            if self.wf() {
                assert forall|a: int, b: int|
                    0 <= a < b < r.entries@.len() implies r.entries@[a].name@
                    != r.entries@[b].name@ by {
                    assert(self.entries@[a].name@ != self.entries@[b].name@);
                }
            }
        }
        r
    }
}

/// Lookup restricted to the first `k` entries.
pub open spec fn first_k(s: Seq<SignalEntry>, k: int, name: Seq<char>) -> Option<i64> {
    sig_get(s.take(k), name)
}

/// A successful prefix lookup exhibits a position inside the prefix.
proof fn lemma_first_k_witness(s: Seq<SignalEntry>, k: int, name: Seq<char>)
    requires
        0 <= k <= s.len(),
        first_k(s, k, name) is Some,
    ensures
        exists|w: int| 0 <= w < k && s[w].name@ == name,
{
    lemma_sig_get_witness(s.take(k), name);
    let w = choose|w: int|
        0 <= w < s.take(k).len() && s.take(k)[w].name@ == name && sig_get(s.take(k), name)
            == Some(s.take(k)[w].value);
    assert(s.take(k)[w] == s[w]);
}

/// Extending the prefix by one entry refines the lookup accordingly, for
/// maps with unique names.
proof fn lemma_first_k_step(s: Seq<SignalEntry>, k: int, name: Seq<char>)
    requires
        sig_unique(s),
        0 <= k < s.len(),
    ensures
        first_k(s, k + 1, name) == (if s[k].name@ == name {
            Some(s[k].value)
        } else {
            first_k(s, k, name)
        }),
{
    assert(s.take(k + 1) =~= s.take(k).push(s[k]));
    lemma_sig_get_push(s.take(k), s[k], name);
    if s[k].name@ == name {
        if sig_get(s.take(k), name) is Some {
            lemma_sig_get_witness(s.take(k), name);
            let w = choose|w: int|
                0 <= w < s.take(k).len() && s.take(k)[w].name@ == name && sig_get(
                    s.take(k),
                    name,
                ) == Some(s.take(k)[w].value);
            assert(s.take(k)[w] == s[w]);
            assert(false);
        }
    }
}

/// The full prefix is the map itself.
proof fn lemma_first_k_full(s: Seq<SignalEntry>, name: Seq<char>)
    ensures
        first_k(s, s.len() as int, name) == sig_get(s, name),
{
    assert(s.take(s.len() as int) =~= s);
}

/// Clone a string, preserving its view.
pub fn clone_string(s: &String) -> (r: String)
    ensures
        r@ == s@,
{
    s.clone()
}

} // verus!

//! The voice table: at most one voice per frequency key.
//!
//! A key is the voice's fixed-point frequency truncated to whole hertz,
//! so two frequencies that truncate to the same integer share one slot.
//! The table is a keyed vector with pairwise-distinct keys; the mixer
//! walks it by index and reaps finished voices between passes.

use vstd::prelude::*;
use crate::fixed::FP_ONE;
use crate::tone::Tone;

verus! {

/// No key occurs twice in the table.
pub open spec fn unique_keys(s: Seq<(u32, Tone)>) -> bool {
    forall|i: int, j: int| 0 <= i < j < s.len() ==> (#[trigger] s[i]).0 != (#[trigger] s[j]).0
}

/// Every stored voice is well-formed.
pub open spec fn all_tones_wf(s: Seq<(u32, Tone)>) -> bool {
    forall|i: int| 0 <= i < s.len() ==> (#[trigger] s[i]).1.wf()
}

/// Whether some entry carries the key.
pub open spec fn spec_has_key(s: Seq<(u32, Tone)>, k: u32) -> bool {
    exists|i: int| 0 <= i < s.len() && (#[trigger] s[i]).0 == k
}

/// The position of the key's entry (meaningful only under unique keys).
pub open spec fn spec_index_of(s: Seq<(u32, Tone)>, k: u32) -> int {
    choose|i: int| 0 <= i < s.len() && (#[trigger] s[i]).0 == k
}

/// The voice stored under the key, if any.
pub open spec fn spec_get(s: Seq<(u32, Tone)>, k: u32) -> Option<Tone> {
    if spec_has_key(s, k) {
        Some(s[spec_index_of(s, k)].1)
    } else {
        None
    }
}

/// The frequency key: fixed-point hertz truncated to whole hertz, with
/// negative frequencies collapsing to key zero.
pub open spec fn freq_key(freq: int) -> int {
    if freq < 0 {
        0
    } else if freq / (FP_ONE as int) > u32::MAX {
        u32::MAX as int
    } else {
        freq / (FP_ONE as int)
    }
}

/// Compute the frequency key of a fixed-point frequency.
pub fn key_of_freq(freq: i64) -> (k: u32)
    ensures
        k == freq_key(freq as int),
{
    if freq < 0 {
        0
    } else {
        let q = freq / FP_ONE;
        if q > u32::MAX as i64 {
            u32::MAX
        } else {
            q as u32
        }
    }
}

/// Under unique keys, an entry holding a key is the only one, and the
/// lookup returns exactly that entry's voice: the voice table never has
/// two voices for one frequency key.
pub proof fn lemma_at_most_one_voice(s: Seq<(u32, Tone)>, k: u32, w: int)
    requires
        unique_keys(s),
        0 <= w < s.len(),
        s[w].0 == k,
    ensures
        spec_has_key(s, k),
        spec_index_of(s, k) == w,
        spec_get(s, k) == Some(s[w].1),
        forall|j: int| 0 <= j < s.len() && (#[trigger] s[j]).0 == k ==> j == w,
{
    assert(spec_has_key(s, k));
    let i = spec_index_of(s, k);
    assert(0 <= i < s.len() && s[i].0 == k);
    assert forall|j: int| 0 <= j < s.len() && (#[trigger] s[j]).0 == k implies j == w by {
        if j < w {
            assert(s[j].0 != s[w].0);
        } else if j > w {
            assert(s[w].0 != s[j].0);
        }
    }
}

/// The voice table.
pub struct ToneMap {
    pub tones: Vec<(u32, Tone)>,
}

impl ToneMap {
    /// Keys are pairwise distinct and every voice is well-formed.
    pub open spec fn wf(self) -> bool {
        unique_keys(self.tones@) && all_tones_wf(self.tones@)
    }

    /// An empty voice table.
    pub fn new() -> (r: ToneMap)
        ensures
            r.tones@.len() == 0,
            r.wf(),
    {
        ToneMap { tones: Vec::new() }
    }

    /// The number of stored voices, finished ones included.
    pub fn len(&self) -> (r: usize)
        ensures
            r == self.tones@.len(),
    {
        self.tones.len()
    }

    /// Whether no voice is stored.
    pub fn is_empty(&self) -> (r: bool)
        ensures
            r == (self.tones@.len() == 0),
    {
        self.tones.is_empty()
    }

    /// The position of the key's entry, if the key is present.
    fn find_index(&self, key: u32) -> (r: Option<usize>)
        ensures
            match r {
                Some(i) => i < self.tones@.len() && self.tones@[i as int].0 == key,
                None => !spec_has_key(self.tones@, key),
            },
    {
        let mut i: usize = 0;
        while i < self.tones.len()
            invariant
                i <= self.tones@.len(),
                forall|j: int| 0 <= j < i ==> (#[trigger] self.tones@[j]).0 != key,
            decreases self.tones@.len() - i,
        {
            if self.tones[i].0 == key {
                return Some(i);
            }
            i = i + 1;
        }
        None
    }

    /// Store a voice under the frequency's key, replacing any voice the
    /// key already had; every other key keeps its voice.
    pub fn insert(&mut self, freq_index: i64, tone: Tone)
        requires
            old(self).wf(),
            tone.wf(),
        ensures
            final(self).wf(),
            spec_get(final(self).tones@, freq_key(freq_index as int) as u32) == Some(tone),
            forall|k: u32| k != freq_key(freq_index as int) ==>
                #[trigger] spec_get(final(self).tones@, k) == spec_get(old(self).tones@, k),
            final(self).tones@.len() == old(self).tones@.len()
                + (if spec_has_key(old(self).tones@, freq_key(freq_index as int) as u32) {
                    0int
                } else {
                    1int
                }),
    {
        let key = key_of_freq(freq_index);
        let ghost s0 = self.tones@;
        match self.find_index(key) {
            Some(i) => {
                self.tones.set(i, (key, tone));
                proof {
                    let s1 = self.tones@;
                    assert(unique_keys(s1)) by {
                        assert forall|p: int, q: int| 0 <= p < q < s1.len()
                            implies (#[trigger] s1[p]).0 != (#[trigger] s1[q]).0 by {
                            assert(s1[p].0 == s0[p].0);
                            assert(s1[q].0 == s0[q].0);
                        }
                    }
                    lemma_at_most_one_voice(s0, key, i as int);
                    lemma_at_most_one_voice(s1, key, i as int);
                    assert forall|k: u32| k != freq_key(freq_index as int) implies
                        #[trigger] spec_get(s1, k) == spec_get(s0, k) by {
                        if spec_has_key(s0, k) {
                            let w = spec_index_of(s0, k);
                            assert(0 <= w < s0.len() && s0[w].0 == k);
                            assert(w != i);
                            lemma_at_most_one_voice(s0, k, w);
                            lemma_at_most_one_voice(s1, k, w);
                        } else {
                            if spec_has_key(s1, k) {
                                let w = spec_index_of(s1, k);
                                assert(0 <= w < s1.len() && s1[w].0 == k);
                                assert(s0[w].0 == k);
                            }
                        }
                    }
                }
            },
            None => {
                self.tones.push((key, tone));
                proof {
                    let s1 = self.tones@;
                    let n = s0.len() as int;
                    assert(unique_keys(s1)) by {
                        assert forall|p: int, q: int| 0 <= p < q < s1.len()
                            implies (#[trigger] s1[p]).0 != (#[trigger] s1[q]).0 by {
                            if q < n {
                                assert(s1[p].0 == s0[p].0);
                                assert(s1[q].0 == s0[q].0);
                            } else {
                                assert(s1[q].0 == key);
                                assert(s1[p].0 == s0[p].0);
                                assert(!spec_has_key(s0, key));
                            }
                        }
                    }
                    lemma_at_most_one_voice(s1, key, n);
                    assert forall|k: u32| k != freq_key(freq_index as int) implies
                        #[trigger] spec_get(s1, k) == spec_get(s0, k) by {
                        if spec_has_key(s0, k) {
                            let w = spec_index_of(s0, k);
                            assert(0 <= w < s0.len() && s0[w].0 == k);
                            lemma_at_most_one_voice(s0, k, w);
                            lemma_at_most_one_voice(s1, k, w);
                        } else {
                            if spec_has_key(s1, k) {
                                let w = spec_index_of(s1, k);
                                assert(0 <= w < s1.len() && s1[w].0 == k);
                                assert(w != n);
                                assert(s0[w].0 == k);
                            }
                        }
                    }
                }
            },
        }
    }

    /// Drop the voice stored under the frequency's key, if any; every
    /// other key keeps its voice.
    pub fn remove(&mut self, freq_index: i64)
        requires
            old(self).wf(),
        ensures
            final(self).wf(),
            !spec_has_key(final(self).tones@, freq_key(freq_index as int) as u32),
            forall|k: u32| k != freq_key(freq_index as int) ==>
                #[trigger] spec_get(final(self).tones@, k) == spec_get(old(self).tones@, k),
            final(self).tones@.len() == old(self).tones@.len()
                - (if spec_has_key(old(self).tones@, freq_key(freq_index as int) as u32) {
                    1int
                } else {
                    0int
                }),
    {
        let key = key_of_freq(freq_index);
        let ghost s0 = self.tones@;
        match self.find_index(key) {
            Some(i) => {
                self.tones.remove(i);
                proof {
                    let s1 = self.tones@;
                    let n = s0.len() as int;
                    lemma_at_most_one_voice(s0, key, i as int);
                    assert(forall|j: int| 0 <= j < i ==> s1[j] == s0[j]);
                    assert(forall|j: int| i <= j < s1.len() ==> s1[j] == s0[j + 1]);
                    assert(unique_keys(s1)) by {
                        assert forall|p: int, q: int| 0 <= p < q < s1.len()
                            implies (#[trigger] s1[p]).0 != (#[trigger] s1[q]).0 by {
                            let p0 = if p < i { p } else { p + 1 };
                            let q0 = if q < i { q } else { q + 1 };
                            assert(s1[p] == s0[p0]);
                            assert(s1[q] == s0[q0]);
                        }
                    }
                    assert(!spec_has_key(s1, key)) by {
                        if spec_has_key(s1, key) {
                            let w = spec_index_of(s1, key);
                            assert(0 <= w < s1.len() && s1[w].0 == key);
                            let w0 = if w < i { w } else { w + 1 };
                            assert(s0[w0].0 == key);
                            assert(w0 == i);
                        }
                    }
                    assert forall|k: u32| k != freq_key(freq_index as int) implies
                        #[trigger] spec_get(s1, k) == spec_get(s0, k) by {
                        if spec_has_key(s0, k) {
                            let w = spec_index_of(s0, k);
                            assert(0 <= w < s0.len() && s0[w].0 == k);
                            lemma_at_most_one_voice(s0, k, w);
                            assert(w != i);
                            let w1 = if w < i { w } else { w - 1 };
                            assert(s1[w1] == s0[w]);
                            lemma_at_most_one_voice(s1, k, w1);
                        } else {
                            if spec_has_key(s1, k) {
                                let w = spec_index_of(s1, k);
                                assert(0 <= w < s1.len() && s1[w].0 == k);
                                let w0 = if w < i { w } else { w + 1 };
                                assert(s0[w0].0 == k);
                            }
                        }
                    }
                }
            },
            None => {},
        }
    }

    /// Look up the voice stored under the frequency's key.
    pub fn get(&self, freq_index: i64) -> (r: Option<&Tone>)
        requires
            self.wf(),
        ensures
            match r {
                Some(t) => spec_get(self.tones@, freq_key(freq_index as int) as u32) == Some(*t),
                None => !spec_has_key(self.tones@, freq_key(freq_index as int) as u32),
            },
    {
        let key = key_of_freq(freq_index);
        match self.find_index(key) {
            Some(i) => {
                proof {
                    lemma_at_most_one_voice(self.tones@, key, i as int);
                }
                let pair = &self.tones[i];
                Some(&pair.1)
            },
            None => None,
        }
    }
}

} // verus!

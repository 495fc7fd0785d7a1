//! Voice activity tracking: whether speech is under way, given for each audio
//! chunk whether its energy crossed the threshold. The energy itself is
//! measured outside this library.
use vstd::prelude::*;

verus! {

/// One chunk of capturing until silence: a quiet chunk adds one to the run of
/// quiet chunks and stops the capture once the run reaches `threshold`; a loud
/// chunk resets the run and capture goes on. Returns the new run and whether to stop.
pub fn silence_step(silent_chunks: usize, threshold: usize, quiet: bool) -> (r: (usize, bool))
    requires
        quiet ==> silent_chunks < usize::MAX,
    ensures
        quiet ==> r.0 == silent_chunks + 1 && r.1 == (silent_chunks + 1 >= threshold),
        !quiet ==> r.0 == 0 && !r.1,
{
    if quiet {
        let n = silent_chunks + 1;
        (n, n >= threshold)
    } else {
        (0, false)
    }
}

/// Speech state across chunks: speech lasts until `silence_limit` quiet
/// chunks in a row have passed.
#[derive(Debug, Clone, Copy)]
pub struct VadTracker {
    silence_count: usize,
    silence_limit: usize,
    in_speech: bool,
}

/// The state after one chunk: `(silence_count, in_speech)`, and whether the
/// chunk counts as speech.
pub open spec fn vad_step(count: nat, limit: nat, in_speech: bool, loud: bool) -> (nat, bool, bool) {
    if loud {
        (0, true, true)
    } else if in_speech {
        if count + 1 >= limit {
            (0, false, false)
        } else {
            (count + 1, true, true)
        }
    } else {
        (count, false, false)
    }
}

impl VadTracker {
    #[verifier::type_invariant]
    spec fn counted(self) -> bool {
        self.silence_count == 0 || self.silence_count < self.silence_limit
    }

    pub closed spec fn count(self) -> nat {
        self.silence_count as nat
    }

    pub closed spec fn limit(self) -> nat {
        self.silence_limit as nat
    }

    pub closed spec fn speaking(self) -> bool {
        self.in_speech
    }

    /// Silent, ending speech after five quiet chunks.
    pub fn new() -> (r: Self)
        ensures
            r.count() == 0,
            r.limit() == 5,
            !r.speaking(),
    {
        VadTracker { silence_count: 0, silence_limit: 5, in_speech: false }
    }

    /// Take in one chunk, `loud` when its energy crossed the threshold; the
    /// result tells whether speech is under way.
    pub fn observe(&mut self, loud: bool) -> (r: bool)
        ensures
            ({
                let (c, s, res) = vad_step(old(self).count(), old(self).limit(), old(self).speaking(), loud);
                &&& final(self).count() == c
                &&& final(self).speaking() == s
                &&& r == res
                &&& final(self).limit() == old(self).limit()
            }),
    {
        proof {
            use_type_invariant(&*self);
        }
        if loud {
            self.silence_count = 0;
            self.in_speech = true;
            true
        } else if self.in_speech {
            if self.silence_count + 1 >= self.silence_limit {
                self.silence_count = 0;
                self.in_speech = false;
            } else {
                self.silence_count = self.silence_count + 1;
            }
            self.in_speech
        } else {
            false
        }
    }

    /// Forget any speech under way.
    pub fn reset(&mut self)
        ensures
            final(self).count() == 0,
            !final(self).speaking(),
            final(self).limit() == old(self).limit(),
    {
        self.silence_count = 0;
        self.in_speech = false;
    }

    /// Whether speech is under way.
    pub fn in_speech(&self) -> (r: bool)
        ensures
            r == self.speaking(),
    {
        self.in_speech
    }
}

impl Default for VadTracker {
    fn default() -> (r: Self)
        ensures
            r.count() == 0,
            r.limit() == 0,
            !r.speaking(),
    {
        VadTracker { silence_count: 0, silence_limit: 0, in_speech: false }
    }
}

/// Speech ends after exactly `limit` quiet chunks: from a loud chunk, `k`
/// quiet chunks with `k < limit` keep speech under way with `k` counted, and
/// the `limit`-th ends it.
pub proof fn law_speech_ends_after_limit_quiet_chunks(limit: nat, k: nat)
    requires
        k >= 1,
        k <= limit,
    ensures
        quiet_run(limit, k) == (if k < limit {
            (k, true)
        } else {
            (0nat, false)
        }),
    decreases k,
{
    if k > 1 {
        law_speech_ends_after_limit_quiet_chunks(limit, (k - 1) as nat);
        assert(quiet_run(limit, (k - 1) as nat) == ((k - 1) as nat, true));
    } else {
        assert(quiet_run(limit, 0) == (0nat, true));
    }
    assert(quiet_run(limit, k) == {
        let (c2, s2, _) = vad_step(quiet_run(limit, (k - 1) as nat).0, limit, quiet_run(limit, (k - 1) as nat).1, false);
        (c2, s2)
    });
}

/// The state after a loud chunk and then `k` quiet ones.
pub open spec fn quiet_run(limit: nat, k: nat) -> (nat, bool)
    decreases k,
{
    if k == 0 {
        (0, true)
    } else {
        let (c, s) = quiet_run(limit, (k - 1) as nat);
        let (c2, s2, _) = vad_step(c, limit, s, false);
        (c2, s2)
    }
}

} // verus!

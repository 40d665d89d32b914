use vstd::prelude::*;

verus! {

/// The key identifiers the game interprets: a turn a quarter left, a turn a
/// quarter right, the neutral forward-continuation marker (no change of
/// heading), and the request to quit the session.
#[derive(Copy, Clone, Debug, PartialEq, Eq, Structural)]
pub enum Key {
    TurnLeft,
    TurnRight,
    Forward,
    Quit,
}

/// The key one poll of the held-key set resolves to: the first of a fixed
/// priority list (quit, then turn-left, then turn-right, then forward)
/// found in the set, or nothing when no recognized key is held.
pub open spec fn pick_of(held: Seq<Key>) -> Option<Key> {
    if held.contains(Key::Quit) {
        Some(Key::Quit)
    } else if held.contains(Key::TurnLeft) {
        Some(Key::TurnLeft)
    } else if held.contains(Key::TurnRight) {
        Some(Key::TurnRight)
    } else if held.contains(Key::Forward) {
        Some(Key::Forward)
    } else {
        None
    }
}

/// `v` holds the key `k`.
fn holds_key(v: &Vec<Key>, k: Key) -> (b: bool)
    ensures
        b == v@.contains(k),
{
    let mut i: usize = 0;
    while i < v.len()
        invariant
            i <= v@.len(),
            forall|j: int| 0 <= j < i ==> v@[j] != k,
        decreases v@.len() - i,
    {
        if v[i] == k {
            return true;
        }
        i += 1;
    }
    false
}

/// Resolves one poll of the currently held keys to at most one key, by the
/// fixed priority quit, turn-left, turn-right, forward. Held keys the game
/// does not interpret are not in `held` to begin with.
pub fn resolve_keys(held: &Vec<Key>) -> (r: Option<Key>)
    ensures
        r == pick_of(held@),
{
    if holds_key(held, Key::Quit) {
        Some(Key::Quit)
    } else if holds_key(held, Key::TurnLeft) {
        Some(Key::TurnLeft)
    } else if holds_key(held, Key::TurnRight) {
        Some(Key::TurnRight)
    } else if holds_key(held, Key::Forward) {
        Some(Key::Forward)
    } else {
        None
    }
}

/// What a whole sampling window resolves to, given the finding of each of
/// its polls in order: the last poll that found a key wins, except that a
/// quit sighting at any point takes precedence over everything later; a
/// window that never found a key resolves to the neutral forward marker.
pub open spec fn window_outcome(samples: Seq<Option<Key>>) -> Key
    decreases samples.len(),
{
    if samples.len() == 0 {
        Key::Forward
    } else {
        let rest = window_outcome(samples.drop_last());
        if rest == Key::Quit {
            Key::Quit
        } else {
            match samples.last() {
                Some(k) => k,
                None => rest,
            }
        }
    }
}

/// One tick's input-sampling window: records the finding of each poll of
/// the keyboard in turn, and resolves the window to one key.
pub struct InputWindow {
    resolved: Key,
    samples: Ghost<Seq<Option<Key>>>,
}

impl InputWindow {
    /// The findings recorded so far, in order.
    pub closed spec fn view(self) -> Seq<Option<Key>> {
        self.samples@
    }

    /// The running resolution matches the recorded findings.
    pub closed spec fn wf(self) -> bool {
        self.resolved == window_outcome(self.samples@)
    }

    /// Opens a window with no findings yet.
    pub fn new() -> (w: InputWindow)
        ensures
            w.wf(),
            w@ == Seq::<Option<Key>>::empty(),
    {
        InputWindow { resolved: Key::Forward, samples: Ghost(Seq::empty()) }
    }

    /// Records the finding of one poll: the key it resolved to, or nothing.
    pub fn record(&mut self, sample: Option<Key>)
        requires
            old(self).wf(),
        ensures
            final(self).wf(),
            final(self)@ == old(self)@.push(sample),
    {
        proof {
            self.samples@ = self.samples@.push(sample);
            assert(self.samples@.drop_last() =~= old(self)@);
        }
        if self.resolved != Key::Quit {
            if let Some(k) = sample {
                self.resolved = k;
            }
        }
    }

    /// Resolves the window: the last finding wins, except that a quit
    /// sighting takes precedence; no finding at all keeps the snake going
    /// forward.
    pub fn resolve(&self) -> (k: Key)
        requires
            self.wf(),
        ensures
            k == window_outcome(self@),
    {
        self.resolved
    }
}

} // verus!

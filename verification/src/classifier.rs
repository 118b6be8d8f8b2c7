//! Armed-key debounce: the level-input classifier.
//!
//! Continuous actions (relative moves and scrolls) are driven by keys that
//! are *held*, but a key that is already down when its binding becomes active
//! must not fire.  Each such key is therefore *armed* only once it has been
//! observed released; the action fires on a poll exactly when the key is both
//! armed and held, and firing does not consume the armament.  Entering cell
//! mode clears the armed set, so keys still depressed from the previous mode
//! stay silent until released and pressed again.

use vstd::prelude::*;

verus! {

use crate::keys::KeyId;

/// Whether a poll of key `k` fires its bound action: the key must be armed
/// and observed held.
pub open spec fn armed_fires(armed: Set<KeyId>, k: KeyId, held: bool) -> bool {
    armed.contains(k) && held
}

/// The armed set after a poll of key `k`: a key observed released becomes
/// (or stays) armed; a held key keeps its current armament.
pub open spec fn armed_after(armed: Set<KeyId>, k: KeyId, held: bool) -> Set<KeyId> {
    if !held {
        armed.insert(k)
    } else {
        armed
    }
}

/// The set of keys currently armed, i.e. eligible to fire their continuous
/// action while held.
pub struct ArmedSet {
    keys: Vec<KeyId>,
}

impl View for ArmedSet {
    type V = Set<KeyId>;

    closed spec fn view(&self) -> Set<KeyId> {
        self.keys@.to_set()
    }
}

impl ArmedSet {
    /// An empty armed set: nothing is eligible to fire.
    pub fn new() -> (s: ArmedSet)
        ensures
            s@ == Set::<KeyId>::empty(),
    {
        let s = ArmedSet { keys: Vec::new() };
        proof {
            assert(s@ =~= Set::<KeyId>::empty());
        }
        s
    }

    /// Whether key `k` is armed.
    pub fn contains(&self, k: KeyId) -> (b: bool)
        ensures
            b == self@.contains(k),
    {
        let n = self.keys.len();
        let mut i: usize = 0;
        while i < n
            invariant
                n == self.keys@.len(),
                0 <= i <= n,
                forall|j: int| 0 <= j < i ==> self.keys@[j] != k,
            decreases n - i,
        {
            if self.keys[i] == k {
                return true;
            }
            i = i + 1;
        }
        proof {
            assert(!self.keys@.contains(k));
        }
        false
    }

    /// Forget every armament, as on entering cell mode: keys already held
    /// at that moment cannot fire until released and pressed again.
    pub fn clear(&mut self)
        ensures
            final(self)@ == Set::<KeyId>::empty(),
    {
        self.keys.clear();
        proof {
            assert(self@ =~= Set::<KeyId>::empty());
        }
    }

    /// One debounced poll of key `k` with observed hold state `held`:
    /// returns whether the bound action fires, and updates the armament
    /// as `armed_after` describes.
    pub fn held_with_check(&mut self, k: KeyId, held: bool) -> (fired: bool)
        ensures
            fired == armed_fires(old(self)@, k, held),
            final(self)@ == armed_after(old(self)@, k, held),
    {
        if self.contains(k) {
            proof {
                if !held {
                    assert(old(self)@.insert(k) =~= old(self)@);
                }
            }
            held
        } else {
            if !held {
                proof {
                    Seq::<KeyId>::lemma_push_to_set_commute(self.keys@, k);
                }
                self.keys.push(k);
            }
            false
        }
    }
}

/// Whether `k` occurs in `list`.
fn key_list_contains(list: &Vec<KeyId>, k: KeyId) -> (b: bool)
    ensures
        b == list@.contains(k),
{
    let n = list.len();
    let mut i: usize = 0;
    while i < n
        invariant
            n == list@.len(),
            0 <= i <= n,
            forall|j: int| 0 <= j < i ==> list@[j] != k,
        decreases n - i,
    {
        if list[i] == k {
            return true;
        }
        i = i + 1;
    }
    proof {
        assert(!list@.contains(k));
    }
    false
}

/// The pressed edges between two polls of a level input source: the keys
/// held on this poll that were not held on the previous one.
pub fn edges(prev_held: &Vec<KeyId>, now_held: &Vec<KeyId>) -> (r: Vec<KeyId>)
    ensures
        forall|k: KeyId|
            #[trigger] r@.contains(k) <==> now_held@.contains(k) && !prev_held@.contains(k),
{
    let mut r: Vec<KeyId> = Vec::new();
    let n = now_held.len();
    let mut i: usize = 0;
    while i < n
        invariant
            n == now_held@.len(),
            0 <= i <= n,
            forall|j: int|
                0 <= j < i && !prev_held@.contains(#[trigger] now_held@[j]) ==> r@.contains(
                    now_held@[j],
                ),
            forall|k: KeyId|
                #[trigger] r@.contains(k) ==> now_held@.contains(k) && !prev_held@.contains(k),
        decreases n - i,
    {
        let k = now_held[i];
        let ghost prev_r = r@;
        if !key_list_contains(prev_held, k) {
            r.push(k);
            proof {
                assert(now_held@[i as int] == k);
                assert(r@[r@.len() - 1] == k);
                assert forall|x: KeyId| #[trigger] prev_r.contains(x) implies r@.contains(x) by {
                    let idx = choose|idx: int| 0 <= idx < prev_r.len() && prev_r[idx] == x;
                    assert(r@[idx] == x);
                }
                assert forall|x: KeyId| #[trigger] r@.contains(x) implies prev_r.contains(x) || x
                    == k by {
                    let idx = choose|idx: int| 0 <= idx < r@.len() && r@[idx] == x;
                    if idx < r@.len() - 1 {
                        assert(prev_r[idx] == x);
                    }
                }
            }
        }
        i = i + 1;
    }
    r
}

/// Number of times the action bound to `k` fires over a run of polls with
/// the given observed hold states, starting from the given armed set.
pub open spec fn run_fires(armed: Set<KeyId>, k: KeyId, helds: Seq<bool>) -> nat
    decreases helds.len(),
{
    if helds.len() == 0 {
        0
    } else {
        (if armed_fires(armed, k, helds[0]) {
            1nat
        } else {
            0nat
        }) + run_fires(armed_after(armed, k, helds[0]), k, helds.drop_first())
    }
}

/// Debounce law, silent half: while a key is unarmed (as right after the
/// armed set was cleared) and observed held on every poll, its action never
/// fires, no matter how long the run.
pub proof fn lemma_held_unarmed_never_fires(armed: Set<KeyId>, k: KeyId, helds: Seq<bool>)
    requires
        !armed.contains(k),
        forall|i: int| 0 <= i < helds.len() ==> helds[i],
    ensures
        run_fires(armed, k, helds) == 0,
    decreases helds.len(),
{
    if helds.len() > 0 {
        assert(helds[0]);
        lemma_held_unarmed_never_fires(armed_after(armed, k, helds[0]), k, helds.drop_first());
    }
}

/// Debounce law, firing half: once a key is armed (it has been observed
/// released), holding it fires the action on every poll.
pub proof fn lemma_held_armed_always_fires(armed: Set<KeyId>, k: KeyId, helds: Seq<bool>)
    requires
        armed.contains(k),
        forall|i: int| 0 <= i < helds.len() ==> helds[i],
    ensures
        run_fires(armed, k, helds) == helds.len(),
    decreases helds.len(),
{
    if helds.len() > 0 {
        assert(helds[0]);
        lemma_held_armed_always_fires(armed_after(armed, k, helds[0]), k, helds.drop_first());
    }
}

/// A release arms the key: after one poll that observes the key up, it is
/// armed regardless of its previous state.
pub proof fn lemma_release_arms(armed: Set<KeyId>, k: KeyId)
    ensures
        armed_after(armed, k, false).contains(k),
{
}

} // verus!

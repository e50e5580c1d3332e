use vstd::prelude::*;

verus! {

/// The sixteen key states of the CHIP-8 keypad.  The execution engine only
/// reads them; the external input collaborator sets and clears them.
pub struct Keypad {
    keys: Vec<bool>,
}

impl View for Keypad {
    type V = Seq<bool>;

    closed spec fn view(&self) -> Seq<bool> {
        self.keys@
    }
}

/// The lowest-numbered key among 0..16 that is currently pressed, starting
/// the scan at key `k`.
pub open spec fn first_pressed_from(keys: Seq<bool>, k: int) -> Option<u8>
    decreases 16 - k,
{
    if k < 0 || k >= 16 {
        None
    } else if keys[k] {
        Some(k as u8)
    } else {
        first_pressed_from(keys, k + 1)
    }
}

/// The lowest-numbered key that is currently pressed, if any.
pub open spec fn first_pressed(keys: Seq<bool>) -> Option<u8> {
    first_pressed_from(keys, 0)
}

/// A successful key scan always names a key index below 16.
pub proof fn lemma_first_pressed_bound(keys: Seq<bool>, j: int)
    ensures
        first_pressed_from(keys, j) matches Some(k) ==> 0 <= k < 16,
    decreases 16 - j,
{
    if 0 <= j < 16 && !keys[j] {
        lemma_first_pressed_bound(keys, j + 1);
    }
}

impl Keypad {
    /// A keypad always carries exactly sixteen key states.
    pub open spec fn wf(&self) -> bool {
        self@.len() == 16
    }

    /// All keys start released.
    pub fn new() -> (r: Keypad)
        ensures
            r.wf(),
            forall|k: int| 0 <= k < 16 ==> !r@[k],
    {
        let mut keys: Vec<bool> = Vec::new();
        let mut i: usize = 0;
        while i < 16
            invariant
                i <= 16,
                keys@.len() == i,
                forall|k: int| 0 <= k < i ==> !keys@[k],
            decreases 16 - i,
        {
            keys.push(false);
            i += 1;
        }
        Keypad { keys }
    }

    /// Whether key `key` is currently held down.
    pub fn is_pressed(&self, key: u8) -> (r: bool)
        requires
            self.wf(),
            key < 16,
        ensures
            r == self@[key as int],
    {
        self.keys[key as usize]
    }

    /// Record a press or release of key `key`; called only by the external
    /// input collaborator, never by the execution engine.
    pub fn set_pressed(&mut self, key: u8, down: bool)
        requires
            old(self).wf(),
            key < 16,
        ensures
            final(self).wf(),
            final(self)@ == old(self)@.update(key as int, down),
    {
        self.keys.set(key as usize, down);
    }

    /// Scan for the lowest-numbered pressed key.
    pub fn scan(&self) -> (r: Option<u8>)
        requires
            self.wf(),
        ensures
            r == first_pressed(self@),
    {
        let mut k: usize = 0;
        while k < 16
            invariant
                self.wf(),
                k <= 16,
                first_pressed(self@) == first_pressed_from(self@, k as int),
            decreases 16 - k,
        {
            if self.keys[k] {
                return Some(k as u8);
            }
            k += 1;
        }
        None
    }
}

} // verus!

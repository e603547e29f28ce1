//! The USB HID boot-protocol keyboard report and its keycode-slot discipline.

use vstd::prelude::*;

verus! {

broadcast use vstd::array::group_array_axioms;

/// A boot-protocol keyboard report.
///
/// Six keycode slots (a zero byte marks an empty slot), a modifier mask, a
/// reserved byte fixed at zero on the wire, and the LED-state byte the host
/// may send back (stored, never acted on).
#[derive(Clone, Copy)]
pub struct KeyReport {
    pub modifier: u8,
    pub reserved: u8,
    pub leds: u8,
    pub keycodes: [u8; 6],
}

/// Every slot of `s` is empty.
pub open spec fn all_clear(s: Seq<u8>) -> bool {
    forall|i: int| 0 <= i < s.len() ==> s[i] == 0
}

/// Some slot of `s` holds `v`.
pub open spec fn contains_code(s: Seq<u8>, v: u8) -> bool {
    exists|i: int| 0 <= i < s.len() && s[i] == v
}

/// Index of the first slot holding `v`, or -1 when no slot does.
pub open spec fn first_slot(s: Seq<u8>, v: u8) -> int
    decreases s.len(),
{
    if s.len() == 0 {
        -1
    } else if s[0] == v {
        0
    } else {
        let rest = first_slot(s.drop_first(), v);
        if rest < 0 {
            -1
        } else {
            1 + rest
        }
    }
}

/// A press writes `code` into the first empty slot; with every slot occupied
/// the press is dropped and the report is left as it was.
pub open spec fn spec_press(s: Seq<u8>, code: u8) -> Seq<u8> {
    if contains_code(s, 0) {
        s.update(first_slot(s, 0), code)
    } else {
        s
    }
}

/// A release empties the slot holding `code`, wherever it sits; a code that
/// is not held anywhere leaves the report as it was.
pub open spec fn spec_release(s: Seq<u8>, code: u8) -> Seq<u8> {
    if contains_code(s, code) {
        s.update(first_slot(s, code), 0)
    } else {
        s
    }
}

/// `first_slot` finds the least index holding `v` exactly when one exists.
pub proof fn lemma_first_slot_spec(s: Seq<u8>, v: u8)
    ensures
        contains_code(s, v) ==> {
            let f = first_slot(s, v);
            &&& 0 <= f < s.len()
            &&& s[f] == v
            &&& forall|j: int| 0 <= j < f ==> s[j] != v
        },
        !contains_code(s, v) ==> first_slot(s, v) == -1,
    decreases s.len(),
{
    if s.len() == 0 {
    } else if s[0] == v {
    } else {
        let rest = s.drop_first();
        lemma_first_slot_spec(rest, v);
        assert(forall|i: int| 1 <= i < s.len() ==> s[i] == rest[i - 1]);
        if contains_code(s, v) {
            let w = choose|i: int| 0 <= i < s.len() && s[i] == v;
            assert(rest[w - 1] == v);
            assert(contains_code(rest, v));
        }
        if contains_code(rest, v) {
            let w = choose|i: int| 0 <= i < rest.len() && rest[i] == v;
            assert(s[w + 1] == v);
            assert(contains_code(s, v));
        }
    }
}

/// The least index holding `v` is unique: any index that holds `v` with no
/// earlier occurrence is `first_slot`.
pub proof fn lemma_first_slot_unique(s: Seq<u8>, v: u8, i: int)
    requires
        0 <= i < s.len(),
        s[i] == v,
        forall|j: int| 0 <= j < i ==> s[j] != v,
    ensures
        first_slot(s, v) == i,
{
    lemma_first_slot_spec(s, v);
    assert(contains_code(s, v));
    let f = first_slot(s, v);
    if f < i {
        assert(s[f] != v);
    } else if f > i {
        assert(s[i] != v);
    }
}

/// Index of the first slot holding `code`, searched front to back.
pub fn find_code(keycodes: &[u8; 6], code: u8) -> (r: Option<usize>)
    ensures
        match r {
            Some(i) => {
                &&& i < 6
                &&& keycodes@[i as int] == code
                &&& forall|j: int| 0 <= j < i as int ==> keycodes@[j] != code
            },
            None => forall|j: int| 0 <= j < 6 ==> keycodes@[j] != code,
        },
{
    let mut i: usize = 0;
    while i < 6
        invariant
            i <= 6,
            forall|j: int| 0 <= j < i as int ==> keycodes@[j] != code,
        decreases 6 - i,
    {
        if keycodes[i] == code {
            return Some(i);
        }
        i += 1;
    }
    None
}

/// Record a key going down: its code lands in the first empty slot; when all
/// six slots are occupied the press is silently dropped.
pub fn press_key(keycodes: &mut [u8; 6], code: u8)
    requires
        code != 0,
    ensures
        final(keycodes)@ == spec_press(old(keycodes)@, code),
{
    match find_code(keycodes, 0) {
        Some(i) => {
            proof {
                lemma_first_slot_unique(keycodes@, 0, i as int);
            }
            keycodes[i] = code;
        },
        None => {
            proof {
                assert(!contains_code(keycodes@, 0));
            }
        },
    }
}

/// Record a key coming up: the slot holding its code is emptied; a code held
/// nowhere leaves the report untouched.
pub fn release_key(keycodes: &mut [u8; 6], code: u8)
    requires
        code != 0,
    ensures
        final(keycodes)@ == spec_release(old(keycodes)@, code),
{
    match find_code(keycodes, code) {
        Some(i) => {
            proof {
                lemma_first_slot_unique(keycodes@, code, i as int);
            }
            keycodes[i] = 0;
        },
        None => {
            proof {
                assert(!contains_code(keycodes@, code));
            }
        },
    }
}

/// Byte-for-byte equality of two slot arrays, the report writer's change test.
pub fn keycodes_equal(a: &[u8; 6], b: &[u8; 6]) -> (r: bool)
    ensures
        r == (a@ == b@),
{
    let mut i: usize = 0;
    while i < 6
        invariant
            i <= 6,
            forall|j: int| 0 <= j < i as int ==> a@[j] == b@[j],
        decreases 6 - i,
    {
        if a[i] != b[i] {
            assert(a@ != b@);
            return false;
        }
        i += 1;
    }
    proof {
        assert(a@ =~= b@);
    }
    true
}

/// Pressing a code into a report that does not already hold it and then
/// releasing that code restores the report exactly; in particular a press
/// from the all-clear report and the matching release round-trip to
/// all-clear, whichever slot the press landed in.
pub proof fn lemma_press_release_round_trip(s: Seq<u8>, code: u8)
    requires
        code != 0,
        !contains_code(s, code),
    ensures
        spec_release(spec_press(s, code), code) == s,
{
    if contains_code(s, 0) {
        lemma_first_slot_spec(s, 0);
        let f = first_slot(s, 0);
        let t = s.update(f, code);
        assert(spec_press(s, code) == t);
        assert(t[f] == code);
        assert(forall|j: int| 0 <= j < f ==> t[j] == s[j] && t[j] != code);
        lemma_first_slot_unique(t, code, f);
        assert(contains_code(t, code));
        assert(spec_release(t, code) == t.update(f, 0));
        assert(t.update(f, 0) =~= s);
    } else {
        assert(spec_press(s, code) == s);
        assert(spec_release(s, code) == s);
    }
}

/// A seventh (or later) simultaneous press is dropped without altering any
/// occupied slot: pressing into a fully occupied report changes nothing.
pub proof fn lemma_press_on_full_report(s: Seq<u8>, code: u8)
    requires
        forall|i: int| 0 <= i < s.len() ==> s[i] != 0,
    ensures
        spec_press(s, code) == s,
{
    assert(!contains_code(s, 0));
}

impl KeyReport {
    /// The report with no key held and all bytes zero.
    pub fn empty() -> (r: KeyReport)
        ensures
            r.modifier == 0,
            r.reserved == 0,
            r.leds == 0,
            all_clear(r.keycodes@),
    {
        KeyReport { modifier: 0, reserved: 0, leds: 0, keycodes: [0, 0, 0, 0, 0, 0] }
    }

    /// The 8-byte wire form the host's boot-protocol driver expects:
    /// modifier, reserved, then the six keycode slots. The stored LED byte
    /// travels host to device only and is not part of this report.
    pub fn serialize(&self) -> (out: Vec<u8>)
        ensures
            out@.len() == 8,
            out@[0] == self.modifier,
            out@[1] == self.reserved,
            forall|i: int| 0 <= i < 6 ==> out@[2 + i] == self.keycodes@[i],
    {
        let mut out: Vec<u8> = Vec::new();
        out.push(self.modifier);
        out.push(self.reserved);
        let mut i: usize = 0;
        while i < 6
            invariant
                i <= 6,
                out@.len() == 2 + i as int,
                out@[0] == self.modifier,
                out@[1] == self.reserved,
                forall|j: int| 0 <= j < i as int ==> out@[2 + j] == self.keycodes@[j],
            decreases 6 - i,
        {
            out.push(self.keycodes[i]);
            i += 1;
        }
        out
    }

    /// Whether any keycode slot is occupied; drives the key-held indicator
    /// output.
    pub fn any_key_held(&self) -> (r: bool)
        ensures
            r == !all_clear(self.keycodes@),
    {
        let mut i: usize = 0;
        let mut held = false;
        while i < 6
            invariant
                i <= 6,
                held == !(forall|k: int| 0 <= k < i as int ==> self.keycodes@[k] == 0),
            decreases 6 - i,
        {
            if self.keycodes[i] != 0 {
                held = true;
            }
            i += 1;
        }
        held
    }
}

} // verus!

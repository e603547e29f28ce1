//! Key-matrix scanning: rebuilding the keycode slots from sampled cells and
//! deciding when a rebuilt report is handed to the transport.

use vstd::prelude::*;
use crate::report::{
    KeyReport, all_clear, contains_code, press_key, release_key, keycodes_equal,
    lemma_first_slot_unique,
};

verus! {

broadcast use vstd::array::group_array_axioms;

/// One key switch position: a column/row coordinate in the matrix and the
/// keycode assigned to it. The table of cells is fixed configuration; a
/// cell's pressed state is sampled anew every cycle, never stored.
#[derive(Clone, Copy)]
pub struct MatrixCell {
    pub col: usize,
    pub row: usize,
    pub keycode: u8,
}

/// A usable cell table: every keycode is a real code (nonzero) and no two
/// cells share one, so a release can only clear the slot its own cell filled.
pub open spec fn layout_wf(cells: Seq<MatrixCell>) -> bool {
    &&& forall|i: int| 0 <= i < cells.len() ==> (#[trigger] cells[i]).keycode != 0
    &&& forall|i: int, j: int|
        0 <= i < j < cells.len() ==> cells[i].keycode != cells[j].keycode
}

/// The keycodes of the cells among the first `n` that sampled pressed, in
/// scan order.
pub open spec fn scan_codes_upto(cells: Seq<MatrixCell>, pressed: Seq<bool>, n: int) -> Seq<u8>
    decreases n,
{
    if n <= 0 {
        Seq::empty()
    } else {
        let rest = scan_codes_upto(cells, pressed, n - 1);
        if pressed[n - 1] {
            rest.push(cells[n - 1].keycode)
        } else {
            rest
        }
    }
}

/// The keycodes of all pressed cells, in scan order.
pub open spec fn scan_codes(cells: Seq<MatrixCell>, pressed: Seq<bool>) -> Seq<u8> {
    scan_codes_upto(cells, pressed, cells.len() as int)
}

/// The six keycode slots holding the first six codes of `pc` in order, the
/// remaining slots empty; codes past the sixth are dropped.
pub open spec fn slots_of(pc: Seq<u8>) -> Seq<u8> {
    Seq::new(6, |i: int| if i < pc.len() { pc[i] } else { 0 })
}

/// The keycode slots a scan cycle rebuilds from the sampled cell states.
pub open spec fn cycle_report(cells: Seq<MatrixCell>, pressed: Seq<bool>) -> Seq<u8> {
    slots_of(scan_codes(cells, pressed))
}

/// Whether a cycle that rebuilt its report while `last_tx` was the last
/// transmitted report hands the rebuilt report to the transport.
pub open spec fn cycle_emits(last_tx: Seq<u8>, cells: Seq<MatrixCell>, pressed: Seq<bool>) -> bool {
    cycle_report(cells, pressed) != last_tx
}

/// The transmission baseline after a cycle: it advances to the rebuilt
/// report exactly when that report was handed out (it differed from the
/// baseline) and the transport accepted it; an emission that failed, or a
/// cycle that emitted nothing, leaves the baseline where it was.
pub open spec fn next_baseline(
    last_tx: Seq<u8>,
    cells: Seq<MatrixCell>,
    pressed: Seq<bool>,
    accepted: bool,
) -> Seq<u8> {
    if cycle_emits(last_tx, cells, pressed) && accepted {
        cycle_report(cells, pressed)
    } else {
        last_tx
    }
}

/// The code a partial scan collected at slot `k` came from a pressed cell
/// the scan has already passed.
proof fn lemma_scan_codes_membership(cells: Seq<MatrixCell>, pressed: Seq<bool>, n: int, k: int)
    requires
        0 <= k < scan_codes_upto(cells, pressed, n).len(),
    ensures
        exists|j: int|
            0 <= j < n && pressed[j] && cells[j].keycode == scan_codes_upto(cells, pressed, n)[k],
    decreases n,
{
    let rest = scan_codes_upto(cells, pressed, n - 1);
    let cur = scan_codes_upto(cells, pressed, n);
    if pressed[n - 1] && k == rest.len() {
        assert(0 <= n - 1 < n && pressed[n - 1] && cells[n - 1].keycode == cur[k]);
    } else {
        assert(cur[k] == rest[k]);
        lemma_scan_codes_membership(cells, pressed, n - 1, k);
        let j = choose|j: int| 0 <= j < n - 1 && pressed[j] && cells[j].keycode == rest[k];
        assert(0 <= j < n && pressed[j] && cells[j].keycode == cur[k]);
    }
}

/// Under a well-formed table, every collected code is nonzero.
proof fn lemma_scan_codes_nonzero(cells: Seq<MatrixCell>, pressed: Seq<bool>, n: int)
    requires
        layout_wf(cells),
        n <= cells.len(),
    ensures
        forall|k: int|
            0 <= k < scan_codes_upto(cells, pressed, n).len() ==> #[trigger] scan_codes_upto(
                cells,
                pressed,
                n,
            )[k] != 0,
{
    let s = scan_codes_upto(cells, pressed, n);
    assert forall|k: int| 0 <= k < s.len() implies s[k] != 0 by {
        lemma_scan_codes_membership(cells, pressed, n, k);
        let j = choose|j: int| 0 <= j < n && pressed[j] && cells[j].keycode == s[k];
        assert(cells[j].keycode != 0);
    }
}

/// Under a well-formed table, the codes collected before reaching cell `i`
/// do not include cell `i`'s own code.
proof fn lemma_scan_codes_skips_cell(cells: Seq<MatrixCell>, pressed: Seq<bool>, i: int)
    requires
        layout_wf(cells),
        0 <= i < cells.len(),
    ensures
        !contains_code(scan_codes_upto(cells, pressed, i), cells[i].keycode),
{
    let s = scan_codes_upto(cells, pressed, i);
    assert forall|k: int| 0 <= k < s.len() implies s[k] != cells[i].keycode by {
        lemma_scan_codes_membership(cells, pressed, i, k);
        let j = choose|j: int| 0 <= j < i && pressed[j] && cells[j].keycode == s[k];
        assert(cells[j].keycode != cells[i].keycode);
    }
}

/// Rebuild the six keycode slots from scratch out of one cycle's samples.
///
/// `pressed[i]` is how cell `cells[i]` sampled, in scan order: column by
/// column, the rows wired to a column while it is strobed. Each pressed
/// cell's code goes to the first empty slot; a seventh and later pressed
/// cell is dropped; a released cell's code is cleared from whatever slot
/// holds it, which in a from-scratch rebuild under a well-formed table is
/// never any slot.
pub fn build_keycodes(cells: &Vec<MatrixCell>, pressed: &Vec<bool>) -> (out: [u8; 6])
    requires
        layout_wf(cells@),
        pressed@.len() == cells@.len(),
    ensures
        out@ == cycle_report(cells@, pressed@),
{
    let mut out: [u8; 6] = [0, 0, 0, 0, 0, 0];
    proof {
        assert(out@ =~= slots_of(scan_codes_upto(cells@, pressed@, 0)));
    }
    let n = cells.len();
    let mut i: usize = 0;
    while i < n
        invariant
            i <= n,
            n == cells@.len(),
            pressed@.len() == cells@.len(),
            layout_wf(cells@),
            out@ == slots_of(scan_codes_upto(cells@, pressed@, i as int)),
        decreases n - i,
    {
        let ghost pc = scan_codes_upto(cells@, pressed@, i as int);
        let code = cells[i].keycode;
        proof {
            lemma_scan_codes_nonzero(cells@, pressed@, i as int);
        }
        if pressed[i] {
            press_key(&mut out, code);
            proof {
                let pc2 = scan_codes_upto(cells@, pressed@, i as int + 1);
                assert(pc2 == pc.push(code));
                let s = slots_of(pc);
                if pc.len() < 6 {
                    assert(s[pc.len() as int] == 0);
                    lemma_first_slot_unique(s, 0, pc.len() as int);
                    assert(contains_code(s, 0));
                    assert(out@ == s.update(pc.len() as int, code));
                    assert(out@ =~= slots_of(pc2));
                } else {
                    assert(forall|k: int| 0 <= k < 6 ==> s[k] != 0);
                    assert(!contains_code(s, 0));
                    assert(out@ == s);
                    assert(slots_of(pc2) =~= s);
                }
            }
        } else {
            proof {
                lemma_scan_codes_skips_cell(cells@, pressed@, i as int);
                let s = slots_of(pc);
                assert forall|k: int| 0 <= k < 6 implies s[k] != code by {
                    if k < pc.len() {
                        assert(s[k] == pc[k]);
                        assert(!contains_code(pc, code));
                        assert(pc[k] != code);
                    } else {
                        assert(s[k] == 0);
                    }
                }
                assert(!contains_code(s, code));
            }
            release_key(&mut out, code);
            proof {
                assert(scan_codes_upto(cells@, pressed@, i as int + 1) == pc);
            }
        }
        i += 1;
    }
    out
}

/// Scans the key matrix: owns the fixed cell table, the previous cycle's
/// report (for the indicator output), and the last report the transport
/// acknowledged, the baseline every emission decision compares against.
pub struct MatrixScanner {
    cells: Vec<MatrixCell>,
    prev: [u8; 6],
    sent: [u8; 6],
}

impl MatrixScanner {
    /// The configured cell table.
    pub closed spec fn cells_spec(&self) -> Seq<MatrixCell> {
        self.cells@
    }

    /// The keycode slots of the previous cycle's report.
    pub closed spec fn prev_spec(&self) -> Seq<u8> {
        self.prev@
    }

    /// The keycode slots of the last report the transport acknowledged.
    pub closed spec fn sent_spec(&self) -> Seq<u8> {
        self.sent@
    }

    pub open spec fn wf(&self) -> bool {
        layout_wf(self.cells_spec())
    }

    /// A scanner over the given cell table; before the first cycle both the
    /// retained report and the transmission baseline are the all-zero
    /// report, matching the host's assumption about a freshly attached
    /// keyboard.
    pub fn new(cells: Vec<MatrixCell>) -> (s: MatrixScanner)
        requires
            layout_wf(cells@),
        ensures
            s.wf(),
            s.cells_spec() == cells@,
            s.prev_spec() == seq![0u8, 0, 0, 0, 0, 0],
            s.sent_spec() == seq![0u8, 0, 0, 0, 0, 0],
    {
        let s = MatrixScanner { cells, prev: [0, 0, 0, 0, 0, 0], sent: [0, 0, 0, 0, 0, 0] };
        proof {
            assert(s.prev_spec() =~= seq![0u8, 0, 0, 0, 0, 0]);
            assert(s.sent_spec() =~= seq![0u8, 0, 0, 0, 0, 0]);
        }
        s
    }

    /// How many cells a cycle samples; the caller hands `scan_cycle` one
    /// sample per cell.
    pub fn cell_count(&self) -> (n: usize)
        ensures
            n == self.cells_spec().len(),
    {
        self.cells.len()
    }

    /// Run one scan cycle over one round of samples.
    ///
    /// The report is rebuilt from scratch and replaces the retained
    /// previous report; it is handed back for transmission exactly when it
    /// differs byte-for-byte from the last acknowledged report. The
    /// baseline itself does not move here: the caller confirms a successful
    /// transmit with `confirm_transmitted`, while after a failed one — the
    /// failure is logged, never fatal — it simply scans on, and the next
    /// cycle attempts again with current, possibly already-changed state.
    /// A returned report carries zero modifier, reserved and LED bytes.
    pub fn scan_cycle(&mut self, pressed: &Vec<bool>) -> (emit: Option<KeyReport>)
        requires
            old(self).wf(),
            pressed@.len() == old(self).cells_spec().len(),
        ensures
            final(self).wf(),
            final(self).cells_spec() == old(self).cells_spec(),
            final(self).prev_spec() == cycle_report(old(self).cells_spec(), pressed@),
            final(self).sent_spec() == old(self).sent_spec(),
            (emit is Some) == cycle_emits(old(self).sent_spec(), old(self).cells_spec(), pressed@),
            emit matches Some(r) ==> {
                &&& r.keycodes@ == cycle_report(old(self).cells_spec(), pressed@)
                &&& r.modifier == 0
                &&& r.reserved == 0
                &&& r.leds == 0
            },
    {
        let built = build_keycodes(&self.cells, pressed);
        let unchanged = keycodes_equal(&built, &self.sent);
        self.prev = built;
        if unchanged {
            None
        } else {
            Some(KeyReport { modifier: 0, reserved: 0, leds: 0, keycodes: built })
        }
    }

    /// The transport accepted the report the last cycle handed out: it
    /// becomes the transmission baseline, so an unchanged matrix emits
    /// nothing further until the state really changes.
    pub fn confirm_transmitted(&mut self)
        ensures
            final(self).cells_spec() == old(self).cells_spec(),
            final(self).prev_spec() == old(self).prev_spec(),
            final(self).sent_spec() == old(self).prev_spec(),
            final(self).wf() == old(self).wf(),
    {
        self.sent = self.prev;
    }

    /// Whether the retained report holds any key.
    ///
    /// The indicator output is driven from this at the start of a cycle,
    /// before the slots are rebuilt, so it reflects the previous cycle's
    /// occupancy while the columns strobe — a deliberate one-cycle lag.
    pub fn held_indicator(&self) -> (r: bool)
        ensures
            r == !all_clear(self.prev_spec()),
    {
        let report = KeyReport { modifier: 0, reserved: 0, leds: 0, keycodes: self.prev };
        report.any_key_held()
    }
}

/// A report is transmitted exactly when it differs byte-for-byte from the
/// immediately preceding transmitted report.
///
/// `last_tx` is the last acknowledged report, the baseline `scan_cycle`
/// compares against; when every acknowledged transmission is confirmed the
/// baseline is precisely the last transmitted report, from the initial
/// all-zero report the host assumes onward. A cycle emits exactly when its
/// rebuilt report differs from that baseline, and the baseline after the
/// cycle is again the last transmitted report, whether the cycle's emission
/// was accepted, failed, or never happened.
pub proof fn lemma_transmit_iff_changed(
    cells: Seq<MatrixCell>,
    pressed: Seq<bool>,
    last_tx: Seq<u8>,
    accepted: bool,
)
    ensures
        cycle_emits(last_tx, cells, pressed) == (cycle_report(cells, pressed) != last_tx),
        cycle_emits(last_tx, cells, pressed) && accepted ==> next_baseline(
            last_tx,
            cells,
            pressed,
            accepted,
        ) == cycle_report(cells, pressed),
        !(cycle_emits(last_tx, cells, pressed) && accepted) ==> next_baseline(
            last_tx,
            cells,
            pressed,
            accepted,
        ) == last_tx,
{
}

/// Holding every key steady across cycles produces exactly one accepted
/// transmission, not one per cycle: once a cycle's report has been
/// transmitted and acknowledged — and equally when the cycle emitted
/// nothing — a further cycle under the same samples rebuilds the same
/// report and emits nothing.
pub proof fn lemma_steady_keys_no_retransmission(
    cells: Seq<MatrixCell>,
    pressed: Seq<bool>,
    last_tx: Seq<u8>,
)
    ensures
        !cycle_emits(next_baseline(last_tx, cells, pressed, true), cells, pressed),
{
}

/// A failed transmission is never retried within its cycle and never
/// fatal: the baseline stays where it was, so the next cycle — scanning
/// fresh, possibly already-changed samples — attempts a transmission
/// exactly when its rebuilt report still differs from the last report that
/// actually reached the host. In particular, under unchanged samples the
/// report that failed to go out is offered again.
pub proof fn lemma_failed_transmit_retried(
    cells: Seq<MatrixCell>,
    pressed: Seq<bool>,
    fresh: Seq<bool>,
    last_tx: Seq<u8>,
)
    ensures
        next_baseline(last_tx, cells, pressed, false) == last_tx,
        cycle_emits(next_baseline(last_tx, cells, pressed, false), cells, fresh) == cycle_emits(
            last_tx,
            cells,
            fresh,
        ),
{
}

/// With every cell released the rebuilt report is all-clear: releasing
/// whatever was pressed returns the report to the all-zero keycode state,
/// whichever slots the presses had filled.
pub proof fn lemma_all_released_all_clear(cells: Seq<MatrixCell>, pressed: Seq<bool>)
    requires
        forall|j: int| 0 <= j < pressed.len() ==> !pressed[j],
        cells.len() <= pressed.len(),
    ensures
        all_clear(cycle_report(cells, pressed)),
{
    lemma_scan_none_pressed(cells, pressed, cells.len() as int);
}

proof fn lemma_scan_none_pressed(cells: Seq<MatrixCell>, pressed: Seq<bool>, n: int)
    requires
        forall|j: int| 0 <= j < pressed.len() ==> !pressed[j],
        n <= pressed.len(),
    ensures
        scan_codes_upto(cells, pressed, n) == Seq::<u8>::empty(),
    decreases n,
{
    if n > 0 {
        lemma_scan_none_pressed(cells, pressed, n - 1);
    }
}

proof fn lemma_scan_single_pressed(cells: Seq<MatrixCell>, pressed: Seq<bool>, i: int, n: int)
    requires
        0 <= i < pressed.len(),
        pressed[i],
        forall|j: int| 0 <= j < pressed.len() && j != i ==> !(#[trigger] pressed[j]),
        n <= pressed.len(),
    ensures
        scan_codes_upto(cells, pressed, n) == if n > i {
            seq![cells[i].keycode]
        } else {
            Seq::<u8>::empty()
        },
    decreases n,
{
    if n > 0 {
        lemma_scan_single_pressed(cells, pressed, i, n - 1);
        if n - 1 == i {
            assert(scan_codes_upto(cells, pressed, n) =~= seq![cells[i].keycode]);
        }
    }
}

/// Once six pressed cells have filled the slots, a further pressed cell is
/// dropped: it leaves every already-occupied slot, and with them the whole
/// rebuilt report, unaltered — no rollover or overflow report exists.
pub proof fn lemma_excess_press_dropped(cells: Seq<MatrixCell>, pressed: Seq<bool>, i: int)
    requires
        pressed[i],
        scan_codes_upto(cells, pressed, i).len() >= 6,
    ensures
        slots_of(scan_codes_upto(cells, pressed, i + 1)) == slots_of(
            scan_codes_upto(cells, pressed, i),
        ),
{
    assert(slots_of(scan_codes_upto(cells, pressed, i + 1)) =~= slots_of(
        scan_codes_upto(cells, pressed, i),
    ));
}

/// A single pressed cell, all others released, yields a report whose first
/// slot holds exactly that cell's configured keycode and whose other five
/// slots are empty.
pub proof fn lemma_single_press_report(cells: Seq<MatrixCell>, pressed: Seq<bool>, i: int)
    requires
        pressed.len() == cells.len(),
        0 <= i < cells.len(),
        pressed[i],
        forall|j: int| 0 <= j < pressed.len() && j != i ==> !(#[trigger] pressed[j]),
    ensures
        cycle_report(cells, pressed)[0] == cells[i].keycode,
        forall|k: int| 1 <= k < 6 ==> cycle_report(cells, pressed)[k] == 0,
{
    lemma_scan_single_pressed(cells, pressed, i, cells.len() as int);
}

/// The two-column, two-row table the firmware ships with: column 0 carries
/// keycodes 4 and 5 on rows 0 and 1, column 1 carries 6 and 7.
pub fn default_layout() -> (cells: Vec<MatrixCell>)
    ensures
        layout_wf(cells@),
        cells@.len() == 4,
        cells@[0] == (MatrixCell { col: 0, row: 0, keycode: 4 }),
        cells@[1] == (MatrixCell { col: 0, row: 1, keycode: 5 }),
        cells@[2] == (MatrixCell { col: 1, row: 0, keycode: 6 }),
        cells@[3] == (MatrixCell { col: 1, row: 1, keycode: 7 }),
{
    let mut cells: Vec<MatrixCell> = Vec::new();
    cells.push(MatrixCell { col: 0, row: 0, keycode: 4 });
    cells.push(MatrixCell { col: 0, row: 1, keycode: 5 });
    cells.push(MatrixCell { col: 1, row: 0, keycode: 6 });
    cells.push(MatrixCell { col: 1, row: 1, keycode: 7 });
    cells
}

} // verus!

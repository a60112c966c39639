//! Discovery of the devices on an I2C bus by probing every 8-bit address.
//!
//! The scanner decides which address to probe next and records whether the
//! probe was acknowledged; the caller performs the bus write itself.
use vstd::prelude::*;

verus! {

/// Control byte announcing that the next byte is a display command.
pub const COMMAND_CONTROL: u8 = 0x80;

/// Function-set instruction of the display controller.
pub const LCD_FUNCTIONSET: u8 = 0x20;

/// Function-set flag: 4-bit interface.
pub const LCD_4BITMODE: u8 = 0x00;

/// Function-set flag: two display lines.
pub const LCD_2LINE: u8 = 0x08;

/// Function-set flag: 5x8 dot characters.
pub const LCD_5X8_DOTS: u8 = 0x00;

/// Number of addresses a full scan probes: every 8-bit value.
pub const ADDRESS_COUNT: u16 = 256;

/// The addresses that acknowledged, in probe order, where `acks[a]` is the
/// outcome of the probe written to address `a`.
pub open spec fn acked_addresses(acks: Seq<bool>) -> Seq<u8>
    decreases acks.len(),
{
    if acks.len() == 0 {
        Seq::empty()
    } else {
        let earlier = acked_addresses(acks.drop_last());
        if acks.last() {
            earlier.push((acks.len() - 1) as u8)
        } else {
            earlier
        }
    }
}

/// Every element is smaller than each one after it.
pub open spec fn strictly_ascending(s: Seq<u8>) -> bool {
    forall|i: int, j: int| 0 <= i < j < s.len() ==> s[i] < s[j]
}

/// The function-set command used as the probe: 4-bit bus, two lines, 5x8 dots.
pub fn function_set_command() -> (r: u8)
    ensures
        r == 0x28,
{
    let r = LCD_FUNCTIONSET | LCD_4BITMODE | LCD_2LINE | LCD_5X8_DOTS;
    assert(0x20u8 | 0x00u8 | 0x08u8 | 0x00u8 == 0x28u8) by (bit_vector);
    r
}

/// The two bytes written to each candidate address during a scan.
pub fn probe_payload() -> (r: [u8; 2])
    ensures
        r@ == seq![0x80u8, 0x28u8],
{
    let r = [COMMAND_CONTROL, function_set_command()];
    assert(r@ =~= seq![0x80u8, 0x28u8]);
    r
}

/// A scan in progress: addresses `0 .. next` have been probed, in order.
pub struct Scanner {
    next: u16,
    found: Vec<u8>,
    acks: Ghost<Seq<bool>>,
}

impl Scanner {
    /// Outcome of each probe so far, indexed by address.
    pub closed spec fn outcomes(&self) -> Seq<bool> {
        self.acks@
    }

    /// The scanner's bookkeeping agrees with the probe outcomes.
    pub closed spec fn wf(&self) -> bool {
        &&& self.acks@.len() <= 256
        &&& self.next as int == self.acks@.len()
        &&& self.found@ == acked_addresses(self.acks@)
    }

    /// A scan that has probed nothing yet.
    pub fn new() -> (s: Scanner)
        ensures
            s.wf(),
            s.outcomes() == Seq::<bool>::empty(),
    {
        Scanner { next: 0, found: Vec::new(), acks: Ghost(Seq::empty()) }
    }

    /// The address to probe next, or `None` once all 256 have been probed.
    pub fn next_address(&self) -> (r: Option<u8>)
        requires
            self.wf(),
        ensures
            self.outcomes().len() < 256 ==> r == Some(self.outcomes().len() as u8),
            self.outcomes().len() == 256 ==> r is None,
    {
        if self.next < ADDRESS_COUNT {
            Some(self.next as u8)
        } else {
            None
        }
    }

    /// Whether every address has been probed.
    pub fn is_complete(&self) -> (r: bool)
        requires
            self.wf(),
        ensures
            r == (self.outcomes().len() == 256),
    {
        self.next == ADDRESS_COUNT
    }

    /// Records whether the probe of the pending address was acknowledged.
    pub fn record(&mut self, acked: bool)
        requires
            old(self).wf(),
            old(self).outcomes().len() < 256,
        ensures
            final(self).wf(),
            final(self).outcomes() == old(self).outcomes().push(acked),
    {
        let ghost before = self.acks@;
        if acked {
            self.found.push(self.next as u8);
        }
        self.next = self.next + 1;
        self.acks = Ghost(before.push(acked));
        assert(self.acks@.drop_last() =~= before);
    }

    /// The addresses that acknowledged so far, in ascending order.
    pub fn found(&self) -> (r: &Vec<u8>)
        requires
            self.wf(),
        ensures
            r@ == acked_addresses(self.outcomes()),
            strictly_ascending(r@),
            forall|a: u8| #[trigger]
                r@.contains(a) <==> ((a as int) < self.outcomes().len() && self.outcomes()[a as int]),
    {
        proof {
            lemma_listed_iff_acked(self.acks@);
            lemma_scan_strictly_ascending(self.acks@);
        }
        &self.found
    }
}

/// An address is listed by a scan exactly when it was probed and acknowledged;
/// in particular every address that did not acknowledge is absent.
pub proof fn lemma_listed_iff_acked(acks: Seq<bool>)
    requires
        acks.len() <= 256,
    ensures
        forall|a: u8| #[trigger]
            acked_addresses(acks).contains(a) <==> ((a as int) < acks.len() && acks[a as int]),
    decreases acks.len(),
{
    let r = acked_addresses(acks);
    if acks.len() > 0 {
        let earlier = acks.drop_last();
        let prev = acked_addresses(earlier);
        let last = (acks.len() - 1) as u8;
        assert(last as int == acks.len() - 1);
        lemma_listed_iff_acked(earlier);
        lemma_listed_below(earlier);
        assert forall|a: u8| #[trigger] r.contains(a) <==> ((a as int) < acks.len() && acks[a as int]) by {
            if (a as int) < acks.len() - 1 {
                assert(acks[a as int] == earlier[a as int]);
            }
            if acks.last() {
                assert(r == prev.push(last));
                if r.contains(a) && a != last {
                    let i = choose|i: int| 0 <= i < r.len() && r[i] == a;
                    assert(i < prev.len());
                    assert(prev[i] == a);
                    assert(prev.contains(a));
                }
                if (a as int) < acks.len() && acks[a as int] && a != last {
                    assert(prev.contains(a));
                    let i = choose|i: int| 0 <= i < prev.len() && prev[i] == a;
                    assert(r[i] == a);
                }
                if a == last {
                    assert(r[r.len() - 1] == a);
                }
            } else {
                assert(r == prev);
                if a == last {
                    assert(!prev.contains(a)) by {
                        if prev.contains(a) {
                            let i = choose|i: int| 0 <= i < prev.len() && prev[i] == a;
                            assert((prev[i] as int) < earlier.len());
                        }
                    }
                }
            }
        }
    }
}

/// Every listed address lies below the number of probes made.
proof fn lemma_listed_below(acks: Seq<bool>)
    requires
        acks.len() <= 256,
    ensures
        forall|i: int| 0 <= i < acked_addresses(acks).len() ==>
            (#[trigger] acked_addresses(acks)[i] as int) < acks.len(),
    decreases acks.len(),
{
    if acks.len() > 0 {
        let earlier = acks.drop_last();
        let last = (acks.len() - 1) as u8;
        assert(last as int == acks.len() - 1);
        lemma_listed_below(earlier);
        if acks.last() {
            assert(acked_addresses(acks) == acked_addresses(earlier).push(last));
        } else {
            assert(acked_addresses(acks) == acked_addresses(earlier));
        }
    }
}

/// A scan lists its addresses in strictly ascending order, hence without duplicates.
pub proof fn lemma_scan_strictly_ascending(acks: Seq<bool>)
    requires
        acks.len() <= 256,
    ensures
        strictly_ascending(acked_addresses(acks)),
    decreases acks.len(),
{
    if acks.len() > 0 {
        let earlier = acks.drop_last();
        lemma_scan_strictly_ascending(earlier);
        lemma_listed_below(earlier);
    }
}

} // verus!

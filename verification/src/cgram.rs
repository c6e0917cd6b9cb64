//! CGRAM slot manager for the HD44780 LCD (8 custom-char slots, 0-7).
//!
//! Two consumers share the slots, one at a time: the sand animation claims them as particles
//! spread, the ticker uses the fixed named slots below. When the animation ends, `release` blanks
//! what it had claimed and hands the slots back.

use vstd::prelude::*;

use crate::bits;
use crate::lcd;
use crate::lcd::{Lcd, LcdOp};

verus! {

// Fixed slot assignments for the ticker screen
pub const SLOT_LAMP: u8 = 0;

pub const SLOT_WIFI: u8 = 1;

pub const SLOT_UP_ARROW: u8 = 2;

pub const SLOT_DOWN_ARROW: u8 = 3;

/// Shares its slot with the down arrow.
pub const SLOT_POT: u8 = 3;

pub const SLOT_SUN_CLOUD: u8 = 4;

pub const SLOT_DEGREE: u8 = 5;

pub const SLOT_HOURGLASS: u8 = 6;

pub const SLOT_ASSET: u8 = 7;

/// The glyph with no pixel lit.
pub const BLANK: [u8; 8] = [0, 0, 0, 0, 0, 0, 0, 0];

/// Tracks which of the 8 CGRAM slots are in use. Slots are handed out lowest first, so the
/// returned index doubles as the position in the owner's tables.
pub struct CgramPool {
    free_mask: u8,
}

/// Blanks for the claimed slots among the first `n`, in slot order.
pub open spec fn release_ops(used: Set<int>, n: nat, backlight: u8) -> Seq<LcdOp>
    decreases n,
{
    if n == 0 {
        Seq::empty()
    } else if used.contains(n - 1) {
        release_ops(used, (n - 1) as nat, backlight) + lcd::char_ops((n - 1) as u8, BLANK@, backlight)
    } else {
        release_ops(used, (n - 1) as nat, backlight)
    }
}

/// Slot `s` is free and every slot before it is taken.
pub open spec fn lowest_free(used: Set<int>, s: int) -> bool {
    &&& 0 <= s < 8
    &&& !used.contains(s)
    &&& forall|t: int| 0 <= t < s ==> #[trigger] used.contains(t)
}

impl View for CgramPool {
    /// The claimed slots.
    type V = Set<int>;

    closed spec fn view(&self) -> Set<int> {
        Set::new(|s: int| 0 <= s < 8 && !bits::bit(self.free_mask, s))
    }
}

impl CgramPool {
    /// A pool with every slot free.
    pub fn new() -> (r: Self)
        ensures
            r@ == Set::<int>::empty(),
    {
        let r = CgramPool { free_mask: 0xFF };
        proof {
            assert forall|s: int| 0 <= s < 8 implies #[trigger] bits::bit(0xFF, s) by {
                let ss: u8 = s as u8;
                assert((0xFFu8 >> ss) & 1 == 1) by (bit_vector)
                    requires
                        ss < 8,
                ;
            }
            assert(r@ =~= Set::<int>::empty());
        }
        r
    }

    /// Claim the next free slot. Returns its index (0-7), or `None` if all are taken.
    pub fn claim(&mut self) -> (r: Option<u8>)
        ensures
            r is None <==> (forall|s: int| 0 <= s < 8 ==> #[trigger] old(self)@.contains(s)),
            r is None ==> final(self)@ == old(self)@,
            r matches Some(s) ==> lowest_free(old(self)@, s as int) && final(self)@ == old(
                self,
            )@.insert(s as int),
    {
        if self.free_mask == 0 {
            proof {
                bits::lemma_zero_has_no_bits();
                assert forall|s: int| 0 <= s < 8 implies #[trigger] old(self)@.contains(s) by {
                    assert(!bits::bit(0, s));
                }
            }
            return None;
        }
        proof {
            vstd::std_specs::bits::axiom_u8_trailing_zeros(self.free_mask);
        }
        let slot: u8 = self.free_mask.trailing_zeros() as u8;
        let ghost before = self.free_mask;
        self.free_mask = bits::clear_bit(self.free_mask, slot);
        proof {
            assert(bits::bit(before, slot as int));
            assert(!old(self)@.contains(slot as int));
            assert forall|t: int| 0 <= t < slot implies #[trigger] old(self)@.contains(t) by {
                let tt: u8 = t as u8;
                assert((before >> tt) & 1u8 == 0u8);
            }
            assert(self@ =~= old(self)@.insert(slot as int));
        }
        Some(slot)
    }

    /// True when all 8 slots have been claimed.
    pub fn is_full(&self) -> (r: bool)
        ensures
            r == (forall|s: int| 0 <= s < 8 ==> #[trigger] self@.contains(s)),
    {
        proof {
            bits::lemma_zero_has_no_bits();
            if self.free_mask == 0 {
                assert forall|s: int| 0 <= s < 8 implies #[trigger] self@.contains(s) by {
                    assert(!bits::bit(0, s));
                }
            } else if forall|s: int| 0 <= s < 8 ==> #[trigger] self@.contains(s) {
                assert forall|k: int| 0 <= k < 8 implies #[trigger] bits::bit(self.free_mask, k)
                    == bits::bit(0, k) by {
                    assert(self@.contains(k));
                    assert(!bits::bit(0, k));
                }
                bits::lemma_same_bits(self.free_mask, 0);
            }
        }
        self.free_mask == 0
    }

    /// True when this specific slot is currently allocated.
    pub fn is_used(&self, slot: u8) -> (r: bool)
        requires
            slot < 8,
        ensures
            r == self@.contains(slot as int),
    {
        !bits::test_bit(self.free_mask, slot)
    }

    /// Release a single slot back to the pool.
    pub fn free(&mut self, slot: u8)
        requires
            slot < 8,
        ensures
            final(self)@ == old(self)@.remove(slot as int),
    {
        self.free_mask = bits::set_bit(self.free_mask, slot);
        assert(self@ =~= old(self)@.remove(slot as int));
    }

    /// Number of slots currently allocated.
    pub fn count_used(&self) -> (r: usize)
        ensures
            r == self@.len(),
            r <= 8,
    {
        let mut n: usize = 0;
        let mut i: u8 = 0;
        let ghost mut seen = Set::<int>::empty();
        while i < 8
            invariant
                i <= 8,
                n <= i,
                seen.finite(),
                seen.len() == n,
                forall|s: int| #[trigger] seen.contains(s) <==> 0 <= s < i && self@.contains(s),
            decreases 8 - i,
        {
            if self.is_used(i) {
                n += 1;
                proof {
                    seen = seen.insert(i as int);
                }
            }
            i += 1;
        }
        assert(seen =~= self@);
        n
    }

    /// Write blank glyphs to every allocated slot and mark them all free. For handing CGRAM back
    /// to the screen renderer.
    pub fn release(&mut self, lcd: &mut Lcd)
        ensures
            final(self)@ == Set::<int>::empty(),
            lcd::queued(*old(lcd), *final(lcd), release_ops(old(self)@, 8, old(lcd).backlight)),
    {
        let mut i: u8 = 0;
        assert(lcd.ops@ =~= old(lcd).ops@ + release_ops(self@, 0, lcd.backlight));
        while i < 8
            invariant
                i <= 8,
                self@ == old(self)@,
                lcd::queued(*old(lcd), *lcd, release_ops(self@, i as nat, old(lcd).backlight)),
            decreases 8 - i,
        {
            let ghost before = lcd.ops@;
            if self.is_used(i) {
                lcd.create_char(i, &BLANK);
            }
            i += 1;
            assert(lcd.ops@ =~= old(lcd).ops@ + release_ops(self@, i as nat, old(lcd).backlight));
        }
        *self = CgramPool::new();
    }
}

/// A pool never has more than eight slots out.
pub proof fn law_at_most_eight(pool: CgramPool)
    ensures
        pool@.finite(),
        pool@.len() <= 8,
        forall|s: int| pool@.contains(s) ==> 0 <= s < 8,
{
    let all = vstd::set_lib::set_int_range(0, 8);
    vstd::set_lib::lemma_int_range(0, 8);
    assert(pool@.subset_of(all));
    vstd::set_lib::lemma_len_subset(pool@, all);
}

/// Giving back the slot that was just claimed leaves the pool as it was.
pub proof fn law_free_undoes_claim(used: Set<int>, s: int)
    requires
        lowest_free(used, s),
    ensures
        used.insert(s).remove(s) == used,
{
    assert(used.insert(s).remove(s) =~= used);
}

} // verus!

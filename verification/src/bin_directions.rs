//! The directions of a discrete split: one bit per category, 0 sending the
//! category to the left subtree and 1 to the right.

use vstd::prelude::*;

verus! {

/// Categorical splits are represented as a space-efficient bit vector.
/// If the bit at index i is 0, then the i'th category goes to the left subtree
/// and if the bit is 1, the i'th category goes to the right subtree.
#[derive(Clone, Debug)]
pub struct BinDirections {
    /// The number of categories.
    pub n: u8,
    /// The bits, eight per byte, least significant bit first.
    pub bytes: [u8; 32],
}

/// Bit `bit` of the byte `byte`.
pub open spec fn byte_bit(byte: u8, bit: u8) -> bool {
    (byte >> bit) & 1u8 == 1u8
}

impl BinDirections {
    /// The direction stored for the category `index`: `true` for right.
    pub open spec fn direction(&self, index: u8) -> bool {
        byte_bit(self.bytes@[(index / 8) as int], index % 8)
    }

    /// Directions for `n` categories, all set to `value`.
    pub fn new(n: u8, value: bool) -> (r: Self)
        ensures
            r.n == n,
            forall|i: u8| #[trigger] r.direction(i) == value,
    {
        let bytes = if !value { [0x00u8; 32] } else { [0xFFu8; 32] };
        let r = Self { n, bytes };
        assert forall|i: u8| #[trigger] r.direction(i) == value by {
            let b = r.bytes@[(i / 8) as int];
            let k = i % 8;
            if value {
                assert(b == 0xFFu8);
                assert(k < 8 ==> (0xFFu8 >> k) & 1u8 == 1u8) by (bit_vector);
            } else {
                assert(b == 0u8);
                assert((0u8 >> k) & 1u8 == 0u8) by (bit_vector);
            }
        }
        r
    }

    /// The direction of the category `index`, or `None` when there is no such category.
    pub fn get(&self, index: u8) -> (r: Option<bool>)
        ensures
            index >= self.n ==> r is None,
            index < self.n ==> r == Some(self.direction(index)),
    {
        if index >= self.n {
            None
        } else {
            let byte_index = (index / 8) as usize;
            let byte = self.bytes[byte_index];
            let bit_index = index % 8;
            let bit = (byte >> bit_index) & 0b0000_0001u8;
            Some(bit == 1)
        }
    }

    /// Sets the direction of the category `index`.
    pub fn set(&mut self, index: u8, value: bool)
        ensures
            final(self).n == old(self).n,
            final(self).direction(index) == value,
            forall|i: u8| i != index ==> #[trigger] final(self).direction(i) == old(self).direction(i),
    {
        let byte_index = (index / 8) as usize;
        let bit_index = index % 8;
        let ghost old_bytes = self.bytes@;
        let old_byte = self.bytes[byte_index];
        let new_byte = if value {
            old_byte | (1u8 << bit_index)
        } else {
            old_byte & !(1u8 << bit_index)
        };
        self.bytes[byte_index] = new_byte;
        proof {
            assert(bit_index < 8);
            if value {
                assert(bit_index < 8 ==> ((old_byte | (1u8 << bit_index)) >> bit_index) & 1u8 == 1u8)
                    by (bit_vector);
            } else {
                assert(bit_index < 8 ==> ((old_byte & !(1u8 << bit_index)) >> bit_index) & 1u8 == 0u8)
                    by (bit_vector);
            }
            assert forall|i: u8| i != index implies #[trigger] self.direction(i) == byte_bit(
                old_bytes[(i / 8) as int],
                i % 8,
            ) by {
                if i / 8 == index / 8 {
                    let k = i % 8;
                    assert(k != bit_index);
                    assert(k < 8 && bit_index < 8 && k != bit_index ==> ((old_byte | (1u8
                        << bit_index)) >> k) & 1u8 == (old_byte >> k) & 1u8) by (bit_vector);
                    assert(k < 8 && bit_index < 8 && k != bit_index ==> ((old_byte & !(1u8
                        << bit_index)) >> k) & 1u8 == (old_byte >> k) & 1u8) by (bit_vector);
                }
            }
        }
    }
}

} // verus!

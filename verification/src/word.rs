use vstd::prelude::*;

verus! {

/// Two to the power 128: the weight of the upper half of a [`Word`] and of the upper part of an
/// [`Address`].
pub open spec fn pow2_128() -> nat {
    0x1_0000_0000_0000_0000_0000_0000_0000_0000nat
}

/// Two to the power 160: the number of distinct contract addresses.
pub open spec fn pow2_160() -> nat {
    0x1_0000_0000_0000_0000_0000_0000_0000_0000_0000_0000nat
}

/// A 256-bit unsigned integer: a storage slot index, a storage value or a raw operand-stack
/// entry. It is held as its upper and lower 128 bits.
#[derive(Clone, Copy, Debug, PartialEq, Eq, Hash, Structural)]
pub struct Word {
    pub hi: u128,
    pub lo: u128,
}

/// The 160-bit identifier of a contract account. It is held as its upper 32 and lower 128 bits.
#[derive(Clone, Copy, Debug, PartialEq, Eq, Hash, Structural)]
pub struct Address {
    pub hi: u32,
    pub lo: u128,
}

impl Word {
    /// The unsigned integer that the word stands for.
    pub open spec fn value(self) -> nat {
        self.hi as nat * pow2_128() + self.lo as nat
    }

    /// The address that a raw stack entry names: its 160 lowest bits.
    pub open spec fn address(self) -> Address {
        Address { hi: (self.hi % 0x1_0000_0000) as u32, lo: self.lo }
    }

    /// The word whose value is zero.
    pub fn zero() -> (w: Word)
        ensures
            w == (Word { hi: 0, lo: 0 }),
            w.value() == 0,
    {
        Word { hi: 0, lo: 0 }
    }

    /// Resolves a raw stack entry to the contract address it names, by dropping the 96 highest
    /// bits.
    pub fn to_address(&self) -> (a: Address)
        ensures
            a == self.address(),
            a.value() == self.value() % pow2_160(),
    {
        let hi: u32 = (self.hi & 0xffff_ffff) as u32;
        proof {
            let h: u128 = self.hi;
            assert(h & 0xffff_ffff == h % 0x1_0000_0000) by (bit_vector);
            lemma_address_value(*self);
        }
        Address { hi, lo: self.lo }
    }
}

impl Address {
    /// The unsigned integer, below two to the power 160, that the address stands for.
    pub open spec fn value(self) -> nat {
        self.hi as nat * pow2_128() + self.lo as nat
    }
}

/// The address named by a word stands for the word's value modulo two to the power 160.
pub proof fn lemma_address_value(w: Word)
    ensures
        w.address().value() == w.value() % pow2_160(),
{
    let q: nat = w.hi as nat / 0x1_0000_0000;
    let r: nat = w.hi as nat % 0x1_0000_0000;
    let rest: nat = r * pow2_128() + w.lo as nat;
    assert(w.hi as nat == q * 0x1_0000_0000 + r);
    assert(w.value() == q * pow2_160() + rest);
    assert(rest < pow2_160());
    vstd::arithmetic::div_mod::lemma_fundamental_div_mod_converse(
        w.value() as int,
        pow2_160() as int,
        q as int,
        rest as int,
    );
}

/// Words and addresses are compared by value: two of them are equal exactly if they stand for
/// the same integer, which is below two to the power 256 for a word and below two to the power
/// 160 for an address.
pub proof fn lemma_compared_by_value(a: Word, b: Word, x: Address, y: Address)
    ensures
        a == b <==> a.value() == b.value(),
        x == y <==> x.value() == y.value(),
        a.value() < pow2_128() * pow2_128(),
        x.value() < pow2_160(),
{
}

} // verus!

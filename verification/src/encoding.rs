use crate::word::{lemma_address_value, pow2_128, pow2_160, Address, Word};
use vstd::prelude::*;

verus! {

/// 256 to the power `n`: the weight of the byte that `n` bytes follow.
pub open spec fn pow256(n: nat) -> nat
    decreases n,
{
    if n == 0 {
        1
    } else {
        256 * pow256((n - 1) as nat)
    }
}

/// The unsigned integer that a sequence of bytes stands for, most significant byte first.
pub open spec fn be_value(bytes: Seq<u8>) -> nat
    decreases bytes.len(),
{
    if bytes.len() == 0 {
        0
    } else {
        be_value(bytes.drop_last()) * 256 + bytes.last() as nat
    }
}

/// The powers of 256 are positive and grow with the exponent.
proof fn lemma_pow256_grows(m: nat, n: nat)
    requires
        m <= n,
    ensures
        0 < pow256(m) <= pow256(n),
    decreases n,
{
    if m < n {
        lemma_pow256_grows(m, (n - 1) as nat);
    } else if n > 0 {
        lemma_pow256_grows((m - 1) as nat, (n - 1) as nat);
    }
}

/// The powers of 256 that bound the parts of a word and of an address.
proof fn lemma_pow256_values()
    ensures
        pow256(4) == 0x1_0000_0000,
        pow256(15) == 0x100_0000_0000_0000_0000_0000_0000_0000,
        pow256(16) == pow2_128(),
{
    reveal_with_fuel(pow256, 17);
}

/// `n` bytes stand for an integer below 256 to the power `n`.
proof fn lemma_be_value_below(bytes: Seq<u8>)
    ensures
        be_value(bytes) < pow256(bytes.len()),
    decreases bytes.len(),
{
    if bytes.len() > 0 {
        lemma_be_value_below(bytes.drop_last());
    }
}

/// Bytes that follow shift the integer of those before them by their count.
proof fn lemma_be_value_concat(a: Seq<u8>, b: Seq<u8>)
    ensures
        be_value(a + b) == be_value(a) * pow256(b.len()) + be_value(b),
    decreases b.len(),
{
    if b.len() == 0 {
        assert(a + b =~= a);
        assert(be_value(a) * pow256(b.len()) == be_value(a)) by (nonlinear_arith)
            requires
                pow256(b.len()) == 1,
        ;
    } else {
        let front = b.drop_last();
        lemma_be_value_concat(a, front);
        assert((a + b).drop_last() =~= a + front);
        assert((a + b).last() == b.last());
        assert(be_value(a + b) == be_value(a + front) * 256 + b.last() as nat);
        assert(be_value(b) == be_value(front) * 256 + b.last() as nat);
        assert(be_value(a) * pow256(front.len()) * 256 == be_value(a) * pow256(b.len()))
            by (nonlinear_arith)
            requires
                pow256(b.len()) == 256 * pow256(front.len()),
        ;
        assert(be_value(a + b) == be_value(a) * pow256(b.len()) + be_value(b));
    }
}

/// Byte sequences of one length that stand for the same integer are the same sequence.
pub proof fn lemma_be_value_injective(a: Seq<u8>, b: Seq<u8>)
    requires
        a.len() == b.len(),
        be_value(a) == be_value(b),
    ensures
        a == b,
    decreases a.len(),
{
    if a.len() > 0 {
        lemma_be_value_injective(a.drop_last(), b.drop_last());
        assert(a =~= a.drop_last().push(a.last()));
        assert(b =~= b.drop_last().push(b.last()));
    } else {
        assert(a =~= b);
    }
}

/// The address that a word names is what the last 20 of its 32 bytes stand for.
pub proof fn lemma_address_is_last_bytes(w: Word, bytes: Seq<u8>)
    requires
        bytes.len() == 32,
        be_value(bytes) == w.value(),
    ensures
        w.address().value() == be_value(bytes.subrange(12, 32)),
{
    let head = bytes.subrange(0, 12);
    let tail = bytes.subrange(12, 32);
    assert(bytes =~= head + tail);
    lemma_be_value_concat(head, tail);
    lemma_be_value_below(tail);
    assert(pow256(20) == pow2_160()) by {
        reveal_with_fuel(pow256, 21);
    }
    vstd::arithmetic::div_mod::lemma_fundamental_div_mod_converse(
        w.value() as int,
        pow2_160() as int,
        be_value(head) as int,
        be_value(tail) as int,
    );
    lemma_address_value(w);
}

/// Reads the bytes from `from` up to `to` as one integer, most significant byte first.
fn read_be<const N: usize>(bytes: &[u8; N], from: usize, to: usize) -> (v: u128)
    requires
        from <= to <= N,
        to - from <= 16,
    ensures
        v == be_value(bytes@.subrange(from as int, to as int)),
{
    let mut v: u128 = 0;
    let mut i: usize = from;
    while i < to
        invariant
            from <= i <= to <= N,
            to - from <= 16,
            v == be_value(bytes@.subrange(from as int, i as int)),
        decreases to - i,
    {
        proof {
            let read = bytes@.subrange(from as int, i as int);
            let next = bytes@.subrange(from as int, i + 1);
            assert(next.drop_last() =~= read);
            lemma_be_value_below(read);
            lemma_pow256_grows(read.len(), 15);
            lemma_pow256_values();
        }
        v = v * 256 + bytes[i] as u128;
        i = i + 1;
    }
    v
}

/// Writes `v` into the bytes from `from` up to `to`, most significant byte first, and leaves
/// the other bytes as they are.
fn write_be<const N: usize>(bytes: &mut [u8; N], from: usize, to: usize, v: u128)
    requires
        from <= to <= N,
        v < pow256((to - from) as nat),
    ensures
        be_value(final(bytes)@.subrange(from as int, to as int)) == v,
        forall|k: int| 0 <= k < from || to <= k < N ==> final(bytes)@[k] == old(bytes)@[k],
{
    let mut rest: u128 = v;
    let mut i: usize = to;
    proof {
        assert(bytes@.subrange(to as int, to as int) =~= Seq::<u8>::empty());
        assert(be_value(Seq::<u8>::empty()) == 0);
        assert(rest * pow256(0) == rest) by (nonlinear_arith)
            requires
                pow256(0) == 1,
        ;
    }
    while i > from
        invariant
            from <= i <= to <= N,
            be_value(bytes@.subrange(i as int, to as int)) + rest * pow256((to - i) as nat) == v,
            forall|k: int| 0 <= k < from || to <= k < N ==> bytes@[k] == old(bytes)@[k],
        decreases i - from,
    {
        let ghost written = bytes@.subrange(i as int, to as int);
        let low: u8 = (rest % 256) as u8;
        i = i - 1;
        bytes[i] = low;
        proof {
            assert(bytes@.subrange(i as int, to as int) =~= seq![low] + written);
            lemma_be_value_concat(seq![low], written);
            assert(be_value(Seq::<u8>::empty()) == 0);
            assert(seq![low].drop_last() =~= Seq::<u8>::empty());
            assert(be_value(seq![low]) == low);
            assert(low * pow256(written.len()) + (rest / 256) * pow256(written.len() + 1) == rest
                * pow256(written.len())) by (nonlinear_arith)
                requires
                    rest == (rest / 256) * 256 + low,
                    pow256(written.len() + 1) == 256 * pow256(written.len()),
            ;
        }
        rest = rest / 256;
    }
    proof {
        lemma_pow256_grows(0, (to - from) as nat);
        assert(rest == 0) by (nonlinear_arith)
            requires
                rest * pow256((to - from) as nat) <= v,
                v < pow256((to - from) as nat),
                rest >= 0,
        ;
    }
}

impl Word {
    /// The word that 32 bytes stand for, most significant byte first.
    pub fn from_be_bytes(bytes: [u8; 32]) -> (w: Word)
        ensures
            w.value() == be_value(bytes@),
    {
        let hi = read_be(&bytes, 0, 16);
        let lo = read_be(&bytes, 16, 32);
        proof {
            assert(bytes@ =~= bytes@.subrange(0, 16) + bytes@.subrange(16, 32));
            lemma_be_value_concat(bytes@.subrange(0, 16), bytes@.subrange(16, 32));
            lemma_pow256_values();
        }
        Word { hi, lo }
    }

    /// The 32 bytes that stand for the word, most significant byte first.
    pub fn to_be_bytes(&self) -> (bytes: [u8; 32])
        ensures
            be_value(bytes@) == self.value(),
    {
        let mut bytes = [0u8; 32];
        proof {
            lemma_pow256_values();
        }
        write_be(&mut bytes, 16, 32, self.lo);
        let ghost low = bytes@.subrange(16, 32);
        write_be(&mut bytes, 0, 16, self.hi);
        proof {
            assert(bytes@.subrange(16, 32) =~= low);
            assert(bytes@ =~= bytes@.subrange(0, 16) + bytes@.subrange(16, 32));
            lemma_be_value_concat(bytes@.subrange(0, 16), bytes@.subrange(16, 32));
        }
        bytes
    }
}

impl Address {
    /// The address that 20 bytes stand for, most significant byte first.
    pub fn from_be_bytes(bytes: [u8; 20]) -> (a: Address)
        ensures
            a.value() == be_value(bytes@),
    {
        let hi = read_be(&bytes, 0, 4);
        let lo = read_be(&bytes, 4, 20);
        proof {
            assert(bytes@ =~= bytes@.subrange(0, 4) + bytes@.subrange(4, 20));
            lemma_be_value_concat(bytes@.subrange(0, 4), bytes@.subrange(4, 20));
            lemma_be_value_below(bytes@.subrange(0, 4));
            lemma_pow256_values();
        }
        Address { hi: hi as u32, lo }
    }

    /// The 20 bytes that stand for the address, most significant byte first.
    pub fn to_be_bytes(&self) -> (bytes: [u8; 20])
        ensures
            be_value(bytes@) == self.value(),
    {
        let mut bytes = [0u8; 20];
        proof {
            lemma_pow256_values();
        }
        write_be(&mut bytes, 4, 20, self.lo);
        let ghost low = bytes@.subrange(4, 20);
        write_be(&mut bytes, 0, 4, self.hi as u128);
        proof {
            assert(bytes@.subrange(4, 20) =~= low);
            assert(bytes@ =~= bytes@.subrange(0, 4) + bytes@.subrange(4, 20));
            lemma_be_value_concat(bytes@.subrange(0, 4), bytes@.subrange(4, 20));
        }
        bytes
    }
}

} // verus!

//! CRC-16 as used by Modbus RTU framing: initial value 0xFFFF and the
//! reflected polynomial 0xA001, processed byte by byte, least
//! significant bit first.

use vstd::prelude::*;

verus! {

/// One shift of the CRC register: drop the low bit, folding the
/// polynomial in when that bit was set.
pub open spec fn crc_step(c: u16) -> u16 {
    if c & 1 == 1 {
        (c >> 1) ^ 0xA001
    } else {
        c >> 1
    }
}

/// `n` shifts of the CRC register.
pub open spec fn crc_steps(c: u16, n: nat) -> u16
    decreases n,
{
    if n == 0 {
        c
    } else {
        crc_steps(crc_step(c), (n - 1) as nat)
    }
}

/// Folding one byte into the register: xor it in, then shift 8 times.
pub open spec fn crc_push(c: u16, b: u8) -> u16 {
    crc_steps(c ^ (b as u16), 8)
}

/// The CRC-16 of a byte string.
pub open spec fn crc16(s: Seq<u8>) -> u16
    decreases s.len(),
{
    if s.len() == 0 {
        0xFFFF
    } else {
        crc_push(crc16(s.drop_last()), s.last())
    }
}

/// Shifting once more is the same as shifting after.
proof fn lemma_crc_steps_snoc(c: u16, n: nat)
    ensures
        crc_steps(c, n + 1) == crc_step(crc_steps(c, n)),
    decreases n,
{
    if n == 0 {
        assert(crc_steps(c, 1) == crc_steps(crc_step(c), 0));
    } else {
        lemma_crc_steps_snoc(crc_step(c), (n - 1) as nat);
        assert(crc_steps(c, n + 1) == crc_steps(crc_step(c), n));
    }
}

/// Compute the CRC-16 of `data[from..to]`.
pub fn crc16_range(data: &[u8], from: usize, to: usize) -> (r: u16)
    requires
        from <= to <= data@.len(),
    ensures
        r == crc16(data@.subrange(from as int, to as int)),
{
    let mut crc: u16 = 0xFFFF;
    let mut i: usize = from;
    proof {
        assert(data@.subrange(from as int, from as int) =~= Seq::<u8>::empty());
    }
    while i < to
        invariant
            from <= i <= to <= data@.len(),
            crc == crc16(data@.subrange(from as int, i as int)),
        decreases to - i,
    {
        let b = data[i];
        crc = crc ^ (b as u16);
        let ghost start = crc;
        let mut k: usize = 0;
        while k < 8
            invariant
                k <= 8,
                crc == crc_steps(start, k as nat),
            decreases 8 - k,
        {
            proof {
                lemma_crc_steps_snoc(start, k as nat);
            }
            if crc & 1 == 1 {
                crc = (crc >> 1) ^ 0xA001;
            } else {
                crc = crc >> 1;
            }
            k = k + 1;
        }
        proof {
            let pre = data@.subrange(from as int, i as int);
            let pre1 = data@.subrange(from as int, i as int + 1);
            assert(pre1.drop_last() =~= pre);
            assert(pre1.last() == data@[i as int]);
            assert(crc == crc_push(crc16(pre), data@[i as int]));
        }
        i = i + 1;
    }
    crc
}

} // verus!

use vstd::prelude::*;

verus! {

/// One bit step of the CRC-8 shift register (polynomial 0x07, MSB first).
pub open spec fn crc8_shift(c: u8) -> u8 {
    if c & 0x80u8 != 0 {
        ((c << 1u8) ^ 0x07u8) as u8
    } else {
        (c << 1u8) as u8
    }
}

/// `n` bit steps of the shift register.
pub open spec fn crc8_shifts(c: u8, n: nat) -> u8
    decreases n,
{
    if n == 0 {
        c
    } else {
        crc8_shift(crc8_shifts(c, (n - 1) as nat))
    }
}

/// The register after absorbing one byte.
pub open spec fn crc8_byte(crc: u8, b: u8) -> u8 {
    crc8_shifts(crc ^ b, 8)
}

/// CRC-8 of a byte sequence: polynomial 0x07, initial value 0x00, no
/// reflection and no final XOR.
pub open spec fn crc8(s: Seq<u8>) -> u8
    decreases s.len(),
{
    if s.len() == 0 {
        0
    } else {
        crc8_byte(crc8(s.drop_last()), s.last())
    }
}

/// Calculates the CRC-8 checksum of `data` (polynomial 0x07, initial value 0x00).
pub fn calc_crc8(data: &[u8]) -> (r: u8)
    ensures
        r == crc8(data@),
{
    let mut crc: u8 = 0;
    let mut i: usize = 0;
    while i < data.len()
        invariant
            i <= data@.len(),
            crc == crc8(data@.subrange(0, i as int)),
        decreases data@.len() - i,
    {
        let byte = data[i];
        proof {
            let pre = data@.subrange(0, i as int + 1);
            assert(pre.drop_last() =~= data@.subrange(0, i as int));
            assert(pre.last() == byte);
        }
        crc = crc ^ byte;
        let ghost start = crc;
        let mut k: u8 = 0;
        while k < 8
            invariant
                k <= 8,
                crc == crc8_shifts(start, k as nat),
            decreases 8 - k,
        {
            if crc & 0x80 != 0 {
                crc = (crc << 1) ^ 0x07;
            } else {
                crc = crc << 1;
            }
            k = k + 1;
        }
        i = i + 1;
    }
    proof {
        assert(data@.subrange(0, data@.len() as int) =~= data@);
    }
    crc
}

} // verus!

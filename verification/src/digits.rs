//! Numbers written in digits and read back.

use vstd::prelude::*;

verus! {

/// The decimal digits of `n`.
pub open spec fn decimal(n: nat) -> Seq<u8>
    decreases n,
{
    if n < 10 {
        seq![(48 + n) as u8]
    } else {
        decimal(n / 10).push((48 + n % 10) as u8)
    }
}

pub open spec fn is_digit(b: u8) -> bool {
    48 <= b <= 57
}

/// The nearest 32-bit number.
pub open spec fn sat_u32(x: int) -> int {
    if x > u32::MAX {
        u32::MAX as int
    } else {
        x
    }
}

/// The number that the digits among the bytes make; too large a one is the
/// largest.
pub open spec fn number(s: Seq<u8>) -> int
    decreases s.len(),
{
    if s.len() == 0 {
        0
    } else {
        let head = number(s.drop_last());
        if is_digit(s.last()) {
            sat_u32(sat_u32(head * 10) + (s.last() - 48))
        } else {
            head
        }
    }
}

/// The last `k` hexadecimal digits of `n`, in upper case.
pub open spec fn hex(n: nat, k: nat) -> Seq<u8>
    decreases k,
{
    if k == 0 {
        Seq::empty()
    } else {
        hex(n / 16, (k - 1) as nat).push(hex_digit(n % 16))
    }
}

pub open spec fn hex_digit(d: nat) -> u8 {
    if d < 10 {
        (48 + d) as u8
    } else {
        (55 + d) as u8
    }
}

/// The value of a hexadecimal digit in either case.
pub open spec fn hex_value(b: u8) -> Option<int> {
    if is_digit(b) {
        Some(b - 48)
    } else if 97 <= b <= 102 {
        Some(b - 87)
    } else if 65 <= b <= 70 {
        Some(b - 55)
    } else {
        None
    }
}

/// The number that the hexadecimal digits among the bytes make, its low 32
/// bits.
pub open spec fn hex_number(s: Seq<u8>) -> int
    decreases s.len(),
{
    if s.len() == 0 {
        0
    } else {
        let head = hex_number(s.drop_last());
        match hex_value(s.last()) {
            Some(d) => (head * 16) % 0x1_0000_0000 + d,
            None => head,
        }
    }
}

pub proof fn lemma_decimal_shape(n: nat)
    ensures
        1 <= decimal(n).len(),
        forall|k: int| 0 <= k < decimal(n).len() ==> is_digit(#[trigger] decimal(n)[k]),
    decreases n,
{
    if n >= 10 {
        lemma_decimal_shape(n / 10);
    }
}

/// A number has at most ten digits.
pub proof fn lemma_decimal_len(n: nat, k: nat, p: nat)
    requires
        n < p,
        p == power_of_ten(k),
        k >= 1,
    ensures
        decimal(n).len() <= k,
    decreases k,
{
    if n >= 10 {
        if k > 1 {
            assert(power_of_ten(k) == 10 * power_of_ten((k - 1) as nat));
            lemma_decimal_len(n / 10, (k - 1) as nat, power_of_ten((k - 1) as nat));
        } else {
            assert(power_of_ten(1) == 10 * power_of_ten(0));
        }
    }
}

pub open spec fn power_of_ten(k: nat) -> nat
    decreases k,
{
    if k == 0 {
        1
    } else {
        10 * power_of_ten((k - 1) as nat)
    }
}

/// What was written is read back.
pub proof fn law_decimals_read_back(n: u32)
    ensures
        number(decimal(n as nat)) == n,
    decreases n,
{
    let d = decimal(n as nat);
    if n >= 10 {
        law_decimals_read_back(n / 10);
        assert(d.drop_last() =~= decimal((n / 10) as nat));
    } else {
        assert(d.drop_last() =~= Seq::<u8>::empty());
        assert(number(d.drop_last()) == 0);
    }
}

pub proof fn lemma_hex_shape(n: nat, k: nat)
    ensures
        hex(n, k).len() == k,
        forall|j: int| 0 <= j < k ==> hex_value(#[trigger] hex(n, k)[j]) is Some,
    decreases k,
{
    if k > 0 {
        lemma_hex_shape(n / 16, (k - 1) as nat);
    }
}

pub open spec fn power_of_16(k: nat) -> nat
    decreases k,
{
    if k == 0 {
        1
    } else {
        16 * power_of_16((k - 1) as nat)
    }
}

proof fn lemma_hex_reads(n: nat, k: nat)
    requires
        k <= 8,
        n < power_of_16(k),
    ensures
        hex_number(hex(n, k)) == n,
    decreases k,
{
    if k > 0 {
        let h = hex(n, k);
        assert(power_of_16(k) == 16 * power_of_16((k - 1) as nat));
        lemma_hex_reads(n / 16, (k - 1) as nat);
        assert(h.drop_last() =~= hex(n / 16, (k - 1) as nat));
        assert(hex_value(hex_digit(n % 16)) == Some((n % 16) as int));
        assert(n < 0x1_0000_0000) by {
            lemma_power_bound(k);
        }
    }
}

proof fn lemma_power_bound(k: nat)
    requires
        k <= 8,
    ensures
        power_of_16(k) <= 0x1_0000_0000,
{
    reveal_with_fuel(power_of_16, 9);
}

/// A number in eight hexadecimal digits is read back.
pub proof fn law_hex_reads_back(n: u32)
    ensures
        hex_number(hex(n as nat, 8)) == n,
{
    assert(power_of_16(8) == 0x1_0000_0000) by {
        reveal_with_fuel(power_of_16, 9);
    }
    lemma_hex_reads(n as nat, 8);
}

/// Append the digits of `n`.
pub fn push_decimal(out: &mut Vec<u8>, n: u32)
    ensures
        final(out)@ == old(out)@ + decimal(n as nat),
        final(out)@.len() <= old(out)@.len() + 10,
    decreases n,
{
    proof {
        reveal_with_fuel(power_of_ten, 11);
        lemma_decimal_len(n as nat, 10, 10_000_000_000);
    }
    if n >= 10 {
        push_decimal(out, n / 10);
    }
    out.push((48 + n % 10) as u8);
    proof {
        assert(out@ =~= old(out)@ + decimal(n as nat));
    }
}

/// The digits of `n`.
pub fn decimal_digits(n: u32) -> (out: Vec<u8>)
    ensures
        out@ == decimal(n as nat),
{
    let mut out: Vec<u8> = Vec::new();
    push_decimal(&mut out, n);
    proof {
        assert(out@ =~= decimal(n as nat));
    }
    out
}

/// Append the last `k` hexadecimal digits of `n`.
pub fn push_hex(out: &mut Vec<u8>, n: u32, k: u8)
    ensures
        final(out)@ == old(out)@ + hex(n as nat, k as nat),
    decreases k,
{
    if k > 0 {
        push_hex(out, n / 16, k - 1);
        let d: u8 = (n % 16) as u8;
        out.push(
            if d < 10 {
                48 + d
            } else {
                55 + d
            },
        );
    }
    proof {
        assert(out@ =~= old(out)@ + hex(n as nat, k as nat));
    }
}

/// The number that the digits of `s` make.
pub fn parse_u32(s: &[u8]) -> (n: u32)
    ensures
        n == number(s@),
{
    let mut n: u32 = 0;
    let mut i: usize = 0;
    while i < s.len()
        invariant
            i <= s@.len(),
            n == number(s@.take(i as int)),
        decreases s@.len() - i,
    {
        let b: u8 = s[i];
        proof {
            assert(s@.take(i + 1).drop_last() =~= s@.take(i as int));
        }
        if 48 <= b && b <= 57 {
            let tens: u64 = if n as u64 * 10 > 0xffff_ffff {
                0xffff_ffff
            } else {
                n as u64 * 10
            };
            let all: u64 = tens + (b - 48) as u64;
            n = if all > 0xffff_ffff {
                0xffff_ffff
            } else {
                all as u32
            };
        }
        i = i + 1;
    }
    proof {
        assert(s@.take(i as int) =~= s@);
    }
    n
}

/// The number that the hexadecimal digits of `s` make.
pub fn parse_hex(s: &[u8]) -> (n: u32)
    ensures
        n == hex_number(s@),
{
    let mut n: u32 = 0;
    let mut i: usize = 0;
    while i < s.len()
        invariant
            i <= s@.len(),
            n == hex_number(s@.take(i as int)),
        decreases s@.len() - i,
    {
        let b: u8 = s[i];
        proof {
            assert(s@.take(i + 1).drop_last() =~= s@.take(i as int));
        }
        let d: u8 = if 48 <= b && b <= 57 {
            b - 48
        } else if 97 <= b && b <= 102 {
            b - 87
        } else if 65 <= b && b <= 70 {
            b - 55
        } else {
            16
        };
        if d < 16 {
            n = ((n as u64 * 16) % 0x1_0000_0000 + d as u64) as u32;
        }
        i = i + 1;
    }
    proof {
        assert(s@.take(i as int) =~= s@);
    }
    n
}

} // verus!

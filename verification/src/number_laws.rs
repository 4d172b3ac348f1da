//! What holds of numbers, hashes and faces, whatever they are made of.

use vstd::prelude::*;

use crate::bytes;
use crate::digits;
use crate::fonts::{self, Style};
use crate::hash;
use crate::ui::{self, Region};

verus! {

/// The hash of nothing is the FNV offset. One byte more is mixed into the low
/// bits, and the state multiplied by the FNV prime.
pub proof fn law_hashes_are_fnv1a(s: Seq<u8>, b: u8)
    ensures
        hash::fnv(Seq::empty()) == 2166136261,
        hash::fnv(s.push(b)) as int == ((hash::fnv(s) ^ (b as u32)) as int * 16777619)
            % 4294967296,
{
    assert(s.push(b).drop_last() =~= s);
    let m = hash::fnv(s) ^ (b as u32);
    assert(0 <= (m as int * 16777619) % 4294967296 < 4294967296);
}

/// Hashing can be taken up where it stopped: equal hashes of two beginnings
/// stay equal behind the same bytes.
pub proof fn law_hashes_go_on(s: Seq<u8>, t: Seq<u8>, more: Seq<u8>)
    requires
        hash::fnv(s) == hash::fnv(t),
    ensures
        hash::fnv(s + more) == hash::fnv(t + more),
    decreases more.len(),
{
    if more.len() == 0 {
        assert(s + more =~= s);
        assert(t + more =~= t);
    } else {
        law_hashes_go_on(s, t, more.drop_last());
        assert((s + more).drop_last() =~= s + more.drop_last());
        assert((t + more).drop_last() =~= t + more.drop_last());
    }
}

/// The bytes of a number count 1, 256, 65536 and so on, the lowest one first.
pub proof fn law_bytes_count_from_the_lowest(x: u16, y: u32)
    ensures
        bytes::le16(x).len() == 2,
        bytes::le16(x)[0] + 256 * bytes::le16(x)[1] == x,
        bytes::le32(y).len() == 4,
        bytes::le32(y)[0] + 256 * bytes::le32(y)[1] + 65536 * bytes::le32(y)[2] + 16777216
            * bytes::le32(y)[3] == y,
{
}

/// What is read at a place of some bytes counts alike.
pub proof fn law_reading_counts_from_the_lowest(b: Seq<u8>, i: int)
    requires
        0 <= i,
        i + 4 <= b.len(),
    ensures
        bytes::u16_at(b, i) == b[i] + 256 * b[i + 1],
        bytes::u32_at(b, i) == b[i] + 256 * b[i + 1] + 65536 * b[i + 2] + 16777216 * b[i + 3],
{
}

/// The number that characters `0` to `9` make.
pub open spec fn worth(s: Seq<u8>) -> int
    decreases s.len(),
{
    if s.len() == 0 {
        0
    } else {
        10 * worth(s.drop_last()) + (s.last() - 48)
    }
}

/// The digits of a number are worth the number, each is one of `0` to `9`, and
/// the first is no `0` but where it is the only one.
pub proof fn law_decimals_are_worth_their_number(n: nat)
    ensures
        worth(digits::decimal(n)) == n,
        digits::decimal(n).len() >= 1,
        forall|k: int|
            0 <= k < digits::decimal(n).len() ==> 48 <= #[trigger] digits::decimal(n)[k] <= 57,
        n > 0 ==> digits::decimal(n)[0] != 48,
        n < 10 <==> digits::decimal(n).len() == 1,
    decreases n,
{
    let d = digits::decimal(n);
    if n < 10 {
        assert(d.drop_last() =~= Seq::<u8>::empty());
        assert(worth(d.drop_last()) == 0);
    } else {
        law_decimals_are_worth_their_number(n / 10);
        assert(d.drop_last() =~= digits::decimal(n / 10));
    }
}

/// Digits are read as what they are worth, up to the largest number that fits
/// in 32 bits.
pub proof fn law_digits_are_read_as_their_worth(s: Seq<u8>)
    requires
        forall|k: int| 0 <= k < s.len() ==> 48 <= #[trigger] s[k] <= 57,
    ensures
        0 <= worth(s),
        worth(s) <= 4294967295 ==> digits::number(s) == worth(s),
        worth(s) > 4294967295 ==> digits::number(s) == 4294967295,
    decreases s.len(),
{
    if s.len() > 0 {
        law_digits_are_read_as_their_worth(s.drop_last());
        assert(48 <= s.last() <= 57);
    }
}

/// A byte that is no digit changes nothing of what is read.
pub proof fn law_other_bytes_are_passed_over(s: Seq<u8>, b: u8)
    requires
        b < 48 || b > 57,
    ensures
        digits::number(s.push(b)) == digits::number(s),
        !(65 <= b <= 70) && !(97 <= b <= 102) ==> digits::hex_number(s.push(b))
            == digits::hex_number(s),
{
    assert(s.push(b).drop_last() =~= s);
}

/// A hexadecimal digit in either case moves what was read up by four bits, of
/// which those above 32 are lost, and fills the low ones.
pub proof fn law_hex_digits_shift(s: Seq<u8>, b: u8, d: int)
    requires
        (48 <= b <= 57 && d == b - 48) || (65 <= b <= 70 && d == b - 65 + 10) || (97 <= b <= 102
            && d == b - 97 + 10),
    ensures
        digits::hex_number(s.push(b)) % 16 == d,
        digits::hex_number(s.push(b)) == (16 * digits::hex_number(s) + d) % 4294967296,
{
    let h = digits::hex_number(s);
    assert(s.push(b).drop_last() =~= s);
    assert((h * 16) % 4294967296 % 16 == 0) by {
        assert((h * 16) % 4294967296 == 16 * (h % 268435456)) by (nonlinear_arith);
    }
    let low = (h * 16) % 4294967296;
    assert(low == 16 * (h % 268435456)) by (nonlinear_arith)
        requires
            low == (h * 16) % 4294967296,
    ;
    assert(0 <= low <= 4294967280);
    assert((16 * h + d) % 4294967296 == low + d) by (nonlinear_arith)
        requires
            low == (h * 16) % 4294967296,
            0 <= low <= 4294967280,
            0 <= d < 16,
    ;
}

/// The hexadecimal digits of a number are as many as were asked for, and the
/// last stands for its remainder by 16: `0` to `9`, then `A` to `F`.
pub proof fn law_hex_is_upper_case(n: nat, k: nat)
    requires
        k > 0,
    ensures
        digits::hex(n, k).len() == k,
        n % 16 < 10 ==> digits::hex(n, k)[k - 1] == 48 + n % 16,
        n % 16 >= 10 ==> digits::hex(n, k)[k - 1] == 65 + (n % 16 - 10),
        digits::hex(n, k).drop_last() == digits::hex(n / 16, (k - 1) as nat),
{
    digits::lemma_hex_shape(n, k);
    digits::lemma_hex_shape(n / 16, (k - 1) as nat);
    assert(digits::hex(n, k).drop_last() =~= digits::hex(n / 16, (k - 1) as nat));
}

/// What a character of a number is worth.
pub open spec fn char_worth(c: char) -> int {
    if '0' <= c <= '9' {
        c as int - '0' as int
    } else {
        -1
    }
}

/// The number that characters make.
pub open spec fn text_worth(s: Seq<char>) -> int
    decreases s.len(),
{
    if s.len() == 0 {
        0
    } else {
        10 * text_worth(s.drop_last()) + char_worth(s.last())
    }
}

/// A number in a label is worth the number, in digits alone, and the first is
/// no `0` but where it is the only one.
pub proof fn law_labels_are_worth_their_number(n: nat)
    ensures
        text_worth(ui::num(n)) == n,
        ui::num(n).len() >= 1,
        forall|k: int| 0 <= k < ui::num(n).len() ==> '0' <= #[trigger] ui::num(n)[k] <= '9',
        n > 0 ==> ui::num(n)[0] != '0',
    decreases n,
{
    let d = ui::num(n);
    if n < 10 {
        assert(d.drop_last() =~= Seq::<char>::empty());
        assert(text_worth(d.drop_last()) == 0);
    } else {
        law_labels_are_worth_their_number(n / 10);
        assert(d.drop_last() =~= ui::num(n / 10));
    }
}

/// Two numbers are not written alike.
pub proof fn law_labels_tell_numbers_apart(m: nat, n: nat)
    requires
        ui::num(m) == ui::num(n),
    ensures
        m == n,
{
    law_labels_are_worth_their_number(m);
    law_labels_are_worth_their_number(n);
}

/// The large headings have a face of their own, the small ones are bold; bold
/// text is bold whether or not it is italic too.
pub proof fn law_faces(bold: bool, italic: bool, level: u8)
    ensures
        level < 4 ==> fonts::face(bold, italic, true, level) == Style::Heading,
        level >= 4 ==> fonts::face(bold, italic, true, level) == Style::Bold,
        fonts::face(true, italic, false, level) == Style::Bold,
        fonts::face(false, true, false, level) == Style::Italic,
        fonts::face(false, false, false, level) == Style::Regular,
{
}

/// The screen holds the pixels of 480 columns and 800 rows.
pub proof fn law_the_screen(px: int, py: int)
    ensures
        Region::spec_screen().holds(px, py) <==> 0 <= px < 480 && 0 <= py < 800,
{
}

} // verus!

use vstd::prelude::*;

verus! {

/// A logical drive and its space.
#[derive(Debug, Clone, Copy, PartialEq, Eq)]
pub struct DriveInfo {
    pub letter: char,
    pub total_bytes: u64,
    pub free_bytes: u64,
    pub used_bytes: u64,
}

/// Whether bit `i` of the logical-drives mask is set.
pub open spec fn drive_bit(mask: u32, i: u32) -> bool {
    mask & (1u32 << i) != 0u32
}

/// The letter of the drive of bit `i`: `A` for bit 0.
pub open spec fn drive_letter(i: int) -> char {
    (65 + i) as char
}

/// The letters of the drives whose bits are set among the first `hi` bits,
/// in order.
pub open spec fn drive_letters_upto(mask: u32, hi: int) -> Seq<char>
    decreases hi,
{
    if hi <= 0 {
        Seq::empty()
    } else if drive_bit(mask, (hi - 1) as u32) {
        drive_letters_upto(mask, hi - 1).push(drive_letter(hi - 1))
    } else {
        drive_letters_upto(mask, hi - 1)
    }
}

proof fn lemma_drive_bit_shift(mask: u32, i: u32)
    requires
        i < 32,
    ensures
        drive_bit(mask, i) == ((mask >> i) & 1u32 == 1u32),
{
    assert((mask & (1u32 << i) != 0u32) == ((mask >> i) & 1u32 == 1u32)) by (bit_vector)
        requires
            i < 32,
    ;
}

proof fn lemma_letters_upto(mask: u32, hi: int)
    requires
        0 <= hi <= 26,
    ensures
        forall|k: int|
            0 <= k < drive_letters_upto(mask, hi).len() ==> 65 <= (#[trigger] drive_letters_upto(mask, hi)[k]) as int
                && (drive_letters_upto(mask, hi)[k] as int) < 65 + hi && drive_bit(
                mask,
                (drive_letters_upto(mask, hi)[k] as int - 65) as u32,
            ),
        forall|i: int|
            0 <= i < hi && #[trigger] drive_bit(mask, i as u32) ==> drive_letters_upto(mask, hi).contains(
                (65 + i) as char,
            ),
        forall|a: int, b: int|
            0 <= a < b < drive_letters_upto(mask, hi).len() ==> (#[trigger] drive_letters_upto(mask, hi)[a] as int)
                < (#[trigger] drive_letters_upto(mask, hi)[b] as int),
    decreases hi,
{
    if hi > 0 {
        lemma_letters_upto(mask, hi - 1);
        let prev = drive_letters_upto(mask, hi - 1);
        let r = drive_letters_upto(mask, hi);
        if drive_bit(mask, (hi - 1) as u32) {
            let c = drive_letter(hi - 1);
            assert(r == prev.push(c));
            assert(c as int == 65 + hi - 1);
            assert forall|i: int| 0 <= i < hi && #[trigger] drive_bit(mask, i as u32) implies r.contains(
                (65 + i) as char,
            ) by {
                if i < hi - 1 {
                    let j = choose|j: int| 0 <= j < prev.len() && prev[j] == (65 + i) as char;
                    assert(r[j] == prev[j]);
                } else {
                    assert(r[r.len() - 1] == c);
                }
            }
            assert forall|k: int| 0 <= k < r.len() implies 65 <= (#[trigger] r[k]) as int && (r[k] as int) < 65
                + hi && drive_bit(mask, (r[k] as int - 65) as u32) by {
                if k < prev.len() {
                    assert(r[k] == prev[k]);
                }
            }
            assert forall|a: int, b: int| 0 <= a < b < r.len() implies (#[trigger] r[a] as int) < (
            #[trigger] r[b] as int) by {
                assert(r[a] == prev[a]);
                if b < prev.len() {
                    assert(r[b] == prev[b]);
                }
            }
        }
    }
}

/// Law: the letters named by a logical-drives mask are the upper-case
/// letters `A` to `Z` whose bit is set (bit 0 for `A`): every letter listed
/// has its bit set, every set bit among the first 26 is listed, and the
/// letters come in alphabetical order, each once.
pub proof fn law_drive_letters_follow_mask(mask: u32)
    ensures
        forall|k: int|
            0 <= k < drive_letters_upto(mask, 26).len() ==> 'A' <= #[trigger] drive_letters_upto(mask, 26)[k]
                && drive_letters_upto(mask, 26)[k] <= 'Z' && (mask >> ((drive_letters_upto(mask, 26)[k] as int
                - 65) as u32)) & 1u32 == 1u32,
        forall|i: u32|
            i < 26 && #[trigger] ((mask >> i) & 1u32) == 1u32 ==> drive_letters_upto(mask, 26).contains(
                (65 + i) as char,
            ),
        forall|a: int, b: int|
            0 <= a < b < drive_letters_upto(mask, 26).len() ==> (#[trigger] drive_letters_upto(mask, 26)[a])
                < (#[trigger] drive_letters_upto(mask, 26)[b]),
{
    lemma_letters_upto(mask, 26);
    let r = drive_letters_upto(mask, 26);
    assert forall|k: int| 0 <= k < r.len() implies 'A' <= #[trigger] r[k] && r[k] <= 'Z' && (mask >> ((r[k] as int
        - 65) as u32)) & 1u32 == 1u32 by {
        lemma_drive_bit_shift(mask, (r[k] as int - 65) as u32);
    }
    assert forall|i: u32| i < 26 && #[trigger] ((mask >> i) & 1u32) == 1u32 implies r.contains((65 + i) as char) by {
        lemma_drive_bit_shift(mask, i);
        assert(drive_bit(mask, (i as int) as u32));
    }
}

/// The drive letters a logical-drives bit mask names: bit 0 is `A`, up to
/// bit 25 for `Z`.
pub fn drive_letters(mask: u32) -> (r: Vec<char>)
    ensures
        r@ == drive_letters_upto(mask, 26),
{
    let mut r: Vec<char> = Vec::new();
    let mut i: u32 = 0;
    while i < 26
        invariant
            i <= 26,
            r@ == drive_letters_upto(mask, i as int),
        decreases 26 - i,
    {
        if mask & (1u32 << i) != 0 {
            let c = (65u8 + i as u8) as char;
            assert(c == drive_letter(i as int));
            r.push(c);
        }
        i = i + 1;
    }
    r
}

/// The root path of a drive, such as `C:\`.
pub fn drive_root(letter: char) -> (r: String)
    ensures
        r@ == seq![letter, ':', '\\'],
{
    let mut r = char_string(letter);
    r.append(":\\");
    proof {
        reveal_strlit(":\\");
        assert(r@ =~= seq![letter, ':', '\\']);
    }
    r
}

/// `char::to_string`: the string of the one character `c`.
#[verifier::external_body]
fn char_string(c: char) -> (r: String)
    ensures
        r@ == seq![c],
{
    c.to_string()
}

impl DriveInfo {
    /// A drive with the given total and free space; the used space is their
    /// difference.
    pub fn from_space(letter: char, total_bytes: u64, free_bytes: u64) -> (d: DriveInfo)
        requires
            free_bytes <= total_bytes,
        ensures
            d.letter == letter,
            d.total_bytes == total_bytes,
            d.free_bytes == free_bytes,
            d.used_bytes == total_bytes - free_bytes,
    {
        DriveInfo { letter, total_bytes, free_bytes, used_bytes: total_bytes - free_bytes }
    }
}

} // verus!

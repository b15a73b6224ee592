//! Unit flags of the combat log and the hexadecimal field that carries them.
use vstd::prelude::*;

verus! {

/// The bits of a unit's flag field that matter here.
#[derive(Clone, Copy, PartialEq, Eq, Debug)]
pub enum Flags {
    /// The unit is controlled by a player.
    ControlPlayer,
    /// The unit is a player character.
    TypePlayer,
}

impl Flags {
    pub open spec fn spec_bits(self) -> i32 {
        match self {
            Flags::ControlPlayer => 0x100,
            Flags::TypePlayer => 0x400,
        }
    }

    /// The bit this flag stands for.
    pub fn bits(self) -> (r: i32)
        ensures
            r == self.spec_bits(),
    {
        match self {
            Flags::ControlPlayer => 0x100,
            Flags::TypePlayer => 0x400,
        }
    }
}

/// Values that carry unit flags.
pub trait HasFlag {
    spec fn spec_has_flag(&self, flag: Flags) -> bool;

    /// Whether the bit of `flag` is set.
    fn has_flag(&self, flag: Flags) -> (r: bool)
        ensures
            r == self.spec_has_flag(flag),
    ;
}

impl HasFlag for i32 {
    open spec fn spec_has_flag(&self, flag: Flags) -> bool {
        *self & flag.spec_bits() != 0
    }

    fn has_flag(&self, flag: Flags) -> (r: bool) {
        *self & flag.bits() != 0
    }
}

/// The value of a hexadecimal digit.
pub open spec fn hex_digit(c: u8) -> Option<int> {
    if 48 <= c <= 57 {
        Some(c - 48)
    } else if 97 <= c <= 102 {
        Some(c - 87)
    } else if 65 <= c <= 70 {
        Some(c - 55)
    } else {
        None
    }
}

/// Every byte of `s` is a hexadecimal digit.
pub open spec fn all_hex(s: Seq<u8>) -> bool {
    forall|i: int| 0 <= i < s.len() ==> hex_digit(#[trigger] s[i]).is_some()
}

/// The number that the hexadecimal digits `s` spell.
pub open spec fn hex_value(s: Seq<u8>) -> int
    decreases s.len(),
{
    if s.len() == 0 {
        0
    } else {
        hex_value(s.drop_last()) * 16 + hex_digit(s.last()).unwrap_or(0)
    }
}

/// The value of a flag field `0x<hex digits>`, where it fits in an `i32`.
pub open spec fn flag_field_value(f: Seq<u8>) -> Option<i32> {
    let digits = f.subrange(2, f.len() as int);
    if f.len() > 2 && f[0] == 48u8 && f[1] == 120u8 && all_hex(digits) && hex_value(digits)
        <= i32::MAX {
        Some(hex_value(digits) as i32)
    } else {
        None
    }
}

proof fn lemma_hex_value_grows(s: Seq<u8>, j: int)
    requires
        0 <= j <= s.len(),
        all_hex(s),
    ensures
        hex_value(s.subrange(0, j)) <= hex_value(s),
    decreases s.len() - j,
{
    if j < s.len() {
        lemma_hex_value_grows(s, j + 1);
        let t = s.subrange(0, j + 1);
        assert(t.drop_last() =~= s.subrange(0, j));
        assert(hex_digit(s[j]).is_some());
        assert(hex_value(s.subrange(0, j)) >= 0) by {
            lemma_hex_value_nonneg(s.subrange(0, j));
        }
    } else {
        assert(s.subrange(0, j) =~= s);
    }
}

proof fn lemma_hex_value_nonneg(s: Seq<u8>)
    requires
        all_hex(s),
    ensures
        hex_value(s) >= 0,
    decreases s.len(),
{
    if s.len() > 0 {
        assert(all_hex(s.drop_last()));
        lemma_hex_value_nonneg(s.drop_last());
        assert(hex_digit(s[s.len() - 1]).is_some());
    }
}

/// Reads a flag field `0x<hex digits>`; `None` where the field has another
/// shape or its value does not fit in an `i32`.
pub fn parse_flag_field(f: &[u8]) -> (r: Option<i32>)
    ensures
        r == flag_field_value(f@),
{
    if f.len() <= 2 || f[0] != 48u8 || f[1] != 120u8 {
        return None;
    }
    let ghost digits = f@.subrange(2, f@.len() as int);
    let mut acc: i64 = 0;
    let mut i: usize = 2;
    while i < f.len()
        invariant
            2 <= i <= f@.len(),
            digits == f@.subrange(2, f@.len() as int),
            all_hex(digits.subrange(0, i - 2)),
            acc as int == hex_value(digits.subrange(0, i - 2)),
            0 <= acc <= i32::MAX,
        decreases f@.len() - i,
    {
        let c = f[i];
        let d: i64 = if 48 <= c && c <= 57 {
            (c - 48) as i64
        } else if 97 <= c && c <= 102 {
            (c - 87) as i64
        } else if 65 <= c && c <= 70 {
            (c - 55) as i64
        } else {
            assert(digits[i - 2] == c);
            assert(hex_digit(digits[i - 2]).is_none());
            return None;
        };
        let ghost next = digits.subrange(0, i - 1);
        assert(next.drop_last() =~= digits.subrange(0, i - 2));
        assert(all_hex(next));
        if acc > (i32::MAX as i64 - d) / 16 {
            proof {
                if all_hex(digits) {
                    lemma_hex_value_grows(digits, i - 1);
                }
            }
            return None;
        }
        acc = acc * 16 + d;
        i = i + 1;
    }
    assert(digits.subrange(0, i - 2) =~= digits);
    Some(acc as i32)
}

} // verus!

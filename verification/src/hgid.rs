//! Commit and tree identifiers: fixed-width content hashes.
//!
//! Two identifiers are the same exactly when all their bytes are. Two values
//! are reserved: the null identifier (all bytes `0x00`) stands for "no
//! parent", and the working-directory identifier (all bytes `0xff`) stands
//! for the working directory itself, which has no committed identity.

use vstd::prelude::*;
use crate::text::{ascii_string, ascii_text};

verus! {

/// The number of bytes in an identifier.
pub const HGID_LEN: usize = 20;

/// The number of characters in the hexadecimal form of an identifier.
pub const HGID_HEX_LEN: usize = 40;

/// The lower-case hexadecimal digit, as an ASCII byte, of a value below 16.
pub open spec fn hex_digit(value: u8) -> u8 {
    if value < 10 {
        (0x30 + value) as u8
    } else {
        (0x61 + (value - 10)) as u8
    }
}

/// The lower-case hexadecimal form of `bytes`, as ASCII bytes: two digits
/// for each byte, the high half first.
pub open spec fn hex_bytes(bytes: Seq<u8>) -> Seq<u8> {
    Seq::new(
        2 * bytes.len(),
        |i: int|
            if i % 2 == 0 {
                hex_digit(bytes[i / 2] / 16)
            } else {
                hex_digit(bytes[i / 2] % 16)
            },
    )
}

/// The value of a hexadecimal digit of either case, if `digit` is one.
pub open spec fn hex_value(digit: u8) -> Option<u8> {
    if 0x30 <= digit <= 0x39 {
        Some((digit - 0x30) as u8)
    } else if 0x61 <= digit <= 0x66 {
        Some((digit - 0x61 + 10) as u8)
    } else if 0x41 <= digit <= 0x46 {
        Some((digit - 0x41 + 10) as u8)
    } else {
        None
    }
}

/// Whether `hex` is the hexadecimal form of an identifier: forty
/// hexadecimal digits.
pub open spec fn is_hgid_hex(hex: Seq<u8>) -> bool {
    hex.len() == HGID_HEX_LEN && forall|i: int| 0 <= i < hex.len() ==> hex_value(hex[i]) is Some
}

/// The bytes that the digits of `hex` stand for.
pub open spec fn unhex(hex: Seq<u8>) -> Seq<u8> {
    Seq::new(
        hex.len() / 2,
        |i: int| (hex_value(hex[2 * i]).unwrap() * 16 + hex_value(hex[2 * i + 1]).unwrap()) as u8,
    )
}

/// The bytes of the null identifier.
pub open spec fn null_bytes() -> Seq<u8> {
    Seq::new(HGID_LEN as nat, |i: int| 0x00u8)
}

/// The bytes of the working-directory identifier.
pub open spec fn wdir_bytes() -> Seq<u8> {
    Seq::new(HGID_LEN as nat, |i: int| 0xffu8)
}

/// The bytes of the identifier that `git` gives to the tree without
/// entries, `4b825dc642cb6eb9a060e54bf8d69288fbee4904`.
pub open spec fn git_empty_tree_bytes() -> Seq<u8> {
    seq![
        0x4bu8, 0x82, 0x5d, 0xc6, 0x42, 0xcb, 0x6e, 0xb9, 0xa0, 0x60,
        0xe5, 0x4b, 0xf8, 0xd6, 0x92, 0x88, 0xfb, 0xee, 0x49, 0x04,
    ]
}

/// A commit or tree identifier.
#[derive(Clone, Copy, Debug, PartialEq, Eq, PartialOrd, Ord, Hash)]
pub struct HgId {
    bytes: [u8; 20],
}

impl View for HgId {
    type V = Seq<u8>;

    /// The twenty bytes of the identifier.
    closed spec fn view(&self) -> Seq<u8> {
        self.bytes@
    }
}

/// The ASCII byte of the lower-case hexadecimal digit of `value`.
fn digit_of(value: u8) -> (digit: u8)
    requires
        value < 16,
    ensures
        digit == hex_digit(value),
        digit < 128,
{
    if value < 10 {
        0x30 + value
    } else {
        0x61 + (value - 10)
    }
}

/// The value of the hexadecimal digit `digit`.
fn value_of(digit: u8) -> (value: Option<u8>)
    ensures
        value == hex_value(digit),
        value matches Some(v) ==> v < 16,
{
    if 0x30 <= digit && digit <= 0x39 {
        Some(digit - 0x30)
    } else if 0x61 <= digit && digit <= 0x66 {
        Some(digit - 0x61 + 10)
    } else if 0x41 <= digit && digit <= 0x46 {
        Some(digit - 0x41 + 10)
    } else {
        None
    }
}

impl HgId {
    /// The identifier with the given bytes.
    pub fn from_byte_array(bytes: [u8; 20]) -> (id: HgId)
        ensures
            id@ == bytes@,
    {
        HgId { bytes }
    }

    /// The bytes of the identifier.
    pub fn into_byte_array(self) -> (bytes: [u8; 20])
        ensures
            bytes@ == self@,
    {
        self.bytes
    }

    /// The null identifier: "no parent".
    pub fn null_id() -> (id: HgId)
        ensures
            id@ == null_bytes(),
    {
        let id = HgId { bytes: [0x00u8; 20] };
        assert(id@ =~= null_bytes());
        id
    }

    /// The working-directory identifier.
    pub fn wdir_id() -> (id: HgId)
        ensures
            id@ == wdir_bytes(),
    {
        let id = HgId { bytes: [0xffu8; 20] };
        assert(id@ =~= wdir_bytes());
        id
    }

    /// The identifier of `git`'s empty tree.
    pub fn git_empty_tree_id() -> (id: HgId)
        ensures
            id == HgId::spec_git_empty_tree_id(),
            id@ == git_empty_tree_bytes(),
    {
        let id = HgId {
            bytes: [
                0x4bu8, 0x82, 0x5d, 0xc6, 0x42, 0xcb, 0x6e, 0xb9, 0xa0, 0x60,
                0xe5, 0x4b, 0xf8, 0xd6, 0x92, 0x88, 0xfb, 0xee, 0x49, 0x04,
            ],
        };
        assert(id@ =~= git_empty_tree_bytes());
        proof {
            id.lemma_equal_by_bytes(HgId::spec_git_empty_tree_id());
        }
        id
    }

    /// The identifier of `git`'s empty tree, for use in contracts.
    pub closed spec fn spec_git_empty_tree_id() -> HgId {
        HgId {
            bytes: [
                0x4bu8, 0x82, 0x5d, 0xc6, 0x42, 0xcb, 0x6e, 0xb9, 0xa0, 0x60,
                0xe5, 0x4b, 0xf8, 0xd6, 0x92, 0x88, 0xfb, 0xee, 0x49, 0x04,
            ],
        }
    }

    /// The bytes of the identifier of `git`'s empty tree.
    pub proof fn lemma_git_empty_tree_id()
        ensures
            HgId::spec_git_empty_tree_id()@ == git_empty_tree_bytes(),
    {
        assert(HgId::spec_git_empty_tree_id()@ =~= git_empty_tree_bytes());
    }

    /// Every identifier has twenty bytes.
    pub proof fn lemma_len(self)
        ensures
            self@.len() == HGID_LEN,
    {
    }

    /// Identifiers with the same bytes are the same identifier.
    pub proof fn lemma_equal_by_bytes(self, other: HgId)
        requires
            self@ == other@,
        ensures
            self == other,
    {
        assert(self.bytes@ =~= other.bytes@);
        assert(self.bytes == other.bytes);
    }

    /// Whether the two identifiers are the same.
    pub fn same(&self, other: &HgId) -> (same: bool)
        ensures
            same == (self@ == other@),
    {
        let mut i: usize = 0;
        while i < 20
            invariant
                i <= 20,
                forall|j: int| 0 <= j < i ==> self.bytes[j] == other.bytes[j],
            decreases 20 - i,
        {
            if self.bytes[i] != other.bytes[i] {
                return false;
            }
            i += 1;
        }
        assert(self@ =~= other@);
        true
    }

    /// Whether all twenty bytes are `byte`.
    fn is_filled_with(&self, byte: u8) -> (yes: bool)
        ensures
            yes == (self@ == Seq::new(HGID_LEN as nat, |i: int| byte)),
    {
        let ghost filled = Seq::new(HGID_LEN as nat, |i: int| byte);
        let mut i: usize = 0;
        while i < 20
            invariant
                i <= 20,
                filled.len() == 20,
                forall|j: int| 0 <= j < 20 ==> filled[j] == byte,
                forall|j: int| 0 <= j < i ==> self.bytes[j] == byte,
            decreases 20 - i,
        {
            if self.bytes[i] != byte {
                assert(self@[i as int] != filled[i as int]);
                return false;
            }
            i += 1;
        }
        assert(self@ =~= filled);
        true
    }

    /// Whether this is the null identifier.
    pub fn is_null(&self) -> (yes: bool)
        ensures
            yes == (self@ == null_bytes()),
    {
        self.is_filled_with(0x00)
    }

    /// Whether this is the working-directory identifier.
    pub fn is_wdir(&self) -> (yes: bool)
        ensures
            yes == (self@ == wdir_bytes()),
    {
        self.is_filled_with(0xff)
    }

    /// The lower-case hexadecimal form, as forty ASCII bytes.
    pub fn to_hex_bytes(&self) -> (hex: Vec<u8>)
        ensures
            hex@ == hex_bytes(self@),
            forall|i: int| 0 <= i < hex.len() ==> hex[i] < 128,
    {
        let mut hex: Vec<u8> = Vec::with_capacity(40);
        let mut i: usize = 0;
        while i < 20
            invariant
                i <= 20,
                hex.len() == 2 * i,
                forall|j: int| 0 <= j < hex.len() ==> hex[j] == hex_bytes(self@)[j],
                forall|j: int| 0 <= j < hex.len() ==> hex[j] < 128,
            decreases 20 - i,
        {
            let byte: u8 = self.bytes[i];
            hex.push(digit_of(byte / 16));
            hex.push(digit_of(byte % 16));
            i += 1;
        }
        assert(hex@ =~= hex_bytes(self@));
        hex
    }

    /// The lower-case hexadecimal form, as text of forty characters.
    pub fn to_hex(&self) -> (hex: String)
        ensures
            hex@ == ascii_text(hex_bytes(self@)),
    {
        ascii_string(self.to_hex_bytes())
    }

    /// Reads an identifier from its hexadecimal form, in either case.
    pub fn from_hex(hex: &[u8]) -> (id: Option<HgId>)
        ensures
            id is Some <==> is_hgid_hex(hex@),
            id matches Some(found) ==> found@ == unhex(hex@),
    {
        if hex.len() != 40 {
            return None;
        }
        let mut bytes: [u8; 20] = [0x00u8; 20];
        let mut i: usize = 0;
        while i < 20
            invariant
                i <= 20,
                hex.len() == 40,
                forall|j: int| 0 <= j < 2 * i ==> hex_value(hex[j]) is Some,
                forall|j: int| 0 <= j < i ==> bytes[j] == unhex(hex@)[j],
            decreases 20 - i,
        {
            let high = value_of(hex[2 * i]);
            let low = value_of(hex[2 * i + 1]);
            match (high, low) {
                (Some(h), Some(l)) => {
                    bytes[i] = h * 16 + l;
                },
                _ => {
                    return None;
                },
            }
            i += 1;
        }
        let id = HgId { bytes };
        assert(id@ =~= unhex(hex@));
        Some(id)
    }
}

/// Reading back the hexadecimal form of an identifier gives the identifier.
pub proof fn lemma_hex_round_trip(id: HgId)
    ensures
        is_hgid_hex(hex_bytes(id@)),
        unhex(hex_bytes(id@)) == id@,
{
    let hex = hex_bytes(id@);
    assert forall|i: int| 0 <= i < hex.len() implies hex_value(hex[i]) is Some by {
        let b = id@[i / 2];
        assert(b / 16 < 16 && b % 16 < 16);
    }
    assert forall|i: int| 0 <= i < id@.len() implies unhex(hex)[i] == id@[i] by {
        let b = id@[i];
        assert((2 * i) / 2 == i && (2 * i) % 2 == 0);
        assert((2 * i + 1) / 2 == i && (2 * i + 1) % 2 == 1);
        assert(hex[2 * i] == hex_digit(b / 16));
        assert(hex[2 * i + 1] == hex_digit(b % 16));
        assert(hex_value(hex_digit(b / 16)) == Some(b / 16));
        assert(hex_value(hex_digit(b % 16)) == Some(b % 16));
        assert((b / 16) * 16 + b % 16 == b);
    }
    assert(unhex(hex) =~= id@);
}

} // verus!

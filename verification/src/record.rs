//! The container header, the fixed record header, and the group a record
//! belongs to.

use crate::bytes::{le_u32, lemma_le_bounds, read_array32, read_array4, read_u32};
use vstd::prelude::*;

verus! {

/// Signature, which must be the first 4 bytes of the blob: `APOB` in ASCII.
pub const APOB_SIG: [u8; 4] = [0x41, 0x50, 0x4f, 0x42];

/// Known version
pub const APOB_VERSION: u32 = 0x18;

/// Mask applied to [`ApobEntry::group`] to cancel the group
pub const APOB_CANCELLED: u32 = 0xFFFF_0000;

/// Length of the integrity tag that closes a record header.
pub const APOB_HMAC_LEN: usize = 32;

/// Size in bytes of the container header.
pub const APOB_HEADER_SIZE: usize = 16;

/// Size in bytes of the fixed header in front of each record's payload.
pub const APOB_ENTRY_SIZE: usize = 48;

/// The four bytes that store `v`, least significant first.
pub open spec fn le_bytes4(v: u32) -> Seq<u8> {
    seq![
        (v % 0x100) as u8,
        (v / 0x100 % 0x100) as u8,
        (v / 0x1_0000 % 0x100) as u8,
        (v / 0x100_0000 % 0x100) as u8,
    ]
}

/// Storing the integer read at `at` gives back the four bytes at `at`.
pub proof fn lemma_le_bytes4_of_read(s: Seq<u8>, at: int)
    requires
        0 <= at,
        at + 4 <= s.len(),
    ensures
        le_bytes4(le_u32(s, at) as u32) == s.subrange(at, at + 4),
{
    lemma_le_bounds(s, at);
    let a = s[at] as int;
    let b = s[at + 1] as int;
    let c = s[at + 2] as int;
    let d = s[at + 3] as int;
    let v = le_u32(s, at);
    let low = a + 0x100 * b;
    let high = c + 0x100 * d;
    assert(v == 0x100 * (b + 0x100 * high) + a);
    assert(v == 0x1_0000 * high + low);
    assert(v == 0x100_0000 * d + (low + 0x1_0000 * c));
    assert(v % 0x100 == a);
    assert(v / 0x100 == b + 0x100 * high);
    assert(v / 0x1_0000 == high);
    assert(v / 0x100_0000 == d);
    let bytes = le_bytes4(v as u32);
    assert(bytes[0] == s[at]);
    assert(bytes[1] == s[at + 1]);
    assert(bytes[2] == s[at + 2]);
    assert(bytes[3] == s[at + 3]);
    assert(bytes =~= s.subrange(at, at + 4));
}

#[derive(Copy, Clone, Debug)]
pub struct ApobHeader {
    pub sig: [u8; 4],
    pub version: u32,
    pub size: u32,
    pub offset: u32,
}

impl ApobHeader {
    /// The header is the one stored in the first 16 bytes of `s`.
    pub open spec fn decodes(self, s: Seq<u8>) -> bool {
        &&& APOB_HEADER_SIZE <= s.len()
        &&& self.sig@ == s.subrange(0, 4)
        &&& self.version == le_u32(s, 4)
        &&& self.size == le_u32(s, 8)
        &&& self.offset == le_u32(s, 12)
    }

    /// Reads the header at the start of `bytes`, if 16 bytes are there.
    pub fn read(bytes: &[u8]) -> (r: Option<ApobHeader>)
        ensures
            r.is_some() <==> APOB_HEADER_SIZE <= bytes@.len(),
            r.is_some() ==> r.unwrap().decodes(bytes@),
    {
        if bytes.len() < APOB_HEADER_SIZE {
            return None;
        }
        Some(
            ApobHeader {
                sig: read_array4(bytes, 0),
                version: read_u32(bytes, 4),
                size: read_u32(bytes, 8),
                offset: read_u32(bytes, 12),
            },
        )
    }

    /// Whether the signature is the known one.
    pub fn has_signature(&self) -> (r: bool)
        ensures
            r <==> self.sig@ == APOB_SIG@,
    {
        let ok = self.sig[0] == APOB_SIG[0] && self.sig[1] == APOB_SIG[1] && self.sig[2]
            == APOB_SIG[2] && self.sig[3] == APOB_SIG[3];
        proof {
            if ok {
                assert(self.sig@ =~= APOB_SIG@);
            }
        }
        ok
    }
}

#[derive(Copy, Clone, Debug, PartialEq, Eq, Structural)]
#[allow(non_camel_case_types)]
pub enum ApobGroup {
    MEMORY,
    DF,
    CCX,
    NBIO,
    FCH,
    PSP,
    GENERAL,
    SMBIOS,
    FABRIC,
    APCB,
}

impl ApobGroup {
    /// The numeric id of the group, 1 to 10.
    pub open spec fn spec_repr(self) -> int {
        match self {
            ApobGroup::MEMORY => 1,
            ApobGroup::DF => 2,
            ApobGroup::CCX => 3,
            ApobGroup::NBIO => 4,
            ApobGroup::FCH => 5,
            ApobGroup::PSP => 6,
            ApobGroup::GENERAL => 7,
            ApobGroup::SMBIOS => 8,
            ApobGroup::FABRIC => 9,
            ApobGroup::APCB => 10,
        }
    }

    /// The group with id `n`, if there is one.
    pub open spec fn spec_from_repr(n: int) -> Option<ApobGroup> {
        if n == 1 {
            Some(ApobGroup::MEMORY)
        } else if n == 2 {
            Some(ApobGroup::DF)
        } else if n == 3 {
            Some(ApobGroup::CCX)
        } else if n == 4 {
            Some(ApobGroup::NBIO)
        } else if n == 5 {
            Some(ApobGroup::FCH)
        } else if n == 6 {
            Some(ApobGroup::PSP)
        } else if n == 7 {
            Some(ApobGroup::GENERAL)
        } else if n == 8 {
            Some(ApobGroup::SMBIOS)
        } else if n == 9 {
            Some(ApobGroup::FABRIC)
        } else if n == 10 {
            Some(ApobGroup::APCB)
        } else {
            None
        }
    }

    /// The name of the group as it is displayed.
    pub open spec fn spec_name(self) -> Seq<char> {
        match self {
            ApobGroup::MEMORY => "MEMORY"@,
            ApobGroup::DF => "DF"@,
            ApobGroup::CCX => "CCX"@,
            ApobGroup::NBIO => "NBIO"@,
            ApobGroup::FCH => "FCH"@,
            ApobGroup::PSP => "PSP"@,
            ApobGroup::GENERAL => "GENERAL"@,
            ApobGroup::SMBIOS => "SMBIOS"@,
            ApobGroup::FABRIC => "FABRIC"@,
            ApobGroup::APCB => "APCB"@,
        }
    }

    /// The numeric id of the group.
    pub fn repr(self) -> (r: u32)
        ensures
            r == self.spec_repr(),
    {
        match self {
            ApobGroup::MEMORY => 1,
            ApobGroup::DF => 2,
            ApobGroup::CCX => 3,
            ApobGroup::NBIO => 4,
            ApobGroup::FCH => 5,
            ApobGroup::PSP => 6,
            ApobGroup::GENERAL => 7,
            ApobGroup::SMBIOS => 8,
            ApobGroup::FABRIC => 9,
            ApobGroup::APCB => 10,
        }
    }

    /// The group with the given id, or `None` if the id is unknown.
    pub fn from_repr(discriminant: usize) -> (r: Option<ApobGroup>)
        ensures
            r == Self::spec_from_repr(discriminant as int),
    {
        match discriminant {
            1 => Some(ApobGroup::MEMORY),
            2 => Some(ApobGroup::DF),
            3 => Some(ApobGroup::CCX),
            4 => Some(ApobGroup::NBIO),
            5 => Some(ApobGroup::FCH),
            6 => Some(ApobGroup::PSP),
            7 => Some(ApobGroup::GENERAL),
            8 => Some(ApobGroup::SMBIOS),
            9 => Some(ApobGroup::FABRIC),
            10 => Some(ApobGroup::APCB),
            _ => None,
        }
    }

    /// The name of the group as it is displayed.
    pub fn name(self) -> (r: &'static str)
        ensures
            r@ == self.spec_name(),
    {
        match self {
            ApobGroup::MEMORY => "MEMORY",
            ApobGroup::DF => "DF",
            ApobGroup::CCX => "CCX",
            ApobGroup::NBIO => "NBIO",
            ApobGroup::FCH => "FCH",
            ApobGroup::PSP => "PSP",
            ApobGroup::GENERAL => "GENERAL",
            ApobGroup::SMBIOS => "SMBIOS",
            ApobGroup::FABRIC => "FABRIC",
            ApobGroup::APCB => "APCB",
        }
    }
}

/// Every group is found again from its id.
pub proof fn lemma_group_repr_round_trip(g: ApobGroup)
    ensures
        ApobGroup::spec_from_repr(g.spec_repr()) == Some(g),
        1 <= g.spec_repr() <= 10,
{
}

/// The group that a raw group field names once the cancellation bits are
/// masked off.
pub open spec fn spec_group_of(group: u32) -> Option<ApobGroup> {
    ApobGroup::spec_from_repr((group & 0xFFFF) as int)
}

/// Whether a raw group field carries the cancellation mark: its top 16 bits
/// are all ones.
pub open spec fn spec_cancelled(group: u32) -> bool {
    (group >> 16) == 0xFFFFu32
}

#[derive(Copy, Clone, Debug)]
pub struct ApobEntry {
    pub group: u32,
    pub ty: u32,
    pub inst: u32,
    /// Size in bytes of this struct, including the header
    pub size: u32,
    pub hmac: [u8; APOB_HMAC_LEN],
    // data is trailing behind here
}

impl ApobEntry {
    /// The record header is the one stored in the 48 bytes of `s` at `at`.
    pub open spec fn decodes(self, s: Seq<u8>, at: int) -> bool {
        &&& 0 <= at
        &&& at + APOB_ENTRY_SIZE <= s.len()
        &&& self.group == le_u32(s, at)
        &&& self.ty == le_u32(s, at + 4)
        &&& self.inst == le_u32(s, at + 8)
        &&& self.size == le_u32(s, at + 12)
        &&& self.hmac@ == s.subrange(at + 16, at + 48)
    }

    /// The 48 bytes that store this record header.
    pub open spec fn encoding(self) -> Seq<u8> {
        le_bytes4(self.group) + le_bytes4(self.ty) + le_bytes4(self.inst) + le_bytes4(self.size)
            + self.hmac@
    }

    /// Reads the record header at `at`, if 48 bytes are there.
    pub fn read(bytes: &[u8], at: usize) -> (r: Option<ApobEntry>)
        ensures
            r.is_some() <==> at + APOB_ENTRY_SIZE <= bytes@.len(),
            r.is_some() ==> r.unwrap().decodes(bytes@, at as int),
    {
        if at > bytes.len() || bytes.len() - at < APOB_ENTRY_SIZE {
            return None;
        }
        Some(
            ApobEntry {
                group: read_u32(bytes, at),
                ty: read_u32(bytes, at + 4),
                inst: read_u32(bytes, at + 8),
                size: read_u32(bytes, at + 12),
                hmac: read_array32(bytes, at + 16),
            },
        )
    }

    /// Returns the group, or `None` if the type is unknown
    pub fn group(&self) -> (r: Option<ApobGroup>)
        ensures
            r == spec_group_of(self.group),
    {
        let group: u32 = self.group & !APOB_CANCELLED;
        assert(self.group & !0xFFFF_0000u32 == self.group & 0xFFFF) by (bit_vector);
        ApobGroup::from_repr(group as usize)
    }

    /// Checks whether this group has been cancelled
    ///
    /// A group is cancelled when its top 16 bits are all set to 1
    pub fn cancelled(&self) -> (r: bool)
        ensures
            r == spec_cancelled(self.group),
    {
        let g: u32 = self.group;
        assert(((g & 0xFFFF_0000u32) == 0xFFFF_0000u32) <==> ((g >> 16) == 0xFFFFu32))
            by (bit_vector);
        (self.group & APOB_CANCELLED) == APOB_CANCELLED
    }

    /// The type field with the cancellation bits masked off, as it is listed.
    pub fn listed_type(&self) -> (r: u32)
        ensures
            r == self.ty & 0xFFFF,
    {
        assert(self.ty & !0xFFFF_0000u32 == self.ty & 0xFFFF) by (bit_vector);
        self.ty & !APOB_CANCELLED
    }
}

/// A record header that decodes the bytes at `at` is stored as exactly the 48
/// bytes there.
pub proof fn lemma_entry_encoding(e: ApobEntry, s: Seq<u8>, at: int)
    requires
        e.decodes(s, at),
    ensures
        e.encoding() == s.subrange(at, at + APOB_ENTRY_SIZE),
{
    lemma_le_bytes4_of_read(s, at);
    lemma_le_bytes4_of_read(s, at + 4);
    lemma_le_bytes4_of_read(s, at + 8);
    lemma_le_bytes4_of_read(s, at + 12);
    assert(e.encoding() =~= s.subrange(at, at + APOB_ENTRY_SIZE));
}

/// Cancellation reads only the top half of a group field and the group only
/// the bottom half: marking or unmarking a field as cancelled leaves its
/// group as it was, and two fields with the same bottom half name the same
/// group.
pub proof fn lemma_group_ignores_cancellation(a: u32, b: u32)
    ensures
        spec_cancelled(a) <==> (a >> 16) == 0xFFFFu32,
        (a & 0xFFFF) == (b & 0xFFFF) ==> spec_group_of(a) == spec_group_of(b),
        spec_group_of(a | 0xFFFF_0000) == spec_group_of(a),
        spec_group_of(a & 0xFFFF) == spec_group_of(a),
        spec_cancelled(a | 0xFFFF_0000),
        !spec_cancelled(a & 0xFFFF),
{
    assert((a | 0xFFFF_0000u32) & 0xFFFF == a & 0xFFFF) by (bit_vector);
    assert((a & 0xFFFFu32) & 0xFFFF == a & 0xFFFF) by (bit_vector);
    assert(((a | 0xFFFF_0000u32) >> 16) == 0xFFFFu32) by (bit_vector);
    assert(((a & 0xFFFFu32) >> 16) == 0u32) by (bit_vector);
}

} // verus!

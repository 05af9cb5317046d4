//! Two more payload layouts: the map of core complexes, and the fabric PHY
//! override. Both are packed: no padding lies between their fields.

use crate::bytes::{le_u32, read_u32};
use crate::payload::DecodeError;
use vstd::prelude::*;

verus! {

pub const MILAN_APOB_CCX_MAX_CCDS: usize = 8;

pub const MILAN_APOB_CCX_MAX_CCXS: usize = 2;

pub const MILAN_APOB_CCX_MAX_CORES: usize = 8;

pub const MILAN_APOB_CCX_MAX_THREADS: usize = 2;

/// Size in bytes of one core in a core map.
pub const MILAN_APOB_CORE_SIZE: usize = 3;

/// Size in bytes of one core complex in a core map.
pub const MILAN_APOB_CCX_SIZE: usize = 25;

/// Size in bytes of one core complex die in a core map.
pub const MILAN_APOB_CCD_SIZE: usize = 51;

/// Size in bytes of a core map.
pub const MILAN_APOB_COREMAP_SIZE: usize = 408;

/// Number of data bytes in a PHY override.
pub const MILAN_APOB_PHY_OVERRIDE_DATA: usize = 256;

/// Size in bytes of a PHY override.
pub const MILAN_APOB_PHY_OVERRIDE_SIZE: usize = 260;

#[derive(Copy, Clone, Debug)]
pub struct MilanApobCore {
    pub mac_id: u8,
    pub mac_thread_exists: [u8; 2],
}

#[derive(Copy, Clone, Debug)]
pub struct MilanApobCcx {
    pub macx_id: u8,
    pub macx_cores: [MilanApobCore; 8],
}

#[derive(Copy, Clone, Debug)]
pub struct MilanApobCcd {
    pub macd_id: u8,
    pub macd_ccxs: [MilanApobCcx; 2],
}

#[derive(Copy, Clone, Debug)]
pub struct MilanApobCoremap {
    pub ccds: [MilanApobCcd; 8],
}

/// [`ApobGroup::FABRIC`](crate::record::ApobGroup) +
/// [`ApobFabricType::MILAN_FABRIC_PHY_OVERRIDE`](crate::payload::ApobFabricType)
#[derive(Copy, Clone, Debug)]
pub struct MilanApobPhyOverride {
    pub map_datalen: u32,
    pub map_data: [u8; 256],
}

impl MilanApobCore {
    /// The core is the one stored in the 3 bytes of `s` at `at`.
    pub open spec fn decodes(self, s: Seq<u8>, at: int) -> bool {
        &&& self.mac_id == s[at]
        &&& self.mac_thread_exists@ == s.subrange(at + 1, at + 3)
    }

    /// Reads the core at `at`.
    pub fn read(data: &[u8], at: usize) -> (r: MilanApobCore)
        requires
            at + MILAN_APOB_CORE_SIZE <= data.len(),
        ensures
            r.decodes(data@, at as int),
    {
        let r = MilanApobCore { mac_id: data[at], mac_thread_exists: [data[at + 1], data[at + 2]] };
        proof {
            assert(r.mac_thread_exists@ =~= data@.subrange(at + 1, at + 3));
        }
        r
    }
}

impl MilanApobCcx {
    /// The core complex is the one stored in the 25 bytes of `s` at `at`.
    pub open spec fn decodes(self, s: Seq<u8>, at: int) -> bool {
        &&& self.macx_id == s[at]
        &&& forall|i: int|
            0 <= i < MILAN_APOB_CCX_MAX_CORES ==> (#[trigger] self.macx_cores@[i]).decodes(
                s,
                at + 1 + MILAN_APOB_CORE_SIZE * i,
            )
    }

    /// Reads the core complex at `at`.
    pub fn read(data: &[u8], at: usize) -> (r: MilanApobCcx)
        requires
            at + MILAN_APOB_CCX_SIZE <= data.len(),
        ensures
            r.decodes(data@, at as int),
    {
        let mut cores = [MilanApobCore::read(data, at + 1);8];
        let mut i: usize = 1;
        while i < MILAN_APOB_CCX_MAX_CORES
            invariant
                1 <= i <= MILAN_APOB_CCX_MAX_CORES,
                at + MILAN_APOB_CCX_SIZE <= data.len(),
                forall|j: int|
                    0 <= j < i ==> (#[trigger] cores@[j]).decodes(
                        data@,
                        at + 1 + MILAN_APOB_CORE_SIZE * j,
                    ),
            decreases MILAN_APOB_CCX_MAX_CORES - i,
        {
            cores[i] = MilanApobCore::read(data, at + 1 + MILAN_APOB_CORE_SIZE * i);
            i = i + 1;
        }
        MilanApobCcx { macx_id: data[at], macx_cores: cores }
    }
}

impl MilanApobCcd {
    /// The die is the one stored in the 51 bytes of `s` at `at`.
    pub open spec fn decodes(self, s: Seq<u8>, at: int) -> bool {
        &&& self.macd_id == s[at]
        &&& self.macd_ccxs@.len() == MILAN_APOB_CCX_MAX_CCXS
        &&& self.macd_ccxs@[0].decodes(s, at + 1)
        &&& self.macd_ccxs@[1].decodes(s, at + 1 + MILAN_APOB_CCX_SIZE)
    }

    /// Reads the die at `at`.
    pub fn read(data: &[u8], at: usize) -> (r: MilanApobCcd)
        requires
            at + MILAN_APOB_CCD_SIZE <= data.len(),
        ensures
            r.decodes(data@, at as int),
    {
        MilanApobCcd {
            macd_id: data[at],
            macd_ccxs: [
                MilanApobCcx::read(data, at + 1),
                MilanApobCcx::read(data, at + 1 + MILAN_APOB_CCX_SIZE),
            ],
        }
    }
}

impl MilanApobCoremap {
    /// The core map is the one stored in the first 408 bytes of `s`.
    pub open spec fn decodes(self, s: Seq<u8>) -> bool {
        forall|i: int|
            0 <= i < MILAN_APOB_CCX_MAX_CCDS ==> (#[trigger] self.ccds@[i]).decodes(
                s,
                MILAN_APOB_CCD_SIZE * i,
            )
    }

    /// Decodes a core map, or fails with `Truncated` when the payload is
    /// shorter than the layout.
    pub fn decode(data: &[u8]) -> (r: Result<MilanApobCoremap, DecodeError>)
        ensures
            data@.len() < MILAN_APOB_COREMAP_SIZE ==> r == Err::<MilanApobCoremap, DecodeError>(
                DecodeError::Truncated,
            ),
            data@.len() >= MILAN_APOB_COREMAP_SIZE ==> r.is_ok() && r.unwrap().decodes(data@),
    {
        if data.len() < MILAN_APOB_COREMAP_SIZE {
            return Err(DecodeError::Truncated);
        }
        let mut ccds = [MilanApobCcd::read(data, 0);8];
        let mut i: usize = 1;
        while i < MILAN_APOB_CCX_MAX_CCDS
            invariant
                1 <= i <= MILAN_APOB_CCX_MAX_CCDS,
                MILAN_APOB_COREMAP_SIZE <= data.len(),
                forall|j: int|
                    0 <= j < i ==> (#[trigger] ccds@[j]).decodes(data@, MILAN_APOB_CCD_SIZE * j),
            decreases MILAN_APOB_CCX_MAX_CCDS - i,
        {
            ccds[i] = MilanApobCcd::read(data, MILAN_APOB_CCD_SIZE * i);
            i = i + 1;
        }
        Ok(MilanApobCoremap { ccds })
    }
}

impl MilanApobPhyOverride {
    /// The override is the one stored in the first 260 bytes of `s`.
    pub open spec fn decodes(self, s: Seq<u8>) -> bool {
        &&& self.map_datalen == le_u32(s, 0)
        &&& self.map_data@ == s.subrange(4, MILAN_APOB_PHY_OVERRIDE_SIZE as int)
    }

    /// Decodes a PHY override, or fails with `Truncated` when the payload
    /// is shorter than the layout.
    pub fn decode(data: &[u8]) -> (r: Result<MilanApobPhyOverride, DecodeError>)
        ensures
            data@.len() < MILAN_APOB_PHY_OVERRIDE_SIZE ==> r == Err::<
                MilanApobPhyOverride,
                DecodeError,
            >(DecodeError::Truncated),
            data@.len() >= MILAN_APOB_PHY_OVERRIDE_SIZE ==> r.is_ok() && r.unwrap().decodes(data@),
    {
        if data.len() < MILAN_APOB_PHY_OVERRIDE_SIZE {
            return Err(DecodeError::Truncated);
        }
        let mut map_data = [0u8;256];
        let mut i: usize = 0;
        while i < MILAN_APOB_PHY_OVERRIDE_DATA
            invariant
                i <= MILAN_APOB_PHY_OVERRIDE_DATA,
                MILAN_APOB_PHY_OVERRIDE_SIZE <= data.len(),
                forall|j: int| 0 <= j < i ==> #[trigger] map_data@[j] == data@[4 + j],
            decreases MILAN_APOB_PHY_OVERRIDE_DATA - i,
        {
            map_data[i] = data[4 + i];
            i = i + 1;
        }
        proof {
            assert(map_data@ =~= data@.subrange(4, MILAN_APOB_PHY_OVERRIDE_SIZE as int));
        }
        Ok(MilanApobPhyOverride { map_datalen: read_u32(data, 0), map_data })
    }
}

} // verus!

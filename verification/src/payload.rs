//! The payload layouts that are known for certain records, and the bit
//! fields packed into some of their words.

use crate::bytes::{le_u16, le_u32, le_u64, read_u16, read_u32, read_u64};
use vstd::prelude::*;

verus! {

/// Number of event slots in an event log.
pub const MILAN_APOB_EVENT_SLOTS: usize = 64;

/// Number of entry slots in a PMU training failure log.
pub const PMU_TFI_SLOTS: usize = 40;

/// Size in bytes of an event log payload.
pub const MILAN_APOB_EVENT_LOG_SIZE: usize = 1028;

/// Size in bytes of one event.
pub const MILAN_APOB_EVENT_SIZE: usize = 16;

/// Size in bytes of the fixed part of a system memory map payload.
pub const APOB_SYS_MEM_MAP_SIZE: usize = 16;

/// Size in bytes of one memory hole descriptor.
pub const APOB_SYS_MEM_MAP_HOLE_SIZE: usize = 24;

/// Size in bytes of a PMU training failure log payload.
pub const PMU_TFI_SIZE: usize = 964;

/// Size in bytes of one PMU training failure entry.
pub const PMU_TFI_ENTRY_SIZE: usize = 24;

/// Why a payload could not be decoded.
#[derive(Copy, Clone, Debug, PartialEq, Eq, Structural)]
pub enum DecodeError {
    /// The payload is shorter than the fixed structure of its layout.
    Truncated,
    /// The payload declares more valid elements than its array can hold.
    CountExceedsCapacity,
}

impl DecodeError {
    /// The message for the fault.
    pub open spec fn spec_message(self) -> Seq<char> {
        match self {
            DecodeError::Truncated => "payload is shorter than its layout"@,
            DecodeError::CountExceedsCapacity => "payload declares more elements than it holds"@,
        }
    }

    /// The message for the fault.
    pub fn message(&self) -> (r: &'static str)
        ensures
            r@ == self.spec_message(),
    {
        match self {
            DecodeError::Truncated => "payload is shorter than its layout",
            DecodeError::CountExceedsCapacity => "payload declares more elements than it holds",
        }
    }
}

////////////////////////////////////////////////////////////////////////////////
// GENERAL group handling

#[derive(Copy, Clone, Debug, PartialEq, Eq, Structural)]
#[allow(non_camel_case_types)]
pub enum ApobGeneralType {
    EVENT_LOG,
}

impl ApobGeneralType {
    /// The type with id `n`, if there is one.
    pub open spec fn spec_from_repr(n: int) -> Option<ApobGeneralType> {
        if n == 6 {
            Some(ApobGeneralType::EVENT_LOG)
        } else {
            None
        }
    }

    /// The numeric id of the type.
    pub fn repr(self) -> (r: u32)
        ensures
            Self::spec_from_repr(r as int) == Some(self),
    {
        6
    }

    /// The type with the given id, or `None` if the id is unknown.
    pub fn from_repr(discriminant: usize) -> (r: Option<ApobGeneralType>)
        ensures
            r == Self::spec_from_repr(discriminant as int),
    {
        if discriminant == 6 {
            Some(ApobGeneralType::EVENT_LOG)
        } else {
            None
        }
    }
}

#[derive(Copy, Clone, Debug, PartialEq, Eq, Structural)]
pub struct MilanApobEvent {
    pub class: u32,
    pub info: u32,
    pub data0: u32,
    pub data1: u32,
}

/// The event stored in the 16 bytes of `s` at `at`.
pub open spec fn event_at(s: Seq<u8>, at: int) -> MilanApobEvent {
    MilanApobEvent {
        class: le_u32(s, at) as u32,
        info: le_u32(s, at + 4) as u32,
        data0: le_u32(s, at + 8) as u32,
        data1: le_u32(s, at + 12) as u32,
    }
}

/// The event whose fields are all zero, which fills the unused slots.
pub open spec fn no_event() -> MilanApobEvent {
    MilanApobEvent { class: 0, info: 0, data0: 0, data1: 0 }
}

/// [`ApobGroup::GENERAL`](crate::record::ApobGroup) + [`ApobGeneralType::EVENT_LOG`]
#[derive(Copy, Clone, Debug)]
pub struct MilanApobEventLog {
    pub count: u16,
    pub pad: u16,
    pub events: [MilanApobEvent; 64],
}

/// The events that the event log stored in `s` declares, in order.
pub open spec fn stored_events(s: Seq<u8>) -> Seq<MilanApobEvent> {
    Seq::new(le_u16(s, 0) as nat, |i: int| event_at(s, 4 + MILAN_APOB_EVENT_SIZE * i))
}

/// The events of a log that decodes a payload are the ones that the payload
/// declares.
pub proof fn lemma_valid_events(log: MilanApobEventLog, s: Seq<u8>)
    requires
        log.decodes(s),
    ensures
        log.valid_events() == stored_events(s),
{
    assert(log.events@.len() == MILAN_APOB_EVENT_SLOTS);
    assert(log.valid_events() =~= stored_events(s));
}

impl MilanApobEvent {
    /// Reads the event at `at`.
    pub fn read(data: &[u8], at: usize) -> (r: MilanApobEvent)
        requires
            at + MILAN_APOB_EVENT_SIZE <= data.len(),
        ensures
            r == event_at(data@, at as int),
    {
        MilanApobEvent {
            class: read_u32(data, at),
            info: read_u32(data, at + 4),
            data0: read_u32(data, at + 8),
            data1: read_u32(data, at + 12),
        }
    }
}

impl MilanApobEventLog {
    /// The log is the one stored in `s`: its first `count` slots hold the
    /// events stored there, and the slots behind them hold nothing.
    pub open spec fn decodes(self, s: Seq<u8>) -> bool {
        &&& self.count == le_u16(s, 0)
        &&& self.pad == le_u16(s, 2)
        &&& self.count <= MILAN_APOB_EVENT_SLOTS
        &&& forall|i: int|
            0 <= i < MILAN_APOB_EVENT_SLOTS ==> #[trigger] self.events@[i] == if i < self.count {
                event_at(s, 4 + MILAN_APOB_EVENT_SIZE * i)
            } else {
                no_event()
            }
    }

    /// The number of slots that hold an event.
    pub open spec fn spec_valid(self) -> int {
        if self.count <= MILAN_APOB_EVENT_SLOTS {
            self.count as int
        } else {
            MILAN_APOB_EVENT_SLOTS as int
        }
    }

    /// The events of the log: what its valid slots hold, in order.
    pub open spec fn valid_events(self) -> Seq<MilanApobEvent> {
        self.events@.take(self.spec_valid())
    }

    /// `r` is what decoding the payload `s` as an event log gives.
    pub open spec fn decoded(s: Seq<u8>, r: Result<MilanApobEventLog, DecodeError>) -> bool {
        if s.len() < MILAN_APOB_EVENT_LOG_SIZE {
            r == Err::<MilanApobEventLog, DecodeError>(DecodeError::Truncated)
        } else if le_u16(s, 0) > MILAN_APOB_EVENT_SLOTS {
            r == Err::<MilanApobEventLog, DecodeError>(DecodeError::CountExceedsCapacity)
        } else {
            r.is_ok() && r.unwrap().decodes(s)
        }
    }

    /// Decodes an event log.
    ///
    /// Fails with `Truncated` when the payload is shorter than the layout,
    /// and with `CountExceedsCapacity` when it declares more events than
    /// there are slots. Slots behind the declared count are never read.
    pub fn decode(data: &[u8]) -> (r: Result<MilanApobEventLog, DecodeError>)
        ensures
            Self::decoded(data@, r),
    {
        if data.len() < MILAN_APOB_EVENT_LOG_SIZE {
            return Err(DecodeError::Truncated);
        }
        let count = read_u16(data, 0);
        let pad = read_u16(data, 2);
        if count as usize > MILAN_APOB_EVENT_SLOTS {
            return Err(DecodeError::CountExceedsCapacity);
        }
        let mut events = [MilanApobEvent { class: 0, info: 0, data0: 0, data1: 0 };64];
        let mut i: usize = 0;
        while i < count as usize
            invariant
                i <= count <= MILAN_APOB_EVENT_SLOTS,
                data@.len() >= MILAN_APOB_EVENT_LOG_SIZE,
                forall|j: int|
                    0 <= j < MILAN_APOB_EVENT_SLOTS ==> #[trigger] events@[j] == if j < i {
                        event_at(data@, 4 + MILAN_APOB_EVENT_SIZE * j)
                    } else {
                        no_event()
                    },
            decreases count - i,
        {
            let e = MilanApobEvent::read(data, 4 + MILAN_APOB_EVENT_SIZE * i);
            events[i] = e;
            i = i + 1;
        }
        Ok(MilanApobEventLog { count, pad, events })
    }

    /// The number of slots that hold an event: the count, held to the number
    /// of slots.
    pub fn valid(&self) -> (r: usize)
        ensures
            r == self.spec_valid(),
    {
        if self.count as usize <= MILAN_APOB_EVENT_SLOTS {
            self.count as usize
        } else {
            MILAN_APOB_EVENT_SLOTS
        }
    }
}

#[derive(Copy, Clone, Debug, PartialEq, Eq, Structural)]
#[allow(non_camel_case_types)]
pub enum MilanApobEventClass {
    ALERT,
    WARN,
    ERROR,
    CRIT,
    FATAL,
}

impl MilanApobEventClass {
    /// The class with id `n`, if there is one.
    pub open spec fn spec_from_repr(n: int) -> Option<MilanApobEventClass> {
        if n == 5 {
            Some(MilanApobEventClass::ALERT)
        } else if n == 6 {
            Some(MilanApobEventClass::WARN)
        } else if n == 7 {
            Some(MilanApobEventClass::ERROR)
        } else if n == 8 {
            Some(MilanApobEventClass::CRIT)
        } else if n == 9 {
            Some(MilanApobEventClass::FATAL)
        } else {
            None
        }
    }

    /// The name of the class as it is displayed.
    pub open spec fn spec_name(self) -> Seq<char> {
        match self {
            MilanApobEventClass::ALERT => "ALERT"@,
            MilanApobEventClass::WARN => "WARN"@,
            MilanApobEventClass::ERROR => "ERROR"@,
            MilanApobEventClass::CRIT => "CRIT"@,
            MilanApobEventClass::FATAL => "FATAL"@,
        }
    }

    /// The class with the given id, or `None` if the id is unknown.
    pub fn from_repr(discriminant: usize) -> (r: Option<MilanApobEventClass>)
        ensures
            r == Self::spec_from_repr(discriminant as int),
    {
        match discriminant {
            5 => Some(MilanApobEventClass::ALERT),
            6 => Some(MilanApobEventClass::WARN),
            7 => Some(MilanApobEventClass::ERROR),
            8 => Some(MilanApobEventClass::CRIT),
            9 => Some(MilanApobEventClass::FATAL),
            _ => None,
        }
    }

    /// The name of the class as it is displayed.
    pub fn name(self) -> (r: &'static str)
        ensures
            r@ == self.spec_name(),
    {
        match self {
            MilanApobEventClass::ALERT => "ALERT",
            MilanApobEventClass::WARN => "WARN",
            MilanApobEventClass::ERROR => "ERROR",
            MilanApobEventClass::CRIT => "CRIT",
            MilanApobEventClass::FATAL => "FATAL",
        }
    }
}

#[derive(Copy, Clone, Debug, PartialEq, Eq, Structural)]
#[allow(non_camel_case_types)]
pub enum MilanApobEventInfo {
    TRAIN_ERROR,
}

impl MilanApobEventInfo {
    /// The event with id `n`, if there is one.
    pub open spec fn spec_from_repr(n: int) -> Option<MilanApobEventInfo> {
        if n == 0x4001 {
            Some(MilanApobEventInfo::TRAIN_ERROR)
        } else {
            None
        }
    }

    /// The name of the event as it is displayed.
    pub open spec fn spec_name(self) -> Seq<char> {
        "TRAIN_ERROR"@
    }

    /// The event with the given id, or `None` if the id is unknown.
    pub fn from_repr(discriminant: usize) -> (r: Option<MilanApobEventInfo>)
        ensures
            r == Self::spec_from_repr(discriminant as int),
    {
        if discriminant == 0x4001 {
            Some(MilanApobEventInfo::TRAIN_ERROR)
        } else {
            None
        }
    }

    /// The name of the event as it is displayed.
    pub fn name(self) -> (r: &'static str)
        ensures
            r@ == self.spec_name(),
    {
        "TRAIN_ERROR"
    }
}

/// A bit field of `v` as a number: the bits of `v` from bit `lo` up, `width`
/// of them, where `unit` is 2 to the power `lo` and `span` is 2 to the power
/// `width`.
pub open spec fn field(v: u32, unit: int, span: int) -> int {
    (v as int / unit) % span
}

/// First data word of a training error event.
#[derive(Copy, Clone, Debug)]
pub struct MilanTrainErrorData0(pub u32);

impl MilanTrainErrorData0 {
    /// Socket: bits 0 to 7.
    pub fn sock(&self) -> (r: u32)
        ensures
            r == field(self.0, 1, 0x100),
    {
        let v: u32 = self.0;
        assert(v & 0xFF == v % 0x100) by (bit_vector);
        self.0 & 0xFF
    }

    /// Channel: bits 8 to 15.
    pub fn chan(&self) -> (r: u32)
        ensures
            r == field(self.0, 0x100, 0x100),
    {
        let v: u32 = self.0;
        assert((v >> 8) & 0xFF == (v / 0x100) % 0x100) by (bit_vector);
        (self.0 >> 8) & 0xFF
    }

    /// DIMM: bits 16 and 17.
    pub fn dimm(&self) -> (r: u32)
        ensures
            r == field(self.0, 0x1_0000, 4),
    {
        let v: u32 = self.0;
        assert((v >> 16) & 0b11 == (v / 0x1_0000) % 4) by (bit_vector);
        (self.0 >> 16) & 0b11
    }

    /// Rank: bits 24 to 27.
    pub fn rank(&self) -> (r: u32)
        ensures
            r == field(self.0, 0x100_0000, 16),
    {
        let v: u32 = self.0;
        assert((v >> 24) & 0b1111 == (v / 0x100_0000) % 16) by (bit_vector);
        (self.0 >> 24) & 0b1111
    }
}

/// Second data word of a training error event.
#[derive(Copy, Clone, Debug)]
pub struct MilanTrainErrorData1(pub u32);

impl MilanTrainErrorData1 {
    /// PMU load error: bit 0.
    pub fn pmu_load(&self) -> (r: bool)
        ensures
            r <==> field(self.0, 1, 2) == 1,
    {
        let v: u32 = self.0;
        assert(v & 1 == v % 2) by (bit_vector);
        (self.0 & 1) != 0
    }

    /// PMU training error: bit 1.
    pub fn pmu_train(&self) -> (r: bool)
        ensures
            r <==> field(self.0, 2, 2) == 1,
    {
        let v: u32 = self.0;
        assert((v & 2 != 0) <==> ((v / 2) % 2 == 1)) by (bit_vector);
        (self.0 & 2) != 0
    }
}

////////////////////////////////////////////////////////////////////////////////
// FABRIC group handling

#[derive(Copy, Clone, Debug, PartialEq, Eq, Structural)]
#[allow(non_camel_case_types)]
pub enum ApobFabricType {
    SYS_MEM_MAP,
    MILAN_FABRIC_PHY_OVERRIDE,
}

impl ApobFabricType {
    /// The type with id `n`, if there is one.
    pub open spec fn spec_from_repr(n: int) -> Option<ApobFabricType> {
        if n == 9 {
            Some(ApobFabricType::SYS_MEM_MAP)
        } else if n == 21 {
            Some(ApobFabricType::MILAN_FABRIC_PHY_OVERRIDE)
        } else {
            None
        }
    }

    /// The numeric id of the type.
    pub fn repr(self) -> (r: u32)
        ensures
            Self::spec_from_repr(r as int) == Some(self),
    {
        match self {
            ApobFabricType::SYS_MEM_MAP => 9,
            ApobFabricType::MILAN_FABRIC_PHY_OVERRIDE => 21,
        }
    }

    /// The type with the given id, or `None` if the id is unknown.
    pub fn from_repr(discriminant: usize) -> (r: Option<ApobFabricType>)
        ensures
            r == Self::spec_from_repr(discriminant as int),
    {
        match discriminant {
            9 => Some(ApobFabricType::SYS_MEM_MAP),
            21 => Some(ApobFabricType::MILAN_FABRIC_PHY_OVERRIDE),
            _ => None,
        }
    }
}

/// [`ApobGroup::FABRIC`](crate::record::ApobGroup) + [`ApobFabricType::SYS_MEM_MAP`]
#[derive(Copy, Clone, Debug, PartialEq, Eq, Structural)]
pub struct ApobSysMemMap {
    /// Physical address of the upper limit (exclusive) of available RAM
    pub high_phys: u64,
    /// Number of [`ApobSysMemMapHole`] entries following this structure
    pub hole_count: u32,
    pub padding: u32,
}

#[derive(Copy, Clone, Debug, PartialEq, Eq, Structural)]
pub struct ApobSysMemMapHole {
    /// Base physical address of this hole
    pub base: u64,
    /// Size of the hole in bytes
    pub size: u64,
    /// Tag indicating the purpose of this hole
    ///
    /// The specific values may vary between different microarchitectures and/or
    /// firmware.
    pub ty: u32,
    pub padding: u32,
}

/// The fixed part of the memory map stored at the start of `s`.
pub open spec fn mem_map_at(s: Seq<u8>) -> ApobSysMemMap {
    ApobSysMemMap {
        high_phys: le_u64(s, 0) as u64,
        hole_count: le_u32(s, 8) as u32,
        padding: le_u32(s, 12) as u32,
    }
}

/// The hole descriptor stored in the 24 bytes of `s` at `at`.
pub open spec fn hole_at(s: Seq<u8>, at: int) -> ApobSysMemMapHole {
    ApobSysMemMapHole {
        base: le_u64(s, at) as u64,
        size: le_u64(s, at + 8) as u64,
        ty: le_u32(s, at + 16) as u32,
        padding: le_u32(s, at + 20) as u32,
    }
}

/// The number of whole hole descriptors that a payload of `len` bytes has
/// room for.
pub open spec fn hole_capacity(len: int) -> int {
    (len - APOB_SYS_MEM_MAP_SIZE) / (APOB_SYS_MEM_MAP_HOLE_SIZE as int)
}

/// The holes that the memory map stored in `s` declares, in order.
pub open spec fn stored_holes(s: Seq<u8>) -> Seq<ApobSysMemMapHole> {
    Seq::new(
        le_u32(s, 8) as nat,
        |i: int| hole_at(s, APOB_SYS_MEM_MAP_SIZE + APOB_SYS_MEM_MAP_HOLE_SIZE * i),
    )
}

/// The holes are the ones that the memory map stored in `s` declares, in
/// order.
pub open spec fn holes_decode(holes: Seq<ApobSysMemMapHole>, s: Seq<u8>) -> bool {
    holes == stored_holes(s)
}

impl ApobSysMemMapHole {
    /// Reads the hole descriptor at `at`.
    pub fn read(data: &[u8], at: usize) -> (r: ApobSysMemMapHole)
        requires
            at + APOB_SYS_MEM_MAP_HOLE_SIZE <= data.len(),
        ensures
            r == hole_at(data@, at as int),
    {
        ApobSysMemMapHole {
            base: read_u64(data, at),
            size: read_u64(data, at + 8),
            ty: read_u32(data, at + 16),
            padding: read_u32(data, at + 20),
        }
    }
}

impl ApobSysMemMap {
    /// `r` is what decoding the payload `s` as a system memory map gives.
    pub open spec fn decoded(
        s: Seq<u8>,
        r: Result<(ApobSysMemMap, Vec<ApobSysMemMapHole>), DecodeError>,
    ) -> bool {
        if s.len() < APOB_SYS_MEM_MAP_SIZE {
            r == Err::<(ApobSysMemMap, Vec<ApobSysMemMapHole>), DecodeError>(DecodeError::Truncated)
        } else if le_u32(s, 8) > hole_capacity(s.len() as int) {
            r == Err::<(ApobSysMemMap, Vec<ApobSysMemMapHole>), DecodeError>(
                DecodeError::CountExceedsCapacity,
            )
        } else {
            &&& r.is_ok()
            &&& r.unwrap().0 == mem_map_at(s)
            &&& holes_decode(r.unwrap().1@, s)
        }
    }

    /// Decodes a system memory map and the holes that it declares.
    ///
    /// Fails with `Truncated` when the payload is shorter than the fixed
    /// part, and with `CountExceedsCapacity` when it declares more holes
    /// than the rest of the payload has room for. On success the holes are
    /// the declared number of descriptors, in order.
    pub fn decode(data: &[u8]) -> (r: Result<(ApobSysMemMap, Vec<ApobSysMemMapHole>), DecodeError>)
        ensures
            Self::decoded(data@, r),
    {
        if data.len() < APOB_SYS_MEM_MAP_SIZE {
            return Err(DecodeError::Truncated);
        }
        let map = ApobSysMemMap {
            high_phys: read_u64(data, 0),
            hole_count: read_u32(data, 8),
            padding: read_u32(data, 12),
        };
        let capacity = (data.len() - APOB_SYS_MEM_MAP_SIZE) / APOB_SYS_MEM_MAP_HOLE_SIZE;
        let count = map.hole_count as usize;
        if count > capacity {
            return Err(DecodeError::CountExceedsCapacity);
        }
        let mut holes: Vec<ApobSysMemMapHole> = Vec::new();
        let mut i: usize = 0;
        while i < count
            invariant
                i <= count <= capacity,
                capacity == hole_capacity(data@.len() as int),
                data@.len() == data.len(),
                data@.len() >= APOB_SYS_MEM_MAP_SIZE,
                holes@.len() == i,
                forall|j: int|
                    0 <= j < i ==> #[trigger] holes@[j] == hole_at(
                        data@,
                        APOB_SYS_MEM_MAP_SIZE + APOB_SYS_MEM_MAP_HOLE_SIZE * j,
                    ),
            decreases count - i,
        {
            let h = ApobSysMemMapHole::read(
                data,
                APOB_SYS_MEM_MAP_SIZE + APOB_SYS_MEM_MAP_HOLE_SIZE * i,
            );
            holes.push(h);
            i = i + 1;
        }
        proof {
            assert(holes@ =~= stored_holes(data@));
        }
        Ok((map, holes))
    }
}

////////////////////////////////////////////////////////////////////////////////
// MEMORY group

#[derive(Copy, Clone, Debug, PartialEq, Eq, Structural)]
#[allow(non_camel_case_types)]
pub enum ApobMemoryType {
    MILAN_PMU_TRAIN_FAIL,
}

impl ApobMemoryType {
    /// The type with id `n`, if there is one.
    pub open spec fn spec_from_repr(n: int) -> Option<ApobMemoryType> {
        if n == 22 {
            Some(ApobMemoryType::MILAN_PMU_TRAIN_FAIL)
        } else {
            None
        }
    }

    /// The numeric id of the type.
    pub fn repr(self) -> (r: u32)
        ensures
            Self::spec_from_repr(r as int) == Some(self),
    {
        22
    }

    /// The type with the given id, or `None` if the id is unknown.
    pub fn from_repr(discriminant: usize) -> (r: Option<ApobMemoryType>)
        ensures
            r == Self::spec_from_repr(discriminant as int),
    {
        if discriminant == 22 {
            Some(ApobMemoryType::MILAN_PMU_TRAIN_FAIL)
        } else {
            None
        }
    }
}

#[derive(Copy, Clone, Debug, PartialEq, Eq, Structural)]
pub struct PmuTfiEntryBitfield(pub u32);

impl PmuTfiEntryBitfield {
    /// Socket: bit 0.
    pub fn sock(&self) -> (r: u32)
        ensures
            r == field(self.0, 1, 2),
    {
        let v: u32 = self.0;
        assert(v & 1 == v % 2) by (bit_vector);
        self.0 & 1
    }

    /// UMC: bits 1 to 3.
    pub fn umc(&self) -> (r: u32)
        ensures
            r == field(self.0, 2, 8),
    {
        let v: u32 = self.0;
        assert((v >> 1) & 0b111 == (v / 2) % 8) by (bit_vector);
        (self.0 >> 1) & 0b111
    }

    /// 0 for 1D and 1 for 2D: bit 4.
    pub fn dimension(&self) -> (r: u32)
        ensures
            r == field(self.0, 16, 2),
    {
        let v: u32 = self.0;
        assert((v >> 4) & 1 == (v / 16) % 2) by (bit_vector);
        (self.0 >> 4) & 1
    }

    /// Number of the 1D training pass: bits 5 to 7.
    pub fn num_1d(&self) -> (r: u32)
        ensures
            r == field(self.0, 32, 8),
    {
        let v: u32 = self.0;
        assert((v >> 5) & 0b111 == (v / 32) % 8) by (bit_vector);
        (self.0 >> 5) & 0b111
    }

    /// Training stage: bits 15 to 30.
    pub fn stage(&self) -> (r: u32)
        ensures
            r == field(self.0, 0x8000, 0x1_0000),
    {
        let v: u32 = self.0;
        assert((v >> 15) & 0xFFFF == (v / 0x8000) % 0x1_0000) by (bit_vector);
        (self.0 >> 15) & 0xFFFF
    }
}

/// A single training error entry
#[derive(Copy, Clone, Debug)]
pub struct PmuTfiEntry {
    pub bits: PmuTfiEntryBitfield,
    pub error: u32,
    pub data: [u32; 4],
}

/// A training error entry as a value of the model.
pub struct PmuTfiEntryModel {
    pub bits: u32,
    pub error: u32,
    pub data: Seq<u32>,
}

impl View for PmuTfiEntry {
    type V = PmuTfiEntryModel;

    open spec fn view(&self) -> PmuTfiEntryModel {
        PmuTfiEntryModel { bits: self.bits.0, error: self.error, data: self.data@ }
    }
}

/// The entry stored in the 24 bytes of `s` at `at`.
pub open spec fn entry_at(s: Seq<u8>, at: int) -> PmuTfiEntryModel {
    PmuTfiEntryModel {
        bits: le_u32(s, at) as u32,
        error: le_u32(s, at + 4) as u32,
        data: seq![
            le_u32(s, at + 8) as u32,
            le_u32(s, at + 12) as u32,
            le_u32(s, at + 16) as u32,
            le_u32(s, at + 20) as u32,
        ],
    }
}

/// The entry whose words are all zero, which fills the unused slots.
pub open spec fn no_entry() -> PmuTfiEntryModel {
    PmuTfiEntryModel { bits: 0, error: 0, data: seq![0u32, 0u32, 0u32, 0u32] }
}

/// The entries that the training failure log stored in `s` declares, in
/// order.
pub open spec fn stored_entries(s: Seq<u8>) -> Seq<PmuTfiEntryModel> {
    Seq::new(le_u32(s, 0) as nat, |i: int| entry_at(s, 4 + PMU_TFI_ENTRY_SIZE * i))
}

impl PmuTfiEntry {
    /// The entry is the one stored in the 24 bytes of `s` at `at`.
    pub open spec fn decodes(self, s: Seq<u8>, at: int) -> bool {
        self@ == entry_at(s, at)
    }

    /// The entry holds nothing: all its words are zero.
    pub open spec fn is_blank(self) -> bool {
        self@ == no_entry()
    }

    /// Reads the entry at `at`.
    pub fn read(data: &[u8], at: usize) -> (r: PmuTfiEntry)
        requires
            at + PMU_TFI_ENTRY_SIZE <= data.len(),
        ensures
            r.decodes(data@, at as int),
    {
        let r = PmuTfiEntry {
            bits: PmuTfiEntryBitfield(read_u32(data, at)),
            error: read_u32(data, at + 4),
            data: [
                read_u32(data, at + 8),
                read_u32(data, at + 12),
                read_u32(data, at + 16),
                read_u32(data, at + 20),
            ],
        };
        proof {
            assert(r@.data =~= entry_at(data@, at as int).data);
        }
        r
    }
}

/// The entries of a log that decodes a payload are the ones that the payload
/// declares.
pub proof fn lemma_valid_entries(log: PmuTfi, s: Seq<u8>)
    requires
        log.decodes(s),
    ensures
        log.valid_entries() == stored_entries(s),
{
    assert(log.entries@.len() == PMU_TFI_SLOTS);
    assert forall|i: int| 0 <= i < log.nvalid implies (#[trigger] log.entries@[i])@ == entry_at(
        s,
        4 + PMU_TFI_ENTRY_SIZE * i,
    ) by {
        assert(log.entries@[i].decodes(s, 4 + PMU_TFI_ENTRY_SIZE * i));
    }
    assert(log.valid_entries() =~= stored_entries(s));
}

/// A set of training failure entries
#[derive(Copy, Clone, Debug)]
pub struct PmuTfi {
    /// Position of the next valid entry
    pub nvalid: u32,
    pub entries: [PmuTfiEntry; 40],
}

impl PmuTfi {
    /// The log is the one stored in `s`: its first `nvalid` slots hold the
    /// entries stored there, and the slots behind them hold nothing.
    pub open spec fn decodes(self, s: Seq<u8>) -> bool {
        &&& self.nvalid == le_u32(s, 0)
        &&& self.nvalid <= PMU_TFI_SLOTS
        &&& forall|i: int|
            0 <= i < PMU_TFI_SLOTS ==> if i < self.nvalid {
                (#[trigger] self.entries@[i]).decodes(s, 4 + PMU_TFI_ENTRY_SIZE * i)
            } else {
                self.entries@[i].is_blank()
            }
    }

    /// The number of slots that hold an entry.
    pub open spec fn spec_valid(self) -> int {
        if self.nvalid <= PMU_TFI_SLOTS {
            self.nvalid as int
        } else {
            PMU_TFI_SLOTS as int
        }
    }

    /// The entries of the log: what its valid slots hold, in order.
    pub open spec fn valid_entries(self) -> Seq<PmuTfiEntryModel> {
        Seq::new(self.spec_valid() as nat, |i: int| self.entries@[i]@)
    }

    /// `r` is what decoding the payload `s` as a training failure log gives.
    pub open spec fn decoded(s: Seq<u8>, r: Result<PmuTfi, DecodeError>) -> bool {
        if s.len() < PMU_TFI_SIZE {
            r == Err::<PmuTfi, DecodeError>(DecodeError::Truncated)
        } else if le_u32(s, 0) > PMU_TFI_SLOTS {
            r == Err::<PmuTfi, DecodeError>(DecodeError::CountExceedsCapacity)
        } else {
            r.is_ok() && r.unwrap().decodes(s)
        }
    }

    /// Decodes a PMU training failure log.
    ///
    /// Fails with `Truncated` when the payload is shorter than the layout,
    /// and with `CountExceedsCapacity` when it declares more entries than
    /// there are slots. Slots behind the declared count are never read.
    pub fn decode(data: &[u8]) -> (r: Result<PmuTfi, DecodeError>)
        ensures
            Self::decoded(data@, r),
    {
        if data.len() < PMU_TFI_SIZE {
            return Err(DecodeError::Truncated);
        }
        let nvalid = read_u32(data, 0);
        if nvalid as usize > PMU_TFI_SLOTS {
            return Err(DecodeError::CountExceedsCapacity);
        }
        let blank = PmuTfiEntry { bits: PmuTfiEntryBitfield(0), error: 0, data: [0u32, 0, 0, 0] };
        assert(blank@.data =~= no_entry().data);
        let mut entries = [blank;40];
        let mut i: usize = 0;
        while i < nvalid as usize
            invariant
                i <= nvalid <= PMU_TFI_SLOTS,
                data@.len() >= PMU_TFI_SIZE,
                forall|j: int|
                    0 <= j < PMU_TFI_SLOTS ==> if j < i {
                        (#[trigger] entries@[j]).decodes(data@, 4 + PMU_TFI_ENTRY_SIZE * j)
                    } else {
                        entries@[j].is_blank()
                    },
            decreases nvalid - i,
        {
            let e = PmuTfiEntry::read(data, 4 + PMU_TFI_ENTRY_SIZE * i);
            entries[i] = e;
            i = i + 1;
        }
        Ok(PmuTfi { nvalid, entries })
    }

    /// The number of slots that hold an entry: the count, held to the number
    /// of slots.
    pub fn valid(&self) -> (r: usize)
        ensures
            r == self.spec_valid(),
    {
        if self.nvalid as usize <= PMU_TFI_SLOTS {
            self.nvalid as usize
        } else {
            PMU_TFI_SLOTS
        }
    }
}

} // verus!

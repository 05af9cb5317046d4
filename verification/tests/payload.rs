use apob::coremap::{MilanApobCoremap, MilanApobPhyOverride};
use apob::payload::{
    ApobFabricType, ApobGeneralType, ApobMemoryType, ApobSysMemMap, DecodeError,
    MilanApobEventClass, MilanApobEventInfo, MilanApobEventLog, MilanTrainErrorData0,
    MilanTrainErrorData1, PmuTfi, PmuTfiEntryBitfield,
};

fn event_log(count: u16, events: &[(u32, u32, u32, u32)]) -> Vec<u8> {
    let mut out = Vec::new();
    out.extend_from_slice(&count.to_le_bytes());
    out.extend_from_slice(&[0xAA, 0xBB]);
    for i in 0..64 {
        let (c, n, a, b) = events.get(i).copied().unwrap_or((0xEEEE_EEEE, 0xDDDD_DDDD, 7, 8));
        out.extend_from_slice(&c.to_le_bytes());
        out.extend_from_slice(&n.to_le_bytes());
        out.extend_from_slice(&a.to_le_bytes());
        out.extend_from_slice(&b.to_le_bytes());
    }
    out
}

fn mem_map(high: u64, count: u32, holes: &[(u64, u64, u32)]) -> Vec<u8> {
    let mut out = Vec::new();
    out.extend_from_slice(&high.to_le_bytes());
    out.extend_from_slice(&count.to_le_bytes());
    out.extend_from_slice(&[1, 2, 3, 4]);
    for (base, size, ty) in holes {
        out.extend_from_slice(&base.to_le_bytes());
        out.extend_from_slice(&size.to_le_bytes());
        out.extend_from_slice(&ty.to_le_bytes());
        out.extend_from_slice(&[9, 9, 9, 9]);
    }
    out
}

fn pmu(nvalid: u32, entries: &[(u32, u32, [u32; 4])]) -> Vec<u8> {
    let mut out = Vec::new();
    out.extend_from_slice(&nvalid.to_le_bytes());
    for i in 0..40 {
        let (bits, err, data) = entries.get(i).copied().unwrap_or((0xFFFF_FFFF, 0x5555, [1, 2, 3, 4]));
        out.extend_from_slice(&bits.to_le_bytes());
        out.extend_from_slice(&err.to_le_bytes());
        for d in data {
            out.extend_from_slice(&d.to_le_bytes());
        }
    }
    out
}

#[test]
fn event_log_decodes_the_declared_events() {
    let bytes = event_log(2, &[(5, 0x4001, 0x0102_0304, 3), (9, 1, 0xFFFF_FFFF, 0)]);
    assert_eq!(bytes.len(), 1028);
    let log = MilanApobEventLog::decode(&bytes).unwrap();
    assert_eq!(log.count, 2);
    assert_eq!(log.pad, 0xBBAA);
    assert_eq!(log.valid(), 2);
    assert_eq!(log.events[0].class, 5);
    assert_eq!(log.events[0].info, 0x4001);
    assert_eq!(log.events[0].data0, 0x0102_0304);
    assert_eq!(log.events[0].data1, 3);
    assert_eq!(log.events[1].class, 9);
    assert_eq!(log.events[1].data0, 0xFFFF_FFFF);
}

#[test]
fn event_log_never_reads_behind_the_count() {
    let bytes = event_log(1, &[(6, 2, 3, 4)]);
    let log = MilanApobEventLog::decode(&bytes).unwrap();
    for e in &log.events[1..] {
        assert_eq!((e.class, e.info, e.data0, e.data1), (0, 0, 0, 0));
    }
    let log = MilanApobEventLog::decode(&event_log(0, &[])).unwrap();
    assert_eq!(log.valid(), 0);
    assert_eq!(log.events[0].class, 0);
}

#[test]
fn event_log_takes_a_full_array() {
    let events: Vec<(u32, u32, u32, u32)> = (0..64).map(|i| (i, i + 1, i + 2, i + 3)).collect();
    let log = MilanApobEventLog::decode(&event_log(64, &events)).unwrap();
    assert_eq!(log.valid(), 64);
    assert_eq!(log.events[63].data1, 66);
}

#[test]
fn event_log_errors() {
    let bytes = event_log(65, &[]);
    assert_eq!(MilanApobEventLog::decode(&bytes).err(), Some(DecodeError::CountExceedsCapacity));
    assert_eq!(MilanApobEventLog::decode(&bytes[..1027]).err(), Some(DecodeError::Truncated));
    assert_eq!(MilanApobEventLog::decode(&[]).err(), Some(DecodeError::Truncated));
    let mut longer = event_log(3, &[]);
    longer.push(0);
    assert!(MilanApobEventLog::decode(&longer).is_ok());
}

#[test]
fn valid_count_is_held_to_the_slots() {
    let mut log = MilanApobEventLog::decode(&event_log(2, &[])).unwrap();
    log.count = 1000;
    assert_eq!(log.valid(), 64);
    let mut tfi = PmuTfi::decode(&pmu(2, &[])).unwrap();
    tfi.nvalid = 41;
    assert_eq!(tfi.valid(), 40);
}

#[test]
fn mem_map_decodes_the_declared_holes() {
    let bytes = mem_map(
        0x1_2345_6789,
        2,
        &[(0x1000, 0x200, 7), (0xFFFF_FFFF_0000, 0x1_0000_0000, 0x12), (1, 2, 3)],
    );
    let (map, holes) = ApobSysMemMap::decode(&bytes).unwrap();
    assert_eq!(map.high_phys, 0x1_2345_6789);
    assert_eq!(map.hole_count, 2);
    assert_eq!(map.padding, 0x0403_0201);
    assert_eq!(holes.len(), 2);
    assert_eq!((holes[0].base, holes[0].size, holes[0].ty), (0x1000, 0x200, 7));
    assert_eq!(holes[0].padding, 0x0909_0909);
    assert_eq!((holes[1].base, holes[1].size, holes[1].ty), (0xFFFF_FFFF_0000, 0x1_0000_0000, 0x12));
}

#[test]
fn mem_map_errors() {
    let bytes = mem_map(1, 2, &[(1, 2, 3), (4, 5, 6)]);
    assert!(ApobSysMemMap::decode(&bytes).is_ok());
    assert_eq!(
        ApobSysMemMap::decode(&bytes[..bytes.len() - 1]).err(),
        Some(DecodeError::CountExceedsCapacity)
    );
    assert_eq!(ApobSysMemMap::decode(&bytes[..15]).err(), Some(DecodeError::Truncated));
    let none = mem_map(1, 0, &[]);
    assert_eq!(ApobSysMemMap::decode(&none).unwrap().1.len(), 0);
    let huge = mem_map(1, u32::MAX, &[(1, 2, 3)]);
    assert_eq!(ApobSysMemMap::decode(&huge).err(), Some(DecodeError::CountExceedsCapacity));
}

#[test]
fn pmu_log_decodes_the_declared_entries() {
    let bytes = pmu(2, &[(0x8033, 0xE1, [1, 2, 3, 4]), (1, 2, [0xA, 0xB, 0xC, 0xD])]);
    assert_eq!(bytes.len(), 964);
    let log = PmuTfi::decode(&bytes).unwrap();
    assert_eq!(log.nvalid, 2);
    assert_eq!(log.valid(), 2);
    assert_eq!(log.entries[0].bits.0, 0x8033);
    assert_eq!(log.entries[0].error, 0xE1);
    assert_eq!(log.entries[0].data, [1, 2, 3, 4]);
    assert_eq!(log.entries[1].data, [0xA, 0xB, 0xC, 0xD]);
    assert_eq!(log.entries[2].bits.0, 0);
    assert_eq!(log.entries[39].data, [0, 0, 0, 0]);
}

#[test]
fn pmu_log_errors() {
    let bytes = pmu(41, &[]);
    assert_eq!(PmuTfi::decode(&bytes).err(), Some(DecodeError::CountExceedsCapacity));
    assert_eq!(PmuTfi::decode(&bytes[..963]).err(), Some(DecodeError::Truncated));
    assert!(PmuTfi::decode(&pmu(40, &[])).is_ok());
}

#[test]
fn train_error_fields() {
    let d = MilanTrainErrorData0(0x0B02_1234);
    assert_eq!(d.sock(), 0x34);
    assert_eq!(d.chan(), 0x12);
    assert_eq!(d.dimm(), 2);
    assert_eq!(d.rank(), 0xB);
    let d = MilanTrainErrorData0(0xFFFF_FFFF);
    assert_eq!((d.sock(), d.chan(), d.dimm(), d.rank()), (0xFF, 0xFF, 3, 15));
    let d = MilanTrainErrorData0(0xF0FC_0000);
    assert_eq!((d.sock(), d.chan(), d.dimm(), d.rank()), (0, 0, 0, 0));
    assert!(MilanTrainErrorData1(1).pmu_load());
    assert!(!MilanTrainErrorData1(1).pmu_train());
    assert!(MilanTrainErrorData1(2).pmu_train());
    assert!(!MilanTrainErrorData1(2).pmu_load());
    assert!(MilanTrainErrorData1(0xFFFF_FFFF).pmu_load());
    assert!(!MilanTrainErrorData1(0xFFFF_FFFC).pmu_train());
}

#[test]
fn training_failure_fields() {
    let b = PmuTfiEntryBitfield(0b1_0000_0000_1010_0011_0111_1011);
    assert_eq!(b.sock(), 1);
    assert_eq!(b.umc(), 0b101);
    assert_eq!(b.dimension(), 1);
    assert_eq!(b.num_1d(), 0b011);
    assert_eq!(b.stage(), (b.0 >> 15) & 0xFFFF);
    let b = PmuTfiEntryBitfield(0x7FFF_8000);
    assert_eq!((b.sock(), b.umc(), b.dimension(), b.num_1d(), b.stage()), (0, 0, 0, 0, 0xFFFF));
    let b = PmuTfiEntryBitfield(0x8000_7F00);
    assert_eq!(b.stage(), 0);
    assert_eq!(b.num_1d(), 0);
    let b = PmuTfiEntryBitfield(0xFF);
    assert_eq!((b.sock(), b.umc(), b.dimension(), b.num_1d(), b.stage()), (1, 7, 1, 7, 0));
}

#[test]
fn type_ids() {
    assert_eq!(ApobGeneralType::EVENT_LOG.repr(), 6);
    assert_eq!(ApobGeneralType::from_repr(6), Some(ApobGeneralType::EVENT_LOG));
    assert_eq!(ApobGeneralType::from_repr(7), None);
    assert_eq!(ApobFabricType::SYS_MEM_MAP.repr(), 9);
    assert_eq!(ApobFabricType::MILAN_FABRIC_PHY_OVERRIDE.repr(), 21);
    assert_eq!(ApobFabricType::from_repr(21), Some(ApobFabricType::MILAN_FABRIC_PHY_OVERRIDE));
    assert_eq!(ApobFabricType::from_repr(10), None);
    assert_eq!(ApobMemoryType::MILAN_PMU_TRAIN_FAIL.repr(), 22);
    assert_eq!(ApobMemoryType::from_repr(22), Some(ApobMemoryType::MILAN_PMU_TRAIN_FAIL));
    assert_eq!(ApobMemoryType::from_repr(0), None);
}

#[test]
fn event_classes_and_infos() {
    assert_eq!(MilanApobEventClass::from_repr(4), None);
    assert_eq!(MilanApobEventClass::from_repr(5), Some(MilanApobEventClass::ALERT));
    assert_eq!(MilanApobEventClass::from_repr(6), Some(MilanApobEventClass::WARN));
    assert_eq!(MilanApobEventClass::from_repr(7), Some(MilanApobEventClass::ERROR));
    assert_eq!(MilanApobEventClass::from_repr(8), Some(MilanApobEventClass::CRIT));
    assert_eq!(MilanApobEventClass::from_repr(9), Some(MilanApobEventClass::FATAL));
    assert_eq!(MilanApobEventClass::from_repr(10), None);
    assert_eq!(MilanApobEventClass::CRIT.name(), "CRIT");
    assert_eq!(MilanApobEventInfo::from_repr(0x4001), Some(MilanApobEventInfo::TRAIN_ERROR));
    assert_eq!(MilanApobEventInfo::from_repr(0x4002), None);
    assert_eq!(MilanApobEventInfo::TRAIN_ERROR.name(), "TRAIN_ERROR");
}

#[test]
fn decode_error_messages() {
    assert_eq!(DecodeError::Truncated.message(), "payload is shorter than its layout");
    assert_eq!(
        DecodeError::CountExceedsCapacity.message(),
        "payload declares more elements than it holds"
    );
}

#[test]
fn core_map_is_packed() {
    let bytes: Vec<u8> = (0..408u32).map(|i| (i % 251) as u8).collect();
    let map = MilanApobCoremap::decode(&bytes).unwrap();
    for d in 0..8 {
        let ccd = &map.ccds[d];
        assert_eq!(ccd.macd_id, bytes[51 * d]);
        for x in 0..2 {
            let ccx = &ccd.macd_ccxs[x];
            let at = 51 * d + 1 + 25 * x;
            assert_eq!(ccx.macx_id, bytes[at]);
            for c in 0..8 {
                let core = &ccx.macx_cores[c];
                let at = at + 1 + 3 * c;
                assert_eq!(core.mac_id, bytes[at]);
                assert_eq!(core.mac_thread_exists, [bytes[at + 1], bytes[at + 2]]);
            }
        }
    }
    assert_eq!(MilanApobCoremap::decode(&bytes[..407]).err(), Some(DecodeError::Truncated));
}

#[test]
fn phy_override_holds_its_data() {
    let mut bytes = vec![0x04, 0x03, 0x02, 0x01];
    bytes.extend((0..256u32).map(|i| (255 - i) as u8));
    let p = MilanApobPhyOverride::decode(&bytes).unwrap();
    assert_eq!(p.map_datalen, 0x0102_0304);
    for i in 0..256 {
        assert_eq!(p.map_data[i], (255 - i) as u8);
    }
    assert_eq!(MilanApobPhyOverride::decode(&bytes[..259]).err(), Some(DecodeError::Truncated));
}

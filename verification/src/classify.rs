//! Which records have a known payload layout, and the decoded view of an
//! item that has one.

use crate::container::{Entry, Item};
use crate::payload::{
    ApobSysMemMap, ApobSysMemMapHole, DecodeError, MilanApobEventLog, PmuTfi,
};
use crate::record::{spec_group_of, ApobGroup, ApobHeader};
use vstd::prelude::*;

verus! {

/// The payload layouts that are known.
#[derive(Copy, Clone, Debug, PartialEq, Eq, Structural)]
pub enum SpecializedTag {
    Header,
    EventLog,
    MemMap,
    PmuTrainingFailure,
}

/// The layout of an item's payload: the header item is always shown as a
/// header, the padding has no layout, and a record has the layout that the
/// table gives for its group and type.
pub open spec fn spec_specialized(i: Item) -> Option<SpecializedTag> {
    match i {
        Item::Header(_) => Some(SpecializedTag::Header),
        Item::Padding => None,
        Item::Entry(h) => {
            let group = spec_group_of(h.group);
            if group == Some(ApobGroup::GENERAL) && h.ty == 6 {
                Some(SpecializedTag::EventLog)
            } else if group == Some(ApobGroup::FABRIC) && h.ty == 9 {
                Some(SpecializedTag::MemMap)
            } else if group == Some(ApobGroup::MEMORY) && h.ty == 22 {
                Some(SpecializedTag::PmuTrainingFailure)
            } else {
                None
            }
        },
    }
}

/// Checks whether this item has a payload layout that is known.
pub fn specialized(i: Item) -> (r: Option<SpecializedTag>)
    ensures
        r == spec_specialized(i),
{
    match i {
        Item::Entry(h) => match h.group() {
            Some(ApobGroup::GENERAL) => if h.ty == 6 {
                Some(SpecializedTag::EventLog)
            } else {
                None
            },
            Some(ApobGroup::FABRIC) => if h.ty == 9 {
                Some(SpecializedTag::MemMap)
            } else {
                None
            },
            Some(ApobGroup::MEMORY) => if h.ty == 22 {
                Some(SpecializedTag::PmuTrainingFailure)
            } else {
                None
            },
            _ => None,
        },
        Item::Header(_) => Some(SpecializedTag::Header),
        Item::Padding => None,
    }
}

/// The decoded payload of an item whose layout is known.
#[derive(Clone, Debug)]
pub enum SpecializedView {
    Header(ApobHeader),
    EventLog(MilanApobEventLog),
    MemMap(ApobSysMemMap, Vec<ApobSysMemMapHole>),
    PmuTrainingFailure(PmuTfi),
}

impl SpecializedView {
    /// The layout that the view shows.
    pub open spec fn spec_tag(self) -> SpecializedTag {
        match self {
            SpecializedView::Header(_) => SpecializedTag::Header,
            SpecializedView::EventLog(_) => SpecializedTag::EventLog,
            SpecializedView::MemMap(_, _) => SpecializedTag::MemMap,
            SpecializedView::PmuTrainingFailure(_) => SpecializedTag::PmuTrainingFailure,
        }
    }

    /// The layout that the view shows.
    pub fn tag(&self) -> (r: SpecializedTag)
        ensures
            r == self.spec_tag(),
    {
        match self {
            SpecializedView::Header(_) => SpecializedTag::Header,
            SpecializedView::EventLog(_) => SpecializedTag::EventLog,
            SpecializedView::MemMap(_, _) => SpecializedTag::MemMap,
            SpecializedView::PmuTrainingFailure(_) => SpecializedTag::PmuTrainingFailure,
        }
    }
}

/// `r` is what decoding the item by its layout gives: nothing where the
/// layout is not known, and otherwise what the decoder of that layout makes
/// of the payload.
pub open spec fn spec_decoded(entry: Entry, r: Option<Result<SpecializedView, DecodeError>>) -> bool {
    match spec_specialized(entry.entry) {
        None => r is None,
        Some(SpecializedTag::Header) => r matches Some(Ok(SpecializedView::Header(h)))
            && entry.entry == Item::Header(h),
        Some(SpecializedTag::EventLog) => r is Some && match r.unwrap() {
            Ok(SpecializedView::EventLog(log)) => MilanApobEventLog::decoded(
                entry.data@,
                Ok(log),
            ),
            Err(e) => MilanApobEventLog::decoded(entry.data@, Err(e)),
            _ => false,
        },
        Some(SpecializedTag::MemMap) => r is Some && match r.unwrap() {
            Ok(SpecializedView::MemMap(map, holes)) => ApobSysMemMap::decoded(
                entry.data@,
                Ok((map, holes)),
            ),
            Err(e) => ApobSysMemMap::decoded(entry.data@, Err(e)),
            _ => false,
        },
        Some(SpecializedTag::PmuTrainingFailure) => r is Some && match r.unwrap() {
            Ok(SpecializedView::PmuTrainingFailure(log)) => PmuTfi::decoded(entry.data@, Ok(log)),
            Err(e) => PmuTfi::decoded(entry.data@, Err(e)),
            _ => false,
        },
    }
}

/// Decodes the payload of an item by its layout.
///
/// Returns `None` for an item without a known layout. A payload that its
/// decoder refuses gives the decoder's error; the item itself stays as it
/// is.
pub fn decode_specialized(entry: &Entry) -> (r: Option<Result<SpecializedView, DecodeError>>)
    ensures
        spec_decoded(*entry, r),
{
    match specialized(entry.entry) {
        None => None,
        Some(SpecializedTag::Header) => match entry.entry {
            Item::Header(h) => Some(Ok(SpecializedView::Header(h))),
            _ => None,
        },
        Some(SpecializedTag::EventLog) => match MilanApobEventLog::decode(entry.data.as_slice()) {
            Ok(log) => Some(Ok(SpecializedView::EventLog(log))),
            Err(e) => Some(Err(e)),
        },
        Some(SpecializedTag::MemMap) => match ApobSysMemMap::decode(entry.data.as_slice()) {
            Ok((map, holes)) => Some(Ok(SpecializedView::MemMap(map, holes))),
            Err(e) => Some(Err(e)),
        },
        Some(SpecializedTag::PmuTrainingFailure) => match PmuTfi::decode(entry.data.as_slice()) {
            Ok(log) => Some(Ok(SpecializedView::PmuTrainingFailure(log))),
            Err(e) => Some(Err(e)),
        },
    }
}

} // verus!

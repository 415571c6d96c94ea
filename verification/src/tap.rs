//! Frame tapping: which canvas edge an interface currently serves, and the
//! record made of each frame sent on a labelled interface.

use vstd::prelude::*;
use crate::text::{Address, addr_text, kind_text, fmt_addr, kind_name};

verus! {

/// The canvas edge an interface serves, stamped with the generation of the
/// link that set it, so a later link's label is never cleared by an earlier
/// link's teardown.
pub struct TapBinding {
    pub generation: u64,
    pub label: String,
}

impl TapBinding {
    pub fn duplicate(&self) -> (b: TapBinding)
        ensures
            b.generation == self.generation,
            b.label@ == self.label@,
    {
        TapBinding { generation: self.generation, label: self.label.clone() }
    }
}

/// Is the label set, and set by the link of this generation?
pub open spec fn owned_by(label: Option<TapBinding>, generation: u64) -> bool {
    label matches Some(b) && b.generation == generation
}

/// Does the link of `generation` own this label?
pub fn owns_binding(label: &Option<TapBinding>, generation: u64) -> (owned: bool)
    ensures
        owned == owned_by(*label, generation),
{
    match label {
        Some(b) => b.generation == generation,
        None => false,
    }
}

/// Clear the label, but only when the link of `generation` set it.
pub fn release_binding(label: &mut Option<TapBinding>, generation: u64)
    ensures
        owned_by(*old(label), generation) ==> *final(label) == None::<TapBinding>,
        !owned_by(*old(label), generation) ==> *final(label) == *old(label),
{
    if owns_binding(label, generation) {
        *label = None;
    }
}

/// The header fields of a frame that the tap records.
pub struct FrameHeader {
    pub src: Address,
    pub dst: Address,
    pub kind: u8,
    pub seq_no: u16,
}

/// What the tap records of one frame (the time stamp is added by the caller).
pub struct FrameRecord {
    pub link_id: String,
    pub dir: String,
    pub src: String,
    pub dst: String,
    pub kind: String,
    pub seq: u16,
}

/// The record of a frame sent with header `hdr` in direction `dir` on an
/// interface with label `label`: none when the interface is unlabelled.
pub fn record_frame(label: &Option<TapBinding>, dir: &str, hdr: &FrameHeader) -> (r: Option<FrameRecord>)
    ensures
        label is None ==> r is None,
        label matches Some(b) ==> r matches Some(rec) && {
            &&& rec.link_id@ == b.label@
            &&& rec.dir@ == dir@
            &&& rec.src@ == addr_text(hdr.src)
            &&& rec.dst@ == addr_text(hdr.dst)
            &&& rec.kind@ == kind_text(hdr.kind)
            &&& rec.seq == hdr.seq_no
        },
{
    match label {
        None => None,
        Some(b) => Some(FrameRecord {
            link_id: b.label.clone(),
            dir: String::from_str(dir),
            src: fmt_addr(&hdr.src),
            dst: fmt_addr(&hdr.dst),
            kind: kind_name(hdr.kind),
            seq: hdr.seq_no,
        }),
    }
}

} // verus!

//! Program-specific information (PSI): classification of payloads into PAT
//! or PMT sections, and the descriptor and elementary-stream records those
//! tables carry.

use vstd::prelude::*;
use std::collections::HashSet;
use crate::pat::{pat_spec, Pat, PatV};
use crate::pmt::{pmt_spec, Pmt, PmtV};

verus! {

broadcast use vstd::std_specs::hash::group_hash_axioms;

/// The big-endian 16-bit value formed by two bytes.
pub open spec fn be16(hi: u8, lo: u8) -> int {
    hi * 256 + lo
}

/// The big-endian 32-bit value formed by four bytes.
pub open spec fn be32(b0: u8, b1: u8, b2: u8, b3: u8) -> int {
    b0 * 0x1000000 + b1 * 0x10000 + b2 * 0x100 + b3
}

/// `x` capped at `hi`; used to keep parsing cursors within a region.
pub open spec fn cap(x: int, hi: int) -> int {
    if x > hi {
        hi
    } else {
        x
    }
}

/// A decoded PSI table: one of the two foundational table kinds.
#[derive(Debug, PartialEq, Eq)]
pub enum Psi {
    Pat(Pat),
    Pmt(Pmt),
}

/// The mathematical model of a decoded PSI table.
pub ghost enum PsiV {
    Pat(PatV),
    Pmt(PmtV),
}

impl View for Psi {
    type V = PsiV;

    open spec fn view(&self) -> PsiV {
        match self {
            Psi::Pat(p) => PsiV::Pat(p@),
            Psi::Pmt(p) => PsiV::Pmt(p@),
        }
    }
}

/// PID 0 is the PID that carries the PAT.
pub open spec fn spec_is_pat(pid: u16) -> bool {
    pid == 0
}

/// The PID range that may carry network, program-map or elementary data.
pub open spec fn spec_is_network_program_elementary(pid: u16) -> bool {
    0x0010 <= pid <= 0x1FFE
}

/// A PID carries PMT sections when it lies in the assignable range and has
/// been discovered through a PAT.
pub open spec fn spec_is_pmt(pid: u16, pmt_pids: Set<u16>) -> bool {
    spec_is_network_program_elementary(pid) && pmt_pids.contains(pid)
}

/// What classifying a payload yields: a PAT decode on PID 0, a PMT decode
/// on a PID already known to carry PMTs, and nothing otherwise or when the
/// decode fails.
pub open spec fn psi_spec(buf: Seq<u8>, pid: u16, pmt_pids: Set<u16>) -> Option<PsiV> {
    if spec_is_pat(pid) {
        match pat_spec(buf) {
            Some(p) => Some(PsiV::Pat(p)),
            None => None,
        }
    } else if spec_is_pmt(pid, pmt_pids) {
        match pmt_spec(buf) {
            Some(p) => Some(PsiV::Pmt(p)),
            None => None,
        }
    } else {
        None
    }
}

/// The stored CRC of a decoded table.
pub open spec fn spec_psi_crc(p: PsiV) -> u32 {
    match p {
        PsiV::Pat(t) => t.crc,
        PsiV::Pmt(t) => t.crc,
    }
}

/// Whether a decoded table's stored CRC disagrees with the CRC computed
/// over its section bytes.
pub open spec fn spec_psi_crc_error(p: PsiV) -> bool {
    match p {
        PsiV::Pat(t) => t.crc_error,
        PsiV::Pmt(t) => t.crc_error,
    }
}

impl Psi {
    /// Parse a payload into a Psi table according to the PID it arrived on
    /// and the set of PIDs known to carry PMTs. A payload that is not a
    /// table of the kind its PID calls for yields None, a non-fatal skip.
    pub fn new(buf: &[u8], pid: &u16, pmt_pids: &HashSet<u16>) -> (r: Option<Psi>)
        ensures
            match r {
                Some(psi) => psi_spec(buf@, *pid, pmt_pids@) == Some(psi@),
                None => psi_spec(buf@, *pid, pmt_pids@) is None,
            },
    {
        if Psi::is_pat(pid) {
            match Pat::new(buf) {
                Some(p) => Some(Psi::Pat(p)),
                None => None,
            }
        } else if Psi::is_pmt(pid, pmt_pids) {
            match Pmt::new(buf) {
                Some(p) => Some(Psi::Pmt(p)),
                None => None,
            }
        } else {
            None
        }
    }

    /// The stored CRC of this table.
    pub fn get_crc(&self) -> (r: u32)
        ensures
            r == spec_psi_crc(self@),
    {
        match self {
            Psi::Pat(p) => p.crc,
            Psi::Pmt(p) => p.crc,
        }
    }

    /// Whether this table's stored CRC disagrees with the CRC computed over
    /// its section bytes.
    pub fn get_crc_error(&self) -> (r: bool)
        ensures
            r == spec_psi_crc_error(self@),
    {
        match self {
            Psi::Pat(p) => p.crc_error,
            Psi::Pmt(p) => p.crc_error,
        }
    }

    /// Whether a PID is the PAT PID.
    pub fn is_pat(pid: &u16) -> (r: bool)
        ensures
            r == spec_is_pat(*pid),
    {
        *pid == 0x0
    }

    /// Whether a PID lies in the range assignable to network, program-map
    /// or elementary data.
    pub fn is_network_program_elementary(pid: &u16) -> (r: bool)
        ensures
            r == spec_is_network_program_elementary(*pid),
    {
        *pid >= 0x0010 && *pid <= 0x1FFE
    }

    /// Whether a PID is known to carry PMT sections.
    pub fn is_pmt(pid: &u16, pmt_pids: &HashSet<u16>) -> (r: bool)
        ensures
            r == spec_is_pmt(*pid, pmt_pids@),
    {
        Psi::is_network_program_elementary(pid) && pmt_pids.contains(pid)
    }
}

/// A descriptor as retained by the PMT decoder: its tag and its declared
/// payload length. The payload bytes themselves are not retained; the
/// length is used to skip them while parsing.
#[derive(Clone, Copy, Debug, PartialEq, Eq, Structural)]
pub struct VideoStreamDescriptor {
    pub tag: u8,
    pub length: u8,
}

/// One elementary-stream entry of a PMT: the stream type, the PID carrying
/// the stream, and its nested descriptors.
#[derive(Debug, PartialEq, Eq)]
pub struct ElementaryStream {
    pub stream_type: u8,
    pub elementary_pid: u16,
    pub descriptors: Vec<VideoStreamDescriptor>,
}

/// The mathematical model of an elementary-stream entry.
pub ghost struct ElementaryStreamV {
    pub stream_type: u8,
    pub elementary_pid: u16,
    pub descriptors: Seq<VideoStreamDescriptor>,
}

impl View for ElementaryStream {
    type V = ElementaryStreamV;

    open spec fn view(&self) -> ElementaryStreamV {
        ElementaryStreamV {
            stream_type: self.stream_type,
            elementary_pid: self.elementary_pid,
            descriptors: self.descriptors@,
        }
    }
}

/// The models of a sequence of elementary-stream entries.
pub open spec fn es_views(v: Seq<ElementaryStream>) -> Seq<ElementaryStreamV> {
    v.map_values(|e: ElementaryStream| e@)
}

/// The human-readable label of an elementary stream type.
pub open spec fn spec_stream_type_label(t: u8) -> Seq<char> {
    if t == 0x00 {
        "Reserved"@
    } else if t == 0x01 {
        "MPEG-1 video stream"@
    } else if t == 0x02 {
        "MPEG-2 video stream"@
    } else if t == 0x03 {
        "MPEG-1 audio stream"@
    } else if t == 0x04 {
        "MPEG-2 audio stream"@
    } else if t == 0x05 {
        "MPEG-2 private sections"@
    } else if t == 0x06 {
        "MPEG-2 PES packets"@
    } else if t == 0x07 {
        "MHEG-5 Audio-Visual streams"@
    } else if t == 0x08 {
        "DSM-CC ISO/IEC 13818-1 Annex A"@
    } else if t == 0x09 {
        "ITU-T Satellite Audio-Visual streams"@
    } else if t == 0x0A {
        "MPEG-2 Video Clip A streams"@
    } else if t == 0x0B {
        "MPEG-2 Video Clip B streams"@
    } else if t == 0x0C {
        "MPEG-2 Video Clip C streams"@
    } else if t == 0x0D {
        "MPEG-2 Video Clip D streams"@
    } else if t == 0x0E {
        "MPEG-2 Auxiliary streams"@
    } else if t == 0x0F {
        "MPEG-2 Audio with ADTS transport syntax"@
    } else if t == 0x10 {
        "MPEG-4 Visual"@
    } else if t == 0x11 {
        "MPEG-4 Audio"@
    } else if t == 0x12 {
        "ISO/IEC 14496-1"@
    } else if t == 0x13 {
        "ISO/IEC 14496-1"@
    } else if t == 0x14 {
        "ISO/IEC 13818-6"@
    } else if t <= 0x7F {
        "ITU-T Rec. H.222.0 | ISO/IEC 13818-1 Reserved"@
    } else {
        "User Private"@
    }
}

impl ElementaryStream {
    /// The human-readable label of this entry's stream type.
    pub fn to_string(&self) -> (r: &'static str)
        ensures
            r@ == spec_stream_type_label(self.stream_type),
    {
        let t = self.stream_type;
        if t == 0x00 {
            "Reserved"
        } else if t == 0x01 {
            "MPEG-1 video stream"
        } else if t == 0x02 {
            "MPEG-2 video stream"
        } else if t == 0x03 {
            "MPEG-1 audio stream"
        } else if t == 0x04 {
            "MPEG-2 audio stream"
        } else if t == 0x05 {
            "MPEG-2 private sections"
        } else if t == 0x06 {
            "MPEG-2 PES packets"
        } else if t == 0x07 {
            "MHEG-5 Audio-Visual streams"
        } else if t == 0x08 {
            "DSM-CC ISO/IEC 13818-1 Annex A"
        } else if t == 0x09 {
            "ITU-T Satellite Audio-Visual streams"
        } else if t == 0x0A {
            "MPEG-2 Video Clip A streams"
        } else if t == 0x0B {
            "MPEG-2 Video Clip B streams"
        } else if t == 0x0C {
            "MPEG-2 Video Clip C streams"
        } else if t == 0x0D {
            "MPEG-2 Video Clip D streams"
        } else if t == 0x0E {
            "MPEG-2 Auxiliary streams"
        } else if t == 0x0F {
            "MPEG-2 Audio with ADTS transport syntax"
        } else if t == 0x10 {
            "MPEG-4 Visual"
        } else if t == 0x11 {
            "MPEG-4 Audio"
        } else if t == 0x12 {
            "ISO/IEC 14496-1"
        } else if t == 0x13 {
            "ISO/IEC 14496-1"
        } else if t == 0x14 {
            "ISO/IEC 13818-6"
        } else if t <= 0x7F {
            "ITU-T Rec. H.222.0 | ISO/IEC 13818-1 Reserved"
        } else {
            "User Private"
        }
    }
}

/// The human-readable label of a descriptor tag.
pub open spec fn spec_descriptor_tag_label(tag: u8) -> Seq<char> {
    if tag == 0 || tag == 1 {
        "Reserved"@
    } else if tag == 2 {
        "Video Stream"@
    } else if tag == 3 {
        "Audio Stream"@
    } else if tag == 4 {
        "Hierarchy"@
    } else if tag == 5 {
        "Registration"@
    } else if tag == 6 {
        "Data Stream Alignment"@
    } else if tag == 7 {
        "Target Background Grid"@
    } else if tag == 8 {
        "Video Window"@
    } else if tag == 9 {
        "CA"@
    } else if tag == 10 {
        "ISO 639 Language"@
    } else if tag == 11 {
        "System Clock"@
    } else if tag == 12 {
        "Multiplex Buffer Utilization"@
    } else if tag == 13 {
        "Copyright"@
    } else if tag == 14 {
        "Maximum Bitrate"@
    } else if tag == 15 {
        "Private Data Indicator"@
    } else if tag == 16 {
        "Smoothing Buffer"@
    } else if tag == 17 {
        "STD"@
    } else if tag == 18 {
        "IBP"@
    } else if tag <= 26 {
        "Defined in ISO/IEC 13818-6"@
    } else if tag == 27 {
        "MPEG-4 Video"@
    } else if tag == 28 {
        "MPEG-4 Audio"@
    } else if tag == 29 {
        "IOD"@
    } else if tag == 30 {
        "SL"@
    } else if tag == 31 {
        "FMC"@
    } else if tag == 32 {
        "External ES ID"@
    } else if tag == 33 {
        "MuxCode"@
    } else if tag == 34 {
        "FmxBufferSize"@
    } else if tag == 35 {
        "Multiplexbuffer"@
    } else if tag == 36 {
        "Content Labeling"@
    } else if tag == 37 {
        "Metadata Pointer"@
    } else if tag == 38 {
        "Metadata"@
    } else if tag == 39 {
        "Metadata STD"@
    } else if tag == 40 {
        "AVC Video"@
    } else if tag == 41 {
        "IPMP"@
    } else if tag == 42 {
        "AVC Timing and HRD"@
    } else if tag == 43 {
        "MPEG-2 AAC Audio"@
    } else if tag == 44 {
        "FlexMuxTiming"@
    } else if tag <= 63 {
        "ITU-T Rec. H.222.0 | ISO/IEC 13818-1 Reserved"@
    } else {
        "User Private"@
    }
}

impl VideoStreamDescriptor {
    /// The human-readable label of this descriptor's tag.
    pub fn to_string(&self) -> (r: &'static str)
        ensures
            r@ == spec_descriptor_tag_label(self.tag),
    {
        let tag = self.tag;
        if tag == 0 || tag == 1 {
            "Reserved"
        } else if tag == 2 {
            "Video Stream"
        } else if tag == 3 {
            "Audio Stream"
        } else if tag == 4 {
            "Hierarchy"
        } else if tag == 5 {
            "Registration"
        } else if tag == 6 {
            "Data Stream Alignment"
        } else if tag == 7 {
            "Target Background Grid"
        } else if tag == 8 {
            "Video Window"
        } else if tag == 9 {
            "CA"
        } else if tag == 10 {
            "ISO 639 Language"
        } else if tag == 11 {
            "System Clock"
        } else if tag == 12 {
            "Multiplex Buffer Utilization"
        } else if tag == 13 {
            "Copyright"
        } else if tag == 14 {
            "Maximum Bitrate"
        } else if tag == 15 {
            "Private Data Indicator"
        } else if tag == 16 {
            "Smoothing Buffer"
        } else if tag == 17 {
            "STD"
        } else if tag == 18 {
            "IBP"
        } else if tag <= 26 {
            "Defined in ISO/IEC 13818-6"
        } else if tag == 27 {
            "MPEG-4 Video"
        } else if tag == 28 {
            "MPEG-4 Audio"
        } else if tag == 29 {
            "IOD"
        } else if tag == 30 {
            "SL"
        } else if tag == 31 {
            "FMC"
        } else if tag == 32 {
            "External ES ID"
        } else if tag == 33 {
            "MuxCode"
        } else if tag == 34 {
            "FmxBufferSize"
        } else if tag == 35 {
            "Multiplexbuffer"
        } else if tag == 36 {
            "Content Labeling"
        } else if tag == 37 {
            "Metadata Pointer"
        } else if tag == 38 {
            "Metadata"
        } else if tag == 39 {
            "Metadata STD"
        } else if tag == 40 {
            "AVC Video"
        } else if tag == 41 {
            "IPMP"
        } else if tag == 42 {
            "AVC Timing and HRD"
        } else if tag == 43 {
            "MPEG-2 AAC Audio"
        } else if tag == 44 {
            "FlexMuxTiming"
        } else if tag <= 63 {
            "ITU-T Rec. H.222.0 | ISO/IEC 13818-1 Reserved"
        } else {
            "User Private"
        }
    }
}

} // verus!

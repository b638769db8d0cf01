//! Transport-stream framing: locating frame alignment in a raw byte buffer
//! and decoding one fixed-size frame into a structured packet header plus a
//! payload, as well as folding decoded packets into per-PID health state.

use vstd::prelude::*;
use vstd::slice::{slice_subrange, slice_to_vec};
use std::collections::{HashMap, HashSet};
use crate::pat::{lemma_pmt_pids_step, spec_pmt_pids, ProgramInfoType};
use crate::psi::{Psi, PsiV};
use crate::{
    emitted_table, entry_wf, fresh_entry, observe_entry, pmt_pids_after, spec_has_continuity_error,
    states_wf, PidErrors, PidState, PidStateV,
};

verus! {

broadcast use vstd::std_specs::hash::group_hash_axioms;

/// Marker byte that begins every transport-stream frame.
pub const SYNC_BYTE_VAL: u8 = 0x47;

/// Fixed size of one transport-stream frame in bytes.
pub const PACKET_SIZE: usize = 188;

/// Size of the fixed packet header in bytes.
pub const HEADER_SIZE: usize = 4;

/// Size of the CRC trailer of a PSI section in bytes.
pub const CRC_SIZE: usize = 4;

/// Reserved null/stuffing PID, exempt from continuity tracking.
pub const NULL_PACKET_PID: u16 = 0x1FFF;

/// One decoded transport-stream packet.
#[derive(Debug)]
pub struct Packet {
    pub transport_error_indicator: bool,
    pub payload_unit_start_indicator: bool,
    pub transport_priority: bool,
    pub pid: u16,
    pub transport_scrambling_control: u8,
    pub adaptation_field_control: u8,
    pub continuity_counter: u8,
    pub payload: Vec<u8>,
}

/// The mathematical model of a packet: its header fields and the payload as
/// a byte sequence.
pub ghost struct PacketV {
    pub transport_error_indicator: bool,
    pub payload_unit_start_indicator: bool,
    pub transport_priority: bool,
    pub pid: u16,
    pub transport_scrambling_control: u8,
    pub adaptation_field_control: u8,
    pub continuity_counter: u8,
    pub payload: Seq<u8>,
}

impl View for Packet {
    type V = PacketV;

    open spec fn view(&self) -> PacketV {
        PacketV {
            transport_error_indicator: self.transport_error_indicator,
            payload_unit_start_indicator: self.payload_unit_start_indicator,
            transport_priority: self.transport_priority,
            pid: self.pid,
            transport_scrambling_control: self.transport_scrambling_control,
            adaptation_field_control: self.adaptation_field_control,
            continuity_counter: self.continuity_counter,
            payload: self.payload@,
        }
    }
}

/// Header-only equality, the notion of packet equality used for duplicate
/// detection: payload bytes are intentionally excluded.
pub open spec fn spec_header_eq(a: PacketV, b: PacketV) -> bool {
    &&& a.transport_error_indicator == b.transport_error_indicator
    &&& a.payload_unit_start_indicator == b.payload_unit_start_indicator
    &&& a.transport_priority == b.transport_priority
    &&& a.pid == b.pid
    &&& a.transport_scrambling_control == b.transport_scrambling_control
    &&& a.adaptation_field_control == b.adaptation_field_control
    &&& a.continuity_counter == b.continuity_counter
}

/// Field ranges that every decoded packet satisfies: the PID is 13 bits, the
/// two control fields are 2 bits, the continuity counter is 4 bits, and the
/// payload fits in one frame.
pub open spec fn valid_packet(p: PacketV) -> bool {
    &&& p.pid <= 0x1FFF
    &&& p.transport_scrambling_control <= 3
    &&& p.adaptation_field_control <= 3
    &&& p.continuity_counter <= 15
    &&& p.payload.len() <= 184
}

impl PartialEq for Packet {
    fn eq(&self, other: &Self) -> (r: bool) {
        self.transport_error_indicator == other.transport_error_indicator
            && self.payload_unit_start_indicator == other.payload_unit_start_indicator
            && self.transport_priority == other.transport_priority && self.pid == other.pid
            && self.transport_scrambling_control == other.transport_scrambling_control
            && self.adaptation_field_control == other.adaptation_field_control
            && self.continuity_counter == other.continuity_counter
    }
}

impl Eq for Packet {

}

impl vstd::std_specs::cmp::PartialEqSpecImpl for Packet {
    open spec fn obeys_eq_spec() -> bool {
        true
    }

    open spec fn eq_spec(&self, other: &Packet) -> bool {
        spec_header_eq(self@, other@)
    }
}

impl Clone for Packet {
    /// An exact copy: the clone has the same model as the original.
    fn clone(&self) -> (r: Self)
        ensures
            r@ == self@,
    {
        Packet {
            transport_error_indicator: self.transport_error_indicator,
            payload_unit_start_indicator: self.payload_unit_start_indicator,
            transport_priority: self.transport_priority,
            pid: self.pid,
            transport_scrambling_control: self.transport_scrambling_control,
            adaptation_field_control: self.adaptation_field_control,
            continuity_counter: self.continuity_counter,
            payload: slice_to_vec(self.payload.as_slice()),
        }
    }
}

/// The model of the all-zero packet that `Packet::default` returns.
pub open spec fn default_packet() -> PacketV {
    PacketV {
        transport_error_indicator: false,
        payload_unit_start_indicator: false,
        transport_priority: false,
        pid: 0,
        transport_scrambling_control: 0,
        adaptation_field_control: 0,
        continuity_counter: 0,
        payload: Seq::empty(),
    }
}

impl Default for Packet {
    fn default() -> (r: Self)
        ensures
            r@ == default_packet(),
    {
        Packet {
            transport_error_indicator: false,
            payload_unit_start_indicator: false,
            transport_priority: false,
            pid: 0,
            transport_scrambling_control: 0,
            adaptation_field_control: 0,
            continuity_counter: 0,
            payload: Vec::new(),
        }
    }
}

/// The bit at position `n` of `input`, where bit 0 is the least significant
/// and bit 7 the most significant; false for positions past the top bit.
pub open spec fn spec_bit_at(input: u8, n: u8) -> bool {
    n < 8 && input & (1u8 << n) != 0
}

/// Gets the bit at position `n`. Bits are numbered from 0 (least
/// significant) to 7 (most significant).
pub fn get_bit_at(input: u8, n: u8) -> (r: bool)
    ensures
        r == spec_bit_at(input, n),
{
    if n < 8 {
        input & (1u8 << n) != 0
    } else {
        false
    }
}

/// Relies on byteorder's `BigEndian::read_u16`: the big-endian 16-bit
/// integer formed by the two bytes handed to it.
#[verifier::external_body]
pub(crate) fn read_u16_be(hi: u8, lo: u8) -> (r: u16)
    ensures
        r as int == hi as int * 256 + lo as int,
{
    <byteorder::BigEndian as byteorder::ByteOrder>::read_u16(&[hi, lo])
}

/// Relies on byteorder's `BigEndian::read_u32`: the big-endian 32-bit
/// integer formed by the four bytes handed to it.
#[verifier::external_body]
pub(crate) fn read_u32_be(b0: u8, b1: u8, b2: u8, b3: u8) -> (r: u32)
    ensures
        r as int == b0 as int * 0x1000000 + b1 as int * 0x10000 + b2 as int * 0x100 + b3 as int,
{
    <byteorder::BigEndian as byteorder::ByteOrder>::read_u32(&[b0, b1, b2, b3])
}

/// The payload carried by a well-formed 188-byte frame: with
/// adaptation_field_control 01 the payload begins right after the 4-byte
/// header; with 11 it begins after the header plus one length byte plus the
/// adaptation field of that length (empty if that start lies past the
/// frame); with 00 or 10 there is no payload.
pub open spec fn spec_payload(s: Seq<u8>) -> Seq<u8> {
    let afc = (s[3] & 0x30) >> 4u8;
    if afc == 1 {
        s.subrange(4, 188)
    } else if afc == 3 {
        if 5 + s[4] as int <= 188 {
            s.subrange(5 + s[4] as int, 188)
        } else {
            Seq::empty()
        }
    } else {
        Seq::empty()
    }
}

/// What decoding a frame yields: nothing unless the buffer is exactly one
/// frame beginning with the sync marker; otherwise the packed header fields
/// and the payload.
pub open spec fn spec_packet(s: Seq<u8>) -> Option<PacketV> {
    if s.len() != 188 || s[0] != 0x47 {
        None
    } else {
        Some(
            PacketV {
                transport_error_indicator: spec_bit_at(s[1], 7),
                payload_unit_start_indicator: spec_bit_at(s[1], 6),
                transport_priority: spec_bit_at(s[1], 5),
                pid: (((s[1] & 0x1F) as int * 256 + s[2] as int) as u16),
                transport_scrambling_control: (s[3] & 0xC0) >> 6u8,
                adaptation_field_control: (s[3] & 0x30) >> 4u8,
                continuity_counter: s[3] & 0x0F,
                payload: spec_payload(s),
            },
        )
    }
}

impl Packet {
    /// Parse a frame buffer into a Packet and return it as Option<Packet>.
    /// A wrong frame length or a first byte other than the sync marker
    /// yields None, to be treated as "skip frame", never as a fatal error.
    pub fn new(buf: &[u8]) -> (r: Option<Packet>)
        ensures
            match r {
                Some(p) => spec_packet(buf@) == Some(p@) && valid_packet(p@),
                None => spec_packet(buf@) is None,
            },
    {
        if buf.len() != PACKET_SIZE || buf[0] != SYNC_BYTE_VAL {
            return None;
        }
        let b1 = buf[1];
        let b3 = buf[3];
        let pid = read_u16_be(b1 & 0x1F, buf[2]);
        let adaptation_field_control = (b3 & 0x30) >> 4u8;
        let adaptation_field_len = buf[4] as usize;
        proof {
            assert(b1 & 0x1F <= 0x1F) by (bit_vector);
            assert((b3 & 0x30) >> 4u8 <= 3) by (bit_vector);
            assert((b3 & 0xC0) >> 6u8 <= 3) by (bit_vector);
            assert(b3 & 0x0F <= 15) by (bit_vector);
        }
        let payload: Vec<u8> = if adaptation_field_control == 0x1 {
            slice_to_vec(slice_subrange(buf, 4, 188))
        } else if adaptation_field_control == 0x3 {
            if 5 + adaptation_field_len <= 188 {
                slice_to_vec(slice_subrange(buf, 5 + adaptation_field_len, 188))
            } else {
                Vec::new()
            }
        } else {
            Vec::new()
        };
        Some(
            Packet {
                transport_error_indicator: get_bit_at(b1, 7),
                payload_unit_start_indicator: get_bit_at(b1, 6),
                transport_priority: get_bit_at(b1, 5),
                pid,
                transport_scrambling_control: (b3 & 0xC0) >> 6u8,
                adaptation_field_control,
                continuity_counter: b3 & 0x0F,
                payload,
            },
        )
    }
}

impl Packet {
    /// Whether this packet, arriving after a packet whose continuity
    /// counter was `last_cc` and extending the duplicate run to
    /// `dup_count`, flags a continuity error: its counter is not the
    /// expected successor, it carries a payload, and it is not a tolerated
    /// duplicate.
    pub fn has_continuity_error(&self, last_cc: u8, dup_count: u32, is_dup: bool) -> (r: bool)
        requires
            last_cc < 16,
        ensures
            r == spec_has_continuity_error(self@, last_cc, dup_count, is_dup),
    {
        let next_cc = if last_cc == 15 {
            0
        } else {
            last_cc + 1
        };
        if self.continuity_counter != next_cc {
            if !(self.adaptation_field_control == 0x0 || self.adaptation_field_control == 0x2)
                && !(is_dup && dup_count < 2) {
                return true;
            }
        }
        false
    }

    /// Union the PMT PIDs named by a decoded PAT into the set of known PMT
    /// PIDs; any other table leaves the set untouched.
    pub fn update_pmt_pids(&self, psi: &Psi, pmt_pids: &mut HashSet<u16>)
        ensures
            final(pmt_pids)@ == match psi@ {
                PsiV::Pat(pat) => old(pmt_pids)@.union(spec_pmt_pids(pat.program_info)),
                PsiV::Pmt(_) => old(pmt_pids)@,
            },
    {
        match psi {
            Psi::Pat(pat) => {
                let ghost base = pmt_pids@;
                proof {
                    assert(pat.program_info@.take(0) =~= Seq::<crate::pat::ProgramInfo>::empty());
                    assert(base.union(spec_pmt_pids(pat.program_info@.take(0))) =~= base);
                }
                let mut idx: usize = 0;
                while idx < pat.program_info.len()
                    invariant
                        idx <= pat.program_info@.len(),
                        pmt_pids@ == base.union(spec_pmt_pids(pat.program_info@.take(idx as int))),
                    decreases pat.program_info@.len() - idx,
                {
                    let entry = pat.program_info[idx];
                    proof {
                        lemma_pmt_pids_step(pat.program_info@, idx as int);
                    }
                    if entry.program_info_type == ProgramInfoType::ProgramMap {
                        pmt_pids.insert(entry.pid);
                        proof {
                            assert(base.union(
                                spec_pmt_pids(pat.program_info@.take(idx as int)),
                            ).insert(entry.pid) =~= base.union(
                                spec_pmt_pids(pat.program_info@.take(idx + 1)),
                            ));
                        }
                    }
                    idx = idx + 1;
                }
                proof {
                    assert(pat.program_info@.take(pat.program_info@.len() as int)
                        =~= pat.program_info@);
                }
            },
            Psi::Pmt(_) => {},
        }
    }

    /// Fold one packet into the per-PID health map and the set of known PMT
    /// PIDs: look up or lazily create the entry for the packet's PID,
    /// update its counters and error counts, classify the payload, grow the
    /// PMT-PID set from a decoded PAT, and store the packet as the entry's
    /// previous packet. Returns the decoded table to hand to the reporting
    /// sink, when its CRC differs from the previous one on this PID.
    pub fn update_state(
        &self,
        pid_states: &mut HashMap<u16, PidState>,
        pmt_pids: &mut HashSet<u16>,
    ) -> (emitted: Option<Psi>)
        requires
            states_wf(old(pid_states)@),
            valid_packet(self@),
            old(pid_states)@.contains_key(self.pid) ==> old(pid_states)@[self.pid]@.count
                < u32::MAX,
        ensures
            ({
                let created = !old(pid_states)@.contains_key(self.pid);
                let e = if created {
                    fresh_entry(self@)
                } else {
                    old(pid_states)@[self.pid]@
                };
                &&& final(pid_states)@.dom() =~= old(pid_states)@.dom().insert(self.pid)
                &&& forall|k: u16|
                    k != self.pid && #[trigger] old(pid_states)@.contains_key(k)
                        ==> final(pid_states)@[k] == old(pid_states)@[k]
                &&& final(pid_states)@[self.pid]@ == observe_entry(
                    self@,
                    e,
                    created,
                    old(pmt_pids)@,
                )
                &&& final(pmt_pids)@ == pmt_pids_after(self@, old(pmt_pids)@)
                &&& match emitted {
                    Some(psi) => emitted_table(self@, e, created, old(pmt_pids)@) == Some(psi@),
                    None => emitted_table(self@, e, created, old(pmt_pids)@) is None,
                }
                &&& states_wf(final(pid_states)@)
            }),
    {
        let created: bool;
        let old_count: u32;
        let old_dup: u32;
        let old_cc: u32;
        let old_crc: u32;
        let prev_packet: Packet;
        match pid_states.get(&self.pid) {
            Some(s) => {
                created = false;
                old_count = s.count;
                old_dup = s.duplicate_count;
                old_cc = s.errors.cc_errors;
                old_crc = s.errors.crc_errors;
                prev_packet = s.prev_packet.clone();
            },
            None => {
                created = true;
                old_count = 0;
                old_dup = 0;
                old_cc = 0;
                old_crc = 0;
                prev_packet = self.clone();
            },
        }
        let ghost e = if created {
            fresh_entry(self@)
        } else {
            old(pid_states)@[self.pid]@
        };
        proof {
            if !created {
                assert(old(pid_states)@.contains_key(self.pid));
                assert(entry_wf(e));
            }
            assert(prev_packet@ == e.prev_packet);
            assert(old_count == e.count && old_dup == e.duplicate_count);
            assert(old_cc == e.errors.cc_errors && old_crc == e.errors.crc_errors);
        }

        let is_dup = *self == prev_packet;
        let count = old_count + 1;
        let duplicate_count = if is_dup {
            old_dup + 1
        } else {
            0
        };
        let last_cc = prev_packet.continuity_counter;
        let mut cc_errors = old_cc;
        if !created && self.pid != NULL_PACKET_PID && self.has_continuity_error(
            last_cc,
            duplicate_count,
            is_dup,
        ) {
            cc_errors = cc_errors + 1;
        }

        let mut crc_errors = old_crc;
        let mut emitted: Option<Psi> = None;
        match Psi::new(self.payload.as_slice(), &self.pid, pmt_pids) {
            Some(psi) => {
                self.update_pmt_pids(&psi, pmt_pids);
                if psi.get_crc_error() {
                    crc_errors = crc_errors + 1;
                }
                match Psi::new(prev_packet.payload.as_slice(), &self.pid, pmt_pids) {
                    Some(old_psi) => {
                        let prev_crc = if !created {
                            old_psi.get_crc()
                        } else {
                            0
                        };
                        if psi.get_crc() != prev_crc {
                            emitted = Some(psi);
                        }
                    },
                    None => {},
                }
            },
            None => {},
        }

        let new_state = PidState {
            count,
            duplicate_count,
            prev_packet: self.clone(),
            errors: PidErrors { cc_errors, crc_errors },
        };
        proof {
            assert(new_state@ == observe_entry(self@, e, created, old(pmt_pids)@));
        }
        pid_states.insert(self.pid, new_state);
        proof {
            let m2 = pid_states@;
            assert forall|k: u16| #[trigger] m2.contains_key(k) implies entry_wf(m2[k]@) by {
                if k == self.pid {
                    assert(m2[k] == new_state);
                } else {
                    assert(old(pid_states)@.contains_key(k));
                    assert(m2[k] == old(pid_states)@[k]);
                }
            }
            assert(m2.dom() =~= old(pid_states)@.dom().insert(self.pid));
        }
        emitted
    }
}

/// A verified frame boundary: the sync marker at offset `i` recurs at the
/// next three frame strides, all within the buffer.
pub open spec fn sync_ok(s: Seq<u8>, i: int) -> bool {
    &&& i + 564 < s.len()
    &&& s[i] == 0x47
    &&& s[i + 188] == 0x47
    &&& s[i + 376] == 0x47
    &&& s[i + 564] == 0x47
}

/// A candidate whose verification runs out of buffer: the marker matches at
/// `i` and at every stride the buffer still covers, but some required check
/// index lies past the end. Such a candidate ends the search as a failure.
pub open spec fn sync_abort(s: Seq<u8>, i: int) -> bool {
    &&& s[i] == 0x47
    &&& {
        ||| i + 188 >= s.len()
        ||| (s[i + 188] == 0x47 && i + 376 >= s.len())
        ||| (s[i + 188] == 0x47 && s[i + 376] == 0x47 && i + 564 >= s.len())
    }
}

/// The outcome of scanning for frame alignment from offset `i` upward: the
/// first verified boundary, or None if a candidate runs out of buffer or
/// the buffer is exhausted.
pub open spec fn sync_scan(s: Seq<u8>, i: int) -> Option<int>
    decreases s.len() - i,
{
    if i < 0 || i >= s.len() {
        None
    } else if s[i] != 0x47 {
        sync_scan(s, i + 1)
    } else if sync_abort(s, i) {
        None
    } else if sync_ok(s, i) {
        Some(i)
    } else {
        sync_scan(s, i + 1)
    }
}

/// Scans a buffer of the stream's first bytes for the offset at which
/// fixed-size frame framing begins: the first offset holding the sync
/// marker that recurs at the next three frame strides. Returns None if no
/// such offset exists or a candidate's check index lies past the buffered
/// length, which makes synchronization impossible by design.
pub fn find_sync_offset(buf: &[u8]) -> (r: Option<usize>)
    ensures
        match r {
            Some(i) => sync_scan(buf@, 0) == Some(i as int),
            None => sync_scan(buf@, 0) is None,
        },
{
    let n = buf.len();
    let mut i: usize = 0;
    while i < n
        invariant
            i <= n,
            n == buf@.len(),
            sync_scan(buf@, 0) == sync_scan(buf@, i as int),
        decreases n - i,
    {
        if buf[i] == 0x47 {
            if n - i <= 188 {
                proof {
                    assert(sync_abort(buf@, i as int));
                }
                return None;
            }
            if buf[i + 188] == 0x47 {
                if n - i <= 376 {
                    proof {
                        assert(sync_abort(buf@, i as int));
                    }
                    return None;
                }
                if buf[i + 376] == 0x47 {
                    if n - i <= 564 {
                        proof {
                            assert(sync_abort(buf@, i as int));
                        }
                        return None;
                    }
                    if buf[i + 564] == 0x47 {
                        proof {
                            assert(sync_ok(buf@, i as int));
                            assert(!sync_abort(buf@, i as int));
                        }
                        return Some(i);
                    }
                }
            }
        }
        proof {
            assert(!sync_ok(buf@, i as int));
            assert(!sync_abort(buf@, i as int) || buf@[i as int] != 0x47);
            assert(sync_scan(buf@, i as int) == sync_scan(buf@, i + 1));
        }
        i = i + 1;
    }
    None
}

} // verus!

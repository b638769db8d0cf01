//! Analysis of an MPEG transport stream: frame synchronization, packet header
//! decoding, per-PID delivery-health tracking, and decoding of the two
//! foundational PSI tables (PAT and PMT) with CRC-32/MPEG-2 validation.

pub mod laws;
pub mod mpeg32_crc;
pub mod packet;
pub mod pat;
pub mod pmt;
pub mod psi;

use vstd::prelude::*;
use crate::packet::{default_packet, spec_header_eq, valid_packet, PacketV, Packet};
use crate::pat::spec_pmt_pids;
use crate::psi::{psi_spec, spec_psi_crc, spec_psi_crc_error, PsiV};

verus! {

/// The error counters kept for one PID.
#[derive(Clone, Copy, Debug, PartialEq, Eq, Structural)]
pub struct PidErrors {
    pub cc_errors: u32,
    pub crc_errors: u32,
}

impl Default for PidErrors {
    /// Fresh counters: both zero.
    fn default() -> (r: Self)
        ensures
            r == (PidErrors { cc_errors: 0, crc_errors: 0 }),
    {
        PidErrors { cc_errors: 0, crc_errors: 0 }
    }
}

/// The delivery-health state kept for one PID: how many packets arrived,
/// the length of the current run of duplicates, the most recent packet, and
/// the accumulated error counters.
#[derive(Debug)]
pub struct PidState {
    pub count: u32,
    pub duplicate_count: u32,
    pub prev_packet: Packet,
    pub errors: PidErrors,
}

/// The mathematical model of one PID's health state.
pub ghost struct PidStateV {
    pub count: u32,
    pub duplicate_count: u32,
    pub prev_packet: PacketV,
    pub errors: PidErrors,
}

impl View for PidState {
    type V = PidStateV;

    open spec fn view(&self) -> PidStateV {
        PidStateV {
            count: self.count,
            duplicate_count: self.duplicate_count,
            prev_packet: self.prev_packet@,
            errors: self.errors,
        }
    }
}

impl Default for PidState {
    /// A zeroed state holding the all-zero packet as its previous packet.
    fn default() -> (r: Self)
        ensures
            r@ == (PidStateV {
                count: 0,
                duplicate_count: 0,
                prev_packet: default_packet(),
                errors: PidErrors { cc_errors: 0, crc_errors: 0 },
            }),
    {
        PidState {
            count: 0,
            duplicate_count: 0,
            prev_packet: Packet::default(),
            errors: PidErrors::default(),
        }
    }
}

/// The state created when a PID is first observed: zero counters, with the
/// first packet itself standing as the previous packet.
pub open spec fn fresh_entry(p: PacketV) -> PidStateV {
    PidStateV {
        count: 0,
        duplicate_count: 0,
        prev_packet: p,
        errors: PidErrors { cc_errors: 0, crc_errors: 0 },
    }
}

/// What holds of every entry the tracker maintains: the stored packet has
/// decoded field ranges, and no counter exceeds the packet count.
pub open spec fn entry_wf(e: PidStateV) -> bool {
    &&& valid_packet(e.prev_packet)
    &&& e.duplicate_count <= e.count
    &&& e.errors.cc_errors <= e.count
    &&& e.errors.crc_errors <= e.count
}

/// Well-formedness of the whole per-PID state map.
pub open spec fn states_wf(m: Map<u16, PidState>) -> bool {
    forall|k: u16| #[trigger] m.contains_key(k) ==> entry_wf(m[k]@)
}

/// The continuity counter expected after `last_cc`: one more, wrapping from
/// 15 back to 0.
pub open spec fn spec_expected_cc(last_cc: u8) -> u8 {
    if last_cc == 15 {
        0
    } else {
        (last_cc + 1) as u8
    }
}

/// When a packet flags a continuity error, given the previous packet's
/// counter and the updated duplicate run: its counter is not the expected
/// one, it carries a payload, and it is not a tolerated duplicate (at most
/// two consecutive identical headers are tolerated; a third is an error).
pub open spec fn spec_has_continuity_error(
    p: PacketV,
    last_cc: u8,
    dup_count: u32,
    is_dup: bool,
) -> bool {
    &&& p.continuity_counter != spec_expected_cc(last_cc)
    &&& !(p.adaptation_field_control == 0x0 || p.adaptation_field_control == 0x2)
    &&& !(is_dup && dup_count < 2)
}

/// How one packet transforms its PID's entry: the packet count rises by
/// one; the duplicate run extends on a header-equal packet and resets
/// otherwise; the continuity-error counter rises when the packet flags a
/// continuity error, unless the entry was just created or the PID is the
/// null PID; the CRC-error counter rises when the payload decodes to a
/// table whose CRC does not validate; and the packet becomes the entry's
/// previous packet.
pub open spec fn observe_entry(
    p: PacketV,
    e: PidStateV,
    created: bool,
    pmt_pids: Set<u16>,
) -> PidStateV {
    let is_dup = spec_header_eq(p, e.prev_packet);
    let dup = if is_dup {
        (e.duplicate_count + 1) as u32
    } else {
        0u32
    };
    let cc_err = !created && p.pid != 0x1FFF && spec_has_continuity_error(
        p,
        e.prev_packet.continuity_counter,
        dup,
        is_dup,
    );
    let psi = psi_spec(p.payload, p.pid, pmt_pids);
    let crc_err = psi is Some && spec_psi_crc_error(psi.unwrap());
    PidStateV {
        count: (e.count + 1) as u32,
        duplicate_count: dup,
        prev_packet: p,
        errors: PidErrors {
            cc_errors: if cc_err {
                (e.errors.cc_errors + 1) as u32
            } else {
                e.errors.cc_errors
            },
            crc_errors: if crc_err {
                (e.errors.crc_errors + 1) as u32
            } else {
                e.errors.crc_errors
            },
        },
    }
}

/// How one packet grows the set of PIDs known to carry PMTs: a payload that
/// decodes as a PAT contributes the PIDs of its program-map entries; any
/// other packet leaves the set as it is. Once a PID enters the set it is
/// never removed.
pub open spec fn pmt_pids_after(p: PacketV, pmt_pids: Set<u16>) -> Set<u16> {
    match psi_spec(p.payload, p.pid, pmt_pids) {
        Some(PsiV::Pat(pat)) => pmt_pids.union(spec_pmt_pids(pat.program_info)),
        _ => pmt_pids,
    }
}

/// Which decoded table one packet hands to the reporting sink: the packet's
/// own decoded table, only when the previous packet's payload also decodes
/// and the new table's CRC differs from the old one's (with 0 standing for
/// the old CRC on a just-created entry, so the first instance of a table is
/// reported).
pub open spec fn emitted_table(
    p: PacketV,
    e: PidStateV,
    created: bool,
    pmt_pids: Set<u16>,
) -> Option<PsiV> {
    match psi_spec(p.payload, p.pid, pmt_pids) {
        Some(psi) => {
            let grown = pmt_pids_after(p, pmt_pids);
            match psi_spec(e.prev_packet.payload, p.pid, grown) {
                Some(old_psi) => {
                    let prev_crc = if created {
                        0u32
                    } else {
                        spec_psi_crc(old_psi)
                    };
                    if spec_psi_crc(psi) != prev_crc {
                        Some(psi)
                    } else {
                        None
                    }
                },
                None => None,
            }
        },
        None => None,
    }
}

} // verus!

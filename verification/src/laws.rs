//! Laws of the per-PID tracker: how the continuity-error counter, the
//! duplicate run, the PMT-PID set and table re-emission behave across
//! observations. Each is stated over the same model functions that
//! `Packet::update_state` is specified with.

use vstd::prelude::*;
use crate::mpeg32_crc::{crc32_of, lemma_crc_detects_single_byte_change};
use crate::packet::{spec_header_eq, PacketV};
use crate::pat::pat_spec;
use crate::pmt::pmt_spec;
use crate::psi::{be16, psi_spec, spec_psi_crc_error, PsiV};
use crate::{
    emitted_table, entry_wf, fresh_entry, observe_entry, pmt_pids_after, spec_expected_cc,
    PidStateV,
};

verus! {

/// The entry a PID's state holds after observing the packets `ps` in
/// order, starting from no entry: the first packet creates the entry, each
/// later one updates it. The PMT-PID set is held fixed; it enters only the
/// CRC-error counter, never the continuity or duplicate bookkeeping.
pub open spec fn entry_after(ps: Seq<PacketV>, pmt_pids: Set<u16>) -> PidStateV
    recommends
        ps.len() >= 1,
    decreases ps.len(),
{
    if ps.len() <= 1 {
        observe_entry(ps[0], fresh_entry(ps[0]), true, pmt_pids)
    } else {
        observe_entry(ps.last(), entry_after(ps.drop_last(), pmt_pids), false, pmt_pids)
    }
}

/// Continuity monotonicity: observing a sequence of packets on one PID
/// whose continuity counters each follow the previous one (wrapping from
/// 15 to 0) records zero continuity errors; the entry's previous packet is
/// always the packet observed last.
pub proof fn lemma_continuity_monotone(ps: Seq<PacketV>, pmt_pids: Set<u16>)
    requires
        ps.len() >= 1,
        forall|i: int|
            1 <= i < ps.len() ==> (#[trigger] ps[i]).continuity_counter == spec_expected_cc(
                ps[i - 1].continuity_counter,
            ),
    ensures
        entry_after(ps, pmt_pids).errors.cc_errors == 0,
        entry_after(ps, pmt_pids).prev_packet == ps.last(),
    decreases ps.len(),
{
    if ps.len() > 1 {
        let prefix = ps.drop_last();
        assert(forall|i: int|
            1 <= i < prefix.len() ==> (#[trigger] prefix[i]).continuity_counter
                == spec_expected_cc(prefix[i - 1].continuity_counter));
        lemma_continuity_monotone(prefix, pmt_pids);
        assert(ps.last().continuity_counter == spec_expected_cc(
            prefix.last().continuity_counter,
        ));
    }
}

/// A PID's packet count equals the number of frames observed for that PID
/// since session start, as long as the counter's width allows.
pub proof fn lemma_count_tracks_observations(ps: Seq<PacketV>, pmt_pids: Set<u16>)
    requires
        1 <= ps.len() <= u32::MAX,
    ensures
        entry_after(ps, pmt_pids).count == ps.len(),
    decreases ps.len(),
{
    if ps.len() > 1 {
        lemma_count_tracks_observations(ps.drop_last(), pmt_pids);
    }
}

/// Continuity violation: a payload-bearing packet whose continuity counter
/// is neither the expected successor nor a repeat of the previous one
/// increments the continuity-error counter by exactly one.
pub proof fn lemma_continuity_skip(p: PacketV, e: PidStateV, pmt_pids: Set<u16>)
    requires
        entry_wf(e),
        e.count < u32::MAX,
        p.pid != 0x1FFF,
        p.continuity_counter != spec_expected_cc(e.prev_packet.continuity_counter),
        p.continuity_counter != e.prev_packet.continuity_counter,
        !(p.adaptation_field_control == 0x0 || p.adaptation_field_control == 0x2),
    ensures
        observe_entry(p, e, false, pmt_pids).errors.cc_errors == e.errors.cc_errors + 1,
{
    assert(!spec_header_eq(p, e.prev_packet));
}

/// Duplicate tolerance: a payload-bearing packet whose header equals the
/// previous packet's extends the duplicate run by one; it raises no
/// continuity error when it is the first repetition, and raises one when
/// the run already held a repetition (a third consecutive identical
/// header).
pub proof fn lemma_duplicate_tolerance(p: PacketV, e: PidStateV, pmt_pids: Set<u16>)
    requires
        entry_wf(e),
        e.count < u32::MAX,
        p.pid != 0x1FFF,
        spec_header_eq(p, e.prev_packet),
        !(p.adaptation_field_control == 0x0 || p.adaptation_field_control == 0x2),
    ensures
        observe_entry(p, e, false, pmt_pids).duplicate_count == e.duplicate_count + 1,
        e.duplicate_count == 0 ==> observe_entry(p, e, false, pmt_pids).errors.cc_errors
            == e.errors.cc_errors,
        e.duplicate_count >= 1 ==> observe_entry(p, e, false, pmt_pids).errors.cc_errors
            == e.errors.cc_errors + 1,
{
    assert(p.continuity_counter == e.prev_packet.continuity_counter);
    assert(spec_expected_cc(e.prev_packet.continuity_counter)
        != e.prev_packet.continuity_counter);
}

/// The PMT-PID set only grows: every PID known before an observation is
/// still known after it.
pub proof fn lemma_pmt_pids_grow(p: PacketV, pmt_pids: Set<u16>)
    ensures
        pmt_pids.subset_of(pmt_pids_after(p, pmt_pids)),
{
}

/// CRC-mismatch detection for the PAT: changing one byte of a validated
/// section anywhere past the length fields and before the stored CRC
/// (which covers every program entry and every fixed field but the table
/// id and section length themselves) yields a section that still decodes
/// but whose CRC no longer validates.
pub proof fn lemma_pat_corruption_detected(s1: Seq<u8>, s2: Seq<u8>, i: int)
    requires
        s1.len() == s2.len(),
        forall|j: int| 0 <= j < s1.len() && j != i ==> s1[j] == s2[j],
        0 <= i < s1.len(),
        s1[i] != s2[i],
        3 <= i < 3 + be16(s1[1] & 0x0F, s1[2]) - 4,
        pat_spec(s1) is Some,
        !pat_spec(s1).unwrap().crc_error,
    ensures
        pat_spec(s2) is Some,
        pat_spec(s2).unwrap().crc_error,
{
    let section_length = be16(s1[1] & 0x0F, s1[2]);
    let end_n = 3 + section_length - 4;
    let sub1 = s1.subrange(0, end_n);
    let sub2 = s2.subrange(0, end_n);
    assert(forall|j: int| 0 <= j < end_n && j != i ==> sub1[j] == sub2[j]);
    lemma_crc_detects_single_byte_change(sub1, sub2, i);
    assert(pat_spec(s1).unwrap().crc == crc32_of(sub1));
}

/// CRC-mismatch detection for the PMT: changing one byte of a validated
/// section anywhere past the length fields and before the stored CRC, in a
/// way that still decodes, yields a section whose CRC no longer validates.
pub proof fn lemma_pmt_corruption_detected(s1: Seq<u8>, s2: Seq<u8>, i: int)
    requires
        s1.len() == s2.len(),
        forall|j: int| 0 <= j < s1.len() && j != i ==> s1[j] == s2[j],
        0 <= i < s1.len(),
        s1[i] != s2[i],
        3 <= i < 3 + be16(s1[1] & 0x0F, s1[2]) - 4,
        pmt_spec(s1) is Some,
        !pmt_spec(s1).unwrap().crc_error,
        pmt_spec(s2) is Some,
    ensures
        pmt_spec(s2).unwrap().crc_error,
{
    let section_length = be16(s1[1] & 0x0F, s1[2]);
    let end_n1 = 3 + section_length - 4;
    let sub1 = s1.subrange(0, end_n1);
    let sub2 = s2.subrange(0, end_n1);
    assert(forall|j: int| 0 <= j < end_n1 && j != i ==> sub1[j] == sub2[j]);
    lemma_crc_detects_single_byte_change(sub1, sub2, i);
    assert(pmt_spec(s1).unwrap().crc == crc32_of(sub1));
}

/// A table whose CRC does not validate is counted: observing a packet whose
/// payload decodes to such a table raises the CRC-error counter by exactly
/// one.
pub proof fn lemma_crc_error_counted(p: PacketV, e: PidStateV, created: bool, pmt_pids: Set<u16>)
    requires
        entry_wf(e),
        e.count < u32::MAX,
        psi_spec(p.payload, p.pid, pmt_pids) is Some,
    ensures
        spec_psi_crc_error(psi_spec(p.payload, p.pid, pmt_pids).unwrap()) ==> observe_entry(
            p,
            e,
            created,
            pmt_pids,
        ).errors.crc_errors == e.errors.crc_errors + 1,
        !spec_psi_crc_error(psi_spec(p.payload, p.pid, pmt_pids).unwrap()) ==> observe_entry(
            p,
            e,
            created,
            pmt_pids,
        ).errors.crc_errors == e.errors.crc_errors,
{
}

/// Idempotent redelivery: a packet whose payload equals the previous
/// packet's payload on an existing entry re-emits no table to the
/// reporting sink, and growing the PMT-PID set from one packet twice
/// yields what growing it once does.
pub proof fn lemma_idempotent_redelivery(p: PacketV, e: PidStateV, pmt_pids: Set<u16>)
    requires
        p.payload == e.prev_packet.payload,
    ensures
        emitted_table(p, e, false, pmt_pids) is None,
        pmt_pids_after(p, pmt_pids_after(p, pmt_pids)) == pmt_pids_after(p, pmt_pids),
{
    let psi = psi_spec(p.payload, p.pid, pmt_pids);
    let grown = pmt_pids_after(p, pmt_pids);
    if psi is Some {
        match psi.unwrap() {
            PsiV::Pat(pat) => {
                assert(p.pid == 0);
                assert(psi_spec(e.prev_packet.payload, p.pid, grown) == psi);
            },
            PsiV::Pmt(_) => {
                assert(grown == pmt_pids);
                assert(psi_spec(e.prev_packet.payload, p.pid, grown) == psi);
            },
        }
    }
    match psi_spec(p.payload, p.pid, grown) {
        Some(PsiV::Pat(pat)) => {
            assert(grown.union(crate::pat::spec_pmt_pids(pat.program_info)) =~= grown);
        },
        _ => {},
    }
}

} // verus!

//! The Program Association Table: the PSI section carried on PID 0 that
//! maps program numbers to the PIDs carrying each program's PMT.

use vstd::prelude::*;
use vstd::slice::slice_subrange;
use std::collections::HashSet;
use crate::mpeg32_crc::{crc32_mpeg, crc32_of};
use crate::packet::{get_bit_at, read_u16_be, read_u32_be, spec_bit_at};
use crate::psi::{be16, be32};

verus! {

broadcast use vstd::std_specs::hash::group_hash_axioms;

/// What a PAT entry denotes: a network-information PID (program number 0)
/// or a program-to-PMT-PID mapping (any other program number).
#[derive(Clone, Copy, Debug, PartialEq, Eq, Structural)]
pub enum ProgramInfoType {
    Network,
    ProgramMap,
}

/// One entry of a PAT: a program number and the PID it points at.
#[derive(Clone, Copy, Debug, PartialEq, Eq, Structural)]
pub struct ProgramInfo {
    pub program_number: u16,
    pub program_info_type: ProgramInfoType,
    pub pid: u16,
}

/// A decoded Program Association Table.
#[derive(Debug, PartialEq, Eq)]
pub struct Pat {
    pub syntax_section_indicator: bool,
    pub section_length: u16,
    pub transport_stream_id: u16,
    pub version_number: u8,
    pub current_next_indicator: bool,
    pub section_number: u8,
    pub last_section_number: u8,
    pub program_info: Vec<ProgramInfo>,
    pub crc: u32,
    pub crc_error: bool,
}

/// The mathematical model of a decoded PAT.
pub ghost struct PatV {
    pub syntax_section_indicator: bool,
    pub section_length: u16,
    pub transport_stream_id: u16,
    pub version_number: u8,
    pub current_next_indicator: bool,
    pub section_number: u8,
    pub last_section_number: u8,
    pub program_info: Seq<ProgramInfo>,
    pub crc: u32,
    pub crc_error: bool,
}

impl View for Pat {
    type V = PatV;

    open spec fn view(&self) -> PatV {
        PatV {
            syntax_section_indicator: self.syntax_section_indicator,
            section_length: self.section_length,
            transport_stream_id: self.transport_stream_id,
            version_number: self.version_number,
            current_next_indicator: self.current_next_indicator,
            section_number: self.section_number,
            last_section_number: self.last_section_number,
            program_info: self.program_info@,
            crc: self.crc,
            crc_error: self.crc_error,
        }
    }
}

/// The 4-byte program entry beginning at offset `n`: a 16-bit program
/// number followed by a 13-bit PID.
pub open spec fn pat_entry_at(s: Seq<u8>, n: int) -> ProgramInfo {
    ProgramInfo {
        program_number: be16(s[n], s[n + 1]) as u16,
        program_info_type: if be16(s[n], s[n + 1]) == 0 {
            ProgramInfoType::Network
        } else {
            ProgramInfoType::ProgramMap
        },
        pid: be16(s[n + 2] & 0x1F, s[n + 3]) as u16,
    }
}

/// The repeating 4-byte program entries read from offset `n` up to `end`.
pub open spec fn pat_entries(s: Seq<u8>, n: int, end: int) -> Seq<ProgramInfo>
    decreases end - n,
{
    if n >= end {
        Seq::empty()
    } else {
        seq![pat_entry_at(s, n)] + pat_entries(s, crate::psi::cap(n + 4, end), end)
    }
}

/// What decoding a PAT section yields. Nothing unless the buffer begins
/// with the PAT table id and its declared section length describes a
/// structure the buffer can hold: fixed fields at bytes 3 to 7, program
/// entries from byte 8 to the start of the trailing 4-byte CRC, and the CRC
/// validated over everything before it.
pub open spec fn pat_spec(s: Seq<u8>) -> Option<PatV> {
    if s.len() < 3 || s[0] != 0 {
        None
    } else {
        let section_length = be16(s[1] & 0x0F, s[2]);
        let section_end = 3 + section_length;
        if section_length < 9 || section_end > s.len() {
            None
        } else {
            let end_n = section_end - 4;
            let crc = be32(s[end_n], s[end_n + 1], s[end_n + 2], s[end_n + 3]) as u32;
            Some(
                PatV {
                    syntax_section_indicator: spec_bit_at(s[1], 7),
                    section_length: section_length as u16,
                    transport_stream_id: be16(s[3], s[4]) as u16,
                    version_number: (s[5] & 0x3E) >> 1u8,
                    current_next_indicator: spec_bit_at(s[5], 0),
                    section_number: s[6],
                    last_section_number: s[7],
                    program_info: pat_entries(s, 8, end_n),
                    crc: crc,
                    crc_error: crc != crc32_of(s.subrange(0, end_n)),
                },
            )
        }
    }
}

/// The set of PIDs named by the program-map entries of a PAT; network
/// entries contribute nothing.
pub open spec fn spec_pmt_pids(entries: Seq<ProgramInfo>) -> Set<u16> {
    Set::new(
        |pid: u16|
            exists|i: int|
                0 <= i < entries.len() && (#[trigger] entries[i]).program_info_type
                    == ProgramInfoType::ProgramMap && entries[i].pid == pid,
    )
}

/// How the PMT-PID set named by a PAT grows entry by entry: a program-map
/// entry adds its PID, a network entry adds nothing.
pub proof fn lemma_pmt_pids_step(entries: Seq<ProgramInfo>, idx: int)
    requires
        0 <= idx < entries.len(),
    ensures
        entries[idx].program_info_type == ProgramInfoType::ProgramMap ==> spec_pmt_pids(
            entries.take(idx + 1),
        ) == spec_pmt_pids(entries.take(idx)).insert(entries[idx].pid),
        entries[idx].program_info_type != ProgramInfoType::ProgramMap ==> spec_pmt_pids(
            entries.take(idx + 1),
        ) == spec_pmt_pids(entries.take(idx)),
{
    let pre = entries.take(idx);
    let post = entries.take(idx + 1);
    let entry = entries[idx];
    assert(post[idx] == entry);
    if entry.program_info_type == ProgramInfoType::ProgramMap {
        assert forall|pid: u16| spec_pmt_pids(post).contains(pid) implies spec_pmt_pids(
            pre,
        ).insert(entry.pid).contains(pid) by {
            let i = choose|i: int|
                0 <= i < post.len() && (#[trigger] post[i]).program_info_type
                    == ProgramInfoType::ProgramMap && post[i].pid == pid;
            if i < idx {
                assert(pre[i] == post[i]);
            }
        }
        assert forall|pid: u16|
            spec_pmt_pids(pre).insert(entry.pid).contains(pid) implies spec_pmt_pids(
            post,
        ).contains(pid) by {
            if pid == entry.pid {
                assert(post[idx].program_info_type == ProgramInfoType::ProgramMap
                    && post[idx].pid == pid);
            } else {
                let i = choose|i: int|
                    0 <= i < pre.len() && (#[trigger] pre[i]).program_info_type
                        == ProgramInfoType::ProgramMap && pre[i].pid == pid;
                assert(post[i] == pre[i]);
            }
        }
        assert(spec_pmt_pids(post) =~= spec_pmt_pids(pre).insert(entry.pid));
    } else {
        assert forall|pid: u16| spec_pmt_pids(post).contains(pid) implies spec_pmt_pids(
            pre,
        ).contains(pid) by {
            let i = choose|i: int|
                0 <= i < post.len() && (#[trigger] post[i]).program_info_type
                    == ProgramInfoType::ProgramMap && post[i].pid == pid;
            assert(i < idx);
            assert(pre[i] == post[i]);
        }
        assert forall|pid: u16| spec_pmt_pids(pre).contains(pid) implies spec_pmt_pids(
            post,
        ).contains(pid) by {
            let i = choose|i: int|
                0 <= i < pre.len() && (#[trigger] pre[i]).program_info_type
                    == ProgramInfoType::ProgramMap && pre[i].pid == pid;
            assert(post[i] == pre[i]);
        }
        assert(spec_pmt_pids(post) =~= spec_pmt_pids(pre));
    }
}

impl Pat {
    /// Parse a section buffer into a Pat and return Option<Pat>. A missing
    /// table id or a section length inconsistent with the buffer yields
    /// None: the payload is not a PAT, to be skipped, never a hard failure.
    pub fn new(buf: &[u8]) -> (r: Option<Pat>)
        ensures
            match r {
                Some(pat) => pat_spec(buf@) == Some(pat@),
                None => pat_spec(buf@) is None,
            },
    {
        if buf.len() < 3 || buf[0] != 0 {
            return None;
        }
        let b1 = buf[1];
        proof {
            assert(b1 & 0x0F <= 0x0F) by (bit_vector);
        }
        let section_length = read_u16_be(b1 & 0x0F, buf[2]);
        if section_length < 9 {
            return None;
        }
        let section_end = 3 + section_length as usize;
        if section_end > buf.len() {
            return None;
        }
        let end_n = section_end - 4;

        let mut n: usize = 8;
        let mut prog_infos: Vec<ProgramInfo> = Vec::new();
        while n < end_n
            invariant
                8 <= n,
                8 <= end_n,
                n <= end_n + 3,
                end_n + 4 <= buf@.len(),
                pat_entries(buf@, 8, end_n as int) == prog_infos@ + pat_entries(
                    buf@,
                    n as int,
                    end_n as int,
                ),
            decreases end_n + 4 - n,
        {
            let program_number = read_u16_be(buf[n], buf[n + 1]);
            let b2 = buf[n + 2];
            proof {
                assert(b2 & 0x1F <= 0x1F) by (bit_vector);
            }
            let pid = read_u16_be(b2 & 0x1F, buf[n + 3]);
            let entry = ProgramInfo {
                program_number,
                program_info_type: if program_number == 0 {
                    ProgramInfoType::Network
                } else {
                    ProgramInfoType::ProgramMap
                },
                pid,
            };
            proof {
                assert(entry == pat_entry_at(buf@, n as int));
                let next = crate::psi::cap(n + 4, end_n as int);
                assert(pat_entries(buf@, n as int, end_n as int) == seq![
                    pat_entry_at(buf@, n as int),
                ] + pat_entries(buf@, next, end_n as int));
                if n + 4 > end_n {
                    assert(pat_entries(buf@, next, end_n as int) =~= Seq::<ProgramInfo>::empty());
                    assert(pat_entries(buf@, n + 4, end_n as int)
                        =~= Seq::<ProgramInfo>::empty());
                }
                assert(prog_infos@.push(entry) + pat_entries(buf@, n + 4, end_n as int)
                    =~= prog_infos@ + pat_entries(buf@, n as int, end_n as int));
            }
            prog_infos.push(entry);
            n = n + 4;
        }
        proof {
            assert(pat_entries(buf@, n as int, end_n as int) =~= Seq::empty());
            assert(prog_infos@ =~= pat_entries(buf@, 8, end_n as int));
        }

        let crc = read_u32_be(buf[end_n], buf[end_n + 1], buf[end_n + 2], buf[end_n + 3]);
        let exp_crc = crc32_mpeg(slice_subrange(buf, 0, end_n));
        let b5 = buf[5];
        Some(
            Pat {
                syntax_section_indicator: get_bit_at(b1, 7),
                section_length,
                transport_stream_id: read_u16_be(buf[3], buf[4]),
                version_number: (b5 & 0x3E) >> 1u8,
                current_next_indicator: get_bit_at(b5, 0),
                section_number: buf[6],
                last_section_number: buf[7],
                program_info: prog_infos,
                crc,
                crc_error: crc != exp_crc,
            },
        )
    }

    /// The set of PMT PIDs named by this PAT: the PIDs of its program-map
    /// entries only.
    pub fn get_pmt_pids(&self) -> (r: HashSet<u16>)
        ensures
            r@ == spec_pmt_pids(self.program_info@),
    {
        let mut p: HashSet<u16> = HashSet::new();
        let mut idx: usize = 0;
        while idx < self.program_info.len()
            invariant
                idx <= self.program_info@.len(),
                p@ == spec_pmt_pids(self.program_info@.take(idx as int)),
            decreases self.program_info@.len() - idx,
        {
            let entry = self.program_info[idx];
            if entry.program_info_type == ProgramInfoType::ProgramMap {
                p.insert(entry.pid);
            }
            proof {
                lemma_pmt_pids_step(self.program_info@, idx as int);
            }
            idx = idx + 1;
        }
        proof {
            assert(self.program_info@.take(self.program_info@.len() as int)
                =~= self.program_info@);
        }
        p
    }
}

} // verus!

//! The Program Map Table: the PSI section that lists, for one program, the
//! PID carrying its clock reference, its top-level descriptors, and its
//! elementary streams with their nested descriptors.

use vstd::prelude::*;
use vstd::slice::slice_subrange;
use crate::mpeg32_crc::{crc32_mpeg, crc32_of};
use crate::packet::{get_bit_at, read_u16_be, read_u32_be, spec_bit_at};
use crate::psi::{be16, be32, cap, es_views, ElementaryStream, ElementaryStreamV, VideoStreamDescriptor};

verus! {

/// A decoded Program Map Table.
#[derive(Debug, PartialEq, Eq)]
pub struct Pmt {
    pub section_syntax_indicator: bool,
    pub program_number: u16,
    pub version_number: u8,
    pub current_next_indicator: bool,
    pub section_number: u8,
    pub last_section_number: u8,
    pub pcr_pid: u16,
    pub program_info_length: u16,
    pub descriptors: Vec<VideoStreamDescriptor>,
    pub elementary_streams: Vec<ElementaryStream>,
    pub crc: u32,
    pub crc_error: bool,
}

/// The mathematical model of a decoded PMT.
pub ghost struct PmtV {
    pub section_syntax_indicator: bool,
    pub program_number: u16,
    pub version_number: u8,
    pub current_next_indicator: bool,
    pub section_number: u8,
    pub last_section_number: u8,
    pub pcr_pid: u16,
    pub program_info_length: u16,
    pub descriptors: Seq<VideoStreamDescriptor>,
    pub elementary_streams: Seq<ElementaryStreamV>,
    pub crc: u32,
    pub crc_error: bool,
}

impl View for Pmt {
    type V = PmtV;

    open spec fn view(&self) -> PmtV {
        PmtV {
            section_syntax_indicator: self.section_syntax_indicator,
            program_number: self.program_number,
            version_number: self.version_number,
            current_next_indicator: self.current_next_indicator,
            section_number: self.section_number,
            last_section_number: self.last_section_number,
            pcr_pid: self.pcr_pid,
            program_info_length: self.program_info_length,
            descriptors: self.descriptors@,
            elementary_streams: es_views(self.elementary_streams@),
            crc: self.crc,
            crc_error: self.crc_error,
        }
    }
}

/// The descriptors read from offset `n` up to `end`, inside a region whose
/// every byte the buffer holds: each is a tag byte and a length byte, and
/// the next begins after the declared length.
pub open spec fn desc_list(s: Seq<u8>, n: int, end: int) -> Seq<VideoStreamDescriptor>
    decreases end - n,
{
    if n >= end {
        Seq::empty()
    } else {
        seq![VideoStreamDescriptor { tag: s[n], length: s[n + 1] }] + desc_list(
            s,
            cap(n + 2 + s[n + 1], end),
            end,
        )
    }
}

/// The descriptors read from offset `n` up to `end` of a region that the
/// declared elementary-stream length lays out, which may run past the
/// buffer: None when a read would fall outside the buffer.
pub open spec fn es_desc_list(s: Seq<u8>, n: int, end: int) -> Option<Seq<VideoStreamDescriptor>>
    decreases end - n,
{
    if n >= end {
        Some(Seq::empty())
    } else if n + 1 >= s.len() {
        None
    } else {
        match es_desc_list(s, cap(n + 2 + s[n + 1], end), end) {
            Some(rest) => Some(
                seq![VideoStreamDescriptor { tag: s[n], length: s[n + 1] }] + rest,
            ),
            None => None,
        }
    }
}

/// The elementary-stream entries read from offset `n1` up to `end`: each is
/// a stream type, a 13-bit PID, a 12-bit nested-descriptor length, and the
/// nested descriptors of that length; None when a nested descriptor read
/// would fall outside the buffer.
pub open spec fn es_list(s: Seq<u8>, n1: int, end: int) -> Option<Seq<ElementaryStreamV>>
    decreases end - n1,
{
    if n1 >= end {
        Some(Seq::empty())
    } else {
        let end2 = n1 + 5 + be16(s[n1 + 3] & 0x0F, s[n1 + 4]);
        match es_desc_list(s, n1 + 5, end2) {
            Some(ds) => match es_list(s, cap(end2, end), end) {
                Some(rest) => Some(
                    seq![
                        ElementaryStreamV {
                            stream_type: s[n1],
                            elementary_pid: be16(s[n1 + 1] & 0x1F, s[n1 + 2]) as u16,
                            descriptors: ds,
                        },
                    ] + rest,
                ),
                None => None,
            },
            None => None,
        }
    }
}

/// What decoding a PMT section yields. Nothing unless the buffer begins
/// with the PMT table id and the declared section and program-info lengths
/// describe a structure the buffer can hold: fixed fields at bytes 3 to 11,
/// top-level descriptors up to the program-info length, elementary streams
/// from there to the start of the trailing 4-byte CRC, and the CRC
/// validated over everything before it.
pub open spec fn pmt_spec(s: Seq<u8>) -> Option<PmtV> {
    if s.len() < 12 || s[0] != 2 {
        None
    } else {
        let section_length = be16(s[1] & 0x0F, s[2]);
        let program_info_length = be16(s[10] & 0x0F, s[11]);
        let section_end = 3 + section_length;
        if section_length < 13 || section_end > s.len() || 12 + program_info_length > section_end
            - 4 {
            None
        } else {
            let end_n = 12 + program_info_length;
            let end_n1 = section_end - 4;
            match es_list(s, end_n, end_n1) {
                None => None,
                Some(streams) => {
                    let crc = be32(s[end_n1], s[end_n1 + 1], s[end_n1 + 2], s[end_n1 + 3]) as u32;
                    Some(
                        PmtV {
                            section_syntax_indicator: spec_bit_at(s[1], 7),
                            program_number: be16(s[3], s[4]) as u16,
                            version_number: (s[5] & 0x3E) >> 1u8,
                            current_next_indicator: spec_bit_at(s[5], 0),
                            section_number: s[6],
                            last_section_number: s[7],
                            pcr_pid: be16(s[8] & 0x1F, s[9]) as u16,
                            program_info_length: program_info_length as u16,
                            descriptors: desc_list(s, 12, end_n),
                            elementary_streams: streams,
                            crc: crc,
                            crc_error: crc != crc32_of(s.subrange(0, end_n1)),
                        },
                    )
                },
            }
        }
    }
}

impl Pmt {
    /// Parse a section buffer into a Pmt and return Option<Pmt>. A missing
    /// table id, a section length inconsistent with the buffer, or a
    /// descriptor region running past the buffer yields None: the payload
    /// is not a PMT, to be skipped, never a hard failure.
    #[verifier::loop_isolation(false)]
    pub fn new(buf: &[u8]) -> (r: Option<Pmt>)
        ensures
            match r {
                Some(pmt) => pmt_spec(buf@) == Some(pmt@),
                None => pmt_spec(buf@) is None,
            },
    {
        if buf.len() < 12 || buf[0] != 2 {
            return None;
        }
        let b1 = buf[1];
        let b10 = buf[10];
        proof {
            assert(b1 & 0x0F <= 0x0F) by (bit_vector);
            assert(b10 & 0x0F <= 0x0F) by (bit_vector);
        }
        let section_length = read_u16_be(b1 & 0x0F, buf[2]);
        let program_info_length = read_u16_be(b10 & 0x0F, buf[11]);
        if section_length < 13 {
            return None;
        }
        let section_end = 3 + section_length as usize;
        if section_end > buf.len() {
            return None;
        }
        let end_n1 = section_end - 4;
        let end_n = 12 + program_info_length as usize;
        if end_n > end_n1 {
            return None;
        }

        let mut n: usize = 12;
        let mut descriptors: Vec<VideoStreamDescriptor> = Vec::new();
        while n < end_n
            invariant
                12 <= n,
                desc_list(buf@, 12, end_n as int) == descriptors@ + desc_list(
                    buf@,
                    cap(n as int, end_n as int),
                    end_n as int,
                ),
            decreases (if n < end_n {
                end_n - n
            } else {
                0
            }),
        {
            let len_n = buf[n + 1];
            let d = VideoStreamDescriptor { tag: buf[n], length: len_n };
            proof {
                assert(desc_list(buf@, n as int, end_n as int) == seq![d] + desc_list(
                    buf@,
                    cap(n + 2 + len_n, end_n as int),
                    end_n as int,
                ));
                assert(descriptors@.push(d) + desc_list(
                    buf@,
                    cap(n + 2 + len_n, end_n as int),
                    end_n as int,
                ) =~= descriptors@ + desc_list(buf@, n as int, end_n as int));
            }
            descriptors.push(d);
            n = n + 2 + len_n as usize;
        }
        proof {
            assert(cap(n as int, end_n as int) == end_n as int);
            assert(desc_list(buf@, end_n as int, end_n as int) =~= Seq::<
                VideoStreamDescriptor,
            >::empty());
            assert(descriptors@ =~= desc_list(buf@, 12, end_n as int));
        }

        let mut n1: usize = end_n;
        let mut elementary_streams: Vec<ElementaryStream> = Vec::new();
        while n1 < end_n1
            invariant
                end_n <= n1,
                match es_list(buf@, cap(n1 as int, end_n1 as int), end_n1 as int) {
                    Some(rest) => es_list(buf@, end_n as int, end_n1 as int) == Some(
                        es_views(elementary_streams@) + rest,
                    ),
                    None => es_list(buf@, end_n as int, end_n1 as int) is None,
                },
            decreases (if n1 < end_n1 {
                end_n1 - n1
            } else {
                0
            }),
        {
            let stream_type = buf[n1];
            let bp = buf[n1 + 1];
            let bl = buf[n1 + 3];
            proof {
                assert(bp & 0x1F <= 0x1F) by (bit_vector);
                assert(bl & 0x0F <= 0x0F) by (bit_vector);
            }
            let elementary_pid = read_u16_be(bp & 0x1F, buf[n1 + 2]);
            let es_info_length = read_u16_be(bl & 0x0F, buf[n1 + 4]);
            let end_n2 = n1 + 5 + es_info_length as usize;

            let mut n2: usize = n1 + 5;
            let mut es_descs: Vec<VideoStreamDescriptor> = Vec::new();
            while n2 < end_n2
                invariant
                    n1 + 5 <= n2,
                    match es_desc_list(buf@, cap(n2 as int, end_n2 as int), end_n2 as int) {
                        Some(rest) => es_desc_list(buf@, n1 + 5, end_n2 as int) == Some(
                            es_descs@ + rest,
                        ),
                        None => es_desc_list(buf@, n1 + 5, end_n2 as int) is None,
                    },
                decreases (if n2 < end_n2 {
                    end_n2 - n2
                } else {
                    0
                }),
            {
                if n2 + 1 >= buf.len() {
                    proof {
                        assert(es_desc_list(buf@, n2 as int, end_n2 as int) is None);
                        assert(es_desc_list(buf@, n1 + 5, end_n2 as int) is None);
                        assert(es_list(buf@, n1 as int, end_n1 as int) is None);
                        assert(es_list(buf@, end_n as int, end_n1 as int) is None);
                    }
                    return None;
                }
                let len_n2 = buf[n2 + 1];
                let d = VideoStreamDescriptor { tag: buf[n2], length: len_n2 };
                proof {
                    assert(es_desc_list(buf@, n2 as int, end_n2 as int) matches Some(r2) ==> r2
                        == seq![d] + es_desc_list(
                        buf@,
                        cap(n2 + 2 + len_n2, end_n2 as int),
                        end_n2 as int,
                    ).unwrap());
                    let next = es_desc_list(buf@, cap(n2 + 2 + len_n2, end_n2 as int), end_n2 as int);
                    if next is Some {
                        let rest = next.unwrap();
                        assert(es_descs@.push(d) + rest =~= es_descs@ + (seq![d] + rest));
                    }
                }
                es_descs.push(d);
                n2 = n2 + 2 + len_n2 as usize;
            }
            proof {
                assert(cap(n2 as int, end_n2 as int) == end_n2 as int);
                assert(es_desc_list(buf@, end_n2 as int, end_n2 as int) == Some(Seq::<
                    VideoStreamDescriptor,
                >::empty()));
                assert(es_descs@ + Seq::<VideoStreamDescriptor>::empty() =~= es_descs@);
                assert(es_desc_list(buf@, n1 + 5, end_n2 as int) == Some(es_descs@));
            }

            let e = ElementaryStream { stream_type, elementary_pid, descriptors: es_descs };
            let ghost ev = ElementaryStreamV {
                stream_type: buf@[n1 as int],
                elementary_pid: (be16(buf@[n1 + 1] & 0x1F, buf@[n1 + 2]) as u16),
                descriptors: es_descs@,
            };
            proof {
                assert(e@ == ev);
                assert(es_list(buf@, n1 as int, end_n1 as int) matches Some(r1) ==> r1 == seq![ev]
                    + es_list(buf@, cap(end_n2 as int, end_n1 as int), end_n1 as int).unwrap());
                let next = es_list(buf@, cap(end_n2 as int, end_n1 as int), end_n1 as int);
                if next is Some {
                    let rest = next.unwrap();
                    assert(es_views(elementary_streams@.push(e)) =~= es_views(elementary_streams@)
                        + seq![ev]);
                    assert(es_views(elementary_streams@) + (seq![ev] + rest) =~= (es_views(
                        elementary_streams@,
                    ) + seq![ev]) + rest);
                }
            }
            elementary_streams.push(e);
            n1 = end_n2;
        }
        proof {
            assert(cap(n1 as int, end_n1 as int) == end_n1 as int);
            assert(es_list(buf@, end_n1 as int, end_n1 as int) == Some(Seq::<
                ElementaryStreamV,
            >::empty()));
            assert(es_views(elementary_streams@) + Seq::<ElementaryStreamV>::empty() =~= es_views(
                elementary_streams@,
            ));
            assert(es_list(buf@, end_n as int, end_n1 as int) == Some(
                es_views(elementary_streams@),
            ));
        }

        let crc = read_u32_be(buf[end_n1], buf[end_n1 + 1], buf[end_n1 + 2], buf[end_n1 + 3]);
        let exp_crc = crc32_mpeg(slice_subrange(buf, 0, end_n1));
        let b5 = buf[5];
        let b8 = buf[8];
        proof {
            assert(b8 & 0x1F <= 0x1F) by (bit_vector);
        }
        Some(
            Pmt {
                section_syntax_indicator: get_bit_at(b1, 7),
                program_number: read_u16_be(buf[3], buf[4]),
                version_number: (b5 & 0x3E) >> 1u8,
                current_next_indicator: get_bit_at(b5, 0),
                section_number: buf[6],
                last_section_number: buf[7],
                pcr_pid: read_u16_be(b8 & 0x1F, buf[9]),
                program_info_length,
                descriptors,
                elementary_streams,
                crc,
                crc_error: crc != exp_crc,
            },
        )
    }
}

} // verus!

//! Reading the flash image out of an ELF file: the loadable segments of its
//! program header table, mapped to pages and merged in table order.

use elf::endian::LittleEndian;
use elf::ElfBytes;
use std::collections::HashMap;
use vstd::prelude::*;
use vstd::slice::slice_subrange;

use super::flash_data::{image_of, FlashData};
use super::flash_map::{fill_flash_map, merge_writes, pages_of};
use super::page_content::{fragment_count, fragments, iter_page_content};
use super::target::{FlashPageContent, FLASH_SIZE_BYTES};

verus! {

/// The segment type of a loadable segment in an ELF program header.
pub const PT_LOAD: u32 = 1;

/// What the image builder reads of one entry of an ELF program header table.
#[derive(Clone, Copy, Debug, PartialEq, Eq)]
pub struct SegmentHeader {
    /// Program segment type
    pub p_type: u32,
    /// Offset into the ELF file where this segment begins
    pub p_offset: u64,
    /// Size of this segment in the file
    pub p_filesz: u64,
    /// Physical address where this segment should be loaded
    pub p_paddr: u64,
}

/// Why an ELF file yields no segments.
#[derive(Clone, Copy, Debug, PartialEq, Eq)]
pub enum ImageDefect {
    /// The ELF header, or what locates its tables, could not be parsed.
    InvalidElf,
    /// The file has no program header table.
    NoProgramHeaders,
}

/// Why no flash image could be read or encoded.
#[derive(Clone, Copy, Debug, PartialEq, Eq)]
pub enum FlashError {
    /// The executable cannot be parsed or lacks a segment table.
    MalformedImage(ImageDefect),
    /// A segment's physical address falls outside the flash capacity.
    AddressOutOfRange,
    /// The address of a page does not fit in the address field of its packet.
    AddressEncodingOverflow,
}

/// The segment is one that the image is built from: loadable, and with data in the file.
pub open spec fn loadable(header: SegmentHeader) -> bool {
    header.p_type == PT_LOAD && header.p_filesz != 0
}

/// The segment is loadable and its physical address lies beyond the flash.
pub open spec fn misplaced(header: SegmentHeader) -> bool {
    loadable(header) && header.p_paddr >= FLASH_SIZE_BYTES
}

/// Some segment of the table is misplaced.
pub open spec fn address_fault(headers: Seq<SegmentHeader>) -> bool {
    exists|i: int| 0 <= i < headers.len() && misplaced(#[trigger] headers[i])
}

/// The segment's data lies within a file of `file_len` bytes, and the pages it
/// reaches have indices that a page index can hold.
pub open spec fn readable(header: SegmentHeader, file_len: int) -> bool {
    &&& header.p_offset + header.p_filesz <= file_len
    &&& header.p_paddr / 128 + fragment_count(
        header.p_paddr as int,
        header.p_filesz as int,
        128,
    ) - 1 <= u16::MAX
}

/// Every loadable segment up to the first misplaced one is readable: these
/// are the segments whose data is read.
pub open spec fn segments_readable(headers: Seq<SegmentHeader>, file_len: int) -> bool {
    forall|i: int|
        0 <= i < headers.len() && loadable(#[trigger] headers[i]) && !address_fault(
            headers.take(i + 1),
        ) ==> readable(headers[i], file_len)
}

/// The data of the segment in the file `content`.
pub open spec fn segment_content(header: SegmentHeader, content: Seq<u8>) -> Seq<u8> {
    content.subrange(header.p_offset as int, header.p_offset + header.p_filesz)
}

/// The store after the loadable segments of `headers` have been mapped to
/// pages and merged, in table order.
pub open spec fn store_after(headers: Seq<SegmentHeader>, content: Seq<u8>) -> Map<int, Seq<u8>>
    decreases headers.len(),
{
    if headers.len() == 0 {
        Map::empty()
    } else {
        let before = store_after(headers.drop_last(), content);
        let header = headers.last();
        if loadable(header) {
            merge_writes(
                before,
                fragments(header.p_paddr as int, segment_content(header, content), 128),
                128,
            )
        } else {
            before
        }
    }
}

/// `result` is what reading the segments `headers` of the file `content` gives:
/// an error if a segment is misplaced, else the image of the merged store.
pub open spec fn collected(
    headers: Seq<SegmentHeader>,
    content: Seq<u8>,
    result: Result<FlashData, FlashError>,
) -> bool {
    if address_fault(headers) {
        result == Err::<FlashData, FlashError>(FlashError::AddressOutOfRange)
    } else {
        result matches Ok(data) && data.wf() && image_of(store_after(headers, content), data@)
    }
}

/// Whether the data of a segment that lies within the flash can be read
/// from a file of `file_len` bytes.
fn segment_readable(header: &SegmentHeader, file_len: usize) -> (r: bool)
    requires
        header.p_paddr < FLASH_SIZE_BYTES,
    ensures
        r == readable(*header, file_len as int),
{
    if header.p_filesz > file_len as u64 || header.p_offset > file_len as u64 - header.p_filesz {
        return false;
    }
    let room: u64 = 128 - header.p_paddr % 128;
    let head: u64 = if header.p_filesz < room {
        header.p_filesz
    } else {
        room
    };
    let tail: u64 = header.p_filesz - head;
    let pages: u64 = tail / 128 + if tail % 128 == 0 {
        0
    } else {
        1
    };
    header.p_paddr / 128 + pages <= 0xffff
}

/// Whether the data of every segment that gets read lies within a file of
/// `file_len` bytes and reaches no page beyond the last page index.
pub fn headers_readable(headers: &[SegmentHeader], file_len: usize) -> (r: bool)
    ensures
        r == segments_readable(headers@, file_len as int),
{
    let mut i: usize = 0;
    while i < headers.len()
        invariant
            0 <= i <= headers@.len(),
            !address_fault(headers@.take(i as int)),
            forall|j: int|
                0 <= j < i && loadable(#[trigger] headers@[j]) ==> readable(
                    headers@[j],
                    file_len as int,
                ),
        decreases headers@.len() - i,
    {
        let header = &headers[i];
        proof {
            lemma_fault_extends(headers@, i as int);
        }
        if header.p_type == PT_LOAD && header.p_filesz != 0 {
            if header.p_paddr >= FLASH_SIZE_BYTES as u64 {
                proof {
                    assert forall|j: int|
                        i <= j < headers@.len() && loadable(
                            #[trigger] headers@[j],
                        ) implies address_fault(headers@.take(j + 1)) by {
                        assert(misplaced(headers@.take(j + 1)[i as int]));
                    }
                }
                return true;
            }
            if !segment_readable(header, file_len) {
                return false;
            }
        }
        i = i + 1;
    }
    true
}

/// A table has a misplaced segment among its first `i + 1` exactly when it has
/// one among its first `i`, or the one at `i` is misplaced.
proof fn lemma_fault_extends(headers: Seq<SegmentHeader>, i: int)
    requires
        0 <= i < headers.len(),
    ensures
        address_fault(headers.take(i + 1)) <==> address_fault(headers.take(i)) || misplaced(
            headers[i],
        ),
{
    let shorter = headers.take(i);
    let longer = headers.take(i + 1);
    if address_fault(shorter) {
        let j = choose|j: int| 0 <= j < shorter.len() && misplaced(#[trigger] shorter[j]);
        assert(misplaced(longer[j]));
    }
    if misplaced(headers[i]) {
        assert(misplaced(longer[i]));
    }
    if address_fault(longer) {
        let j = choose|j: int| 0 <= j < longer.len() && misplaced(#[trigger] longer[j]);
        if j < i {
            assert(misplaced(shorter[j]));
        }
    }
}

/// Build the flash data from the program header table `headers` of the ELF
/// file `elf_content`: the segments that are loadable and hold data in the
/// file are split at page boundaries and merged, in table order.
pub fn collect_flash_data(elf_content: &[u8], headers: &[SegmentHeader]) -> (r: Result<
    FlashData,
    FlashError,
>)
    requires
        segments_readable(headers@, elf_content@.len() as int),
    ensures
        collected(headers@, elf_content@, r),
{
    let file_len: usize = elf_content.len();
    let mut flash_map: HashMap<u16, FlashPageContent> = HashMap::new();
    assert(pages_of(flash_map@) =~= Map::<int, Seq<u8>>::empty());
    let mut i: usize = 0;
    while i < headers.len()
        invariant
            0 <= i <= headers@.len(),
            file_len == elf_content@.len(),
            segments_readable(headers@, file_len as int),
            !address_fault(headers@.take(i as int)),
            pages_of(flash_map@) == store_after(headers@.take(i as int), elf_content@),
        decreases headers@.len() - i,
    {
        let segment = &headers[i];
        proof {
            lemma_fault_extends(headers@, i as int);
            assert(headers@.take(i + 1).drop_last() =~= headers@.take(i as int));
        }
        // skip all non-LOAD segments (should be none) and those which contain no data in the file
        // (RAM allocation segment, which we don't flash)
        if segment.p_type == PT_LOAD && segment.p_filesz != 0 {
            if segment.p_paddr >= FLASH_SIZE_BYTES as u64 {
                proof {
                    assert(misplaced(headers@[i as int]));
                }
                return Err(FlashError::AddressOutOfRange);
            }
            proof {
                assert(loadable(headers@[i as int]));
                assert(!address_fault(headers@.take(i + 1)));
                assert(readable(headers@[i as int], file_len as int));
            }
            let content = slice_subrange(
                elf_content,
                segment.p_offset as usize,
                (segment.p_offset + segment.p_filesz) as usize,
            );
            let pages = iter_page_content::<128>(segment.p_paddr as u16, content);
            fill_flash_map(&mut flash_map, pages.as_slice());
        }
        i = i + 1;
    }
    proof {
        assert(headers@.take(headers@.len() as int) =~= headers@);
    }
    Ok(FlashData::from_flash_map(&flash_map))
}

/// The error with which the `elf` crate refuses a file.
#[verifier::external_type_specification]
#[verifier::external_body]
pub struct ExParseError(elf::ParseError);

/// What the `elf` crate makes of the file `content`, read as little-endian:
/// `None` where it refuses the file, `Some(None)` where the file has no program
/// header table, else the entries of that table in table order.
pub uninterp spec fn elf_program_headers(content: Seq<u8>) -> Option<Option<Seq<SegmentHeader>>>;

/// `elf::ElfBytes::<LittleEndian>::minimal_parse` on the file, then `segments`
/// and the entries that the table's iterator yields, each reduced to the
/// four fields of [`SegmentHeader`]. The parser reads the file's bytes and
/// nothing else, and answers every file, with an error where it cannot read
/// one. The contract gives the outcome its name and says nothing more of it.
#[verifier::external_body]
fn parse_program_headers(elf_content: &[u8]) -> (r: Result<
    Option<Vec<SegmentHeader>>,
    elf::ParseError,
>)
    ensures
        elf_program_headers(elf_content@) == (match r {
            Ok(Some(headers)) => Some(Some(headers@)),
            Ok(None) => Some(None),
            Err(_) => None,
        }),
{
    let elf = ElfBytes::<LittleEndian>::minimal_parse(elf_content)?;
    let reduce = |header: elf::segment::ProgramHeader| SegmentHeader {
        p_type: header.p_type,
        p_offset: header.p_offset,
        p_filesz: header.p_filesz,
        p_paddr: header.p_paddr,
    };
    Ok(elf.segments().map(|table| table.iter().map(reduce).collect()))
}

/// `result` is what reading the file `content` gives, where `parsed` is what
/// the ELF parser makes of the file.
pub open spec fn read_from(
    parsed: Option<Option<Seq<SegmentHeader>>>,
    content: Seq<u8>,
    result: Result<FlashData, FlashError>,
) -> bool {
    match parsed {
        None => result == Err::<FlashData, FlashError>(
            FlashError::MalformedImage(ImageDefect::InvalidElf),
        ),
        Some(None) => result == Err::<FlashData, FlashError>(
            FlashError::MalformedImage(ImageDefect::NoProgramHeaders),
        ),
        Some(Some(headers)) => collected(headers, content, result),
    }
}

/// The segments that reading the file `content` takes data from can be read.
pub open spec fn file_readable(parsed: Option<Option<Seq<SegmentHeader>>>, file_len: int) -> bool {
    parsed matches Some(Some(headers)) ==> segments_readable(headers, file_len)
}

/// Read the flash data from the given ELF file content.
pub fn read_flash_data(elf_content: &[u8]) -> (r: Result<FlashData, FlashError>)
    requires
        file_readable(elf_program_headers(elf_content@), elf_content@.len() as int),
    ensures
        read_from(elf_program_headers(elf_content@), elf_content@, r),
{
    match parse_program_headers(elf_content) {
        Err(_) => Err(FlashError::MalformedImage(ImageDefect::InvalidElf)),
        Ok(None) => Err(FlashError::MalformedImage(ImageDefect::NoProgramHeaders)),
        Ok(Some(headers)) => collect_flash_data(elf_content, headers.as_slice()),
    }
}

/// Read the flash data from the given ELF file content, unless a segment
/// that would be read points outside the file or reaches beyond the last
/// page index: then nothing is read, and the result is `None`.
pub fn try_read_flash_data(elf_content: &[u8]) -> (r: Option<Result<FlashData, FlashError>>)
    ensures
        r is Some <==> file_readable(elf_program_headers(elf_content@), elf_content@.len() as int),
        r matches Some(result) ==> read_from(
            elf_program_headers(elf_content@),
            elf_content@,
            result,
        ),
{
    let readable = match parse_program_headers(elf_content) {
        Ok(Some(headers)) => headers_readable(headers.as_slice(), elf_content.len()),
        _ => true,
    };
    if readable {
        Some(read_flash_data(elf_content))
    } else {
        None
    }
}

} // verus!

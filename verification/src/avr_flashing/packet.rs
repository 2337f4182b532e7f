//! The wire format of the bootloader's "write flash page" report.

use vstd::prelude::*;

use super::elf_image::FlashError;
use super::flash_data::{ascending, FlashData};
use super::target::FlashPageContent;

verus! {

/// The report id of a flash page packet.
pub const FLASH_PAGE_REPORT_ID: u8 = 0;

/// The number of bytes of a flash page packet: report id, address, page.
pub const FLASH_PAGE_PACKET_LEN: usize = 131;

/// The address in flash of the first byte of the page `page_index`.
pub open spec fn page_address(page_index: int) -> int {
    page_index * 128
}

/// The bytes of a packet: the report id, the address with its low byte
/// first, then the page as it is.
pub open spec fn packet_bytes(report_id: u8, address: u16, data: Seq<u8>) -> Seq<u8> {
    seq![report_id, (address % 256) as u8, (address / 256) as u8] + data
}

/// A page on its way to the bootloader, which writes `data` to flash at `address`.
#[derive(Debug, PartialEq, Eq)]
pub struct FlashPagePacket<'a> {
    pub report_id: u8,
    pub address: u16,
    pub data: &'a FlashPageContent,
}

impl<'a> FlashPagePacket<'a> {
    /// The packet for the page `page_index`, unless the page's address is
    /// more than the address field holds.
    pub fn for_page(page_index: u16, data: &'a FlashPageContent) -> (r: Result<Self, FlashError>)
        ensures
            page_address(page_index as int) > u16::MAX ==> r == Err::<Self, FlashError>(
                FlashError::AddressEncodingOverflow,
            ),
            page_address(page_index as int) <= u16::MAX ==> r == Ok::<Self, FlashError>(
                (FlashPagePacket {
                    report_id: FLASH_PAGE_REPORT_ID,
                    address: page_address(page_index as int) as u16,
                    data,
                }),
            ),
    {
        match page_index.checked_mul(128) {
            Some(address) => Ok(FlashPagePacket { report_id: FLASH_PAGE_REPORT_ID, address, data }),
            None => Err(FlashError::AddressEncodingOverflow),
        }
    }

    /// The packet as it goes over the wire.
    pub fn to_bytes(&self) -> (r: Vec<u8>)
        ensures
            r@ == packet_bytes(self.report_id, self.address, self.data@),
    {
        let mut bytes: Vec<u8> = Vec::with_capacity(FLASH_PAGE_PACKET_LEN);
        bytes.push(self.report_id);
        bytes.push((self.address % 256) as u8);
        bytes.push((self.address / 256) as u8);
        bytes.extend_from_slice(self.data.as_slice());
        assert(bytes@ =~= packet_bytes(self.report_id, self.address, self.data@));
        bytes
    }
}

/// What goes over the wire for the page `page_index` with the bytes `data`:
/// the packet, or the refusal of a page whose address has no encoding.
pub open spec fn page_packet(page_index: int, data: Seq<u8>) -> Result<Seq<u8>, FlashError> {
    if page_address(page_index) > u16::MAX {
        Err(FlashError::AddressEncodingOverflow)
    } else {
        Ok(packet_bytes(FLASH_PAGE_REPORT_ID, page_address(page_index) as u16, data))
    }
}

/// The view of an encoded packet, or the error in its place.
pub open spec fn packet_view(encoded: Result<Vec<u8>, FlashError>) -> Result<Seq<u8>, FlashError> {
    match encoded {
        Ok(bytes) => Ok(bytes@),
        Err(error) => Err(error),
    }
}

/// Encode the page `page_index` with the content `data` for the wire.
pub fn encode_flash_page(page_index: u16, data: &FlashPageContent) -> (r: Result<
    Vec<u8>,
    FlashError,
>)
    ensures
        packet_view(r) == page_packet(page_index as int, data@),
{
    match FlashPagePacket::for_page(page_index, data) {
        Ok(packet) => Ok(packet.to_bytes()),
        Err(error) => Err(error),
    }
}

impl FlashData {
    /// The packet that transfers the `i`-th page of the image.
    pub fn packet(&self, i: usize) -> (r: Result<Vec<u8>, FlashError>)
        requires
            i < self@.len(),
        ensures
            packet_view(r) == page_packet(self@[i as int].0, self@[i as int].1),
    {
        encode_flash_page(self.page_index(i), self.page_content(i))
    }
}

/// Pages are transferred by ascending address: in an image with ascending
/// page indices, a later page lies at a higher address than an earlier one.
pub proof fn lemma_transfer_order(image: Seq<(int, Seq<u8>)>, i: int, j: int)
    requires
        ascending(image),
        0 <= i < j < image.len(),
    ensures
        page_address(image[i].0) < page_address(image[j].0),
{
}

} // verus!

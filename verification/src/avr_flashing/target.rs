//! Constants and types of the targeted AVR flash memory.

use vstd::prelude::*;

verus! {

/// Total flash size of the targeted AVR microcontroller.
///
/// ATmega8u2 has 8Kb flash.
pub const FLASH_SIZE_BYTES: u16 = 8192;

/// Flash page size of the targeted AVR microcontroller in bytes.
///
/// ATmega8u2 has 128-bytes pages.
pub const FLASH_PAGE_SIZE_BYTES: u16 = 128;

/// The page size as a length.
pub const PAGE_SIZE: usize = 128;

/// A fixed-size array representing a single flash page content.
pub type FlashPageContent = [u8; 128];

} // verus!

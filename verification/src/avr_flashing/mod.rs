//! Building the flash image of the AVR microcontroller from an ELF file and
//! encoding it for transfer to the bootloader.

pub mod elf_image;
pub mod flash_data;
pub mod flash_map;
pub mod packet;
pub mod page_content;
pub mod round_trip;
pub mod target;
pub mod text;

pub use elf_image::{read_flash_data, try_read_flash_data, FlashError, ImageDefect, SegmentHeader};
pub use flash_data::FlashData;
pub use flash_map::fill_flash_map;
pub use page_content::{iter_page_content, PageContent};

use std::collections::HashMap;

use hidcli::avr_flashing::packet::{encode_flash_page, FlashPagePacket};
use hidcli::avr_flashing::text::{to_decimal, to_hex};
use hidcli::avr_flashing::{FlashData, FlashError};

fn store(pages: &[(u16, u8)]) -> HashMap<u16, [u8; 128]> {
    pages
        .iter()
        .map(|(index, fill)| (*index, [*fill; 128]))
        .collect()
}

#[test]
fn test_from_flash_map_sorts_by_page_index() {
    let flash_map = store(&[(40, 4), (0, 1), (63, 6), (7, 2), (65535, 9), (8, 3)]);
    let data = FlashData::from_flash_map(&flash_map);
    assert_eq!(data.len(), 6);
    let indices: Vec<u16> = (0..data.len()).map(|i| data.page_index(i)).collect();
    assert_eq!(indices, &[0, 7, 8, 40, 63, 65535]);
    let fills: Vec<u8> = (0..data.len()).map(|i| data.page_content(i)[5]).collect();
    assert_eq!(fills, &[1, 2, 3, 4, 6, 9]);
    for i in 0..data.len() {
        assert_eq!(
            Some(data.page_content(i)),
            flash_map.get(&data.page_index(i))
        );
    }
}

#[test]
fn test_from_flash_map_many_pages() {
    let mut flash_map = HashMap::new();
    // put the pages in by an order that is far from sorted
    for step in 0..1000u32 {
        let index = ((step * 7919) % 1000) as u16;
        flash_map.insert(index, [(index % 251) as u8; 128]);
    }
    let data = FlashData::from_flash_map(&flash_map);
    assert_eq!(data.len(), 1000);
    for i in 0..1000 {
        assert_eq!(data.page_index(i), i as u16);
        assert_eq!(data.page_content(i), &[(i % 251) as u8; 128]);
    }
}

#[test]
fn test_from_flash_map_empty() {
    let data = FlashData::from_flash_map(&HashMap::new());
    assert_eq!(data.len(), 0);
    assert_eq!(data.summary(), "0 pages of data");
    assert_eq!(data.debug_string(), "FlashData {}");
}

#[test]
fn test_summary() {
    assert_eq!(
        FlashData::from_flash_map(&store(&[(3, 1)])).summary(),
        "1 pages of data"
    );
    let pages: Vec<(u16, u8)> = (0..64).map(|index| (index, 0)).collect();
    assert_eq!(
        FlashData::from_flash_map(&store(&pages)).summary(),
        "64 pages of data"
    );
    let pages: Vec<(u16, u8)> = (0..1203).map(|index| (index, 0)).collect();
    assert_eq!(
        FlashData::from_flash_map(&store(&pages)).summary(),
        "1203 pages of data"
    );
}

#[test]
fn test_debug_string() {
    let mut flash_map = store(&[(12, 0xAB), (2, 0)]);
    flash_map.get_mut(&2).unwrap()[0] = 0x01;
    flash_map.get_mut(&2).unwrap()[127] = 0xF0;
    let data = FlashData::from_flash_map(&flash_map);
    let expected = format!(
        "FlashData {{\"page_2\": \"01{}F0\", \"page_12\": \"{}\"}}",
        "00".repeat(126),
        "AB".repeat(128)
    );
    assert_eq!(data.debug_string(), expected);
}

#[test]
fn test_to_decimal() {
    assert_eq!(to_decimal(0), "0");
    assert_eq!(to_decimal(7), "7");
    assert_eq!(to_decimal(10), "10");
    assert_eq!(to_decimal(99), "99");
    assert_eq!(to_decimal(100), "100");
    assert_eq!(to_decimal(65535), "65535");
    assert_eq!(to_decimal(1234567890), "1234567890");
    assert_eq!(to_decimal(usize::MAX), format!("{}", usize::MAX));
}

#[test]
fn test_to_hex() {
    assert_eq!(to_hex(&[]), "");
    assert_eq!(to_hex(&[0]), "00");
    assert_eq!(to_hex(&[0x0f, 0xf0, 0x9a, 0xff]), "0FF09AFF");
    let all: Vec<u8> = (0..=255).collect();
    let expected: String = all.iter().map(|byte| format!("{byte:02X}")).collect();
    assert_eq!(to_hex(&all), expected);
}

#[test]
fn test_flash_page_packet() {
    let mut content = [0u8; 128];
    for (at, byte) in content.iter_mut().enumerate() {
        *byte = at as u8 + 1;
    }
    let packet = FlashPagePacket::for_page(3, &content).unwrap();
    assert_eq!(
        packet,
        FlashPagePacket {
            report_id: 0,
            address: 384,
            data: &content
        }
    );
    let bytes = packet.to_bytes();
    assert_eq!(bytes.len(), 131);
    assert_eq!(&bytes[..3], &[0x00, 0x80, 0x01]);
    assert_eq!(&bytes[3..], &content);
}

#[test]
fn test_flash_page_packet_to_bytes_is_little_endian() {
    let content = [0x5Au8; 128];
    let packet = FlashPagePacket {
        report_id: 7,
        address: 0xBEEF,
        data: &content,
    };
    let bytes = packet.to_bytes();
    assert_eq!(&bytes[..3], &[7, 0xEF, 0xBE]);
    assert_eq!(&bytes[3..], &content);
}

#[test]
fn test_encode_flash_page() {
    let content = [0xC3u8; 128];
    let mut expected = vec![0u8, 0, 0];
    expected.extend_from_slice(&content);
    assert_eq!(encode_flash_page(0, &content), Ok(expected.clone()));
    expected[1] = 0x80;
    expected[2] = 0x1F;
    assert_eq!(encode_flash_page(63, &content), Ok(expected.clone()));
    // the last page whose address fits in sixteen bits
    expected[1] = 0x80;
    expected[2] = 0xFF;
    assert_eq!(encode_flash_page(511, &content), Ok(expected));
}

#[test]
fn test_encode_flash_page_address_overflow() {
    let content = [0u8; 128];
    assert_eq!(
        encode_flash_page(512, &content),
        Err(FlashError::AddressEncodingOverflow)
    );
    assert_eq!(
        encode_flash_page(65535, &content),
        Err(FlashError::AddressEncodingOverflow)
    );
    assert_eq!(
        FlashPagePacket::for_page(512, &content),
        Err(FlashError::AddressEncodingOverflow)
    );
}

#[test]
fn test_flash_data_packets_in_transfer_order() {
    let flash_map = store(&[(5, 0x55), (1, 0x11), (600, 0x66), (3, 0x33)]);
    let data = FlashData::from_flash_map(&flash_map);
    let mut addresses = Vec::new();
    let mut failed = Vec::new();
    for i in 0..data.len() {
        match data.packet(i) {
            Ok(packet) => {
                assert_eq!(packet.len(), 131);
                assert_eq!(packet[0], 0);
                assert_eq!(&packet[3..], data.page_content(i));
                addresses.push(u16::from_le_bytes([packet[1], packet[2]]));
            }
            Err(error) => failed.push((i, error)),
        }
    }
    assert_eq!(addresses, &[128, 384, 640]);
    assert_eq!(failed, &[(3, FlashError::AddressEncodingOverflow)]);
}

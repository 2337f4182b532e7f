use std::collections::HashMap;

use hidcli::avr_flashing::{fill_flash_map, iter_page_content, PageContent};

/// Reads back from the store what the fragments wrote, in their order.
fn read_back<const N: usize>(
    flash_map: &HashMap<u16, [u8; N]>,
    pages: &[(u16, PageContent<'_, N>)],
) -> Vec<u8> {
    let mut bytes = Vec::new();
    for (index, content) in pages {
        let page = flash_map.get(index).unwrap();
        match content {
            PageContent::FullPage { .. } => bytes.extend_from_slice(page),
            PageContent::PartPage { offset, data } => {
                let start = *offset as usize;
                bytes.extend_from_slice(&page[start..start + data.len()])
            }
        }
    }
    bytes
}

fn round_trip<const N: usize>(address: u16, content: &[u8]) {
    let pages = iter_page_content::<N>(address, content);
    let mut flash_map = HashMap::new();
    fill_flash_map(&mut flash_map, &pages);
    assert_eq!(read_back(&flash_map, &pages), content);
    // each byte lies at its address
    for (at, byte) in content.iter().enumerate() {
        let place = address as usize + at;
        let page = flash_map.get(&((place / N) as u16)).unwrap();
        assert_eq!(page[place % N], *byte);
    }
    // and nothing else was written
    let written: usize = flash_map
        .values()
        .map(|page| page.iter().filter(|byte| **byte != 0).count())
        .sum();
    assert_eq!(written, content.iter().filter(|byte| **byte != 0).count());
}

#[test]
fn test_round_trip_through_the_store() {
    let content: Vec<u8> = (1..=255u8).collect();
    for len in [0usize, 1, 2, 3, 4, 5, 7, 8, 9, 100, 255] {
        for address in [0u16, 1, 3, 4, 5, 127, 128, 129, 1000] {
            round_trip::<1>(address, &content[..len]);
            round_trip::<2>(address, &content[..len]);
            round_trip::<4>(address, &content[..len]);
            round_trip::<128>(address, &content[..len]);
        }
    }
}

#[test]
fn test_round_trip_fragments_are_consecutive_pages() {
    let content = [1u8, 2, 3, 4, 5, 6, 7, 8, 9, 10, 11];
    let pages = iter_page_content::<4>(6, &content);
    let indices: Vec<u16> = pages.iter().map(|page| page.0).collect();
    assert_eq!(indices, &[1, 2, 3, 4]);
    let lengths: Vec<usize> = pages
        .iter()
        .map(|page| match page.1 {
            PageContent::FullPage { data } => data.len(),
            PageContent::PartPage { data, .. } => data.len(),
        })
        .collect();
    assert_eq!(lengths, &[2, 4, 4, 1]);
}

#[test]
fn test_partial_overwrite_changes_only_its_range() {
    let full = [10u8, 11, 12, 13, 14, 15, 16, 17];
    for start in 0u16..8 {
        for len in 0usize..=(8 - start as usize) {
            let patch = vec![0xEEu8; len];
            let mut flash_map = HashMap::new();
            flash_map.insert(3u16, [1u8; 8]);
            fill_flash_map(
                &mut flash_map,
                &[
                    (9, PageContent::FullPage { data: &full }),
                    (
                        9,
                        PageContent::PartPage {
                            offset: start,
                            data: &patch,
                        },
                    ),
                ],
            );
            let page = flash_map.get(&9).unwrap();
            for at in 0..8usize {
                if at >= start as usize && at < start as usize + len {
                    assert_eq!(page[at], 0xEE);
                } else {
                    assert_eq!(page[at], full[at]);
                }
            }
            assert_eq!(flash_map.get(&3), Some(&[1u8; 8]));
            assert_eq!(flash_map.len(), 2);
        }
    }
}

#[test]
fn test_partial_overwrite_scenario() {
    let mut flash_map = HashMap::new();
    fill_flash_map(
        &mut flash_map,
        &[
            (
                2,
                PageContent::FullPage {
                    data: &[1, 2, 3, 4],
                },
            ),
            (
                2,
                PageContent::PartPage {
                    offset: 1,
                    data: &[5, 6],
                },
            ),
        ],
    );
    assert_eq!(flash_map.len(), 1);
    assert_eq!(flash_map.get(&2), Some(&[1, 5, 6, 4]));
}

use we_layerd::dmabuf::{parse_format_table, DmabufError, DmabufFeedbackState, DmabufFormatModifier};

#[test]
fn parses_native_endian_format_table_entries() {
    let fourcc = u32::from_le_bytes(*b"AB24");
    let modifier = 0x0102_0304_0506_0708_u64;
    let mut bytes = Vec::new();
    bytes.extend_from_slice(&fourcc.to_ne_bytes());
    bytes.extend_from_slice(&0_u32.to_ne_bytes());
    bytes.extend_from_slice(&modifier.to_ne_bytes());

    assert_eq!(
        parse_format_table(&bytes).expect("valid table"),
        vec![DmabufFormatModifier { fourcc, modifier }]
    );
}

#[test]
fn tranche_indices_are_deduplicated() {
    let first = DmabufFormatModifier { fourcc: 1, modifier: 2 };
    let second = DmabufFormatModifier { fourcc: 3, modifier: 4 };
    let mut state = DmabufFeedbackState::default();
    state.set_format_table(vec![first, second]);
    let mut indices = Vec::new();
    indices.extend_from_slice(&0_u16.to_ne_bytes());
    indices.extend_from_slice(&1_u16.to_ne_bytes());
    indices.extend_from_slice(&0_u16.to_ne_bytes());
    state.add_tranche_indices(&indices).expect("valid indices");
    assert_eq!(state.finish_surface_feedback(), vec![first, second]);
}

#[test]
fn version_four_formats_remain_unknown_until_done() {
    let mut state = DmabufFeedbackState::default();
    assert_eq!(state.formats_for_renderer(4), None);
    assert_eq!(state.finish_surface_feedback(), Vec::new());
    assert_eq!(state.formats_for_renderer(4), Some(Vec::new()));
}

#[test]
fn legacy_modifiers_are_deduplicated() {
    let mut state = DmabufFeedbackState::default();
    state.add_legacy_modifier(1, 2);
    state.add_legacy_modifier(1, 2);
    assert_eq!(
        state.formats_for_renderer(3),
        Some(vec![DmabufFormatModifier { fourcc: 1, modifier: 2 }])
    );
}

#[test]
fn malformed_feedback_is_rejected() {
    assert_eq!(parse_format_table(&[0_u8; 15]), Err(DmabufError::PartialTableEntry));
    let mut state = DmabufFeedbackState::default();
    assert_eq!(state.add_tranche_indices(&[0_u8; 3]), Err(DmabufError::OddTrancheIndexSize { len: 3 }));

    let first = DmabufFormatModifier { fourcc: 1, modifier: 2 };
    state.set_format_table(vec![first]);
    let mut indices = Vec::new();
    indices.extend_from_slice(&0_u16.to_ne_bytes());
    indices.extend_from_slice(&5_u16.to_ne_bytes());
    assert_eq!(
        state.add_tranche_indices(&indices),
        Err(DmabufError::TrancheIndexOutOfRange { index: 5, table_len: 1 })
    );
    assert_eq!(state.finish_surface_feedback(), vec![first]);
}

#[test]
fn format_table_sizes_are_checked() {
    let mut state = DmabufFeedbackState::default();
    assert_eq!(state.begin_format_table(0), Ok(0));
    assert_eq!(state.begin_format_table(32), Ok(32));
    assert_eq!(state.begin_format_table(33), Err(DmabufError::TableSizeNotMultiple { size: 33 }));
    assert_eq!(
        state.begin_format_table(16 * 65_537),
        Err(DmabufError::TooManyTableEntries { count: 65_537 })
    );
    assert_eq!(state.begin_format_table(16 * 65_536), Ok(16 * 65_536));
}

#[test]
fn format_counts_follow_the_protocol_version() {
    let mut state = DmabufFeedbackState::default();
    state.add_legacy_modifier(1, 2);
    state.add_legacy_modifier(3, 4);
    assert_eq!(state.advertised_format_count(2), 0);
    assert_eq!(state.advertised_format_count(3), 2);
    assert_eq!(state.advertised_format_count(4), 0);
    assert_eq!(state.formats_for_renderer(2), Some(Vec::new()));
}

fn table_bytes(entries: &[(u32, u64)]) -> Vec<u8> {
    let mut bytes = Vec::new();
    for (fourcc, modifier) in entries {
        bytes.extend_from_slice(&fourcc.to_ne_bytes());
        bytes.extend_from_slice(&[0u8; 4]);
        bytes.extend_from_slice(&modifier.to_ne_bytes());
    }
    bytes
}

#[test]
fn reading_a_format_table_replaces_the_old_one_or_leaves_none() {
    let mut state = DmabufFeedbackState::default();
    let bytes = table_bytes(&[(0x3432_5258, 0), (0x3432_4258, 7)]);
    assert_eq!(state.read_format_table(bytes.len() as u32, Some(&bytes)), Ok(()));
    assert_eq!(
        state.format_table().to_vec(),
        vec![
            DmabufFormatModifier { fourcc: 0x3432_5258, modifier: 0 },
            DmabufFormatModifier { fourcc: 0x3432_4258, modifier: 7 },
        ]
    );
    assert_eq!(state.read_format_table(32, None), Err(DmabufError::MappingFailed));
    assert!(state.format_table().is_empty());
    assert_eq!(state.read_format_table(0, None), Ok(()));
    assert!(state.format_table().is_empty());
    assert_eq!(state.read_format_table(17, None), Err(DmabufError::TableSizeNotMultiple { size: 17 }));
    assert_eq!(
        state.read_format_table(16 * 65_537, None),
        Err(DmabufError::TooManyTableEntries { count: 65_537 })
    );
    assert!(state.pending_formats().is_empty());
    assert!(!state.surface_feedback_known());
}

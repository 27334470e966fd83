use mcrs::types::session::{id_from_text, id_to_text};

/// The hyphenated form written out digit by digit.
fn dashed(id: u128) -> String {
    let mut text = String::new();
    for k in 0..32 {
        if k == 8 || k == 12 || k == 16 || k == 20 {
            text.push('-');
        }
        let nibble = ((id >> (124 - 4 * k)) & 0xf) as u32;
        text.push(std::char::from_digit(nibble, 16).unwrap());
    }
    text
}

fn samples() -> Vec<u128> {
    let mut ids = vec![
        0,
        1,
        u128::MAX,
        0xa1a2a3a4b1b2c1c2d1d2d3d4d5d6d7d8,
        0x67e5504410b1426f9247bb680e5fe0c8,
        0x0123456789abcdef0123456789abcdef,
        0xfedcba9876543210fedcba9876543210,
    ];
    for k in 0..128 {
        ids.push(1u128 << k);
        ids.push(!(1u128 << k));
    }
    ids
}

#[test]
fn identifier_text_is_the_hyphenated_form() {
    assert_eq!(id_to_text(0), "00000000-0000-0000-0000-000000000000");
    assert_eq!(id_to_text(u128::MAX), "ffffffff-ffff-ffff-ffff-ffffffffffff");
    assert_eq!(
        id_to_text(0xa1a2a3a4b1b2c1c2d1d2d3d4d5d6d7d8),
        "a1a2a3a4-b1b2-c1c2-d1d2-d3d4d5d6d7d8"
    );
    assert_eq!(
        id_to_text(0x67e5504410b1426f9247bb680e5fe0c8),
        "67e55044-10b1-426f-9247-bb680e5fe0c8"
    );
}

#[test]
fn identifier_text_has_its_digits_and_hyphens_in_place() {
    for id in samples() {
        let text = id_to_text(id);
        assert_eq!(text, dashed(id));
        assert_eq!(text.len(), 36);
        for (i, c) in text.chars().enumerate() {
            if i == 8 || i == 13 || i == 18 || i == 23 {
                assert_eq!(c, '-');
            } else {
                assert!(c.is_ascii_digit() || ('a'..='f').contains(&c));
            }
        }
    }
}

#[test]
fn the_hyphenated_form_spells_its_identifier() {
    for id in samples() {
        assert_eq!(id_from_text(&id_to_text(id)), Some(id));
        assert_eq!(id_from_text(&dashed(id)), Some(id));
    }
}

#[test]
fn other_forms_are_read_as_the_uuid_crate_reads_them() {
    let id = 0xa1a2a3a4b1b2c1c2d1d2d3d4d5d6d7d8u128;
    assert_eq!(id_from_text("A1A2A3A4-B1B2-C1C2-D1D2-D3D4D5D6D7D8"), Some(id));
    assert_eq!(id_from_text("a1a2a3a4b1b2c1c2d1d2d3d4d5d6d7d8"), Some(id));
    assert_eq!(id_from_text("{a1a2a3a4-b1b2-c1c2-d1d2-d3d4d5d6d7d8}"), Some(id));
    assert_eq!(id_from_text("urn:uuid:a1a2a3a4-b1b2-c1c2-d1d2-d3d4d5d6d7d8"), Some(id));
}

#[test]
fn text_that_spells_no_identifier() {
    assert_eq!(id_from_text(""), None);
    assert_eq!(id_from_text("nope"), None);
    assert_eq!(id_from_text("a1a2a3a4-b1b2-c1c2-d1d2-d3d4d5d6d7d"), None);
    assert_eq!(id_from_text("a1a2a3a4_b1b2_c1c2_d1d2_d3d4d5d6d7d8"), None);
    assert_eq!(id_from_text("g1a2a3a4-b1b2-c1c2-d1d2-d3d4d5d6d7d8"), None);
    assert_eq!(id_from_text("a1a2a3a4-b1b2-c1c2-d1d2-d3d4d5d6d7d8 "), None);
}

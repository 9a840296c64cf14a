use waterui_barcode::{
    BarcodeError, BarcodeSource, BarcodeSymbology, Code128Error, QrError, DEFAULT_SIZE,
    MAX_CODE128_CHARS, QR_BYTE_CAPACITY,
};

/// The configured extent is the size on both sides, floored at the module
/// grid with its quiet zone so no module can collapse.
#[test]
fn a_qr_code_is_its_extent_squared_floored_at_its_modules() {
    let mut source = BarcodeSource::qr("https://waterui.dev").expect("static payload must encode");
    assert_eq!(source.output_size(), (256, 256));

    let modules = source.matrix().width + source.quiet_zone() * 2;
    source.set_size(1);
    assert_eq!(source.output_size(), (modules, modules));
}

/// Code128 fixes no bar height, so the extent is the height and the bar
/// count is the width, each floored where a floor exists.
#[test]
fn a_code128_is_its_bars_wide_and_its_extent_tall() {
    let mut source =
        BarcodeSource::code128("HELLO-WATERUI").expect("static payload must encode");
    let bars = source.matrix().width + source.quiet_zone() * 2;
    assert!(
        bars < 256,
        "the fixture must be narrower than the default extent"
    );
    assert_eq!(source.output_size(), (256, 256));

    source.set_size(40);
    assert_eq!(source.output_size(), (bars, 40));
}

#[test]
fn code128_matrix_stores_one_row_of_modules() {
    let source =
        BarcodeSource::code128("HELLO-WATERUI-128").expect("static test payload must encode");
    let matrix = source.matrix();

    assert_eq!(matrix.height, 1);
    assert_eq!(matrix.packed_data.len(), matrix.width.div_ceil(32) as usize);
}

#[test]
fn qr_matrix_remains_square() {
    let source =
        BarcodeSource::qr("https://waterui.dev").expect("static test payload must encode");
    let matrix = source.matrix();

    assert_eq!(matrix.width, matrix.height);
    assert_eq!(
        matrix.packed_data.len(),
        (matrix.width * matrix.height).div_ceil(32) as usize
    );
}

#[test]
fn a_new_source_has_the_default_extent_and_its_symbology() {
    let qr = BarcodeSource::qr("https://waterui.dev").unwrap();
    assert_eq!(qr.size(), DEFAULT_SIZE);
    assert_eq!(qr.size(), 256);
    assert_eq!(qr.symbology(), BarcodeSymbology::Qr);
    let code = BarcodeSource::code128("HELLO").unwrap();
    assert_eq!(code.size(), 256);
    assert_eq!(code.symbology(), BarcodeSymbology::Code128);
    let via_new = BarcodeSource::new(BarcodeSymbology::Code128, "HELLO").unwrap();
    assert_eq!(via_new.matrix().packed_data, code.matrix().packed_data);
}

#[test]
fn quiet_zones_follow_the_symbology() {
    let qr = BarcodeSource::qr("https://waterui.dev").unwrap();
    assert_eq!(qr.quiet_zone(), 4);
    assert_eq!(qr.vertical_quiet_zone(), 4);
    assert!(qr.preserves_square_modules());
    let code = BarcodeSource::code128("HELLO").unwrap();
    assert_eq!(code.quiet_zone(), 10);
    assert_eq!(code.vertical_quiet_zone(), 0);
    assert!(!code.preserves_square_modules());
}

#[test]
fn the_module_grid_adds_the_quiet_zone() {
    let qr = BarcodeSource::qr("https://waterui.dev").unwrap();
    let side = qr.matrix().width;
    assert_eq!(qr.module_grid(), (side + 8, side + 8));
    let code = BarcodeSource::code128("HELLO-WATERUI").unwrap();
    assert_eq!(code.module_grid(), (178 + 20, 1));
}

#[test]
fn set_size_changes_only_the_extent() {
    let mut source = BarcodeSource::qr("https://waterui.dev").unwrap();
    let before = source.matrix().packed_data.clone();
    source.set_size(1000);
    assert_eq!(source.size(), 1000);
    assert_eq!(source.output_size(), (1000, 1000));
    assert_eq!(source.matrix().packed_data, before);
    assert_eq!(source.symbology(), BarcodeSymbology::Qr);
}

#[test]
fn a_code128_at_exactly_its_bar_count_is_that_wide() {
    let mut source = BarcodeSource::code128("HELLO-WATERUI").unwrap();
    source.set_size(198);
    assert_eq!(source.output_size(), (198, 198));
    source.set_size(197);
    assert_eq!(source.output_size(), (198, 197));
}

#[test]
fn the_qr_encoder_lays_out_a_version_two_symbol() {
    let source = BarcodeSource::qr("https://waterui.dev").unwrap();
    let matrix = source.matrix();
    // Nineteen bytes at quartile error correction need version 2: 25 modules.
    assert_eq!(matrix.width, 25);
    // The top-left finder pattern: a dark ring, a light ring, a dark core.
    assert!(matrix.is_dark(0, 0));
    assert!(matrix.is_dark(6, 0));
    assert!(!matrix.is_dark(1, 1));
    assert!(matrix.is_dark(2, 2));
    assert!(matrix.is_dark(4, 4));
    // The separator beside it is light.
    assert!(!matrix.is_dark(7, 0));
    // The top-right finder pattern.
    assert!(matrix.is_dark(24, 0));
    assert!(!matrix.is_dark(23, 1));
}

#[test]
fn the_code128_encoder_starts_in_set_b_and_stops() {
    let source = BarcodeSource::code128("HELLO-WATERUI").unwrap();
    let matrix = source.matrix();
    // Start B, thirteen characters, checksum and stop: eleven modules each,
    // then the two-module termination bar.
    assert_eq!(matrix.width, 11 * 16 + 2);
    let start_b = [1, 1, 0, 1, 0, 0, 1, 0, 0, 0, 0];
    for (x, bar) in start_b.iter().enumerate() {
        assert_eq!(matrix.is_dark(x as u32, 0), *bar == 1, "start bar {x}");
    }
    let stop_and_term = [1, 1, 0, 0, 0, 1, 1, 1, 0, 1, 0, 1, 1];
    let end = matrix.width as usize - stop_and_term.len();
    for (offset, bar) in stop_and_term.iter().enumerate() {
        assert_eq!(matrix.is_dark((end + offset) as u32, 0), *bar == 1);
    }
}

#[test]
fn a_leading_charset_marker_is_kept() {
    let implicit = BarcodeSource::code128("HELLO").unwrap();
    let explicit = BarcodeSource::code128("\u{181}HELLO").unwrap();
    assert_eq!(implicit.matrix().packed_data, explicit.matrix().packed_data);
    let set_a = BarcodeSource::code128("\u{c0}HELLO").unwrap();
    // Start A differs from start B.
    assert_ne!(set_a.matrix().packed_data, implicit.matrix().packed_data);
}

#[test]
fn oversized_qr_content_is_a_qr_error() {
    let content = "x".repeat(4000);
    match BarcodeSource::qr(&content) {
        Err(error) => assert_eq!(error, BarcodeError::Qr(QrError::EncodedData)),
        Ok(source) => panic!("expected a QR error, got {source:?}"),
    }
}

#[test]
fn unrepresentable_code128_content_is_a_code128_error() {
    match BarcodeSource::code128("caf\u{e9}") {
        Err(error) => assert_eq!(error, BarcodeError::Code128(Code128Error::Character)),
        Ok(source) => panic!("expected a Code128 error, got {source:?}"),
    }
    // Character set C only takes digit pairs.
    match BarcodeSource::code128("\u{106}123") {
        Err(error) => assert_eq!(error, BarcodeError::Code128(Code128Error::Character)),
        Ok(source) => panic!("expected a Code128 error, got {source:?}"),
    }
}

#[test]
fn a_clone_keeps_everything() {
    let mut source = BarcodeSource::code128("HELLO").unwrap();
    source.set_size(99);
    let copy = source.clone();
    assert_eq!(copy.size(), 99);
    assert_eq!(copy.symbology(), source.symbology());
    assert_eq!(copy.matrix().packed_data, source.matrix().packed_data);
    assert_eq!(copy.matrix().width, source.matrix().width);
}

#[test]
fn qr_content_up_to_its_byte_capacity_encodes() {
    let fits = "x".repeat(QR_BYTE_CAPACITY);
    let source = BarcodeSource::qr(&fits).expect("content within capacity must encode");
    assert_eq!(source.matrix().width, 177);
    let too_long = "x".repeat(QR_BYTE_CAPACITY + 1);
    assert_eq!(
        BarcodeSource::qr(&too_long).unwrap_err(),
        BarcodeError::Qr(QrError::EncodedData)
    );
}

#[test]
fn a_qr_side_is_four_per_version_plus_twenty_one() {
    for content in ["", "1", "https://waterui.dev", &"y".repeat(300), &"7".repeat(2000)] {
        let side = BarcodeSource::qr(content).unwrap().matrix().width;
        assert!((21..=177).contains(&side), "side {side}");
        assert_eq!(side % 4, 1, "side {side}");
    }
    assert_eq!(BarcodeSource::qr("").unwrap().matrix().width, 21);
}

#[test]
fn the_longest_code128_content_encodes_whatever_its_characters() {
    // FNC2 has one of the highest indices in the character table.
    for c in ['A', '\u{17a}', '~'] {
        let content: String = std::iter::repeat(c).take(MAX_CODE128_CHARS).collect();
        let source = BarcodeSource::code128(&content).expect("content within the bound must encode");
        assert_eq!(source.matrix().width as usize, 11 * (MAX_CODE128_CHARS + 1) + 24);
    }
}

#[test]
fn code128_bars_are_eleven_per_unit_plus_twenty_four() {
    for content in ["", "A", "HELLO-WATERUI", "\u{106}123456"] {
        let width = BarcodeSource::code128(content).unwrap().matrix().width;
        assert!(width >= 24);
        assert_eq!((width - 24) % 11, 0, "width {width}");
    }
    // Set C packs digit pairs: start, three pairs.
    assert_eq!(BarcodeSource::code128("\u{106}123456").unwrap().matrix().width, 11 * 4 + 24);
}

use waterui_barcode::{BarcodeSource, DarkRun, PendingSource};

/// The bounds, in units, of every run laid out over `width` x `height`
/// units: (x0, y0, x1, y1).
fn run_bounds(source: &BarcodeSource, x0: f64, y0: f64, width: f64, height: f64) -> (f64, f64, f64, f64) {
    let (grid_width, grid_height) = source.module_grid();
    let cell_width = width / f64::from(grid_width);
    let cell_height = height / f64::from(grid_height);
    let mut bounds = (f64::INFINITY, f64::INFINITY, f64::NEG_INFINITY, f64::NEG_INFINITY);
    for run in source.dark_runs() {
        let left = f64::from(run.start).mul_add(cell_width, x0);
        let right = f64::from(run.end).mul_add(cell_width, x0);
        let top = f64::from(run.row).mul_add(cell_height, y0);
        let bottom = top + cell_height;
        bounds.0 = bounds.0.min(left);
        bounds.1 = bounds.1.min(top);
        bounds.2 = bounds.2.max(right);
        bounds.3 = bounds.3.max(bottom);
    }
    bounds
}

#[test]
fn dark_modules_stay_inside_the_quiet_zone() {
    let source = BarcodeSource::qr("https://waterui.dev").expect("static payload must encode");
    // A QR code fills a square 256 x 256 surface.
    let (x0, y0, x1, y1) = (0.0, 0.0, 256.0, 256.0);
    let bounds = run_bounds(&source, x0, y0, x1 - x0, y1 - y0);

    let quiet = (x1 - x0) * f64::from(source.quiet_zone())
        / f64::from(source.matrix().width + source.quiet_zone() * 2);
    assert!(
        bounds.0 >= x0 + quiet - f64::EPSILON,
        "left edge {} must clear the {quiet}pt quiet zone",
        bounds.0
    );
    assert!(
        bounds.2 <= x1 - quiet + f64::EPSILON,
        "right edge {} must clear the {quiet}pt quiet zone",
        bounds.2
    );
    assert!(bounds.1 >= y0 + quiet - f64::EPSILON);
    assert!(bounds.3 <= y1 - quiet + f64::EPSILON);
}

#[test]
fn code128_bars_span_the_full_height() {
    let source = BarcodeSource::code128("HELLO-WATERUI").expect("static payload must encode");
    // A Code128 symbol stretches over the whole 512 x 128 surface.
    let bounds = run_bounds(&source, 0.0, 0.0, 512.0, 128.0);

    assert!((bounds.1 - 0.0).abs() < f64::EPSILON);
    assert!((bounds.3 - 128.0).abs() < f64::EPSILON);
}

/// Every dark module lies in exactly one run, every run is maximal, and the
/// runs come row by row, left to right.
fn assert_runs_are_maximal(source: &BarcodeSource) {
    let matrix = source.matrix();
    let qx = source.quiet_zone();
    let qy = source.vertical_quiet_zone();
    let runs = source.dark_runs();
    let dark = |column: i64, row: i64| {
        column >= 0
            && row >= 0
            && (column as u32) < matrix.width
            && (row as u32) < matrix.height
            && matrix.is_dark(column as u32, row as u32)
    };
    for run in &runs {
        assert!(run.start < run.end);
        let row = i64::from(run.row) - i64::from(qy);
        for column in run.start..run.end {
            assert!(dark(i64::from(column) - i64::from(qx), row));
        }
        assert!(!dark(i64::from(run.start) - i64::from(qx) - 1, row));
        assert!(!dark(i64::from(run.end) - i64::from(qx), row));
    }
    for pair in runs.windows(2) {
        assert!(pair[0].row < pair[1].row || (pair[0].row == pair[1].row && pair[0].end < pair[1].start));
    }
    for y in 0..matrix.height {
        for x in 0..matrix.width {
            let covering = runs
                .iter()
                .filter(|run| run.row == y + qy && run.start <= x + qx && x + qx < run.end)
                .count();
            assert_eq!(covering, usize::from(matrix.is_dark(x, y)), "module ({x}, {y})");
        }
    }
}

#[test]
fn qr_runs_are_the_maximal_dark_runs() {
    assert_runs_are_maximal(&BarcodeSource::qr("https://waterui.dev").unwrap());
}

#[test]
fn code128_runs_are_the_maximal_dark_runs() {
    let source = BarcodeSource::code128("HELLO-WATERUI-128").unwrap();
    assert_runs_are_maximal(&source);
    assert!(source.dark_runs().iter().all(|run| run.row == 0));
}

#[test]
fn the_start_bars_of_code128_open_the_runs() {
    // Start B is 11010010000: bars at 0..2, 3..4 and 6..7, after ten quiet
    // modules.
    let source = BarcodeSource::code128("HELLO").unwrap();
    let runs = source.dark_runs();
    assert_eq!(runs[0], DarkRun { row: 0, start: 10, end: 12 });
    assert_eq!(runs[1], DarkRun { row: 0, start: 13, end: 14 });
    assert_eq!(runs[2], DarkRun { row: 0, start: 16, end: 17 });
}

#[test]
fn a_qr_finder_row_is_one_run_then_a_core() {
    let source = BarcodeSource::qr("https://waterui.dev").unwrap();
    let runs = source.dark_runs();
    // Row 0 of the symbol is grid row 4: the finder's top edge spans
    // columns 0..7 of the symbol, grid columns 4..11.
    assert_eq!(runs[0], DarkRun { row: 4, start: 4, end: 11 });
}

#[test]
fn a_pending_source_is_taken_once() {
    let mut pending = PendingSource::new();
    assert_eq!(pending.pending_output_size(), None);
    assert!(pending.take_reencoded().is_none());

    let mut source = BarcodeSource::code128("HELLO-WATERUI").unwrap();
    source.set_size(40);
    pending.store(source);
    assert_eq!(pending.pending_output_size(), Some((198, 40)));

    let mut newer = BarcodeSource::qr("https://waterui.dev").unwrap();
    newer.set_size(10);
    pending.store(newer);
    assert_eq!(pending.pending_output_size(), Some((33, 33)));

    let taken = pending.take_reencoded().expect("a source was stored");
    assert_eq!(taken.output_size(), (33, 33));
    assert!(pending.take_reencoded().is_none());
    assert_eq!(pending.pending_output_size(), None);
}

use fpv_editor::gpu::error::GpuError;
use fpv_editor::gpu::lut::{lut_size_in_range, parse_cube, LutError};

#[test]
fn parses_a_minimal_cube_file() {
    let text = "\
TITLE \"test\"
LUT_3D_SIZE 2
0.0 0.0 0.0
1.0 0.0 0.0
0.0 1.0 0.0
1.0 1.0 0.0
0.0 0.0 1.0
1.0 0.0 1.0
0.0 1.0 1.0
1.0 1.0 1.0
";
    assert!(lut_size_in_range(text));
    let lut = parse_cube(text).unwrap();
    assert_eq!(lut.size, 2);
    assert_eq!(lut.rows.len(), 8);
    let white = &lut.rows[1 * 4 + 1 * 2 + 1];
    assert_eq!((white.r.as_str(), white.g.as_str(), white.b.as_str()), ("1.0", "1.0", "1.0"));
    assert!(lut.domain_min.is_none() && lut.domain_max.is_none());
}

#[test]
fn missing_size_directive_is_an_error() {
    let err = parse_cube("0.0 0.0 0.0\n").unwrap_err();
    assert_eq!(err, LutError::MissingSize);
}

#[test]
fn wrong_row_count_is_an_error() {
    let text = "LUT_3D_SIZE 2\n0.0 0.0 0.0\n1.0 1.0 1.0\n";
    let err = parse_cube(text).unwrap_err();
    assert_eq!(err, LutError::WrongRowCount { expected: 8, found: 2 });
    assert_eq!(err.message(), "expected 8 data rows, found 2");
}

#[test]
fn malformed_rows_and_bounds_name_the_line() {
    let err = parse_cube("LUT_3D_SIZE 1\n  0.0 zero 0.0  \n").unwrap_err();
    assert_eq!(err, LutError::BadRow("0.0 zero 0.0".to_string()));
    let err = parse_cube("DOMAIN_MIN 0 0\nLUT_3D_SIZE 1\n0 0 0\n").unwrap_err();
    assert_eq!(err, LutError::BadRow("DOMAIN_MIN 0 0".to_string()));
    assert_eq!(err.message(), "malformed data row: DOMAIN_MIN 0 0");
}

#[test]
fn comments_bounds_and_number_forms_are_read() {
    let text = "# a comment\r\nLUT_1D_SIZE 4\nDOMAIN_MIN 0 0 0\nDOMAIN_MAX 1e0 +1. .5E+1\nLUT_3D_SIZE 1\n-inf NaN 3\n";
    let lut = parse_cube(text).unwrap();
    assert_eq!(lut.size, 1);
    let max = lut.domain_max.unwrap();
    assert_eq!((max.r.as_str(), max.g.as_str(), max.b.as_str()), ("1e0", "+1.", ".5E+1"));
    for t in [max.r, max.g, max.b] {
        assert!(t.parse::<f32>().is_ok());
    }
    let row = &lut.rows[0];
    assert!(row.r.parse::<f32>().is_ok() && row.g.parse::<f32>().is_ok());
}

#[test]
fn texts_that_are_not_numbers_are_refused() {
    for bad in ["1e", ".", "e5", "1..0", "0x10", "--1", "in"] {
        let text = format!("LUT_3D_SIZE 1\n{bad} 0 0\n");
        assert!(parse_cube(&text).is_err(), "{bad} was accepted");
        assert!(bad.parse::<f32>().is_err());
    }
}

#[test]
fn an_unparseable_size_counts_as_missing() {
    assert_eq!(parse_cube("LUT_3D_SIZE two\n0 0 0\n").unwrap_err(), LutError::MissingSize);
}

#[test]
fn huge_sizes_are_detected() {
    assert!(!lut_size_in_range("LUT_3D_SIZE 18446744073709551615\n"));
}

#[test]
fn gpu_error_messages() {
    assert_eq!(GpuError::NoAdapter.message(), "no compatible GPU adapter available");
    assert_eq!(GpuError::RequestDevice("busy".to_string()).message(), "failed to request device: busy");
}

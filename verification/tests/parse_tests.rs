use eaip::parse::{get_clean_text, parse_elevation, parse_frequency, parse_latlong};
use eaip::types::Degrees;

fn degrees(angle: Option<Degrees>) -> Option<f64> {
    angle.map(|a| {
        let magnitude = a.numerator as f64 / a.denominator as f64;
        if a.negative {
            -magnitude
        } else {
            magnitude
        }
    })
}

fn latlong(text: &str) -> (Option<f64>, Option<f64>) {
    let (lat, lon) = parse_latlong(text).unwrap();
    (degrees(lat), degrees(lon))
}

#[test]
fn test_already_clean_string() {
    assert_eq!("CLN", get_clean_text("CLN".to_string()));
}

#[test]
fn test_clean_string() {
    assert_eq!("ADN", get_clean_text(r#"<span id="ID_10161034" class="SD">ADN</span><span class="sdParams" style="display: none;">TVOR;CODE_ID;111</span>"#.to_string()));
}

#[test]
fn test_clean_multiline_string() {
    assert_eq!("ADN\nL2", get_clean_text(r#"<span id="ID_10161034" class="SD">ADN</span><span class="sdParams" style="display: none;">TVOR;CODE_ID;111</span><br /><span id="ID_10161034" class="SD">L2</span><span class="sdParams" style="display: none;">TVOR;CODE_ID;111</span>"#.to_string()));
}

#[test]
fn test_complex_string() {
    let str = r#"
        <strong>
        <span class="SD" id="ID_10161012">ABERDEEN</span><span class="sdParams" style="display: none;">TVOR;TXT_NAME;111</span>
      </strong>
    <p class="line">
      <span class="SD" id="ID_10161015">VOR</span><span class="sdParams" style="display: none;">TVOR;CODE_TYPE;111</span>/DME<br/><span class="SD" id="ID_10161019">0.95°W</span><span class="sdParams" style="display: none;">TVOR;VAL_MAG_VAR;111</span> (<span class="SD" id="ID_10161022">2022</span><span class="sdParams" style="display: none;">TVOR;DATE_MAG_VAR;111</span>)<br/><span class="SD" id="ID_10161026">2.00°W</span><span class="sdParams" style="display: none;">TVOR;VAL_DECLINATION;111</span> (<span class="SD" id="ID_10161029">2018</span><span class="sdParams" style="display: none;">TVOR;CUSTOM_ATT1;111</span>)</p></td><td id="ID_10161031">
        "#;

    let intended_result = "ABERDEEN\nVOR/DME\n0.95°W(2022)\n2.00°W(2018)";

    assert_eq!(intended_result, get_clean_text(str.to_string()));
}

#[test]
fn test_parse_frequency() {
    assert_eq!(123, parse_frequency("123 kHz").unwrap());
    assert_eq!(123000, parse_frequency("123 MHz").unwrap());
    assert_eq!(123456, parse_frequency("123.456 MHz").unwrap());
    assert_eq!(123456, parse_frequency("123456 kHz").unwrap());
    assert_eq!(123000, parse_frequency("123MHz").unwrap());
}

#[test]
fn test_parse_elevation() {
    assert_eq!(10, parse_elevation("10ft").unwrap());
    assert_eq!(10, parse_elevation("10 ft").unwrap());
    assert_eq!(10, parse_elevation("10 FT").unwrap());
    assert!(parse_elevation("10M").is_err());
}

#[test]
fn test_parse_latlong() {
    assert_eq!((Some(57.1209), Some(2.1153)), latlong("571209N 0021153E"));
    assert_eq!((Some(57.1209), Some(-2.1153)), latlong("571209N 0021153W"));
    assert_eq!((Some(-57.1209), Some(2.1153)), latlong("571209S 0021153E"));
    assert_eq!((Some(-57.1209), Some(-2.1153)), latlong("571209S 0021153W"));

    assert_eq!((Some(57.1209), Some(2.1153)), latlong("571209n 0021153e"));
    assert_eq!((Some(57.1209), Some(-2.1153)), latlong("571209n 0021153w"));
    assert_eq!((Some(-57.1209), Some(2.1153)), latlong("571209s 0021153e"));
    assert_eq!((Some(-57.1209), Some(-2.1153)), latlong("571209s 0021153w"));

    assert_eq!((Some(57.1209), None), latlong("571209N"));
    assert_eq!((Some(-57.1209), None), latlong("571209S"));
    assert_eq!((None, Some(2.1153)), latlong("0021153E"));
    assert_eq!((None, Some(-2.1153)), latlong("0021153W"));

    assert_eq!((Some(57.120962), None), latlong("571209.62N"));
    assert_eq!((None, Some(2.115312)), latlong("0021153.12E"));

    assert_eq!((Some(57.12096), None), latlong("571209.6N"));
    assert_eq!((None, Some(2.11531)), latlong("0021153.1E"));

    if let Some(v) = latlong(r#"50°50'13.60"N"#).0 {
        assert!(v - 50.83711 < 0.00001);
    }
}

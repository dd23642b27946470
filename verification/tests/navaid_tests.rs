use eaip::parse::navaids::{parse_navaids, Navaids};
use eaip::parse::Parser;
use eaip::types::NavAidKind;

const ABERDEEN: &str = r#"<html><body><table><tbody>
<tr>
<td><strong><span>ABERDEEN</span></strong><p><span>VOR</span>/DME<br/>0.95°W (2022)</p></td>
<td><span>ADN</span><span style="display: none;">TVOR;CODE_ID;111</span></td>
<td>113.55MHz</td>
<td>H24</td>
<td>571209N 0021153W</td>
<td>30FT</td>
<td>remarks</td>
</tr>
</tbody></table></body></html>"#;

#[test]
fn one_row_navaid_table() {
    let navaids = parse_navaids(ABERDEEN).unwrap();
    assert_eq!(navaids.len(), 1);
    let n = &navaids[0];
    assert_eq!(n.name(), "ABERDEEN");
    assert_eq!(n.kind(), NavAidKind::VORDME);
    assert_eq!(n.id(), "ADN");
    assert_eq!(n.frequency_khz(), 113550);
    assert!(!n.latitude().negative);
    assert_eq!(n.latitude().numerator, 571209);
    assert_eq!(n.latitude().denominator, 10000);
    assert!(n.longitude().negative);
    assert_eq!(n.longitude().numerator, 21153);
    assert_eq!(n.longitude().denominator, 10000);
    assert_eq!(n.elevation(), 30);
}

#[test]
fn navaid_parsing_is_repeatable() {
    let first = <Navaids as Parser>::parse(ABERDEEN).unwrap();
    let second = <Navaids as Parser>::parse(ABERDEEN).unwrap();
    assert_eq!(first, second);
}

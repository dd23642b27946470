use eaip::html::TreeEdge;
use eaip::parse::{clean, clean_text_of_edges, get_clean_text};

#[test]
fn hidden_sibling_is_left_out() {
    assert_eq!("A", clean("<span>A</span><span style=\"display: none;\">B</span>"));
    assert_eq!("AC", clean("<i>A</i><span style=\"display: none;\">B<i>inner</i></span><em>C</em>"));
    // Leaving a hidden element still ends the line where its tag is a block.
    assert_eq!("A\nC", clean("<i>A</i><b style=\"display: none;\">B</b><em>C</em>"));
}

#[test]
fn only_the_exact_style_hides() {
    assert_eq!("AB", clean("<span>A</span><span style=\"display:none\">B</span>"));
    assert_eq!("AB", clean("<span>A</span><span style=\"display: none\">B</span>"));
    assert_eq!("AB", clean("<span>A</span><span style=\"display: none; \">B</span>"));
}

#[test]
fn struck_through_text_is_left_out() {
    assert_eq!("newer", clean("<del>old</del><span>newer</span>"));
    assert_eq!("kept", clean("<del>a<span>b</span>c</del><span>kept</span>"));
}

#[test]
fn breaks_give_one_line_feed() {
    assert_eq!("A\nB", clean("A<br>B"));
    assert_eq!("A\nB", clean("A<br><br/><br>B"));
    assert_eq!("A\nB", clean("<p>A</p><p>B</p>"));
    assert_eq!("A\nB", clean("<div>A</div><br><div>B</div>"));
}

#[test]
fn inline_tags_do_not_break_the_line() {
    assert_eq!("ABCD", clean("<span>A</span><strong>B</strong><i>C</i><em>D</em>"));
    assert_eq!("A\nB", clean("<b>A</b><u>B</u>"));
}

#[test]
fn text_is_trimmed_node_by_node() {
    assert_eq!("AB", clean("  <span> A </span>  <span> B </span>  "));
    assert_eq!("", get_clean_text("   ".to_string()));
    assert_eq!("", get_clean_text(String::new()));
}

#[test]
fn a_walk_given_by_hand() {
    let edges = vec![
        TreeEdge::Other,
        TreeEdge::Open("html".to_string()),
        TreeEdge::Open("SPAN".to_string()),
        TreeEdge::Text(" one ".to_string()),
        TreeEdge::Other,
        TreeEdge::Close("SPAN".to_string()),
        TreeEdge::Open("div".to_string()),
        TreeEdge::Text("hidden".to_string()),
        TreeEdge::Other,
        TreeEdge::Close("div".to_string()),
        TreeEdge::Open("td".to_string()),
        TreeEdge::Text("two".to_string()),
        TreeEdge::Other,
        TreeEdge::Close("td".to_string()),
        TreeEdge::Close("html".to_string()),
        TreeEdge::Other,
    ];
    let mut styles: Vec<Option<String>> = vec![None; edges.len()];
    styles[6] = Some("display: none;".to_string());
    assert_eq!("one\ntwo", clean_text_of_edges(&edges, &styles));
    // Without the styles nothing is hidden.
    assert_eq!("onehidden\ntwo", clean_text_of_edges(&edges, &Vec::new()));
}

#[test]
fn a_closing_tag_ends_only_the_region_it_started() {
    let edges = vec![
        TreeEdge::Open("del".to_string()),
        TreeEdge::Open("span".to_string()),
        TreeEdge::Text("a".to_string()),
        TreeEdge::Close("span".to_string()),
        TreeEdge::Text("b".to_string()),
        TreeEdge::Close("del".to_string()),
        TreeEdge::Open("span".to_string()),
        TreeEdge::Text("c".to_string()),
        TreeEdge::Close("span".to_string()),
    ];
    assert_eq!("c", clean_text_of_edges(&edges, &Vec::new()));
}

use accept_priority::parser::{is_valid_header_item, parse_header, parse_header_item};
use accept_priority::priority_map::PriorityMap;
use accept_priority::quality::Weight;

const VALID_HEADER_ITEM: &str = r"^\s*([A-Za-z0-9/\*-]+?)\s*((;(.*)+))?$";

fn stated(t: &str) -> Weight {
    Weight::Stated(t.to_string())
}

fn item(token: &str, weight: Weight) -> Option<(String, Weight)> {
    Some((token.to_string(), weight))
}

fn entries(m: &PriorityMap<Weight>) -> Vec<(String, Weight)> {
    (0..m.len())
        .map(|i| {
            let (k, v) = m.entry(i);
            (k.clone(), v.clone())
        })
        .collect()
}

#[test]
fn test_valid_header_item() {
    assert!(is_valid_header_item("a;q=0.7"));
}

#[test]
fn test_simple() {
    assert_eq!(parse_header_item("utf-8"), item("utf-8", Weight::Unstated));
}

#[test]
fn test_priority() {
    assert_eq!(parse_header_item("gzip;q=0.8"), item("gzip", stated("0.8")));
}

#[test]
fn test_priority_with_options() {
    assert_eq!(
        parse_header_item("deflate;q=0.9;b=0.8"),
        item("deflate", stated("0.9"))
    );
}

#[test]
fn test_invalid_header() {
    assert_eq!(parse_header_item("%%;%&=="), None);
}

#[test]
fn bare_tokens_state_no_weight() {
    for t in ["a", "text/html", "*/*", "x-gzip", "UTF-8", "0", "*"] {
        assert_eq!(parse_header_item(t), item(t, Weight::Unstated));
    }
}

#[test]
fn semicolon_without_q_states_no_weight() {
    assert_eq!(parse_header_item("gzip;"), item("gzip", Weight::Unstated));
    assert_eq!(parse_header_item("gzip;level=5"), item("gzip", Weight::Unstated));
    assert_eq!(parse_header_item("gzip;qq=5"), item("gzip", Weight::Unstated));
}

#[test]
fn q_found_after_other_parameters() {
    assert_eq!(parse_header_item("br;b=1;q=0.5"), item("br", stated("0.5")));
}

#[test]
fn first_q_wins() {
    assert_eq!(parse_header_item("br;q=0.2;q=0.9"), item("br", stated("0.2")));
}

#[test]
fn spaces_around_token_and_parameters() {
    assert_eq!(parse_header_item("  br  ; q = 0.5 "), item("br", stated("0.5")));
    assert_eq!(parse_header_item("\tbr\t;\tq=1"), item("br", stated("1")));
}

#[test]
fn q_without_value_states_empty_text() {
    assert_eq!(parse_header_item("br;q"), item("br", stated("")));
    assert_eq!(parse_header_item("br;q="), item("br", stated("")));
}

#[test]
fn q_value_is_split_at_first_equals() {
    assert_eq!(parse_header_item("br;q=1=2"), item("br", stated("1=2")));
    assert_eq!(parse_header_item("br;q=abc"), item("br", stated("abc")));
}

#[test]
fn malformed_items_are_refused() {
    for s in ["", "   ", ";q=1", "a b", "a,b", "é", "a;q=1\nb", "a\nb", "a=1"] {
        assert_eq!(parse_header_item(s), None, "{:?}", s);
        assert!(!is_valid_header_item(s), "{:?}", s);
    }
}

#[test]
fn unicode_space_around_token() {
    assert_eq!(parse_header_item("\u{a0}br\u{3000}"), item("br", Weight::Unstated));
    assert_eq!(parse_header_item("br \n"), item("br", Weight::Unstated));
}

#[test]
fn shape_agrees_with_regular_expression() {
    let re = regex::Regex::new(VALID_HEADER_ITEM).unwrap();
    let samples = [
        "a;q=0.7", "utf-8", "gzip;q=0.8", "deflate;q=0.9;b=0.8", "%%;%&==", "", " ", "a", " a ",
        "a ;", "a;", ";", "a b", "a;\n", "a\n", "\na", "a;x\ny", "a\u{a0}", "\u{2028}a;q", "é",
        "*/*;q=0.1", "a;;;", "a;q=é", "a\r;b", "a;b\r", "a,b", "a=b", "-", "a\u{85}",
    ];
    for s in samples {
        let expected = re.captures(s).map(|c| c.get(1).unwrap().as_str().to_string());
        let found = parse_header_item(s).map(|(t, _)| t);
        assert_eq!(found, expected, "{:?}", s);
        assert_eq!(is_valid_header_item(s), re.is_match(s), "{:?}", s);
    }
}

#[test]
fn header_is_split_trimmed_and_filtered() {
    let m = parse_header(" \t a;q=0.5, b ,%%,c;q=x \n");
    assert_eq!(
        entries(&m),
        vec![
            ("a".to_string(), stated("0.5")),
            ("b".to_string(), Weight::Unstated),
            ("c".to_string(), stated("x")),
        ]
    );
    assert_eq!(m.get("b"), Some(&Weight::Unstated));
    assert_eq!(m.get("%%"), None);
}

#[test]
fn later_duplicate_overwrites_earlier() {
    let m = parse_header("a;q=0.1,b,a;q=0.9");
    assert_eq!(m.len(), 2);
    assert_eq!(m.get("a"), Some(&stated("0.9")));
}

#[test]
fn empty_and_malformed_headers_give_empty_maps() {
    assert_eq!(parse_header("").len(), 0);
    assert_eq!(parse_header(" \n\t").len(), 0);
    assert_eq!(parse_header(",,").len(), 0);
    assert_eq!(parse_header("%%;%&==").len(), 0);
}

#[test]
fn tokens_are_case_sensitive() {
    let m = parse_header("GZIP");
    assert_eq!(m.get("gzip"), None);
    assert_eq!(m.get("GZIP"), Some(&Weight::Unstated));
}

#[test]
fn parsing_twice_gives_equal_maps() {
    let h = "a;q=0.7, b;q=0.3, a;q=0.2, c";
    assert_eq!(entries(&parse_header(h)), entries(&parse_header(h)));
}

use oxr_launcher_core::parse::{extract_ids, parse_listing_ids};

fn strings(v: &[&str]) -> Vec<String> {
    v.iter().map(|s| s.to_string()).collect()
}

#[test]
fn extract_single_id() {
    assert_eq!(extract_ids("Half-Life: Alyx (546560)"), strings(&["546560"]));
}

#[test]
fn extract_several_ids() {
    assert_eq!(extract_ids("(1) and (23) and (456)"), strings(&["1", "23", "456"]));
}

#[test]
fn extract_none_without_parens() {
    assert_eq!(extract_ids("no ids on this line 123"), strings(&[]));
}

#[test]
fn extract_skips_non_numeric_group() {
    assert_eq!(extract_ids("(12a) then (34)"), strings(&["34"]));
}

#[test]
fn extract_skips_empty_group() {
    assert_eq!(extract_ids("() (7)"), strings(&["7"]));
}

#[test]
fn extract_nested_parens() {
    assert_eq!(extract_ids("((56))"), strings(&["56"]));
}

#[test]
fn extract_unclosed_group() {
    assert_eq!(extract_ids("(123"), strings(&[]));
}

#[test]
fn listing_concatenates_in_order() {
    let lines = strings(&["Proton 8.0 (2348590)", "nothing here", "Beat Saber (620980)"]);
    assert_eq!(parse_listing_ids(&lines), strings(&["2348590", "620980"]));
}

#[test]
fn listing_empty() {
    let lines: Vec<String> = Vec::new();
    assert_eq!(parse_listing_ids(&lines), strings(&[]));
}

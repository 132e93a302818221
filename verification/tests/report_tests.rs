use hemlib::ProcessedFeed;

#[test]
fn render_styles_title_and_indents_items() {
    let pf = ProcessedFeed {
        title: "My Feed".to_string(),
        items: vec!["one".to_string(), "two".to_string()],
    };
    assert_eq!(pf.render(), "\u{1f4d6} \u{1b}[1mMy Feed\u{1b}[0m\n\tone\n\ttwo");
}

#[test]
fn render_with_one_item_has_no_trailing_separator() {
    let pf = ProcessedFeed { title: "T".to_string(), items: vec!["only".to_string()] };
    assert_eq!(pf.render(), "\u{1f4d6} \u{1b}[1mT\u{1b}[0m\n\tonly");
}

#[test]
fn render_with_no_items_ends_at_the_indent() {
    let pf = ProcessedFeed { title: "T".to_string(), items: Vec::new() };
    assert_eq!(pf.render(), "\u{1f4d6} \u{1b}[1mT\u{1b}[0m\n\t");
}

use html2pdf::css::PageSelector;
use html2pdf::pdf::print_css::{MarginBoxContent, MarginContentPart, PageContext, PageSize};

#[test]
fn test_page_context_creation() {
    let ctx = PageContext::new(1, 10);
    assert_eq!(ctx.page_number, 1);
    assert_eq!(ctx.total_pages, 10);
    assert!(ctx.is_first);
    assert!(!ctx.is_left); // Page 1 is right (recto)
    assert!(!ctx.is_blank);

    let ctx2 = PageContext::new(2, 10);
    assert!(!ctx2.is_first);
    assert!(ctx2.is_left); // Page 2 is left (verso)
}

#[test]
fn test_page_context_selectors() {
    let ctx = PageContext::new(1, 10);
    let selectors = ctx.applicable_selectors();

    assert!(selectors.contains(&PageSelector::First));
    assert!(selectors.contains(&PageSelector::Right));
    assert!(!selectors.contains(&PageSelector::Left));
}

#[test]
fn test_page_context() {
    let ctx = PageContext::new(1, 10);
    assert_eq!(ctx.page_number, 1);
    assert!(ctx.is_first);
    assert!(!ctx.is_left);

    let ctx2 = PageContext::new(2, 10);
    assert!(ctx2.is_left);
}

#[test]
fn test_page_size_default() {
    let size = PageSize::default();
    assert!(f32::from_bits(size.width.0) > 0.0);
    assert!(f32::from_bits(size.height.0) > 0.0);
}

#[test]
fn test_running_strings() {
    let mut ctx = PageContext::new(1, 10);
    ctx.set_running_string("header", "Document Title");

    assert_eq!(ctx.get_running_string("header"), Some("Document Title"));
    assert_eq!(ctx.get_running_string("footer"), None);
}

#[test]
fn running_strings_are_replaced_by_name() {
    let mut ctx = PageContext::new(3, 4);
    ctx.set_running_string("a", "1");
    ctx.set_running_string("b", "2");
    ctx.set_running_string("a", "3");
    assert_eq!(ctx.get_running_string("a"), Some("3"));
    assert_eq!(ctx.get_running_string("b"), Some("2"));
    assert_eq!(ctx.running_strings.len(), 2);
}

#[test]
fn selectors_match_pages() {
    let mut ctx = PageContext::new(4, 9);
    ctx.is_blank = true;
    ctx.named_page = Some("cover".to_string());
    assert_eq!(
        ctx.applicable_selectors(),
        vec![
            PageSelector::Named(String::new()),
            PageSelector::Left,
            PageSelector::Blank,
            PageSelector::Named("cover".to_string())
        ]
    );
    assert!(ctx.matches_selectors(&vec![]));
    assert!(ctx.matches_selectors(&vec![PageSelector::First, PageSelector::Named("cover".to_string())]));
    assert!(!ctx.matches_selectors(&vec![PageSelector::First, PageSelector::Right]));
    assert!(PageContext::new(1, 1).matches_selectors(&vec![PageSelector::Named(String::new())]));
}

#[test]
fn margin_box_text_fills_in_counters_and_strings() {
    let mut ctx = PageContext::new(7, 12);
    ctx.set_running_string("chapter", "Intro");
    let mut content = MarginBoxContent::default();
    content.content = vec![
        MarginContentPart::Text("Page ".to_string()),
        MarginContentPart::PageCounter,
        MarginContentPart::Text(" of ".to_string()),
        MarginContentPart::PagesCounter,
        MarginContentPart::Leader('.'),
        MarginContentPart::StringRef("chapter".to_string()),
        MarginContentPart::StringRef("missing".to_string()),
        MarginContentPart::TargetCounter { selector: "#x".to_string(), counter: "page".to_string() },
    ];
    assert_eq!(content.generate_text(&ctx), "Page 7 of 12.Intro");
    assert_eq!(f32::from_bits(content.font_size.0), 10.0);
}

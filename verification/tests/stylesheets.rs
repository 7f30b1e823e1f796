use pysuals::css::{CssProcessor, CssParser, CssMinifier, ScopedCss, VendorPrefixer};

#[test]
fn process_plain_rule() {
    let mut p = CssProcessor::new();
    assert_eq!(p.process("a { color: red; }", None).unwrap(), "a{color:red;}");
}

#[test]
fn process_adds_vendor_prefix_and_shortens_zero() {
    let mut p = CssProcessor::new();
    let out = p.process("div{transform: rotate(0px)}", None).unwrap();
    assert_eq!(out, "div{-webkit-transform:rotate(0);transform:rotate(0);}");
}

#[test]
fn process_scopes_selectors() {
    let mut p = CssProcessor::new();
    let out = p.process("a, b:hover { color: red }", Some("x1")).unwrap();
    assert_eq!(out, "a[data-pysuals-x1],b:hover[data-pysuals-x1]{color:red;}");
}

#[test]
fn important_and_imports() {
    let parser = CssParser::new();
    let sheet = parser.parse("@import 'base.css' {x:y} p { margin: 0 !important; }").unwrap();
    assert_eq!(sheet.imports, vec!["base.css".to_string()]);
    assert_eq!(sheet.rules.len(), 1);
    assert_eq!(sheet.rules[0].declarations[0].value, "0");
    assert!(sheet.rules[0].declarations[0].important);
}

#[test]
fn empty_block_is_skipped() {
    let parser = CssParser::new();
    let sheet = parser.parse("a{} b{c:d}").unwrap();
    assert_eq!(sheet.rules.len(), 1);
    assert_eq!(sheet.rules[0].selector, "} b");
}

#[test]
fn rgba_with_full_alpha_becomes_rgb() {
    let mut p = CssProcessor::new();
    assert_eq!(p.process("a{color: rgba(1, 2, 3, 1)}", None).unwrap(), "a{color:rgb(1,2,3);}");
}

#[test]
fn comments_are_removed() {
    let m = CssMinifier::new();
    assert_eq!(m.remove_comments("a/* x */b/*"), "ab");
}

#[test]
fn scope_helpers() {
    let mut s = ScopedCss::new();
    assert_eq!(s.generate_scope_id(), "_scope_1");
    assert_eq!(s.generate_scope_id(), "_scope_2");
    assert_eq!(s.scope_keyframes("spin", "s1"), "spin_s1");
    assert_eq!(s.add_data_attribute("p", "s1"), "p[data-pysuals-s1]");
}

#[test]
fn selector_and_declaration_parts() {
    let parser = CssParser::new();
    assert_eq!(parser.parse_selector(" a , b "), vec!["a".to_string(), "b".to_string()]);
    let d = parser.parse_declaration(" color : red ").unwrap();
    assert_eq!((d.property.as_str(), d.value.as_str(), d.important), ("color", "red", false));
    assert!(parser.parse_declaration("a:b:c").is_none());
}

#[test]
fn prefixes() {
    let v = VendorPrefixer::new();
    assert!(v.needs_prefix("appearance"));
    assert!(!v.needs_prefix("display"));
    assert_eq!(v.prefix_keyframes("spin"), vec!["@-webkit-keyframes spin".to_string(), "@keyframes spin".to_string()]);
}

use wikigraph::links::links;

#[test]
fn two_links_with_display_form() {
    let out = links("See [[Rust (programming language)|Rust]] and [[WebAssembly]].");
    assert_eq!(out.len(), 2);
    assert_eq!(out[0], "Rust (programming language)");
    assert_eq!(out[1], "WebAssembly");
}

#[test]
fn plain_link() {
    let out = links("before [[Target]] after");
    assert_eq!(out, vec!["Target".to_string()]);
}

#[test]
fn display_portion_is_discarded() {
    let out = links("[[a|b]]");
    assert_eq!(out, vec!["a".to_string()]);
}

#[test]
fn display_with_extra_pipes() {
    let out = links("[[a|b|c]]");
    assert_eq!(out, vec!["a".to_string()]);
}

#[test]
fn empty_brackets_yield_no_edge() {
    let out = links("x [[]] y");
    assert!(out.is_empty());
}

#[test]
fn unbalanced_brackets_yield_no_edge() {
    assert!(links("[[unclosed").is_empty());
    assert!(links("no ]] open").is_empty());
    assert!(links("[ [not a link] ]").is_empty());
}

#[test]
fn nested_open_brackets_match_inner() {
    let out = links("[[a[[b]]c]]");
    assert_eq!(out, vec!["b".to_string()]);
}

#[test]
fn matches_do_not_overlap_and_keep_order() {
    let out = links("[[one]][[two]] mid [[three|3]]");
    assert_eq!(out, vec!["one".to_string(), "two".to_string(), "three".to_string()]);
}

#[test]
fn no_links_in_plain_text() {
    assert!(links("nothing to see here").is_empty());
}

#[test]
fn multibyte_text_around_links() {
    let out = links("caféé [[cible|visible]] über");
    assert_eq!(out, vec!["cible".to_string()]);
}

#[test]
fn target_casing_and_spacing_kept_verbatim() {
    let out = links("[[  Spaced  Target ]]");
    assert_eq!(out, vec!["  Spaced  Target ".to_string()]);
}

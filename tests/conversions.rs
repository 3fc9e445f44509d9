use doc_converter::latex::{latex_formula_to_mathml, sanitize_latex};
use doc_converter::markdown::{batch_markdown_to_html, markdown_to_html, markdown_to_pdf_html};

fn inclusion_command() -> String {
    ['\\', 'i', 'n', 'c', 'l', 'u', 'd', 'e'].iter().collect()
}

#[test]
fn markdown_empty_gives_empty() {
    assert_eq!(markdown_to_html(""), "");
}

#[test]
fn markdown_heading_and_emphasis() {
    assert_eq!(markdown_to_html("# Hi"), "<h1>Hi</h1>\n");
    assert_eq!(markdown_to_html("Hello *world*"), "<p>Hello <em>world</em></p>\n");
}

#[test]
fn markdown_is_deterministic() {
    let m = "Some `code` and a [link](http://example.com)\n\n- a\n- b\n";
    assert_eq!(markdown_to_html(m), markdown_to_html(m));
}

#[test]
fn styled_page_default_title() {
    let m = "**bold** text";
    let page = markdown_to_pdf_html(m, None);
    assert!(page.contains("<title>Document</title>"));
    assert!(page.contains(&markdown_to_html(m)));
    assert!(page.starts_with("<!DOCTYPE html>\n<html>\n<head>\n    <meta charset=\"UTF-8\">\n"));
    assert!(page.contains("            line-height: 1.6;\n"));
    assert!(page.ends_with("<body>\n<p><strong>bold</strong> text</p>\n\n</body>\n</html>"));
}

#[test]
fn styled_page_title_is_verbatim() {
    let t = "A </title><script>x()</script> & B".to_string();
    let page = markdown_to_pdf_html("text", Some(t.clone()));
    assert!(page.contains(&format!("<title>{}</title>", t)));
    assert!(!page.contains("Document"));
}

#[test]
fn sanitize_is_substring_deletion() {
    assert_eq!(sanitize_latex("\\inputx"), "x");
}

#[test]
fn sanitize_clean_text_only_trims() {
    let s = "  x^2 + \\frac{a}{b}\n\t";
    assert_eq!(sanitize_latex(s), "x^2 + \\frac{a}{b}");
    assert_eq!(sanitize_latex(&sanitize_latex(s)), sanitize_latex(s));
    assert_eq!(sanitize_latex("\u{3000}a b\u{a0}"), "a b");
    assert_eq!(sanitize_latex(""), "");
}

#[test]
fn sanitize_removes_each_command() {
    assert_eq!(sanitize_latex("\\input{a} \\write18 \\openout9"), "{a} 18 9");
    let s = format!("{}{{f}} y", inclusion_command());
    assert_eq!(sanitize_latex(&s), "{f} y");
}

#[test]
fn sanitize_is_a_single_pass() {
    assert_eq!(sanitize_latex("\\inp\\inputut"), "\\input");
}

#[test]
fn mathml_wraps_sanitized_text() {
    let r = latex_formula_to_mathml("  \\input x^2 ").unwrap();
    assert_eq!(
        r,
        "<math xmlns=\"http://www.w3.org/1998/Math/MathML\">\n  <mrow>\n    <mtext>x^2</mtext>\n  </mrow>\n</math>"
    );
    let r = latex_formula_to_mathml("a<b").unwrap();
    assert!(r.contains(&format!("<mtext>{}</mtext>", sanitize_latex("a<b"))));
}

#[test]
fn batch_keeps_order_and_length() {
    let docs = vec!["# One".to_string(), "".to_string(), "two".to_string()];
    let out = batch_markdown_to_html(&docs);
    assert_eq!(out, vec!["<h1>One</h1>\n".to_string(), String::new(), "<p>two</p>\n".to_string()]);
    let expected: Vec<String> = docs.iter().map(|d| markdown_to_html(d)).collect();
    assert_eq!(out, expected);
}

#[test]
fn batch_of_nothing_is_empty() {
    assert!(batch_markdown_to_html(&Vec::new()).is_empty());
}

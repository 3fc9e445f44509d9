//! Markdown rendering through pulldown-cmark, and the styled page around it.
use vstd::prelude::*;
use pulldown_cmark::{html, Parser};
use crate::text::{occurs_at, contains};

verus! {

/// The HTML that pulldown-cmark renders for Markdown text `m`, with no options enabled.
pub uninterp spec fn cmark_html(m: Seq<char>) -> Seq<char>;

/// Relies on `pulldown_cmark::Parser::new` and `pulldown_cmark::html::push_html`:
/// the rendering depends on the text alone, and empty text yields no events, so
/// nothing is written.
#[verifier::external_body]
fn render_cmark(markdown: &str) -> (r: String)
    ensures
        r@ == cmark_html(markdown@),
        markdown@.len() == 0 ==> r@.len() == 0,
{
    let mut out = String::new();
    html::push_html(&mut out, Parser::new(markdown));
    out
}

/// Renders Markdown as an HTML fragment.
pub fn markdown_to_html(markdown: &str) -> (r: String)
    ensures
        r@ == cmark_html(markdown@),
        markdown@.len() == 0 ==> r@ == Seq::<char>::empty(),
{
    render_cmark(markdown)
}

/// Conversion depends on the input alone: equal inputs give equal HTML.
pub proof fn lemma_markdown_deterministic(a: Seq<char>, b: Seq<char>)
    requires
        a == b,
    ensures
        cmark_html(a) == cmark_html(b),
{
}

pub const DOC_HEAD: &'static str = "<!DOCTYPE html>\n<html>\n<head>\n    <meta charset=\"UTF-8\">\n    <title>";

pub const DOC_STYLE: &'static str = "</title>\n    \
    <style>\n        \
    body {\n            \
    font-family: -apple-system, BlinkMacSystemFont, 'Segoe UI', Roboto, sans-serif;\n            \
    line-height: 1\x2e6;\n            \
    max-width: 800px;\n            \
    margin: 40px auto;\n            \
    padding: 20px;\n            \
    color: #333;\n        \
    }\n        \
    h1, h2, h3, h4, h5, h6 {\n            \
    margin-top: 24px;\n            \
    margin-bottom: 16px;\n            \
    font-weight: 600;\n        \
    }\n        \
    code {\n            \
    background: #f6f8fa;\n            \
    padding: 2px 6px;\n            \
    border-radius: 3px;\n            \
    font-family: 'Courier New', monospace;\n        \
    }\n        \
    pre {\n            \
    background: #f6f8fa;\n            \
    padding: 16px;\n            \
    border-radius: 6px;\n            \
    overflow-x: auto;\n        \
    }\n        \
    blockquote {\n            \
    border-left: 4px solid #ddd;\n            \
    padding-left: 16px;\n            \
    color: #666;\n            \
    margin: 16px 0;\n        \
    }\n        \
    table {\n            \
    border-collapse: collapse;\n            \
    width: 100%;\n            \
    margin: 16px 0;\n        \
    }\n        \
    th, td {\n            \
    border: 1px solid #ddd;\n            \
    padding: 8px 12px;\n            \
    text-align: left;\n        \
    }\n        \
    th {\n            \
    background: #f6f8fa;\n        \
    }\n    \
    </style>\n\
    </head>\n\
    <body>\n";

pub const DOC_TAIL: &'static str = "\n</body>\n</html>";

pub const DEFAULT_TITLE: &'static str = "Document";

/// The styled page with `title` in its `<title>` and `body` in its `<body>`.
pub open spec fn styled_page(title: Seq<char>, body: Seq<char>) -> Seq<char> {
    DOC_HEAD@ + title + DOC_STYLE@ + body + DOC_TAIL@
}

/// The title used for the page: the given one, or `Document`.
pub open spec fn title_or_default(title: Option<Seq<char>>) -> Seq<char> {
    match title {
        Some(t) => t,
        None => DEFAULT_TITLE@,
    }
}

/// Renders Markdown into a complete HTML page with an inline style sheet. The title is
/// inserted as given, without escaping.
pub fn markdown_to_pdf_html(markdown: &str, title: Option<String>) -> (r: String)
    ensures
        r@ == styled_page(
            title_or_default(
                match title {
                    Some(t) => Some(t@),
                    None => None,
                },
            ),
            cmark_html(markdown@),
        ),
{
    let body = render_cmark(markdown);
    let mut page = String::from_str(DOC_HEAD);
    match &title {
        Some(t) => page.append(t.as_str()),
        None => page.append(DEFAULT_TITLE),
    }
    page.append(DOC_STYLE);
    page.append(body.as_str());
    page.append(DOC_TAIL);
    page
}

/// Without a title the page names itself `Document` and holds the rendered fragment.
pub proof fn lemma_default_page(m: Seq<char>)
    ensures
        contains(styled_page(title_or_default(None), cmark_html(m)), DEFAULT_TITLE@),
        contains(styled_page(title_or_default(None), cmark_html(m)), cmark_html(m)),
{
    let d = styled_page(DEFAULT_TITLE@, cmark_html(m));
    let i = DOC_HEAD@.len() as int;
    assert(d.subrange(i, i + DEFAULT_TITLE@.len()) =~= DEFAULT_TITLE@);
    assert(occurs_at(d, DEFAULT_TITLE@, i));
    let j = i + DEFAULT_TITLE@.len() + DOC_STYLE@.len();
    assert(d.subrange(j, j + cmark_html(m).len()) =~= cmark_html(m));
    assert(occurs_at(d, cmark_html(m), j));
}

/// A given title stands verbatim where the default would, whatever it holds.
pub proof fn lemma_titled_page(m: Seq<char>, t: Seq<char>)
    ensures
        styled_page(title_or_default(Some(t)), cmark_html(m)).subrange(0, DOC_HEAD@.len() as int)
            == DOC_HEAD@,
        styled_page(title_or_default(Some(t)), cmark_html(m)).subrange(
            DOC_HEAD@.len() as int,
            (DOC_HEAD@.len() + t.len()) as int,
        ) == t,
        styled_page(title_or_default(Some(t)), cmark_html(m)).subrange(
            (DOC_HEAD@.len() + t.len()) as int,
            (DOC_HEAD@.len() + t.len() + DOC_STYLE@.len()) as int,
        ) == DOC_STYLE@,
{
    let d = styled_page(t, cmark_html(m));
    let i = DOC_HEAD@.len() as int;
    assert(d.subrange(0, i) =~= DOC_HEAD@);
    assert(d.subrange(i, i + t.len()) =~= t);
    assert(d.subrange(i + t.len(), i + t.len() + DOC_STYLE@.len()) =~= DOC_STYLE@);
}

/// Renders each document in turn; the results are index-aligned with the inputs.
pub fn batch_markdown_to_html(documents: &Vec<String>) -> (r: Vec<String>)
    ensures
        r@.len() == documents@.len(),
        forall|i: int| 0 <= i < r@.len() ==> #[trigger] r@[i]@ == cmark_html(documents@[i]@),
{
    let mut out: Vec<String> = Vec::new();
    let mut i: usize = 0;
    while i < documents.len()
        invariant
            i <= documents@.len(),
            out@.len() == i,
            forall|k: int| 0 <= k < i ==> #[trigger] out@[k]@ == cmark_html(documents@[k]@),
        decreases documents@.len() - i,
    {
        out.push(markdown_to_html(documents[i].as_str()));
        i = i + 1;
    }
    out
}

} // verus!

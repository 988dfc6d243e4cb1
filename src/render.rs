//! Rendering an entry's content by its extension: Markdown and Org mode are
//! converted to HTML, HTML is passed through, anything else is served raw
//! with a content type guessed from the extension.
use vstd::prelude::*;
use crate::names::{markup_kind, markup_kind_of, MarkupKind};

verus! {

/// The text that lossy UTF-8 decoding makes of some bytes.
pub uninterp spec fn utf8_lossy(b: Seq<u8>) -> Seq<char>;

/// The HTML that comrak's default Markdown renderer makes of a text.
pub uninterp spec fn markdown_html(s: Seq<char>) -> Seq<char>;

/// The HTML that orgize's default HTML export makes of an Org document.
pub uninterp spec fn org_html(s: Seq<char>) -> Seq<char>;

/// The content type that the standard extension table gives an extension,
/// `text/plain` where it gives none.
pub uninterp spec fn mime_for_extension(ext: Seq<char>) -> Seq<char>;

/// Relies on String::from_utf8_lossy: invalid sequences are replaced, the
/// result depends on the bytes alone, and no bytes give an empty text.
#[verifier::external_body]
fn decode_lossy(b: &Vec<u8>) -> (r: String)
    ensures
        r@ == utf8_lossy(b@),
        b@.len() == 0 ==> r@.len() == 0,
{
    String::from_utf8_lossy(b.as_slice()).into_owned()
}

/// Relies on comrak::markdown_to_html with default options.
#[verifier::external_body]
fn markdown_to_html(s: &str) -> (r: String)
    ensures
        r@ == markdown_html(s@),
{
    comrak::markdown_to_html(s, &comrak::Options::default())
}

/// Relies on orgize::Org::parse and Org::write_html into a byte buffer: the
/// default HTML export of the document. Writing to a `Vec` cannot fail, and
/// the handler writes UTF-8 text only.
#[verifier::external_body]
fn org_to_html(s: &str) -> (r: String)
    ensures
        r@ == org_html(s@),
{
    let mut out: Vec<u8> = Vec::new();
    let _ = orgize::Org::parse(s).write_html(&mut out);
    String::from_utf8_lossy(&out).into_owned()
}

/// Relies on mime_guess::from_ext and MimeGuess::first_or_text_plain: the
/// first content type listed for the extension, `text/plain` where none is
/// listed; an empty extension has none listed.
#[verifier::external_body]
fn guess_content_type(ext: &str) -> (r: String)
    ensures
        r@ == mime_for_extension(ext@),
        ext@.len() == 0 ==> r@ == "text/plain"@,
{
    mime_guess::from_ext(ext).first_or_text_plain().to_string()
}

/// Relies on mime::TEXT_HTML_UTF_8, whose text is `text/html; charset=utf-8`.
#[verifier::external_body]
fn html_utf8() -> (r: String)
    ensures
        r@ == "text/html; charset=utf-8"@,
{
    mime::TEXT_HTML_UTF_8.to_string()
}

/// A rendered entry.
#[derive(Clone, Debug, PartialEq, Eq)]
pub enum Rendered {
    /// An HTML document, served as `text/html; charset=utf-8`.
    Html(String),
    /// Raw bytes, served with the given content type.
    Raw(Vec<u8>, String),
}

/// The mathematical value of a rendered entry.
pub enum RenderedView {
    Html(Seq<char>),
    Raw(Seq<u8>, Seq<char>),
}

impl View for Rendered {
    type V = RenderedView;

    open spec fn view(&self) -> RenderedView {
        match self {
            Rendered::Html(s) => RenderedView::Html(s@),
            Rendered::Raw(b, t) => RenderedView::Raw(b@, t@),
        }
    }
}

/// What an entry with content `b` and extension `ext` renders to.
pub open spec fn render_spec(b: Seq<u8>, ext: Seq<char>) -> RenderedView {
    match markup_kind_of(ext) {
        MarkupKind::Markdown => RenderedView::Html(markdown_html(utf8_lossy(b))),
        MarkupKind::Org => RenderedView::Html(org_html(utf8_lossy(b))),
        MarkupKind::HtmlPassthrough => RenderedView::Html(utf8_lossy(b)),
        MarkupKind::Other => RenderedView::Raw(b, mime_for_extension(ext)),
    }
}

/// The content type that a rendered entry is served with.
pub open spec fn content_type_of(r: RenderedView) -> Seq<char> {
    match r {
        RenderedView::Html(_) => "text/html; charset=utf-8"@,
        RenderedView::Raw(_, t) => t,
    }
}

/// Renders an entry's content by its extension (see `render_spec`).
pub fn render(bytes: Vec<u8>, ext: &str) -> (r: Rendered)
    ensures
        r@ == render_spec(bytes@, ext@),
{
    match markup_kind(ext) {
        MarkupKind::Markdown => Rendered::Html(markdown_to_html(decode_lossy(&bytes).as_str())),
        MarkupKind::Org => Rendered::Html(org_to_html(decode_lossy(&bytes).as_str())),
        MarkupKind::HtmlPassthrough => Rendered::Html(decode_lossy(&bytes)),
        MarkupKind::Other => {
            let t = guess_content_type(ext);
            Rendered::Raw(bytes, t)
        },
    }
}

impl Rendered {
    /// The content type this is served with.
    pub fn content_type(&self) -> (r: String)
        ensures
            r@ == content_type_of(self@),
    {
        match self {
            Rendered::Html(_) => html_utf8(),
            Rendered::Raw(_, t) => t.clone(),
        }
    }
}

} // verus!

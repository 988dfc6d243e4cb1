//! Answering a request: resolve the requested path against the archive,
//! read the matched entry and render it.
use vstd::prelude::*;
use crate::archive::{first_present, resolve_in, Archive};
use crate::names::{
    candidate_names, dot_htm, dot_html, dot_md, dot_org, extension, extension_of, final_segment,
    lemma_extension_of_html, lemma_extension_of_md, markup_kind_of, MarkupKind,
};
use crate::render::{
    markdown_html, mime_for_extension, render, render_spec, utf8_lossy, Rendered, RenderedView,
};

verus! {

/// The answer to a request.
#[derive(Clone, Debug, PartialEq, Eq)]
pub enum Reply {
    /// An entry matched and was rendered (a success response).
    Found(Rendered),
    /// No candidate name matched an entry (a "not found" response with an
    /// empty body).
    NotFound,
    /// An entry matched but its content could not be read (a server error).
    Unreadable,
}

/// The mathematical value of a reply.
pub enum ReplyView {
    Found(RenderedView),
    NotFound,
    Unreadable,
}

impl View for Reply {
    type V = ReplyView;

    open spec fn view(&self) -> ReplyView {
        match self {
            Reply::Found(r) => ReplyView::Found(r@),
            Reply::NotFound => ReplyView::NotFound,
            Reply::Unreadable => ReplyView::Unreadable,
        }
    }
}

/// The reply to a request for `p` from an archive with these entries.
pub open spec fn dispatch_spec(entries: Map<Seq<char>, Option<Seq<u8>>>, p: Seq<char>) -> ReplyView {
    match resolve_in(entries.dom(), p) {
        None => ReplyView::NotFound,
        Some(n) => match entries[n] {
            None => ReplyView::Unreadable,
            Some(b) => ReplyView::Found(render_spec(b, extension_of(n))),
        },
    }
}

/// Answers a request for `path`. The reply depends on the archive's entries
/// and the path alone, and the entries are left as they were, so the same
/// request against the same archive gets the same reply.
pub fn dispatch(archive: &mut Archive, path: &str) -> (r: Reply)
    ensures
        final(archive).entries() == old(archive).entries(),
        r@ == dispatch_spec(old(archive).entries(), path@),
{
    match archive.resolve(path) {
        None => Reply::NotFound,
        Some(name) => match archive.read(name.as_str()) {
            None => Reply::Unreadable,
            Some(bytes) => {
                let ext = extension(name.as_str());
                Reply::Found(render(bytes, ext.as_str()))
            },
        },
    }
}

/// Where none of the candidate names of `p` is an entry, the request for
/// `p` is answered "not found".
pub proof fn lemma_no_candidate_not_found(entries: Map<Seq<char>, Option<Seq<u8>>>, p: Seq<char>)
    requires
        forall|i: int| 0 <= i < 5 ==> !entries.dom().contains(#[trigger] candidate_names(p)[i]),
    ensures
        dispatch_spec(entries, p) == ReplyView::NotFound,
{
    reveal_with_fuel(first_present, 6);
    let cs = candidate_names(p);
    assert(!entries.dom().contains(cs[0]));
    assert(!entries.dom().contains(cs[1]));
    assert(!entries.dom().contains(cs[2]));
    assert(!entries.dom().contains(cs[3]));
    assert(!entries.dom().contains(cs[4]));
}

/// A literal match wins: where `p` itself names an entry, the request for
/// `p` resolves to that entry, whatever suffixed names are present too.
pub proof fn lemma_literal_match_first(names: Set<Seq<char>>, p: Seq<char>)
    requires
        names.contains(p),
    ensures
        resolve_in(names, p) == Some(p),
{
}

/// Where `p` names no entry and `p.md` does, the request for `p` is
/// answered with the Markdown rendering of that entry's text.
pub proof fn lemma_markdown_by_suffix(entries: Map<Seq<char>, Option<Seq<u8>>>, p: Seq<char>, b: Seq<u8>)
    requires
        final_segment(p).len() > 0,
        !entries.dom().contains(p),
        entries.dom().contains(p + dot_md()),
        entries[p + dot_md()] == Some(b),
    ensures
        dispatch_spec(entries, p) == ReplyView::Found(RenderedView::Html(markdown_html(utf8_lossy(b)))),
{
    reveal_with_fuel(first_present, 2);
    assert(candidate_names(p).drop_first()[0] == p + dot_md());
    lemma_extension_of_md(p);
}

/// Where `p` names no entry, nor do `p.md`, `p.org` and `p.htm`, and
/// `p.html` does, the request for `p` is answered with that entry's text as
/// it is.
pub proof fn lemma_html_by_suffix(entries: Map<Seq<char>, Option<Seq<u8>>>, p: Seq<char>, b: Seq<u8>)
    requires
        final_segment(p).len() > 0,
        !entries.dom().contains(p),
        !entries.dom().contains(p + dot_md()),
        !entries.dom().contains(p + dot_org()),
        !entries.dom().contains(p + dot_htm()),
        entries.dom().contains(p + dot_html()),
        entries[p + dot_html()] == Some(b),
    ensures
        dispatch_spec(entries, p) == ReplyView::Found(RenderedView::Html(utf8_lossy(b))),
{
    reveal_with_fuel(first_present, 5);
    let cs = candidate_names(p);
    assert(cs.drop_first()[0] == p + dot_md());
    assert(cs.drop_first().drop_first()[0] == p + dot_org());
    assert(cs.drop_first().drop_first().drop_first()[0] == p + dot_htm());
    assert(cs.drop_first().drop_first().drop_first().drop_first()[0] == p + dot_html());
    lemma_extension_of_html(p);
}

/// An entry that is not markup is served byte for byte: where `p` itself
/// names a readable entry whose extension is none of `md`, `org`, `htm` and
/// `html`, the reply holds the entry's bytes unchanged, with the content type
/// of its extension.
pub proof fn lemma_raw_round_trip(entries: Map<Seq<char>, Option<Seq<u8>>>, p: Seq<char>, b: Seq<u8>)
    requires
        entries.dom().contains(p),
        entries[p] == Some(b),
        markup_kind_of(extension_of(p)) == MarkupKind::Other,
    ensures
        dispatch_spec(entries, p) == ReplyView::Found(RenderedView::Raw(b, mime_for_extension(extension_of(p)))),
{
}

} // verus!

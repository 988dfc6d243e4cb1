//! Candidate entry names for a requested path, and the classification of an
//! entry by its file extension.
use vstd::prelude::*;
use vstd::string::*;

verus! {

/// The index of the last occurrence of `c` in `s`, or -1 where there is none.
pub open spec fn last_index_of(s: Seq<char>, c: char) -> int
    decreases s.len(),
{
    if s.len() == 0 {
        -1
    } else if s.last() == c {
        s.len() - 1
    } else {
        last_index_of(s.drop_last(), c)
    }
}

/// The last segment of a slash-separated name.
pub open spec fn final_segment(name: Seq<char>) -> Seq<char> {
    name.subrange(last_index_of(name, '/') + 1, name.len() as int)
}

/// The extension of an entry name: what follows the last dot of its final
/// segment, where that dot is not the segment's first character; empty
/// otherwise. No case folding takes place.
pub open spec fn extension_of(name: Seq<char>) -> Seq<char> {
    let seg = final_segment(name);
    let d = last_index_of(seg, '.');
    if d > 0 {
        seg.subrange(d + 1, seg.len() as int)
    } else {
        Seq::empty()
    }
}

pub open spec fn dot_md() -> Seq<char> {
    seq!['.', 'm', 'd']
}

pub open spec fn dot_org() -> Seq<char> {
    seq!['.', 'o', 'r', 'g']
}

pub open spec fn dot_htm() -> Seq<char> {
    seq!['.', 'h', 't', 'm']
}

pub open spec fn dot_html() -> Seq<char> {
    seq!['.', 'h', 't', 'm', 'l']
}

/// The entry names tried for a requested path, in order of priority: the
/// path itself, then the path with each markup suffix appended.
pub open spec fn candidate_names(p: Seq<char>) -> Seq<Seq<char>> {
    seq![p, p + dot_md(), p + dot_org(), p + dot_htm(), p + dot_html()]
}

/// How the content of an entry is turned into a response body.
#[derive(Clone, Copy, Debug, PartialEq, Eq, Structural)]
pub enum MarkupKind {
    /// Markdown, converted to HTML.
    Markdown,
    /// Org mode, converted to HTML.
    Org,
    /// HTML already, served as it is.
    HtmlPassthrough,
    /// Anything else, served as raw bytes.
    Other,
}

/// The markup kind of an extension, matched exactly (case-sensitively).
pub open spec fn markup_kind_of(ext: Seq<char>) -> MarkupKind {
    if ext == seq!['m', 'd'] {
        MarkupKind::Markdown
    } else if ext == seq!['o', 'r', 'g'] {
        MarkupKind::Org
    } else if ext == seq!['h', 't', 'm'] || ext == seq!['h', 't', 'm', 'l'] {
        MarkupKind::HtmlPassthrough
    } else {
        MarkupKind::Other
    }
}

proof fn lemma_last_index_bounds(s: Seq<char>, c: char)
    ensures
        -1 <= last_index_of(s, c) < s.len(),
        last_index_of(s, c) >= 0 ==> s[last_index_of(s, c)] == c,
    decreases s.len(),
{
    if s.len() > 0 && s.last() != c {
        lemma_last_index_bounds(s.drop_last(), c);
    }
}

/// Where `s` has no `c` from `i` on, its last `c` is that of `s[..i]`.
proof fn lemma_last_index_prefix(s: Seq<char>, c: char, i: int)
    requires
        0 <= i <= s.len(),
        forall|j: int| i <= j < s.len() ==> s[j] != c,
    ensures
        last_index_of(s, c) == last_index_of(s.subrange(0, i), c),
    decreases s.len(),
{
    if i == s.len() {
        assert(s.subrange(0, i) =~= s);
    } else {
        lemma_last_index_prefix(s.drop_last(), c, i);
        assert(s.drop_last().subrange(0, i) =~= s.subrange(0, i));
    }
}

/// The last `c` of `s + t` lies in `t` where `t` has one, else in `s`.
proof fn lemma_last_index_concat(s: Seq<char>, t: Seq<char>, c: char)
    ensures
        last_index_of(s + t, c) == if last_index_of(t, c) >= 0 {
            s.len() + last_index_of(t, c)
        } else {
            last_index_of(s, c)
        },
    decreases t.len(),
{
    if t.len() == 0 {
        assert(s + t =~= s);
    } else {
        assert((s + t).drop_last() =~= s + t.drop_last());
        lemma_last_index_concat(s, t.drop_last(), c);
    }
}

/// Appending `.md` to a path whose last segment is not empty gives a name
/// with the extension `md`.
pub proof fn lemma_extension_of_md(p: Seq<char>)
    requires
        final_segment(p).len() > 0,
    ensures
        extension_of(p + dot_md()) == seq!['m', 'd'],
{
    let q = p + dot_md();
    lemma_last_index_concat(p, dot_md(), '/');
    assert(last_index_of(dot_md(), '/') == -1) by {
        reveal_with_fuel(last_index_of, 4);
    }
    lemma_last_index_bounds(p, '/');
    assert(final_segment(q) =~= final_segment(p) + dot_md());
    lemma_last_index_concat(final_segment(p), dot_md(), '.');
    assert(last_index_of(dot_md(), '.') == 0) by {
        reveal_with_fuel(last_index_of, 4);
    }
    let seg = final_segment(q);
    assert(seg.subrange(final_segment(p).len() + 1int, seg.len() as int) =~= seq!['m', 'd']);
}

/// Appending `.html` to a path whose last segment is not empty gives a name
/// with the extension `html`.
pub proof fn lemma_extension_of_html(p: Seq<char>)
    requires
        final_segment(p).len() > 0,
    ensures
        extension_of(p + dot_html()) == seq!['h', 't', 'm', 'l'],
{
    let q = p + dot_html();
    lemma_last_index_concat(p, dot_html(), '/');
    assert(last_index_of(dot_html(), '/') == -1) by {
        reveal_with_fuel(last_index_of, 6);
    }
    lemma_last_index_bounds(p, '/');
    assert(final_segment(q) =~= final_segment(p) + dot_html());
    lemma_last_index_concat(final_segment(p), dot_html(), '.');
    assert(last_index_of(dot_html(), '.') == 0) by {
        reveal_with_fuel(last_index_of, 6);
    }
    let seg = final_segment(q);
    assert(seg.subrange(final_segment(p).len() + 1int, seg.len() as int) =~= seq!['h', 't', 'm', 'l']);
}

/// The position of the last `c` in `s`.
fn find_last(s: &str, c: char) -> (r: Option<usize>)
    ensures
        match r {
            Some(i) => i as int == last_index_of(s@, c),
            None => last_index_of(s@, c) == -1,
        },
{
    let n = s.unicode_len();
    let mut i: usize = n;
    while i > 0
        invariant
            i <= n,
            n == s@.len(),
            forall|j: int| i <= j < n ==> s@[j] != c,
        decreases i,
    {
        if s.get_char(i - 1) == c {
            proof {
                lemma_last_index_prefix(s@, c, i as int);
            }
            return Some(i - 1);
        }
        i = i - 1;
    }
    proof {
        lemma_last_index_prefix(s@, c, 0);
    }
    None
}

/// The extension of an entry name (see `extension_of`).
pub fn extension(name: &str) -> (r: String)
    ensures
        r@ == extension_of(name@),
{
    let n = name.unicode_len();
    proof {
        lemma_last_index_bounds(name@, '/');
    }
    let start: usize = match find_last(name, '/') {
        Some(i) => i + 1,
        None => 0,
    };
    let seg = name.substring_char(start, n);
    assert(seg@ == final_segment(name@));
    proof {
        lemma_last_index_bounds(seg@, '.');
    }
    match find_last(seg, '.') {
        Some(d) if d > 0 => {
            let e = seg.substring_char(d + 1, seg.unicode_len());
            e.to_string()
        },
        _ => String::new(),
    }
}

/// The candidate entry names for a requested path (see `candidate_names`).
pub fn candidates(path: &str) -> (r: Vec<String>)
    ensures
        r@.len() == 5,
        forall|i: int| 0 <= i < 5 ==> #[trigger] r@[i]@ == candidate_names(path@)[i],
{
    proof {
        reveal_strlit(".md");
        reveal_strlit(".org");
        reveal_strlit(".htm");
        reveal_strlit(".html");
        assert(".md"@ =~= dot_md());
        assert(".org"@ =~= dot_org());
        assert(".htm"@ =~= dot_htm());
        assert(".html"@ =~= dot_html());
    }
    let mut r: Vec<String> = Vec::new();
    r.push(path.to_string());
    r.push(String::from_str(path).concat(".md"));
    r.push(String::from_str(path).concat(".org"));
    r.push(String::from_str(path).concat(".htm"));
    r.push(String::from_str(path).concat(".html"));
    r
}

/// Whether two strings hold the same characters.
fn same_text(a: &str, b: &str) -> (r: bool)
    ensures
        r == (a@ == b@),
{
    let n = a.unicode_len();
    if n != b.unicode_len() {
        return false;
    }
    let mut i: usize = 0;
    while i < n
        invariant
            i <= n,
            n == a@.len(),
            n == b@.len(),
            forall|j: int| 0 <= j < i ==> a@[j] == b@[j],
        decreases n - i,
    {
        if a.get_char(i) != b.get_char(i) {
            return false;
        }
        i = i + 1;
    }
    assert(a@ =~= b@);
    true
}

/// The markup kind of an extension (see `markup_kind_of`).
pub fn markup_kind(ext: &str) -> (r: MarkupKind)
    ensures
        r == markup_kind_of(ext@),
{
    proof {
        reveal_strlit("md");
        reveal_strlit("org");
        reveal_strlit("htm");
        reveal_strlit("html");
    }
    if same_text(ext, "md") {
        assert("md"@ =~= seq!['m', 'd']);
        MarkupKind::Markdown
    } else if same_text(ext, "org") {
        assert("org"@ =~= seq!['o', 'r', 'g']);
        MarkupKind::Org
    } else if same_text(ext, "htm") || same_text(ext, "html") {
        assert("htm"@ =~= seq!['h', 't', 'm']);
        assert("html"@ =~= seq!['h', 't', 'm', 'l']);
        MarkupKind::HtmlPassthrough
    } else {
        assert("md"@ =~= seq!['m', 'd']);
        assert("org"@ =~= seq!['o', 'r', 'g']);
        assert("htm"@ =~= seq!['h', 't', 'm']);
        assert("html"@ =~= seq!['h', 't', 'm', 'l']);
        MarkupKind::Other
    }
}

} // verus!

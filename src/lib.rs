//! A content server's core: resolving a requested logical path against the
//! entries of a zip archive, and rendering the matched entry as an HTTP
//! reply.
//!
//! A request for `p` tries the entry names `p`, `p.md`, `p.org`, `p.htm` and
//! `p.html`, in that order; the first that names an entry wins, so a literal
//! match takes priority over a suffixed one. Extensions are matched exactly:
//! `README.MD` is not Markdown.
pub mod names;
pub mod archive;
pub mod render;
pub mod dispatch;

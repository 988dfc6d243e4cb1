use std::io::Write;

use zb::archive::{Archive, ArchiveError};
use zb::dispatch::{dispatch, Reply};
use zb::names::{candidates, extension, markup_kind, MarkupKind};
use zb::render::{render, Rendered};

fn zip_bytes(entries: &[(&str, &[u8])]) -> Vec<u8> {
    let mut w = zip::ZipWriter::new(std::io::Cursor::new(Vec::new()));
    let opts = zip::write::SimpleFileOptions::default()
        .compression_method(zip::CompressionMethod::Stored);
    for (name, content) in entries {
        w.start_file(*name, opts).unwrap();
        w.write_all(content).unwrap();
    }
    w.finish().unwrap().into_inner()
}

fn archive(entries: &[(&str, &[u8])]) -> Archive {
    Archive::open(zip_bytes(entries)).unwrap()
}

#[test]
fn extension_of_plain_names() {
    assert_eq!(extension("logo.png"), "png");
    assert_eq!(extension("notes.md"), "md");
    assert_eq!(extension("a/b.tar.gz"), "gz");
    assert_eq!(extension("README.MD"), "MD");
}

#[test]
fn extension_absent() {
    assert_eq!(extension("readme"), "");
    assert_eq!(extension(".bashrc"), "");
    assert_eq!(extension("dir.v2/readme"), "");
    assert_eq!(extension("trailing."), "");
    assert_eq!(extension(""), "");
}

#[test]
fn candidate_order() {
    assert_eq!(
        candidates("notes"),
        vec!["notes", "notes.md", "notes.org", "notes.htm", "notes.html"]
    );
}

#[test]
fn markup_kinds() {
    assert_eq!(markup_kind("md"), MarkupKind::Markdown);
    assert_eq!(markup_kind("org"), MarkupKind::Org);
    assert_eq!(markup_kind("htm"), MarkupKind::HtmlPassthrough);
    assert_eq!(markup_kind("html"), MarkupKind::HtmlPassthrough);
    assert_eq!(markup_kind("png"), MarkupKind::Other);
    assert_eq!(markup_kind(""), MarkupKind::Other);
    assert_eq!(markup_kind("MD"), MarkupKind::Other);
}

#[test]
fn open_refuses_non_archive() {
    let r = Archive::open(b"#!/bin/sh\necho not a zip\n".to_vec());
    assert!(matches!(r, Err(ArchiveError::NotAnArchive)));
    assert!(matches!(Archive::open(Vec::new()), Err(ArchiveError::NotAnArchive)));
}

#[test]
fn open_accepts_archive_after_other_bytes() {
    let mut bytes = b"\x7fELF pretend executable sections".to_vec();
    bytes.extend(zip_bytes(&[("index.md", b"# Home")]));
    let mut a = Archive::open(bytes).unwrap();
    assert!(a.contains("index.md"));
    assert_eq!(a.read("index.md"), Some(b"# Home".to_vec()));
}

#[test]
fn missing_path_is_not_found() {
    let mut a = archive(&[("notes.md", b"x"), ("logo.png", b"y")]);
    assert_eq!(dispatch(&mut a, "missing"), Reply::NotFound);
    assert_eq!(dispatch(&mut a, "notes.txt"), Reply::NotFound);
    assert_eq!(dispatch(&mut a, "logo"), Reply::NotFound);
    assert_eq!(dispatch(&mut archive(&[]), "index"), Reply::NotFound);
}

#[test]
fn markdown_entry_by_suffix() {
    let src = "# Notes\n\nSome *text*.\n";
    let mut a = archive(&[("notes.md", src.as_bytes())]);
    let expected = comrak::markdown_to_html(src, &comrak::Options::default());
    assert!(expected.contains("<h1>"));
    let r = dispatch(&mut a, "notes");
    assert_eq!(r, Reply::Found(Rendered::Html(expected)));
    if let Reply::Found(rendered) = r {
        assert_eq!(rendered.content_type(), "text/html; charset=utf-8");
    }
}

#[test]
fn html_entry_passed_through() {
    let src = "<p>About <b>us</b></p>";
    let mut a = archive(&[("about.html", src.as_bytes())]);
    let r = dispatch(&mut a, "about");
    assert_eq!(r, Reply::Found(Rendered::Html(src.to_string())));
    let mut b = archive(&[("about.htm", src.as_bytes())]);
    assert_eq!(dispatch(&mut b, "about"), Reply::Found(Rendered::Html(src.to_string())));
}

#[test]
fn raw_entry_round_trip() {
    let png: &[u8] = &[0x89, b'P', b'N', b'G', 0, 0xff, 0xfe, 13, 10];
    let mut a = archive(&[("logo.png", png)]);
    let r = dispatch(&mut a, "logo.png");
    assert_eq!(r, Reply::Found(Rendered::Raw(png.to_vec(), "image/png".to_string())));
    if let Reply::Found(rendered) = r {
        assert_eq!(rendered.content_type(), "image/png");
    }
}

#[test]
fn org_entry_rendered() {
    let src = "* Todo\nBuy milk.\n";
    let mut a = archive(&[("todo.org", src.as_bytes())]);
    let mut out = Vec::new();
    orgize::Org::parse(src).write_html(&mut out).unwrap();
    let expected = String::from_utf8(out).unwrap();
    assert!(expected.contains("Todo"));
    assert_eq!(dispatch(&mut a, "todo"), Reply::Found(Rendered::Html(expected)));
}

#[test]
fn literal_match_takes_priority() {
    let mut a = archive(&[("x.md", b"# suffixed"), ("x", b"literal")]);
    assert_eq!(a.resolve("x"), Some("x".to_string()));
    let r = dispatch(&mut a, "x");
    assert_eq!(r, Reply::Found(Rendered::Raw(b"literal".to_vec(), "text/plain".to_string())));
}

#[test]
fn earlier_suffix_takes_priority() {
    let a = archive(&[("p.html", b"<p>h</p>"), ("p.org", b"* o"), ("p.md", b"m")]);
    assert_eq!(a.resolve("p"), Some("p.md".to_string()));
    let b = archive(&[("p.html", b"<p>h</p>"), ("p.htm", b"<p>h</p>")]);
    assert_eq!(b.resolve("p"), Some("p.htm".to_string()));
}

#[test]
fn same_request_twice_same_reply() {
    let mut a = archive(&[("index.md", b"# Home\n"), ("data.bin", &[1, 2, 3])]);
    let first = dispatch(&mut a, "index");
    let second = dispatch(&mut a, "index");
    assert_eq!(first, second);
    assert_eq!(dispatch(&mut a, "data.bin"), dispatch(&mut a, "data.bin"));
    assert_eq!(dispatch(&mut a, "nothing"), dispatch(&mut a, "nothing"));
}

#[test]
fn unknown_extension_is_plain_text() {
    assert_eq!(
        render(b"abc".to_vec(), "zzqx"),
        Rendered::Raw(b"abc".to_vec(), "text/plain".to_string())
    );
    assert_eq!(
        render(b"abc".to_vec(), ""),
        Rendered::Raw(b"abc".to_vec(), "text/plain".to_string())
    );
    assert_eq!(
        render(b"{}".to_vec(), "json"),
        Rendered::Raw(b"{}".to_vec(), "application/json".to_string())
    );
}

#[test]
fn upper_case_markdown_served_raw() {
    let mut a = archive(&[("README.MD", b"# Title")]);
    let r = dispatch(&mut a, "README.MD");
    assert!(matches!(r, Reply::Found(Rendered::Raw(ref b, _)) if b == b"# Title"));
}

#[test]
fn invalid_utf8_decoded_lossily() {
    let r = render(vec![b'<', b'p', b'>', 0xff, b'<', b'/', b'p', b'>'], "html");
    assert_eq!(r, Rendered::Html("<p>\u{fffd}</p>".to_string()));
}

#[test]
fn corrupt_entry_is_unreadable() {
    let mut bytes = zip_bytes(&[("page.html", b"hello world, this is a page")]);
    let at = bytes.windows(5).position(|w| w == b"hello").unwrap();
    bytes[at] = b'J';
    let mut a = Archive::open(bytes).unwrap();
    assert!(a.contains("page.html"));
    assert_eq!(a.read("page.html"), None);
    assert_eq!(dispatch(&mut a, "page"), Reply::Unreadable);
}

#[test]
fn read_missing_entry() {
    let mut a = archive(&[("a.txt", b"a")]);
    assert!(!a.contains("b.txt"));
    assert_eq!(a.read("b.txt"), None);
    assert_eq!(a.read("a.txt"), Some(b"a".to_vec()));
}

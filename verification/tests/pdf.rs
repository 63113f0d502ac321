use canvas_pdf::pdf::{render_pdf, Refs};
use pdf_writer::Rect;

fn contains(haystack: &[u8], needle: &[u8]) -> bool {
    haystack.windows(needle.len()).any(|w| w == needle)
}

#[test]
fn object_numbers() {
    let r = Refs::new();
    assert_eq!((r.catalog, r.page_tree, r.page, r.content, r.font), (1, 2, 3, 4, 5));
}

#[test]
fn document_has_header_and_end_marker() {
    let bytes = render_pdf(Rect::new(0.0, 0.0, 595.28, 841.89), b"1 j\n1 J\n").unwrap();
    assert!(bytes.starts_with(b"%PDF-1.7\n%\x80\x80\x80\x80\n\n"));
    assert!(bytes.ends_with(b"\n%%EOF"));
}

#[test]
fn document_holds_page_font_and_content() {
    let content = b"1 j\n1 J\nq\n0 0 0 RG\n1.000 w\n0.000 0.000 m\n1.000 1.000 l\nS\nQ\n";
    let bytes = render_pdf(Rect::new(0.0, 0.0, 612.0, 792.0), content).unwrap();
    assert!(contains(&bytes, b"1 0 obj"));
    assert!(contains(&bytes, b"/Type /Catalog"));
    assert!(contains(&bytes, b"/Pages 2 0 R"));
    assert!(contains(&bytes, b"/Kids [3 0 R]"));
    assert!(contains(&bytes, b"/Count 1"));
    assert!(contains(&bytes, b"/MediaBox [0 0 612 792]"));
    assert!(contains(&bytes, b"/Parent 2 0 R"));
    assert!(contains(&bytes, b"/Contents 4 0 R"));
    assert!(contains(&bytes, b"/F1 5 0 R"));
    assert!(contains(&bytes, b"/BaseFont /Helvetica"));
    assert!(contains(&bytes, content));
    assert!(contains(&bytes, format!("/Length {}", content.len()).as_bytes()));
    assert!(contains(&bytes, b"xref\n0 6\n"));
}

#[test]
fn same_page_and_content_give_the_same_file() {
    let a = render_pdf(Rect::new(0.0, 0.0, 100.5, 200.25), b"x").unwrap();
    let b = render_pdf(Rect::new(0.0, 0.0, 100.5, 200.25), b"x").unwrap();
    assert_eq!(a, b);
    assert!(contains(&a, b"/MediaBox [0 0 100.5 200.25]"));
}

#[test]
fn unwritable_media_box_is_refused() {
    assert!(render_pdf(Rect::new(0.0, 0.0, -2147483648.0, 10.0), b"").is_none());
    assert!(render_pdf(Rect::new(-2147483648.0, 0.0, 1.0, 10.0), b"").is_none());
    assert!(render_pdf(Rect::new(0.0, 0.0, -2147483520.0, 10.0), b"").is_some());
}

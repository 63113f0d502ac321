use canvas_pdf::content::{
    closed_path_ops, content_prelude, content_stream, escape_pdf_text, font_resource, pdf_shape, push_circle_ops,
    push_line_ops, push_textbox_ops, CubicCurve, DrawItem, PathPoint, PdfShape, RectText, RgbText,
};

fn p(x: &str, y: &str) -> PathPoint {
    PathPoint { x: x.to_string(), y: y.to_string() }
}

/// Reads a PDF literal string body back: a backslash quotes the next character.
fn unescape(s: &str) -> String {
    let mut out = String::new();
    let mut chars = s.chars();
    while let Some(c) = chars.next() {
        if c == '\\' {
            if let Some(d) = chars.next() {
                out.push(d);
            }
        } else {
            out.push(c);
        }
    }
    out
}

#[test]
fn escaping_quotes_backslashes_and_parentheses() {
    assert_eq!(escape_pdf_text("a(b)c\\d"), "a\\(b\\)c\\\\d");
    assert_eq!(escape_pdf_text(""), "");
    assert_eq!(escape_pdf_text("plain text"), "plain text");
    assert_eq!(escape_pdf_text("\\("), "\\\\\\(");
}

#[test]
fn escaping_matches_successive_replacements() {
    for text in ["x", "((", "))\\", "\\\\(a)", "año (ñ) \\ ü", "€)"] {
        let expected = text.replace('\\', "\\\\").replace('(', "\\(").replace(')', "\\)");
        assert_eq!(escape_pdf_text(text), expected);
    }
}

#[test]
fn escaped_text_reads_back() {
    for text in ["", "a(b)c", "\\)\\(", "(((", "mixed ñ \\ text)"] {
        assert_eq!(unescape(&escape_pdf_text(text)), text);
    }
}

#[test]
fn kinds_the_renderer_draws() {
    assert_eq!(pdf_shape("circle"), Some(PdfShape::Circle));
    assert_eq!(pdf_shape("textbox"), Some(PdfShape::TextBox));
    assert_eq!(pdf_shape("line"), Some(PdfShape::Line));
    assert_eq!(pdf_shape("image"), None);
    assert_eq!(pdf_shape(""), None);
    assert_eq!(pdf_shape("Circle"), None);
}

#[test]
fn prelude_sets_round_joins_and_caps() {
    assert_eq!(content_prelude(), "1 j\n1 J\n");
    assert_eq!(font_resource(), "F1");
}

#[test]
fn closed_path_of_four_curves() {
    let curves = vec![
        CubicCurve { c1: p("1", "2"), c2: p("3", "4"), to: p("5", "6") },
        CubicCurve { c1: p("7", "8"), c2: p("9", "10"), to: p("11", "12") },
    ];
    assert_eq!(
        closed_path_ops(&p("0", "0.5"), &curves),
        "0 0.5 m 1 2 3 4 5 6 c 7 8 9 10 11 12 c h"
    );
    assert_eq!(closed_path_ops(&p("a", "b"), &vec![]), "a b m h");
}

#[test]
fn circle_operators() {
    let mut ops = String::from("1 j\n1 J\n");
    let fill = RgbText { r: "0.204".into(), g: "0.596".into(), b: "0.859".into() };
    let stroke = RgbText { r: "0.161".into(), g: "0.502".into(), b: "0.725".into() };
    push_circle_ops(&mut ops, &fill, &stroke, "1.500", "PATH");
    assert_eq!(
        ops,
        "1 j\n1 J\nq\n0.204 0.596 0.859 rg\n0.161 0.502 0.725 RG\n1.500 w\nPATH\nB\nQ\n"
    );
}

#[test]
fn textbox_without_text_is_only_its_outline() {
    let mut ops = String::new();
    let rect = RectText { x: "10.000".into(), y: "20.000".into(), width: "100.000".into(), height: "20.000".into() };
    push_textbox_ops(&mut ops, &rect, "12.0", "24.000", "");
    assert_eq!(ops, "q\n0.8 0.8 0.8 RG\n0.5 w\n10.000 20.000 100.000 20.000 re\nS\nQ\n");
}

#[test]
fn textbox_with_text_draws_escaped_text() {
    let mut ops = String::new();
    let rect = RectText { x: "10.000".into(), y: "20.000".into(), width: "100.000".into(), height: "20.000".into() };
    push_textbox_ops(&mut ops, &rect, "12.0", "24.000", "Hi (there)");
    assert_eq!(
        ops,
        "q\n0.8 0.8 0.8 RG\n0.5 w\n10.000 20.000 100.000 20.000 re\nS\nQ\n\
         q\nBT\n/F1 12.0 Tf\n0 0 0 rg\n10.000 24.000 Td\n(Hi \\(there\\)) Tj\nET\nQ\n"
    );
}

#[test]
fn line_operators() {
    let mut ops = String::new();
    push_line_ops(&mut ops, "1.000", "2.000", "3.000", "4.000", "1.000");
    assert_eq!(ops, "q\n0 0 0 RG\n1.000 w\n1.000 2.000 m\n3.000 4.000 l\nS\nQ\n");
}

#[test]
fn content_stream_draws_items_in_order() {
    let items = vec![
        DrawItem::Line {
            x1: "1.000".into(),
            y1: "2.000".into(),
            x2: "3.000".into(),
            y2: "4.000".into(),
            width: "1.000".into(),
        },
        DrawItem::TextBox {
            rect: RectText { x: "0.000".into(), y: "0.000".into(), width: "5.000".into(), height: "6.000".into() },
            font_size: "12.0".into(),
            text_y: "1.000".into(),
            text: String::new(),
        },
        DrawItem::Circle {
            fill: RgbText { r: "1.000".into(), g: "0.000".into(), b: "0.000".into() },
            stroke: RgbText { r: "0.000".into(), g: "0.000".into(), b: "1.000".into() },
            width: "1.500".into(),
            path: "P".into(),
        },
    ];
    assert_eq!(
        content_stream(&items),
        "1 j\n1 J\n\
         q\n0 0 0 RG\n1.000 w\n1.000 2.000 m\n3.000 4.000 l\nS\nQ\n\
         q\n0.8 0.8 0.8 RG\n0.5 w\n0.000 0.000 5.000 6.000 re\nS\nQ\n\
         q\n1.000 0.000 0.000 rg\n0.000 0.000 1.000 RG\n1.500 w\nP\nB\nQ\n"
    );
    assert_eq!(content_stream(&vec![]), "1 j\n1 J\n");
}

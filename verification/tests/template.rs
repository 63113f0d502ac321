use canvas_pdf::content::{pdf_shape, PdfShape};
use canvas_pdf::template::{push_object_json, template_json, ShapeFields, TemplateHeader, TemplateObject};

fn header() -> TemplateHeader {
    TemplateHeader {
        page_format: "A4".into(),
        orientation: "portrait".into(),
        width_pt: "595.28".into(),
        height_pt: "841.89".into(),
        canvas_width_px: "800".into(),
        canvas_height_px: "600".into(),
    }
}

fn circle(id: usize) -> TemplateObject {
    TemplateObject {
        id,
        fields: ShapeFields::Circle { cx: "74.41".into(), cy: "701.58".into(), radius: "22.32".into() },
    }
}

fn textbox(id: usize) -> TemplateObject {
    TemplateObject {
        id,
        fields: ShapeFields::TextBox {
            x: "1.00".into(),
            y: "2.00".into(),
            width: "3.00".into(),
            height: "4.00".into(),
        },
    }
}

const CIRCLE_3: &str = r#"{"id":3,"kind":"circle","cx_pt":74.41,"cy_pt":701.58,"radius_pt":22.32,"fill":[0.204,0.596,0.859],"stroke":[0.161,0.502,0.725],"stroke_width":1.5}"#;
const TEXTBOX_12: &str = r#"{"id":12,"kind":"textbox","x_pt":1.00,"y_pt":2.00,"width_pt":3.00,"height_pt":4.00,"content":"","font_size":12}"#;

#[test]
fn circle_object_text() {
    let mut out = String::new();
    push_object_json(&mut out, &circle(3));
    assert_eq!(out, CIRCLE_3);
}

#[test]
fn textbox_object_text() {
    let mut out = String::new();
    push_object_json(&mut out, &textbox(12));
    assert_eq!(out, TEXTBOX_12);
}

#[test]
fn empty_template() {
    assert_eq!(
        template_json(&header(), &vec![]),
        r#"{"version":1,"page":{"format":"A4","width_pt":595.28,"height_pt":841.89,"orientation":"portrait"},"canvas":{"width_px":800,"height_px":600},"objects":[]}"#
    );
}

#[test]
fn template_with_objects_in_order() {
    let text = template_json(&header(), &vec![circle(3), textbox(12)]);
    let expected = format!(
        r#"{{"version":1,"page":{{"format":"A4","width_pt":595.28,"height_pt":841.89,"orientation":"portrait"}},"canvas":{{"width_px":800,"height_px":600}},"objects":[{},{}]}}"#,
        CIRCLE_3, TEXTBOX_12
    );
    assert_eq!(text, expected);
}

#[test]
fn template_is_valid_json() {
    let text = template_json(&header(), &vec![circle(0), textbox(1), circle(2)]);
    let value: serde_json::Value = serde_json::from_str(&text).unwrap();
    let objects = value["objects"].as_array().unwrap();
    assert_eq!(objects.len(), 3);
    assert_eq!(objects[1]["id"].as_u64(), Some(1));
    assert_eq!(value["page"]["width_pt"].as_f64(), Some(595.28));
}

#[test]
fn template_kinds_are_drawn_by_the_renderer() {
    let text = template_json(&header(), &vec![circle(0), textbox(1)]);
    let value: serde_json::Value = serde_json::from_str(&text).unwrap();
    let objects = value["objects"].as_array().unwrap();
    assert_eq!(pdf_shape(objects[0]["kind"].as_str().unwrap()), Some(PdfShape::Circle));
    assert_eq!(pdf_shape(objects[1]["kind"].as_str().unwrap()), Some(PdfShape::TextBox));
}

//! The JSON template that the editor exports and the PDF renderer reads.
//!
//! Numbers arrive already written out as text (two decimals for points, as
//! given for canvas pixels); this module fixes the document around them.

use vstd::prelude::*;
use crate::content::{spec_pdf_shape, PdfShape};
use crate::decimal::{decimal_text, push_decimal};

verus! {

/// The fields of one exported object, each number already written as text.
pub enum ShapeFields {
    /// A circle: centre and radius, in points.
    Circle { cx: String, cy: String, radius: String },
    /// A text box: lower-left corner and size, in points.
    TextBox { x: String, y: String, width: String, height: String },
}

/// One exported object with its index in the editor's buffer.
pub struct TemplateObject {
    pub id: usize,
    pub fields: ShapeFields,
}

/// The page and canvas description at the head of the template.
pub struct TemplateHeader {
    pub page_format: String,
    pub orientation: String,
    pub width_pt: String,
    pub height_pt: String,
    pub canvas_width_px: String,
    pub canvas_height_px: String,
}

/// The `kind` name the template gives a shape.
pub open spec fn kind_name(fields: ShapeFields) -> Seq<char> {
    match fields {
        ShapeFields::Circle { .. } => "circle"@,
        ShapeFields::TextBox { .. } => "textbox"@,
    }
}

/// The members that follow `"kind"` in an object.
pub open spec fn shape_members(fields: ShapeFields) -> Seq<char> {
    match fields {
        ShapeFields::Circle { cx, cy, radius } => ",\"cx_pt\":"@ + cx@ + ",\"cy_pt\":"@ + cy@
            + ",\"radius_pt\":"@ + radius@
            + ",\"fill\":[0.204,0.596,0.859],\"stroke\":[0.161,0.502,0.725],\"stroke_width\":1.5}"@,
        ShapeFields::TextBox { x, y, width, height } => ",\"x_pt\":"@ + x@ + ",\"y_pt\":"@ + y@
            + ",\"width_pt\":"@ + width@ + ",\"height_pt\":"@ + height@
            + ",\"content\":\"\",\"font_size\":12}"@,
    }
}

/// The JSON text of one object.
pub open spec fn object_json(o: TemplateObject) -> Seq<char> {
    "{\"id\":"@ + decimal_text(o.id as nat) + ",\"kind\":\""@ + kind_name(o.fields) + "\""@
        + shape_members(o.fields)
}

/// The objects' JSON texts separated by commas.
pub open spec fn objects_json(objs: Seq<TemplateObject>) -> Seq<char>
    decreases objs.len(),
{
    if objs.len() == 0 {
        Seq::empty()
    } else if objs.len() == 1 {
        object_json(objs[0])
    } else {
        objects_json(objs.drop_last()) + ","@ + object_json(objs.last())
    }
}

/// The whole template.
pub open spec fn template_text(h: TemplateHeader, objs: Seq<TemplateObject>) -> Seq<char> {
    "{\"version\":1,\"page\":{\"format\":\""@ + h.page_format@ + "\",\"width_pt\":"@ + h.width_pt@
        + ",\"height_pt\":"@ + h.height_pt@ + ",\"orientation\":\""@ + h.orientation@
        + "\"},\"canvas\":{\"width_px\":"@ + h.canvas_width_px@ + ",\"height_px\":"@
        + h.canvas_height_px@ + "},\"objects\":["@ + objects_json(objs) + "]}"@
}

/// Appends the JSON text of `o` to `out`.
pub fn push_object_json(out: &mut String, o: &TemplateObject)
    ensures
        final(out)@ == old(out)@ + object_json(*o),
{
    out.append("{\"id\":");
    push_decimal(out, o.id);
    out.append(",\"kind\":\"");
    match &o.fields {
        ShapeFields::Circle { cx, cy, radius } => {
            out.append("circle");
            out.append("\"");
            out.append(",\"cx_pt\":");
            out.append(cx.as_str());
            out.append(",\"cy_pt\":");
            out.append(cy.as_str());
            out.append(",\"radius_pt\":");
            out.append(radius.as_str());
            out.append(
                ",\"fill\":[0.204,0.596,0.859],\"stroke\":[0.161,0.502,0.725],\"stroke_width\":1.5}",
            );
        },
        ShapeFields::TextBox { x, y, width, height } => {
            out.append("textbox");
            out.append("\"");
            out.append(",\"x_pt\":");
            out.append(x.as_str());
            out.append(",\"y_pt\":");
            out.append(y.as_str());
            out.append(",\"width_pt\":");
            out.append(width.as_str());
            out.append(",\"height_pt\":");
            out.append(height.as_str());
            out.append(",\"content\":\"\",\"font_size\":12}");
        },
    }
    assert(final(out)@ =~= old(out)@ + object_json(*o));
}

/// The JSON template for a page described by `header` holding `objects`, in
/// drawing order.
pub fn template_json(header: &TemplateHeader, objects: &Vec<TemplateObject>) -> (r: String)
    ensures
        r@ == template_text(*header, objects@),
{
    let mut out = String::new();
    out.append("{\"version\":1,\"page\":{\"format\":\"");
    out.append(header.page_format.as_str());
    out.append("\",\"width_pt\":");
    out.append(header.width_pt.as_str());
    out.append(",\"height_pt\":");
    out.append(header.height_pt.as_str());
    out.append(",\"orientation\":\"");
    out.append(header.orientation.as_str());
    out.append("\"},\"canvas\":{\"width_px\":");
    out.append(header.canvas_width_px.as_str());
    out.append(",\"height_px\":");
    out.append(header.canvas_height_px.as_str());
    out.append("},\"objects\":[");
    let ghost head = out@;
    let n = objects.len();
    let mut i: usize = 0;
    while i < n
        invariant
            n == objects@.len(),
            i <= n,
            out@ == head + objects_json(objects@.take(i as int)),
        decreases n - i,
    {
        let ghost before = out@;
        if i > 0 {
            out.append(",");
        }
        push_object_json(&mut out, &objects[i]);
        proof {
            let t = objects@.take(i + 1);
            assert(t.drop_last() =~= objects@.take(i as int));
            assert(t.last() == objects@[i as int]);
            if i == 0 {
                assert(objects@.take(0) =~= Seq::<TemplateObject>::empty());
                assert(out@ =~= head + objects_json(t));
            } else {
                assert(out@ =~= head + objects_json(t));
            }
        }
        i = i + 1;
    }
    out.append("]}");
    assert(objects@.take(n as int) =~= objects@);
    assert(out@ =~= template_text(*header, objects@));
    out
}

/// The template starts with the page member holding the header's format,
/// width and height exactly as given, whatever the orientation, and ends with
/// the object list closed by `]}`, the objects' texts in order between the
/// brackets.
pub proof fn lemma_template_page_fields(h: TemplateHeader, objs: Seq<TemplateObject>)
    ensures
        ("{\"version\":1,\"page\":{\"format\":\""@ + h.page_format@ + "\",\"width_pt\":"@ + h.width_pt@
            + ",\"height_pt\":"@ + h.height_pt@ + ",\"orientation\":\""@ + h.orientation@).is_prefix_of(
            template_text(h, objs),
        ),
        ("["@ + objects_json(objs) + "]}"@).is_suffix_of(template_text(h, objs)),
{
    let p = "{\"version\":1,\"page\":{\"format\":\""@ + h.page_format@ + "\",\"width_pt\":"@ + h.width_pt@
        + ",\"height_pt\":"@ + h.height_pt@ + ",\"orientation\":\""@ + h.orientation@;
    let t = template_text(h, objs);
    let mid = "\"},\"canvas\":{\"width_px\":"@ + h.canvas_width_px@ + ",\"height_px\":"@
        + h.canvas_height_px@ + "},\"objects\":"@;
    let q = "["@ + objects_json(objs) + "]}"@;
    reveal_strlit("},\"objects\":[");
    reveal_strlit("},\"objects\":");
    reveal_strlit("[");
    assert("},\"objects\":["@ =~= "},\"objects\":"@ + "["@);
    assert(t =~= p + mid + q);
    assert(t.take(p.len() as int) =~= p);
    assert(t.skip(t.len() - q.len()) =~= q);
}

/// Every object the template writes is drawn by the PDF renderer, as the
/// same shape: a circle as a circle and a text box as a text box.
pub proof fn lemma_template_kinds_are_drawn(fields: ShapeFields)
    ensures
        spec_pdf_shape(kind_name(fields)) == Some(
            match fields {
                ShapeFields::Circle { .. } => PdfShape::Circle,
                ShapeFields::TextBox { .. } => PdfShape::TextBox,
            },
        ),
{
    reveal_strlit("circle");
    reveal_strlit("textbox");
    assert("textbox"@[0] != "circle"@[0]);
}

} // verus!

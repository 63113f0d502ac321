//! The PDF content stream that draws the template's objects.

use vstd::prelude::*;
use crate::text::{push_char, str_eq};

verus! {

/// How one character of a text is written inside a PDF literal string:
/// a backslash or a parenthesis is preceded by a backslash, every other
/// character stands for itself.
pub open spec fn escape_char(c: char) -> Seq<char> {
    if c == '\\' || c == '(' || c == ')' {
        seq!['\\', c]
    } else {
        seq![c]
    }
}

/// `text` as it is written inside a PDF literal string `( ... )`.
pub open spec fn escaped(text: Seq<char>) -> Seq<char>
    decreases text.len(),
{
    if text.len() == 0 {
        Seq::empty()
    } else {
        escaped(text.drop_last()) + escape_char(text.last())
    }
}

/// Escapes `text` for a PDF literal string: backslashes are doubled and
/// parentheses get a backslash in front.
pub fn escape_pdf_text(text: &str) -> (r: String)
    ensures
        r@ == escaped(text@),
{
    broadcast use vstd::string::group_string_axioms;
    let mut out = String::new();
    for c in it: text.chars()
        invariant
            it.seq() == text@,
            out@ == escaped(text@.take(it.index())),
    {
        let ghost i = it.index();
        assert(text@.take(i + 1).drop_last() =~= text@.take(i));
        assert(c == text@[i]);
        if c == '\\' {
            proof {
                reveal_strlit("\\\\");
            }
            out.append("\\\\");
        } else if c == '(' {
            proof {
                reveal_strlit("\\(");
            }
            out.append("\\(");
        } else if c == ')' {
            proof {
                reveal_strlit("\\)");
            }
            out.append("\\)");
        } else {
            push_char(&mut out, c);
        }
    }
    assert(text@.take(text@.len() as int) =~= text@);
    out
}

/// How a PDF reader decodes the inside of a literal string: a backslash
/// followed by a character stands for that character.
pub open spec fn unescaped(s: Seq<char>) -> Seq<char>
    decreases s.len(),
{
    if s.len() == 0 {
        Seq::empty()
    } else if s[0] == '\\' && s.len() >= 2 {
        seq![s[1]] + unescaped(s.skip(2))
    } else {
        seq![s[0]] + unescaped(s.skip(1))
    }
}

proof fn lemma_escaped_concat(a: Seq<char>, b: Seq<char>)
    ensures
        escaped(a + b) == escaped(a) + escaped(b),
    decreases b.len(),
{
    if b.len() == 0 {
        assert(a + b =~= a);
        assert(escaped(a) + escaped(b) =~= escaped(a));
    } else {
        lemma_escaped_concat(a, b.drop_last());
        assert((a + b).drop_last() =~= a + b.drop_last());
        assert((a + b).last() == b.last());
        assert(escaped(a) + escaped(b) =~= escaped(a) + escaped(b.drop_last()) + escape_char(b.last()));
    }
}

/// A text written with `escape_pdf_text` reads back, under the PDF rules for
/// literal strings, as exactly the text it was made from.
pub proof fn lemma_escaped_text_reads_back(text: Seq<char>)
    ensures
        unescaped(escaped(text)) == text,
    decreases text.len(),
{
    if text.len() > 0 {
        let c = text[0];
        let rest = text.skip(1);
        assert(text =~= seq![c] + rest);
        lemma_escaped_concat(seq![c], rest);
        assert(seq![c].drop_last() =~= Seq::<char>::empty());
        assert(seq![c].last() == c);
        assert(escaped(Seq::<char>::empty()) =~= Seq::<char>::empty());
        assert(escaped(seq![c]) =~= escape_char(c));
        lemma_escaped_text_reads_back(rest);
        let e = escaped(text);
        if c == '\\' || c == '(' || c == ')' {
            assert(e.skip(2) =~= escaped(rest));
            assert(unescaped(e) =~= seq![c] + unescaped(escaped(rest)));
        } else {
            assert(e.skip(1) =~= escaped(rest));
            assert(unescaped(e) =~= seq![c] + unescaped(escaped(rest)));
        }
    }
}

/// Escaping writes nothing for nothing, every character other than a
/// backslash or a parenthesis as itself, and a backslash or a parenthesis as
/// that character with one backslash in front; each character is escaped on
/// its own, after the ones before it.
pub proof fn lemma_escape_appends(t: Seq<char>, c: char)
    ensures
        escaped(Seq::<char>::empty()) == Seq::<char>::empty(),
        c != '\\' && c != '(' && c != ')' ==> escaped(t.push(c)) == escaped(t).push(c),
        c == '\\' || c == '(' || c == ')' ==> escaped(t.push(c)) == escaped(t).push('\\').push(c),
{
    assert(t.push(c).drop_last() =~= t);
    assert(escaped(t).push('\\').push(c) =~= escaped(t) + seq!['\\', c]);
    assert(escaped(t).push(c) =~= escaped(t) + seq![c]);
}

/// Whether `c` is an octal digit.
pub open spec fn is_octal_digit(c: char) -> bool {
    '0' <= c && c <= '7'
}

/// The value of a run of octal digits.
pub open spec fn octal_value(ds: Seq<char>) -> int
    decreases ds.len(),
{
    if ds.len() == 0 {
        0
    } else {
        octal_value(ds.drop_last()) * 8 + (ds.last() as int - '0' as int)
    }
}

/// How many octal digits (at most three) start `s`.
pub open spec fn octal_run(s: Seq<char>) -> int {
    if s.len() >= 1 && is_octal_digit(s[0]) {
        if s.len() >= 2 && is_octal_digit(s[1]) {
            if s.len() >= 3 && is_octal_digit(s[2]) {
                3
            } else {
                2
            }
        } else {
            1
        }
    } else {
        0
    }
}

/// The characters a PDF reader takes from the inside of a literal string,
/// by all the rules for literal strings: `\n`, `\r`, `\t`, `\b`, `\f` are
/// control characters, a backslash and one to three octal digits is the
/// character with that code, a backslash before an end of line joins the
/// lines, a backslash before any other character is that character, and an
/// end of line (CR, LF or CR LF) written as such reads as one LF.
pub open spec fn pdf_literal_value(s: Seq<char>) -> Seq<char>
    decreases s.len(),
{
    if s.len() == 0 {
        Seq::empty()
    } else if s[0] == '\\' && s.len() >= 2 {
        let d = s[1];
        let k = octal_run(s.skip(1));
        if k > 0 {
            seq![(octal_value(s.subrange(1, 1 + k)) % 256) as u8 as char] + pdf_literal_value(s.skip(1 + k))
        } else if d == 'n' {
            seq!['\n'] + pdf_literal_value(s.skip(2))
        } else if d == 'r' {
            seq!['\r'] + pdf_literal_value(s.skip(2))
        } else if d == 't' {
            seq!['\t'] + pdf_literal_value(s.skip(2))
        } else if d == 'b' {
            seq!['\u{8}'] + pdf_literal_value(s.skip(2))
        } else if d == 'f' {
            seq!['\u{c}'] + pdf_literal_value(s.skip(2))
        } else if d == '\r' && s.len() >= 3 && s[2] == '\n' {
            pdf_literal_value(s.skip(3))
        } else if d == '\r' || d == '\n' {
            pdf_literal_value(s.skip(2))
        } else {
            seq![d] + pdf_literal_value(s.skip(2))
        }
    } else if s[0] == '\r' {
        if s.len() >= 2 && s[1] == '\n' {
            seq!['\n'] + pdf_literal_value(s.skip(2))
        } else {
            seq!['\n'] + pdf_literal_value(s.skip(1))
        }
    } else {
        seq![s[0]] + pdf_literal_value(s.skip(1))
    }
}

/// A text written with `escape_pdf_text` reads back as exactly that text
/// under all the PDF rules for literal strings, octal codes and escaped
/// control characters included, as long as it holds no carriage return (a
/// reader turns a bare carriage return into a line feed, and escaping leaves
/// it as it is).
pub proof fn lemma_escaped_text_reads_back_in_pdf(text: Seq<char>)
    requires
        !text.contains('\r'),
    ensures
        pdf_literal_value(escaped(text)) == text,
    decreases text.len(),
{
    if text.len() > 0 {
        let c = text[0];
        let rest = text.skip(1);
        assert(text =~= seq![c] + rest);
        lemma_escaped_concat(seq![c], rest);
        assert(seq![c].drop_last() =~= Seq::<char>::empty());
        assert(seq![c].last() == c);
        assert(escaped(Seq::<char>::empty()) =~= Seq::<char>::empty());
        assert(escaped(seq![c]) =~= escape_char(c));
        assert(!rest.contains('\r')) by {
            if rest.contains('\r') {
                let j = choose|j: int| 0 <= j < rest.len() && rest[j] == '\r';
                assert(text[j + 1] == '\r');
            }
        }
        assert(c != '\r') by {
            assert(text[0] == c);
        }
        lemma_escaped_text_reads_back_in_pdf(rest);
        let e = escaped(text);
        if c == '\\' || c == '(' || c == ')' {
            assert(e[0] == '\\' && e[1] == c);
            assert(e.skip(1)[0] == c);
            assert(octal_run(e.skip(1)) == 0);
            assert(e.skip(2) =~= escaped(rest));
            assert(pdf_literal_value(e) =~= seq![c] + pdf_literal_value(escaped(rest)));
        } else {
            assert(e[0] == c);
            assert(e.skip(1) =~= escaped(rest));
            assert(pdf_literal_value(e) =~= seq![c] + pdf_literal_value(escaped(rest)));
        }
    }
}

/// The shapes the PDF renderer draws.
#[derive(Clone, Copy, Debug, PartialEq, Eq, Structural)]
pub enum PdfShape {
    Circle,
    TextBox,
    Line,
}

/// The shape a template object's `kind` names; other kinds are skipped.
pub open spec fn spec_pdf_shape(kind: Seq<char>) -> Option<PdfShape> {
    if kind == "circle"@ {
        Some(PdfShape::Circle)
    } else if kind == "textbox"@ {
        Some(PdfShape::TextBox)
    } else if kind == "line"@ {
        Some(PdfShape::Line)
    } else {
        None
    }
}

/// The shape named by `kind` ("circle", "textbox" or "line"), or `None` for a
/// kind the renderer does not draw.
pub fn pdf_shape(kind: &str) -> (r: Option<PdfShape>)
    ensures
        r == spec_pdf_shape(kind@),
{
    if str_eq(kind, "circle") {
        Some(PdfShape::Circle)
    } else if str_eq(kind, "textbox") {
        Some(PdfShape::TextBox)
    } else if str_eq(kind, "line") {
        Some(PdfShape::Line)
    } else {
        None
    }
}

/// The page resource name under which the text font is registered.
pub open spec fn spec_font_resource() -> Seq<char> {
    "F1"@
}

/// The page resource name under which the text font is registered.
pub fn font_resource() -> (r: &'static str)
    ensures
        r@ == spec_font_resource(),
{
    "F1"
}

/// A point of a path, each coordinate already written as text.
pub struct PathPoint {
    pub x: String,
    pub y: String,
}

/// A cubic Bezier segment: two control points and the end point.
pub struct CubicCurve {
    pub c1: PathPoint,
    pub c2: PathPoint,
    pub to: PathPoint,
}

/// A colour as three components written as text.
pub struct RgbText {
    pub r: String,
    pub g: String,
    pub b: String,
}

/// A rectangle, lower-left corner and size, written as text.
pub struct RectText {
    pub x: String,
    pub y: String,
    pub width: String,
    pub height: String,
}

/// The operators that start every page: round line joins and round caps.
pub open spec fn prelude_text() -> Seq<char> {
    "1 j\n1 J\n"@
}

/// The operators that start every page's content.
pub fn content_prelude() -> (r: String)
    ensures
        r@ == prelude_text(),
{
    let mut out = String::new();
    out.append("1 j\n");
    out.append("1 J\n");
    proof {
        reveal_strlit("1 j\n");
        reveal_strlit("1 J\n");
        reveal_strlit("1 j\n1 J\n");
        assert(out@ =~= prelude_text());
    }
    out
}

/// The `c` operator of one curve, followed by a space.
pub open spec fn curve_text(c: CubicCurve) -> Seq<char> {
    c.c1.x@ + " "@ + c.c1.y@ + " "@ + c.c2.x@ + " "@ + c.c2.y@ + " "@ + c.to.x@ + " "@ + c.to.y@
        + " c "@
}

/// The curves' operators, one after the other.
pub open spec fn curves_text(cs: Seq<CubicCurve>) -> Seq<char>
    decreases cs.len(),
{
    if cs.len() == 0 {
        Seq::empty()
    } else {
        curves_text(cs.drop_last()) + curve_text(cs.last())
    }
}

/// A closed path: move to `start`, draw the curves, close.
pub open spec fn closed_path_text(start: PathPoint, cs: Seq<CubicCurve>) -> Seq<char> {
    start.x@ + " "@ + start.y@ + " m "@ + curves_text(cs) + "h"@
}

/// Appends the `c` operator of one curve, followed by a space.
fn push_curve_ops(out: &mut String, c: &CubicCurve)
    ensures
        final(out)@ == old(out)@ + curve_text(*c),
{
    out.append(c.c1.x.as_str());
    out.append(" ");
    out.append(c.c1.y.as_str());
    out.append(" ");
    out.append(c.c2.x.as_str());
    out.append(" ");
    out.append(c.c2.y.as_str());
    out.append(" ");
    out.append(c.to.x.as_str());
    out.append(" ");
    out.append(c.to.y.as_str());
    out.append(" c ");
    assert(final(out)@ =~= old(out)@ + curve_text(*c));
}

/// The path operators of a closed path that starts at `start` and follows
/// `curves`.
pub fn closed_path_ops(start: &PathPoint, curves: &Vec<CubicCurve>) -> (r: String)
    ensures
        r@ == closed_path_text(*start, curves@),
{
    let mut out = String::new();
    out.append(start.x.as_str());
    out.append(" ");
    out.append(start.y.as_str());
    out.append(" m ");
    let ghost head = out@;
    let n = curves.len();
    let mut i: usize = 0;
    while i < n
        invariant
            n == curves@.len(),
            i <= n,
            out@ == head + curves_text(curves@.take(i as int)),
        decreases n - i,
    {
        push_curve_ops(&mut out, &curves[i]);
        proof {
            let t = curves@.take(i + 1);
            assert(t.drop_last() =~= curves@.take(i as int));
            assert(t.last() == curves@[i as int]);
            assert(out@ =~= head + curves_text(t));
        }
        i = i + 1;
    }
    out.append("h");
    assert(curves@.take(n as int) =~= curves@);
    assert(out@ =~= closed_path_text(*start, curves@));
    out
}

/// A path with no curves is its move-to followed by the close, and adding a
/// curve to a path draws it just before the close, after all the curves
/// already there, wherever the curve ends (at the start point too): every
/// curve given is drawn, in order.
pub proof fn lemma_path_draws_every_curve(start: PathPoint, cs: Seq<CubicCurve>, c: CubicCurve)
    ensures
        closed_path_text(start, Seq::empty()) == start.x@ + " "@ + start.y@ + " m "@ + "h"@,
        closed_path_text(start, cs.push(c))
            == closed_path_text(start, cs).drop_last() + curve_text(c) + "h"@,
{
    reveal_strlit("h");
    assert(cs.push(c).drop_last() =~= cs);
    assert(curves_text(Seq::<CubicCurve>::empty()) =~= Seq::<char>::empty());
    assert(closed_path_text(start, Seq::empty()) =~= start.x@ + " "@ + start.y@ + " m "@ + "h"@);
    let head = start.x@ + " "@ + start.y@ + " m "@;
    assert(closed_path_text(start, cs) =~= (head + curves_text(cs)).push('h'));
    assert(closed_path_text(start, cs).drop_last() =~= head + curves_text(cs));
    assert(closed_path_text(start, cs.push(c)) =~= head + curves_text(cs) + curve_text(c) + "h"@);
}

/// A filled and stroked circle: saved graphics state, fill and stroke
/// colours, line width, the path, fill-and-stroke, restored state.
pub open spec fn circle_text(fill: RgbText, stroke: RgbText, width: Seq<char>, path: Seq<char>)
    -> Seq<char> {
    "q\n"@ + fill.r@ + " "@ + fill.g@ + " "@ + fill.b@ + " rg\n"@ + stroke.r@ + " "@ + stroke.g@
        + " "@ + stroke.b@ + " RG\n"@ + width + " w\n"@ + path + "\nB\nQ\n"@
}

/// Appends the operators that draw a circle along `path`.
pub fn push_circle_ops(
    ops: &mut String,
    fill: &RgbText,
    stroke: &RgbText,
    stroke_width: &str,
    path: &str,
)
    ensures
        final(ops)@ == old(ops)@ + circle_text(*fill, *stroke, stroke_width@, path@),
{
    ops.append("q\n");
    ops.append(fill.r.as_str());
    ops.append(" ");
    ops.append(fill.g.as_str());
    ops.append(" ");
    ops.append(fill.b.as_str());
    ops.append(" rg\n");
    ops.append(stroke.r.as_str());
    ops.append(" ");
    ops.append(stroke.g.as_str());
    ops.append(" ");
    ops.append(stroke.b.as_str());
    ops.append(" RG\n");
    ops.append(stroke_width);
    ops.append(" w\n");
    ops.append(path);
    ops.append("\nB\nQ\n");
    assert(final(ops)@ =~= old(ops)@ + circle_text(*fill, *stroke, stroke_width@, path@));
}

/// The light grey outline of a text box.
pub open spec fn border_text(b: RectText) -> Seq<char> {
    "q\n0.8 0.8 0.8 RG\n0.5 w\n"@ + b.x@ + " "@ + b.y@ + " "@ + b.width@ + " "@ + b.height@
        + " re\nS\nQ\n"@
}

/// Black text in the page font at `(x, y)`, escaped as a literal string.
pub open spec fn text_block(font_size: Seq<char>, x: Seq<char>, y: Seq<char>, text: Seq<char>)
    -> Seq<char> {
    "q\nBT\n/"@ + spec_font_resource() + " "@ + font_size + " Tf\n0 0 0 rg\n"@ + x + " "@ + y
        + " Td\n("@ + escaped(text) + ") Tj\nET\nQ\n"@
}

/// A text box: its outline, then its text when it has any.
pub open spec fn textbox_text(
    b: RectText,
    font_size: Seq<char>,
    text_y: Seq<char>,
    text: Seq<char>,
) -> Seq<char> {
    if text.len() == 0 {
        border_text(b)
    } else {
        border_text(b) + text_block(font_size, b.x@, text_y, text)
    }
}

/// Appends the operators that draw a text box: its outline and, unless `text`
/// is empty, the text with its top line at `text_y`.
pub fn push_textbox_ops(
    ops: &mut String,
    b: &RectText,
    font_size: &str,
    text_y: &str,
    text: &str,
)
    ensures
        final(ops)@ == old(ops)@ + textbox_text(*b, font_size@, text_y@, text@),
{
    ops.append("q\n0.8 0.8 0.8 RG\n0.5 w\n");
    ops.append(b.x.as_str());
    ops.append(" ");
    ops.append(b.y.as_str());
    ops.append(" ");
    ops.append(b.width.as_str());
    ops.append(" ");
    ops.append(b.height.as_str());
    ops.append(" re\nS\nQ\n");
    let ghost bordered = ops@;
    assert(bordered =~= old(ops)@ + border_text(*b));
    if !text.is_empty() {
        let safe = escape_pdf_text(text);
        ops.append("q\nBT\n/");
        ops.append(font_resource());
        ops.append(" ");
        ops.append(font_size);
        ops.append(" Tf\n0 0 0 rg\n");
        ops.append(b.x.as_str());
        ops.append(" ");
        ops.append(text_y);
        ops.append(" Td\n(");
        ops.append(safe.as_str());
        ops.append(") Tj\nET\nQ\n");
        assert(final(ops)@ =~= old(ops)@ + textbox_text(*b, font_size@, text_y@, text@));
    }
}

/// A text box is drawn as its outline, and its text is drawn after the
/// outline exactly when it is not empty: the operators then end with the
/// escaped text shown with `Tj`.
pub proof fn lemma_textbox_draws_its_text(
    b: RectText,
    font_size: Seq<char>,
    text_y: Seq<char>,
    text: Seq<char>,
)
    ensures
        border_text(b).is_prefix_of(textbox_text(b, font_size, text_y, text)),
        text.len() == 0 ==> textbox_text(b, font_size, text_y, text) == border_text(b),
        text.len() > 0 ==> ("("@ + escaped(text) + ") Tj\nET\nQ\n"@).is_suffix_of(
            textbox_text(b, font_size, text_y, text),
        ),
        text.len() > 0 ==> textbox_text(b, font_size, text_y, text).len() > border_text(b).len()
            + escaped(text).len(),
{
    let r = textbox_text(b, font_size, text_y, text);
    assert(r.take(border_text(b).len() as int) =~= border_text(b));
    if text.len() > 0 {
        let q = "("@ + escaped(text) + ") Tj\nET\nQ\n"@;
        let head = "q\nBT\n/"@ + spec_font_resource() + " "@ + font_size + " Tf\n0 0 0 rg\n"@ + b.x@
            + " "@ + text_y + " Td\n"@;
        reveal_strlit(" Td\n(");
        reveal_strlit(" Td\n");
        reveal_strlit("(");
        assert(" Td\n("@ =~= " Td\n"@ + "("@);
        assert(r =~= border_text(b) + head + q);
        assert(r.skip(r.len() - q.len()) =~= q);
        reveal_strlit("(");
        assert(q.len() > escaped(text).len());
    }
}

/// A black straight line of the given width.
pub open spec fn line_text(
    x1: Seq<char>,
    y1: Seq<char>,
    x2: Seq<char>,
    y2: Seq<char>,
    width: Seq<char>,
) -> Seq<char> {
    "q\n0 0 0 RG\n"@ + width + " w\n"@ + x1 + " "@ + y1 + " m\n"@ + x2 + " "@ + y2 + " l\nS\nQ\n"@
}

/// Appends the operators that draw a line from `(x1, y1)` to `(x2, y2)`.
pub fn push_line_ops(ops: &mut String, x1: &str, y1: &str, x2: &str, y2: &str, width: &str)
    ensures
        final(ops)@ == old(ops)@ + line_text(x1@, y1@, x2@, y2@, width@),
{
    ops.append("q\n0 0 0 RG\n");
    ops.append(width);
    ops.append(" w\n");
    ops.append(x1);
    ops.append(" ");
    ops.append(y1);
    ops.append(" m\n");
    ops.append(x2);
    ops.append(" ");
    ops.append(y2);
    ops.append(" l\nS\nQ\n");
    assert(final(ops)@ =~= old(ops)@ + line_text(x1@, y1@, x2@, y2@, width@));
}

/// One thing to draw, its numbers already written as text.
pub enum DrawItem {
    /// A circle along `path`, filled and stroked.
    Circle { fill: RgbText, stroke: RgbText, width: String, path: String },
    /// A text box: its outline and, when `text` is not empty, its text.
    TextBox { rect: RectText, font_size: String, text_y: String, text: String },
    /// A straight line.
    Line { x1: String, y1: String, x2: String, y2: String, width: String },
}

/// The operators that draw one item.
pub open spec fn item_text(d: DrawItem) -> Seq<char> {
    match d {
        DrawItem::Circle { fill, stroke, width, path } => circle_text(fill, stroke, width@, path@),
        DrawItem::TextBox { rect, font_size, text_y, text } => textbox_text(rect, font_size@, text_y@, text@),
        DrawItem::Line { x1, y1, x2, y2, width } => line_text(x1@, y1@, x2@, y2@, width@),
    }
}

/// The operators that draw the items, one after the other.
pub open spec fn items_text(ds: Seq<DrawItem>) -> Seq<char>
    decreases ds.len(),
{
    if ds.len() == 0 {
        Seq::empty()
    } else {
        items_text(ds.drop_last()) + item_text(ds.last())
    }
}

/// The page's content stream: the prelude, then the items in drawing order.
pub fn content_stream(items: &Vec<DrawItem>) -> (r: String)
    ensures
        r@ == prelude_text() + items_text(items@),
{
    let mut ops = content_prelude();
    let n = items.len();
    let mut i: usize = 0;
    while i < n
        invariant
            n == items@.len(),
            i <= n,
            ops@ == prelude_text() + items_text(items@.take(i as int)),
        decreases n - i,
    {
        match &items[i] {
            DrawItem::Circle { fill, stroke, width, path } => {
                push_circle_ops(&mut ops, fill, stroke, width.as_str(), path.as_str());
            },
            DrawItem::TextBox { rect, font_size, text_y, text } => {
                push_textbox_ops(&mut ops, rect, font_size.as_str(), text_y.as_str(), text.as_str());
            },
            DrawItem::Line { x1, y1, x2, y2, width } => {
                push_line_ops(&mut ops, x1.as_str(), y1.as_str(), x2.as_str(), y2.as_str(), width.as_str());
            },
        }
        proof {
            let t = items@.take(i + 1);
            assert(t.drop_last() =~= items@.take(i as int));
            assert(t.last() == items@[i as int]);
            assert(ops@ =~= prelude_text() + items_text(t));
        }
        i = i + 1;
    }
    assert(items@.take(n as int) =~= items@);
    ops
}

} // verus!

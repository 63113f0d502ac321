//! Assembly of the one-page PDF document with `pdf_writer`.
//!
//! The document is modelled as the sequence of indirect objects written into
//! it, each with what it holds; the finished file is a function of that
//! sequence.

use vstd::prelude::*;
use pdf_writer::{Finish, Name, Pdf, Rect, Ref};
use crate::content::{font_resource, spec_font_resource};

verus! {

#[verifier::external_type_specification]
#[verifier::external_body]
pub struct ExPdf(Pdf);

#[verifier::external_type_specification]
#[verifier::external_body]
pub struct ExRect(Rect);

/// A page's media box, each coordinate given by the bits of its `f32` value
/// (as `f32::to_bits` gives them).
#[derive(Clone, Copy, Debug, PartialEq, Eq, Structural)]
pub struct MediaBox {
    pub x1: u32,
    pub y1: u32,
    pub x2: u32,
    pub y2: u32,
}

/// The bits of the `f32` value -2147483648.0. The PDF writer prints a float
/// that equals an `i32` as that integer and records its absolute value, which
/// overflows for this one value.
pub open spec fn unwritable_coordinate() -> u32 {
    0xcf00_0000u32
}

/// Every coordinate of `b` can be written.
pub open spec fn writable_box(b: MediaBox) -> bool {
    &&& b.x1 != unwritable_coordinate()
    &&& b.y1 != unwritable_coordinate()
    &&& b.x2 != unwritable_coordinate()
    &&& b.y2 != unwritable_coordinate()
}

/// What one indirect object of the document holds.
pub enum PdfObject {
    /// The document catalog, pointing at the page tree.
    Catalog { id: i32, pages: i32 },
    /// A page tree with its kids and page count.
    PageTree { id: i32, kids: Seq<i32>, count: i32 },
    /// A page: its media box, parent tree, content stream and the one font
    /// registered in its resources under `font_name`.
    Page { id: i32, media_box: MediaBox, parent: i32, contents: i32, font_name: Seq<char>, font: i32 },
    /// A standard Type 1 font.
    Type1Font { id: i32, base_font: Seq<char> },
    /// A stream holding `data` unchanged.
    Stream { id: i32, data: Seq<u8> },
}

/// The rectangle `Rect::new` makes of the four `f32` coordinates whose bits
/// are those of `b`.
pub uninterp spec fn rect_of(b: MediaBox) -> Rect;

/// Reads the bits of a rectangle's four coordinates (its public fields, with
/// `to_bits`); the rectangle is the one `Rect::new` makes of them.
#[verifier::external_body]
fn rect_bits(r: &Rect) -> (b: MediaBox)
    ensures
        rect_of(b) == *r,
{
    MediaBox { x1: r.x1.to_bits(), y1: r.y1.to_bits(), x2: r.x2.to_bits(), y2: r.y2.to_bits() }
}

/// The object number of `o`.
pub open spec fn object_id(o: PdfObject) -> i32 {
    match o {
        PdfObject::Catalog { id, .. } => id,
        PdfObject::PageTree { id, .. } => id,
        PdfObject::Page { id, .. } => id,
        PdfObject::Type1Font { id, .. } => id,
        PdfObject::Stream { id, .. } => id,
    }
}

/// The object numbers of `objects`, in order.
pub open spec fn object_ids(objects: Seq<PdfObject>) -> Seq<i32> {
    objects.map_values(|o: PdfObject| object_id(o))
}

/// The indirect objects written into `pdf`, in the order they were written,
/// each with what the writer put in it.
pub uninterp spec fn pdf_objects(pdf: Pdf) -> Seq<PdfObject>;

/// The bytes written into `pdf` so far.
pub uninterp spec fn written_bytes(pdf: Pdf) -> Seq<u8>;

/// The file `Pdf::finish` makes of a document whose indirect objects, written
/// in this order, are `objects`.
pub uninterp spec fn pdf_file(objects: Seq<PdfObject>) -> Seq<u8>;

/// The file header `Pdf::new` writes: `%PDF-1.7`, a binary marker line and a
/// blank line.
pub open spec fn pdf_header() -> Seq<u8> {
    seq![
        0x25u8, 0x50u8, 0x44u8, 0x46u8, 0x2du8, 0x31u8, 0x2eu8, 0x37u8, 0x0au8,
        0x25u8, 0x80u8, 0x80u8, 0x80u8, 0x80u8, 0x0au8, 0x0au8,
    ]
}

/// The end-of-file marker, `\n%%EOF`, that closes a finished document.
pub open spec fn pdf_eof() -> Seq<u8> {
    seq![0x0au8, 0x25u8, 0x25u8, 0x45u8, 0x4fu8, 0x46u8]
}

/// `bytes` holds `data` as a contiguous run starting at `at`.
pub open spec fn holds_at(bytes: Seq<u8>, data: Seq<u8>, at: int) -> bool {
    &&& 0 <= at
    &&& at + data.len() <= bytes.len()
    &&& bytes.subrange(at, at + data.len()) == data
}

/// `bytes` holds `data` somewhere as a contiguous run.
pub open spec fn contains_bytes(bytes: Seq<u8>, data: Seq<u8>) -> bool {
    exists|at: int| holds_at(bytes, data, at)
}

/// What a writer step does to a document: its bytes grow and the object `o`
/// is added.
pub open spec fn adds_object(before: Pdf, after: Pdf, o: PdfObject) -> bool {
    &&& pdf_objects(after) == pdf_objects(before).push(o)
    &&& written_bytes(before).is_prefix_of(written_bytes(after))
}

/// `Pdf::new`: a document that holds only its header and no indirect object.
#[verifier::external_body]
fn new_pdf() -> (pdf: Pdf)
    ensures
        pdf_objects(pdf) == Seq::<PdfObject>::empty(),
        written_bytes(pdf) == pdf_header(),
{
    Pdf::new()
}

/// `Pdf::catalog` followed by `Catalog::pages`: writes the document catalog as
/// object `id`, pointing at the page tree `pages`. `Ref::new` panics on a
/// number that is not positive.
#[verifier::external_body]
fn write_catalog(pdf: &mut Pdf, id: i32, pages: i32)
    requires
        id > 0,
        pages > 0,
    ensures
        adds_object(*old(pdf), *final(pdf), PdfObject::Catalog { id, pages }),
{
    pdf.catalog(Ref::new(id)).pages(Ref::new(pages));
}

/// `Chunk::pages` followed by `Pages::kids` and `Pages::count`: writes the
/// page tree as object `id` with the single kid `kid` and page count `count`.
/// The count is written as an integer whose absolute value is recorded, which
/// overflows for `i32::MIN`.
#[verifier::external_body]
fn write_page_tree(pdf: &mut Pdf, id: i32, kid: i32, count: i32)
    requires
        id > 0,
        kid > 0,
        count != i32::MIN,
    ensures
        adds_object(*old(pdf), *final(pdf), PdfObject::PageTree { id, kids: seq![kid], count }),
{
    pdf.pages(Ref::new(id)).kids([Ref::new(kid)]).count(count);
}

/// `Chunk::page` followed by `Page::media_box`, `Page::parent`,
/// `Page::contents` and `Page::resources` with one font entry: writes the page
/// as object `id`, with the font object `font` registered under `font_name`.
/// `media_box` gives the bits of `rect`'s coordinates.
#[verifier::external_body]
fn write_page(
    pdf: &mut Pdf,
    id: i32,
    rect: Rect,
    media_box: MediaBox,
    parent: i32,
    contents: i32,
    font_name: &str,
    font: i32,
)
    requires
        id > 0,
        parent > 0,
        contents > 0,
        font > 0,
        rect == rect_of(media_box),
        writable_box(media_box),
    ensures
        adds_object(
            *old(pdf),
            *final(pdf),
            PdfObject::Page { id, media_box, parent, contents, font_name: font_name@, font },
        ),
{
    let mut page = pdf.page(Ref::new(id));
    page.media_box(rect);
    page.parent(Ref::new(parent));
    page.contents(Ref::new(contents));
    let mut resources = page.resources();
    resources.fonts().pair(Name(font_name.as_bytes()), Ref::new(font));
    resources.finish();
    page.finish();
}

/// `Chunk::type1_font` followed by `Type1Font::base_font`: writes a standard
/// Type 1 font as object `id`.
#[verifier::external_body]
fn write_type1_font(pdf: &mut Pdf, id: i32, base_font: &str)
    requires
        id > 0,
    ensures
        adds_object(*old(pdf), *final(pdf), PdfObject::Type1Font { id, base_font: base_font@ }),
{
    pdf.type1_font(Ref::new(id)).base_font(Name(base_font.as_bytes()));
}

/// `Chunk::stream`: writes `data`, unchanged, as stream object `id`. It panics
/// when the data is longer than `i32::MAX` bytes.
#[verifier::external_body]
fn write_stream(pdf: &mut Pdf, id: i32, data: &[u8])
    requires
        id > 0,
        data@.len() <= i32::MAX,
    ensures
        adds_object(*old(pdf), *final(pdf), PdfObject::Stream { id, data: data@ }),
        contains_bytes(written_bytes(*final(pdf)), data@),
{
    pdf.stream(Ref::new(id), data);
}

/// `Pdf::finish`: writes the cross-reference table and trailer and returns the
/// whole file, which is determined by the objects written, starts with
/// everything written so far and ends with the end-of-file marker. It panics
/// when an object number was used twice, and computes one past the largest
/// number, which must not overflow.
#[verifier::external_body]
fn finish_pdf(pdf: Pdf) -> (r: Vec<u8>)
    requires
        object_ids(pdf_objects(pdf)).no_duplicates(),
        forall|i: int| 0 <= i < pdf_objects(pdf).len() ==> object_id(#[trigger] pdf_objects(pdf)[i]) < i32::MAX,
    ensures
        r@ == pdf_file(pdf_objects(pdf)),
        written_bytes(pdf).is_prefix_of(r@),
        r@.len() >= pdf_eof().len(),
        r@.skip(r@.len() - pdf_eof().len()) == pdf_eof(),
{
    pdf.finish()
}

/// Object numbers of the document's indirect objects.
pub struct Refs {
    pub catalog: i32,
    pub page_tree: i32,
    pub page: i32,
    pub content: i32,
    pub font: i32,
}

/// The numbering the exporter uses: catalog, page tree, page, content stream
/// and font are objects 1 to 5.
pub open spec fn spec_refs() -> Refs {
    Refs { catalog: 1, page_tree: 2, page: 3, content: 4, font: 5 }
}

impl Refs {
    /// All object numbers.
    pub open spec fn ids(self) -> Seq<i32> {
        seq![self.catalog, self.page_tree, self.page, self.content, self.font]
    }

    /// The exporter's object numbering.
    pub fn new() -> (r: Refs)
        ensures
            r == spec_refs(),
    {
        Refs { catalog: 1, page_tree: 2, page: 3, content: 4, font: 5 }
    }
}

/// The exporter's object numbers are valid references (positive) and name
/// five different objects.
pub proof fn lemma_refs_are_distinct()
    ensures
        spec_refs().ids().no_duplicates(),
        forall|i: int| 0 <= i < 5 ==> 0 < #[trigger] spec_refs().ids()[i] < i32::MAX,
{
}

/// The objects of the exported document, in the order they are written: the
/// catalog (object 1) points at the page tree (object 2), whose only kid is
/// the page (object 3); the page has the media box `media_box`, the parent 2,
/// the contents 4 and the font object 5 registered as `F1`; object 5 is the
/// standard font Helvetica and object 4 the content stream `content`.
pub open spec fn document_objects(media_box: MediaBox, content: Seq<u8>) -> Seq<PdfObject> {
    seq![
        PdfObject::Catalog { id: 1, pages: 2 },
        PdfObject::PageTree { id: 2, kids: seq![3i32], count: 1 },
        PdfObject::Page {
            id: 3,
            media_box,
            parent: 2,
            contents: 4,
            font_name: spec_font_resource(),
            font: 5,
        },
        PdfObject::Type1Font { id: 5, base_font: "Helvetica"@ },
        PdfObject::Stream { id: 4, data: content },
    ]
}

/// The one-page PDF file made of `document_objects(b, content)`: it starts
/// with the PDF header, holds the content stream unchanged and ends with the
/// end-of-file marker.
pub open spec fn is_document_file(file: Seq<u8>, b: MediaBox, content: Seq<u8>) -> bool {
    &&& file == pdf_file(document_objects(b, content))
    &&& pdf_header().is_prefix_of(file)
    &&& contains_bytes(file, content)
    &&& file.len() >= pdf_eof().len()
    &&& file.skip(file.len() - pdf_eof().len()) == pdf_eof()
}

/// The one-page PDF whose page has the media box `media_box` and whose content
/// stream is `content`, or `None` when a coordinate of the media box is
/// -2147483648.0, which the PDF writer cannot write.
pub fn render_pdf(media_box: Rect, content: &[u8]) -> (r: Option<Vec<u8>>)
    requires
        content@.len() <= i32::MAX,
    ensures
        exists|b: MediaBox| {
            &&& rect_of(b) == media_box
            &&& match r {
                Some(file) => writable_box(b) && is_document_file(file@, b, content@),
                None => !writable_box(b),
            }
        },
{
    let bits = rect_bits(&media_box);
    if bits.x1 == 0xcf00_0000u32 || bits.y1 == 0xcf00_0000u32 || bits.x2 == 0xcf00_0000u32
        || bits.y2 == 0xcf00_0000u32 {
        return None;
    }
    let refs = Refs::new();
    let mut pdf = new_pdf();
    write_catalog(&mut pdf, refs.catalog, refs.page_tree);
    write_page_tree(&mut pdf, refs.page_tree, refs.page, 1);
    write_page(&mut pdf, refs.page, media_box, bits, refs.page_tree, refs.content, font_resource(), refs.font);
    write_type1_font(&mut pdf, refs.font, "Helvetica");
    write_stream(&mut pdf, refs.content, content);
    assert(pdf_objects(pdf) =~= document_objects(bits, content@));
    assert(object_ids(pdf_objects(pdf)) =~= seq![1i32, 2, 3, 5, 4]);
    let ghost written = written_bytes(pdf);
    let bytes = finish_pdf(pdf);
    proof {
        let at = choose|at: int| holds_at(written, content@, at);
        assert(bytes@.subrange(at, at + content@.len()) =~= written.subrange(at, at + content@.len()));
        assert(holds_at(bytes@, content@, at));
        assert(is_document_file(bytes@, bits, content@));
    }
    Some(bytes)
}

} // verus!

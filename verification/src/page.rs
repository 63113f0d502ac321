//! Standard paper sizes, in hundredths of a PDF point (1 pt = 1/72 inch).

use vstd::prelude::*;
use crate::text::str_eq;

verus! {

/// The paper formats the exporter knows.
#[derive(Clone, Copy, Debug, PartialEq, Eq, Structural)]
pub enum PageFormat {
    A3,
    A4,
    A5,
    Letter,
    Legal,
}

/// The format a name stands for; any name that is not one of the known ones
/// gives A4.
pub open spec fn spec_page_format(name: Seq<char>) -> PageFormat {
    if name == "A3"@ {
        PageFormat::A3
    } else if name == "A4"@ {
        PageFormat::A4
    } else if name == "A5"@ {
        PageFormat::A5
    } else if name == "Letter"@ {
        PageFormat::Letter
    } else if name == "Legal"@ {
        PageFormat::Legal
    } else {
        PageFormat::A4
    }
}

/// The format named `name` ("A3", "A4", "A5", "Letter" or "Legal"), A4 for
/// any other name.
pub fn page_format_from_name(name: &str) -> (r: PageFormat)
    ensures
        r == spec_page_format(name@),
{
    if str_eq(name, "A3") {
        PageFormat::A3
    } else if str_eq(name, "A4") {
        PageFormat::A4
    } else if str_eq(name, "A5") {
        PageFormat::A5
    } else if str_eq(name, "Letter") {
        PageFormat::Letter
    } else if str_eq(name, "Legal") {
        PageFormat::Legal
    } else {
        PageFormat::A4
    }
}

/// Width and height of a portrait page of format `f`, in hundredths of a
/// point.
pub open spec fn spec_portrait_size(f: PageFormat) -> (u32, u32) {
    match f {
        PageFormat::A3 => (84189, 119055),
        PageFormat::A4 => (59528, 84189),
        PageFormat::A5 => (41953, 59528),
        PageFormat::Letter => (61200, 79200),
        PageFormat::Legal => (61200, 100800),
    }
}

/// Width and height of a portrait page of format `f`, in hundredths of a
/// point.
pub fn portrait_size(f: PageFormat) -> (r: (u32, u32))
    ensures
        r == spec_portrait_size(f),
{
    match f {
        PageFormat::A3 => (84189, 119055),
        PageFormat::A4 => (59528, 84189),
        PageFormat::A5 => (41953, 59528),
        PageFormat::Letter => (61200, 79200),
        PageFormat::Legal => (61200, 100800),
    }
}

/// Only the exact orientation name "landscape" turns a page on its side.
pub open spec fn spec_is_landscape(orientation: Seq<char>) -> bool {
    orientation == "landscape"@
}

/// Whether `orientation` asks for a landscape page.
pub fn is_landscape(orientation: &str) -> (r: bool)
    ensures
        r == spec_is_landscape(orientation@),
{
    str_eq(orientation, "landscape")
}

/// Width and height of the page named `format` in orientation `orientation`,
/// in hundredths of a point: a landscape page is the portrait page on its side.
pub open spec fn spec_page_size(format: Seq<char>, orientation: Seq<char>) -> (u32, u32) {
    let (w, h) = spec_portrait_size(spec_page_format(format));
    if spec_is_landscape(orientation) {
        (h, w)
    } else {
        (w, h)
    }
}

/// Width and height, in hundredths of a point, of a page of format `format`
/// ("A3", "A4", "A5", "Letter", "Legal", A4 otherwise) in orientation
/// `orientation` ("landscape", portrait otherwise).
pub fn page_size_centipoints(format: &str, orientation: &str) -> (r: (u32, u32))
    ensures
        r == spec_page_size(format@, orientation@),
{
    let (w, h) = portrait_size(page_format_from_name(format));
    if is_landscape(orientation) {
        (h, w)
    } else {
        (w, h)
    }
}

/// Turning a page to landscape swaps its width and height, and every portrait
/// page is taller than it is wide, so a landscape page is wider than tall.
pub proof fn lemma_landscape_swaps_portrait(format: Seq<char>, other: Seq<char>)
    requires
        !spec_is_landscape(other),
    ensures
        spec_page_size(format, "landscape"@).0 == spec_page_size(format, other).1,
        spec_page_size(format, "landscape"@).1 == spec_page_size(format, other).0,
        spec_page_size(format, other).0 < spec_page_size(format, other).1,
{
}

/// A name that is none of the known formats gives an A4 page.
pub proof fn lemma_unknown_format_is_a4(format: Seq<char>, orientation: Seq<char>)
    requires
        format != "A3"@,
        format != "A5"@,
        format != "Letter"@,
        format != "Legal"@,
    ensures
        spec_page_size(format, orientation) == spec_page_size("A4"@, orientation),
{
    reveal_strlit("A3");
    reveal_strlit("A4");
    assert("A4"@[1] != "A3"@[1]);
    assert(spec_page_format("A4"@) == PageFormat::A4);
    assert(spec_page_format(format) == PageFormat::A4);
}

} // verus!

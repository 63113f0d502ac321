//! Resize handles of a text box: where each one sits and which edges it drags.

use vstd::prelude::*;

verus! {

/// Position of a handle along one axis of a box: its start edge (left or
/// top), its middle, or its end edge (right or bottom).
#[derive(Clone, Copy, Debug, PartialEq, Eq, Structural)]
pub enum Anchor {
    Start,
    Middle,
    End,
}

/// The code for "no handle".
pub const NO_HANDLE: u8 = 0;

/// The number of resize handles around a text box; they are numbered from 1.
pub const HANDLE_COUNT: u8 = 8;

/// Where handle `handle` sits: `(horizontal, vertical)`. Handles run clockwise
/// from the top-left corner; codes outside `1..=8` are no handle.
pub open spec fn spec_handle_anchor(handle: u8) -> Option<(Anchor, Anchor)> {
    match handle {
        1 => Some((Anchor::Start, Anchor::Start)),
        2 => Some((Anchor::Middle, Anchor::Start)),
        3 => Some((Anchor::End, Anchor::Start)),
        4 => Some((Anchor::End, Anchor::Middle)),
        5 => Some((Anchor::End, Anchor::End)),
        6 => Some((Anchor::Middle, Anchor::End)),
        7 => Some((Anchor::Start, Anchor::End)),
        8 => Some((Anchor::Start, Anchor::Middle)),
        _ => None,
    }
}

/// Where handle `handle` sits on the box, or `None` for a code that names no
/// handle.
pub fn handle_anchor(handle: u8) -> (r: Option<(Anchor, Anchor)>)
    ensures
        r == spec_handle_anchor(handle),
{
    match handle {
        1 => Some((Anchor::Start, Anchor::Start)),
        2 => Some((Anchor::Middle, Anchor::Start)),
        3 => Some((Anchor::End, Anchor::Start)),
        4 => Some((Anchor::End, Anchor::Middle)),
        5 => Some((Anchor::End, Anchor::End)),
        6 => Some((Anchor::Middle, Anchor::End)),
        7 => Some((Anchor::Start, Anchor::End)),
        8 => Some((Anchor::Start, Anchor::Middle)),
        _ => None,
    }
}

/// `code` is the handle numbered `k + 1`, the first of `hits` that is set.
pub open spec fn is_first_hit(hits: Seq<bool>, code: u8) -> bool {
    &&& 1 <= code <= hits.len()
    &&& hits[code - 1]
    &&& forall|k: int| 0 <= k < code - 1 ==> !hits[k]
}

/// Given whether the pointer lies on each handle, in handle order, the handle
/// that wins: the first one hit, or `NO_HANDLE` when none is.
pub fn first_hit_handle(hits: [bool; 8]) -> (r: u8)
    ensures
        r == NO_HANDLE <==> (forall|k: int| 0 <= k < 8 ==> !hits@[k]),
        r != NO_HANDLE ==> is_first_hit(hits@, r),
        r <= HANDLE_COUNT,
{
    let mut k: usize = 0;
    while k < 8
        invariant
            k <= 8,
            forall|j: int| 0 <= j < k ==> !hits@[j],
        decreases 8 - k,
    {
        if hits[k] {
            return (k + 1) as u8;
        }
        k = k + 1;
    }
    NO_HANDLE
}

/// The edges of a box that a drag moves.
#[derive(Clone, Copy, Debug, PartialEq, Eq, Structural)]
pub struct ResizeEdges {
    pub left: bool,
    pub top: bool,
    pub right: bool,
    pub bottom: bool,
}

/// The edges that dragging handle `handle` moves; a code that names no handle
/// moves none.
pub open spec fn spec_resize_edges(handle: u8) -> ResizeEdges {
    match handle {
        1 => ResizeEdges { left: true, top: true, right: false, bottom: false },
        2 => ResizeEdges { left: false, top: true, right: false, bottom: false },
        3 => ResizeEdges { left: false, top: true, right: true, bottom: false },
        4 => ResizeEdges { left: false, top: false, right: true, bottom: false },
        5 => ResizeEdges { left: false, top: false, right: true, bottom: true },
        6 => ResizeEdges { left: false, top: false, right: false, bottom: true },
        7 => ResizeEdges { left: true, top: false, right: false, bottom: true },
        8 => ResizeEdges { left: true, top: false, right: false, bottom: false },
        _ => ResizeEdges { left: false, top: false, right: false, bottom: false },
    }
}

/// The edges that dragging handle `handle` moves.
pub fn resize_edges(handle: u8) -> (r: ResizeEdges)
    ensures
        r == spec_resize_edges(handle),
{
    match handle {
        1 => ResizeEdges { left: true, top: true, right: false, bottom: false },
        2 => ResizeEdges { left: false, top: true, right: false, bottom: false },
        3 => ResizeEdges { left: false, top: true, right: true, bottom: false },
        4 => ResizeEdges { left: false, top: false, right: true, bottom: false },
        5 => ResizeEdges { left: false, top: false, right: true, bottom: true },
        6 => ResizeEdges { left: false, top: false, right: false, bottom: true },
        7 => ResizeEdges { left: true, top: false, right: false, bottom: true },
        8 => ResizeEdges { left: true, top: false, right: false, bottom: false },
        _ => ResizeEdges { left: false, top: false, right: false, bottom: false },
    }
}

/// A handle drags exactly the edges it sits on: its horizontal position
/// decides whether it moves the left or the right edge (a middle handle moves
/// neither), its vertical position whether it moves the top or the bottom
/// edge. A code that names no handle moves nothing.
pub proof fn lemma_handle_drags_the_edges_it_sits_on(handle: u8)
    ensures
        match spec_handle_anchor(handle) {
            Some((ax, ay)) => {
                &&& spec_resize_edges(handle).left == (ax == Anchor::Start)
                &&& spec_resize_edges(handle).right == (ax == Anchor::End)
                &&& spec_resize_edges(handle).top == (ay == Anchor::Start)
                &&& spec_resize_edges(handle).bottom == (ay == Anchor::End)
            },
            None => {
                &&& !spec_resize_edges(handle).left
                &&& !spec_resize_edges(handle).right
                &&& !spec_resize_edges(handle).top
                &&& !spec_resize_edges(handle).bottom
            },
        },
{
}

/// Every handle sits at a different place on the box, and exactly the codes
/// `1..=8` name a handle.
pub proof fn lemma_handles_are_distinct(a: u8, b: u8)
    ensures
        spec_handle_anchor(a) is Some <==> 1 <= a <= HANDLE_COUNT,
        spec_handle_anchor(a) is Some && a != b ==> spec_handle_anchor(a) != spec_handle_anchor(b),
{
}

} // verus!

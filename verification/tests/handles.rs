use canvas_pdf::handles::{
    first_hit_handle, handle_anchor, resize_edges, Anchor, ResizeEdges, HANDLE_COUNT, NO_HANDLE,
};

#[test]
fn corners_and_sides_are_numbered_clockwise_from_top_left() {
    assert_eq!(handle_anchor(1), Some((Anchor::Start, Anchor::Start)));
    assert_eq!(handle_anchor(2), Some((Anchor::Middle, Anchor::Start)));
    assert_eq!(handle_anchor(3), Some((Anchor::End, Anchor::Start)));
    assert_eq!(handle_anchor(4), Some((Anchor::End, Anchor::Middle)));
    assert_eq!(handle_anchor(5), Some((Anchor::End, Anchor::End)));
    assert_eq!(handle_anchor(6), Some((Anchor::Middle, Anchor::End)));
    assert_eq!(handle_anchor(7), Some((Anchor::Start, Anchor::End)));
    assert_eq!(handle_anchor(8), Some((Anchor::Start, Anchor::Middle)));
    assert_eq!(handle_anchor(0), None);
    assert_eq!(handle_anchor(9), None);
    assert_eq!(handle_anchor(255), None);
}

#[test]
fn no_hit_gives_no_handle() {
    assert_eq!(first_hit_handle([false; 8]), NO_HANDLE);
}

#[test]
fn the_first_handle_hit_wins() {
    let mut hits = [false; 8];
    hits[4] = true;
    hits[6] = true;
    assert_eq!(first_hit_handle(hits), 5);
    hits[0] = true;
    assert_eq!(first_hit_handle(hits), 1);
    assert_eq!(first_hit_handle([true; 8]), 1);
    let mut last = [false; 8];
    last[7] = true;
    assert_eq!(first_hit_handle(last), HANDLE_COUNT);
}

#[test]
fn each_handle_drags_its_edges() {
    let e = |left, top, right, bottom| ResizeEdges { left, top, right, bottom };
    assert_eq!(resize_edges(1), e(true, true, false, false));
    assert_eq!(resize_edges(2), e(false, true, false, false));
    assert_eq!(resize_edges(3), e(false, true, true, false));
    assert_eq!(resize_edges(4), e(false, false, true, false));
    assert_eq!(resize_edges(5), e(false, false, true, true));
    assert_eq!(resize_edges(6), e(false, false, false, true));
    assert_eq!(resize_edges(7), e(true, false, false, true));
    assert_eq!(resize_edges(8), e(true, false, false, false));
    assert_eq!(resize_edges(0), e(false, false, false, false));
    assert_eq!(resize_edges(42), e(false, false, false, false));
}

#[test]
fn every_code_drags_the_edges_it_sits_on() {
    for code in 0..=255u8 {
        let edges = resize_edges(code);
        match handle_anchor(code) {
            Some((ax, ay)) => {
                assert_eq!(edges.left, ax == Anchor::Start);
                assert_eq!(edges.right, ax == Anchor::End);
                assert_eq!(edges.top, ay == Anchor::Start);
                assert_eq!(edges.bottom, ay == Anchor::End);
            }
            None => {
                assert!(!edges.left && !edges.right && !edges.top && !edges.bottom);
            }
        }
    }
}

#[test]
fn handles_sit_at_distinct_places() {
    for a in 1..=8u8 {
        for b in 1..=8u8 {
            if a != b {
                assert_ne!(handle_anchor(a), handle_anchor(b));
            }
        }
    }
}

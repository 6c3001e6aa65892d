use interesting_rust_codes::progress::Progress;

#[test]
fn unbounded_bar_counts_steps() {
    let mut p = Progress::new(0..3);
    assert_eq!(p.i, 0);
    assert_eq!(p.render(), "");
    p.advance();
    p.advance();
    assert_eq!(p.i, 2);
    assert_eq!(p.render(), "**");
}

#[test]
fn bounded_bar_shows_steps_left() {
    let p = Progress::new([1, 2, 3, 4, 5].iter()).with_bound(5);
    assert_eq!(p.bound.bound, 5);
    assert_eq!(p.bound.delims, ('[', ']'));
    assert_eq!(p.render_bounded(), "[     ]");
    let mut p = p.with_delims(('<', '>'));
    p.advance();
    p.advance();
    assert_eq!(p.render_bounded(), "<**   >");
    p.advance();
    p.advance();
    p.advance();
    assert_eq!(p.render_bounded(), "<*****>");
}

#[test]
fn bound_keeps_steps_taken() {
    let mut p = Progress::new(0..4);
    p.advance();
    let p = p.with_bound(4);
    assert_eq!(p.i, 1);
    assert_eq!(p.render_bounded(), "[*   ]");
    assert_eq!(p.iter, 0..4);
}

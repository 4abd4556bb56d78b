use discourse_ui::input::scroll_adjustment;

#[test]
fn adjustment_scrolls_overflowing_content_into_view() {
    // Terminal height 10, base row 8, new content height 5: the screen
    // scrolls by 8 + 5 - 10 + 1 = 4 lines and the base row becomes 4.
    let (dist, base) = scroll_adjustment(8, 5, 10);
    assert_eq!(dist, 4);
    assert_eq!(base, 4);
}

#[test]
fn adjustment_is_a_no_op_when_content_fits() {
    let (dist, base) = scroll_adjustment(3, 5, 10);
    assert_eq!(dist, 0);
    assert_eq!(base, 3);
}

#[test]
fn adjustment_triggers_exactly_at_the_boundary() {
    // base + height == terminal height still scrolls one line, keeping a row
    // free below the content.
    let (dist, base) = scroll_adjustment(5, 5, 10);
    assert_eq!(dist, 1);
    assert_eq!(base, 4);
}

#[test]
fn adjusted_content_always_stays_on_screen() {
    for th in 2u16..40 {
        for h in 1..th {
            for b in 0..th {
                let (_, base) = scroll_adjustment(b, h, th);
                assert!(base + h < th);
                assert!(base <= b);
            }
        }
    }
}

use openchad::clock::{format_shifted, now_datetime, DISPLAY_SHIFT};

#[test]
fn shift_is_a_day_back_and_half_forward_three_minutes_west() {
    assert_eq!(DISPLAY_SHIFT, -43380);
}

#[test]
fn shifted_epoch_formats_exactly() {
    // 43380 seconds after the epoch, shifted back by the display offset,
    // is the epoch itself.
    assert_eq!(format_shifted(43380), "1970-01-01 12:00 AM");
    assert_eq!(format_shifted(43380 + 9 * 3600 + 30 * 60), "1970-01-01 09:30 AM");
}

#[test]
fn the_clock_formats_like_any_other_instant() {
    let now = now_datetime();
    // %Y-%m-%d %I:%M %p
    assert_eq!(now.len(), "1970-01-01 12:00 AM".len());
    assert_eq!(now.as_bytes()[4], b'-');
    assert!(now.ends_with("AM") || now.ends_with("PM"));
}

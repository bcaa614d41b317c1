use ncmpc::util::CachedValue;
use ncmpc::util::Scroller;
use ncmpc::util::TimedValue;

#[test]
fn check_cached_value() {
    // A generous expiry keeps the cached value.
    let mut v = CachedValue::new(1, 1_000_000);
    assert_eq!(*v.get(), 1);
    assert_eq!(*v.get_or(|| 2), 1);
    // An already-expired entry is re-evaluated on the next read.
    let mut w = CachedValue::new(1, -1);
    assert_eq!(*w.get(), 1);
    assert_eq!(*w.get_or(|| 2), 2);
    assert_eq!(*w.get(), 2);
}

#[test]
fn cached_value_set_replaces() {
    let mut v = CachedValue::new(10, 1_000_000);
    v.set(20);
    assert_eq!(*v.get(), 20);
}

#[test]
fn timed_value_keeps_value() {
    let mut v = TimedValue::new(7);
    v.bump();
    assert_eq!(v.value, 7);
}

#[test]
fn scroller_returns_short_text_verbatim() {
    let mut s = Scroller::new(20);
    s.set_text("hello");
    assert_eq!(s.display(), String::from("hello"));
    // A text exactly as wide as the viewport also fits.
    let mut t = Scroller::new(5);
    t.set_text("hello");
    assert_eq!(t.display(), String::from("hello"));
}

#[test]
fn scroller_window_fills_viewport() {
    // A text longer than the viewport: whatever the offset, the window is
    // exactly as wide as the viewport.
    let mut s = Scroller::new(10);
    s.set_text("a long scrolling headline");
    for _ in 0..100 {
        let shown = s.display();
        assert_eq!(shown.chars().count(), 10);
    }
}

#[test]
fn scroller_window_starts_at_offset() {
    let mut s = Scroller::new(4);
    s.set_text("abcdefgh");
    s.reset_pos();
    // The offset only moves after the scroll interval; right after a reset
    // the window starts at the beginning of the text.
    assert_eq!(s.display(), String::from("abcd"));
}

#[test]
fn scroller_resize_collapses_nonpositive_widths() {
    let mut s = Scroller::new(10);
    s.set_text("abcdefghijklmnop");
    s.resize(-3);
    s.reset_pos();
    assert_eq!(s.display(), String::from(""));
    s.resize(6);
    s.reset_pos();
    assert_eq!(s.display(), String::from("abcdef"));
}

use barista::bar::Bar;

#[test]
fn bar_basic() {
    let mut b = Bar::new(3, "[", "|", "]", ' ', '_');
    assert_eq!(["", "", ""], b.slots.as_slice());
    assert_eq!("[||]", b.show());

    b.set(1, "abc");
    assert_eq!(["", "abc", ""], b.slots.as_slice());
    assert_eq!("[|abc|]", b.show());

    b.set(2, "def");
    assert_eq!(["", "abc", "def"], b.slots.as_slice());
    assert_eq!("[|abc|def]", b.show());

    b.set(1, "");
    assert_eq!(["", "", "def"], b.slots.as_slice());
    assert_eq!("[||def]", b.show());

    b.set(0, "abc");
    b.set(1, "def");
    b.set(2, "ghi");
    assert_eq!(["abc", "def", "ghi"], b.slots.as_slice());
    assert_eq!("[abc|def|ghi]", b.show());

    b.clear(0);
    assert_eq!(["   ", "def", "ghi"], b.slots.as_slice());
    assert_eq!("[   |def|ghi]", b.show());

    b.expire(1);
    assert_eq!(["   ", "___", "ghi"], b.slots.as_slice());
    assert_eq!("[   |___|ghi]", b.show());
}

#[test]
fn mod_basic() {
    let mut b = Bar::new(3, "[", "|", "]", ' ', '_');
    assert_eq!(["", "", ""], b.slots.as_slice());
    assert_eq!("[||]", b.show());

    b.set(1, "abc");
    assert_eq!(["", "abc", ""], b.slots.as_slice());
    assert_eq!("[|abc|]", b.show());

    b.set(2, "def");
    assert_eq!(["", "abc", "def"], b.slots.as_slice());
    assert_eq!("[|abc|def]", b.show());

    b.set(1, "");
    assert_eq!(["", "", "def"], b.slots.as_slice());
    assert_eq!("[||def]", b.show());

    b.set(0, "abc");
    b.set(1, "def");
    b.set(2, "ghi");
    assert_eq!(["abc", "def", "ghi"], b.slots.as_slice());
    assert_eq!("[abc|def|ghi]", b.show());

    b.clear(0);
    assert_eq!(["   ", "def", "ghi"], b.slots.as_slice());
    assert_eq!("[   |def|ghi]", b.show());

    b.expire(1);
    assert_eq!(["   ", "___", "ghi"], b.slots.as_slice());
    assert_eq!("[   |___|ghi]", b.show());
}

// Clearing and expiring fill with exactly the current slot's character
// count, so an untouched (empty) slot stays empty.
#[test]
fn render_after_clear_and_expire() {
    let mut b = Bar::new(3, "[", "|", "]", ' ', '_');
    b.set(1, "abc");
    b.set(2, "def");
    b.clear(0);
    b.expire(1);
    assert_eq!("[|___|def]", b.show());
}

// Filler width counts characters, not bytes.
#[test]
fn filler_width_chars() {
    let mut b = Bar::new(1, "<", "|", ">", ' ', '_');
    b.set(0, "h\u{e9}llo");
    assert_eq!(5, b.slots[0].chars().count());
    b.expire(0);
    assert_eq!("_____", b.slots[0]);
    b.set(0, "\u{3042}\u{3044}");
    b.clear(0);
    assert_eq!("  ", b.slots[0]);
}

// The composed line is always left pad, slots joined by the separator,
// right pad.
#[test]
fn composition() {
    let mut b = Bar::new(2, ">>", "--", "<<", ' ', '_');
    assert_eq!(">>--<<", b.show());
    b.set(0, "a");
    b.set(1, "b");
    assert_eq!(">>a--b<<", b.show());
    let single = Bar::new(1, "", "|", "", ' ', '_');
    assert_eq!("", single.show());
}

// One composed line per mutation cluster: a second call without a
// mutation yields nothing, any mutation makes the next call yield again.
#[test]
fn dirty_stickiness() {
    let mut b = Bar::new(2, "[", "|", "]", ' ', '_');
    assert_eq!(Some("[|]".to_string()), b.show_unshown());
    assert_eq!(None, b.show_unshown());
    assert_eq!(None, b.show_unshown());
    b.set(0, "x");
    b.set(1, "y");
    assert_eq!(Some("[x|y]".to_string()), b.show_unshown());
    assert_eq!(None, b.show_unshown());
    b.clear(0);
    assert_eq!(Some("[ |y]".to_string()), b.show_unshown());
    b.expire(1);
    assert_eq!(Some("[ |_]".to_string()), b.show_unshown());
    assert_eq!(None, b.show_unshown());
}

#[test]
fn clear_all_clears_every_slot() {
    let mut b = Bar::new(3, "[", "|", "]", ' ', '_');
    b.set(0, "aa");
    b.set(1, "b");
    b.set(2, "cccc");
    b.clear_all();
    assert_eq!(["  ", " ", "    "], b.slots.as_slice());
}

use g13_nexus::config::LcdAlign;
use g13_nexus::lcd::{clear, discover, glyph, show, Frame, BUFFER, H, REPORT_SIZE, W};

fn lines() -> [String; 4] {
    [String::from("TOP"), String::from("MID"), String::new(), String::new()]
}

fn lit_count(f: &Frame) -> usize {
    f.pixels().iter().filter(|&&p| p).count()
}

#[test]
fn new_frame_is_blank() {
    let f = Frame::new();
    assert_eq!(f.buffer.len(), BUFFER);
    assert!(f.buffer.iter().all(|&b| b == 0));
    assert_eq!(lit_count(&clear()), 0);
}

#[test]
fn set_then_pixel_reads_back() {
    let mut f = Frame::new();
    f.set(5, 9, true);
    assert!(f.pixel(5, 9));
    assert_eq!(f.buffer[160 + 5], 0b10);
    f.set(5, 10, true);
    f.set(5, 9, false);
    assert!(!f.pixel(5, 9));
    assert!(f.pixel(5, 10));
    assert_eq!(lit_count(&f), 1);
}

#[test]
fn off_screen_writes_are_ignored() {
    let mut f = Frame::new();
    f.set(-1, 0, true);
    f.set(0, -1, true);
    f.set(160, 0, true);
    f.set(0, 43, true);
    f.set(0, 47, true);
    assert!(f.buffer.iter().all(|&b| b == 0));
    assert!(!f.pixel(200, 0));
    assert!(!f.pixel(0, 43));
}

#[test]
fn hline_fills_a_row() {
    let mut f = Frame::new();
    f.hline(9);
    for x in 0..W {
        assert!(f.pixel(x, 9));
        assert!(!f.pixel(x, 8));
    }
    assert_eq!(lit_count(&f), W);
    let mut g = Frame::new();
    g.hline(45);
    assert_eq!(lit_count(&g), 0);
}

#[test]
fn report_carries_the_buffer() {
    let mut f = Frame::new();
    f.set(159, 42, true);
    let r = f.report();
    assert_eq!(r.len(), REPORT_SIZE);
    assert_eq!(r[0], 3);
    assert!(r[1..32].iter().all(|&b| b == 0));
    assert_eq!(&r[32..], &f.buffer[..]);
    assert_eq!(r[32 + 5 * 160 + 159], 0b100);
}

#[test]
fn font_glyphs() {
    assert_eq!(glyph('A'), [0x7e, 0x11, 0x11, 0x11, 0x7e]);
    assert_eq!(glyph('a'), glyph('A'));
    assert_eq!(glyph(' '), [0; 5]);
    assert_eq!(glyph('~'), [0x02, 0x01, 0x51, 0x09, 0x06]);
    assert_eq!(glyph('é'), glyph('?'));
}

#[test]
fn text_draws_glyph_columns() {
    let mut f = Frame::new();
    f.text(0, 0, "I", 1);
    // 'I' is 0x00 0x41 0x7f 0x41 0x00.
    assert!(!f.pixel(0, 0));
    assert!(f.pixel(1, 0) && f.pixel(1, 6));
    assert!(f.pixel(2, 3));
    assert_eq!(lit_count(&f), 2 + 7 + 2);
    let mut g = Frame::new();
    g.text(0, 0, "I", 2);
    assert_eq!(lit_count(&g), 4 * 11);
    let mut h = Frame::new();
    h.text(0, 0, "I", 0);
    assert_eq!(lit_count(&h), 11);
}

#[test]
fn text_stops_at_the_right_edge() {
    let mut f = Frame::new();
    f.text(150, 0, "III", 1);
    // The first 'I' starts at 150; the next would start at 156 >= 156.
    assert_eq!(lit_count(&f), 11);
}

#[test]
fn aligned_text_positions() {
    let mut f = Frame::new();
    f.text_aligned(0, "I", 1, LcdAlign::Right);
    // Width 5: right-aligned text starts at 160 - 2 - 5 = 153.
    assert!(f.pixel(154, 0));
    let mut g = Frame::new();
    g.text_aligned(0, "I", 1, LcdAlign::Center);
    // Centered: (160 - 5) / 2 = 77.
    assert!(g.pixel(78, 0));
    let mut h = Frame::new();
    h.text_aligned(0, "I", 1, LcdAlign::Left);
    assert!(h.pixel(3, 0));
}

#[test]
fn gray_image_thresholds_at_128() {
    let mut f = Frame::new();
    f.blit_gray(&vec![0, 255, 128, 127], 2, 2, 10, 10);
    assert!(f.pixel(10, 10));
    assert!(!f.pixel(11, 10));
    assert!(!f.pixel(10, 11));
    assert!(f.pixel(11, 11));
    let mut g = Frame::new();
    g.blit_gray(&vec![255, 255, 255, 0], 2, 2, -1, -1);
    assert!(g.pixel(0, 0));
    assert_eq!(lit_count(&g), 1);
    let mut h = Frame::new();
    h.hline(0);
    h.blit_gray(&vec![255], 1, 1, 0, 0);
    assert!(!h.pixel(0, 0));
    assert!(h.pixel(1, 0));
}

#[test]
fn draw_image_scales_through_the_image_crate() {
    let mut f = Frame::new();
    f.draw_image(&vec![0, 0, 0, 0], 2, 2, 4, 3, 0, 0);
    assert_eq!(lit_count(&f), 12);
    let mut g = Frame::new();
    g.draw_image(&vec![0, 255, 255, 0], 2, 2, 2, 2, 0, 0);
    assert!(g.pixel(0, 0) && g.pixel(1, 1));
    assert!(!g.pixel(1, 0) && !g.pixel(0, 1));
    let mut h = Frame::new();
    h.draw_image(&vec![255; 9], 3, 3, 6, 6, 100, 30);
    assert_eq!(lit_count(&h), 0);
}

#[test]
fn pixels_row_major() {
    let mut f = Frame::new();
    f.set(3, 2, true);
    let p = f.pixels();
    assert_eq!(p.len(), W * H);
    assert!(p[2 * W + 3]);
    assert_eq!(p.iter().filter(|&&x| x).count(), 1);
}

#[test]
fn lcd_pages() {
    let custom = lines();
    let align = [LcdAlign::Left; 4];
    let off = show("Default", 1, false, false, 0, &custom, &align, "", None, 127, 127, &Vec::new());
    assert_eq!(lit_count(&off), 0);
    let status = show("Default", 1, false, true, 4, &custom, &align, "", None, 127, 127, &Vec::new());
    for x in 0..W {
        assert!(status.pixel(x, 9));
    }
    let mut expect = Frame::new();
    expect.text(2, 1, "G13 NEXUS", 1);
    expect.hline(9);
    expect.text(2, 12, "PROFILE: Default", 1);
    expect.text(2, 22, "BANK: M1", 1);
    expect.text(2, 32, "MR: READY", 1);
    assert_eq!(status.buffer, expect.buffer);
    let mut img = Frame::new();
    img.set(1, 1, true);
    let shown = show("Default", 1, false, true, 3, &custom, &align, " pic.png ", Some(img), 127, 127, &Vec::new());
    assert!(shown.pixel(1, 1));
    assert_eq!(lit_count(&shown), 1);
    let note = show("Default", 1, false, true, 3, &custom, &align, "  ", None, 127, 127, &Vec::new());
    let mut expect = Frame::new();
    expect.text_aligned(17, "NO IMAGE", 1, LcdAlign::Center);
    assert_eq!(note.buffer, expect.buffer);
    let err = show("Default", 1, false, true, 3, &custom, &align, "x.png", None, 127, 127, &Vec::new());
    let mut expect = Frame::new();
    expect.text_aligned(12, "IMAGE ERROR", 1, LcdAlign::Center);
    expect.text_aligned(24, "CHECK PATH", 1, LcdAlign::Center);
    assert_eq!(err.buffer, expect.buffer);
}

#[test]
fn monitor_and_custom_pages() {
    let custom = lines();
    let align = [LcdAlign::Left, LcdAlign::Right, LcdAlign::Center, LcdAlign::Left];
    let pressed = vec![String::from("G1"), String::from("G2")];
    let mon = show("Race", 2, true, true, 2, &custom, &align, "", None, 5, 200, &pressed);
    let mut expect = Frame::new();
    expect.text(2, 1, "INPUT MONITOR", 1);
    expect.hline(9);
    expect.text(2, 12, "X:005 Y:200", 1);
    expect.text(2, 22, "G1+G2", 1);
    expect.text(2, 32, "M2 Race", 1);
    assert_eq!(mon.buffer, expect.buffer);
    let none = show("Race", 2, true, true, 2, &custom, &align, "", None, 5, 200, &Vec::new());
    let mut expect2 = Frame::new();
    expect2.text(2, 1, "INPUT MONITOR", 1);
    expect2.hline(9);
    expect2.text(2, 12, "X:005 Y:200", 1);
    expect2.text(2, 22, "NONE", 1);
    expect2.text(2, 32, "M2 Race", 1);
    assert_eq!(none.buffer, expect2.buffer);
    let page = show("Race", 2, true, true, 1, &custom, &align, "", None, 0, 0, &Vec::new());
    let mut expect3 = Frame::new();
    expect3.text_aligned(1, "TOP", 1, LcdAlign::Left);
    expect3.text_aligned(11, "MID", 1, LcdAlign::Right);
    assert_eq!(page.buffer, expect3.buffer);
    let rec = show("Race", 3, true, true, 0, &custom, &align, "", None, 0, 0, &Vec::new());
    let mut expect4 = Frame::new();
    expect4.text(2, 1, "G13 NEXUS", 1);
    expect4.hline(9);
    expect4.text(2, 12, "PROFILE: Race", 1);
    expect4.text(2, 22, "BANK: M3", 1);
    expect4.text(2, 32, "MR: RECORDING", 1);
    assert_eq!(rec.buffer, expect4.buffer);
}

#[test]
fn hidraw_discovery() {
    let entries = vec![
        (String::from("hidraw0"), String::from("/sys/devices/pci0000:00/0003:046D:C52B.0001")),
        (String::from("hidraw3"), String::from("/sys/devices/pci0000:00/0003:046D:C21C.0007")),
        (String::from("hidraw4"), String::from("/sys/devices/x/0003:046D:C21C.0008")),
    ];
    assert_eq!(discover(&entries), Some(String::from("/dev/hidraw3")));
    assert_eq!(discover(&entries[..1].to_vec()), None);
    assert_eq!(discover(&vec![(String::from("hidraw1"), String::from("046d:c21c"))]), None);
}

#[test]
fn text_scale_below_one_draws_as_one() {
    let mut one = Frame::new();
    one.text(3, 4, "AB9", 1);
    for scale in [0, -1, -5, i32::MIN] {
        let mut low = Frame::new();
        low.text(3, 4, "AB9", scale);
        assert_eq!(low.buffer, one.buffer);
    }
    let mut aligned_one = Frame::new();
    aligned_one.text_aligned(5, "HI", 1, LcdAlign::Center);
    let mut aligned_zero = Frame::new();
    aligned_zero.text_aligned(5, "HI", 0, LcdAlign::Center);
    assert_eq!(aligned_zero.buffer, aligned_one.buffer);
}

#[test]
fn text_only_turns_pixels_on() {
    let mut f = Frame::new();
    f.hline(3);
    f.set(40, 20, true);
    let before = f.pixels();
    f.text(0, 0, "WXYZ 0123", 2);
    let after = f.pixels();
    for i in 0..before.len() {
        if before[i] {
            assert!(after[i]);
        }
    }
    assert!(lit_count(&f) > W + 1);
}

#[test]
fn empty_text_changes_nothing_at_any_scale() {
    let mut f = Frame::new();
    f.hline(7);
    let before = f.buffer;
    f.text(i32::MAX, i32::MAX, "", i32::MAX);
    f.text(0, 0, "", 0);
    f.text_aligned(i32::MAX, "", i32::MAX - 200, LcdAlign::Left);
    assert_eq!(f.buffer, before);
}

#[test]
fn text_scales_each_font_bit_to_a_square() {
    let mut f = Frame::new();
    f.text(0, 0, "-", 3);
    // `-` is row 3 of all five columns: a 15 by 3 block at rows 9..12.
    assert_eq!(lit_count(&f), 45);
    for x in 0..15 {
        for y in 0..43 {
            assert_eq!(f.pixel(x, y), (9..12).contains(&y));
        }
    }
}

#[test]
fn blank_and_short_glyphs_may_sit_at_the_bottom_of_the_range() {
    // A space has no set row and `-` reaches only row 3, so rows this far
    // down are never computed past the end of `i32`; nothing lands on
    // screen.
    let mut f = Frame::new();
    f.text(0, i32::MAX, "  ", 1);
    f.text(0, i32::MAX - 3, "-", 1);
    f.text(0, i32::MAX - 6, "A", 1);
    assert_eq!(lit_count(&f), 0);
}

#[test]
fn lcd_off_shows_the_cleared_frame() {
    let custom = lines();
    let align = [LcdAlign::Right; 4];
    let mut img = Frame::new();
    img.set(2, 2, true);
    let off = show("Any", 3, true, false, 3, &custom, &align, "pic.png", Some(img), 9, 9, &vec![String::from("G1")]);
    assert_eq!(off.buffer, clear().buffer);
}

#[test]
fn lcd_pages_wrap_every_four() {
    let custom = lines();
    let align = [LcdAlign::Center; 4];
    let pressed = vec![String::from("G5")];
    for page in [0u8, 1, 2, 3, 5, 250, 255] {
        let a = show("Wrap", 2, false, true, page, &custom, &align, "", None, 1, 2, &pressed);
        let b = show("Wrap", 2, false, true, page % 4, &custom, &align, "", None, 1, 2, &pressed);
        assert_eq!(a.buffer, b.buffer);
    }
}

use shell_screen::character::{Attribute, Character, Color, Operate};
use shell_screen::display::Display;
use shell_screen::feed::Feed;
use shell_screen::winsz::Winszed;

fn screen(rows: u16, cols: u16) -> Display {
    Display::from_winszed(Winszed::new(rows, cols))
}

fn glyph_at(d: &Display, x: usize, y: usize) -> char {
    let cols = d.get_window_size().get_col();
    d.get_cell(x + y * cols).unwrap().get_glyph()
}

#[test]
fn character_basics() {
    let op = Operate { attribute: 1, foreground: Color::Red, background: Color::Blue };
    let c = Character::new('x', op);
    assert_eq!(c.get_glyph(), 'x');
    assert_eq!(*c.get_attributes(), op);
    assert!(!c.is_space());
    assert!(!c.is_enter());
    assert!(Character::new('\n', op).is_enter());
    assert!(Character::default().is_space());
    let mut d = c;
    d.clear();
    assert_eq!(d, Character::default());
    assert_eq!(Character::from('q').get_glyph(), 'q');
    assert_eq!(*Character::from('q').get_attributes(), Operate::new());
}

#[test]
fn character_attributes() {
    let mut c = Character::default();
    c.add_attribute(Attribute::Bold);
    c.add_attribute(Attribute::Underline);
    assert_eq!(c.get_attribute(), 1 | 8);
    c.sub_attribute(Attribute::Bold);
    assert_eq!(c.get_attribute(), 8);
    c.set_attribute(Attribute::Dim);
    assert_eq!(c.get_attribute(), 2);
    c.set_foreground(Color::Green);
    c.set_background(Color::Yellow);
    assert_eq!(c.get_foreground(), Color::Green);
    assert_eq!(c.get_background(), Color::Yellow);
}

#[test]
fn new_screen_is_blank() {
    let d = screen(3, 4);
    assert_eq!(d.get_cursor_coords(), (0, 0));
    assert_eq!(d.get_region(), (0, 3));
    assert_eq!(d.get_newline(), vec![(3, 0), (3, 1), (3, 2)]);
    for i in 0..12 {
        assert_eq!(d.get_cell(i), Some(Character::default()));
    }
    assert_eq!(d.get_cell(12), None);
    assert!(!d.get_ss());
    assert_eq!(d.get_mouse(), (false, false, false, false));
}

#[test]
fn clear_resets_cells_and_boundaries() {
    let mut d = screen(3, 4);
    d.write(b"abcdefg\x1b[1;31mhi");
    d.clear();
    for i in 0..12 {
        assert_eq!(d.get_cell(i), Some(Character::default()));
    }
    assert_eq!(d.get_newline(), vec![(3, 0), (3, 1), (3, 2)]);
}

#[test]
fn motions_stay_on_the_grid() {
    let mut d = screen(5, 7);
    d.goto_up(3);
    assert_eq!(d.get_cursor_coords(), (0, 0));
    d.goto_down(100);
    assert_eq!(d.get_cursor_coords(), (0, 4));
    d.goto_right(usize::MAX);
    assert_eq!(d.get_cursor_coords(), (6, 4));
    d.goto_left(2);
    assert_eq!(d.get_cursor_coords(), (4, 4));
    d.goto_coord(100, 100);
    assert_eq!(d.get_cursor_coords(), (6, 4));
    d.goto(9);
    assert_eq!(d.get_cursor_coords(), (2, 1));
    d.goto_end_row();
    assert_eq!(d.get_cursor_coords(), (6, 1));
    d.goto_begin_row();
    assert_eq!(d.get_cursor_coords(), (0, 1));
    d.write(b"\x1b[3;4H");
    assert_eq!(d.get_cursor_coords(), (3, 2));
    d.write(b"\x1b[99A\x1b[99D");
    assert_eq!(d.get_cursor_coords(), (0, 0));
    d.write(b"\x1b[99B\x1b[99C");
    assert_eq!(d.get_cursor_coords(), (6, 4));
    d.goto_home();
    assert_eq!(d.get_cursor_coords(), (0, 0));
}

#[test]
fn rendition_sequence_styles_cells() {
    let mut d = screen(2, 10);
    assert_eq!(d.write(b"\x1b[1;31mA\x1b[0mB"), 13);
    let a = d.get_cell(0).unwrap();
    assert_eq!(a.get_glyph(), 'A');
    assert_eq!(a.get_attribute() & Attribute::Bold.bit(), Attribute::Bold.bit());
    assert_eq!(a.get_foreground(), Color::Red);
    let b = d.get_cell(1).unwrap();
    assert_eq!(b.get_glyph(), 'B');
    assert_eq!(*b.get_attributes(), Operate::new());
}

#[test]
fn rendition_codes() {
    let mut d = screen(1, 10);
    d.write(b"\x1b[1;2;4;44m");
    assert_eq!(d.get_collection().get_attribute(), 1 | 2 | 8);
    assert_eq!(d.get_collection().get_background(), Color::Blue);
    d.write(b"\x1b[22;39;49;77m");
    assert_eq!(d.get_collection().get_attribute(), 8);
    assert_eq!(d.get_collection().get_foreground(), Color::Black);
    assert_eq!(d.get_collection().get_background(), Color::White);
    d.write(b"\x1b[m");
    assert_eq!(d.get_collection(), Character::default());
}

#[test]
fn inverted_scroll_region_is_ignored() {
    let mut d = screen(10, 20);
    d.write(b"\x1b[5;3r");
    assert_eq!(d.get_region(), (0, 10));
    d.write(b"\x1b[0;3r");
    assert_eq!(d.get_region(), (0, 10));
    d.write(b"\x1b[2;5r");
    assert_eq!(d.get_region(), (1, 5));
    d.write(b"\x1b[3;99r");
    assert_eq!(d.get_region(), (2, 10));
}

#[test]
fn tab_moves_to_next_stop() {
    let mut d = screen(2, 40);
    d.write(b"\x1b[4G");
    assert_eq!(d.get_cursor_coords(), (3, 0));
    d.write(b"\t");
    assert_eq!(d.get_cursor_coords(), (8, 0));
    d.write(b"\t");
    assert_eq!(d.get_cursor_coords(), (16, 0));
    d.write(b"\r\t");
    assert_eq!(d.get_cursor_coords(), (8, 0));
    assert_eq!(d.next_tab(), 8);
}

#[test]
fn tab_wraps_past_last_column() {
    let mut d = screen(2, 10);
    d.write(b"\x1b[9G\t");
    assert_eq!(d.get_cursor_coords(), (0, 1));
}

#[test]
fn tab_from_column_78_of_80_wraps() {
    let mut d = screen(24, 80);
    d.goto_coord(78, 0);
    d.write(b"\t");
    assert_eq!(d.get_cursor_coords(), (0, 1));
}

#[test]
fn tab_wrap_on_region_bottom_scrolls() {
    let mut d = screen(2, 10);
    d.write(b"\x1b[?25lA\x1b[2;1HB\x1b[2;9H\t");
    assert_eq!(d.get_cursor_coords(), (0, 1));
    assert_eq!(glyph_at(&d, 0, 0), 'B');
    assert_eq!(glyph_at(&d, 0, 1), ' ');
}

#[test]
fn tab_shifts_the_row_right() {
    let mut d = screen(2, 12);
    d.write(b"\x1b[?25lab\x1b[1Gxyz\x1b[2G\t");
    assert_eq!(glyph_at(&d, 0, 0), 'x');
    assert_eq!(glyph_at(&d, 1, 0), ' ');
    assert_eq!(glyph_at(&d, 8, 0), 'y');
    assert_eq!(glyph_at(&d, 9, 0), 'z');
}

#[test]
fn line_feeds_scroll_at_region_bottom() {
    let mut d = screen(10, 5);
    d.write(b"A\nB");
    assert_eq!(d.get_cursor_coords(), (1, 1));
    d.write(b"\n\n\n\n\n\n\n\n");
    assert_eq!(d.get_cursor_coords(), (0, 9));
    assert_eq!(glyph_at(&d, 0, 0), 'A');
    d.write(b"\n");
    assert_eq!(d.get_cursor_coords(), (0, 9));
    assert_eq!(glyph_at(&d, 0, 0), 'B');
}

#[test]
fn nine_line_feeds_reach_the_last_row() {
    let mut d = screen(10, 5);
    d.write(b"\n\n\n\n\n\n\n\n\n");
    assert_eq!(d.get_cursor_coords(), (0, 9));
    d.write(b"\n");
    assert_eq!(d.get_cursor_coords(), (0, 9));
}

#[test]
fn wrap_at_last_column() {
    let mut d = screen(2, 3);
    d.write(b"abcd");
    assert_eq!(glyph_at(&d, 2, 0), 'c');
    assert_eq!(glyph_at(&d, 0, 1), 'd');
    assert_eq!(d.get_cursor_coords(), (1, 1));
    assert_eq!(d.get_newline(), vec![(2, 1)]);
}

#[test]
fn wrap_on_last_row_scrolls() {
    let mut d = screen(2, 3);
    d.write(b"\x1b[?25labcdefg");
    assert_eq!(glyph_at(&d, 0, 0), 'd');
    assert_eq!(glyph_at(&d, 2, 0), 'f');
    assert_eq!(glyph_at(&d, 0, 1), 'g');
    assert_eq!(d.get_cursor_coords(), (1, 1));
}

#[test]
fn scroll_up_then_down_restores_other_rows() {
    let mut d = screen(4, 3);
    d.write(b"\x1b[?25labcdefghijk");
    let before = d.into_bytes();
    d.scroll_up(1);
    assert_eq!(d.into_bytes(), b"abcghijk    ".to_vec());
    d.scroll_down(1);
    let after = d.into_bytes();
    assert_eq!(&after[0..3], &before[0..3]);
    assert_eq!(&after[3..6], b"   ");
    assert_eq!(&after[6..12], &before[6..12]);
}

#[test]
fn scroll_round_trip_of_blank_row() {
    let mut d = screen(4, 3);
    d.write(b"\x1b[?25labc   ghijk");
    let before = d.into_bytes();
    d.scroll_up(1);
    d.scroll_down(1);
    assert_eq!(d.into_bytes(), before);
}

#[test]
fn resize_grow_then_shrink_keeps_cells() {
    let mut d = screen(2, 3);
    d.write(b"\x1b[?25labcde");
    let before = d.into_bytes();
    d.resize_with(&Winszed::new(5, 7));
    assert_eq!(d.get_window_size().get_row(), 5);
    assert_eq!(glyph_at(&d, 0, 1), 'd');
    assert_eq!(glyph_at(&d, 3, 0), ' ');
    assert_eq!(d.get_region(), (0, 5));
    d.resize_with(&Winszed::new(2, 3));
    assert_eq!(d.into_bytes(), before);
    assert_eq!(d.get_region(), (0, 2));
}

#[test]
fn resize_shrink_moves_cursor() {
    let mut d = screen(5, 6);
    d.goto_coord(4, 4);
    d.resize_with(&Winszed::new(3, 3));
    assert_eq!(d.get_cursor_coords(), (2, 2));
    assert_eq!(d.get_newline(), vec![(2, 0), (2, 1), (2, 2)]);
}

#[test]
fn resize_to_zero_changes_nothing() {
    let mut d = screen(2, 3);
    d.write(b"ab");
    let before = d.into_bytes();
    d.resize_with(&Winszed::new(0, 9));
    assert_eq!(d.get_window_size().get_row(), 2);
    assert_eq!(d.into_bytes(), before);
}

#[test]
fn zero_area_screen_ignores_writes() {
    let mut d = screen(0, 0);
    assert_eq!(d.write(b"hello\x1b[2J"), 9);
    assert_eq!(d.get_cursor_coords(), (0, 0));
    assert_eq!(d.get_cell(0), None);
    assert!(d.get_newline().is_empty());
}

#[test]
fn numbers_are_read_with_separators() {
    let d = screen(1, 1);
    let buf = b"12;34;H";
    assert_eq!(d.catch_numbers(buf, 0), (vec![12, 34], 6));
    assert_eq!(d.catch_numbers(b"7m", 0), (vec![7], 1));
    assert_eq!(d.catch_numbers(b"x", 0), (vec![], 0));
    assert_eq!(d.catch_numbers(b"99999999999999999999999;1", 0), (vec![], 0));
}

#[test]
fn multibyte_glyphs_are_decoded() {
    let mut d = screen(1, 6);
    d.write("é€𝄞".as_bytes());
    assert_eq!(glyph_at(&d, 0, 0), 'é');
    assert_eq!(glyph_at(&d, 1, 0), '€');
    assert_eq!(glyph_at(&d, 2, 0), '𝄞');
    assert_eq!(d.get_cursor_coords(), (3, 0));
}

#[test]
fn invalid_code_point_prints_replacement() {
    let mut d = screen(1, 4);
    d.write(&[0xED, 0xA0, 0x80, 0x00]);
    assert_eq!(glyph_at(&d, 0, 0), '\u{FFFD}');
    assert_eq!(glyph_at(&d, 1, 0), ' ');
    assert_eq!(d.get_cursor_coords(), (2, 0));
}

#[test]
fn truncated_glyph_is_dropped() {
    let mut d = screen(1, 4);
    d.write(&[b'a', 0xE2, 0x82]);
    assert_eq!(d.get_cursor_coords(), (1, 0));
    assert_eq!(glyph_at(&d, 0, 0), 'a');
}

#[test]
fn erase_sequences() {
    let mut d = screen(3, 4);
    d.write(b"\x1b[?25labcdefgh\x1b[1;3H\x1b[K");
    assert_eq!(d.into_bytes(), b"ab          ".to_vec());
    d.write(b"\x1b[2J");
    assert_eq!(d.into_bytes(), b"            ".to_vec());
}

#[test]
fn erase_and_insert_chars() {
    let mut d = screen(3, 4);
    d.write(b"\x1b[?25labcdefgh\x1b[1;2H\x1b[P");
    assert_eq!(d.into_bytes(), b"acdefgh     ".to_vec());
    d.write(b"\x1b[2@");
    assert_eq!(d.into_bytes(), b"a  cdefgh   ".to_vec());
}

#[test]
fn erase_line_and_screen_parts() {
    let mut d = screen(4, 3);
    d.write(b"\x1b[?25lab\r\ncd\r\nef\x1b[2;2H\x1b[2K");
    assert_eq!(d.into_bytes(), b"ab    ef    ".to_vec());
    let mut e = screen(4, 3);
    e.write(b"\x1b[?25lab\r\ncd\r\nef\x1b[2;1H\x1b[J");
    assert_eq!(e.into_bytes(), b"ab          ".to_vec());
    let mut f = screen(4, 3);
    f.write(b"\x1b[?25lab\r\ncd\r\nef\x1b[2;1H\x1b[1J");
    assert_eq!(f.into_bytes(), b"    d ef    ".to_vec());
}

#[test]
fn insert_line_pushes_rows_down() {
    let mut d = screen(4, 3);
    d.write(b"\x1b[?25lab\r\ncd\r\nef\x1b[1;1H\x1b[L");
    assert_eq!(d.into_bytes(), b"   ab cd ef ".to_vec());
}

#[test]
fn bell_counts() {
    let mut d = screen(1, 1);
    d.write(b"\x07\x07");
    assert_eq!(d.get_bell(), 2);
}

#[test]
fn mouse_and_mode_flags() {
    let mut d = screen(1, 1);
    d.write(b"\x1b[?9h\x1b[?1002h\x1b[?1h\x1b[7l");
    assert_eq!(d.get_mouse(), (true, false, true, false));
    assert!(d.get_ss());
    assert!(!d.get_line_wrap());
    d.write(b"\x1b[?9l\x1b[?1000h\x1b[?1006h\x1b[?1l\x1b[?7h");
    assert_eq!(d.get_mouse(), (false, true, true, true));
    assert!(!d.get_ss());
    assert!(d.get_line_wrap());
    d.write(b"\x1b[?7l");
    assert!(!d.get_line_wrap());
    d.write(b"\x1b[20h");
    assert!(d.get_line_wrap());
}

#[test]
fn alternate_screen_round_trip() {
    let mut d = screen(2, 3);
    d.write(b"\x1b[?25labc");
    let before = d.into_bytes();
    d.write(b"\x1b[?1049h\x1b[2Jxyz\x1b[?1h");
    assert!(d.has_saved_terminal());
    assert_eq!(glyph_at(&d, 0, 0), 'x');
    assert_eq!(glyph_at(&d, 2, 0), 'z');
    d.write(b"\x1b[?1049l");
    assert!(!d.has_saved_terminal());
    assert_eq!(d.into_bytes(), before);
    assert!(!d.get_ss());
}

#[test]
fn cursor_save_and_restore() {
    let mut d = screen(4, 4);
    d.write(b"\x1b[3;2H\x1b[s\x1b[H\x1b[u");
    assert_eq!(d.get_cursor_coords(), (1, 2));
    d.write(b"\x1b[1;1H\x1b7\x1b[4;4H\x1b8");
    assert_eq!(d.get_cursor_coords(), (0, 0));
}

#[test]
fn cursor_marking_follows_visibility() {
    let mut d = screen(1, 3);
    d.write(b"a");
    let marked = d.get_cell(1).unwrap();
    assert_eq!(marked.get_foreground(), Color::Red);
    assert_eq!(marked.get_background(), Color::Cyan);
    d.write(b"\x1b[?25l");
    assert_eq!(*d.get_cell(1).unwrap().get_attributes(), Operate::new());
    assert!(!d.get_show_cursor());
}

#[test]
fn legacy_forms_alone_end_the_chunk() {
    let mut d = screen(3, 3);
    d.goto_coord(1, 2);
    d.write(b"A\x08");
    assert_eq!(d.get_cursor_coords(), (1, 1));
    d.write(b"\x08");
    assert_eq!(d.get_cursor_coords(), (0, 1));
}

#[test]
fn reverse_index_direction_follows_soft_shift() {
    let mut d = screen(3, 2);
    d.write(b"\x1b[?25la\r\nb\r\nc\x1b[1;1H\x1bM");
    assert_eq!(d.into_bytes(), b"b c   ".to_vec());
    d.write(b"\x1b[?1h\x1bM");
    assert_eq!(d.into_bytes(), b"  b c ".to_vec());
}

#[test]
fn numeric_scroll_counts() {
    let mut d = screen(3, 2);
    d.write(b"\x1b[?25la\r\nb\r\nc\x1b[2S");
    assert_eq!(d.into_bytes(), b"c     ".to_vec());
    d.write(b"\x1b[9T");
    assert_eq!(d.into_bytes(), b"      ".to_vec());
}

#[test]
fn unknown_sequences_are_consumed() {
    let mut d = screen(1, 5);
    d.write(b"\x1b[?2004hx\x1b]0;ty\x1bZz");
    assert_eq!(glyph_at(&d, 0, 0), 'x');
    assert_eq!(glyph_at(&d, 1, 0), 'y');
    assert_eq!(glyph_at(&d, 2, 0), 'z');
    assert_eq!(d.get_cursor_coords(), (3, 0));
}

#[test]
fn text_rendering() {
    let mut d = screen(2, 2);
    d.write(b"\x1b[?25l\x1b[1;32mab\x1b[0mc");
    let bold_green = "\x1b[0;1;32;40m";
    let plain = "\x1b[0;37;40m";
    let expected = format!("{bold_green}a{bold_green}b\n{plain}c{plain} ");
    assert_eq!(d.to_text(), expected);
    assert_eq!(Character::default().to_text(), format!("{plain} "));
}

#[test]
fn bytes_dump_takes_first_encoded_byte() {
    let mut d = screen(2, 3);
    d.write("aé€𝄞".as_bytes());
    assert_eq!(d.into_bytes(), vec![b'a', 0xC3, 0xE2, 0xF0, b' ', b' ']);
}

#[test]
fn set_window_size_resizes() {
    let mut d = screen(2, 2);
    d.set_window_size(&Winszed::new(3, 4));
    assert_eq!(d.get_window_size().get_row(), 3);
    assert_eq!(d.get_window_size().get_col(), 4);
    assert_eq!(d.get_cell(11), Some(Character::default()));
}

#[test]
fn default_screen_has_no_cells() {
    let mut d = Display::default();
    assert_eq!(d.get_window_size().row_by_col(), 0);
    assert_eq!(d.write(b"abc"), 3);
    assert_eq!(d.get_cell(0), None);
}

#[test]
fn split_glyph_is_held_for_next_chunk() {
    let mut d = screen(1, 4);
    let mut feed = Feed::new(true);
    assert_eq!(feed.write(&mut d, &[b'a', 0xC3]), 2);
    assert_eq!(feed.held(), &vec![0xC3]);
    assert_eq!(d.get_cursor_coords(), (1, 0));
    assert_eq!(feed.write(&mut d, &[0xA9, b'b']), 2);
    assert!(feed.held().is_empty());
    assert_eq!(glyph_at(&d, 1, 0), 'é');
    assert_eq!(glyph_at(&d, 2, 0), 'b');
}

#[test]
fn split_glyph_is_dropped_without_holding() {
    let mut d = screen(1, 4);
    let mut feed = Feed::new(false);
    feed.write(&mut d, &[b'a', 0xE2, 0x82]);
    assert!(feed.held().is_empty());
    feed.write(&mut d, &[0xAC, b'b']);
    assert_eq!(glyph_at(&d, 0, 0), 'a');
    assert_eq!(glyph_at(&d, 1, 0), 'b');
}

#[test]
fn empty_screen_keeps_no_snapshot() {
    let mut d = screen(0, 0);
    d.save_terminal();
    assert!(!d.has_saved_terminal());
}

#[test]
fn one_row_top_region_wrap_returns_to_column_zero() {
    let mut d = screen(24, 80);
    d.write(b"\x1b[1;1r\x1b[1;80H");
    assert_eq!(d.get_region(), (0, 1));
    assert_eq!(d.get_cursor_coords(), (79, 0));
    d.write(b"\x1b[?25lZ");
    assert_eq!(d.get_cursor_coords(), (0, 0));
    assert_eq!(glyph_at(&d, 0, 0), ' ');
    assert_eq!(glyph_at(&d, 79, 0), ' ');
}

#[test]
fn lead_byte_without_continuation_is_skipped_alone() {
    let mut d = screen(1, 6);
    d.write(&[0xC3, b'A', 0xE2, 0x82, b'B']);
    assert_eq!(glyph_at(&d, 0, 0), 'A');
    assert_eq!(glyph_at(&d, 1, 0), 'B');
    assert_eq!(d.get_cursor_coords(), (2, 0));
}

#[test]
fn overlong_form_prints_replacement() {
    let mut d = screen(1, 4);
    d.write(&[0xC1, 0x81, 0xE0, 0x80, 0x80]);
    assert_eq!(glyph_at(&d, 0, 0), '\u{FFFD}');
    assert_eq!(glyph_at(&d, 1, 0), '\u{FFFD}');
    assert_eq!(d.get_cursor_coords(), (2, 0));
}

#[test]
fn write_stops_after_leaving_alternate_screen() {
    let mut d = screen(2, 4);
    d.write(b"\x1b[?25lab\x1b[?1049h");
    let chunk = b"xy\x1b[?1049lcd";
    let (reached, restored) = d.write_through_restore(chunk);
    assert!(restored);
    assert_eq!(reached, 10);
    assert_eq!(glyph_at(&d, 0, 0), 'a');
    assert_eq!(d.get_cursor_coords(), (2, 0));
    let (rest, again) = d.write_through_restore(&chunk[reached..]);
    assert!(!again);
    assert_eq!(rest, 2);
    assert_eq!(glyph_at(&d, 2, 0), 'c');
    assert_eq!(glyph_at(&d, 3, 0), 'd');
}

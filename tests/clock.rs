use tock::font;
use tock::term::Color;
use tock::time::Date;
use tock::time::Moment;
use tock::time::Time;
use tock::view::Clock;

fn at(year: i32, month: u8, day: u8, hour: u8, minute: u8, second: u8) -> Moment {
    Moment { year, month, day, hour, minute, second }
}

/// One cell row painted by a frame: its SGR code, its 1-based row and
/// column, and how many spaces were written.
#[derive(Debug, PartialEq)]
struct Write {
    sgr: String,
    row: u32,
    col: u32,
    text: String,
}

/// Splits a frame into its writes: SGR, cursor move, then text.
fn writes(out: &[u8]) -> Vec<Write> {
    let s = String::from_utf8(out.to_vec()).unwrap();
    let mut result = Vec::new();
    let parts: Vec<&str> = s.split('\x1b').filter(|p| !p.is_empty()).collect();
    let mut k = 0;
    while k < parts.len() {
        let sgr = parts[k].strip_prefix('[').unwrap().strip_suffix('m').unwrap().to_string();
        let mv = parts[k + 1].strip_prefix('[').unwrap();
        let h = mv.find('H').unwrap();
        let (pos, text) = mv.split_at(h);
        let mut it = pos.split(';');
        let row: u32 = it.next().unwrap().parse().unwrap();
        let col: u32 = it.next().unwrap().parse().unwrap();
        result.push(Write { sgr, row, col, text: text[1..].to_string() });
        k += 2;
    }
    result
}

fn lit_cells(g: u16) -> usize {
    g.count_ones() as usize
}

#[test]
fn blank_to_ten_oh_nine_paints_every_lit_cell() {
    let mut c = Clock::start(0, 0, 1, 1, "+00:00".to_string(), Color::Red, false, false);
    let out = c.draw_at(&at(2024, 5, 6, 10, 9, 0));
    let ws = writes(&out);
    let cells: Vec<&Write> = ws.iter().filter(|w| w.sgr == "41").collect();
    let expected = lit_cells(font::digit(1))
        + lit_cells(font::digit(0))
        + lit_cells(font::COLON)
        + lit_cells(font::digit(0))
        + lit_cells(font::digit(9));
    assert_eq!(cells.len(), expected);
    assert!(cells.iter().all(|w| w.text == " "));
    // The '1' is the right-hand column of the first glyph.
    assert_eq!(cells[0], &Write { sgr: "41".to_string(), row: 1, col: 3, text: " ".to_string() });
    // Only the date line uses the default colors.
    let rest: Vec<&Write> = ws.iter().filter(|w| w.sgr != "41").collect();
    assert_eq!(rest.len(), 1);
    assert_eq!(rest[0], &Write { sgr: "0".to_string(), row: 7, col: 7, text: "2024-05-06".to_string() });
}

#[test]
fn next_second_repaints_only_the_seconds() {
    let mut c = Clock::start(0, 0, 1, 1, "+00:00".to_string(), Color::Green, true, true);
    c.draw_at(&at(2024, 5, 6, 10, 9, 30));
    let out = c.draw_at(&at(2024, 5, 6, 10, 9, 31));
    let ws = writes(&out);
    assert!(!ws.is_empty());
    // The last two glyphs start at columns 24 and 28 (1-based 25 and 29).
    assert!(ws.iter().all(|w| w.col >= 29));
    let diff = font::digit(0) ^ font::digit(1);
    assert_eq!(ws.len(), lit_cells(diff));
    let lit = ws.iter().filter(|w| w.sgr == "42").count();
    assert_eq!(lit, lit_cells(font::digit(1) & !font::digit(0)));
}

#[test]
fn date_line_only_when_the_date_changes() {
    let mut c = Clock::start(2, 3, 1, 1, "+00:00".to_string(), Color::Blue, true, true);
    c.draw_at(&at(2024, 5, 6, 23, 59, 58));
    let out = c.draw_at(&at(2024, 5, 6, 23, 59, 59));
    assert!(writes(&out).iter().all(|w| w.sgr != "0" || w.text == " "));
    assert!(!String::from_utf8(out).unwrap().contains("2024"));
    let out = c.draw_at(&at(2024, 5, 7, 0, 0, 0));
    let ws = writes(&out);
    let dates: Vec<&Write> = ws.iter().filter(|w| w.text.len() > 1).collect();
    assert_eq!(dates.len(), 1);
    // Face is 4 * 8 - 1 = 31 wide: column 2 + 15 - 5 = 12, row 3 + 5 + 1 = 9.
    assert_eq!(dates[0], &Write { sgr: "0".to_string(), row: 10, col: 13, text: "2024-05-07".to_string() });
    assert_eq!(ws.last().unwrap(), dates[0]);
}

#[test]
fn same_reading_twice_draws_nothing() {
    let mut c = Clock::start(5, 5, 2, 2, "+00:00".to_string(), Color::White, true, false);
    let m = at(2030, 12, 31, 17, 45, 12);
    assert!(!c.draw_at(&m).is_empty());
    assert!(c.draw_at(&m).is_empty());
}

#[test]
fn reset_clears_and_forces_a_full_repaint() {
    let mut c = Clock::start(0, 0, 1, 1, "+00:00".to_string(), Color::Yellow, false, true);
    let m = at(2024, 1, 2, 8, 0, 0);
    let first = c.draw_at(&m);
    assert_eq!(c.reset(), b"\x1b[0m\x1b[2J".to_vec());
    let again = c.draw_at(&m);
    assert_eq!(first, again);
    let painted = writes(&again).iter().filter(|w| w.sgr == "43").count();
    let expected = 3 * lit_cells(font::digit(0)) + lit_cells(font::digit(8)) + lit_cells(font::COLON);
    assert_eq!(painted, expected);
}

#[test]
fn cells_span_their_width_and_height() {
    let mut c = Clock::start(1, 1, 3, 2, "+00:00".to_string(), Color::Cyan, false, true);
    let out = c.draw_at(&at(2024, 1, 2, 1, 0, 0));
    let ws = writes(&out);
    // The first lit cell of "01:00" is cell 0 of the first '0', two rows high.
    assert_eq!(ws[0], Write { sgr: "46".to_string(), row: 2, col: 2, text: "   ".to_string() });
    assert_eq!(ws[1], Write { sgr: "46".to_string(), row: 3, col: 2, text: "   ".to_string() });
    assert_eq!(ws[2].col, 5);
}

#[test]
fn zero_width_cells_still_write_one_column() {
    let mut c = Clock::start(0, 0, 0, 1, "+00:00".to_string(), Color::Red, false, true);
    let out = c.draw_at(&at(2024, 1, 2, 1, 0, 0));
    assert!(writes(&out).iter().filter(|w| w.sgr == "41").all(|w| w.text == " "));
    assert_eq!(c.width(), 0);
}

#[test]
fn twelve_and_twenty_four_hour_faces() {
    let m = at(2024, 1, 2, 13, 5, 0);
    assert_eq!(Time::at(&m, false, true).len(), 6);
    let mut civil = Clock::start(0, 0, 1, 1, "+00:00".to_string(), Color::Red, false, false);
    let mut military = Clock::start(0, 0, 1, 1, "+00:00".to_string(), Color::Red, false, false);
    military.toggle_military();
    let a = writes(&civil.draw_at(&m)).iter().filter(|w| w.sgr == "41").count();
    let b = writes(&military.draw_at(&m)).iter().filter(|w| w.sgr == "41").count();
    let tail = lit_cells(font::COLON) + lit_cells(font::digit(0)) + lit_cells(font::digit(5));
    assert_eq!(a, lit_cells(font::digit(0)) + lit_cells(font::digit(1)) + tail);
    assert_eq!(b, lit_cells(font::digit(1)) + lit_cells(font::digit(3)) + tail);
    let midnight = at(2024, 1, 2, 0, 0, 0);
    let mut c = Clock::start(0, 0, 1, 1, "+00:00".to_string(), Color::Red, false, false);
    let n = writes(&c.draw_at(&midnight)).iter().filter(|w| w.sgr == "41").count();
    assert_eq!(n, lit_cells(font::digit(1)) + lit_cells(font::digit(2)) + lit_cells(font::COLON) + 2 * lit_cells(font::digit(0)));
}

#[test]
fn width_and_height_follow_cells_and_digits() {
    let mut c = Clock::start(0, 0, 2, 3, "+00:00".to_string(), Color::Red, false, false);
    assert_eq!(c.width(), 47);
    assert_eq!(c.height(), 15);
    c.toggle_second();
    assert_eq!(c.width(), 63);
    let big = Clock::start(0, 0, 65535, 65535, "+00:00".to_string(), Color::Red, true, false);
    assert_eq!(big.width(), 4 * 65535 * 8 - 1);
    assert_eq!(big.height(), 5 * 65535);
}

#[test]
fn center_places_the_face_in_the_middle() {
    let mut c = Clock::start(0, 0, 1, 1, "+00:00".to_string(), Color::Red, false, false);
    c.center((80, 24));
    // x = 40 - 11 = 29, y = 12 - 2 = 10.
    let ws = writes(&c.draw_at(&at(2024, 1, 2, 10, 0, 0)));
    assert_eq!((ws[0].row, ws[0].col), (11, 32));
    let mut small = Clock::start(7, 7, 4, 4, "+00:00".to_string(), Color::Red, false, false);
    small.center((10, 5));
    let ws = writes(&small.draw_at(&at(2024, 1, 2, 10, 0, 0)));
    assert_eq!((ws[0].row, ws[0].col), (1, 9));
}

#[test]
fn set_color_changes_the_paint_of_lit_cells() {
    let mut c = Clock::start(0, 0, 1, 1, "+00:00".to_string(), Color::Red, false, false);
    c.set_color(Color::Magenta);
    let ws = writes(&c.draw_at(&at(2024, 1, 2, 10, 0, 0)));
    assert!(ws.iter().filter(|w| w.text.len() == 1).all(|w| w.sgr == "45"));
    c.set_color(Color::Black);
    c.reset();
    let ws = writes(&c.draw_at(&at(2024, 1, 2, 10, 0, 0)));
    assert!(ws.iter().filter(|w| w.text.len() == 1).all(|w| w.sgr == "40"));
}

#[test]
fn toggled_seconds_paint_the_new_positions() {
    let mut c = Clock::start(0, 0, 1, 1, "+00:00".to_string(), Color::Red, false, true);
    c.draw_at(&at(2024, 1, 2, 10, 0, 0));
    c.toggle_second();
    let ws = writes(&c.draw_at(&at(2024, 1, 2, 10, 0, 0)));
    let expected = lit_cells(font::COLON) + 2 * lit_cells(font::digit(0));
    assert_eq!(ws.len(), expected);
    assert!(ws.iter().all(|w| w.col >= 21));
}

#[test]
fn date_text_is_padded() {
    assert_eq!(Date { year: 2024, month: 5, day: 6 }.text(), b"2024-05-06".to_vec());
    assert_eq!(Date { year: 7, month: 12, day: 31 }.text(), b"0007-12-31".to_vec());
    assert_eq!(Date { year: -44, month: 3, day: 15 }.text(), b"-0044-03-15".to_vec());
    assert_eq!(Date { year: 123456, month: 1, day: 1 }.text(), b"123456-01-01".to_vec());
    assert_eq!(Date::default(), Date { year: 0, month: 0, day: 0 });
}

#[test]
fn blank_rows_match_face_widths() {
    let m = at(2024, 1, 2, 10, 0, 0);
    for second in [false, true] {
        for military in [false, true] {
            let blank = Time::blank(second, military);
            let face = Time::at(&m, second, military);
            assert_eq!(blank.len(), face.len());
            assert_eq!(Time::width(second, military), face.len());
            assert!((0..blank.len()).all(|k| blank.glyph(k) == 0));
        }
    }
    assert_eq!(Time::width(false, false), 6);
    assert_eq!(Time::width(true, false), 8);
}

#[test]
fn glyphs_of_the_font() {
    assert_eq!(font::digit(0), 0b111_101_101_101_111);
    assert_eq!(font::digit(8), 0b111_101_111_101_111);
    assert_eq!(lit_cells(font::digit(1)), 5);
    assert_eq!(lit_cells(font::COLON), 2);
    let t = Time::at(&at(2024, 1, 2, 12, 34, 56), true, true);
    assert_eq!(t.glyph(2), font::COLON);
    assert_eq!(t.glyph(7), font::digit(6));
    assert_eq!(t.glyph(8), font::BLANK);
}

#[test]
fn sync_delay_reaches_the_next_second() {
    assert_eq!(Clock::sync_delay(0), 1_000_000_000);
    assert_eq!(Clock::sync_delay(250_000_000), 750_000_000);
    assert_eq!(Clock::sync_delay(999_999_999), 1);
    assert_eq!(Clock::sync_delay(1_500_000_000), 500_000_000);
}

#[test]
fn wall_clock_readings_are_in_range() {
    for zone in ["+09:30", "-05:00", "local"] {
        let mut c = Clock::start(0, 0, 1, 1, zone.to_string(), Color::Red, false, false);
        let ws = writes(&c.draw());
        let date = &ws.last().unwrap().text;
        assert_eq!(date.len(), 10);
        let month: u8 = date[5..7].parse().unwrap();
        let day: u8 = date[8..10].parse().unwrap();
        assert!((1..=12).contains(&month) && (1..=31).contains(&day));
    }
    let mut c = Clock::start(0, 0, 1, 1, "+00:00".to_string(), Color::Red, true, true);
    let out = c.draw();
    let ws = writes(&out);
    assert_eq!(ws.iter().filter(|w| w.text.len() > 1).count(), 1);
    assert!(ws.iter().filter(|w| w.text.len() == 1).all(|w| w.sgr == "41"));
}

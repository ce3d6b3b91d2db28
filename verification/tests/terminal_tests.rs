use firework::pic::{PortWrite, ProgrammableIntrController};
use firework::terminal::{FrameBuffer, Terminal};

const FG: u32 = 0x00FF_FFFF;

fn terminal(cols: usize, rows: usize, extra: usize) -> Terminal {
    let width = cols * 8;
    let height = rows * 8;
    let stride = width + extra;
    let fb = FrameBuffer { pixels: vec![0; stride * height], width, height, stride };
    Terminal::new(fb, FG)
}

/// The pixels of character `c` drawn at cell (`cx`, `cy`) of an empty buffer.
fn expected_cell(t: &Terminal, c: char, cx: usize, cy: usize) -> Vec<(usize, u32)> {
    let glyph = font8x8::legacy::BASIC_LEGACY[c as usize];
    let mut out = Vec::new();
    for (row, bits) in glyph.iter().enumerate() {
        for col in 0..8 {
            if bits & (1 << col) != 0 {
                out.push(((cy * 8 + row) * t.fb.stride + cx * 8 + col, FG));
            }
        }
    }
    out
}

fn lit_pixels(t: &Terminal) -> Vec<(usize, u32)> {
    t.fb.pixels.iter().enumerate().filter(|(_, &p)| p != 0).map(|(i, &p)| (i, p)).collect()
}

#[test]
fn grid_size_follows_the_buffer() {
    let t = terminal(4, 3, 5);
    assert_eq!((t.width, t.height), (4, 3));
    assert_eq!((t.x, t.y), (0, 0));
    let fb = FrameBuffer { pixels: vec![0; 20 * 17], width: 20, height: 17, stride: 20 };
    let t = Terminal::new(fb, FG);
    assert_eq!((t.width, t.height), (2, 2));
}

#[test]
fn draws_a_glyph_at_the_cursor() {
    let mut t = terminal(4, 3, 5);
    t.write_str("A");
    assert_eq!((t.x, t.y), (1, 0));
    assert_eq!(lit_pixels(&t), expected_cell(&t, 'A', 0, 0));
}

#[test]
fn draw_char_does_not_move_the_cursor() {
    let mut t = terminal(4, 3, 0);
    t.x = 2;
    t.y = 1;
    t.draw_char('#', FG);
    assert_eq!((t.x, t.y), (2, 1));
    assert_eq!(lit_pixels(&t), expected_cell(&t, '#', 2, 1));
    let before = t.fb.pixels.clone();
    t.draw_char('é', FG);
    assert_eq!(t.fb.pixels, before);
}

#[test]
fn newline_and_wrapping() {
    let mut t = terminal(3, 3, 0);
    t.write_str("ab\nc");
    assert_eq!((t.x, t.y), (1, 1));
    let mut expected = expected_cell(&t, 'a', 0, 0);
    expected.extend(expected_cell(&t, 'b', 1, 0));
    expected.extend(expected_cell(&t, 'c', 0, 1));
    expected.sort();
    assert_eq!(lit_pixels(&t), expected);
    t.write_str("de");
    assert_eq!((t.x, t.y), (0, 2));
}

#[test]
fn scrolls_past_the_last_row() {
    let mut t = terminal(2, 2, 0);
    t.write_str("x\ny\n");
    assert_eq!((t.x, t.y), (0, 1));
    let mut expected = expected_cell(&t, 'y', 0, 0);
    expected.sort();
    assert_eq!(lit_pixels(&t), expected);
}

#[test]
fn clear_blackens_everything() {
    let mut t = terminal(2, 2, 0);
    t.write_str("zz\nz");
    t.clear();
    assert_eq!((t.x, t.y), (0, 0));
    assert!(t.fb.pixels.iter().all(|&p| p == 0));
}

#[test]
fn pic_remap_sequence() {
    let pic = ProgrammableIntrController::new();
    let w = pic.remap_and_disable();
    let expected = vec![
        PortWrite { port: 0x20, value: 0x11 },
        PortWrite { port: 0xA0, value: 0x11 },
        PortWrite { port: 0x21, value: 32 },
        PortWrite { port: 0x21, value: 4 },
        PortWrite { port: 0xA1, value: 2 },
        PortWrite { port: 0x21, value: 1 },
        PortWrite { port: 0xA1, value: 1 },
        PortWrite { port: 0x21, value: 0xFF },
        PortWrite { port: 0xA1, value: 0xFF },
    ];
    assert_eq!(w, expected);
}

#[test]
fn irq7_is_acknowledged_only_when_in_service() {
    assert!(firework::pic::irq7_quirk(0x80));
    assert!(firework::pic::irq7_quirk(0x81));
    assert!(!firework::pic::irq7_quirk(0x7F));
    assert!(!firework::pic::irq7_quirk(0));
    assert_eq!(firework::pic::OCW3_READ_ISR, 0x0B);
}

use smart_alarm_clock::firmware::display::{broadcast, init_frames, Matrix};
use smart_alarm_clock::firmware::state::Phase;

const FONT: [[u8; 5]; 10] = [
    [0b111, 0b101, 0b101, 0b101, 0b111],
    [0b010, 0b110, 0b010, 0b010, 0b111],
    [0b111, 0b001, 0b111, 0b100, 0b111],
    [0b111, 0b001, 0b111, 0b001, 0b111],
    [0b101, 0b101, 0b111, 0b001, 0b001],
    [0b111, 0b100, 0b111, 0b001, 0b111],
    [0b111, 0b100, 0b111, 0b101, 0b111],
    [0b111, 0b001, 0b001, 0b001, 0b001],
    [0b111, 0b101, 0b111, 0b101, 0b111],
    [0b111, 0b101, 0b111, 0b001, 0b111],
];

fn expected_time(hh: u32, mm: u32, colon: bool) -> [[bool; 32]; 8] {
    let mut fb = [[false; 32]; 8];
    let digits = [hh / 10, hh % 10, mm / 10, mm % 10];
    for (d, x0) in digits.iter().zip([5usize, 10, 19, 24]) {
        for r in 0..5 {
            for c in 0..3 {
                if FONT[*d as usize][r] & (1 << (2 - c)) != 0 {
                    fb[1 + r][x0 + c] = true;
                }
            }
        }
    }
    if colon {
        fb[2][15] = true;
        fb[4][15] = true;
    }
    fb
}

fn frames_of(fb: &[[bool; 32]; 8]) -> Vec<Vec<u8>> {
    let mut out = Vec::new();
    for y in 0..8 {
        let mut f = Vec::new();
        for chip in 0..4 {
            let mut b = 0u8;
            for cx in 0..8 {
                if fb[y][chip * 8 + cx] {
                    b |= 1 << (7 - cx);
                }
            }
            f.push(y as u8 + 1);
            f.push(b);
        }
        out.push(f);
    }
    out
}

#[test]
fn render_time_frames() {
    let mut m = Matrix::new();
    m.render_time(12, 34, true);
    assert_eq!(m.flush(), frames_of(&expected_time(12, 34, true)));
    m.render_time(7, 5, false);
    assert_eq!(m.flush(), frames_of(&expected_time(7, 5, false)));
}

#[test]
fn render_syncing_frames() {
    let mut m = Matrix::new();
    m.render_syncing(true);
    let mut fb = [[false; 32]; 8];
    for x0 in [5usize, 10, 19, 24] {
        for c in 0..3 {
            fb[3][x0 + c] = true;
        }
    }
    fb[2][15] = true;
    fb[4][15] = true;
    assert_eq!(m.flush(), frames_of(&fb));
    m.render_syncing(false);
    assert_eq!(m.flush(), frames_of(&[[false; 32]; 8]));
}

#[test]
fn render_for_phase() {
    let mut m = Matrix::new();
    m.render_for(Phase::Armed, 45_296, 0);
    assert_eq!(m.flush(), frames_of(&expected_time(12, 34, true)));
    m.render_for(Phase::Armed, 45_297, 0);
    assert_eq!(m.flush(), frames_of(&expected_time(12, 34, false)));
    m.render_for(Phase::Syncing, 0, 2);
    assert_eq!(m.flush(), frames_of(&[[false; 32]; 8]));
}

#[test]
fn distinct_pictures_give_distinct_frames() {
    let mut a = Matrix::new();
    let mut b = Matrix::new();
    a.render_time(11, 11, true);
    b.render_time(11, 17, true);
    assert_ne!(a.flush(), b.flush());
}

#[test]
fn panel_bring_up() {
    assert_eq!(broadcast(0x0A, 0x02), vec![0x0A, 0x02, 0x0A, 0x02, 0x0A, 0x02, 0x0A, 0x02]);
    let f = init_frames();
    assert_eq!(f.len(), 5);
    assert_eq!(f[0], vec![0x0F, 0x00, 0x0F, 0x00, 0x0F, 0x00, 0x0F, 0x00]);
    assert_eq!(f[4], vec![0x0C, 0x01, 0x0C, 0x01, 0x0C, 0x01, 0x0C, 0x01]);
}

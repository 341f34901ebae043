use lychee::framebuffer::{draw_centred, pack_argb};
use lychee::orient;

// A 2 by 1 image: a red pixel, then a blue one.
fn strip() -> Vec<u8> {
    vec![255, 0, 0, 255, 0, 0, 255, 128]
}

#[test]
fn quarter_turn_makes_a_column() {
    let (w, h, bytes) = orient(2, 1, strip(), 90, false, false);
    assert_eq!((w, h), (1, 2));
    assert_eq!(bytes, vec![255, 0, 0, 255, 0, 0, 255, 128]);
    let (w, h, bytes) = orient(2, 1, strip(), 270, false, false);
    assert_eq!((w, h), (1, 2));
    assert_eq!(bytes, vec![0, 0, 255, 128, 255, 0, 0, 255]);
}

#[test]
fn half_turn_and_flips_reverse_a_row() {
    let reversed = vec![0, 0, 255, 128, 255, 0, 0, 255];
    assert_eq!(orient(2, 1, strip(), 180, false, false), (2, 1, reversed.clone()));
    assert_eq!(orient(2, 1, strip(), 0, true, false), (2, 1, reversed.clone()));
    assert_eq!(orient(2, 1, strip(), 0, false, true), (2, 1, strip()));
    assert_eq!(orient(2, 1, strip(), 45, false, false), (2, 1, strip()));
}

#[test]
fn turn_then_flip_of_a_square() {
    // 2 by 2, pixels numbered 1 2 / 3 4 in their red byte
    let square = vec![1, 0, 0, 0, 2, 0, 0, 0, 3, 0, 0, 0, 4, 0, 0, 0];
    let (w, h, bytes) = orient(2, 2, square.clone(), 90, false, false);
    assert_eq!((w, h), (2, 2));
    let reds: Vec<u8> = bytes.chunks(4).map(|p| p[0]).collect();
    assert_eq!(reds, vec![3, 1, 4, 2]);
    let (_, _, bytes) = orient(2, 2, square, 90, true, false);
    let reds: Vec<u8> = bytes.chunks(4).map(|p| p[0]).collect();
    assert_eq!(reds, vec![1, 3, 2, 4]);
}

#[test]
fn pixels_pack_as_argb() {
    assert_eq!(pack_argb(&[0x11, 0x22, 0x33, 0x44], 1, 1), vec![0x4411_2233]);
    assert_eq!(pack_argb(&strip(), 2, 1), vec![0xFFFF_0000, 0x8000_00FF]);
    assert_eq!(pack_argb(&[], 0, 5), Vec::<u32>::new());
}

#[test]
fn image_is_centred_in_the_frame() {
    let mut frame = vec![9; 9];
    draw_centred(&mut frame, &[7], 1, 1, 3, 3);
    assert_eq!(frame, vec![0, 0, 0, 0, 7, 0, 0, 0, 0]);
    let mut frame = vec![9; 12];
    draw_centred(&mut frame, &[1, 2, 3, 4], 2, 2, 4, 3);
    assert_eq!(frame, vec![0, 1, 2, 0, 0, 3, 4, 0, 0, 0, 0, 0]);
}

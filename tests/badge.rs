use organizer::badge::create_badge_icon;

fn pixel(buf: &[u8], width: u32, x: u32, y: u32) -> [u8; 4] {
    let i = ((y * width + x) * 4) as usize;
    [buf[i], buf[i + 1], buf[i + 2], buf[i + 3]]
}

#[test]
fn badge_paints_disc_top_right() {
    let (w, h) = (32u32, 32u32);
    let original = vec![10u8; (w * h * 4) as usize];
    let out = create_badge_icon(&original, w, h).unwrap();
    assert_eq!(out.len(), original.len());
    let red = [255, 59, 48, 255];
    assert_eq!(pixel(&out, w, 24, 8), red);
    assert_eq!(pixel(&out, w, 30, 8), red);
    assert_eq!(pixel(&out, w, 24, 2), red);
    assert_eq!(pixel(&out, w, 28, 12), red);
    assert_eq!(pixel(&out, w, 29, 13), [10, 10, 10, 10]);
    assert_eq!(pixel(&out, w, 0, 0), [10, 10, 10, 10]);
    assert_eq!(pixel(&out, w, 31, 31), [10, 10, 10, 10]);
    let painted = out.chunks(4).filter(|c| *c == red).count();
    assert_eq!(painted, 113);
}

#[test]
fn badge_skips_pixels_past_buffer() {
    let original = vec![1u8; 8 * 4 * 2];
    let out = create_badge_icon(&original, 8, 16).unwrap();
    assert_eq!(out, original);
    let short = vec![0u8; 8 * 4 * 9 + 2];
    let out = create_badge_icon(&short, 8, 16).unwrap();
    assert_eq!(&out[out.len() - 2..], &[0, 0]);
    assert_eq!(&out[(8 * 8) * 4..(8 * 8) * 4 + 4], &[255, 59, 48, 255]);
}

use privoxy::deanimate::{deanimate_gif, gif_deanimate, BinBuffer};

#[test]
fn test_bin_buffer_new() {
    let buf = BinBuffer::new();
    assert_eq!(buf.offset, 0);
    assert_eq!(buf.size, 0);
    assert!(buf.buffer.is_empty());
}

#[test]
fn test_bin_buffer_from_data() {
    let data = vec![1, 2, 3, 4, 5];
    let buf = BinBuffer::from_data(&data);
    assert_eq!(buf.size, 5);
    assert_eq!(buf.buffer, data);
}

#[test]
fn test_gif_signature_check() {
    let data = b"NOTGIF";
    assert!(gif_deanimate(data, false).is_none());

    let data = b"GIF";
    assert!(gif_deanimate(data, false).is_none());
}

#[test]
fn test_deanimate_gif_mode() {
    assert!(deanimate_gif(&[], "last").is_none());
    assert!(deanimate_gif(b"NOTGIF", "last").is_none());
}

fn two_frame_gif() -> Vec<u8> {
    let mut g: Vec<u8> = Vec::new();
    g.extend_from_slice(b"GIF89a");
    // logical screen: 1x1, no global colour table
    g.extend_from_slice(&[1, 0, 1, 0, 0x00, 0, 0]);
    for pixel in [0x11u8, 0x22u8] {
        // graphic control extension
        g.extend_from_slice(&[0x21, 0xf9, 4, 0, 0, 0, 0, 0]);
        // image descriptor: 1x1 at 0,0, no local table
        g.extend_from_slice(&[0x2c, 0, 0, 0, 0, 1, 0, 1, 0, 0x00]);
        // image data: the LZW code size, one chunk of two bytes, then the terminator
        g.extend_from_slice(&[2, 2, pixel, 0x44, 0]);
    }
    g.push(0x3b);
    g
}

#[test]
fn deanimate_keeps_one_frame() {
    let gif = two_frame_gif();
    let first = gif_deanimate(&gif, true).expect("first frame");
    let last = gif_deanimate(&gif, false).expect("last frame");
    assert!(first.starts_with(b"GIF89a"));
    assert_eq!(*first.last().unwrap(), 0x3b);
    assert!(first.len() < gif.len());
    assert!(first.contains(&0x11));
    assert!(!first.contains(&0x22));
    assert!(last.contains(&0x22));
    assert!(!last.contains(&0x11));
    assert_eq!(deanimate_gif(&gif, "first"), Some(first));
}

fn blank_gif() -> Vec<u8> {
    vec![
        0x47, 0x49, 0x46, 0x38, 0x39, 0x61, 0x01, 0x00, 0x01, 0x00, 0x80, 0x00, 0x00, 0xff, 0xff, 0xff, 0x00, 0x00,
        0x00, 0x21, 0xf9, 0x04, 0x01, 0x0a, 0x00, 0x01, 0x00, 0x2c, 0x00, 0x00, 0x00, 0x00, 0x01, 0x00, 0x01, 0x00,
        0x00, 0x02, 0x02, 0x4c, 0x01, 0x00, 0x3b,
    ]
}

#[test]
fn deanimate_keeps_a_single_frame_gif() {
    let g = blank_gif();
    assert_eq!(gif_deanimate(&g, true), Some(g.clone()));
    assert_eq!(gif_deanimate(&g, false), Some(g.clone()));
    assert_eq!(deanimate_gif(&g, "last"), Some(g.clone()));
}

#[test]
fn deanimate_refuses_image_without_code_size() {
    let mut g = blank_gif();
    // Cut the file right after the image descriptor.
    g.truncate(37);
    assert!(gif_deanimate(&g, true).is_none());
}

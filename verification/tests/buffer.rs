// Frame-buffer packing and clipping scenarios.

use mandelbrot::framebuffer::pack_color;
use mandelbrot::framebuffer::FrameBuffer;

#[test]
fn pack_color_places_each_channel() {
    assert_eq!(pack_color(1, 2, 3), 0x01_02_03);
    assert_eq!(pack_color(255, 255, 255), 0x00_ff_ff_ff);
    assert_eq!(pack_color(0, 0, 0), 0);
    assert_eq!(pack_color(0x12, 0x34, 0x56), 0x12_34_56);
}

#[test]
fn new_buffer_is_black() {
    let fb = FrameBuffer::new(10, 10);
    assert_eq!(fb.data.len(), 100);
    assert!(fb.data.iter().all(|&w| w == 0));
}

#[test]
fn out_of_bounds_writes_are_clipped() {
    let mut fb = FrameBuffer::new(10, 10);
    fb.set_pix(1, 1, (9, 9, 9));
    let before = fb.data.clone();
    // Exactly half the canvas size, and beyond, in every direction: each
    // write must leave the buffer untouched.
    for &(x, y) in &[(5i64, 0i64), (-5, 0), (0, 5), (0, -5), (7, 0), (0, -9), (100, 100)] {
        fb.set_pix(x, y, (255, 255, 255));
        assert_eq!(fb.data, before);
    }
}

#[test]
fn in_bounds_write_hits_the_row_major_slot() {
    let mut fb = FrameBuffer::new(10, 8);
    fb.set_pix(0, 0, (1, 2, 3));
    // Slot (h/2 + y) * w + (w/2 + x).
    assert_eq!(fb.data[4 * 10 + 5], 0x01_02_03);
    fb.set_pix(-4, -3, (4, 5, 6));
    assert_eq!(fb.data[1 * 10 + 1], 0x04_05_06);
    fb.set_pix(4, 3, (7, 8, 9));
    assert_eq!(fb.data[7 * 10 + 9], 0x07_08_09);
    // Only those three slots were written.
    let touched = [4 * 10 + 5, 1 * 10 + 1, 7 * 10 + 9];
    for (i, &w) in fb.data.iter().enumerate() {
        if !touched.contains(&i) {
            assert_eq!(w, 0);
        }
    }
}

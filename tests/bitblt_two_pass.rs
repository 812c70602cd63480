use vmos::bitblt::{
    blit_byte_ascending, blit_byte_descending, blit_line_ascending, blit_line_descending,
    blit_rect, prepare_blit_rect, BlitContext, BlitOp,
};

#[test]
fn blit_byte_ascending_tracks_source_bytes() {
    let src: [u8; 1] = [0x21];
    let dst: [u8; 1] = [0x00];

    let mut bc = BlitContext::new(src.to_vec(), 1, dst.to_vec(), 1);
    bc.s_data = 0x45;
    bc.s_shift = 4;

    blit_byte_ascending(&mut bc);

    assert_eq!(bc.d_bits[0], 0x52);
    assert_eq!(bc.s_data, 0x21);
    assert_eq!(bc.s_ptr, 1);
    assert_eq!(bc.d_ptr, 1);
}

#[test]
fn blit_byte_descending_tracks_source_bytes() {
    let src: [u8; 1] = [0x21];
    let dst: [u8; 1] = [0x00];

    let mut bc = BlitContext::new(src.to_vec(), 1, dst.to_vec(), 1);
    bc.s_data = 0x45;
    bc.s_shift = 4;

    blit_byte_descending(&mut bc);

    assert_eq!(bc.d_bits[0], 0x14);
    assert_eq!(bc.s_data, 0x21);
    assert_eq!(bc.s_ptr, !0);
    assert_eq!(bc.d_ptr, !0);
}

#[test]
fn zero_width_blit_line_is_nop() {
    let src: [u8; 2] = [0x11, 0x22];
    let dst: [u8; 2] = [0, 0];

    let mut bc = BlitContext::new(src.to_vec(), 2, dst.to_vec(), 2);
    bc.operation = BlitOp::S;

    blit_line_ascending(&mut bc, 0);
    assert_eq!(bc.d_bits, &[0, 0]);
    assert_eq!(bc.d_ptr, 0);
    assert_eq!(bc.s_ptr, 0);
    assert_eq!(bc.s_data, 0);

    blit_line_descending(&mut bc, 0);
    assert_eq!(bc.d_bits, &[0, 0]);
    assert_eq!(bc.d_ptr, 0);
    assert_eq!(bc.s_ptr, 0);
    assert_eq!(bc.s_data, 0);
}

#[test]
fn blit_one_byte_line() {
    let src: [u8; 2] = [0xFF, 0xFF];
    let dst: [u8; 2] = [0, 0];

    let mut bc = BlitContext::new(src.to_vec(), 2, dst.to_vec(), 2);
    bc.s_fc_mask = 0x3F;
    bc.s_lc_mask = 0xFC;
    bc.operation = BlitOp::S;

    blit_line_ascending(&mut bc, 1);
    assert_eq!(bc.d_bits, &[0x3C, 0]);
    assert_eq!(bc.d_ptr, 1);
    assert_eq!(bc.s_ptr, 1);
    assert_eq!(bc.s_data, 0x3C);

    // Both cursors already point at offset 1.
    blit_line_descending(&mut bc, 1);
    assert_eq!(bc.d_bits, &[0x3C, 0x3C]);
    assert_eq!(bc.d_ptr, 0);
    assert_eq!(bc.s_ptr, 0);
    assert_eq!(bc.s_data, 0x3C);
}

#[test]
fn blit_three_byte_line() {
    {
        let src: [u8; 4] = [0x12, 0x34, 0x56, 0x78];
        let dst: [u8; 4] = [0; 4];

        let mut bc = BlitContext::new(src.to_vec(), 4, dst.to_vec(), 4);
        bc.s_shift = 4;
        bc.s_fc_mask = 0x0F;
        bc.s_lc_mask = 0xF0;

        blit_line_ascending(&mut bc, 3);
        assert_eq!(bc.d_bits, &[0x00, 0x23, 0x45, 0x00]);
        assert_eq!(bc.d_ptr, 3);
        assert_eq!(bc.s_ptr, 3);
        assert_eq!(bc.s_data, 0x50);
    }
    {
        let src: [u8; 4] = [0x12, 0x34, 0x56, 0x78];
        let dst: [u8; 4] = [0; 4];

        let mut bc = BlitContext::new(src.to_vec(), 4, dst.to_vec(), 4);
        bc.s_ptr = 3;
        bc.s_shift = 4;
        bc.s_fc_mask = 0xF0;
        bc.s_lc_mask = 0x0F;
        bc.d_ptr = 2;

        blit_line_descending(&mut bc, 3);
        assert_eq!(bc.d_bits, &[0x45, 0x67, 0x00, 0x00]);
        assert_eq!(bc.d_ptr, -1isize as usize);
        assert_eq!(bc.s_ptr, 0);
        assert_eq!(bc.s_data, 0x04);
    }
}

#[test]
fn blit_rect_from_aligned_source_to_destination() {
    let src: [u8; 1] = [0x12];
    let dst: [u8; 1] = [0];

    let mut bc = BlitContext::new(src.to_vec(), 1, dst.to_vec(), 1);
    blit_rect(&mut bc, 0, 0, 8, 1, 0, 0, BlitOp::Or);

    assert_eq!(bc.d_bits[0], 0x12);
}

#[test]
fn blit_rect_from_shifted_source_to_destination_backwards() {
    let src: [u8; 2] = [0x13, 0x55];
    let dst: [u8; 2] = [0, 0];

    let mut bc = BlitContext::new(src.to_vec(), 2, dst.to_vec(), 2);
    blit_rect(&mut bc, 1, 0, 9, 1, 0, 0, BlitOp::Or);
    assert_eq!(bc.d_bits, [0b00100110, 0b00000000]);
}

#[test]
fn prepare_blit_rect_from_shifted_source_to_destination_backwards() {
    let src: [u8; 2] = [0x13, 0x55];
    let dst: [u8; 2] = [0, 0];

    let mut bc = BlitContext::new(src.to_vec(), 2, dst.to_vec(), 2);
    let _ = prepare_blit_rect(&mut bc, 1, 0, 9, 1, 0, 0, BlitOp::Or);
    assert_eq!(bc.d_ptr, 1);
    assert_eq!(bc.s_ptr, 1);
    assert_eq!(bc.s_fc_mask, 0x80);
    assert_eq!(bc.s_lc_mask, 0x7F);
}

#[test]
fn blit_rect_from_shifted_source_to_destination() {
    let src: [u8; 2] = [0x13, 0x55];

    // Shift the source into a scratch buffer first, so that source and
    // destination rectangles of the final blit have the same byte width.
    let tmp: [u8; 2] = [0, 0];
    let mut bc = BlitContext::new(src.to_vec(), 2, tmp.to_vec(), 2);
    blit_rect(&mut bc, 0, 0, 8, 1, 1, 0, BlitOp::S);

    let dst: [u8; 2] = [0, 0];
    bc.s_bits = bc.d_bits.clone();
    bc.d_bits = dst.to_vec();
    blit_rect(&mut bc, 1, 0, 9, 1, 1, 0, BlitOp::Or);

    assert_eq!(bc.d_bits, [0b00001001, 0b10000000]);
}

#[test]
fn blit_mouse_cursor() {
    // Let's start with a 50% grey stippled background, just like classic MacOS or GEOS.
    let hypothetical_desktop: [u8; 128] = [
        0b10101010, 0b10101010, 0b10101010, 0b10101010,
        0b01010101, 0b01010101, 0b01010101, 0b01010101,
        0b10101010, 0b10101010, 0b10101010, 0b10101010,
        0b01010101, 0b01010101, 0b01010101, 0b01010101,
        0b10101010, 0b10101010, 0b10101010, 0b10101010,
        0b01010101, 0b01010101, 0b01010101, 0b01010101,
        0b10101010, 0b10101010, 0b10101010, 0b10101010,
        0b01010101, 0b01010101, 0b01010101, 0b01010101,
        0b10101010, 0b10101010, 0b10101010, 0b10101010,
        0b01010101, 0b01010101, 0b01010101, 0b01010101,
        0b10101010, 0b10101010, 0b10101010, 0b10101010,
        0b01010101, 0b01010101, 0b01010101, 0b01010101,
        0b10101010, 0b10101010, 0b10101010, 0b10101010,
        0b01010101, 0b01010101, 0b01010101, 0b01010101,
        0b10101010, 0b10101010, 0b10101010, 0b10101010,
        0b01010101, 0b01010101, 0b01010101, 0b01010101,
        0b10101010, 0b10101010, 0b10101010, 0b10101010,
        0b01010101, 0b01010101, 0b01010101, 0b01010101,
        0b10101010, 0b10101010, 0b10101010, 0b10101010,
        0b01010101, 0b01010101, 0b01010101, 0b01010101,
        0b10101010, 0b10101010, 0b10101010, 0b10101010,
        0b01010101, 0b01010101, 0b01010101, 0b01010101,
        0b10101010, 0b10101010, 0b10101010, 0b10101010,
        0b01010101, 0b01010101, 0b01010101, 0b01010101,
        0b10101010, 0b10101010, 0b10101010, 0b10101010,
        0b01010101, 0b01010101, 0b01010101, 0b01010101,
        0b10101010, 0b10101010, 0b10101010, 0b10101010,
        0b01010101, 0b01010101, 0b01010101, 0b01010101,
        0b10101010, 0b10101010, 0b10101010, 0b10101010,
        0b01010101, 0b01010101, 0b01010101, 0b01010101,
        0b10101010, 0b10101010, 0b10101010, 0b10101010,
        0b01010101, 0b01010101, 0b01010101, 0b01010101,
    ];

    // Now, let's draw the mouse's white outline.
    //
    // Although the mouse is only 16x16, we still define a spare byte column on the right to
    // facilitate support for shifted blits.  Otherwise, blitting will result in slice
    // bounds-check issues when blitting into destination rectangles that are 3-bytes wide.
    let mouse_mask: [u8; 48] = [
        0b11000000, 0b00000000, 0b00000000,
        0b11110000, 0b00000000, 0b00000000,
        0b01111100, 0b00000000, 0b00000000,
        0b01111111, 0b00000000, 0b00000000,
        0b00111111, 0b11000000, 0b00000000,
        0b00111111, 0b11100000, 0b00000000,
        0b00011111, 0b11000000, 0b00000000,
        0b00011111, 0b11000000, 0b00000000,
        0b00001111, 0b11100000, 0b00000000,
        0b00001111, 0b11110000, 0b00000000,
        0b00000100, 0b11111000, 0b00000000,
        0b00000000, 0b01111000, 0b00000000,
        0b00000000, 0b00110000, 0b00000000,
        0b00000000, 0b00000000, 0b00000000,
        0b00000000, 0b00000000, 0b00000000,
        0b00000000, 0b00000000, 0b00000000,
    ];

    let mut bc = BlitContext::new(mouse_mask.to_vec(), 3, hypothetical_desktop.to_vec(), 4);
    blit_rect(&mut bc, 0, 0, 16, 16, 10, 10, BlitOp::Or);

    // Next, we draw the body of the mouse.
    let mouse_body: [u8; 48] = [
        0b00000000, 0b00000000, 0b00000000,
        0b01000000, 0b00000000, 0b00000000,
        0b00110000, 0b00000000, 0b00000000,
        0b00111100, 0b00000000, 0b00000000,
        0b00011111, 0b00000000, 0b00000000,
        0b00011111, 0b11000000, 0b00000000,
        0b00001111, 0b00000000, 0b00000000,
        0b00001111, 0b10000000, 0b00000000,
        0b00000101, 0b11000000, 0b00000000,
        0b00000100, 0b11100000, 0b00000000,
        0b00000000, 0b01110000, 0b00000000,
        0b00000000, 0b00110000, 0b00000000,
        0b00000000, 0b00000000, 0b00000000,
        0b00000000, 0b00000000, 0b00000000,
        0b00000000, 0b00000000, 0b00000000,
        0b00000000, 0b00000000, 0b00000000,
    ];

    bc.s_bits = mouse_body.to_vec();
    blit_rect(&mut bc, 0, 0, 16, 16, 10, 10, BlitOp::DandNotS);

    // The resulting desktop should look like the mouse pointer is somewhere in the center of
    // the 32x32 pixel matrix.
    let expected_desktop: [u8; 128] = [
        0b10101010, 0b10101010, 0b10101010, 0b10101010,
        0b01010101, 0b01010101, 0b01010101, 0b01010101,
        0b10101010, 0b10101010, 0b10101010, 0b10101010,
        0b01010101, 0b01010101, 0b01010101, 0b01010101,
        0b10101010, 0b10101010, 0b10101010, 0b10101010,
        0b01010101, 0b01010101, 0b01010101, 0b01010101,
        0b10101010, 0b10101010, 0b10101010, 0b10101010,
        0b01010101, 0b01010101, 0b01010101, 0b01010101,
        0b10101010, 0b10101010, 0b10101010, 0b10101010,
        0b01010101, 0b01010101, 0b01010101, 0b01010101,
        0b10101010, 0b10111010, 0b10101010, 0b10101010,
        0b01010101, 0b01101101, 0b01010101, 0b01010101,
        0b10101010, 0b10110011, 0b10101010, 0b10101010,
        0b01010101, 0b01010000, 0b11010101, 0b01010101,
        0b10101010, 0b10101000, 0b00111010, 0b10101010,
        0b01010101, 0b01011000, 0b00001101, 0b01010101,
        0b10101010, 0b10101100, 0b00111010, 0b10101010,
        0b01010101, 0b01010100, 0b00010101, 0b01010101,
        0b10101010, 0b10101010, 0b10001010, 0b10101010,
        0b01010101, 0b01010110, 0b11000101, 0b01010101,
        0b10101010, 0b10101011, 0b10100010, 0b10101010,
        0b01010101, 0b01010101, 0b01010011, 0b01010101,
        0b10101010, 0b10101010, 0b10101110, 0b10101010,
        0b01010101, 0b01010101, 0b01010101, 0b01010101,
        0b10101010, 0b10101010, 0b10101010, 0b10101010,
        0b01010101, 0b01010101, 0b01010101, 0b01010101,
        0b10101010, 0b10101010, 0b10101010, 0b10101010,
        0b01010101, 0b01010101, 0b01010101, 0b01010101,
        0b10101010, 0b10101010, 0b10101010, 0b10101010,
        0b01010101, 0b01010101, 0b01010101, 0b01010101,
        0b10101010, 0b10101010, 0b10101010, 0b10101010,
        0b01010101, 0b01010101, 0b01010101, 0b01010101,
    ];

    assert_eq!(bc.d_bits, expected_desktop);
}

use vmos::bitblt::{
    blit_byte_ascending, blit_byte_descending, blit_line_ascending, blit_line_descending,
    blit_rect, prepare_blit_rect, BlitContext, BlitOp,
};

#[test]
fn tests_blit_byte_ascending_tracks_source_bytes() {
    let src: [u8; 1] = [0x21];
    let dst: [u8; 1] = [0x00];

    let mut bc = BlitContext::new(src.to_vec(), 1, dst.to_vec(), 1);
    bc.s_data = 0x45;
    bc.s_shift = 4;

    blit_byte_ascending(&mut bc);

    assert_eq!(bc.d_bits[0], 0x52);
    assert_eq!(bc.s_data, 0x21);
    assert_eq!(bc.s_ptr, 1);
    assert_eq!(bc.d_ptr, 1);
}

#[test]
fn tests_blit_byte_descending_tracks_source_bytes() {
    let src: [u8; 1] = [0x21];
    let dst: [u8; 1] = [0x00];

    let mut bc = BlitContext::new(src.to_vec(), 1, dst.to_vec(), 1);
    bc.s_data = 0x45;
    bc.s_shift = 4;

    blit_byte_descending(&mut bc);

    assert_eq!(bc.d_bits[0], 0x14);
    assert_eq!(bc.s_data, 0x21);
    assert_eq!(bc.s_ptr, !0);
    assert_eq!(bc.d_ptr, !0);
}

#[test]
fn tests_zero_width_blit_line_is_nop() {
    let src: [u8; 2] = [0x11, 0x22];
    let dst: [u8; 2] = [0, 0];

    let mut bc = BlitContext::new(src.to_vec(), 2, dst.to_vec(), 2);
    bc.operation = BlitOp::S;

    blit_line_ascending(&mut bc, 0);
    assert_eq!(bc.d_bits, &[0, 0]);
    assert_eq!(bc.d_ptr, 0);
    assert_eq!(bc.s_ptr, 0);
    assert_eq!(bc.s_data, 0);

    blit_line_descending(&mut bc, 0);
    assert_eq!(bc.d_bits, &[0, 0]);
    assert_eq!(bc.d_ptr, 0);
    assert_eq!(bc.s_ptr, 0);
    assert_eq!(bc.s_data, 0);
}

#[test]
fn tests_blit_one_byte_line() {
    let src: [u8; 2] = [0xFF, 0xFF];
    let dst: [u8; 2] = [0, 0];

    let mut bc = BlitContext::new(src.to_vec(), 2, dst.to_vec(), 2);
    bc.s_fc_mask = 0x3F;
    bc.s_lc_mask = 0xFC;
    bc.operation = BlitOp::S;

    blit_line_ascending(&mut bc, 1);
    assert_eq!(bc.d_bits, &[0x3C, 0]);
    assert_eq!(bc.d_ptr, 1);
    assert_eq!(bc.s_ptr, 1);
    assert_eq!(bc.s_data, 0x3C);

    // Both cursors already point at offset 1.
    blit_line_descending(&mut bc, 1);
    assert_eq!(bc.d_bits, &[0x3C, 0x3C]);
    assert_eq!(bc.d_ptr, 0);
    assert_eq!(bc.s_ptr, 0);
    assert_eq!(bc.s_data, 0x3C);
}

#[test]
fn tests_blit_three_byte_line() {
    {
        let src: [u8; 4] = [0x12, 0x34, 0x56, 0x78];
        let dst: [u8; 4] = [0; 4];

        let mut bc = BlitContext::new(src.to_vec(), 4, dst.to_vec(), 4);
        bc.s_shift = 4;
        bc.s_fc_mask = 0x0F;
        bc.s_lc_mask = 0xF0;

        blit_line_ascending(&mut bc, 3);
        assert_eq!(bc.d_bits, &[0x00, 0x23, 0x45, 0x00]);
        assert_eq!(bc.d_ptr, 3);
        assert_eq!(bc.s_ptr, 3);
        assert_eq!(bc.s_data, 0x50);
    }
    {
        let src: [u8; 4] = [0x12, 0x34, 0x56, 0x78];
        let dst: [u8; 4] = [0; 4];

        let mut bc = BlitContext::new(src.to_vec(), 4, dst.to_vec(), 4);
        bc.s_ptr = 3;
        bc.s_shift = 4;
        bc.s_fc_mask = 0xF0;
        bc.s_lc_mask = 0x0F;
        bc.d_ptr = 2;

        blit_line_descending(&mut bc, 3);
        assert_eq!(bc.d_bits, &[0x45, 0x67, 0x00, 0x00]);
        assert_eq!(bc.d_ptr, -1isize as usize);
        assert_eq!(bc.s_ptr, 0);
        assert_eq!(bc.s_data, 0x04);
    }
}

#[test]
fn tests_blit_rect_from_aligned_source_to_destination() {
    let src: [u8; 1] = [0x12];
    let dst: [u8; 1] = [0];

    let mut bc = BlitContext::new(src.to_vec(), 1, dst.to_vec(), 1);
    blit_rect(&mut bc, 0, 0, 8, 1, 0, 0, BlitOp::Or);

    assert_eq!(bc.d_bits[0], 0x12);
}

#[test]
fn tests_blit_rect_from_shifted_source_to_destination_backwards() {
    let src: [u8; 2] = [0x13, 0x55];
    let dst: [u8; 2] = [0, 0];

    let mut bc = BlitContext::new(src.to_vec(), 2, dst.to_vec(), 2);
    blit_rect(&mut bc, 1, 0, 9, 1, 0, 0, BlitOp::Or);
    assert_eq!(bc.d_bits, [0b00100110, 0b00000000]);
}

#[test]
fn tests_prepare_blit_rect_from_shifted_source_to_destination_backwards() {
    let src: [u8; 2] = [0x13, 0x55];
    let dst: [u8; 2] = [0, 0];

    let mut bc = BlitContext::new(src.to_vec(), 2, dst.to_vec(), 2);
    let _ = prepare_blit_rect(&mut bc, 1, 0, 9, 1, 0, 0, BlitOp::Or);
    assert_eq!(bc.d_ptr, 1);
    assert_eq!(bc.s_ptr, 1);
    assert_eq!(bc.s_fc_mask, 0x80);
    assert_eq!(bc.s_lc_mask, 0x7F);
}

#[test]
fn blit_rect_combines_two_rows_with_xor() {
    let src: [u8; 2] = [0xF0, 0x0F];
    let dst: [u8; 2] = [0xFF, 0xFF];

    let mut bc = BlitContext::new(src.to_vec(), 1, dst.to_vec(), 1);
    blit_rect(&mut bc, 0, 0, 8, 2, 0, 0, BlitOp::Xor);
    assert_eq!(bc.d_bits, [0x0F, 0xF0]);
}

#[test]
fn blit_byte_operations_black_and_white() {
    let mut bc = BlitContext::new(vec![0x5A], 1, vec![0x33], 1);
    bc.operation = BlitOp::White;
    blit_byte_ascending(&mut bc);
    assert_eq!(bc.d_bits[0], 0xFF);

    let mut bc = BlitContext::new(vec![0x5A], 1, vec![0x33], 1);
    bc.operation = BlitOp::Black;
    blit_byte_ascending(&mut bc);
    assert_eq!(bc.d_bits[0], 0x00);

    let mut bc = BlitContext::new(vec![0x5A], 1, vec![0x33], 1);
    bc.operation = BlitOp::And;
    blit_byte_ascending(&mut bc);
    assert_eq!(bc.d_bits[0], 0x12);
}

#[test]
fn xnor_keeps_equal_bits() {
    let mut bc = BlitContext::new(vec![0xFF], 1, vec![0xFF], 1);
    bc.operation = BlitOp::Xnor;
    blit_byte_ascending(&mut bc);
    assert_eq!(bc.d_bits[0], 0xFF);

    let mut bc = BlitContext::new(vec![0xF0], 1, vec![0x3C], 1);
    bc.operation = BlitOp::Xnor;
    blit_byte_ascending(&mut bc);
    assert_eq!(bc.d_bits[0], 0x33);
}

// With the first- and last-column masks aligned to the source rectangle, a single
// shifted blit of a one-byte-wide source into a two-byte-wide destination also
// carries the source's neighbouring byte into the second column; the two-pass form
// of this blit is `blit_rect_from_shifted_source_to_destination`.
#[test]
fn tests_blit_rect_from_shifted_source_to_destination() {
    let src: [u8; 2] = [0x13, 0x55];
    let dst: [u8; 2] = [0, 0];

    let mut bc = BlitContext::new(src.to_vec(), 2, dst.to_vec(), 2);
    blit_rect(&mut bc, 0, 0, 8, 1, 1, 0, BlitOp::Or);

    assert_eq!(bc.d_bits[0], 0b00001001);
    assert_eq!(bc.d_bits[1], 0b10101010);
}

use deskkin::band_ownership::BandOwnership;
use deskkin::renderer::{
    decode_loop, rgba_to_rgb565, sas_text, shell_name, take_completion, CompletedFrame,
    RendererFault,
};

#[test]
fn shells_have_fixed_names() {
    assert_eq!(shell_name(0), "SetupRequired");
    assert_eq!(shell_name(1), "ReadyToPair");
    assert_eq!(shell_name(2), "Connecting");
    assert_eq!(shell_name(3), "PairingConfirmation");
    assert_eq!(shell_name(4), "Paired");
    assert_eq!(shell_name(200), "SetupRequired");
}

#[test]
fn pairing_codes_are_six_zero_padded_digits() {
    assert_eq!(sas_text(u32::MAX), "");
    assert_eq!(sas_text(42), "000042");
    assert_eq!(sas_text(999_999), "999999");
    assert_eq!(sas_text(1_234_567), "234567");
}

#[test]
fn completions_return_buffers_and_report_times() {
    let mut ownership = BandOwnership::<2>::new();
    ownership.begin_render(1).unwrap();
    ownership.submit(1).unwrap();
    let render = [11, 22];
    assert_eq!(take_completion(&mut ownership, &render, 0, 1, 5), Ok(None));
    assert_eq!(
        take_completion(&mut ownership, &render, 1, 1, 5),
        Ok(Some(CompletedFrame { render_us: 22, transfer_us: 5 }))
    );
    assert!(!ownership.is_inflight(1));
    assert_eq!(
        take_completion(&mut ownership, &render, 1, 1, 5),
        Err(RendererFault::Completion)
    );
    assert_eq!(
        take_completion(&mut ownership, &render, -1, 0, 5),
        Err(RendererFault::Completion)
    );
    assert_eq!(
        take_completion(&mut ownership, &render, 1, 7, 5),
        Err(RendererFault::Completion)
    );
}

#[test]
fn rgba_splits_into_rgb565_and_alpha() {
    let (colors, alpha) = rgba_to_rgb565(&[255, 255, 255, 128, 8, 4, 8, 0, 1]);
    assert_eq!(colors, vec![0xffff, (1 << 11) | (1 << 5) | 1]);
    assert_eq!(alpha, vec![128, 0]);
}

fn qoi_image(width: u32, height: u32, channels: u8, pixels: &[[u8; 4]]) -> Vec<u8> {
    let mut data = b"qoif".to_vec();
    data.extend_from_slice(&width.to_be_bytes());
    data.extend_from_slice(&height.to_be_bytes());
    data.push(channels);
    data.push(0);
    for pixel in pixels {
        data.push(0xff);
        data.extend_from_slice(pixel);
    }
    data.extend_from_slice(&[0, 0, 0, 0, 0, 0, 0, 1]);
    data
}

#[test]
fn loops_decode_checked_rgba_strips() {
    let pixels = [[255, 0, 0, 255], [0, 0, 255, 10]];
    let data = qoi_image(2, 1, 4, &pixels);
    let decoded = decode_loop(&data, 2, 1).ok().unwrap();
    assert_eq!(decoded.pixels, vec![0xf800, 0x001f]);
    assert_eq!(decoded.alpha, vec![255, 10]);
    assert_eq!(decoded.stride, 2);
    assert_eq!(decode_loop(&data, 3, 1).err(), Some(RendererFault::QoiMetadata));
    assert_eq!(decode_loop(&data[..10], 2, 1).err(), Some(RendererFault::QoiHeader));
    let rgb = qoi_image(2, 1, 3, &pixels);
    assert_eq!(decode_loop(&rgb, 2, 1).err(), Some(RendererFault::QoiMetadata));
    let truncated = &data[..16];
    assert_eq!(decode_loop(truncated, 2, 1).err(), Some(RendererFault::QoiDecode));
}

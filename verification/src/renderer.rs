//! Renderer bookkeeping: frame completions, the shell and pairing-code
//! texts, and loading a pet animation strip from a QOI image.
use vstd::prelude::*;
use crate::band_ownership::{BandOwnership, OwnershipError};
use crate::identity::push_char;

verus! {

/// Height of one pet animation frame.
pub const PET_FRAME_HEIGHT: u32 = 156;
/// Width of one pet animation frame.
pub const PET_FRAME_WIDTH: u32 = 144;

/// Why the renderer stopped.
#[derive(Clone, Copy, Debug, PartialEq, Eq, Structural)]
pub enum RendererFault {
    NoFault,
    Platform,
    Component,
    Window,
    Show,
    Framebuffer,
    Completion,
    Ownership,
    RenderSkipped,
    Submit,
    DisplayEnable,
    QoiHeader,
    QoiMetadata,
    QoiDecode,
    SharedSnapshot,
}

/// A frame whose transfer to the display finished.
#[derive(Clone, Copy, Debug, PartialEq, Eq, Structural)]
pub struct CompletedFrame {
    pub render_us: u32,
    pub transfer_us: u32,
}

/// What the display reported when asked for a finished transfer: nothing
/// (`result` zero), a failure (negative), or the buffer and the transfer
/// time of a finished frame.
pub open spec fn completion_spec(
    inflight: bool,
    render_us: u32,
    result: i32,
    buffer_index: u8,
    transfer_us: u32,
) -> Result<Option<CompletedFrame>, RendererFault> {
    if result == 0 {
        Ok(None)
    } else if result < 0 || buffer_index >= 2 || !inflight {
        Err(RendererFault::Completion)
    } else {
        Ok(Some(CompletedFrame { render_us, transfer_us }))
    }
}

/// Takes one report of the display: a finished transfer returns its
/// buffer to the renderer and yields the frame's render and transfer times;
/// a failed report, or one for a buffer that was not in flight, is a
/// `Completion` fault.
pub fn take_completion(
    ownership: &mut BandOwnership<2>,
    render_us: &[u32; 2],
    result: i32,
    buffer_index: u8,
    transfer_us: u32,
) -> (frame: Result<Option<CompletedFrame>, RendererFault>)
    requires
        old(ownership).wf(),
    ensures
        final(ownership).wf(),
        frame == completion_spec(
            buffer_index < 2 && old(ownership).state().inflight[buffer_index as int],
            if buffer_index < 2 { render_us@[buffer_index as int] } else { 0 },
            result,
            buffer_index,
            transfer_us,
        ),
        frame matches Ok(Some(_)) ==> final(ownership).state() == crate::band_ownership::step_complete(
            old(ownership).state(),
            2,
            buffer_index as int,
        ).0,
        !(frame matches Ok(Some(_))) ==> final(ownership).state() == old(ownership).state(),
{
    if result == 0 {
        return Ok(None);
    }
    let index = buffer_index as usize;
    if result < 0 || index >= 2 {
        return Err(RendererFault::Completion);
    }
    match ownership.complete(index) {
        Err(_) => Err(RendererFault::Completion),
        Ok(()) => Ok(Some(CompletedFrame { render_us: render_us[index], transfer_us })),
    }
}

/// The name of a shell screen: 1 to 4 name the pairing screens, anything
/// else is the setup screen.
pub fn shell_name(shell: u8) -> (name: &'static str)
    ensures
        shell == 1 ==> name@ == "ReadyToPair"@,
        shell == 2 ==> name@ == "Connecting"@,
        shell == 3 ==> name@ == "PairingConfirmation"@,
        shell == 4 ==> name@ == "Paired"@,
        (shell == 0 || shell > 4) ==> name@ == "SetupRequired"@,
{
    match shell {
        1 => "ReadyToPair",
        2 => "Connecting",
        3 => "PairingConfirmation",
        4 => "Paired",
        _ => "SetupRequired",
    }
}

/// The decimal digit of `value` at position `index` of six, the most
/// significant first.
pub open spec fn sas_digit(value: u32, index: int) -> char {
    ('0' as int + (value as int / pow10(5 - index)) % 10) as char
}

/// Ten to the power `n`.
pub open spec fn pow10(n: int) -> int
    decreases n,
{
    if n <= 0 { 1 } else { 10 * pow10(n - 1) }
}

/// The pairing code to show: empty for `u32::MAX`, which means no code,
/// else the six lowest decimal digits, zero-padded.
pub fn sas_text(sas: u32) -> (text: String)
    ensures
        sas == u32::MAX ==> text@.len() == 0,
        sas != u32::MAX ==> text@ == Seq::new(6, |i: int| sas_digit(sas, i)),
{
    let mut text = String::new();
    if sas == u32::MAX {
        return text;
    }
    let mut divisor: u32 = 100_000;
    let mut index: usize = 0;
    proof {
        reveal_with_fuel(pow10, 6);
    }
    while index < 6
        invariant
            index <= 6,
            divisor == pow10(5 - index as int) || (index == 6 && divisor == 0),
            text@ == Seq::new(index as nat, |i: int| sas_digit(sas, i)),
        decreases 6 - index,
    {
        proof {
            reveal_with_fuel(pow10, 6);
        }
        let digit = ((sas / divisor) % 10) as u8;
        let ghost before = text@;
        push_char(&mut text, (48 + digit) as char);
        assert(text@ =~= Seq::new((index + 1) as nat, |i: int| sas_digit(sas, i)));
        divisor = divisor / 10;
        index += 1;
    }
    text
}

proof fn lemma_decimal_digits(a0: int, a1: int, a2: int, a3: int, a4: int, a5: int, v: int)
    requires
        0 <= a0 <= 9,
        0 <= a1 <= 9,
        0 <= a2 <= 9,
        0 <= a3 <= 9,
        0 <= a4 <= 9,
        0 <= a5 <= 9,
        v == a0 * 100000 + a1 * 10000 + a2 * 1000 + a3 * 100 + a4 * 10 + a5,
    ensures
        v / 100000 % 10 == a0,
        v / 10000 % 10 == a1,
        v / 1000 % 10 == a2,
        v / 100 % 10 == a3,
        v / 10 % 10 == a4,
        v % 10 == a5,
        v < 1000000,
{
    assert(v / 100000 == a0) by (nonlinear_arith)
        requires
            0 <= a0 <= 9,
            0 <= a1 * 10000 + a2 * 1000 + a3 * 100 + a4 * 10 + a5 < 100000,
            v == a0 * 100000 + (a1 * 10000 + a2 * 1000 + a3 * 100 + a4 * 10 + a5),
    ;
    assert(v / 10000 == a0 * 10 + a1) by (nonlinear_arith)
        requires
            0 <= a2 * 1000 + a3 * 100 + a4 * 10 + a5 < 10000,
            v == (a0 * 10 + a1) * 10000 + (a2 * 1000 + a3 * 100 + a4 * 10 + a5),
            0 <= a0 * 10 + a1,
    ;
    assert(v / 1000 == a0 * 100 + a1 * 10 + a2) by (nonlinear_arith)
        requires
            0 <= a3 * 100 + a4 * 10 + a5 < 1000,
            v == (a0 * 100 + a1 * 10 + a2) * 1000 + (a3 * 100 + a4 * 10 + a5),
            0 <= a0 * 100 + a1 * 10 + a2,
    ;
    assert(v / 100 == a0 * 1000 + a1 * 100 + a2 * 10 + a3) by (nonlinear_arith)
        requires
            0 <= a4 * 10 + a5 < 100,
            v == (a0 * 1000 + a1 * 100 + a2 * 10 + a3) * 100 + (a4 * 10 + a5),
            0 <= a0 * 1000 + a1 * 100 + a2 * 10 + a3,
    ;
    assert(v / 10 == a0 * 10000 + a1 * 1000 + a2 * 100 + a3 * 10 + a4) by (nonlinear_arith)
        requires
            0 <= a5 < 10,
            v == (a0 * 10000 + a1 * 1000 + a2 * 100 + a3 * 10 + a4) * 10 + a5,
            0 <= a0 * 10000 + a1 * 1000 + a2 * 100 + a3 * 10 + a4,
    ;
}

/// A pairing code of six decimal digits that the device turns into a
/// number shows on the display as the same six digits.
pub proof fn lemma_sas_round_trip(digits: Seq<u8>)
    requires
        digits.len() == 6,
        forall|i: int| 0 <= i < 6 ==> 48 <= #[trigger] digits[i] <= 57,
    ensures
        0 <= crate::device::sas_number_spec(digits) < u32::MAX,
        forall|i: int|
            0 <= i < 6 ==> #[trigger] sas_digit(crate::device::sas_number_spec(digits) as u32, i)
                == digits[i] as char,
{
    reveal_with_fuel(crate::device::sas_number_spec, 7);
    reveal_with_fuel(pow10, 6);
    let a0 = digits[0] - 48;
    let a1 = digits[1] - 48;
    let a2 = digits[2] - 48;
    let a3 = digits[3] - 48;
    let a4 = digits[4] - 48;
    let a5 = digits[5] - 48;
    let d5 = digits.drop_last();
    let d4 = d5.drop_last();
    let d3 = d4.drop_last();
    let d2 = d3.drop_last();
    let d1 = d2.drop_last();
    let d0 = d1.drop_last();
    assert(d0.len() == 0);
    assert(d1.last() == digits[0]);
    assert(d2.last() == digits[1]);
    assert(d3.last() == digits[2]);
    assert(d4.last() == digits[3]);
    assert(d5.last() == digits[4]);
    assert(digits.last() == digits[5]);
    let v = crate::device::sas_number_spec(digits);
    assert(v == a0 * 100000 + a1 * 10000 + a2 * 1000 + a3 * 100 + a4 * 10 + a5);
    lemma_decimal_digits(a0, a1, a2, a3, a4, a5, v);
    assert forall|i: int| 0 <= i < 6 implies #[trigger] sas_digit(v as u32, i) == digits[i] as char by {
        assert(pow10(5 - i) == if i == 0 { 100000int } else if i == 1 { 10000int } else if i == 2 {
            1000int
        } else if i == 3 { 100int } else if i == 4 { 10int } else { 1int });
    }
}

/// Big-endian 32-bit value at `at`.
pub open spec fn be32_at(data: Seq<u8>, at: int) -> int {
    data[at] * 0x100_0000 + data[at + 1] * 0x1_0000 + data[at + 2] * 0x100 + data[at + 3]
}

/// Width in a QOI header.
pub open spec fn qoi_width(data: Seq<u8>) -> int {
    be32_at(data, 4)
}

/// Height in a QOI header.
pub open spec fn qoi_height(data: Seq<u8>) -> int {
    be32_at(data, 8)
}

/// Whether the data starts with a valid QOI header: 14 bytes, the magic
/// `qoif`, 3 or 4 channels, colour space 0 or 1, and between 1 and
/// 400 000 000 pixels.
pub open spec fn qoi_header_ok(data: Seq<u8>) -> bool {
    &&& data.len() >= 14
    &&& be32_at(data, 0) == 0x716f_6966
    &&& (data[12] == 3 || data[12] == 4)
    &&& (data[13] == 0 || data[13] == 1)
    &&& 0 < qoi_width(data) * qoi_height(data) <= 400_000_000
}

/// `qoi::decode_header`: the width, height and channel count of a QOI
/// image. The crate's source reads the 14-byte header big-endian and
/// refuses a short buffer, a wrong magic, a channel count other than 3 or
/// 4, a colour space other than 0 or 1, and a pixel count of zero or above
/// 400 000 000; that is what is stated.
#[verifier::external_body]
fn qoi_decode_header(data: &[u8]) -> (header: Option<(u32, u32, u8)>)
    ensures
        header is Some <==> qoi_header_ok(data@),
        header matches Some(h) ==> h.0 == qoi_width(data@) && h.1 == qoi_height(data@) && h.2
            == data@[12],
{
    qoi::decode_header(data).ok().map(|header| (header.width, header.height, header.channels.as_u8()))
}

/// The pixel bytes that `qoi::decode_to_vec` decodes from the data, if it
/// decodes them.
pub uninterp spec fn qoi_pixels(data: Seq<u8>) -> Option<Seq<u8>>;

/// `qoi::decode_to_vec`: the image's pixels, in the header's channel
/// count. What the bytes are is named, not stated; the crate's source
/// shows that decoding reads the header first and fills a buffer of
/// width × height × channels bytes.
#[verifier::external_body]
fn qoi_decode(data: &[u8]) -> (pixels: Option<Vec<u8>>)
    ensures
        pixels matches Some(v) ==> qoi_pixels(data@) == Some(v@),
        pixels is None ==> qoi_pixels(data@) is None,
        pixels is Some ==> qoi_header_ok(data@),
        pixels matches Some(v) ==> v@.len() == qoi_width(data@) * qoi_height(data@) * data@[12],
{
    qoi::decode_to_vec(data).ok().map(|(_header, pixels)| pixels)
}

/// The RGB565 value of an 8-bit RGB colour: the top 5, 6 and 5 bits.
pub open spec fn rgb565(r: u8, g: u8, b: u8) -> u16 {
    ((r / 8) * 2048 + (g / 4) * 32 + b / 8) as u16
}

/// RGBA pixels, four bytes each, as RGB565 colours and their alpha.
pub open spec fn rgba_colors(rgba: Seq<u8>) -> Seq<u16> {
    Seq::new(
        rgba.len() / 4,
        |i: int| rgb565(rgba[4 * i], rgba[4 * i + 1], rgba[4 * i + 2]),
    )
}

/// The alpha byte of each RGBA pixel.
pub open spec fn rgba_alpha(rgba: Seq<u8>) -> Seq<u8> {
    Seq::new(rgba.len() / 4, |i: int| rgba[4 * i + 3])
}

/// Splits RGBA pixels, four bytes each, into RGB565 colours and alpha
/// values; trailing bytes short of a pixel are ignored.
pub fn rgba_to_rgb565(rgba: &[u8]) -> (split: (Vec<u16>, Vec<u8>))
    ensures
        split.0@ == rgba_colors(rgba@),
        split.1@ == rgba_alpha(rgba@),
{
    let len = rgba.len();
    let n = len / 4;
    let mut colors: Vec<u16> = Vec::new();
    let mut alpha: Vec<u8> = Vec::new();
    let mut i: usize = 0;
    while i < n
        invariant
            len == rgba@.len(),
            n == rgba@.len() / 4,
            i <= n,
            colors@ == rgba_colors(rgba@).subrange(0, i as int),
            alpha@ == rgba_alpha(rgba@).subrange(0, i as int),
        decreases n - i,
    {
        assert(4 * i + 3 < rgba@.len()) by (nonlinear_arith)
            requires
                i < n,
                n == rgba@.len() / 4,
        ;
        let r = rgba[4 * i];
        let g = rgba[4 * i + 1];
        let b = rgba[4 * i + 2];
        let a = rgba[4 * i + 3];
        let color: u16 = (r / 8) as u16 * 2048 + (g / 4) as u16 * 32 + (b / 8) as u16;
        colors.push(color);
        alpha.push(a);
        assert(colors@ =~= rgba_colors(rgba@).subrange(0, i + 1));
        assert(alpha@ =~= rgba_alpha(rgba@).subrange(0, i + 1));
        i += 1;
    }
    assert(rgba_colors(rgba@).subrange(0, n as int) =~= rgba_colors(rgba@));
    assert(rgba_alpha(rgba@).subrange(0, n as int) =~= rgba_alpha(rgba@));
    (colors, alpha)
}

/// A decoded pet animation strip.
pub struct DecodedLoop {
    pub pixels: Vec<u16>,
    pub alpha: Vec<u8>,
    pub width: u32,
    pub height: u32,
    pub stride: u16,
}

/// Decodes a pet animation strip that must be `width` by `height` RGBA
/// pixels: a bad header is `QoiHeader`; other dimensions, other channels
/// or a width beyond `u16` are `QoiMetadata`; undecodable data is
/// `QoiDecode`. The pixels come out as RGB565 colours and alpha values.
pub fn decode_loop(bytes: &[u8], width: u32, height: u32) -> (decoded: Result<
    DecodedLoop,
    RendererFault,
>)
    ensures
        !qoi_header_ok(bytes@) ==> decoded == Err::<DecodedLoop, RendererFault>(
            RendererFault::QoiHeader,
        ),
        qoi_header_ok(bytes@) && (qoi_width(bytes@) != width || qoi_height(bytes@) != height
            || bytes@[12] != 4) ==> decoded == Err::<DecodedLoop, RendererFault>(
            RendererFault::QoiMetadata,
        ),
        qoi_header_ok(bytes@) && qoi_width(bytes@) == width && qoi_height(bytes@) == height
            && bytes@[12] == 4 ==> match qoi_pixels(bytes@) {
            None => decoded == Err::<DecodedLoop, RendererFault>(RendererFault::QoiDecode),
            Some(rgba) => if width > u16::MAX {
                decoded == Err::<DecodedLoop, RendererFault>(RendererFault::QoiMetadata)
            } else {
                decoded matches Ok(d) && d.pixels@ == rgba_colors(rgba) && d.alpha@ == rgba_alpha(
                    rgba,
                ) && d.width == width && d.height == height && d.stride == width
            },
        },
{
    let header = match qoi_decode_header(bytes) {
        None => {
            return Err(RendererFault::QoiHeader);
        },
        Some(header) => header,
    };
    if header.0 != width || header.1 != height || header.2 != 4 {
        return Err(RendererFault::QoiMetadata);
    }
    let rgba = match qoi_decode(bytes) {
        None => {
            return Err(RendererFault::QoiDecode);
        },
        Some(rgba) => rgba,
    };
    let (pixels, alpha) = rgba_to_rgb565(rgba.as_slice());
    if width > u16::MAX as u32 {
        return Err(RendererFault::QoiMetadata);
    }
    Ok(DecodedLoop { pixels, alpha, width, height, stride: width as u16 })
}

} // verus!

//! The QR code of a key URI, rendered as SVG for the enrolment page.

use qrcode::render::svg;
use qrcode::QrCode;
use vstd::prelude::*;
use vstd::string::StringExecFns;

verus! {

/// Whether a QR code (error correction level M, smallest fitting version) can hold the
/// UTF-8 bytes of a text.
pub uninterp spec fn qr_encodable(data: Seq<char>) -> bool;

/// The SVG image of the QR code of a text, with modules scaled so that the image is at
/// least `min_width` by `min_height` pixels.
pub uninterp spec fn qr_svg_image(data: Seq<char>, min_width: u32, min_height: u32) -> Seq<char>;

/// The text of the `qrcode::types::QrError` that refuses a text.
pub uninterp spec fn qr_error_text(data: Seq<char>) -> Seq<char>;

/// Largest minimum dimension accepted; far above any page size, it keeps the renderer's
/// pixel arithmetic inside `u32`.
pub const MAX_QR_DIMENSION: u32 = 1_000_000;

/// `QrCode::new` on the UTF-8 bytes of `data`, then `render::<svg::Color>()`,
/// `min_dimensions(min_width, min_height)` and `build()`; a `QrError` is turned into its
/// `Display` text.
///
/// Trusted: whether the code can be made, the image, and the error text are functions of
/// the arguments alone (`qr_encodable`, `qr_svg_image`, `qr_error_text`). The bound on the
/// dimensions keeps `min_dimensions` and `build` clear of `u32` overflow.
#[verifier::external_body]
fn render_qr_svg(data: &str, min_width: u32, min_height: u32) -> (image: Result<String, String>)
    requires
        min_width <= MAX_QR_DIMENSION,
        min_height <= MAX_QR_DIMENSION,
    ensures
        image is Ok <==> qr_encodable(data@),
        image matches Ok(svg) ==> svg@ == qr_svg_image(data@, min_width, min_height),
        image matches Err(text) ==> text@ == qr_error_text(data@),
{
    match QrCode::new(data.as_bytes()) {
        Ok(code) => Ok(code.render::<svg::Color>().min_dimensions(min_width, min_height).build()),
        Err(e) => Err(format!("{}", e)),
    }
}

/// Side, in pixels, that the QR image is at least.
pub const QR_MIN_SIDE: u32 = 200;

/// The message that reports a QR code that could not be made.
pub open spec fn qr_failure_message(reason: Seq<char>) -> Seq<char> {
    "Ошибка создания QR кода: "@ + reason
}

/// Turns the renderer's outcome into the page's: the image as it is, or the reason behind
/// the message that reports the failure.
pub fn qr_outcome(rendered: Result<String, String>) -> (outcome: Result<String, String>)
    ensures
        rendered matches Ok(svg) ==> outcome matches Ok(s) && s@ == svg@,
        rendered matches Err(reason) ==> outcome matches Err(m) && m@ == qr_failure_message(
            reason@,
        ),
{
    match rendered {
        Ok(svg) => Ok(svg),
        Err(reason) => {
            let mut message = String::from_str("Ошибка создания QR кода: ");
            message.append(reason.as_str());
            Err(message)
        },
    }
}

/// The QR code of `data` as an SVG image of at least 200 by 200 pixels.
pub fn generate_qr_code_svg(data: &str) -> (image: Result<String, String>)
    ensures
        image is Ok <==> qr_encodable(data@),
        image matches Ok(svg) ==> svg@ == qr_svg_image(data@, QR_MIN_SIDE, QR_MIN_SIDE),
        image matches Err(m) ==> m@ == qr_failure_message(qr_error_text(data@)),
{
    qr_outcome(render_qr_svg(data, QR_MIN_SIDE, QR_MIN_SIDE))
}

} // verus!

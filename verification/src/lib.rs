//! One-time passwords after RFC 4226 (HOTP) and RFC 6238 (TOTP), together with
//! the helpers an authenticator enrolment page needs: random secrets, Base32
//! secrets, `otpauth://` URIs, QR codes and the handling of a login form.

pub mod hotp;
pub mod totp;
pub mod secret;
pub mod uri;
pub mod qr;
pub mod request;

# totp_server

A verified TOTP (RFC 6238) / HOTP (RFC 4226) library with the pieces of a small
two-factor enrolment server, written in Verus.

- `src/hotp.rs`: counter bytes, dynamic truncation and HOTP codes over HMAC-SHA1.
- `src/totp.rs`: codes at a Unix time, checks within a window of steps, the clock,
  and the laws that tie generation and checking together.
- `src/secret.rs`: random secrets and their Base32 form.
- `src/uri.rs`: the `otpauth://totp/` key URI with percent-encoded label and issuer.
- `src/qr.rs`: the SVG QR code of a key URI.
- `src/request.rs`: routing of request paths and reading the code of a login form.
- `app/main.rs`: the HTTP server (tiny_http) that serves the pages.

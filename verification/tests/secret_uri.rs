use totp_server::qr::{generate_qr_code_svg, qr_outcome};
use totp_server::secret::{decode_secret_base32, encode_secret_base32, generate_secret};
use totp_server::uri::generate_totp_uri;

#[test]
fn generated_secret_has_twenty_bytes() {
    assert_eq!(generate_secret().len(), 20);
}

#[test]
fn base32_encoding_examples() {
    assert_eq!(encode_secret_base32(b"foobar"), "MZXW6YTBOI");
    assert_eq!(encode_secret_base32(b""), "");
    assert_eq!(encode_secret_base32(b"12345678901234567890"), "GEZDGNBVGY3TQOJQGEZDGNBVGY3TQOJQ");
}

#[test]
fn base32_round_trip() {
    let secret = generate_secret();
    let text = encode_secret_base32(&secret);
    assert_eq!(decode_secret_base32(&text), Ok(secret));
}

#[test]
fn base32_decoding_refuses_bad_text() {
    let message = "Неверный формат Base32".to_string();
    assert_eq!(decode_secret_base32("!!!!"), Err(message.clone()));
    assert_eq!(decode_secret_base32("MZXWé"), Err(message));
}

#[test]
fn base32_decoding_example() {
    assert_eq!(decode_secret_base32("MZXW6YTBOI"), Ok(b"foobar".to_vec()));
}

#[test]
fn totp_uri_encodes_label_and_issuer() {
    assert_eq!(
        generate_totp_uri("JBSWY3DPEHPK3PXP", "MyApp:user@example.com", "MyApp"),
        "otpauth://totp/MyApp%3Auser%40example.com?secret=JBSWY3DPEHPK3PXP&issuer=MyApp"
    );
    assert_eq!(
        generate_totp_uri("AB", "a b~c.d-e_f", "Café"),
        "otpauth://totp/a%20b~c.d-e_f?secret=AB&issuer=Caf%C3%A9"
    );
}

#[test]
fn qr_code_of_a_uri_is_svg() {
    let uri = generate_totp_uri("JBSWY3DPEHPK3PXP", "MyApp:user@example.com", "MyApp");
    let svg = generate_qr_code_svg(&uri).expect("short data fits a QR code");
    assert!(svg.contains("<svg"));
    assert!(svg.contains("</svg>"));
}

#[test]
fn qr_code_refuses_too_much_data() {
    let data = "x".repeat(5000);
    assert_eq!(
        generate_qr_code_svg(&data),
        Err("Ошибка создания QR кода: data too long".to_string())
    );
}

#[test]
fn qr_outcome_prefixes_the_reason() {
    assert_eq!(qr_outcome(Ok("<svg/>".to_string())), Ok("<svg/>".to_string()));
    assert_eq!(
        qr_outcome(Err("data too long".to_string())),
        Err("Ошибка создания QR кода: data too long".to_string())
    );
}

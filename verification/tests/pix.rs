use ams_yt_dw::checksum::crc16_ccitt;
use ams_yt_dw::pix::pix_br_code;

#[test]
fn crc16_check_value() {
    assert_eq!(crc16_ccitt("123456789"), 0x29B1);
}

#[test]
fn crc16_of_empty_is_initial_value() {
    assert_eq!(crc16_ccitt(""), 0xFFFF);
}

#[test]
fn crc16_of_message_and_its_crc_is_zero() {
    // crc16("aaa") == 0x245B, whose two bytes are the ASCII "$[".
    assert_eq!(crc16_ccitt("aaa"), 0x245B);
    assert_eq!(crc16_ccitt("aaa$["), 0);
}

#[test]
fn crc16_of_utf8_text_uses_its_bytes() {
    // "é" is the two bytes C3 A9.
    let a = crc16_ccitt("é");
    let mut crc: u16 = 0xFFFF;
    for b in [0xC3u8, 0xA9] {
        crc ^= (b as u16) << 8;
        for _ in 0..8 {
            crc = if crc & 0x8000 != 0 { (crc << 1) ^ 0x1021 } else { crc << 1 };
        }
    }
    assert_eq!(a, crc);
}

#[test]
fn pix_code_of_the_donation_key() {
    let code = pix_br_code("pixcafe@silvestrehost.com", "AMS Silvestre", "Rio de Janeiro");
    assert_eq!(
        code,
        "00020101021126470014br.gov.bcb.pix0125pixcafe@silvestrehost.com5204000053039865802BR5913AMS Silvestre6014Rio de Janeiro62070503***6304B3EB"
    );
}

#[test]
fn pix_code_cuts_name_and_city_by_bytes() {
    let code = pix_br_code("k", "Joaquim José da Silva Xavier Neto", "São José dos Campos");
    assert_eq!(
        code,
        "00020101021126230014br.gov.bcb.pix0101k5204000053039865802BR5925Joaquim José da Silva Xa6015São José dos 62070503***63046E73"
    );
}

#[test]
fn pix_code_with_long_key_has_three_digit_length() {
    let key = "x".repeat(80);
    let code = pix_br_code(&key, "N", "C");
    assert!(code.starts_with("000201010211261020014br.gov.bcb.pix0180"));
    assert!(code.ends_with("63045F35"));
}

#[test]
fn pix_code_ends_with_crc_of_the_rest() {
    let code = pix_br_code("chave@exemplo.com", "Fulano", "Recife");
    let (body, crc) = code.split_at(code.len() - 4);
    assert!(body.ends_with("6304"));
    assert_eq!(u16::from_str_radix(crc, 16).unwrap(), crc16_ccitt(body));
    assert!(code.starts_with("000201010211"));
}

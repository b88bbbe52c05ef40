//! The Pix BR code ("copia e cola") of a donation key: an EMV QR payload made
//! of id-length-value fields and closed by its CRC-16.
use vstd::prelude::*;
use vstd::string::StringExecFns;
use vstd::utf8::encode_utf8;

use crate::checksum::{crc16_ccitt, crc16_of};
use crate::text::{byte_len, cut_to, cut_to_bytes, cuts_cleanly, push_char};

verus! {

broadcast use vstd::string::group_string_axioms;

// ─── Numbers as text ────────────────────────────────────────────────────────

/// The decimal digit `d` (0 to 9).
pub open spec fn digit_char(d: nat) -> char {
    ((48 + d) as u8) as char
}

/// `n` in decimal, without leading zeros.
pub open spec fn decimal(n: nat) -> Seq<char>
    decreases n,
{
    if n < 10 {
        seq![digit_char(n)]
    } else {
        decimal(n / 10).push(digit_char(n % 10))
    }
}

/// `n` in decimal, at least two digits wide (`format!("{:02}", n)`).
pub open spec fn decimal2(n: nat) -> Seq<char> {
    if n < 10 {
        seq!['0', digit_char(n)]
    } else {
        decimal(n)
    }
}

/// The upper-case hexadecimal digit `d` (0 to 15).
pub open spec fn hex_char(d: u16) -> char {
    if d < 10 {
        ((48 + d) as u8) as char
    } else {
        ((55 + d) as u8) as char
    }
}

/// `n` in upper-case hexadecimal, four digits wide (`format!("{:04X}", n)`).
pub open spec fn hex4(n: u16) -> Seq<char> {
    seq![
        hex_char((n >> 12u16) & 0xFu16),
        hex_char((n >> 8u16) & 0xFu16),
        hex_char((n >> 4u16) & 0xFu16),
        hex_char(n & 0xFu16),
    ]
}

/// The decimal digit `d`.
fn digit_of(d: usize) -> (c: char)
    requires
        d < 10,
    ensures
        c == digit_char(d as nat),
{
    ((48 + d) as u8) as char
}

/// Appends `n` in decimal.
fn push_decimal(s: &mut String, n: usize)
    ensures
        final(s)@ == old(s)@ + decimal(n as nat),
    decreases n,
{
    if n < 10 {
        push_char(s, digit_of(n));
        assert(old(s)@.push(digit_char(n as nat)) =~= old(s)@ + decimal(n as nat));
    } else {
        push_decimal(s, n / 10);
        push_char(s, digit_of(n % 10));
        assert(old(s)@ + decimal((n / 10) as nat) + seq![digit_char((n % 10) as nat)] =~= old(s)@
            + decimal(n as nat));
    }
}

/// Appends `n` in decimal, at least two digits wide.
fn push_decimal2(s: &mut String, n: usize)
    ensures
        final(s)@ == old(s)@ + decimal2(n as nat),
{
    if n < 10 {
        push_char(s, '0');
        push_char(s, digit_of(n));
        assert(old(s)@.push('0').push(digit_char(n as nat)) =~= old(s)@ + decimal2(n as nat));
    } else {
        push_decimal(s, n);
    }
}

/// The hexadecimal digit `d`.
fn hex_of(d: u16) -> (c: char)
    requires
        d < 16,
    ensures
        c == hex_char(d),
{
    if d < 10 {
        ((48 + d) as u8) as char
    } else {
        ((55 + d) as u8) as char
    }
}

/// Appends `n` in upper-case hexadecimal, four digits wide.
fn push_hex4(s: &mut String, n: u16)
    ensures
        final(s)@ == old(s)@ + hex4(n),
{
    let d3 = (n >> 12u16) & 0xFu16;
    let d2 = (n >> 8u16) & 0xFu16;
    let d1 = (n >> 4u16) & 0xFu16;
    let d0 = n & 0xFu16;
    assert(d3 < 16 && d2 < 16 && d1 < 16 && d0 < 16) by (bit_vector)
        requires
            d3 == (n >> 12u16) & 0xFu16,
            d2 == (n >> 8u16) & 0xFu16,
            d1 == (n >> 4u16) & 0xFu16,
            d0 == n & 0xFu16,
    ;
    push_char(s, hex_of(d3));
    push_char(s, hex_of(d2));
    push_char(s, hex_of(d1));
    push_char(s, hex_of(d0));
    assert(final(s)@ =~= old(s)@ + hex4(n));
}

/// The value of a run of decimal digits, read left to right.
pub open spec fn decimal_value(s: Seq<char>) -> int
    decreases s.len(),
{
    if s.len() == 0 {
        0
    } else {
        decimal_value(s.drop_last()) * 10 + ((s.last() as u32) - 48)
    }
}

/// Whether every character of `s` is one of `0` to `9`.
pub open spec fn all_decimal_digits(s: Seq<char>) -> bool {
    forall|i: int| 0 <= i < s.len() ==> 48 <= #[trigger] (s[i] as u32) <= 57
}

/// The decimal digit `d` is the character with code 48 + `d`.
proof fn lemma_digit_char_code(d: nat)
    requires
        d < 10,
    ensures
        digit_char(d) as u32 == 48 + d,
{
}

/// Writing `n` in decimal and reading it back gives `n`; only digits are
/// written, and there is at least one.
pub proof fn law_decimal_reads_back(n: nat)
    ensures
        decimal_value(decimal(n)) == n,
        all_decimal_digits(decimal(n)),
        decimal(n).len() >= 1,
    decreases n,
{
    if n >= 10 {
        law_decimal_reads_back(n / 10);
        lemma_digit_char_code(n % 10);
        let d = decimal(n / 10);
        let e = d.push(digit_char(n % 10));
        assert(e.drop_last() =~= d);
        assert(forall|i: int| 0 <= i < d.len() ==> e[i] == d[i]);
        assert(decimal_value(e) == decimal_value(d) * 10 + (n % 10));
    } else {
        lemma_digit_char_code(n);
        let e = seq![digit_char(n)];
        assert(decimal(n) == e);
        assert(e.drop_last() =~= Seq::<char>::empty());
        assert(decimal_value(e) == decimal_value(Seq::<char>::empty()) * 10 + ((e.last() as u32) - 48));
    }
}

/// The length of an EMV field is written with at least two digits, and read
/// back it gives the number written.
pub proof fn law_decimal2_reads_back(n: nat)
    ensures
        decimal_value(decimal2(n)) == n,
        all_decimal_digits(decimal2(n)),
        decimal2(n).len() >= 2,
{
    if n < 10 {
        lemma_digit_char_code(n);
        let s = seq!['0', digit_char(n)];
        assert(s.drop_last() =~= seq!['0']);
        assert(seq!['0'].drop_last() =~= Seq::<char>::empty());
        assert(('0' as u32) == 48);
        let z = seq!['0'];
        assert(z.drop_last() =~= Seq::<char>::empty());
        assert(z.last() == '0');
        assert(decimal_value(z) == decimal_value(Seq::<char>::empty()) * 10 + ((z.last() as u32) - 48));
        assert(decimal_value(z) == 0);
    } else {
        law_decimal_reads_back(n);
        law_decimal_reads_back(n / 10);
    }
}

/// Every EMV field is its id, then its length in two or more decimal digits,
/// then its value; the length read back is the number of bytes of the value.
pub proof fn law_emv_length_reads_back(id: Seq<char>, value: Seq<char>)
    ensures
        ({
            let f = emv_field(id, value);
            let len_text = f.subrange(id.len() as int, f.len() - value.len());
            &&& f.take(id.len() as int) == id
            &&& f.skip(f.len() - value.len()) == value
            &&& len_text.len() >= 2
            &&& all_decimal_digits(len_text)
            &&& decimal_value(len_text) == byte_len(value)
        }),
{
    let l = decimal2(byte_len(value));
    law_decimal2_reads_back(byte_len(value));
    let f = emv_field(id, value);
    assert(f.take(id.len() as int) =~= id);
    assert(f.skip(f.len() - value.len()) =~= value);
    assert(f.subrange(id.len() as int, f.len() - value.len()) =~= l);
}

// ─── The payload ────────────────────────────────────────────────────────────

/// An EMV field: its id, the byte length of its value in two or more decimal
/// digits, and the value.
pub open spec fn emv_field(id: Seq<char>, value: Seq<char>) -> Seq<char> {
    id + decimal2(byte_len(value)) + value
}

/// The merchant account information: the Pix domain and the key.
pub open spec fn pix_account(key: Seq<char>) -> Seq<char> {
    emv_field("00"@, "br.gov.bcb.pix"@) + emv_field("01"@, key)
}

/// The payload before its checksum: format indicator, static point of
/// initiation, account, category 0000, currency 986 (real), country BR,
/// receiver name (first 25 bytes), city (first 15 bytes), transaction id `***`,
/// and the id and length of the CRC field.
pub open spec fn pix_payload(key: Seq<char>, name: Seq<char>, city: Seq<char>) -> Seq<char> {
    "000201"@ + "010211"@ + emv_field("26"@, pix_account(key)) + "52040000"@ + "5303986"@
        + "5802BR"@ + emv_field("59"@, cut_to_bytes(name, 25)) + emv_field(
        "60"@,
        cut_to_bytes(city, 15),
    ) + "62070503***"@ + "6304"@
}

/// The full BR code: the payload and the CRC-16 of its bytes in four
/// upper-case hexadecimal digits.
pub open spec fn pix_code(key: Seq<char>, name: Seq<char>, city: Seq<char>) -> Seq<char> {
    let payload = pix_payload(key, name, city);
    payload + hex4(crc16_of(encode_utf8(payload)))
}

/// Appends the EMV field with id `id` and value `value`.
fn push_emv_field(s: &mut String, id: &str, value: &str)
    ensures
        final(s)@ == old(s)@ + emv_field(id@, value@),
{
    let ghost before = s@;
    s.append(id);
    push_decimal2(s, value.as_bytes().len());
    s.append(value);
    assert(s@ =~= before + emv_field(id@, value@));
}

/// The Pix BR code for a donation to `key`, received by `name` in `city`.
/// The name is cut to 25 bytes and the city to 15; each cut must fall between
/// two characters.
pub fn pix_br_code(key: &str, name: &str, city: &str) -> (code: String)
    requires
        cuts_cleanly(name@, 25),
        cuts_cleanly(city@, 15),
    ensures
        code@ == pix_code(key@, name@, city@),
{
    let mut mai = String::new();
    push_emv_field(&mut mai, "00", "br.gov.bcb.pix");
    push_emv_field(&mut mai, "01", key);
    assert(mai@ =~= pix_account(key@));
    let name_cut = cut_to(name, 25);
    let city_cut = cut_to(city, 15);
    let mut payload = "000201".to_owned();
    payload.append("010211");
    push_emv_field(&mut payload, "26", mai.as_str());
    payload.append("52040000");
    payload.append("5303986");
    payload.append("5802BR");
    push_emv_field(&mut payload, "59", name_cut);
    push_emv_field(&mut payload, "60", city_cut);
    payload.append("62070503***");
    payload.append("6304");
    assert(payload@ =~= pix_payload(key@, name@, city@));
    let crc = crc16_ccitt(payload.as_str());
    let mut code = payload;
    push_hex4(&mut code, crc);
    code
}

// ─── Laws ───────────────────────────────────────────────────────────────────

/// The value of an upper-case hexadecimal digit; -1 for any other character.
pub open spec fn hex_value(c: char) -> int {
    let u = c as u32;
    if 48 <= u <= 57 {
        u - 48
    } else if 65 <= u <= 70 {
        u - 55
    } else {
        -1
    }
}

/// The value of four upper-case hexadecimal digits.
pub open spec fn hex4_value(s: Seq<char>) -> int {
    hex_value(s[0]) * 4096 + hex_value(s[1]) * 256 + hex_value(s[2]) * 16 + hex_value(s[3])
}

proof fn lemma_hex_char_value(d: u16)
    requires
        d < 16,
    ensures
        hex_value(hex_char(d)) == d,
{
}

/// Reading the four hexadecimal digits of `n` back gives `n`.
pub proof fn lemma_hex4_value(n: u16)
    ensures
        hex4_value(hex4(n)) == n,
{
    let d3 = (n >> 12u16) & 0xFu16;
    let d2 = (n >> 8u16) & 0xFu16;
    let d1 = (n >> 4u16) & 0xFu16;
    let d0 = n & 0xFu16;
    assert(d3 < 16 && d2 < 16 && d1 < 16 && d0 < 16 && d3 * 4096 + d2 * 256 + d1 * 16 + d0 == n)
        by (bit_vector)
        requires
            d3 == (n >> 12u16) & 0xFu16,
            d2 == (n >> 8u16) & 0xFu16,
            d1 == (n >> 4u16) & 0xFu16,
            d0 == n & 0xFu16,
    ;
    lemma_hex_char_value(d3);
    lemma_hex_char_value(d2);
    lemma_hex_char_value(d1);
    lemma_hex_char_value(d0);
}

/// A BR code closes with its own checksum: its last four characters, read as
/// hexadecimal, are the CRC-16 of the UTF-8 bytes of everything before them,
/// which in turn end with the CRC field's id and length `6304`.
pub proof fn law_pix_code_ends_with_its_crc(key: Seq<char>, name: Seq<char>, city: Seq<char>)
    ensures
        ({
            let code = pix_code(key, name, city);
            let body = code.take(code.len() - 4);
            &&& code.len() > 8
            &&& body.skip(body.len() - 4) == "6304"@
            &&& hex4_value(code.skip(code.len() - 4)) == crc16_of(encode_utf8(body))
        }),
{
    reveal_strlit("6304");
    let payload = pix_payload(key, name, city);
    let code = pix_code(key, name, city);
    let crc = crc16_of(encode_utf8(payload));
    assert(code.take(code.len() - 4) =~= payload);
    assert(code.skip(code.len() - 4) =~= hex4(crc));
    assert(payload.skip(payload.len() - 4) =~= "6304"@);
    lemma_hex4_value(crc);
}

/// A BR code opens with the payload format indicator `000201` and the static
/// point of initiation `010211`.
pub proof fn law_pix_code_header(key: Seq<char>, name: Seq<char>, city: Seq<char>)
    ensures
        pix_code(key, name, city).take(12) == "000201010211"@,
{
    reveal_strlit("000201");
    reveal_strlit("010211");
    reveal_strlit("000201010211");
    assert(pix_code(key, name, city).take(12) =~= "000201010211"@);
}

} // verus!

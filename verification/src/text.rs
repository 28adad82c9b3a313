//! Small verified text utilities: decimal rendering of integers,
//! percent-encoding of query components, and character-level string
//! building.

use vstd::prelude::*;
use vstd::string::*;

verus! {

/// The decimal digit character for `d` (`0 <= d <= 9`).
pub open spec fn digit_char(d: nat) -> char {
    if d == 0 {
        '0'
    } else if d == 1 {
        '1'
    } else if d == 2 {
        '2'
    } else if d == 3 {
        '3'
    } else if d == 4 {
        '4'
    } else if d == 5 {
        '5'
    } else if d == 6 {
        '6'
    } else if d == 7 {
        '7'
    } else if d == 8 {
        '8'
    } else {
        '9'
    }
}

/// Base-10 rendering of `n`, most significant digit first, no leading zeros
/// (a single `'0'` for zero).
pub open spec fn dec_of(n: nat) -> Seq<char>
    decreases n,
{
    if n < 10 {
        seq![digit_char(n)]
    } else {
        dec_of(n / 10).push(digit_char(n % 10))
    }
}

/// Base-10 rendering of a signed value: a leading `'-'` for negatives.
pub open spec fn dec_of_int(n: int) -> Seq<char> {
    if n >= 0 {
        dec_of(n as nat)
    } else {
        seq!['-'] + dec_of((-n) as nat)
    }
}

fn digit_str(d: u64) -> (s: String)
    requires
        d < 10,
    ensures
        s@ == seq![digit_char(d as nat)],
{
    let lit: &str = match d {
        0 => "0",
        1 => "1",
        2 => "2",
        3 => "3",
        4 => "4",
        5 => "5",
        6 => "6",
        7 => "7",
        8 => "8",
        _ => "9",
    };
    proof {
        reveal_strlit("0");
        reveal_strlit("1");
        reveal_strlit("2");
        reveal_strlit("3");
        reveal_strlit("4");
        reveal_strlit("5");
        reveal_strlit("6");
        reveal_strlit("7");
        reveal_strlit("8");
        reveal_strlit("9");
        assert(lit@ =~= seq![digit_char(d as nat)]);
    }
    lit.to_owned()
}

/// Render an unsigned 64-bit value in decimal.
pub fn u64_to_dec(n: u64) -> (s: String)
    ensures
        s@ == dec_of(n as nat),
    decreases n,
{
    if n < 10 {
        digit_str(n)
    } else {
        let high = u64_to_dec(n / 10);
        let low = digit_str(n % 10);
        let out = high.concat(low.as_str());
        proof {
            assert(out@ =~= dec_of((n / 10) as nat).push(digit_char((n % 10) as nat)));
        }
        out
    }
}

/// Render a signed 64-bit value in decimal.
pub fn i64_to_dec(n: i64) -> (s: String)
    ensures
        s@ == dec_of_int(n as int),
{
    if n >= 0 {
        u64_to_dec(n as u64)
    } else {
        let wide: i128 = n as i128;
        let magnitude: u64 = (-wide) as u64;
        let digits = u64_to_dec(magnitude);
        let out = "-".to_owned().concat(digits.as_str());
        proof {
            reveal_strlit("-");
            assert(magnitude as int == -(n as int));
            assert(out@ =~= seq!['-'] + dec_of((-(n as int)) as nat));
        }
        out
    }
}

/// Render a signed 32-bit value in decimal.
pub fn i32_to_dec(n: i32) -> (s: String)
    ensures
        s@ == dec_of_int(n as int),
{
    i64_to_dec(n as i64)
}

/// Render an unsigned 16-bit value in decimal.
pub fn u16_to_dec(n: u16) -> (s: String)
    ensures
        s@ == dec_of(n as nat),
{
    u64_to_dec(n as u64)
}

/// The boolean query encoding: literal `true` or `false`.
pub open spec fn bool_lit(b: bool) -> Seq<char> {
    if b {
        "true"@
    } else {
        "false"@
    }
}

/// Render a boolean as its literal query encoding.
pub fn bool_str(b: bool) -> (s: String)
    ensures
        s@ == bool_lit(b),
{
    if b {
        "true".to_owned()
    } else {
        "false".to_owned()
    }
}

/// Relies on `String::push`: appends one character at the end of the string.
#[verifier::external_body]
pub fn push_char(s: &mut String, c: char)
    ensures
        final(s)@ == old(s)@.push(c),
{
    s.push(c);
}

/// The uppercase hexadecimal digit character for `d` (`0 <= d <= 15`).
pub open spec fn hex_char(d: nat) -> char {
    if d < 10 {
        digit_char(d)
    } else if d == 10 {
        'A'
    } else if d == 11 {
        'B'
    } else if d == 12 {
        'C'
    } else if d == 13 {
        'D'
    } else if d == 14 {
        'E'
    } else {
        'F'
    }
}

/// The uppercase hexadecimal digit character for `d` (`0 <= d <= 15`).
pub fn hex_of_u32(d: u32) -> (c: char)
    requires
        d < 16,
    ensures
        c == hex_char(d as nat),
{
    match d {
        0 => '0',
        1 => '1',
        2 => '2',
        3 => '3',
        4 => '4',
        5 => '5',
        6 => '6',
        7 => '7',
        8 => '8',
        9 => '9',
        10 => 'A',
        11 => 'B',
        12 => 'C',
        13 => 'D',
        14 => 'E',
        _ => 'F',
    }
}

/// Characters that a query component carries unescaped: ASCII letters,
/// digits and the unreserved marks.
pub open spec fn is_unreserved(c: char) -> bool {
    ('a' <= c && c <= 'z') || ('A' <= c && c <= 'Z') || ('0' <= c && c <= '9') || c == '-' || c
        == '_' || c == '.' || c == '~'
}

/// The `%XX` triples of a byte string.
pub open spec fn percent_bytes(bs: Seq<u8>) -> Seq<char>
    decreases bs.len(),
{
    if bs.len() == 0 {
        Seq::empty()
    } else {
        seq!['%', hex_char((bs[0] / 16) as nat), hex_char((bs[0] % 16) as nat)] + percent_bytes(
            bs.subrange(1, bs.len() as int),
        )
    }
}

/// Percent-encoding of one character of a query component. Unreserved
/// characters pass through unchanged; every other character becomes one
/// `%XX` triple per byte of its UTF-8 encoding.
pub open spec fn enc_char(c: char) -> Seq<char> {
    if is_unreserved(c) {
        seq![c]
    } else {
        percent_bytes(vstd::utf8::encode_scalar(c as u32))
    }
}

/// Percent-encoding of a whole query component.
pub open spec fn enc_component(s: Seq<char>) -> Seq<char>
    decreases s.len(),
{
    if s.len() == 0 {
        Seq::empty()
    } else {
        enc_char(s[0]) + enc_component(s.subrange(1, s.len() as int))
    }
}

proof fn lemma_enc_component_snoc(s: Seq<char>, c: char)
    ensures
        enc_component(s.push(c)) == enc_component(s) + enc_char(c),
    decreases s.len(),
{
    let whole = s.push(c);
    if s.len() == 0 {
        assert(whole.subrange(1, whole.len() as int) =~= Seq::<char>::empty());
        assert(whole[0] == c);
        assert(enc_component(whole) == enc_char(c) + enc_component(Seq::<char>::empty()));
        assert(enc_component(whole) =~= enc_char(c));
        assert(enc_component(s) + enc_char(c) =~= enc_char(c));
    } else {
        assert(whole.subrange(1, whole.len() as int) =~= s.subrange(1, s.len() as int).push(c));
        lemma_enc_component_snoc(s.subrange(1, s.len() as int), c);
        assert(enc_component(whole) =~= enc_component(s) + enc_char(c));
    }
}

/// Percent-encode a query component.
pub fn encode_component(s: &str) -> (r: String)
    ensures
        r@ == enc_component(s@),
{
    let len = s.unicode_len();
    let mut out = String::new();
    let mut i: usize = 0;
    while i < len
        invariant
            len == s@.len(),
            i <= len,
            out@ == enc_component(s@.subrange(0, i as int)),
        decreases len - i,
    {
        let c = s.get_char(i);
        let keep = ('a' <= c && c <= 'z') || ('A' <= c && c <= 'Z') || ('0' <= c && c <= '9') || c
            == '-' || c == '_' || c == '.' || c == '~';
        if keep {
            push_char(&mut out, c);
        } else {
            push_percent_encoded(&mut out, c);
        }
        proof {
            let prefix = s@.subrange(0, i as int);
            assert(s@.subrange(0, i + 1 as int) =~= prefix.push(s@[i as int]));
            lemma_enc_component_snoc(prefix, s@[i as int]);
            assert(out@ =~= enc_component(prefix) + enc_char(s@[i as int]));
        }
        i = i + 1;
    }
    proof {
        assert(s@.subrange(0, len as int) =~= s@);
    }
    out
}

/// The UTF-8 bytes of one character, computed exactly as
/// [`vstd::utf8::encode_scalar`] states them.
fn char_utf8_bytes(c: char) -> (r: Vec<u8>)
    ensures
        r@ == vstd::utf8::encode_scalar(c as u32),
{
    let scalar = c as u32;
    let mut out: Vec<u8> = Vec::new();
    if scalar <= 0x7F {
        out.push((scalar & 0x7F) as u8);
    } else if scalar <= 0x7FF {
        out.push(0xC0u8 | (((scalar >> 6) & 0x1F) as u8));
        out.push(0x80u8 | ((scalar & 0x3F) as u8));
    } else if scalar <= 0xFFFF {
        proof {
            assert(!(0xD800 <= scalar && scalar <= 0xDFFF));
        }
        out.push(0xE0u8 | (((scalar >> 12) & 0x0F) as u8));
        out.push(0x80u8 | (((scalar >> 6) & 0x3F) as u8));
        out.push(0x80u8 | ((scalar & 0x3F) as u8));
    } else {
        out.push(0xF0u8 | (((scalar >> 18) & 0x7) as u8));
        out.push(0x80u8 | (((scalar >> 12) & 0x3F) as u8));
        out.push(0x80u8 | (((scalar >> 6) & 0x3F) as u8));
        out.push(0x80u8 | ((scalar & 0x3F) as u8));
    }
    proof {
        assert(out@ =~= vstd::utf8::encode_scalar(c as u32));
    }
    out
}

proof fn lemma_percent_bytes_snoc(bs: Seq<u8>, b: u8)
    ensures
        percent_bytes(bs.push(b)) == percent_bytes(bs) + seq![
            '%',
            hex_char((b / 16) as nat),
            hex_char((b % 16) as nat),
        ],
    decreases bs.len(),
{
    let whole = bs.push(b);
    let triple = seq!['%', hex_char((b / 16) as nat), hex_char((b % 16) as nat)];
    if bs.len() == 0 {
        assert(whole.subrange(1, whole.len() as int) =~= Seq::<u8>::empty());
        assert(whole[0] == b);
        assert(percent_bytes(whole) == triple + percent_bytes(Seq::<u8>::empty()));
        assert(percent_bytes(whole) =~= percent_bytes(bs) + triple);
    } else {
        assert(whole.subrange(1, whole.len() as int) =~= bs.subrange(1, bs.len() as int).push(b));
        lemma_percent_bytes_snoc(bs.subrange(1, bs.len() as int), b);
        assert(percent_bytes(whole) =~= percent_bytes(bs) + triple);
    }
}

/// Append the `%XX` triples for every UTF-8 byte of one reserved
/// character.
fn push_percent_encoded(out: &mut String, c: char)
    requires
        !is_unreserved(c),
    ensures
        final(out)@ == old(out)@ + enc_char(c),
{
    let bytes = char_utf8_bytes(c);
    let count = bytes.len();
    let mut k: usize = 0;
    while k < count
        invariant
            count == bytes@.len(),
            k <= count,
            bytes@ == vstd::utf8::encode_scalar(c as u32),
            out@ == old(out)@ + percent_bytes(bytes@.subrange(0, k as int)),
        decreases count - k,
    {
        let b = bytes[k];
        push_char(out, '%');
        push_char(out, hex_of_u32((b / 16) as u32));
        push_char(out, hex_of_u32((b % 16) as u32));
        proof {
            let prefix = bytes@.subrange(0, k as int);
            assert(bytes@.subrange(0, k + 1 as int) =~= prefix.push(bytes@[k as int]));
            lemma_percent_bytes_snoc(prefix, bytes@[k as int]);
            assert(out@ =~= old(out)@ + percent_bytes(bytes@.subrange(0, k + 1 as int)));
        }
        k = k + 1;
    }
    proof {
        assert(bytes@.subrange(0, count as int) =~= bytes@);
        assert(out@ =~= old(out)@ + enc_char(c));
    }
}

/// Does `s` start with `p`?
pub fn has_prefix(s: &str, p: &str) -> (r: bool)
    ensures
        r == (s@.len() >= p@.len() && s@.subrange(0, p@.len() as int) == p@),
{
    let sn = s.unicode_len();
    let pn = p.unicode_len();
    if sn < pn {
        proof {
            assert(!(s@.len() >= p@.len()));
        }
        return false;
    }
    let mut i: usize = 0;
    while i < pn
        invariant
            sn == s@.len(),
            pn == p@.len(),
            pn <= sn,
            i <= pn,
            forall|k: int| 0 <= k < i ==> s@[k] == p@[k],
        decreases pn - i,
    {
        if s.get_char(i) != p.get_char(i) {
            proof {
                assert(s@.subrange(0, p@.len() as int)[i as int] != p@[i as int]);
            }
            return false;
        }
        i = i + 1;
    }
    proof {
        assert(s@.subrange(0, p@.len() as int) =~= p@);
    }
    true
}

} // verus!

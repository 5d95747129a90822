//! Text as the icon cache needs it: hexadecimal and decimal digits, and the
//! UTF-16 strings of Windows.

use vstd::prelude::*;

verus! {

/// `std`'s `String::push`: the string grows by this one character at its end.
pub assume_specification[ String::push ](text: &mut String, c: char)
    ensures
        final(text)@ == old(text)@.push(c),
;

/// `std`'s `char::from_u32`: the character with this code, and `None` for a
/// number that is no Unicode scalar value.
pub assume_specification[ char::from_u32 ](code: u32) -> (c: Option<char>)
    ensures
        c is Some <==> vstd::utf8::is_scalar(code),
        c matches Some(found) ==> found as u32 == code,
;

// ---------------------------------------------------------------------------
// Hexadecimal
// ---------------------------------------------------------------------------

/// The lower-case hexadecimal digit that stands for `n`.
pub open spec fn hex_digit(n: int) -> char
    recommends
        0 <= n < 16,
{
    if n < 10 {
        (48 + n) as char
    } else {
        (87 + n) as char
    }
}

/// Two lower-case hexadecimal digits for each byte, the high half first.
pub open spec fn hex(bytes: Seq<u8>) -> Seq<char> {
    Seq::new(
        2 * bytes.len(),
        |i: int|
            if i % 2 == 0 {
                hex_digit(bytes[i / 2] as int / 16)
            } else {
                hex_digit(bytes[i / 2] as int % 16)
            },
    )
}

fn hex_digit_of(n: u8) -> (c: char)
    requires
        n < 16,
    ensures
        c == hex_digit(n as int),
{
    if n < 10 {
        (48 + n) as char
    } else {
        (87 + n) as char
    }
}

/// Writes `bytes` as lower-case hexadecimal, two digits for each byte.
pub fn to_hex(bytes: &[u8]) -> (text: String)
    ensures
        text@ == hex(bytes@),
{
    let mut text = String::new();
    for i in 0..bytes.len()
        invariant
            text@ == hex(bytes@.take(i as int)),
    {
        let byte = bytes[i];
        text.push(hex_digit_of(byte / 16));
        text.push(hex_digit_of(byte % 16));
        assert(text@ =~= hex(bytes@.take(i + 1)));
    }
    assert(bytes@.take(bytes@.len() as int) =~= bytes@);
    text
}

/// Each byte is spelled by two characters: one for its high half and then one for
/// its low half, `0` to `9` for a half below ten and `a` to `f` from ten on.
pub proof fn law_hex_spells_each_byte(bytes: Seq<u8>, i: int)
    requires
        0 <= i < bytes.len(),
    ensures
        hex(bytes).len() == 2 * bytes.len(),
        hex(bytes)[2 * i] as int == (if bytes[i] < 0xA0 {
            '0' as int + bytes[i] as int / 16
        } else {
            'a' as int + bytes[i] as int / 16 - 10
        }),
        hex(bytes)[2 * i + 1] as int == (if bytes[i] % 16 < 10 {
            '0' as int + bytes[i] as int % 16
        } else {
            'a' as int + bytes[i] as int % 16 - 10
        }),
{
    assert((2 * i) / 2 == i && (2 * i + 1) / 2 == i);
}

/// Different bytes have different hexadecimal forms.
pub proof fn law_hex_injective(a: Seq<u8>, b: Seq<u8>)
    ensures
        hex(a) == hex(b) <==> a == b,
{
    if hex(a) == hex(b) {
        assert(hex(a).len() == 2 * a.len());
        assert(hex(b).len() == 2 * b.len());
        assert forall|i: int| 0 <= i < a.len() implies a[i] == b[i] by {
            assert(hex(a)[2 * i] == hex(b)[2 * i]);
            assert(hex(a)[2 * i + 1] == hex(b)[2 * i + 1]);
            assert((2 * i) / 2 == i && (2 * i + 1) / 2 == i);
            lemma_hex_digit_injective(a[i] as int / 16, b[i] as int / 16);
            lemma_hex_digit_injective(a[i] as int % 16, b[i] as int % 16);
        }
        assert(a =~= b);
    }
}

proof fn lemma_hex_digit_injective(m: int, n: int)
    requires
        0 <= m < 16,
        0 <= n < 16,
        hex_digit(m) == hex_digit(n),
    ensures
        m == n,
{
    assert(hex_digit(m) as int == if m < 10 { 48 + m } else { 87 + m });
    assert(hex_digit(n) as int == if n < 10 { 48 + n } else { 87 + n });
}

/// True of `0` to `9` and `a` to `f`.
pub open spec fn is_hex_digit(c: char) -> bool {
    '0' <= c <= '9' || 'a' <= c <= 'f'
}

/// A hexadecimal form holds lower-case hexadecimal digits and nothing else.
pub proof fn law_hex_digits(bytes: Seq<u8>)
    ensures
        hex(bytes).len() == 2 * bytes.len(),
        forall|i: int| 0 <= i < hex(bytes).len() ==> is_hex_digit(#[trigger] hex(bytes)[i]),
{
}

// ---------------------------------------------------------------------------
// Decimal
// ---------------------------------------------------------------------------

/// The decimal digit that stands for `n`.
pub open spec fn decimal_digit(n: nat) -> char
    recommends
        n < 10,
{
    (48 + n) as char
}

/// The decimal form of `n`, without leading zeros.
pub open spec fn decimal(n: nat) -> Seq<char>
    decreases n,
{
    if n < 10 {
        seq![decimal_digit(n)]
    } else {
        decimal(n / 10).push(decimal_digit(n % 10))
    }
}

/// Appends the decimal form of `n`.
pub fn push_decimal(text: &mut String, n: u64)
    ensures
        final(text)@ == old(text)@ + decimal(n as nat),
    decreases n,
{
    if n >= 10 {
        push_decimal(text, n / 10);
    }
    text.push((48 + (n % 10) as u8) as char);
    assert(text@ =~= old(text)@ + decimal(n as nat));
}

/// A number below ten is its one digit.
pub proof fn law_decimal_of_a_digit(n: nat)
    requires
        n < 10,
    ensures
        decimal(n).len() == 1,
        decimal(n)[0] as int == '0' as int + n,
{
}

/// A digit behind the decimal form of a number makes it ten times as large and
/// adds the digit.
pub proof fn law_decimal_grows_by_a_digit(n: nat, digit: nat)
    requires
        n > 0,
        digit < 10,
    ensures
        decimal(10 * n + digit).len() == decimal(n).len() + 1,
        decimal(10 * n + digit).drop_last() == decimal(n),
        decimal(10 * n + digit).last() as int == '0' as int + digit,
{
    let longer: nat = 10 * n + digit;
    assert(longer / 10 == n && longer % 10 == digit);
    assert(decimal(longer).drop_last() =~= decimal(n));
}

/// A decimal form holds at least one digit, and digits alone.
pub proof fn law_decimal_digits(n: nat)
    ensures
        decimal(n).len() > 0,
        forall|i: int| 0 <= i < decimal(n).len() ==> '0' <= #[trigger] decimal(n)[i] <= '9',
    decreases n,
{
    if n >= 10 {
        law_decimal_digits(n / 10);
    }
}

/// Different numbers have different decimal forms.
pub proof fn law_decimal_injective(m: nat, n: nat)
    ensures
        decimal(m) == decimal(n) <==> m == n,
    decreases m,
{
    if decimal(m) == decimal(n) {
        law_decimal_digits(m / 10);
        law_decimal_digits(n / 10);
        assert(decimal(m).last() == decimal_digit(m % 10));
        assert(decimal(n).last() == decimal_digit(n % 10));
        assert(decimal_digit(m % 10) as int == 48 + m % 10);
        assert(decimal_digit(n % 10) as int == 48 + n % 10);
        if m >= 10 && n >= 10 {
            assert(decimal(m / 10) =~= decimal(m).drop_last());
            assert(decimal(n / 10) =~= decimal(n).drop_last());
            law_decimal_injective(m / 10, n / 10);
        }
    }
}

// ---------------------------------------------------------------------------
// UTF-16
// ---------------------------------------------------------------------------

/// The first half of a surrogate pair.
pub open spec fn is_high_surrogate(unit: u16) -> bool {
    0xD800 <= unit <= 0xDBFF
}

/// The second half of a surrogate pair.
pub open spec fn is_low_surrogate(unit: u16) -> bool {
    0xDC00 <= unit <= 0xDFFF
}

/// The character that a surrogate pair stands for.
pub open spec fn surrogate_pair(high: u16, low: u16) -> char {
    (0x10000 + (high - 0xD800) * 0x400 + (low - 0xDC00)) as char
}

/// The text that UTF-16 `units` spell, with U+FFFD in place of each surrogate
/// that is not half of a pair.
pub open spec fn lossy_text(units: Seq<u16>) -> Seq<char>
    decreases units.len(),
{
    if units.len() == 0 {
        seq![]
    } else if units.len() >= 2 && is_high_surrogate(units[0]) && is_low_surrogate(units[1]) {
        seq![surrogate_pair(units[0], units[1])] + lossy_text(units.skip(2))
    } else if is_high_surrogate(units[0]) || is_low_surrogate(units[0]) {
        seq!['\u{FFFD}'] + lossy_text(units.skip(1))
    } else {
        seq![units[0] as char] + lossy_text(units.skip(1))
    }
}

/// A unit that is no surrogate is the character with its number, whatever follows;
/// no units are no text.
pub proof fn law_plain_unit_is_kept(unit: u16, rest: Seq<u16>)
    requires
        unit < 0xD800 || unit > 0xDFFF,
    ensures
        lossy_text(seq![]) == Seq::<char>::empty(),
        lossy_text(seq![unit] + rest).len() == 1 + lossy_text(rest).len(),
        lossy_text(seq![unit] + rest)[0] as int == unit,
        lossy_text(seq![unit] + rest).skip(1) == lossy_text(rest),
{
    let units = seq![unit] + rest;
    assert(units.skip(1) =~= rest);
    assert(lossy_text(units).skip(1) =~= lossy_text(rest));
}

/// Two surrogates that make a pair are the one character that the ten low bits of
/// each spell above U+FFFF, whatever follows.
pub proof fn law_pair_is_one_character(high: u16, low: u16, rest: Seq<u16>)
    requires
        0xD800 <= high <= 0xDBFF,
        0xDC00 <= low <= 0xDFFF,
    ensures
        lossy_text(seq![high, low] + rest).len() == 1 + lossy_text(rest).len(),
        lossy_text(seq![high, low] + rest)[0] as int == 0x10000 + 0x400 * (high - 0xD800) + (low
            - 0xDC00),
        lossy_text(seq![high, low] + rest).skip(1) == lossy_text(rest),
{
    let units = seq![high, low] + rest;
    assert(units.skip(2) =~= rest);
    assert(lossy_text(units).skip(1) =~= lossy_text(rest));
}

/// A surrogate that is not half of a pair reads as U+FFFD, and takes nothing of
/// what follows with it.
pub proof fn law_unpaired_surrogate_is_replaced(unit: u16, rest: Seq<u16>)
    requires
        0xD800 <= unit <= 0xDFFF,
        unit > 0xDBFF || rest.len() == 0 || rest[0] < 0xDC00 || rest[0] > 0xDFFF,
    ensures
        lossy_text(seq![unit] + rest) == seq!['\u{FFFD}'] + lossy_text(rest),
{
    let units = seq![unit] + rest;
    assert(units.skip(1) =~= rest);
    if rest.len() > 0 {
        assert(units[1] == rest[0]);
    }
}

/// Decodes UTF-16 `units`; an unpaired surrogate becomes U+FFFD.
pub fn to_lossy_text(units: &[u16]) -> (text: String)
    ensures
        text@ == lossy_text(units@),
{
    let mut text = String::new();
    let mut i: usize = 0;
    assert(units@.skip(0) =~= units@);
    while i < units.len()
        invariant
            i <= units.len(),
            text@ + lossy_text(units@.skip(i as int)) == lossy_text(units@),
        decreases units.len() - i,
    {
        let ghost rest = units@.skip(i as int);
        let ghost before = text@;
        let unit = units[i];
        let mut code: u32 = unit as u32;
        let mut width: usize = 1;
        if 0xD800 <= unit && unit <= 0xDBFF && i + 1 < units.len() && 0xDC00 <= units[i + 1]
            && units[i + 1] <= 0xDFFF {
            code = 0x10000 + (unit as u32 - 0xD800) * 0x400 + (units[i + 1] as u32 - 0xDC00);
            width = 2;
        }
        let c = match char::from_u32(code) {
            Some(c) => c,
            None => '\u{FFFD}',
        };
        text.push(c);
        proof {
            assert(rest.skip(width as int) =~= units@.skip(i + width));
            assert(rest[0] == unit);
            if vstd::utf8::is_scalar(code) {
                vstd::utf8::char_u32_cast(c, code);
            }
            if width == 2 {
                assert(rest[1] == units@[i + 1]);
                assert(c == surrogate_pair(rest[0], rest[1]));
            } else if vstd::utf8::is_scalar(code) {
                assert(c == unit as char);
            }
            assert(lossy_text(rest) =~= seq![c] + lossy_text(rest.skip(width as int)));
            assert(text@ + lossy_text(rest.skip(width as int)) =~= before + lossy_text(rest));
        }
        i = i + width;
    }
    assert(text@ + lossy_text(units@.skip(i as int)) =~= text@);
    text
}

/// `units` with a terminating NUL, as the functions of Windows take a string.
pub fn null_terminated(units: &[u16]) -> (wide: Vec<u16>)
    ensures
        wide@ == units@.push(0),
{
    let mut wide: Vec<u16> = Vec::new();
    for i in 0..units.len()
        invariant
            wide@ == units@.take(i as int),
    {
        wide.push(units[i]);
        assert(wide@ =~= units@.take(i + 1));
    }
    wide.push(0);
    assert(wide@ =~= units@.push(0));
    wide
}

/// The UTF-16 units of ASCII `text`.
pub open spec fn ascii_units(text: Seq<char>) -> Seq<u16> {
    Seq::new(text.len(), |i: int| text[i] as u16)
}

/// Each character of an ASCII text is the unit with its number.
pub proof fn law_ascii_units(text: Seq<char>, i: int)
    requires
        vstd::utf8::is_ascii_chars(text),
        0 <= i < text.len(),
    ensures
        ascii_units(text).len() == text.len(),
        ascii_units(text)[i] as int == text[i] as int,
{
    assert('\0' <= text[i] <= '\u{7f}');
}

/// Encodes ASCII `text` as UTF-16.
pub(crate) fn to_ascii_units(text: &str) -> (units: Vec<u16>)
    requires
        vstd::utf8::is_ascii_chars(text@),
    ensures
        units@ == ascii_units(text@),
{
    let bytes = text.as_bytes();
    proof {
        vstd::utf8::is_ascii_chars_encode_utf8(text@);
    }
    let mut units: Vec<u16> = Vec::new();
    for i in 0..bytes.len()
        invariant
            bytes@.len() == text@.len(),
            forall|j: int| 0 <= j < text@.len() ==> text@[j] as u8 == #[trigger] bytes@[j],
            vstd::utf8::is_ascii_chars(text@),
            units@.len() == i,
            forall|j: int| 0 <= j < i ==> #[trigger] units@[j] == text@[j] as u16,
    {
        assert(text@[i as int] as u8 == bytes@[i as int]);
        assert('\0' <= text@[i as int] <= '\u{7f}');
        units.push(bytes[i] as u16);
    }
    assert(units@ =~= ascii_units(text@));
    units
}

/// The UTF-16 units of one character.
pub open spec fn char_units(c: char) -> Seq<u16> {
    let code = c as int;
    if code < 0x10000 {
        seq![code as u16]
    } else {
        seq![
            (0xD800 + (code - 0x10000) / 0x400) as u16,
            (0xDC00 + (code - 0x10000) % 0x400) as u16,
        ]
    }
}

/// The UTF-16 form of `text`.
pub open spec fn text_units(text: Seq<char>) -> Seq<u16>
    decreases text.len(),
{
    if text.len() == 0 {
        seq![]
    } else {
        char_units(text[0]) + text_units(text.skip(1))
    }
}

/// Nothing is lost of a text in well-formed UTF-16.
pub proof fn law_well_formed_text_is_kept(text: Seq<char>)
    ensures
        lossy_text(text_units(text)) == text,
    decreases text.len(),
{
    if text.len() > 0 {
        let c = text[0];
        let own = char_units(c);
        let units = text_units(text);
        let rest = text_units(text.skip(1));
        law_well_formed_text_is_kept(text.skip(1));
        vstd::utf8::char_is_scalar(c);
        vstd::utf8::char_u32_cast(c, c as u32);
        assert(c as u32 == c as int);
        assert(units.skip(own.len() as int) =~= rest);
        assert(units[0] == own[0]);
        if (c as int) < 0x10000 {
            assert(!is_high_surrogate(units[0]) && !is_low_surrogate(units[0]));
            assert(units[0] as char == c);
        } else {
            assert(units[1] == own[1]);
            let high = (0xD800 + (c as int - 0x10000) / 0x400) as u16;
            let low = (0xDC00 + (c as int - 0x10000) % 0x400) as u16;
            assert(is_high_surrogate(high) && is_low_surrogate(low));
            assert(0x10000 + (high - 0xD800) * 0x400 + (low - 0xDC00) == c as int);
            assert(surrogate_pair(high, low) == c);
        }
        assert(lossy_text(units) =~= seq![c] + text.skip(1));
        assert(seq![c] + text.skip(1) =~= text);
    }
}

} // verus!

//! Text building blocks shared by the value adapters and the SQL generators:
//! decimal and hexadecimal renderings, joining with a separator, and string
//! equality, each with a mathematical definition over `Seq<char>`.
use vstd::prelude::*;
use vstd::utf8::*;

verus! {

/// `String::push` appends one character.
pub assume_specification[ String::push ](s: &mut String, c: char)
    ensures
        final(s)@ == old(s)@.push(c),
;

/// The character of a decimal digit `0..=9`.
pub open spec fn digit_char(d: int) -> char {
    ((48 + d) as u8) as char
}

/// The decimal digits of a natural number, most significant first, without
/// leading zeros (`0` is written `"0"`).
pub open spec fn decimal_digits(n: nat) -> Seq<char>
    decreases n,
{
    if n < 10 {
        seq![digit_char(n as int)]
    } else {
        decimal_digits(n / 10).push(digit_char((n % 10) as int))
    }
}

/// The decimal rendering of an integer: a minus sign for negative values,
/// then the digits of the magnitude.
pub open spec fn decimal_text(i: int) -> Seq<char> {
    if i < 0 {
        seq!['-'] + decimal_digits((-i) as nat)
    } else {
        decimal_digits(i as nat)
    }
}

/// The character of a hexadecimal digit `0..=15`, lower case.
pub open spec fn hex_digit(d: int) -> char {
    if d < 10 {
        digit_char(d)
    } else {
        ((87 + d) as u8) as char
    }
}

/// Two lower-case hexadecimal digits per byte, in order.
pub open spec fn hex_text(bytes: Seq<u8>) -> Seq<char>
    decreases bytes.len(),
{
    if bytes.len() == 0 {
        Seq::empty()
    } else {
        hex_text(bytes.drop_last()).push(hex_digit(bytes.last() as int / 16)).push(
            hex_digit(bytes.last() as int % 16),
        )
    }
}

/// The character in lower case, where it is an upper-case letter of ASCII.
pub open spec fn lower_char(c: char) -> char {
    if 65 <= (c as u32) <= 90 {
        ((c as u8) + 32) as u8 as char
    } else {
        c
    }
}

/// The text with its upper-case letters of ASCII in lower case.
pub open spec fn lower_case(text: Seq<char>) -> Seq<char> {
    Seq::new(text.len(), |i: int| lower_char(text[i]))
}

/// The digit that a character stands for, where it is a decimal digit.
pub open spec fn digit_value(c: char) -> int {
    (c as u8) as int - 48
}

/// The number that decimal digits stand for.
pub open spec fn decimal_value(digits: Seq<char>) -> nat
    decreases digits.len(),
{
    if digits.len() == 0 {
        0
    } else {
        (decimal_value(digits.drop_last()) * 10 + digit_value(digits.last())) as nat
    }
}

/// The integer that a decimal text stands for: negative behind a minus sign.
pub open spec fn signed_decimal_value(text: Seq<char>) -> int {
    if text.len() > 0 && text[0] == '-' {
        -(decimal_value(text.skip(1)) as int)
    } else {
        decimal_value(text) as int
    }
}

/// The value of a hexadecimal digit, lower case.
pub open spec fn hex_digit_value(c: char) -> int {
    if (c as u8) < 58 {
        (c as u8) as int - 48
    } else {
        (c as u8) as int - 87
    }
}

/// The bytes that pairs of hexadecimal digits stand for.
pub open spec fn hex_value(text: Seq<char>) -> Seq<u8>
    decreases text.len(),
{
    if text.len() < 2 {
        Seq::empty()
    } else {
        hex_value(text.subrange(0, text.len() - 2)).push(
            (hex_digit_value(text[text.len() - 2]) * 16 + hex_digit_value(text.last())) as u8,
        )
    }
}

/// The decimal digits of a number are digits, at least one of them, and read
/// back as that number.
pub proof fn lemma_decimal_digits_read_back(n: nat)
    ensures
        decimal_digits(n).len() > 0,
        forall|i: int|
            0 <= i < decimal_digits(n).len() ==> 0 <= digit_value(
                #[trigger] decimal_digits(n)[i],
            ) <= 9,
        decimal_value(decimal_digits(n)) == n,
    decreases n,
{
    if n < 10 {
        assert(decimal_digits(n).drop_last() =~= Seq::<char>::empty());
        assert(decimal_value(Seq::<char>::empty()) == 0);
    } else {
        lemma_decimal_digits_read_back(n / 10);
        let longer = decimal_digits(n);
        let shorter = decimal_digits(n / 10);
        assert(longer.drop_last() =~= shorter);
    }
}

/// The decimal text of an integer reads back as that integer: no two
/// integers have the same text.
pub proof fn lemma_decimal_text_reads_back(i: int)
    ensures
        signed_decimal_value(decimal_text(i)) == i,
{
    if i < 0 {
        let digits = decimal_digits((-i) as nat);
        lemma_decimal_digits_read_back((-i) as nat);
        assert((seq!['-'] + digits).skip(1) =~= digits);
    } else {
        lemma_decimal_digits_read_back(i as nat);
    }
}

/// The hexadecimal text of bytes reads back as those bytes.
pub proof fn lemma_hex_text_reads_back(bytes: Seq<u8>)
    ensures
        hex_text(bytes).len() == 2 * bytes.len(),
        hex_value(hex_text(bytes)) == bytes,
    decreases bytes.len(),
{
    if bytes.len() > 0 {
        lemma_hex_text_reads_back(bytes.drop_last());
        let text = hex_text(bytes);
        assert(text.subrange(0, text.len() - 2) =~= hex_text(bytes.drop_last()));
    }
}

/// The parts in order, with `sep` between neighbours.
pub open spec fn join(parts: Seq<Seq<char>>, sep: Seq<char>) -> Seq<char>
    decreases parts.len(),
{
    if parts.len() == 0 {
        Seq::empty()
    } else if parts.len() == 1 {
        parts[0]
    } else {
        join(parts.drop_last(), sep) + sep + parts.last()
    }
}

/// The views of a sequence of strings.
pub open spec fn texts(items: Seq<String>) -> Seq<Seq<char>> {
    Seq::new(items.len(), |i: int| items[i]@)
}

/// The texts of a sequence of rows.
pub open spec fn row_texts(rows: Seq<Vec<String>>) -> Seq<Seq<Seq<char>>> {
    Seq::new(rows.len(), |i: int| texts(rows[i]@))
}

/// The text of a flag: `1` for true, `0` for false.
pub open spec fn flag_text(flag: bool) -> Seq<char> {
    if flag {
        "1"@
    } else {
        "0"@
    }
}

/// The text of a flag: `1` for true, `0` for false.
pub fn flag_string(flag: bool) -> (text: String)
    ensures
        text@ == flag_text(flag),
{
    if flag {
        String::from_str("1")
    } else {
        String::from_str("0")
    }
}

/// Appends the decimal digits of `n`.
pub fn push_decimal(out: &mut String, n: u128)
    ensures
        final(out)@ == old(out)@ + decimal_digits(n as nat),
    decreases n,
{
    if n >= 10 {
        push_decimal(out, n / 10);
    }
    let d: u8 = (n % 10) as u8;
    let v: u8 = 48u8 + d;
    out.push(v as char);
}

/// The magnitude of a signed value.
pub fn magnitude(i: i128) -> (m: u128)
    ensures
        m == if i < 0 { -(i as int) } else { i as int },
{
    if i >= 0 {
        i as u128
    } else if i == i128::MIN {
        0x8000_0000_0000_0000_0000_0000_0000_0000u128
    } else {
        (-i) as u128
    }
}

/// Appends the decimal rendering of `i`.
pub fn push_signed_decimal(out: &mut String, i: i128)
    ensures
        final(out)@ == old(out)@ + decimal_text(i as int),
{
    if i < 0 {
        out.push('-');
    }
    push_decimal(out, magnitude(i));
}

/// The decimal rendering of an unsigned value.
pub fn unsigned_decimal(n: u128) -> (out: String)
    ensures
        out@ == decimal_digits(n as nat),
{
    let mut out = String::new();
    push_decimal(&mut out, n);
    out
}

/// The decimal rendering of a signed value.
pub fn signed_decimal(i: i128) -> (out: String)
    ensures
        out@ == decimal_text(i as int),
{
    let mut out = String::new();
    push_signed_decimal(&mut out, i);
    out
}

/// Whether two strings hold the same characters.
pub fn str_eq(a: &str, b: &str) -> (same: bool)
    ensures
        same == (a@ == b@),
{
    let x = a.as_bytes();
    let y = b.as_bytes();
    proof {
        encode_utf8_decode_utf8(a@);
        encode_utf8_decode_utf8(b@);
    }
    if x.len() != y.len() {
        return false;
    }
    let mut i: usize = 0;
    while i < x.len()
        invariant
            i <= x.len(),
            x.len() == y.len(),
            x@ == encode_utf8(a@),
            y@ == encode_utf8(b@),
            forall|k: int| 0 <= k < i ==> x@[k] == y@[k],
        decreases x.len() - i,
    {
        if x[i] != y[i] {
            return false;
        }
        i += 1;
    }
    assert(x@ =~= y@);
    true
}

/// `template` with each `{}` replaced by `value`, read from the left.
pub open spec fn substitute(template: Seq<char>, value: Seq<char>) -> Seq<char>
    decreases template.len(),
{
    if template.len() == 0 {
        template
    } else if template.len() >= 2 && template[0] == '{' && template[1] == '}' {
        value + substitute(template.skip(2), value)
    } else {
        seq![template[0]] + substitute(template.skip(1), value)
    }
}

/// Whether the text holds no opening brace.
pub open spec fn brace_free(text: Seq<char>) -> bool {
    forall|i: int| 0 <= i < text.len() ==> text[i] != '{'
}

/// Text without an opening brace holds no placeholder: substituting leaves
/// it as it is and goes on behind it.
pub proof fn lemma_substitute_behind(head: Seq<char>, tail: Seq<char>, value: Seq<char>)
    requires
        brace_free(head),
    ensures
        substitute(head + tail, value) == head + substitute(tail, value),
    decreases head.len(),
{
    if head.len() == 0 {
    } else {
        let rest = head.skip(1);
        lemma_substitute_behind(rest, tail, value);
        assert((head + tail).skip(1) =~= rest + tail);
    }
}

/// A template with one placeholder and no other opening brace becomes the
/// text before the placeholder, the value, and the text behind it.
pub proof fn lemma_substitute_one(head: Seq<char>, tail: Seq<char>, value: Seq<char>)
    requires
        brace_free(head),
        brace_free(tail),
    ensures
        substitute(head + seq!['{', '}'] + tail, value) == head + value + tail,
{
    let marked = seq!['{', '}'] + tail;
    lemma_substitute_behind(head, marked, value);
    assert(head + seq!['{', '}'] + tail =~= head + marked);
    assert(marked.skip(2) =~= tail);
    lemma_substitute_behind(tail, Seq::<char>::empty(), value);
}

/// An opening brace that was read and is not yet written, if any.
pub open spec fn held_brace(held: bool) -> Seq<char> {
    if held {
        seq!['{']
    } else {
        Seq::empty()
    }
}

/// `template` with each `{}` replaced by `value`.
pub fn substitute_placeholders(template: &str, value: &str) -> (out: String)
    ensures
        out@ == substitute(template@, value@),
{
    let mut out = String::new();
    let mut held = false;
    assert(template@.skip(0) =~= template@);
    for c in it: template.chars()
        invariant
            it.seq() == template@,
            substitute(template@, value@) == out@ + substitute(
                held_brace(held) + template@.skip(it.index() as int),
                value@,
            ),
    {
        let ghost rest = template@.skip(it.index() as int);
        let ghost next = template@.skip(it.index() as int + 1);
        let ghost before = out@;
        proof {
            assert(rest.skip(1) =~= next);
        }
        if held {
            if c == '}' {
                out.append(value);
                held = false;
                proof {
                    assert((seq!['{'] + rest).skip(2) =~= next);
                }
            } else {
                out.push('{');
                proof {
                    assert((seq!['{'] + rest).skip(1) =~= rest);
                    assert(out@ + substitute(rest, value@) =~= before + (seq!['{'] + substitute(
                        rest,
                        value@,
                    )));
                }
                if c == '{' {
                    proof {
                        assert(rest =~= seq!['{'] + next);
                    }
                } else {
                    out.push(c);
                    held = false;
                }
            }
        } else if c == '{' {
            held = true;
            proof {
                assert(rest =~= seq!['{'] + next);
            }
        } else {
            out.push(c);
        }
    }
    if held {
        out.push('{');
        proof {
            assert(seq!['{'].skip(1) =~= Seq::<char>::empty());
            assert(substitute(Seq::<char>::empty(), value@) =~= Seq::<char>::empty());
        }
    }
    out
}

/// The strings joined with `sep` between neighbours.
pub fn join_strings(parts: &Vec<String>, sep: &str) -> (out: String)
    ensures
        out@ == join(texts(parts@), sep@),
{
    let mut out = String::new();
    let mut i: usize = 0;
    while i < parts.len()
        invariant
            i <= parts.len(),
            out@ == join(texts(parts@).take(i as int), sep@),
        decreases parts.len() - i,
    {
        let ghost before = texts(parts@).take(i as int);
        let ghost after = texts(parts@).take(i as int + 1);
        if i > 0 {
            out.append(sep);
        }
        out.append(parts[i].as_str());
        proof {
            assert(after.drop_last() =~= before);
        }
        i += 1;
    }
    assert(texts(parts@).take(parts.len() as int) =~= texts(parts@));
    out
}

} // verus!

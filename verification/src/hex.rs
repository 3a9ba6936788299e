use vstd::prelude::*;
use crate::numbers::be_value;
use crate::text::push_char;

verus! {

/// Upper-case hexadecimal digit of `d < 16`.
pub open spec fn upper_digit(d: nat) -> char {
    if d < 10 {
        (d + 48) as char
    } else {
        (d + 55) as char
    }
}

/// Lower-case hexadecimal digit of `d < 16`.
pub open spec fn lower_digit(d: nat) -> char {
    if d < 10 {
        (d + 48) as char
    } else {
        (d + 87) as char
    }
}

/// Upper-case hex text of `data`: two digits per byte, high nibble first.
pub open spec fn upper_hex(data: Seq<u8>) -> Seq<char>
    decreases data.len(),
{
    if data.len() == 0 {
        Seq::empty()
    } else {
        upper_hex(data.drop_last()).push(upper_digit(data.last() as nat / 16)).push(
            upper_digit(data.last() as nat % 16),
        )
    }
}

/// Lower-case hex text of `data`: two digits per byte, high nibble first.
pub open spec fn lower_hex(data: Seq<u8>) -> Seq<char>
    decreases data.len(),
{
    if data.len() == 0 {
        Seq::empty()
    } else {
        lower_hex(data.drop_last()).push(lower_digit(data.last() as nat / 16)).push(
            lower_digit(data.last() as nat % 16),
        )
    }
}

/// Value of a hexadecimal digit character (either case); 16 for any other character.
pub open spec fn hex_digit_value(c: char) -> nat {
    if '0' <= c && c <= '9' {
        (c as nat - 48) as nat
    } else if 'a' <= c && c <= 'f' {
        (c as nat - 87) as nat
    } else if 'A' <= c && c <= 'F' {
        (c as nat - 55) as nat
    } else {
        16
    }
}

/// Every character of `t` is a hexadecimal digit.
pub open spec fn is_hex_text(t: Seq<char>) -> bool {
    forall|i: int| 0 <= i < t.len() ==> hex_digit_value(#[trigger] t[i]) < 16
}

/// The number that the hexadecimal text `t` denotes (most significant digit first).
pub open spec fn hex_value(t: Seq<char>) -> nat
    decreases t.len(),
{
    if t.len() == 0 {
        0
    } else {
        hex_value(t.drop_last()) * 16 + hex_digit_value(t.last())
    }
}

fn upper_digit_char(d: u8) -> (c: char)
    requires
        d < 16,
    ensures
        c == upper_digit(d as nat),
{
    if d < 10 {
        (d + 48) as char
    } else {
        (d + 55) as char
    }
}

fn lower_digit_char(d: u8) -> (c: char)
    requires
        d < 16,
    ensures
        c == lower_digit(d as nat),
{
    if d < 10 {
        (d + 48) as char
    } else {
        (d + 87) as char
    }
}

/// Upper-case hex encoding of `data` (two characters per byte).
pub fn encode_upper(data: &[u8]) -> (res: String)
    ensures
        res@ == upper_hex(data@),
        res@.len() == 2 * data@.len(),
{
    let len = data.len();
    let mut res = if len <= usize::MAX / 2 {
        crate::text::string_with_capacity(len * 2)
    } else {
        String::new()
    };
    let mut i: usize = 0;
    while i < len
        invariant
            len == data@.len(),
            i <= len,
            res@ == upper_hex(data@.take(i as int)),
            res@.len() == 2 * i,
        decreases len - i,
    {
        let b = data[i];
        assert(b >> 4u8 == b / 16 && b & 0x0Fu8 == b % 16) by (bit_vector);
        push_char(&mut res, upper_digit_char(b >> 4));
        push_char(&mut res, upper_digit_char(b & 0x0F));
        assert(data@.take(i + 1).drop_last() =~= data@.take(i as int));
        i += 1;
    }
    assert(data@.take(len as int) =~= data@);
    res
}

/// Lower-case hex encoding of `data` (two characters per byte).
pub fn encode_lower(data: &[u8]) -> (res: String)
    ensures
        res@ == lower_hex(data@),
        res@.len() == 2 * data@.len(),
{
    let len = data.len();
    let mut res = String::new();
    let mut i: usize = 0;
    while i < len
        invariant
            len == data@.len(),
            i <= len,
            res@ == lower_hex(data@.take(i as int)),
            res@.len() == 2 * i,
        decreases len - i,
    {
        let b = data[i];
        assert(b >> 4u8 == b / 16 && b & 0x0Fu8 == b % 16) by (bit_vector);
        push_char(&mut res, lower_digit_char(b >> 4));
        push_char(&mut res, lower_digit_char(b & 0x0F));
        assert(data@.take(i + 1).drop_last() =~= data@.take(i as int));
        i += 1;
    }
    assert(data@.take(len as int) =~= data@);
    res
}

/// Lower-case hex text consists of hex digits.
pub proof fn lemma_lower_hex_is_hex(data: Seq<u8>)
    ensures
        is_hex_text(lower_hex(data)),
        lower_hex(data).len() == 2 * data.len(),
    decreases data.len(),
{
    if data.len() > 0 {
        lemma_lower_hex_is_hex(data.drop_last());
    }
}

/// Upper-case hex text consists of hex digits.
pub proof fn lemma_upper_hex_is_hex(data: Seq<u8>)
    ensures
        is_hex_text(upper_hex(data)),
        upper_hex(data).len() == 2 * data.len(),
    decreases data.len(),
{
    if data.len() > 0 {
        lemma_upper_hex_is_hex(data.drop_last());
    }
}

proof fn lemma_digit_values(d: nat)
    requires
        d < 16,
    ensures
        hex_digit_value(lower_digit(d)) == d,
        hex_digit_value(upper_digit(d)) == d,
{
}

/// Reading lower-case hex text back as a number gives the big-endian value of the bytes.
pub proof fn lemma_lower_hex_value(data: Seq<u8>)
    ensures
        hex_value(lower_hex(data)) == be_value(data),
    decreases data.len(),
{
    if data.len() > 0 {
        let d = data.drop_last();
        lemma_lower_hex_value(d);
        let b = data.last() as nat;
        let h = lower_hex(data);
        assert(h.drop_last().drop_last() =~= lower_hex(d));
        lemma_digit_values(b / 16);
        lemma_digit_values(b % 16);
        assert(hex_value(h.drop_last()) == hex_value(lower_hex(d)) * 16 + b / 16);
        assert(hex_value(h) == hex_value(h.drop_last()) * 16 + b % 16);
        assert(b == (b / 16) * 16 + b % 16);
    }
}

/// Reading upper-case hex text back as a number gives the big-endian value of the bytes.
pub proof fn lemma_upper_hex_value(data: Seq<u8>)
    ensures
        hex_value(upper_hex(data)) == be_value(data),
    decreases data.len(),
{
    if data.len() > 0 {
        let d = data.drop_last();
        lemma_upper_hex_value(d);
        let b = data.last() as nat;
        let h = upper_hex(data);
        assert(h.drop_last().drop_last() =~= upper_hex(d));
        lemma_digit_values(b / 16);
        lemma_digit_values(b % 16);
        assert(hex_value(h.drop_last()) == hex_value(upper_hex(d)) * 16 + b / 16);
        assert(hex_value(h) == hex_value(h.drop_last()) * 16 + b % 16);
        assert(b == (b / 16) * 16 + b % 16);
    }
}

/// Upper-case hex text determines its bytes: two byte strings with the same upper-case hex text
/// are equal.
pub proof fn law_upper_hex_injective(a: Seq<u8>, b: Seq<u8>)
    requires
        upper_hex(a) == upper_hex(b),
    ensures
        a == b,
    decreases a.len(),
{
    lemma_upper_hex_is_hex(a);
    lemma_upper_hex_is_hex(b);
    if a.len() > 0 {
        let h = upper_hex(a);
        let (x, y) = (a.last() as nat, b.last() as nat);
        assert(h.drop_last().drop_last() =~= upper_hex(a.drop_last()));
        assert(h.drop_last().drop_last() =~= upper_hex(b.drop_last()));
        law_upper_hex_injective(a.drop_last(), b.drop_last());
        lemma_digit_values(x / 16);
        lemma_digit_values(x % 16);
        lemma_digit_values(y / 16);
        lemma_digit_values(y % 16);
        assert(h[h.len() - 1] == upper_digit(x % 16) && h[h.len() - 1] == upper_digit(y % 16));
        assert(h[h.len() - 2] == upper_digit(x / 16) && h[h.len() - 2] == upper_digit(y / 16));
        assert(x == (x / 16) * 16 + x % 16);
        assert(y == (y / 16) * 16 + y % 16);
        assert(a =~= a.drop_last().push(a.last()));
        assert(b =~= b.drop_last().push(b.last()));
    }
}

/// Upper-case hex is taken byte by byte: the hex text of `a` followed by `b` is the hex text of
/// `a` followed by that of `b`.
pub proof fn law_upper_hex_concat(a: Seq<u8>, b: Seq<u8>)
    ensures
        upper_hex(a + b) == upper_hex(a) + upper_hex(b),
    decreases b.len(),
{
    if b.len() == 0 {
        assert(a + b =~= a);
        assert(upper_hex(a) + upper_hex(b) =~= upper_hex(a));
    } else {
        law_upper_hex_concat(a, b.drop_last());
        assert((a + b).drop_last() =~= a + b.drop_last());
        assert((a + b).last() == b.last());
        let x = b.last() as nat;
        assert(upper_hex(a + b) =~= (upper_hex(a) + upper_hex(b.drop_last())).push(
            upper_digit(x / 16),
        ).push(upper_digit(x % 16)));
        assert(upper_hex(a) + upper_hex(b) =~= (upper_hex(a) + upper_hex(b.drop_last())).push(
            upper_digit(x / 16),
        ).push(upper_digit(x % 16)));
    }
}

} // verus!

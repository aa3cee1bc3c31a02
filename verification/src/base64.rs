//! Base64 with the standard alphabet and padding (RFC 4648, section 4), and what it
//! is in URLs (section 5).
use data_encoding::BASE64;
use vstd::prelude::*;

verus! {

/// The symbol that stands for a group of six bits.
pub open spec fn symbol(sextet: int) -> char {
    if sextet < 26 {
        (sextet + 65) as char
    } else if sextet < 52 {
        (sextet + 71) as char
    } else if sextet < 62 {
        (sextet - 4) as char
    } else if sextet == 62 {
        '+'
    } else {
        '/'
    }
}

/// The byte at `i`, with zeros behind the end of the data.
pub open spec fn byte_or_zero(data: Seq<u8>, i: int) -> int {
    if i < data.len() {
        data[i] as int
    } else {
        0
    }
}

/// The `i`th group of six bits of the data.
pub open spec fn sextet(data: Seq<u8>, i: int) -> int {
    let k = i / 4 * 3;
    if i % 4 == 0 {
        byte_or_zero(data, k) / 4
    } else if i % 4 == 1 {
        byte_or_zero(data, k) % 4 * 16 + byte_or_zero(data, k + 1) / 16
    } else if i % 4 == 2 {
        byte_or_zero(data, k + 1) % 16 * 4 + byte_or_zero(data, k + 2) / 64
    } else {
        byte_or_zero(data, k + 2) % 64
    }
}

/// The padded Base64 text of the data: one symbol for each group of six bits
/// that the data reaches into, filled up with `=` to a multiple of four.
pub open spec fn base64(data: Seq<u8>) -> Seq<char> {
    Seq::new(
        ((data.len() + 2) / 3 * 4) as nat,
        |i: int|
            if 6 * i < 8 * data.len() {
                symbol(sextet(data, i))
            } else {
                '='
            },
    )
}

/// The symbol that stands for a group of six bits in URLs.
pub open spec fn url_symbol(sextet: int) -> char {
    if sextet == 62 {
        '-'
    } else if sextet == 63 {
        '_'
    } else {
        symbol(sextet)
    }
}

/// The Base64 text of the data for URLs: one symbol for each group of six bits that
/// the data reaches into, without padding.
pub open spec fn base64_url(data: Seq<u8>) -> Seq<char> {
    Seq::new(((8 * data.len() + 5) / 6) as nat, |i: int| url_symbol(sextet(data, i)))
}

/// The characters that Base64 text is made of.
pub open spec fn in_alphabet(c: char) -> bool {
    'A' <= c <= 'Z' || 'a' <= c <= 'z' || '0' <= c <= '9' || c == '+' || c == '/' || c == '='
}

/// Base64 text of `data`.
///
/// Calls `BASE64.encode` of `data_encoding`. Trusted: the text that comes back
/// is the padded standard encoding of the bytes. The encoder refuses, by a
/// panic, inputs longer than `usize::MAX / 512`.
#[verifier::external_body]
pub(crate) fn encode(data: &[u8]) -> (text: String)
    requires
        data@.len() <= usize::MAX / 512,
    ensures
        text@ == base64(data@),
{
    BASE64.encode(data)
}

proof fn lemma_sextet_range(data: Seq<u8>, i: int)
    requires
        0 <= i,
    ensures
        0 <= sextet(data, i) < 64,
{
}

proof fn lemma_symbol_injective(a: int, b: int)
    requires
        0 <= a < 64,
        0 <= b < 64,
        symbol(a) == symbol(b),
    ensures
        a == b,
{
}

/// Encoded text holds only letters, digits, `+`, `/` and `=`, whatever the data
/// was.
pub proof fn base64_uses_only_its_alphabet(data: Seq<u8>)
    ensures
        forall|i: int| 0 <= i < base64(data).len() ==> in_alphabet(#[trigger] base64(data)[i]),
{
    assert forall|i: int| 0 <= i < base64(data).len() implies in_alphabet(
        #[trigger] base64(data)[i],
    ) by {
        lemma_sextet_range(data, i);
    }
}

/// Different data never encodes to the same text.
pub proof fn base64_is_injective(a: Seq<u8>, b: Seq<u8>)
    requires
        base64(a) == base64(b),
    ensures
        a == b,
{
    let text = base64(a);
    assert(text.len() == base64(b).len());
    if a.len() < b.len() {
        lemma_same_length(a, b);
    } else if b.len() < a.len() {
        lemma_same_length(b, a);
    }
    assert forall|i: int| 0 <= i < text.len() implies #[trigger] sextet(a, i) == sextet(b, i) by {
        lemma_sextet_range(a, i);
        lemma_sextet_range(b, i);
        if 6 * i < 8 * a.len() {
            assert(base64(a)[i] == base64(b)[i]);
            lemma_symbol_injective(sextet(a, i), sextet(b, i));
        }
    }
    assert forall|j: int| 0 <= j < a.len() implies a[j] == b[j] by {
        let g = j / 3 * 4;
        assert(sextet(a, g) == sextet(b, g));
        assert(sextet(a, g + 1) == sextet(b, g + 1));
        assert(sextet(a, g + 2) == sextet(b, g + 2));
        assert(sextet(a, g + 3) == sextet(b, g + 3));
        assert(g / 4 * 3 == j / 3 * 3);
        assert((g + 1) / 4 == g / 4 && (g + 2) / 4 == g / 4 && (g + 3) / 4 == g / 4);
    }
    assert(a =~= b);
}

/// Text is padded from where its data ends, so it tells the data's length.
proof fn lemma_same_length(a: Seq<u8>, b: Seq<u8>)
    requires
        base64(a) == base64(b),
    ensures
        a.len() >= b.len(),
{
    assert(base64(a).len() == base64(b).len());
    if a.len() < b.len() {
        let n = a.len() as int;
        let i = (8 * n + 5) / 6;
        assert(base64(a).len() == (n + 2) / 3 * 4);
        assert(base64(b).len() == (b.len() + 2) / 3 * 4);
        assert((n + 2) / 3 == (b.len() + 2) / 3);
        assert(n % 3 != 0);
        assert(0 <= i < (n + 2) / 3 * 4);
        lemma_sextet_range(b, i);
        assert(base64(a)[i] == '=');
        assert(base64(b)[i] != '=');
    }
}

} // verus!

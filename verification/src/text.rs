use vstd::prelude::*;
use vstd::utf8::*;

verus! {

/// Byte strings made of ASCII bytes only.
pub open spec fn all_ascii(b: Seq<u8>) -> bool {
    forall|i: int| 0 <= i < b.len() ==> #[trigger] b[i] < 0x80
}

/// ASCII bytes are valid UTF-8.
pub proof fn lemma_ascii_valid_utf8(b: Seq<u8>)
    requires
        all_ascii(b),
    ensures
        valid_utf8(b),
    decreases b.len(),
{
    if b.len() > 0 {
        assert(is_leading_byte_width_1(b[0]));
        let c = b[0];
        assert((c & 0x7f) as u32 == c as u32) by (bit_vector)
            requires
                c < 0x80,
        ;
        let rest = pop_first_scalar(b);
        assert(rest =~= b.subrange(1, b.len() as int));
        assert(all_ascii(rest)) by {
            assert forall|i: int| 0 <= i < rest.len() implies #[trigger] rest[i] < 0x80 by {
                assert(rest[i] == b[i + 1]);
            }
        }
        lemma_ascii_valid_utf8(rest);
    }
}

/// What `String::from_utf8_lossy` makes of `bytes`: the text they encode,
/// with each invalid sequence replaced by U+FFFD.
pub uninterp spec fn utf8_lossy(bytes: Seq<u8>) -> Seq<char>;

/// `String::from_utf8`: the text `bytes` encode, if they are valid UTF-8.
#[verifier::external_body]
pub(crate) fn string_from_utf8(bytes: Vec<u8>) -> (r: Option<String>)
    ensures
        r is Some <==> valid_utf8(bytes@),
        r matches Some(s) ==> s@ == decode_utf8(bytes@),
{
    String::from_utf8(bytes).ok()
}

/// `String::from_utf8_lossy`: the text `bytes` encode, with each invalid
/// sequence replaced by U+FFFD. The replacement is named, not stated.
#[verifier::external_body]
pub(crate) fn string_from_utf8_lossy(bytes: &[u8]) -> (r: String)
    ensures
        r@ == utf8_lossy(bytes@),
        valid_utf8(bytes@) ==> r@ == decode_utf8(bytes@),
{
    String::from_utf8_lossy(bytes).into_owned()
}

/// The text of ASCII bytes.
pub(crate) fn ascii_string(bytes: Vec<u8>) -> (r: String)
    requires
        all_ascii(bytes@),
    ensures
        r@ == decode_utf8(bytes@),
{
    proof { lemma_ascii_valid_utf8(bytes@); }
    match string_from_utf8(bytes) {
        Some(s) => s,
        None => String::new(),
    }
}

/// The lowercase hexadecimal digit of `n < 16`, as an ASCII byte.
pub open spec fn hex_digit(n: u8) -> u8 {
    if n < 10 { (n + 48) as u8 } else { (n + 87) as u8 }
}

/// The lowercase hexadecimal digits of `bytes`, two for each byte, as ASCII bytes.
pub open spec fn hex_bytes(bytes: Seq<u8>) -> Seq<u8>
    decreases bytes.len(),
{
    if bytes.len() == 0 {
        seq![]
    } else {
        hex_bytes(bytes.drop_last()) + seq![hex_digit(bytes.last() / 16), hex_digit(bytes.last() % 16)]
    }
}

proof fn lemma_hex_bytes(bytes: Seq<u8>)
    ensures
        hex_bytes(bytes).len() == 2 * bytes.len(),
        all_ascii(hex_bytes(bytes)),
    decreases bytes.len(),
{
    if bytes.len() > 0 {
        lemma_hex_bytes(bytes.drop_last());
        let h = hex_bytes(bytes);
        let p = hex_bytes(bytes.drop_last());
        assert forall|i: int| 0 <= i < h.len() implies #[trigger] h[i] < 0x80 by {
            if i < p.len() {
                assert(h[i] == p[i]);
            }
        }
    }
}

/// The lowercase hexadecimal text of `bytes`, two digits per byte.
pub fn hex_string(bytes: &[u8]) -> (r: String)
    ensures
        r@ == decode_utf8(hex_bytes(bytes@)),
        r@.len() == 2 * bytes@.len(),
{
    let mut out: Vec<u8> = Vec::new();
    let mut i: usize = 0;
    while i < bytes.len()
        invariant
            0 <= i <= bytes.len(),
            out@ == hex_bytes(bytes@.take(i as int)),
        decreases bytes.len() - i,
    {
        let b = bytes[i];
        let hi = b / 16;
        let lo = b % 16;
        out.push(if hi < 10 { hi + 48 } else { hi + 87 });
        out.push(if lo < 10 { lo + 48 } else { lo + 87 });
        assert(bytes@.take(i + 1).drop_last() =~= bytes@.take(i as int));
        i = i + 1;
    }
    assert(bytes@.take(bytes@.len() as int) =~= bytes@);
    proof {
        lemma_hex_bytes(bytes@);
        lemma_ascii_valid_utf8(out@);
        lemma_ascii_decode_len(out@);
    }
    ascii_string(out)
}

/// Decoding ASCII bytes gives one character per byte.
pub proof fn lemma_ascii_decode_len(b: Seq<u8>)
    requires
        all_ascii(b),
    ensures
        decode_utf8(b).len() == b.len(),
    decreases b.len(),
{
    lemma_ascii_valid_utf8(b);
    if b.len() > 0 {
        let rest = pop_first_scalar(b);
        assert(rest =~= b.subrange(1, b.len() as int));
        assert(all_ascii(rest)) by {
            assert forall|i: int| 0 <= i < rest.len() implies #[trigger] rest[i] < 0x80 by {
                assert(rest[i] == b[i + 1]);
            }
        }
        lemma_ascii_decode_len(rest);
    }
}

/// The value of a string of ASCII decimal digits.
pub open spec fn digits_value(d: Seq<u8>) -> int
    decreases d.len(),
{
    if d.len() == 0 {
        0
    } else {
        digits_value(d.drop_last()) * 10 + (d.last() - 48)
    }
}

pub open spec fn all_digits(d: Seq<u8>) -> bool {
    forall|i: int| 0 <= i < d.len() ==> 48 <= #[trigger] d[i] <= 57
}

/// What `u64::from_str` makes of the UTF-8 bytes `b`: one optional leading
/// `+`, then one or more decimal digits whose value fits in a `u64`.
pub open spec fn spec_parse_u64_bytes(b: Seq<u8>) -> Option<u64> {
    let d = if b.len() > 1 && b[0] == 43 { b.drop_first() } else { b };
    if d.len() > 0 && all_digits(d) && digits_value(d) <= u64::MAX {
        Some(digits_value(d) as u64)
    } else {
        None
    }
}

/// What `u64::from_str` makes of the text `s`.
pub open spec fn spec_parse_u64(s: Seq<char>) -> Option<u64> {
    spec_parse_u64_bytes(encode_utf8(s))
}

proof fn lemma_digits_value_nonneg(d: Seq<u8>)
    requires
        all_digits(d),
    ensures
        digits_value(d) >= 0,
    decreases d.len(),
{
    if d.len() > 0 {
        lemma_digits_value_nonneg(d.drop_last());
    }
}

proof fn lemma_prefix_value(e: Seq<u8>, k: int)
    requires
        all_digits(e),
        0 <= k <= e.len(),
    ensures
        digits_value(e) >= digits_value(e.take(k)),
    decreases e.len() - k,
{
    if k < e.len() {
        lemma_prefix_value(e, k + 1);
        assert(e.take(k + 1).drop_last() =~= e.take(k));
        assert(all_digits(e.take(k))) by {
            assert forall|i: int| 0 <= i < k implies 48 <= #[trigger] e.take(k)[i] <= 57 by {
                assert(e.take(k)[i] == e[i]);
            }
        }
        lemma_digits_value_nonneg(e.take(k));
    } else {
        assert(e.take(k) =~= e);
    }
}

/// `u64::from_str`: the value of the decimal text `s`.
pub fn parse_u64(s: &str) -> (r: Option<u64>)
    ensures
        r == spec_parse_u64(s@),
{
    let b = s.as_bytes();
    let ghost bs = b@;
    let start: usize = if b.len() > 1 && b[0] == 43 { 1 } else { 0 };
    let ghost d = if bs.len() > 1 && bs[0] == 43 { bs.drop_first() } else { bs };
    assert(d =~= bs.skip(start as int));
    if start == b.len() {
        return None;
    }
    let mut v: u64 = 0;
    let mut i: usize = start;
    while i < b.len()
        invariant
            start <= i <= b.len(),
            b@ == bs,
            bs == encode_utf8(s@),
            d == bs.skip(start as int),
            d == (if bs.len() > 1 && bs[0] == 43 { bs.drop_first() } else { bs }),
            d.len() > 0,
            all_digits(d.take(i - start)),
            v as int == digits_value(d.take(i - start)),
        decreases b.len() - i,
    {
        let c = b[i];
        assert(d[i - start] == c);
        if c < 48 || c > 57 {
            assert(!all_digits(d));
            return None;
        }
        let ghost next = d.take(i + 1 - start);
        assert(next.drop_last() =~= d.take(i - start));
        assert(all_digits(next)) by {
            assert forall|j: int| 0 <= j < next.len() implies 48 <= #[trigger] next[j] <= 57 by {
                if j < next.len() - 1 {
                    assert(next[j] == d.take(i - start)[j]);
                }
            }
        }
        if v > 1844674407370955161 || (v == 1844674407370955161 && c > 53) {
            proof {
                assert(digits_value(next) > u64::MAX);
                if all_digits(d) {
                    if next.len() < d.len() {
                        lemma_prefix_value(d, next.len() as int);
                    } else {
                        assert(next =~= d);
                    }
                }
            }
            return None;
        }
        v = v * 10 + (c - 48) as u64;
        i = i + 1;
    }
    assert(d.take(i - start) =~= d);
    Some(v)
}

} // verus!

//! Byte-string helpers shared by the version table and the scenario engine.
use vstd::prelude::*;
use vstd::string::StringSliceAdditionalSpecFns;

verus! {

/// Decimal digits of `n`, most significant first, without leading zeros.
pub open spec fn dec_digits(n: nat) -> Seq<u8>
    decreases n,
{
    if n < 10 {
        seq![(48 + n) as u8]
    } else {
        dec_digits(n / 10).push((48 + n % 10) as u8)
    }
}

/// Value of a big-endian unsigned byte string (the empty string is zero).
pub open spec fn be_value(s: Seq<u8>) -> nat
    decreases s.len(),
{
    if s.len() == 0 {
        0
    } else {
        be_value(s.drop_last()) * 256 + s.last() as nat
    }
}

/// Lower-case hexadecimal digit for a value below 16.
pub open spec fn hex_digit(d: nat) -> u8 {
    if d < 10 {
        (48 + d) as u8
    } else {
        (87 + d) as u8
    }
}

/// Lower-case hexadecimal text of a byte string, two digits per byte.
pub open spec fn hex_text(s: Seq<u8>) -> Seq<u8>
    decreases s.len(),
{
    if s.len() == 0 {
        seq![]
    } else {
        hex_text(s.drop_last()).push(hex_digit(s.last() as nat / 16)).push(
            hex_digit(s.last() as nat % 16),
        )
    }
}

/// Characters of an ASCII byte string.
pub open spec fn ascii_chars(s: Seq<u8>) -> Seq<char> {
    s.map_values(|b: u8| b as char)
}

pub open spec fn is_ascii_bytes(s: Seq<u8>) -> bool {
    forall|i: int| 0 <= i < s.len() ==> s[i] < 128
}

/// Relies on String::from_utf8: ASCII bytes are valid UTF-8, one character each.
#[verifier::external_body]
pub(crate) fn ascii_string(b: Vec<u8>) -> (r: String)
    requires
        is_ascii_bytes(b@),
    ensures
        r@ == ascii_chars(b@),
{
    String::from_utf8(b).unwrap()
}

/// Relies on hex::encode: two lower-case digits per byte, high nibble first.
#[verifier::external_body]
fn hex_encode(b: &[u8]) -> (r: Vec<u8>)
    ensures
        r@ == hex_text(b@),
{
    hex::encode(b).into_bytes()
}

pub proof fn lemma_hex_text_ascii(s: Seq<u8>)
    ensures
        is_ascii_bytes(hex_text(s)),
        hex_text(s).len() == 2 * s.len(),
    decreases s.len(),
{
    if s.len() > 0 {
        lemma_hex_text_ascii(s.drop_last());
    }
}

/// The scenario expression `0x<hex>` of a byte string.
pub open spec fn hex_expr(s: Seq<u8>) -> Seq<u8> {
    seq![48u8, 120u8] + hex_text(s)
}

/// Writes a byte string as the scenario expression `0x<hex>`.
pub fn to_hex_expr(b: &[u8]) -> (r: String)
    ensures
        r@ == ascii_chars(hex_expr(b@)),
{
    let mut v: Vec<u8> = Vec::new();
    v.push(48u8);
    v.push(120u8);
    let mut h = hex_encode(b);
    v.append(&mut h);
    proof {
        lemma_hex_text_ascii(b@);
        assert(v@ =~= hex_expr(b@));
    }
    ascii_string(v)
}

/// Writes each raw call argument as a `0x<hex>` scenario expression.
pub fn convert_call_args(args: &Vec<Vec<u8>>) -> (r: Vec<String>)
    ensures
        r@.len() == args@.len(),
        forall|i: int| 0 <= i < args@.len() ==> #[trigger] r@[i]@ == ascii_chars(hex_expr(args@[i]@)),
{
    let mut r: Vec<String> = Vec::new();
    let mut i: usize = 0;
    while i < args.len()
        invariant
            i <= args@.len(),
            r@.len() == i,
            forall|j: int| 0 <= j < i ==> #[trigger] r@[j]@ == ascii_chars(hex_expr(args@[j]@)),
        decreases args@.len() - i,
    {
        r.push(to_hex_expr(args[i].as_slice()));
        i = i + 1;
    }
    r
}

/// Byte-string equality.
pub fn bytes_eq(a: &[u8], b: &[u8]) -> (r: bool)
    ensures
        r == (a@ == b@),
{
    if a.len() != b.len() {
        return false;
    }
    let mut i: usize = 0;
    while i < a.len()
        invariant
            a@.len() == b@.len(),
            i <= a@.len(),
            forall|j: int| 0 <= j < i ==> a@[j] == b@[j],
        decreases a@.len() - i,
    {
        if a[i] != b[i] {
            return false;
        }
        i = i + 1;
    }
    assert(a@ =~= b@);
    true
}

/// Appends the decimal digits of `n`.
pub fn push_decimal(n: u64, out: &mut Vec<u8>)
    ensures
        final(out)@ == old(out)@ + dec_digits(n as nat),
    decreases n,
{
    if n < 10 {
        out.push((48 + n) as u8);
        assert(final(out)@ =~= old(out)@ + dec_digits(n as nat));
    } else {
        push_decimal(n / 10, out);
        out.push((48 + n % 10) as u8);
        assert(final(out)@ =~= old(out)@ + dec_digits(n as nat));
    }
}

/// Minimal big-endian encoding of `n` (zero encodes as the empty string).
pub open spec fn be_bytes(n: nat) -> Seq<u8>
    decreases n,
{
    if n == 0 {
        seq![]
    } else {
        be_bytes(n / 256).push((n % 256) as u8)
    }
}

pub proof fn lemma_be_bytes_value(n: nat)
    ensures
        be_value(be_bytes(n)) == n,
    decreases n,
{
    if n > 0 {
        lemma_be_bytes_value(n / 256);
        let s = be_bytes(n);
        assert(s.drop_last() =~= be_bytes(n / 256));
    }
}

/// Appends the minimal big-endian encoding of `n`.
pub fn push_be(n: u64, out: &mut Vec<u8>)
    ensures
        final(out)@ == old(out)@ + be_bytes(n as nat),
    decreases n,
{
    if n == 0 {
        assert(final(out)@ =~= old(out)@ + be_bytes(n as nat));
    } else {
        push_be(n / 256, out);
        out.push((n % 256) as u8);
        assert(final(out)@ =~= old(out)@ + be_bytes(n as nat));
    }
}

/// Appends the minimal big-endian encoding of a 128-bit `n`.
pub fn push_be_u128(n: u128, out: &mut Vec<u8>)
    ensures
        final(out)@ == old(out)@ + be_bytes(n as nat),
    decreases n,
{
    if n == 0 {
        assert(final(out)@ =~= old(out)@ + be_bytes(n as nat));
    } else {
        push_be_u128(n / 256, out);
        out.push((n % 256) as u8);
        assert(final(out)@ =~= old(out)@ + be_bytes(n as nat));
    }
}

/// Minimal big-endian encoding of a 128-bit `n`.
pub fn encode_be_u128(n: u128) -> (r: Vec<u8>)
    ensures
        r@ == be_bytes(n as nat),
{
    let mut r: Vec<u8> = Vec::new();
    push_be_u128(n, &mut r);
    assert(r@ =~= be_bytes(n as nat));
    r
}

/// Minimal big-endian encoding of `n`.
pub fn encode_be(n: u64) -> (r: Vec<u8>)
    ensures
        r@ == be_bytes(n as nat),
        be_value(r@) == n,
{
    let mut r: Vec<u8> = Vec::new();
    push_be(n, &mut r);
    assert(r@ =~= be_bytes(n as nat));
    proof {
        lemma_be_bytes_value(n as nat);
    }
    r
}

/// Big-endian value of `s`, or `None` when it exceeds `u64`.
pub fn decode_be(s: &[u8]) -> (r: Option<u64>)
    ensures
        r == (if be_value(s@) <= u64::MAX as nat {
            Some(be_value(s@) as u64)
        } else {
            None::<u64>
        }),
{
    let mut acc: u64 = 0;
    let mut i: usize = 0;
    while i < s.len()
        invariant
            i <= s@.len(),
            acc as nat == be_value(s@.subrange(0, i as int)),
            forall|j: int|
                i <= j <= s@.len() ==> be_value(s@.subrange(0, j)) >= be_value(
                    s@.subrange(0, i as int),
                ),
        decreases s@.len() - i,
    {
        proof {
            assert(s@.subrange(0, i + 1).drop_last() =~= s@.subrange(0, i as int));
        }
        if acc > (u64::MAX - s[i] as u64) / 256 {
            proof {
                lemma_prefix_monotone(s@, (i + 1) as int);
                assert(s@.subrange(0, s@.len() as int) =~= s@);
            }
            return None;
        }
        acc = acc * 256 + s[i] as u64;
        i = i + 1;
        proof {
            assert forall|j: int| i <= j <= s@.len() implies be_value(s@.subrange(0, j))
                >= be_value(s@.subrange(0, i as int)) by {
                lemma_prefix_monotone_between(s@, i as int, j);
            }
        }
    }
    assert(s@.subrange(0, s@.len() as int) =~= s@);
    Some(acc)
}

/// Big-endian value of `s`, or `None` when it exceeds `u128`.
pub fn decode_be_u128(s: &[u8]) -> (r: Option<u128>)
    ensures
        r == (if be_value(s@) <= u128::MAX as nat {
            Some(be_value(s@) as u128)
        } else {
            None::<u128>
        }),
{
    let mut acc: u128 = 0;
    let mut i: usize = 0;
    while i < s.len()
        invariant
            i <= s@.len(),
            acc as nat == be_value(s@.subrange(0, i as int)),
        decreases s@.len() - i,
    {
        proof {
            assert(s@.subrange(0, i + 1).drop_last() =~= s@.subrange(0, i as int));
        }
        if acc > (u128::MAX - s[i] as u128) / 256 {
            proof {
                lemma_prefix_monotone(s@, (i + 1) as int);
            }
            return None;
        }
        acc = acc * 256 + s[i] as u128;
        i = i + 1;
    }
    assert(s@.subrange(0, s@.len() as int) =~= s@);
    Some(acc)
}

/// Copies `s` into a new vector.
pub fn to_bytes(s: &[u8]) -> (r: Vec<u8>)
    ensures
        r@ == s@,
{
    vstd::slice::slice_to_vec(s)
}

/// The UTF-8 bytes of a text.
pub fn text_bytes(s: &str) -> (r: Vec<u8>)
    ensures
        r@ == s.spec_bytes(),
{
    vstd::slice::slice_to_vec(s.as_bytes())
}

proof fn lemma_prefix_monotone_between(s: Seq<u8>, i: int, j: int)
    requires
        0 <= i <= j <= s.len(),
    ensures
        be_value(s.subrange(0, j)) >= be_value(s.subrange(0, i)),
    decreases j - i,
{
    if j > i {
        lemma_prefix_monotone_between(s, i, j - 1);
        assert(s.subrange(0, j).drop_last() =~= s.subrange(0, j - 1));
    }
}

proof fn lemma_prefix_monotone(s: Seq<u8>, k: int)
    requires
        0 <= k <= s.len(),
    ensures
        be_value(s) >= be_value(s.subrange(0, k)),
{
    lemma_prefix_monotone_between(s, k, s.len() as int);
    assert(s.subrange(0, s.len() as int) =~= s);
}

} // verus!

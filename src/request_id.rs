//! Request identifiers: the hex digest of the target account, the new key
//! and the creation time.
use vstd::prelude::*;
use vstd::utf8::encode_utf8;

verus! {

/// The lower-case hexadecimal digit of `d`, for `d < 16`.
pub open spec fn hex_char(d: nat) -> char {
    if d == 0 { '0' }
    else if d == 1 { '1' }
    else if d == 2 { '2' }
    else if d == 3 { '3' }
    else if d == 4 { '4' }
    else if d == 5 { '5' }
    else if d == 6 { '6' }
    else if d == 7 { '7' }
    else if d == 8 { '8' }
    else if d == 9 { '9' }
    else if d == 10 { 'a' }
    else if d == 11 { 'b' }
    else if d == 12 { 'c' }
    else if d == 13 { 'd' }
    else if d == 14 { 'e' }
    else { 'f' }
}

/// `n` written in decimal, without leading zeros.
pub open spec fn decimal_of(n: nat) -> Seq<char>
    decreases n,
{
    if n < 10 {
        seq![hex_char(n)]
    } else {
        decimal_of(n / 10).push(hex_char(n % 10))
    }
}

/// Each byte of `b` as two lower-case hexadecimal digits, high digit first.
pub open spec fn hex_of(b: Seq<u8>) -> Seq<char>
    decreases b.len(),
{
    if b.len() == 0 {
        Seq::empty()
    } else {
        let last = b.last();
        hex_of(b.drop_last()).push(hex_char(last as nat / 16)).push(hex_char(last as nat % 16))
    }
}

/// A field of the digest input: its length in characters, in decimal, a
/// colon, then the field itself. The length tells where the field ends.
pub open spec fn field_of(text: Seq<char>) -> Seq<char> {
    decimal_of(text.len()) + seq![':'] + text
}

/// The text that a request identifier is the digest of: the account and the
/// key as length-prefixed fields, then the creation time in decimal. Distinct
/// requests give distinct texts (see `lemma_preimage_injective`).
pub open spec fn preimage_of(account: Seq<char>, new_public_key: Seq<char>, timestamp: u64) -> Seq<
    char,
> {
    field_of(account) + field_of(new_public_key) + decimal_of(timestamp as nat)
}

/// Whether `c` is a lower-case hexadecimal digit.
pub open spec fn is_lower_hex(c: char) -> bool {
    c == '0' || c == '1' || c == '2' || c == '3' || c == '4' || c == '5' || c == '6' || c == '7'
        || c == '8' || c == '9' || c == 'a' || c == 'b' || c == 'c' || c == 'd' || c == 'e'
        || c == 'f'
}

/// Two digits for each byte, each a lower-case hexadecimal digit.
pub proof fn lemma_hex_of(b: Seq<u8>)
    ensures
        hex_of(b).len() == 2 * b.len(),
        forall|i: int| 0 <= i < hex_of(b).len() ==> is_lower_hex(#[trigger] hex_of(b)[i]),
    decreases b.len(),
{
    if b.len() > 0 {
        lemma_hex_of(b.drop_last());
        let prev = hex_of(b.drop_last());
        let h = hex_of(b);
        assert forall|i: int| 0 <= i < h.len() implies is_lower_hex(#[trigger] h[i]) by {
            if i < prev.len() {
                assert(h[i] == prev[i]);
            }
        }
    }
}

/// Decimal text is never empty and holds no colon.
pub proof fn lemma_decimal_digits(n: nat)
    ensures
        decimal_of(n).len() >= 1,
        forall|i: int| 0 <= i < decimal_of(n).len() ==> #[trigger] decimal_of(n)[i] != ':',
    decreases n,
{
    if n >= 10 {
        lemma_decimal_digits(n / 10);
        let prev = decimal_of(n / 10);
        assert forall|i: int| 0 <= i < decimal_of(n).len() implies #[trigger] decimal_of(n)[i]
            != ':' by {
            if i < prev.len() {
                assert(decimal_of(n)[i] == prev[i]);
            }
        }
    }
}

/// Distinct digits have distinct characters.
proof fn lemma_hex_char_injective(a: nat, b: nat)
    requires
        a < 16,
        b < 16,
        hex_char(a) == hex_char(b),
    ensures
        a == b,
{
}

/// Distinct numbers have distinct decimal texts.
pub proof fn lemma_decimal_injective(x: nat, y: nat)
    requires
        decimal_of(x) == decimal_of(y),
    ensures
        x == y,
    decreases x,
{
    if x >= 10 {
        lemma_decimal_digits(x / 10);
    }
    if y >= 10 {
        lemma_decimal_digits(y / 10);
    }
    if x < 10 {
        assert(decimal_of(x) == seq![hex_char(x)]);
    } else {
        assert(decimal_of(x).len() == decimal_of(x / 10).len() + 1);
    }
    if y < 10 {
        assert(decimal_of(y) == seq![hex_char(y)]);
    } else {
        assert(decimal_of(y).len() == decimal_of(y / 10).len() + 1);
    }
    if x < 10 && y < 10 {
        assert(decimal_of(x)[0] == hex_char(x));
        assert(decimal_of(y)[0] == hex_char(y));
        lemma_hex_char_injective(x, y);
    } else if x >= 10 && y >= 10 {
        let dx = decimal_of(x);
        let dy = decimal_of(y);
        assert(dx.last() == dy.last());
        lemma_hex_char_injective(x % 10, y % 10);
        assert(dx.drop_last() =~= decimal_of(x / 10));
        assert(dy.drop_last() =~= decimal_of(y / 10));
        lemma_decimal_injective(x / 10, y / 10);
    } else {
        assert(decimal_of(x).len() != decimal_of(y).len());
    }
}

/// A length-prefixed field followed by more text can be read back: equal
/// texts have equal fields and equal rests.
proof fn lemma_field_split(a: Seq<char>, r: Seq<char>, b: Seq<char>, s: Seq<char>)
    requires
        field_of(a) + r == field_of(b) + s,
    ensures
        a == b,
        r == s,
{
    let da = decimal_of(a.len());
    let db = decimal_of(b.len());
    lemma_decimal_digits(a.len());
    lemma_decimal_digits(b.len());
    let t = field_of(a) + r;
    assert(t =~= da + (seq![':'] + (a + r)));
    assert(t =~= db + (seq![':'] + (b + s)));
    if da.len() < db.len() {
        assert(t[da.len() as int] == ':');
        assert(t[da.len() as int] == db[da.len() as int]);
    } else if db.len() < da.len() {
        assert(t[db.len() as int] == ':');
        assert(t[db.len() as int] == da[db.len() as int]);
    }
    assert(da =~= t.subrange(0, da.len() as int));
    assert(db =~= t.subrange(0, db.len() as int));
    lemma_decimal_injective(a.len(), b.len());
    let start: int = da.len() as int + 1;
    assert(a =~= t.subrange(start, start + a.len() as int));
    assert(b =~= t.subrange(start, start + b.len() as int));
    assert(r =~= t.subrange(start + a.len() as int, t.len() as int));
    assert(s =~= t.subrange(start + b.len() as int, t.len() as int));
}

/// Distinct requests give distinct digest inputs: the account, the key and
/// the time can all be read back from the text.
pub proof fn lemma_preimage_injective(
    a1: Seq<char>,
    k1: Seq<char>,
    t1: u64,
    a2: Seq<char>,
    k2: Seq<char>,
    t2: u64,
)
    requires
        preimage_of(a1, k1, t1) == preimage_of(a2, k2, t2),
    ensures
        a1 == a2,
        k1 == k2,
        t1 == t2,
{
    let r1 = field_of(k1) + decimal_of(t1 as nat);
    let r2 = field_of(k2) + decimal_of(t2 as nat);
    assert(preimage_of(a1, k1, t1) =~= field_of(a1) + r1);
    assert(preimage_of(a2, k2, t2) =~= field_of(a2) + r2);
    lemma_field_split(a1, r1, a2, r2);
    lemma_field_split(k1, decimal_of(t1 as nat), k2, decimal_of(t2 as nat));
    lemma_decimal_injective(t1 as nat, t2 as nat);
}

/// The SHA-256 digest of a byte string.
pub uninterp spec fn sha256_of(data: Seq<u8>) -> Seq<u8>;

/// The identifier of the request that recovers `account` with
/// `new_public_key`, created at `timestamp`.
pub open spec fn request_id_of(account: Seq<char>, new_public_key: Seq<char>, timestamp: u64) -> Seq<
    char,
> {
    hex_of(sha256_of(encode_utf8(preimage_of(account, new_public_key, timestamp))))
}

/// Relies on near_sdk::env::sha256_array: the SHA-256 digest of `data`, which
/// depends on the bytes alone.
#[verifier::external_body]
fn sha256_digest(data: &[u8]) -> (r: [u8; 32])
    ensures
        r@ == sha256_of(data@),
{
    near_sdk::env::sha256_array(data)
}

/// The one-character string of the hexadecimal digit `d`.
fn digit_str(d: u8) -> (r: &'static str)
    requires
        d < 16,
    ensures
        r@ == seq![hex_char(d as nat)],
{
    let digits = "0123456789abcdef";
    proof {
        reveal_strlit("0123456789abcdef");
    }
    let r = digits.substring_char(d as usize, d as usize + 1);
    assert(r@ =~= seq![hex_char(d as nat)]);
    r
}

/// Appends `n` in decimal to `s`.
fn append_decimal(s: &mut String, n: u64)
    ensures
        final(s)@ == old(s)@ + decimal_of(n as nat),
    decreases n,
{
    if n >= 10 {
        append_decimal(s, n / 10);
    }
    s.append(digit_str((n % 10) as u8));
    assert(final(s)@ =~= old(s)@ + decimal_of(n as nat));
}

/// `n` written in decimal.
pub fn decimal_string(n: u64) -> (r: String)
    ensures
        r@ == decimal_of(n as nat),
{
    let mut s = String::new();
    append_decimal(&mut s, n);
    assert(s@ =~= decimal_of(n as nat));
    s
}

/// Each byte of `bytes` as two lower-case hexadecimal digits.
pub fn hex_encode(bytes: &[u8]) -> (r: String)
    ensures
        r@ == hex_of(bytes@),
{
    let mut s = String::new();
    let mut i: usize = 0;
    while i < bytes.len()
        invariant
            i <= bytes@.len(),
            s@ == hex_of(bytes@.subrange(0, i as int)),
        decreases bytes@.len() - i,
    {
        let b = bytes[i];
        s.append(digit_str(b / 16));
        s.append(digit_str(b % 16));
        proof {
            let next = bytes@.subrange(0, i + 1);
            assert(next.drop_last() =~= bytes@.subrange(0, i as int));
            assert(next.last() == b);
        }
        i = i + 1;
    }
    assert(bytes@.subrange(0, bytes@.len() as int) =~= bytes@);
    s
}

/// Appends `text` to `s` as a length-prefixed field.
fn append_field(s: &mut String, text: &String)
    ensures
        final(s)@ == old(s)@ + field_of(text@),
{
    let n = text.as_str().unicode_len();
    append_decimal(s, n as u64);
    let colon = ":";
    proof {
        reveal_strlit(":");
    }
    s.append(colon);
    s.append(text.as_str());
    assert(final(s)@ =~= old(s)@ + field_of(text@));
}

/// The text that the identifier of a request is the digest of.
pub fn recovery_preimage(account: &String, new_public_key: &String, timestamp: u64) -> (r: String)
    ensures
        r@ == preimage_of(account@, new_public_key@, timestamp),
{
    let mut s = String::new();
    append_field(&mut s, account);
    append_field(&mut s, new_public_key);
    append_decimal(&mut s, timestamp);
    assert(s@ =~= preimage_of(account@, new_public_key@, timestamp));
    s
}

/// The identifier of the request that recovers `account` with
/// `new_public_key`, created at `timestamp`: 64 lower-case hexadecimal digits.
pub fn recovery_id(account: &String, new_public_key: &String, timestamp: u64) -> (r: String)
    ensures
        r@ == request_id_of(account@, new_public_key@, timestamp),
        r@.len() == 64,
        forall|i: int| 0 <= i < r@.len() ==> is_lower_hex(#[trigger] r@[i]),
{
    let preimage = recovery_preimage(account, new_public_key, timestamp);
    let digest = sha256_digest(preimage.as_str().as_bytes());
    proof {
        lemma_hex_of(digest@);
    }
    hex_encode(digest.as_slice())
}

} // verus!

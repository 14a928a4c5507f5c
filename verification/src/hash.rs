//! The hash of a file's content.

use vstd::prelude::*;
use xxhash_rust::xxh3::Xxh3;

verus! {

/// The streaming hasher of `xxhash_rust`.
#[verifier::external_type_specification]
#[verifier::external_body]
pub struct ExXxh3(xxhash_rust::xxh3::Xxh3);

/// The bytes that a hasher has been given, in order.
pub uninterp spec fn fed(hasher: Xxh3) -> Seq<u8>;

/// The hasher works with the default secret and no seed.
pub uninterp spec fn unseeded(hasher: Xxh3) -> bool;

/// The 128-bit XXH3 hash of the bytes, with the default secret and no seed.
pub uninterp spec fn xxh3_128(bytes: Seq<u8>) -> u128;

/// `Xxh3::new`: a hasher with the default secret and no seed that has been given
/// nothing.
pub assume_specification[ Xxh3::new ]() -> (hasher: Xxh3)
    ensures
        unseeded(hasher),
        fed(hasher) == Seq::<u8>::empty(),
;

/// `Xxh3::update`: the hasher is given the input after everything before it. Its secret
/// and its seed stay as they are.
pub assume_specification[ Xxh3::update ](hasher: &mut Xxh3, input: &[u8])
    ensures
        unseeded(*final(hasher)) == unseeded(*old(hasher)),
        fed(*final(hasher)) == fed(*old(hasher)) + input@,
;

/// `Xxh3::digest128`: the hash of everything that the hasher has been given. It does
/// not depend on how the bytes were cut into inputs. A hasher with a secret or a seed
/// of its own gives another hash, and is left out.
pub assume_specification[ Xxh3::digest128 ](hasher: &Xxh3) -> (digest: u128)
    requires
        unseeded(*hasher),
    ensures
        digest == xxh3_128(fed(*hasher)),
;

/// The hexadecimal digit of a number below sixteen.
pub open spec fn hex_digit(n: nat) -> char {
    if n < 10 {
        (48 + n) as char
    } else {
        (87 + n) as char
    }
}

/// The last `k` hexadecimal digits of a number.
pub open spec fn hex(n: nat, k: nat) -> Seq<char>
    decreases k,
{
    if k == 0 {
        Seq::empty()
    } else {
        hex(n / 16, (k - 1) as nat).push(hex_digit(n % 16))
    }
}

/// The number below sixteen that a hexadecimal digit stands for.
pub open spec fn hex_digit_value(c: char) -> nat {
    if '0' <= c <= '9' {
        (c as u8 - 48) as nat
    } else {
        (c as u8 - 87) as nat
    }
}

/// The number that hexadecimal digits stand for.
pub open spec fn hex_value(s: Seq<char>) -> nat
    decreases s.len(),
{
    if s.len() == 0 {
        0
    } else {
        hex_value(s.drop_last()) * 16 + hex_digit_value(s.last())
    }
}

/// How a content hash is written down.
pub open spec fn hash_text(bytes: Seq<u8>) -> Seq<char> {
    hex(xxh3_128(bytes) as nat, 32)
}

fn hex_char(n: u8) -> (c: char)
    requires
        n < 16,
    ensures
        c == hex_digit(n as nat),
{
    if n < 10 {
        (48 + n) as char
    } else {
        (87 + n) as char
    }
}

fn hex_of(n: u128, k: u8) -> (r: String)
    ensures
        r@ == hex(n as nat, k as nat),
    decreases k,
{
    if k == 0 {
        let r = String::new();
        assert(r@ =~= Seq::<char>::empty());
        return r;
    }
    let mut r = hex_of(n / 16, k - 1);
    r.push(hex_char((n % 16) as u8));
    r
}

/// The digest as 32 hexadecimal digits.
pub fn digest_text(digest: u128) -> (r: String)
    ensures
        r@ == hex(digest as nat, 32),
{
    hex_of(digest, 32)
}

/// The hash of a whole content, as text.
pub fn server_xxh3_hash(bytes: &[u8]) -> (r: String)
    ensures
        r@ == hash_text(bytes@),
{
    let mut hasher = Xxh3::new();
    hasher.update(bytes);
    assert(fed(hasher) =~= bytes@);
    digest_text(hasher.digest128())
}

/// Sixteen to the power of `k`.
pub open spec fn pow16(k: nat) -> nat
    decreases k,
{
    if k == 0 {
        1
    } else {
        pow16((k - 1) as nat) * 16
    }
}

/// The text of a number that fits tells the number, and has one character for each
/// digit.
pub proof fn hex_reads_back(n: nat, k: nat)
    requires
        n < pow16(k),
    ensures
        hex_value(hex(n, k)) == n,
        hex(n, k).len() == k,
    decreases k,
{
    if k > 0 {
        hex_reads_back(n / 16, (k - 1) as nat);
        assert(hex(n, k).drop_last() =~= hex(n / 16, (k - 1) as nat));
    }
}

/// Two contents have the same text for a hash exactly where their hashes are the
/// same.
pub proof fn hash_texts_tell_hashes_apart(a: Seq<u8>, b: Seq<u8>)
    ensures
        hash_text(a) == hash_text(b) <==> xxh3_128(a) == xxh3_128(b),
        hash_text(a).len() == 32,
{
    assert(pow16(32) == 0x1_0000_0000_0000_0000_0000_0000_0000_0000) by {
        reveal_with_fuel(pow16, 33);
    }
    hex_reads_back(xxh3_128(a) as nat, 32);
    hex_reads_back(xxh3_128(b) as nat, 32);
}

/// A digest is written in 32 lower case hexadecimal digits that tell it, and the hash of
/// a content is the digest of its XXH3 hash.
pub proof fn digests_are_written_in_hexadecimal(
    digest: u128,
    r: String,
    bytes: &[u8],
    hashed: String,
    i: int,
)
    requires
        call_ensures(digest_text, (digest,), r),
        call_ensures(server_xxh3_hash, (bytes,), hashed),
    ensures
        r@.len() == 32,
        hex_value(r@) == digest,
        0 <= i < 32 ==> '0' <= r@[i] <= '9' || 'a' <= r@[i] <= 'f',
        hashed@.len() == 32,
        hex_value(hashed@) == xxh3_128(bytes@),
{
    lemma_fits(digest);
    lemma_fits(xxh3_128(bytes@));
    hex_reads_back(digest as nat, 32);
    hex_reads_back(xxh3_128(bytes@) as nat, 32);
    lemma_hex_digits(digest as nat, 32, i);
}

proof fn lemma_fits(n: u128)
    ensures
        n < pow16(32),
{
    reveal_with_fuel(pow16, 33);
}

proof fn lemma_hex_digits(n: nat, k: nat, i: int)
    ensures
        hex(n, k).len() == k,
        0 <= i < k ==> '0' <= hex(n, k)[i] <= '9' || 'a' <= hex(n, k)[i] <= 'f',
    decreases k,
{
    if k > 0 {
        lemma_hex_digits(n / 16, (k - 1) as nat, i);
    }
}

/// Each hexadecimal digit stands for its own number below sixteen, and a digit behind a
/// number counts it sixteenfold.
pub proof fn hexadecimal_is_read_digit_by_digit(s: Seq<char>, c: char)
    ensures
        hex_value(Seq::<char>::empty()) == 0,
        '0' <= c <= '9' ==> hex_value(s.push(c)) == hex_value(s) * 16 + (c as int - 48),
        'a' <= c <= 'f' ==> hex_value(s.push(c)) == hex_value(s) * 16 + (c as int - 97) + 10,
{
    assert(s.push(c).drop_last() =~= s);
}

} // verus!

//! Stable identity for compiled snapshots and worklets: a short hex prefix
//! of a SHA-1 digest, plus decimal counters, concatenated into ids.

use vstd::prelude::*;

verus! {

/// The SHA-1 digest of the UTF-8 encoding of a string, as 20 bytes. The
/// digest depends on the characters alone, so it is only named here; the
/// trusted wrapper below produces it.
pub uninterp spec fn sha1_str_of(s: Seq<char>) -> Seq<u8>;

/// Relies on `sha1::Sha1` (through the `Digest` trait): hashes the UTF-8
/// bytes of the string and returns the 20-byte digest.
#[verifier::external_body]
fn sha1_digest(s: &str) -> (r: Vec<u8>)
    ensures
        r@ == sha1_str_of(s@),
        r@.len() == 20,
{
    <sha1::Sha1 as sha1::Digest>::digest(s.as_bytes()).to_vec()
}

/// The lowercase hex digit for a value below 16.
pub open spec fn hex_digit(n: u8) -> char {
    if n < 10 {
        ((48 + n) as u8) as char  // '0'..'9'
    } else {
        ((87 + n) as u8) as char  // 'a'..'f'
    }
}

/// Lowercase hex encoding: two digits per byte, high nibble first.
pub open spec fn hex_of(bytes: Seq<u8>) -> Seq<char>
    decreases bytes,
{
    if bytes.len() == 0 {
        Seq::empty()
    } else {
        hex_of(bytes.drop_last()).push(hex_digit(bytes.last() / 16)).push(
            hex_digit(bytes.last() % 16),
        )
    }
}

pub proof fn lemma_hex_of_len(bytes: Seq<u8>)
    ensures
        hex_of(bytes).len() == 2 * bytes.len(),
    decreases bytes,
{
    if bytes.len() > 0 {
        lemma_hex_of_len(bytes.drop_last());
    }
}

/// Relies on `hex::encode`: lowercase hex, two digits per byte, high nibble
/// first, in byte order.
#[verifier::external_body]
fn hex_encode(b: &Vec<u8>) -> (r: String)
    ensures
        r@ == hex_of(b@),
{
    hex::encode(b)
}

/// The first `k` characters of the hex-encoded SHA-1 digest of `s`.
pub fn sha1_hex_prefix(s: &str, k: usize) -> (r: String)
    requires
        k <= 40,
    ensures
        r@ == hex_of(sha1_str_of(s@)).subrange(0, k as int),
{
    let digest = sha1_digest(s);
    let full = hex_encode(&digest);
    proof {
        lemma_hex_of_len(digest@);
    }
    let pre = full.as_str().substring_char(0, k);
    pre.to_owned()
}

/// The five-character file hash that seeds snapshot ids.
pub fn calc_hash(s: &str) -> (r: String)
    ensures
        r@ == hex_of(sha1_str_of(s@)).subrange(0, 5),
{
    sha1_hex_prefix(s, 5)
}

/// The decimal digits of `n`, most significant first.
pub open spec fn dec_of(n: nat) -> Seq<char>
    decreases n,
{
    if n < 10 {
        Seq::empty().push(((48 + n) as u8) as char)
    } else {
        dec_of(n / 10).push(((48 + n % 10) as u8) as char)
    }
}

/// Appends the decimal digits of `n` to `s`.
pub fn push_dec(s: &mut String, n: u32)
    ensures
        final(s)@ == old(s)@ + dec_of(n as nat),
    decreases n,
{
    if n >= 10 {
        push_dec(s, n / 10);
    }
    let d: u8 = 48 + (n % 10) as u8;
    s.push(d as char);
    proof {
        if n >= 10 {
            assert(final(s)@ =~= old(s)@ + dec_of(n as nat));
        } else {
            assert(final(s)@ =~= old(s)@ + dec_of(n as nat));
        }
    }
}

/// The decimal form of `n` as a string.
pub fn u32_to_string(n: u32) -> (r: String)
    ensures
        r@ == dec_of(n as nat),
{
    let mut s = String::new();
    push_dec(&mut s, n);
    proof {
        assert(s@ =~= dec_of(n as nat));
    }
    s
}

/// The ghost shape of a snapshot uid.
pub open spec fn uid_v(filename_hash: Seq<char>, content_hash: Seq<char>, counter: nat) -> Seq<
    char,
> {
    "__snapshot_"@ + filename_hash + "_"@ + content_hash + "_"@ + dec_of(counter)
}

/// Builds `__snapshot_<filenameHash>_<contentHash>_<counter>`.
pub fn build_uid(filename_hash: &String, content_hash: &String, counter: u32) -> (r: String)
    ensures
        r@ == uid_v(filename_hash@, content_hash@, counter as nat),
{
    let mut s = String::from_str("__snapshot_");
    s.append(filename_hash.as_str());
    s.append("_");
    s.append(content_hash.as_str());
    s.append("_");
    push_dec(&mut s, counter);
    s
}

/// Stable ids for extracted worklets: `<hash4>:<contentHash>:<n>`, with `n`
/// counting up from 1 within one file.
pub struct WorkletHash {
    pub last_id: i32,
}

/// The ghost shape of a worklet id.
pub open spec fn worklet_id_v(filename: Seq<char>, content_hash: Seq<char>, n: nat) -> Seq<char> {
    hex_of(sha1_str_of(filename)).subrange(0, 4) + ":"@ + content_hash + ":"@ + dec_of(n)
}

impl WorkletHash {
    pub fn new() -> (r: WorkletHash)
        ensures
            r.last_id == 0,
    {
        WorkletHash { last_id: 0 }
    }

    /// Hands out the next worklet id for this file.
    pub fn gen(&mut self, filename: &String, content_hash: &String) -> (r: String)
        requires
            0 <= old(self).last_id < i32::MAX,
        ensures
            final(self).last_id == old(self).last_id + 1,
            r@ == worklet_id_v(filename@, content_hash@, final(self).last_id as nat),
    {
        self.last_id = self.last_id + 1;
        let mut s = sha1_hex_prefix(filename.as_str(), 4);
        s.append(":");
        s.append(content_hash.as_str());
        s.append(":");
        push_dec(&mut s, self.last_id as u32);
        s
    }
}

} // verus!

use sha2::Digest;
use vstd::prelude::*;
use vstd::string::StringSliceAdditionalSpecFns;

verus! {

/// The SHA-256 digest of `data`.
pub uninterp spec fn sha256_of(data: Seq<u8>) -> Seq<u8>;

/// Relies on `sha2::Sha256::digest`: the 32-byte SHA-256 digest of the input.
#[verifier::external_body]
fn sha256(data: &[u8]) -> (r: Vec<u8>)
    ensures
        r@ == sha256_of(data@),
        r@.len() == 32,
{
    sha2::Sha256::digest(data).to_vec()
}

/// The lowercase hexadecimal digit of `d`, as an ASCII byte.
pub open spec fn hex_digit(d: nat) -> u8 {
    if d < 10 {
        (48 + d) as u8
    } else {
        (87 + d) as u8
    }
}

/// `n` in lowercase hexadecimal, without leading zeros (`0` for zero).
pub open spec fn hex_of(n: nat) -> Seq<u8>
    decreases n,
{
    if n < 16 {
        seq![hex_digit(n)]
    } else {
        hex_of(n / 16).push(hex_digit(n % 16))
    }
}

/// Each byte as two lowercase hexadecimal digits.
pub open spec fn hex_bytes_spec(b: Seq<u8>) -> Seq<u8>
    decreases b.len(),
{
    if b.len() == 0 {
        Seq::empty()
    } else {
        hex_bytes_spec(b.drop_last()) + seq![hex_digit(b.last() as nat / 16), hex_digit(b.last() as nat % 16)]
    }
}

/// The four bytes of `x`, most significant first.
pub open spec fn be_bytes(x: u32) -> Seq<u8> {
    seq![(x / 0x100_0000) as u8, (x / 0x1_0000 % 0x100) as u8, (x / 0x100 % 0x100) as u8, (x % 0x100) as u8]
}

/// The extension of snapshot files.
pub open spec fn extension() -> Seq<u8> {
    seq![46u8, 108u8, 108u8, 97u8, 109u8, 97u8, 45u8, 115u8, 116u8, 97u8, 116u8, 101u8]
}

/// What identifies a snapshot: the model's hash in hexadecimal, the prompt, and the batch size.
pub open spec fn identity_spec(model_hash: u64, prompt: Seq<u8>, batch_size: u32) -> Seq<u8> {
    hex_of(model_hash as nat) + prompt + be_bytes(batch_size)
}

fn hex_digit_exec(d: u8) -> (r: u8)
    requires
        d < 16,
    ensures
        r == hex_digit(d as nat),
{
    if d < 10 {
        48 + d
    } else {
        87 + d
    }
}

/// `n` in lowercase hexadecimal, without leading zeros.
pub fn hex_u64(n: u64) -> (r: Vec<u8>)
    ensures
        r@ == hex_of(n as nat),
    decreases n,
{
    if n < 16 {
        let mut r: Vec<u8> = Vec::new();
        r.push(hex_digit_exec(n as u8));
        assert(r@ =~= hex_of(n as nat));
        r
    } else {
        let mut r = hex_u64(n / 16);
        r.push(hex_digit_exec((n % 16) as u8));
        r
    }
}

/// Each byte of `b` as two lowercase hexadecimal digits.
pub fn hex_bytes(b: &Vec<u8>) -> (r: Vec<u8>)
    ensures
        r@ == hex_bytes_spec(b@),
{
    let mut r: Vec<u8> = Vec::new();
    let mut i: usize = 0;
    while i < b.len()
        invariant
            i <= b@.len(),
            r@ == hex_bytes_spec(b@.subrange(0, i as int)),
        decreases b@.len() - i,
    {
        let x = b[i];
        r.push(hex_digit_exec(x / 16));
        r.push(hex_digit_exec(x % 16));
        proof {
            let s = b@.subrange(0, i + 1);
            assert(s.drop_last() =~= b@.subrange(0, i as int));
            assert(s.last() == x);
            assert(r@ =~= hex_bytes_spec(s));
        }
        i = i + 1;
    }
    assert(b@.subrange(0, b@.len() as int) =~= b@);
    r
}

/// The bytes that identify the snapshot of `prompt` on the model `model_hash` with `batch_size`.
pub fn snapshot_identity(model_hash: u64, prompt: &str, batch_size: u32) -> (r: Vec<u8>)
    ensures
        r@ == identity_spec(model_hash, prompt.spec_bytes(), batch_size),
{
    let mut r = hex_u64(model_hash);
    let p = prompt.as_bytes();
    let mut i: usize = 0;
    let ghost h = r@;
    while i < p.len()
        invariant
            i <= p@.len(),
            h == hex_of(model_hash as nat),
            r@ =~= h + p@.subrange(0, i as int),
        decreases p@.len() - i,
    {
        r.push(p[i]);
        i = i + 1;
    }
    assert(p@.subrange(0, p@.len() as int) =~= p@);
    r.push((batch_size / 0x100_0000) as u8);
    r.push((batch_size / 0x1_0000 % 0x100) as u8);
    r.push((batch_size / 0x100 % 0x100) as u8);
    r.push((batch_size % 0x100) as u8);
    assert(r@ =~= identity_spec(model_hash, prompt.spec_bytes(), batch_size));
    r
}

/// The file name of a snapshot whose identity has the SHA-256 digest `digest`:
/// the digest in lowercase hexadecimal, then `.llama-state`.
pub fn snapshot_name_from_digest(digest: &Vec<u8>) -> (r: Vec<u8>)
    ensures
        r@ == hex_bytes_spec(digest@) + extension(),
{
    let mut r = hex_bytes(digest);
    let ghost h = r@;
    let ext: [u8; 12] = [46, 108, 108, 97, 109, 97, 45, 115, 116, 97, 116, 101];
    let mut i: usize = 0;
    while i < 12
        invariant
            i <= 12,
            ext@ == extension(),
            r@ =~= h + extension().subrange(0, i as int),
        decreases 12 - i,
    {
        r.push(ext[i]);
        i = i + 1;
    }
    assert(extension().subrange(0, 12) =~= extension());
    r
}

/// The file name under which the snapshot of `prompt` on the model `model_hash` with
/// `batch_size` is kept: the SHA-256 digest of its identity in lowercase hexadecimal,
/// then `.llama-state`.
pub fn snapshot_file_name(model_hash: u64, prompt: &str, batch_size: u32) -> (r: Vec<u8>)
    ensures
        r@ == hex_bytes_spec(sha256_of(identity_spec(model_hash, prompt.spec_bytes(), batch_size)))
            + extension(),
{
    let id = snapshot_identity(model_hash, prompt, batch_size);
    let digest = sha256(id.as_slice());
    snapshot_name_from_digest(&digest)
}

} // verus!

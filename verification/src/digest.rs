//! SHA-256, and its bytes in hexadecimal.
use sha2::Digest;
use vstd::prelude::*;

verus! {

/// The SHA-256 digest of a sequence of bytes.
pub uninterp spec fn sha256_digest(data: Seq<u8>) -> Seq<u8>;

/// `sha2::Sha256::digest` hashes the bytes it is given. The digest is a
/// function of those bytes alone and is thirty-two bytes long.
#[verifier::external_body]
pub(crate) fn sha256(data: &[u8]) -> (r: Vec<u8>)
    ensures
        r@ == sha256_digest(data@),
        r@.len() == 32,
{
    sha2::Sha256::digest(data).to_vec()
}

/// The lower-case hexadecimal digit for a value below sixteen.
pub open spec fn hex_digit(n: int) -> char {
    "0123456789abcdef"@[n]
}

/// The bytes in order, two lower-case hexadecimal digits each.
pub open spec fn hex(bytes: Seq<u8>) -> Seq<char>
    decreases bytes.len(),
{
    if bytes.len() == 0 {
        Seq::empty()
    } else {
        hex(bytes.drop_last()).push(hex_digit(bytes.last() as int / 16)).push(
            hex_digit(bytes.last() as int % 16),
        )
    }
}

fn hex_char(n: u8) -> (r: char)
    requires
        n < 16,
    ensures
        r == hex_digit(n as int),
{
    proof {
        reveal_strlit("0123456789abcdef");
    }
    "0123456789abcdef".get_char(n as usize)
}

/// The first `count` bytes, two lower-case hexadecimal digits each.
pub fn hex_of(bytes: &Vec<u8>, count: usize) -> (r: String)
    requires
        count <= bytes@.len(),
    ensures
        r@ == hex(bytes@.take(count as int)),
{
    let mut out: String = String::new();
    let mut i: usize = 0;
    proof {
        assert(bytes@.take(0) =~= Seq::<u8>::empty());
    }
    while i < count
        invariant
            i <= count <= bytes@.len(),
            out@ == hex(bytes@.take(i as int)),
        decreases count - i,
    {
        proof {
            assert(bytes@.take(i + 1).drop_last() =~= bytes@.take(i as int));
        }
        out.push(hex_char(bytes[i] / 16));
        out.push(hex_char(bytes[i] % 16));
        i += 1;
    }
    out
}

/// `n` bytes take `2 n` digits, every one of them a letter or a digit.
pub proof fn lemma_hex(bytes: Seq<u8>)
    ensures
        hex(bytes).len() == 2 * bytes.len(),
        forall|i: int|
            0 <= i < hex(bytes).len() ==> crate::strings::is_ascii_alnum(#[trigger] hex(bytes)[i]),
    decreases bytes.len(),
{
    reveal_strlit("0123456789abcdef");
    if bytes.len() > 0 {
        lemma_hex(bytes.drop_last());
        assert forall|n: int| 0 <= n < 16 implies crate::strings::is_ascii_alnum(
            #[trigger] hex_digit(n),
        ) by {
            assert(n == 0 || n == 1 || n == 2 || n == 3 || n == 4 || n == 5 || n == 6 || n == 7 || n
                == 8 || n == 9 || n == 10 || n == 11 || n == 12 || n == 13 || n == 14 || n == 15);
        }
        assert(crate::strings::is_ascii_alnum(hex_digit(bytes.last() as int / 16)));
        assert(crate::strings::is_ascii_alnum(hex_digit(bytes.last() as int % 16)));
    }
}

} // verus!

//! Network namespaces.
use crate::text::{cat5, dec, dec_i64, digit_char};
use rand::RngExt;
use vstd::prelude::*;
use vstd::slice::slice_subrange;

verus! {

/// Bytes as text: two hexadecimal digits each, in lower case.
pub open spec fn hex_text(bytes: Seq<u8>) -> Seq<char>
    decreases bytes.len(),
{
    if bytes.len() == 0 {
        seq![]
    } else {
        hex_text(bytes.drop_last()).push(digit_char(bytes.last() as int / 16)).push(
            digit_char(bytes.last() as int % 16),
        )
    }
}

/// `hex::encode` writes each byte as two hexadecimal digits, the high one first, in lower case.
#[verifier::external_body]
fn encode_hex(bytes: &[u8]) -> (r: String)
    requires
        2 * bytes@.len() <= isize::MAX,
    ensures
        r@ == hex_text(bytes@),
{
    hex::encode(bytes)
}

/// `rand::rng` with `RngExt::random` gives sixteen random bytes. Nothing is claimed of them.
#[verifier::external_body]
fn random_bytes() -> (r: [u8; 16]) {
    rand::rng().random()
}

/// The name of a network namespace that is made from sixteen bytes.
pub open spec fn netns_name_of(bytes: Seq<u8>) -> Seq<char> {
    "cnitest-"@ + hex_text(bytes.subrange(0, 4)) + "-"@ + hex_text(bytes.subrange(4, 6)) + "-"@
        + hex_text(bytes.subrange(6, 8)) + "-"@ + hex_text(bytes.subrange(8, 10)) + "-"@ + hex_text(
        bytes.subrange(10, 16),
    )
}

/// The name of a network namespace that is made from sixteen bytes.
pub fn netns_name(bytes: &[u8; 16]) -> (r: String)
    ensures
        r@ == netns_name_of(bytes@),
{
    let bytes: &[u8] = bytes;
    cat5(
        "cnitest-",
        encode_hex(slice_subrange(bytes, 0, 4)).as_str(),
        "-",
        encode_hex(slice_subrange(bytes, 4, 6)).as_str(),
        "-",
    ).concat(encode_hex(slice_subrange(bytes, 6, 8)).as_str()).concat("-").concat(
        encode_hex(slice_subrange(bytes, 8, 10)).as_str(),
    ).concat("-").concat(encode_hex(slice_subrange(bytes, 10, 16)).as_str())
}

/// A name for a new network namespace, made from random bytes.
pub fn generate_netns_name() -> (r: String)
    ensures
        exists|bytes: Seq<u8>| bytes.len() == 16 && r@ == #[trigger] netns_name_of(bytes),
{
    let bytes: [u8; 16] = random_bytes();
    netns_name(&bytes)
}

/// The file of the network namespace that a thread is in.
pub fn task_netns_path(pid: i32, tid: i32) -> (r: String)
    ensures
        r@ == "/proc/"@ + dec(pid as int) + "/task/"@ + dec(tid as int) + "/ns/net"@,
{
    cat5(
        "/proc/",
        dec_i64(pid as i64).as_str(),
        "/task/",
        dec_i64(tid as i64).as_str(),
        "/ns/net",
    )
}

proof fn lemma_hex_len(bytes: Seq<u8>)
    ensures
        hex_text(bytes).len() == 2 * bytes.len(),
    decreases bytes.len(),
{
    if bytes.len() > 0 {
        lemma_hex_len(bytes.drop_last());
    }
}

proof fn lemma_digits_differ(a: int, b: int)
    requires
        0 <= a < 16,
        0 <= b < 16,
        digit_char(a) == digit_char(b),
    ensures
        a == b,
{
}

/// Different bytes have different texts.
pub proof fn law_hex_text_is_injective(a: Seq<u8>, b: Seq<u8>)
    requires
        hex_text(a) == hex_text(b),
    ensures
        a == b,
    decreases a.len(),
{
    lemma_hex_len(a);
    lemma_hex_len(b);
    if a.len() > 0 {
        let x = hex_text(a);
        let y = hex_text(b);
        let n = x.len() as int;
        assert(x[n - 1] == digit_char(a.last() as int % 16));
        assert(y[n - 1] == digit_char(b.last() as int % 16));
        assert(x[n - 2] == digit_char(a.last() as int / 16));
        assert(y[n - 2] == digit_char(b.last() as int / 16));
        lemma_digits_differ(a.last() as int % 16, b.last() as int % 16);
        lemma_digits_differ(a.last() as int / 16, b.last() as int / 16);
        assert(x.take(n - 2) =~= hex_text(a.drop_last()));
        assert(y.take(n - 2) =~= hex_text(b.drop_last()));
        law_hex_text_is_injective(a.drop_last(), b.drop_last());
        assert(a =~= a.drop_last().push(a.last()));
        assert(b =~= b.drop_last().push(b.last()));
    } else {
        assert(a =~= b);
    }
}

/// Different bytes give different names: two namespaces share a name only where the random bytes
/// were the same.
pub proof fn law_netns_names_differ(a: Seq<u8>, b: Seq<u8>)
    requires
        a.len() == 16,
        b.len() == 16,
        netns_name_of(a) == netns_name_of(b),
    ensures
        a == b,
{
    reveal_strlit("cnitest-");
    reveal_strlit("-");
    let x = netns_name_of(a);
    let y = netns_name_of(b);
    lemma_hex_len(a.subrange(0, 4));
    lemma_hex_len(a.subrange(4, 6));
    lemma_hex_len(a.subrange(6, 8));
    lemma_hex_len(a.subrange(8, 10));
    lemma_hex_len(a.subrange(10, 16));
    lemma_hex_len(b.subrange(0, 4));
    lemma_hex_len(b.subrange(4, 6));
    lemma_hex_len(b.subrange(6, 8));
    lemma_hex_len(b.subrange(8, 10));
    lemma_hex_len(b.subrange(10, 16));
    assert(x.subrange(8, 16) =~= hex_text(a.subrange(0, 4)));
    assert(y.subrange(8, 16) =~= hex_text(b.subrange(0, 4)));
    assert(x.subrange(17, 21) =~= hex_text(a.subrange(4, 6)));
    assert(y.subrange(17, 21) =~= hex_text(b.subrange(4, 6)));
    assert(x.subrange(22, 26) =~= hex_text(a.subrange(6, 8)));
    assert(y.subrange(22, 26) =~= hex_text(b.subrange(6, 8)));
    assert(x.subrange(27, 31) =~= hex_text(a.subrange(8, 10)));
    assert(y.subrange(27, 31) =~= hex_text(b.subrange(8, 10)));
    assert(x.subrange(32, 44) =~= hex_text(a.subrange(10, 16)));
    assert(y.subrange(32, 44) =~= hex_text(b.subrange(10, 16)));
    law_hex_text_is_injective(a.subrange(0, 4), b.subrange(0, 4));
    law_hex_text_is_injective(a.subrange(4, 6), b.subrange(4, 6));
    law_hex_text_is_injective(a.subrange(6, 8), b.subrange(6, 8));
    law_hex_text_is_injective(a.subrange(8, 10), b.subrange(8, 10));
    law_hex_text_is_injective(a.subrange(10, 16), b.subrange(10, 16));
    assert(a =~= a.subrange(0, 4) + a.subrange(4, 6) + a.subrange(6, 8) + a.subrange(8, 10)
        + a.subrange(10, 16));
    assert(b =~= b.subrange(0, 4) + b.subrange(4, 6) + b.subrange(6, 8) + b.subrange(8, 10)
        + b.subrange(10, 16));
}

} // verus!

use vstd::prelude::*;

use std::string::FromUtf8Error;
use crate::text::{
    chars_of, in_radix, lemma_radix_number_reads_back, parse_unsigned, parse_unsigned_prefix,
};
use vstd::utf8::{decode_utf8, valid_utf8};

verus! {

#[verifier::external_type_specification]
#[verifier::external_body]
pub struct ExFromUtf8Error(std::string::FromUtf8Error);

/// Calls `String::from_utf8`, which the standard library documents as
/// succeeding exactly when the bytes are valid UTF-8 and then holding the
/// characters they encode; the error carries the bytes back.
#[verifier::external_body]
fn string_from_utf8(bytes: Vec<u8>) -> (r: Result<String, FromUtf8Error>)
    ensures
        r is Ok <==> valid_utf8(bytes@),
        r matches Ok(s) ==> s@ == decode_utf8(bytes@),
{
    String::from_utf8(bytes)
}

/// The number of bytes the client's chat buffer is read in at a time.
pub const READ_CHUNK: usize = 2048;

/// `k` is where the run of non-zero bytes that starts `s` ends.
pub open spec fn nonzero_run(s: Seq<u8>, k: int) -> bool {
    &&& 0 <= k <= s.len()
    &&& forall|i: int| 0 <= i < k ==> s[i] != 0
    &&& (k == s.len() || s[k] == 0)
}

/// The bytes of `s` before its first zero byte.
pub open spec fn before_first_zero(s: Seq<u8>) -> Seq<u8> {
    s.take(choose|k: int| nonzero_run(s, k))
}

proof fn lemma_nonzero_run_unique(s: Seq<u8>, k: int, j: int)
    requires
        nonzero_run(s, k),
        nonzero_run(s, j),
    ensures
        k == j,
{
}

/// The text held in one chunk of the chat buffer, and whether the buffer
/// ends in it: the text is what comes before the chunk's first zero byte, and
/// the buffer ends here when that is shorter than the chunk. Fails when those
/// bytes are not UTF-8.
pub fn read_buffer(chunk: &[u8; 2048]) -> (r: Result<(String, bool), FromUtf8Error>)
    ensures
        ({
            let text = before_first_zero(chunk@);
            &&& r is Ok <==> valid_utf8(text)
            &&& r matches Ok((s, stop)) ==> s@ == decode_utf8(text) && stop == (text.len()
                < 2048)
        }),
{
    let mut k: usize = 0;
    while k < 2048 && chunk[k] != 0
        invariant
            k <= 2048,
            forall|i: int| 0 <= i < k ==> chunk@[i] != 0,
        decreases 2048 - k,
    {
        k = k + 1;
    }
    let mut bytes: Vec<u8> = Vec::new();
    let mut i: usize = 0;
    while i < k
        invariant
            i <= k <= 2048,
            bytes@ == chunk@.take(i as int),
        decreases k - i,
    {
        bytes.push(chunk[i]);
        i = i + 1;
        assert(bytes@ =~= chunk@.take(i as int));
    }
    proof {
        assert(nonzero_run(chunk@, k as int));
        let c = choose|j: int| nonzero_run(chunk@, j);
        lemma_nonzero_run_unique(chunk@, k as int, c);
    }
    let stop = k < 2048;
    match string_from_utf8(bytes) {
        Ok(s) => Ok((s, stop)),
        Err(e) => Err(e),
    }
}

/// The account name held in the 16 bytes read at the account name's address:
/// every zero byte is dropped and the rest is read as UTF-8.
pub fn read_account_name(buffer: &[u8; 16]) -> (r: Result<String, FromUtf8Error>)
    ensures
        ({
            let name = buffer@.filter(|b: u8| b != 0);
            &&& r is Ok <==> valid_utf8(name)
            &&& r matches Ok(s) ==> s@ == decode_utf8(name)
        }),
{
    let ghost pred = |b: u8| b != 0;
    let mut bytes: Vec<u8> = Vec::new();
    let mut i: usize = 0;
    assert(buffer@.take(0).filter(pred) =~= Seq::<u8>::empty()) by {
        reveal_with_fuel(Seq::<_>::filter, 1);
    }
    while i < 16
        invariant
            i <= 16,
            pred == (|b: u8| b != 0),
            bytes@ == buffer@.take(i as int).filter(pred),
        decreases 16 - i,
    {
        let b = buffer[i];
        proof {
            let p = buffer@.take(i + 1);
            assert(p.drop_last() =~= buffer@.take(i as int));
            assert(p.last() == b);
            assert(pred(b) == (b != 0));
            assert(p.len() > 0);
            reveal_with_fuel(Seq::<_>::filter, 1);
            assert(p.filter(pred) == if b != 0 {
                buffer@.take(i as int).filter(pred).push(b)
            } else {
                buffer@.take(i as int).filter(pred)
            });
        }
        if b != 0 {
            bytes.push(b);
        }
        i = i + 1;
    }
    assert(buffer@.take(16) =~= buffer@);
    string_from_utf8(bytes)
}

/// An offset as the configuration writes it, in hexadecimal, read as
/// `u32::from_str_radix(text, 16)` reads it.
pub fn parse_hex_offset(text: &str) -> (r: Option<u32>)
    ensures
        match r {
            Some(v) => parse_unsigned(text@, 16, u32::MAX as nat) == Some(v as nat),
            None => parse_unsigned(text@, 16, u32::MAX as nat) is None,
        },
        forall|n: nat, upper: bool|
            n <= u32::MAX && #[trigger] in_radix(n, 16, upper) == text@ ==> r == Some(n as u32),
{
    proof {
        assert forall|n: nat, upper: bool|
            n <= u32::MAX && #[trigger] in_radix(n, 16, upper) == text@ implies parse_unsigned(
            text@,
            16,
            u32::MAX as nat,
        ) == Some(n) by {
            lemma_radix_number_reads_back(n, 16, upper, u32::MAX as nat);
        }
    }
    let chars = chars_of(text);
    assert(chars@.take(chars.len() as int) =~= chars@);
    match parse_unsigned_prefix(&chars, chars.len(), 16, u32::MAX as u64) {
        Some(v) => Some(v as u32),
        None => None,
    }
}

} // verus!

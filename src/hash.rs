//! Content fingerprints: SHA-256 over a file's lines with their terminators
//! stripped, rendered as lowercase hex.

use vstd::prelude::*;
use vstd::utf8::encode_utf8;
use crate::text::{push_all, push_char};

verus! {

/// The text that is fingerprinted: every line of `s`, terminator stripped,
/// one after the other. A line ends at `\n`; a `\r` right before that `\n`
/// belongs to the terminator. A lone `\r` stays.
pub open spec fn strip_line_endings(s: Seq<char>) -> Seq<char>
    decreases s.len(),
{
    if s.len() == 0 {
        Seq::empty()
    } else if s[0] == '\n' {
        strip_line_endings(s.drop_first())
    } else if s[0] == '\r' && s.len() > 1 && s[1] == '\n' {
        strip_line_endings(s.drop_first())
    } else {
        seq![s[0]] + strip_line_endings(s.drop_first())
    }
}

/// `s` with every CRLF line ending written as LF.
pub open spec fn crlf_to_lf(s: Seq<char>) -> Seq<char>
    decreases s.len(),
{
    if s.len() == 0 {
        Seq::empty()
    } else if s[0] == '\r' && s.len() > 1 && s[1] == '\n' {
        crlf_to_lf(s.drop_first())
    } else {
        seq![s[0]] + crlf_to_lf(s.drop_first())
    }
}

/// `s` without its `\n` characters.
pub open spec fn remove_lf(s: Seq<char>) -> Seq<char>
    decreases s.len(),
{
    if s.len() == 0 {
        Seq::empty()
    } else if s[0] == '\n' {
        remove_lf(s.drop_first())
    } else {
        seq![s[0]] + remove_lf(s.drop_first())
    }
}

/// The SHA-256 digest of a byte string.
pub uninterp spec fn sha256_of(data: Seq<u8>) -> Seq<u8>;

/// Relies on sha2's `Sha256::digest`: the SHA-256 digest of the bytes, which
/// is 32 bytes long.
#[verifier::external_body]
fn sha256(data: &[u8]) -> (r: Vec<u8>)
    ensures
        r@ == sha256_of(data@),
        r@.len() == 32,
{
    <sha2::Sha256 as sha2::Digest>::digest(data).to_vec()
}

/// The lowercase hex digit of a value below 16.
pub open spec fn hex_digit(n: int) -> char {
    if n < 10 {
        (n + 48) as char
    } else {
        (n + 87) as char
    }
}

/// Two lowercase hex digits for each byte, most significant digit first.
pub open spec fn hex_lower(b: Seq<u8>) -> Seq<char>
    decreases b.len(),
{
    if b.len() == 0 {
        Seq::empty()
    } else {
        hex_lower(b.drop_last()) + seq![
            hex_digit(b.last() as int / 16),
            hex_digit(b.last() as int % 16),
        ]
    }
}

/// The digest of a text that is already stripped of line endings.
pub open spec fn digest_of(contents: Seq<char>) -> Seq<char> {
    hex_lower(sha256_of(encode_utf8(contents)))
}

fn hex_char(n: u8) -> (c: char)
    requires
        n < 16,
    ensures
        c == hex_digit(n as int),
{
    if n < 10 {
        (n + 48) as char
    } else {
        (n + 87) as char
    }
}

/// Two digits for each byte.
pub proof fn lemma_hex_len(b: Seq<u8>)
    ensures
        hex_lower(b).len() == 2 * b.len(),
    decreases b.len(),
{
    if b.len() > 0 {
        lemma_hex_len(b.drop_last());
    }
}

/// Lowercase hex rendering of `bytes`.
pub fn to_hex(bytes: &[u8]) -> (r: String)
    ensures
        r@ == hex_lower(bytes@),
        r@.len() == 2 * bytes@.len(),
{
    proof {
        lemma_hex_len(bytes@);
    }
    let mut r = String::new();
    let mut i: usize = 0;
    while i < bytes.len()
        invariant
            i <= bytes@.len(),
            r@ == hex_lower(bytes@.take(i as int)),
        decreases bytes@.len() - i,
    {
        let b = bytes[i];
        push_char(&mut r, hex_char(b / 16));
        push_char(&mut r, hex_char(b % 16));
        assert(bytes@.take(i + 1).drop_last() =~= bytes@.take(i as int));
        i = i + 1;
    }
    assert(bytes@.take(bytes@.len() as int) =~= bytes@);
    r
}

/// One character of `s` at `i`, as `strip_line_endings` sees it.
proof fn lemma_strip_step(s: Seq<char>, i: int)
    requires
        0 <= i < s.len(),
    ensures
        s.skip(i).drop_first() == s.skip(i + 1),
        s[i] == '\n' ==> strip_line_endings(s.skip(i)) == strip_line_endings(s.skip(i + 1)),
        s[i] != '\n' && s[i] != '\r' ==> strip_line_endings(s.skip(i)) == seq![s[i]]
            + strip_line_endings(s.skip(i + 1)),
        i + 1 < s.len() && s[i] == '\r' && s[i + 1] == '\n' ==> strip_line_endings(s.skip(i))
            == strip_line_endings(s.skip(i + 2)),
        i + 1 < s.len() && s[i] == '\r' && s[i + 1] != '\n' ==> strip_line_endings(s.skip(i))
            == seq!['\r'] + strip_line_endings(s.skip(i + 1)),
        i + 1 == s.len() && s[i] == '\r' ==> strip_line_endings(s.skip(i)) == seq!['\r'],
{
    assert(s.skip(i).drop_first() =~= s.skip(i + 1));
    if i + 1 < s.len() {
        assert(s.skip(i + 1).drop_first() =~= s.skip(i + 2));
    } else {
        assert(s.skip(i + 1).len() == 0);
    }
}

/// The text of a file with its line terminators stripped, and its digest.
/// Returns `(digest, contents)`.
pub fn hash_text(text: &str) -> (r: (String, String))
    ensures
        r.1@ == strip_line_endings(text@),
        r.0@ == digest_of(r.1@),
        r.0@.len() == 64,
{
    let mut contents = String::new();
    let mut pending_cr = false;
    assert(text@.skip(0) =~= text@);
    assert(contents@ + strip_line_endings(text@) =~= strip_line_endings(text@));
    for c in it: text.chars()
        invariant
            it.seq() == text@,
            0 <= it.index() <= text@.len(),
            pending_cr ==> it.index() > 0 && text@[it.index() - 1] == '\r',
            strip_line_endings(text@) == contents@ + strip_line_endings(
                if pending_cr {
                    text@.skip(it.index() - 1)
                } else {
                    text@.skip(it.index())
                },
            ),
    {
        let ghost i = it.index();
        let ghost before = contents@;
        proof {
            lemma_strip_step(text@, i);
            if pending_cr {
                lemma_strip_step(text@, i - 1);
            }
        }
        if pending_cr {
            if c == '\n' {
                pending_cr = false;
            } else {
                push_char(&mut contents, '\r');
                if c == '\r' {
                    pending_cr = true;
                    assert(before + (seq!['\r'] + strip_line_endings(text@.skip(i))) =~= contents@
                        + strip_line_endings(text@.skip(i)));
                } else {
                    push_char(&mut contents, c);
                    pending_cr = false;
                    assert(before + (seq!['\r'] + (seq![c] + strip_line_endings(text@.skip(i + 1))))
                        =~= contents@ + strip_line_endings(text@.skip(i + 1)));
                }
            }
        } else if c == '\n' {
        } else if c == '\r' {
            pending_cr = true;
        } else {
            push_char(&mut contents, c);
            assert(before + (seq![c] + strip_line_endings(text@.skip(i + 1))) =~= contents@
                + strip_line_endings(text@.skip(i + 1)));
        }
    }
    if pending_cr {
        let ghost before = contents@;
        push_char(&mut contents, '\r');
        proof {
            lemma_strip_step(text@, text@.len() - 1);
            assert(before + seq!['\r'] =~= contents@);
        }
    } else {
        assert(text@.skip(text@.len() as int).len() == 0);
        assert(contents@ + Seq::<char>::empty() =~= contents@);
    }
    let digest = sha256(contents.as_str().as_bytes());
    (to_hex(digest.as_slice()), contents)
}

/// Name of the per-project cache file for a working directory: the hex
/// digest of the directory's path followed by `.para`.
pub fn cache_file_name(cwd: &str) -> (r: String)
    ensures
        r@ == hex_lower(sha256_of(encode_utf8(cwd@))) + ".para"@,
{
    let digest = sha256(cwd.as_bytes());
    let mut r = to_hex(digest.as_slice());
    push_all(&mut r, ".para");
    r
}

proof fn lemma_strip_is_crlf_then_remove_lf(s: Seq<char>)
    ensures
        strip_line_endings(s) == remove_lf(crlf_to_lf(s)),
    decreases s.len(),
{
    if s.len() > 0 {
        lemma_strip_is_crlf_then_remove_lf(s.drop_first());
        if !(s[0] == '\r' && s.len() > 1 && s[1] == '\n') {
            let t = seq![s[0]] + crlf_to_lf(s.drop_first());
            assert(t.drop_first() =~= crlf_to_lf(s.drop_first()));
        }
    }
}

/// Two texts that differ only in writing line endings as CRLF or LF have the
/// same stripped contents, and so the same digest.
pub proof fn lemma_line_endings_do_not_change_digest(a: Seq<char>, b: Seq<char>)
    requires
        crlf_to_lf(a) == crlf_to_lf(b),
    ensures
        strip_line_endings(a) == strip_line_endings(b),
        digest_of(strip_line_endings(a)) == digest_of(strip_line_endings(b)),
{
    lemma_strip_is_crlf_then_remove_lf(a);
    lemma_strip_is_crlf_then_remove_lf(b);
}

} // verus!

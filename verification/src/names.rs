//! Fixed-capacity, NUL-padded byte buffers and the text they hold.
//!
//! A name or token is stored in an array that is longer than the text; the
//! unused tail is filled with NUL bytes. The text of a buffer is the buffer
//! without its trailing NUL bytes, and two buffers name the same thing when
//! their texts are equal.
use vstd::prelude::*;
use vstd::string::StringSliceAdditionalSpecFns;

verus! {

/// The byte that pads a buffer.
pub const NUL: u8 = 0x00;

/// The byte that separates the command from its argument.
pub const SPACE: u8 = 0x20;

/// The byte that ends a line.
pub const LINE_FEED: u8 = 0x0a;

/// The byte that stands before each name of a path.
pub const SLASH: u8 = 0x2f;

/// The byte with which the name of the parent directory starts.
pub const DOT: u8 = 0x2e;

/// Capacity of a directory or file name.
pub const MAX_SIZE_DIRECTORY_NAME: usize = 10;

/// Capacity of the command token.
pub const COMMAND_SIZE: usize = 10;

/// Capacity of the argument token.
pub const ARGV_SIZE: usize = 70;

/// The bytes of `s` without its trailing NUL bytes.
pub open spec fn trim_nul(s: Seq<u8>) -> Seq<u8>
    decreases s.len(),
{
    if s.len() > 0 && s.last() == 0u8 {
        trim_nul(s.drop_last())
    } else {
        s
    }
}

/// `t` followed by NUL bytes up to the length `n`; cut to `n` bytes where `t` is longer.
pub open spec fn pad_nul(t: Seq<u8>, n: nat) -> Seq<u8> {
    Seq::new(
        n,
        |i: int|
            if i < t.len() {
                t[i]
            } else {
                0u8
            },
    )
}

/// Whether `t` can be the text of a buffer: it does not end in a NUL byte.
pub open spec fn is_text(t: Seq<u8>) -> bool {
    t.len() == 0 || t.last() != 0u8
}

/// The text of a buffer is a prefix of it, is followed by NUL bytes only, and
/// does not end in a NUL byte.
pub proof fn lemma_trim_nul(s: Seq<u8>)
    ensures
        trim_nul(s).len() <= s.len(),
        trim_nul(s) == s.subrange(0, trim_nul(s).len() as int),
        forall|i: int| trim_nul(s).len() <= i < s.len() ==> s[i] == 0u8,
        is_text(trim_nul(s)),
    decreases s.len(),
{
    if s.len() > 0 && s.last() == 0u8 {
        let r = s.drop_last();
        lemma_trim_nul(r);
        let n = trim_nul(r).len() as int;
        assert(r.subrange(0, n) =~= s.subrange(0, n));
        assert forall|i: int| n <= i < s.len() implies s[i] == 0u8 by {
            if i < r.len() {
                assert(r[i] == s[i]);
            }
        }
    } else {
        assert(s =~= s.subrange(0, s.len() as int));
    }
}

/// A prefix of `s` that does not end in NUL and is followed by NUL bytes only
/// is the text of `s`.
pub proof fn lemma_trim_nul_is(s: Seq<u8>, n: int)
    requires
        0 <= n <= s.len(),
        forall|i: int| n <= i < s.len() ==> s[i] == 0u8,
        n == 0 || s[n - 1] != 0u8,
    ensures
        trim_nul(s) == s.subrange(0, n),
    decreases s.len(),
{
    if n == s.len() {
        assert(s =~= s.subrange(0, n));
    } else {
        let r = s.drop_last();
        lemma_trim_nul_is(r, n);
        assert(r.subrange(0, n) =~= s.subrange(0, n));
    }
}

/// Padding a text and trimming it again gives the text back.
pub proof fn lemma_trim_pad(t: Seq<u8>, n: nat)
    requires
        is_text(t),
        t.len() <= n,
    ensures
        trim_nul(pad_nul(t, n)) == t,
{
    let p = pad_nul(t, n);
    lemma_trim_nul_is(p, t.len() as int);
    assert(p.subrange(0, t.len() as int) =~= t);
}

/// Padding adds only what trimming takes away.
pub proof fn lemma_trim_pad_any(t: Seq<u8>, n: nat)
    requires
        t.len() <= n,
    ensures
        trim_nul(pad_nul(t, n)) == trim_nul(t),
{
    lemma_trim_nul(t);
    let m = trim_nul(t).len() as int;
    let p = pad_nul(t, n);
    assert forall|i: int| m <= i < p.len() implies p[i] == NUL by {
        if i < t.len() {
            assert(t[i] == NUL);
        }
    }
    if m > 0 {
        assert(trim_nul(t)[m - 1] == t.subrange(0, m)[m - 1]);
    }
    lemma_trim_nul_is(p, m);
    assert(p.subrange(0, m) =~= t.subrange(0, m));
}

/// Text followed by a buffer: the trailing NUL bytes of the buffer are the
/// trailing NUL bytes of the whole.
pub proof fn lemma_trim_concat(a: Seq<u8>, b: Seq<u8>)
    requires
        a.len() > 0,
        a.last() != NUL,
    ensures
        trim_nul(a + b) == a + trim_nul(b),
    decreases b.len(),
{
    if b.len() == 0 {
        assert(a + b =~= a);
        assert(a + trim_nul(b) =~= a);
    } else if b.last() == NUL {
        assert((a + b).drop_last() =~= a + b.drop_last());
        lemma_trim_concat(a, b.drop_last());
    } else {
        assert((a + b).last() == b.last());
    }
}

/// The length of the text of `bytes`.
pub fn text_len(bytes: &[u8]) -> (n: usize)
    ensures
        n == trim_nul(bytes@).len(),
{
    let mut n: usize = bytes.len();
    assert(bytes@.subrange(0, n as int) =~= bytes@);
    while n > 0 && bytes[n - 1] == NUL
        invariant
            n <= bytes@.len(),
            trim_nul(bytes@) == trim_nul(bytes@.subrange(0, n as int)),
        decreases n,
    {
        proof {
            let cur = bytes@.subrange(0, n as int);
            assert(cur.drop_last() =~= bytes@.subrange(0, n as int - 1));
        }
        n -= 1;
    }
    proof {
        let cur = bytes@.subrange(0, n as int);
        if n == bytes@.len() {
            assert(cur =~= bytes@);
        }
    }
    n
}

/// Whether the buffer `stored` holds the text of `name`.
pub fn holds_text(stored: &[u8], name: &[u8]) -> (same: bool)
    ensures
        same == (trim_nul(stored@) == trim_nul(name@)),
{
    let n = text_len(name);
    let m = text_len(stored);
    proof {
        lemma_trim_nul(stored@);
        lemma_trim_nul(name@);
    }
    if n != m {
        return false;
    }
    let mut i: usize = 0;
    while i < n
        invariant
            i <= n,
            n == m,
            n == trim_nul(name@).len(),
            m == trim_nul(stored@).len(),
            n <= name@.len(),
            m <= stored@.len(),
            trim_nul(stored@) == stored@.subrange(0, m as int),
            trim_nul(name@) == name@.subrange(0, n as int),
            forall|k: int| 0 <= k < i ==> stored@[k] == name@[k],
        decreases n - i,
    {
        if stored[i] != name[i] {
            proof {
                assert(trim_nul(stored@)[i as int] == stored@[i as int]);
                assert(trim_nul(name@)[i as int] == name@[i as int]);
            }
            return false;
        }
        i += 1;
    }
    proof {
        assert(stored@.subrange(0, m as int) =~= name@.subrange(0, n as int));
    }
    true
}

/// Whether the token `arr` holds exactly the bytes of `str_for_compare`.
///
/// The comparison is case-sensitive and looks at the whole token: a token
/// that only starts with the string does not match.
pub fn compare_str_with_arr(str_for_compare: &str, arr: [u8; COMMAND_SIZE]) -> (are_the_same: bool)
    ensures
        are_the_same == (trim_nul(arr@) == str_for_compare.spec_bytes()),
{
    let bytes = str_for_compare.as_bytes();
    let len = bytes.len();
    proof {
        lemma_trim_nul(arr@);
    }
    if len > 0 && bytes[len - 1] == NUL {
        return false;
    }
    proof {
        lemma_trim_nul_is(bytes@, len as int);
        assert(bytes@.subrange(0, len as int) =~= bytes@);
    }
    holds_text(arr.as_slice(), bytes)
}

} // verus!

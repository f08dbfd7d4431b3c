//! Answer normalization and hashing.
//!
//! A submitted answer is trimmed of leading and trailing ASCII whitespace,
//! ASCII-lowercased, and then hashed with SHA-256; only the hash is ever
//! stored, never the answer text.

use vstd::prelude::*;

verus! {

/// ASCII whitespace as recognised by answer normalization: space, tab, LF, CR.
pub open spec fn spec_is_ascii_space(b: u8) -> bool {
    b == 0x20 || b == 0x09 || b == 0x0a || b == 0x0d
}

/// ASCII lowercasing of a single byte: `'A'..='Z'` shift to `'a'..='z'`,
/// every other byte is unchanged.
pub open spec fn spec_lower(b: u8) -> u8 {
    if 0x41 <= b && b <= 0x5a {
        (b + 0x20) as u8
    } else {
        b
    }
}

/// The byte string with its leading ASCII whitespace removed.
pub open spec fn trim_start(s: Seq<u8>) -> Seq<u8>
    decreases s.len(),
{
    if s.len() > 0 && spec_is_ascii_space(s[0]) {
        trim_start(s.drop_first())
    } else {
        s
    }
}

/// The byte string with its trailing ASCII whitespace removed.
pub open spec fn trim_end(s: Seq<u8>) -> Seq<u8>
    decreases s.len(),
{
    if s.len() > 0 && spec_is_ascii_space(s.last()) {
        trim_end(s.drop_last())
    } else {
        s
    }
}

/// Normalized form of an answer: trimmed of surrounding ASCII whitespace and
/// ASCII-lowercased.
pub open spec fn normalize_answer(s: Seq<u8>) -> Seq<u8> {
    trim_end(trim_start(s)).map_values(|b: u8| spec_lower(b))
}

/// An answer is accepted for hashing when it is non-empty, at most 256 bytes
/// long, and not entirely whitespace.
pub open spec fn valid_answer(s: Seq<u8>) -> bool {
    &&& 1 <= s.len() <= 256
    &&& normalize_answer(s).len() > 0
}

/// The SHA-256 digest of a byte string.
pub uninterp spec fn sha256_of(bytes: Seq<u8>) -> Seq<u8>;

/// Relies on sha2::Sha256 through its `Digest::digest` entry point: the digest
/// is a function of the input bytes alone, and is always 32 bytes long.
#[verifier::external_body]
pub(crate) fn sha256(bytes: &Vec<u8>) -> (r: Vec<u8>)
    ensures
        r@ == sha256_of(bytes@),
        r@.len() == 32,
{
    let digest = <sha2::Sha256 as sha2::Digest>::digest(bytes.as_slice());
    let out: &[u8] = digest.as_ref();
    out.to_vec()
}

/// Equivalent answers — byte strings equal after trimming and lowercasing —
/// always hash to the same digest.
pub proof fn lemma_equivalent_answers_hash_equal(a: Seq<u8>, b: Seq<u8>)
    requires
        normalize_answer(a) == normalize_answer(b),
    ensures
        sha256_of(normalize_answer(a)) == sha256_of(normalize_answer(b)),
{
}

proof fn lemma_trim_start_at(s: Seq<u8>, c: int)
    requires
        0 <= c <= s.len(),
        forall|k: int| 0 <= k < c ==> spec_is_ascii_space(#[trigger] s[k]),
        c == s.len() || !spec_is_ascii_space(s[c]),
    ensures
        trim_start(s) == s.subrange(c, s.len() as int),
    decreases c,
{
    if c == 0 {
        if s.len() > 0 && spec_is_ascii_space(s[0]) {
            assert(false);
        } else {
            assert(s.subrange(0, s.len() as int) =~= s);
        }
    } else {
        assert(spec_is_ascii_space(s[0]));
        let t = s.drop_first();
        assert(t =~= s.subrange(1, s.len() as int));
        lemma_trim_start_at(t, c - 1);
        assert(t.subrange(c - 1, t.len() as int) =~= s.subrange(c, s.len() as int));
    }
}

proof fn lemma_trim_end_at(s: Seq<u8>, e: int)
    requires
        0 <= e <= s.len(),
        forall|k: int| e <= k < s.len() ==> spec_is_ascii_space(#[trigger] s[k]),
        e == 0 || !spec_is_ascii_space(s[e - 1]),
    ensures
        trim_end(s) == s.subrange(0, e),
    decreases s.len(),
{
    if e == s.len() {
        if s.len() > 0 && spec_is_ascii_space(s.last()) {
            assert(false);
        } else {
            assert(s.subrange(0, e) =~= s);
        }
    } else {
        assert(spec_is_ascii_space(s.last()));
        let t = s.drop_last();
        assert(t =~= s.subrange(0, s.len() - 1));
        lemma_trim_end_at(t, e);
        assert(t.subrange(0, e) =~= s.subrange(0, e));
    }
}

/// Computes the normalized form of an answer: surrounding ASCII whitespace
/// removed, remaining bytes ASCII-lowercased.
pub fn normalize_bytes(s: &Vec<u8>) -> (r: Vec<u8>)
    ensures
        r@ == normalize_answer(s@),
{
    let n = s.len();
    let mut start: usize = 0;
    while start < n && (s[start] == 0x20 || s[start] == 0x09 || s[start] == 0x0a || s[start]
        == 0x0d)
        invariant
            n == s@.len(),
            0 <= start <= n,
            forall|k: int| 0 <= k < start ==> spec_is_ascii_space(#[trigger] s@[k]),
        decreases n - start,
    {
        start = start + 1;
    }
    let mut end: usize = n;
    while end > start && (s[end - 1] == 0x20 || s[end - 1] == 0x09 || s[end - 1] == 0x0a || s[end
        - 1] == 0x0d)
        invariant
            n == s@.len(),
            0 <= start <= end <= n,
            forall|k: int| 0 <= k < start ==> spec_is_ascii_space(#[trigger] s@[k]),
            forall|k: int| end <= k < n ==> spec_is_ascii_space(#[trigger] s@[k]),
        decreases end,
    {
        end = end - 1;
    }
    proof {
        lemma_trim_start_at(s@, start as int);
        let t = s@.subrange(start as int, n as int);
        if end == start {
            lemma_trim_end_at(t, 0);
        } else {
            lemma_trim_end_at(t, end - start);
        }
        assert(t.subrange(0, end - start) =~= s@.subrange(start as int, end as int));
        assert(trim_end(trim_start(s@)) == s@.subrange(start as int, end as int));
    }
    let mut out: Vec<u8> = Vec::new();
    let mut i: usize = start;
    while i < end
        invariant
            start <= i <= end <= n,
            n == s@.len(),
            out@ =~= s@.subrange(start as int, i as int).map_values(|b: u8| spec_lower(b)),
        decreases end - i,
    {
        let b = s[i];
        let lb: u8 = if 0x41 <= b && b <= 0x5a {
            b + 0x20
        } else {
            b
        };
        out.push(lb);
        proof {
            assert(s@.subrange(start as int, i + 1).map_values(|b: u8| spec_lower(b)) =~= s@
                .subrange(start as int, i as int).map_values(|b: u8| spec_lower(b)).push(
                spec_lower(s@[i as int]),
            ));
        }
        i = i + 1;
    }
    proof {
        assert(out@ =~= normalize_answer(s@));
    }
    out
}

} // verus!

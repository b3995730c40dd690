//! Credential handling: username normalization and validation, password
//! and token digests under a versioned scheme, and the digest
//! verification used at every login.

use vstd::prelude::*;

verus! {

/// Version of the digest scheme a stored credential was produced with.
/// Accounts whose scheme falls behind the latest version can be marked
/// compromised and re-digested on their next successful login.
#[derive(Clone, Copy, PartialEq, Eq, Structural, Debug)]
pub enum HashSchemeVersion {
    V1,
    V2,
}

/// The scheme newly stored credentials are digested with.
pub const LATEST_HASH_SCHEME: HashSchemeVersion = HashSchemeVersion::V2;

impl HashSchemeVersion {
    /// True when this scheme is the latest one.
    pub open spec fn spec_is_latest(self) -> bool {
        self == HashSchemeVersion::V2
    }

    /// Checks whether this scheme is the latest one.
    pub fn is_latest(self) -> (r: bool)
        ensures
            r == self.spec_is_latest(),
    {
        match self {
            HashSchemeVersion::V2 => true,
            HashSchemeVersion::V1 => false,
        }
    }

    /// The seed that this scheme version mixes into the digest, so that
    /// digests under different versions differ.
    pub open spec fn spec_seed(self) -> u64 {
        match self {
            HashSchemeVersion::V1 => 0xcbf29ce484222325u64,
            HashSchemeVersion::V2 => 0xaf63bd4c8601b7dfu64,
        }
    }

    /// Returns the digest seed of this scheme version.
    pub fn seed(self) -> (r: u64)
        ensures
            r == self.spec_seed(),
    {
        match self {
            HashSchemeVersion::V1 => 0xcbf29ce484222325u64,
            HashSchemeVersion::V2 => 0xaf63bd4c8601b7dfu64,
        }
    }
}

/// Multiplier of the digest step.
pub const DIGEST_PRIME: u64 = 0x100000001b3;

/// One digest step: fold the next byte into the accumulator.
pub open spec fn digest_step(h: u64, b: u8) -> u64 {
    vstd::wrapping::u64_specs::wrapping_mul(h ^ (b as u64), DIGEST_PRIME)
}

/// Digest of a byte sequence under a given seed, folding the bytes in
/// from first to last.
pub open spec fn digest_of(bytes: Seq<u8>, seed: u64) -> u64
    decreases bytes.len(),
{
    if bytes.len() == 0 {
        seed
    } else {
        digest_step(digest_of(bytes.drop_last(), seed), bytes.last())
    }
}

/// Computes `digest_of` over the bytes of `v`.
pub fn compute_digest(v: &Vec<u8>, seed: u64) -> (r: u64)
    ensures
        r == digest_of(v@, seed),
{
    let mut h: u64 = seed;
    let mut i: usize = 0;
    while i < v.len()
        invariant
            i <= v@.len(),
            h == digest_of(v@.take(i as int), seed),
        decreases v@.len() - i,
    {
        let b = v[i];
        h = (h ^ (b as u64)).wrapping_mul(DIGEST_PRIME);
        proof {
            assert(v@.take(i + 1 as int).drop_last() =~= v@.take(i as int));
            assert(v@.take(i + 1 as int).last() == b);
        }
        i = i + 1;
    }
    proof {
        assert(v@.take(v@.len() as int) =~= v@);
    }
    h
}

/// Digest of a password under a scheme version. The password's
/// characters enter the digest through their UTF-8 encoding.
pub open spec fn password_digest(password: Seq<char>, scheme: HashSchemeVersion) -> u64 {
    digest_of(vstd::utf8::encode_utf8(password), scheme.spec_seed())
}

/// Computes the stored digest of a password under a scheme version.
pub fn hash_password(password: &str, scheme: HashSchemeVersion) -> (r: u64)
    ensures
        r == password_digest(password@, scheme),
{
    let bytes = password.as_bytes_vec();
    compute_digest(&bytes, scheme.seed())
}

/// Checks a presented password against a stored digest: it matches
/// exactly when the digest of the presented password under the stored
/// scheme equals the stored digest.
pub fn verify_password(password: &str, stored_digest: u64, scheme: HashSchemeVersion) -> (r: bool)
    ensures
        r == (stored_digest == password_digest(password@, scheme)),
{
    let d = hash_password(password, scheme);
    stored_digest == d
}

/// Digest of a login token under a scheme version; only this digest is
/// stored server-side.
pub open spec fn token_digest(token: u128, scheme: HashSchemeVersion) -> u64 {
    vstd::wrapping::u64_specs::wrapping_mul(
        (token as u64) ^ ((token >> 64) as u64) ^ scheme.spec_seed(),
        DIGEST_PRIME,
    )
}

/// Computes the stored digest of a login token.
pub fn hash_token(token: crate::AuthToken, scheme: HashSchemeVersion) -> (r: u64)
    ensures
        r == token_digest(token.0, scheme),
{
    let low = #[verifier::truncate] (token.0 as u64);
    let high = #[verifier::truncate] ((token.0 >> 64) as u64);
    (low ^ high ^ scheme.seed()).wrapping_mul(DIGEST_PRIME)
}

/// True of the ASCII whitespace bytes trimmed from usernames.
pub open spec fn is_ascii_space(b: u8) -> bool {
    b == 32 || b == 9 || b == 10 || b == 13
}

/// ASCII case folding of one byte: uppercase letters map to lowercase,
/// everything else is unchanged.
pub open spec fn fold_byte(b: u8) -> u8 {
    if 65 <= b && b <= 90 {
        (b + 32) as u8
    } else {
        b
    }
}

/// The bytes a normalized username may consist of: lowercase ASCII
/// letters, digits, underscore and hyphen.
pub open spec fn allowed_username_byte(b: u8) -> bool {
    (97 <= b && b <= 122) || (48 <= b && b <= 57) || b == 95 || b == 45
}

/// Number of leading whitespace bytes of `s`.
pub open spec fn leading_spaces(s: Seq<u8>) -> int
    decreases s.len(),
{
    if s.len() == 0 || !is_ascii_space(s[0]) {
        0
    } else {
        1 + leading_spaces(s.drop_first())
    }
}

/// Number of trailing whitespace bytes of `s`.
pub open spec fn trailing_spaces(s: Seq<u8>) -> int
    decreases s.len(),
{
    if s.len() == 0 || !is_ascii_space(s.last()) {
        0
    } else {
        1 + trailing_spaces(s.drop_last())
    }
}

/// `s` with leading and trailing ASCII whitespace removed.
pub open spec fn trimmed(s: Seq<u8>) -> Seq<u8> {
    if leading_spaces(s) == s.len() {
        Seq::empty()
    } else {
        s.subrange(leading_spaces(s), s.len() - trailing_spaces(s))
    }
}

/// `s` with every byte case-folded.
pub open spec fn folded(s: Seq<u8>) -> Seq<u8> {
    s.map_values(|b: u8| fold_byte(b))
}

/// The normalized form of a username given as raw bytes: trimmed, then
/// case-folded.
pub open spec fn normalized_username(s: Seq<u8>) -> Seq<u8> {
    folded(trimmed(s))
}

/// True when a normalized username is acceptable: length within bounds
/// and every byte from the allowed set.
pub open spec fn valid_normalized_username(s: Seq<u8>) -> bool {
    &&& crate::MIN_USERNAME_LENGTH <= s.len()
    &&& s.len() <= crate::MAX_USERNAME_LENGTH
    &&& forall|i: int| 0 <= i < s.len() ==> allowed_username_byte(#[trigger] s[i])
}

/// The username `name` would be stored under, if it is acceptable.
pub open spec fn prepared_username(name: Seq<char>) -> Seq<u8> {
    normalized_username(vstd::utf8::encode_utf8(name))
}

/// The first `leading_spaces(s)` bytes are whitespace, and the byte
/// right after them (if any) is not.
proof fn lemma_leading_spaces(s: Seq<u8>)
    ensures
        0 <= leading_spaces(s) <= s.len(),
        forall|j: int| 0 <= j < leading_spaces(s) ==> is_ascii_space(#[trigger] s[j]),
        leading_spaces(s) < s.len() ==> !is_ascii_space(s[leading_spaces(s)]),
    decreases s.len(),
{
    if s.len() == 0 || !is_ascii_space(s[0]) {
    } else {
        lemma_leading_spaces(s.drop_first());
        assert forall|j: int| 0 <= j < leading_spaces(s) implies is_ascii_space(#[trigger] s[j]) by {
            if j > 0 {
                assert(s.drop_first()[j - 1] == s[j]);
            }
        }
    }
}

/// The last `trailing_spaces(s)` bytes are whitespace, and the byte
/// right before them (if any) is not.
proof fn lemma_trailing_spaces(s: Seq<u8>)
    ensures
        0 <= trailing_spaces(s) <= s.len(),
        forall|j: int| s.len() - trailing_spaces(s) <= j < s.len() ==> is_ascii_space(
            #[trigger] s[j],
        ),
        trailing_spaces(s) < s.len() ==> !is_ascii_space(s[s.len() - trailing_spaces(s) - 1]),
    decreases s.len(),
{
    if s.len() == 0 || !is_ascii_space(s.last()) {
    } else {
        lemma_trailing_spaces(s.drop_last());
        assert forall|j: int| s.len() - trailing_spaces(s) <= j < s.len() implies is_ascii_space(
            #[trigger] s[j],
        ) by {
            if j < s.len() - 1 {
                assert(s.drop_last()[j] == s[j]);
            }
        }
    }
}

/// If some byte of `s` is not whitespace, the whitespace counted from
/// the front and from the back do not overlap.
proof fn lemma_trim_bounds(s: Seq<u8>)
    requires
        leading_spaces(s) < s.len(),
    ensures
        leading_spaces(s) + trailing_spaces(s) < s.len(),
{
    lemma_leading_spaces(s);
    lemma_trailing_spaces(s);
    if leading_spaces(s) + trailing_spaces(s) >= s.len() {
        // the non-space byte at leading_spaces(s) would lie in the
        // trailing whitespace run, a contradiction
        assert(is_ascii_space(s[leading_spaces(s)]));
    }
}

/// An error at username preparation: the name is empty after trimming,
/// too long, or holds a byte outside the allowed set.
#[derive(Clone, Copy, PartialEq, Eq, Structural, Debug)]
pub struct BadUsername;

/// Normalizes a username: trims ASCII whitespace, folds to lowercase,
/// and checks length and the allowed byte set. Returns the bytes the
/// name is stored and compared under.
pub fn prepare_username(name: &str) -> (r: Result<Vec<u8>, BadUsername>)
    ensures
        r is Ok <==> valid_normalized_username(prepared_username(name@)),
        r matches Ok(u) ==> u@ == prepared_username(name@),
{
    let bytes = name.as_bytes_vec();
    let ghost s = bytes@;
    proof {
        assert(s == vstd::utf8::encode_utf8(name@));
        assert(prepared_username(name@) == normalized_username(s));
        lemma_leading_spaces(s);
        lemma_trailing_spaces(s);
    }

    // count leading whitespace
    let mut start: usize = 0;
    loop
        invariant_except_break
            start <= s.len(),
            s == bytes@,
            forall|j: int| 0 <= j < start ==> is_ascii_space(#[trigger] s[j]),
            start <= leading_spaces(s),
        ensures
            s == bytes@,
            start == leading_spaces(s),
        decreases s.len() - start,
    {
        proof {
            lemma_leading_spaces(s);
        }
        if start >= bytes.len() {
            break;
        }
        let b = bytes[start];
        if !(b == 32 || b == 9 || b == 10 || b == 13) {
            proof {
                if start < leading_spaces(s) {
                    assert(is_ascii_space(s[start as int]));
                    assert(false);
                }
            }
            break;
        }
        proof {
            if leading_spaces(s) <= start {
                assert(is_ascii_space(s[leading_spaces(s)]));
                assert(false);
            }
        }
        start = start + 1;
    }

    if start == bytes.len() {
        // all whitespace: the trimmed name is empty, hence too short
        proof {
            assert(trimmed(s) =~= Seq::<u8>::empty());
            assert(normalized_username(s) =~= Seq::<u8>::empty());
        }
        return Err(BadUsername);
    }

    // count trailing whitespace
    let mut end: usize = bytes.len();
    loop
        invariant_except_break
            end <= s.len(),
            s == bytes@,
            forall|j: int| end <= j < s.len() ==> is_ascii_space(#[trigger] s[j]),
            s.len() - end <= trailing_spaces(s),
        ensures
            s == bytes@,
            end == s.len() - trailing_spaces(s),
        decreases end,
    {
        proof {
            lemma_trailing_spaces(s);
        }
        if end == 0 {
            break;
        }
        let b = bytes[end - 1];
        if !(b == 32 || b == 9 || b == 10 || b == 13) {
            proof {
                if end > s.len() - trailing_spaces(s) {
                    assert(is_ascii_space(s[end - 1]));
                    assert(false);
                }
            }
            break;
        }
        proof {
            if s.len() - (end - 1) > trailing_spaces(s) {
                // then the run of trailing whitespace would stop right at
                // the whitespace byte s[end - 1], a contradiction
                assert(trailing_spaces(s) == s.len() - end);
                assert(trailing_spaces(s) < s.len());
                assert(!is_ascii_space(s[s.len() - trailing_spaces(s) - 1]));
                assert(false);
            }
        }
        end = end - 1;
    }
    proof {
        lemma_trailing_spaces(s);
        lemma_trim_bounds(s);
        assert(start < end);
        assert(trimmed(s) =~= s.subrange(start as int, end as int));
    }

    if end - start > crate::MAX_USERNAME_LENGTH {
        proof {
            assert(normalized_username(s).len() == end - start);
        }
        return Err(BadUsername);
    }

    // fold to lowercase and check the allowed byte set
    let mut out: Vec<u8> = Vec::new();
    let mut i: usize = start;
    while i < end
        invariant
            s == bytes@,
            s == vstd::utf8::encode_utf8(name@),
            start <= i <= end <= s.len(),
            start == leading_spaces(s),
            end == s.len() - trailing_spaces(s),
            start < end,
            trimmed(s) =~= s.subrange(start as int, end as int),
            out@ =~= normalized_username(s).take(i - start),
            forall|j: int| 0 <= j < out@.len() ==> allowed_username_byte(#[trigger] out@[j]),
        decreases end - i,
    {
        let b = bytes[i];
        let f = if 65 <= b && b <= 90 {
            b + 32
        } else {
            b
        };
        proof {
            assert(trimmed(s)[i - start] == s[i as int]);
            assert(normalized_username(s)[i - start] == fold_byte(trimmed(s)[i - start]));
            assert(f == fold_byte(s[i as int]));
        }
        let ok = (97 <= f && f <= 122) || (48 <= f && f <= 57) || f == 95 || f == 45;
        if !ok {
            proof {
                assert(normalized_username(s).len() == end - start);
                assert(normalized_username(s)[i - start] == f);
                assert(!allowed_username_byte(normalized_username(s)[i - start]));
            }
            return Err(BadUsername);
        }
        out.push(f);
        proof {
            assert(normalized_username(s)[i - start] == f);
            assert(out@ =~= normalized_username(s).take(i + 1 - start));
        }
        i = i + 1;
    }
    proof {
        assert(out@ =~= normalized_username(s));
    }
    Ok(out)
}

/// Checks one byte for ASCII whitespace.
fn is_space(b: u8) -> (r: bool)
    ensures
        r == is_ascii_space(b),
{
    b == 32 || b == 9 || b == 10 || b == 13
}

/// True when a display name is acceptable: non-empty and within the
/// length bound.
pub open spec fn spec_valid_display_name(name: Seq<char>) -> bool {
    1 <= name.len() <= crate::MAX_USERNAME_LENGTH
}

/// Checks a display name for acceptability.
pub fn valid_display_name(name: &str) -> (r: bool)
    ensures
        r == spec_valid_display_name(name@),
{
    let n = name.unicode_len();
    1 <= n && n <= crate::MAX_USERNAME_LENGTH
}

/// True when a password is acceptable: at least the minimum length.
pub open spec fn spec_valid_password(password: Seq<char>) -> bool {
    password.len() >= crate::MIN_PASSWORD_LENGTH
}

/// Checks a password for acceptability.
pub fn valid_password(password: &str) -> (r: bool)
    ensures
        r == spec_valid_password(password@),
{
    password.unicode_len() >= crate::MIN_PASSWORD_LENGTH
}

} // verus!

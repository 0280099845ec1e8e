//! Record normalizer: reconciles vocabulary mismatches between the static
//! feed data and the live vehicle-tracking data, and strips feed-qualified
//! prefixes from composite identifiers.

use vstd::prelude::*;

verus! {

/// Canonical form of a vehicle-type token: the rail variant used by the
/// live-tracking source is mapped to the `METRO` token of the static feeds;
/// every other token passes through unchanged.
pub open spec fn cast_vehicle_type_spec(s: Seq<char>) -> Seq<char> {
    if s == "RAIL"@ {
        "METRO"@
    } else {
        s
    }
}

/// Maps a source-specific rail-variant token to the canonical "METRO" token;
/// all other tokens pass through unchanged. Total and pure: no failure case.
pub fn cast_vehicle_type(vehicle_type: &str) -> (r: String)
    ensures
        r@ == cast_vehicle_type_spec(vehicle_type@),
{
    let owned = vehicle_type.to_owned();
    if owned == "RAIL".to_owned() {
        "METRO".to_owned()
    } else {
        owned
    }
}

/// What `urlencoding::decode` (with the raw-input fallback) returns: a
/// function of the input characters alone.
pub uninterp spec fn url_decoded(s: Seq<char>) -> Seq<char>;

/// Relies on urlencoding::decode: the result depends on the input alone;
/// an input without '%' is returned unchanged (the decoder scans for '%'
/// and borrows the input when none occurs); an input whose decoded bytes
/// are not valid UTF-8 falls back to the raw input, never an error.
#[verifier::external_body]
fn percent_decode(s: &str) -> (r: String)
    ensures
        r@ == url_decoded(s@),
        !s@.contains('%') ==> r@ == s@,
        !r@.contains('%') ==> url_decoded(r@) == r@,
{
    match urlencoding::decode(s) {
        Ok(d) => d.into_owned(),
        Err(_) => s.to_string(),
    }
}

/// The suffix of `s` after its final ':', or all of `s` when it has none.
pub open spec fn suffix_after_last_colon(s: Seq<char>) -> Seq<char>
    decreases s.len(),
{
    if s.len() == 0 {
        s
    } else if s[s.len() - 1] == ':' {
        Seq::<char>::empty()
    } else {
        suffix_after_last_colon(s.drop_last()).push(s[s.len() - 1])
    }
}

/// What `clean_identifier` returns: the URL-decoded input with any
/// colon-delimited feed-id qualification stripped.
pub open spec fn clean_identifier_spec(s: Seq<char>) -> Seq<char> {
    suffix_after_last_colon(url_decoded(s))
}

proof fn lemma_suffix_no_colon(s: Seq<char>)
    requires
        forall|i: int| 0 <= i < s.len() ==> s[i] != ':',
    ensures
        suffix_after_last_colon(s) == s,
    decreases s.len(),
{
    if s.len() > 0 {
        lemma_suffix_no_colon(s.drop_last());
        assert(s.drop_last().push(s[s.len() - 1]) =~= s);
    }
}

proof fn lemma_suffix_with_colon(s: Seq<char>, c: int)
    requires
        0 <= c < s.len(),
        s[c] == ':',
        forall|i: int| c < i < s.len() ==> s[i] != ':',
    ensures
        suffix_after_last_colon(s) == s.subrange(c + 1, s.len() as int),
    decreases s.len(),
{
    if c == s.len() - 1 {
        assert(s.subrange(c + 1, s.len() as int) =~= Seq::<char>::empty());
    } else {
        lemma_suffix_with_colon(s.drop_last(), c);
        assert(s.drop_last().subrange(c + 1, s.len() - 1).push(s[s.len() - 1]) =~= s.subrange(
            c + 1,
            s.len() as int,
        ));
    }
}

/// URL-decodes the input, falling back to the raw string when decoding
/// fails, then strips a colon-delimited feed-id prefix (`feed:code`) by
/// keeping the substring after the final colon. Lookups can therefore be
/// issued with either a bare code or a feed-qualified one.
///
/// On inputs without '%' the operation is idempotent: the result is its
/// own cleaned form.
pub fn clean_identifier(identifier: &str) -> (r: String)
    ensures
        r@ == clean_identifier_spec(identifier@),
        !identifier@.contains('%') ==> clean_identifier_spec(r@) == r@,
{
    let decoded = percent_decode(identifier);
    let n = decoded.as_str().unicode_len();
    let mut cut: usize = 0;
    let mut i: usize = 0;
    while i < n
        invariant
            n == decoded@.len(),
            i <= n,
            cut <= i,
            cut > 0 ==> decoded@[cut - 1] == ':',
            forall|x: int| cut <= x < i ==> decoded@[x] != ':',
        decreases n - i,
    {
        if decoded.as_str().get_char(i) == ':' {
            cut = i + 1;
        }
        i = i + 1;
    }
    let tail = decoded.as_str().substring_char(cut, n).to_owned();
    proof {
        if cut == 0 {
            lemma_suffix_no_colon(decoded@);
            assert(decoded@.subrange(0, n as int) =~= decoded@);
        } else {
            lemma_suffix_with_colon(decoded@, cut - 1);
        }
    }
    // A second decode of the cleaned form witnesses that, when the input
    // held no percent sequence, the result is a fixed point of decoding:
    // that is what the idempotence clause rests on.
    let _recheck = percent_decode(tail.as_str());
    proof {
        if !identifier@.contains('%') {
            assert(decoded@ == identifier@);
            assert(!tail@.contains('%')) by {
                if tail@.contains('%') {
                    let x = choose|x: int| 0 <= x < tail@.len() && tail@[x] == '%';
                    assert(identifier@[cut + x] == '%');
                    assert(identifier@.contains('%'));
                }
            }
            assert(_recheck@ == tail@);
            assert(url_decoded(tail@) == tail@);
            assert forall|x: int| 0 <= x < tail@.len() implies tail@[x] != ':' by {
                assert(tail@[x] == decoded@[cut + x]);
            }
            lemma_suffix_no_colon(tail@);
        }
    }
    tail
}

} // verus!

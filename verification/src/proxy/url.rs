//! Base URLs of providers.

use vstd::prelude::*;

use crate::scan;

verus! {

/// The base URL without the slashes that it ends in.
pub open spec fn without_slashes(s: Seq<char>) -> Seq<char> {
    scan::without_suffixes(s, "/"@)
}

/// The base URL without slashes and without versions at its end. Slashes may come to light
/// where a version was.
pub open spec fn without_version(s: Seq<char>) -> Seq<char> {
    scan::without_suffixes(without_slashes(s), "/v1"@)
}

/// The base URL in the form to which the path of an endpoint is added.
pub open spec fn normalized(s: Seq<char>) -> Seq<char> {
    without_slashes(without_version(s))
}

/// The base URL without trailing slashes and without a trailing `/v1`, so that a path
/// which begins with `/v1` can be added.
pub fn normalize_base_url(base_url: &str) -> (out: String)
    ensures
        out@ == normalized(base_url@),
{
    let bare = scan::strip_suffixes(base_url, "/");
    let unversioned = scan::strip_suffixes(bare.as_str(), "/v1");
    scan::strip_suffixes(unversioned.as_str(), "/")
}

proof fn lemma_no_suffix_left(s: Seq<char>, suffix: Seq<char>)
    requires
        suffix.len() > 0,
    ensures
        !suffix.is_suffix_of(scan::without_suffixes(s, suffix)),
    decreases s.len(),
{
    if suffix.is_suffix_of(s) {
        lemma_no_suffix_left(s.take(s.len() - suffix.len()), suffix);
    }
}

/// A run of slashes.
pub open spec fn slashes(n: nat) -> Seq<char> {
    Seq::new(n, |i: int| '/')
}

/// A text with a version and slashes at its end.
pub open spec fn versioned(x: Seq<char>, n: nat) -> Seq<char> {
    x + "/v1"@ + slashes(n)
}

proof fn lemma_slashes_come_off(s: Seq<char>) -> (n: nat)
    ensures
        s == without_slashes(s) + slashes(n),
    decreases s.len(),
{
    reveal_strlit("/");
    if "/"@.is_suffix_of(s) {
        let rest = s.take(s.len() - 1);
        let m = lemma_slashes_come_off(rest);
        assert(s.subrange(s.len() - 1, s.len() as int)[0] == '/');
        assert(s =~= rest.push('/'));
        assert(without_slashes(s) == without_slashes(rest));
        assert(s =~= without_slashes(s) + slashes(m + 1));
        m + 1
    } else {
        assert(s =~= without_slashes(s) + slashes(0));
        0
    }
}

/// A normalized URL does not end in a slash.
pub proof fn no_slash_is_left(s: Seq<char>)
    ensures
        !"/"@.is_suffix_of(normalized(s)),
{
    reveal_strlit("/");
    lemma_no_suffix_left(without_version(s), "/"@);
}

/// A normalized URL does not end in a version, and to normalize it again changes nothing,
/// unless one version stands ahead of the slashes in front of another.
pub proof fn no_version_is_left(s: Seq<char>)
    requires
        forall|x: Seq<char>, n: nat| n > 0 ==> without_version(s) != #[trigger] versioned(x, n),
    ensures
        !"/v1"@.is_suffix_of(normalized(s)),
        normalized(normalized(s)) == normalized(s),
{
    reveal_strlit("/");
    reveal_strlit("/v1");
    let b = without_version(s);
    let c = normalized(s);
    lemma_no_suffix_left(without_slashes(s), "/v1"@);
    let n = lemma_slashes_come_off(b);
    assert(b == c + slashes(n));
    if "/v1"@.is_suffix_of(c) {
        let x = c.take(c.len() - 3);
        assert(c =~= x + "/v1"@) by {
            assert(c.subrange(c.len() - 3, c.len() as int) =~= "/v1"@);
        }
        if n == 0 {
            assert(b =~= c);
        } else {
            assert(b == versioned(x, n));
        }
        assert(false);
    }
    no_slash_is_left(s);
    assert(without_slashes(c) == c);
    assert(without_version(c) == c);
}

/// An address that ends in neither a slash nor a version stays as it is, and slashes and a
/// version behind it are taken away.
pub proof fn addresses_lose_slash_and_version(s: Seq<char>)
    requires
        !"/"@.is_suffix_of(s),
        !"/v1"@.is_suffix_of(s),
    ensures
        normalized(s) == s,
        normalized(s + "/"@) == s,
        normalized(s + "/v1"@) == s,
        normalized(s + "/v1/"@) == s,
{
    reveal_strlit("/");
    reveal_strlit("/v1");
    reveal_strlit("/v1/");
    let slash = s + "/"@;
    let version = s + "/v1"@;
    let both = s + "/v1/"@;
    assert(without_slashes(s) == s);
    assert(scan::without_suffixes(s, "/v1"@) == s);
    lemma_suffix_goes(s, "/"@);
    lemma_suffix_goes(s, "/v1"@);
    assert(both =~= version + "/"@);
    lemma_suffix_goes(version, "/"@);
    assert(!"/"@.is_suffix_of(version)) by {
        if "/"@.is_suffix_of(version) {
            assert(version.subrange(version.len() - 1, version.len() as int)[0] == version.last());
            assert(version.last() == '1');
        }
    }
    assert(without_slashes(version) == version);
}

proof fn lemma_suffix_goes(s: Seq<char>, suffix: Seq<char>)
    requires
        suffix.len() > 0,
    ensures
        scan::without_suffixes(s + suffix, suffix) == scan::without_suffixes(s, suffix),
{
    let all = s + suffix;
    assert(all.subrange(all.len() - suffix.len(), all.len() as int) =~= suffix);
    assert(all.take(all.len() - suffix.len()) =~= s);
}

} // verus!

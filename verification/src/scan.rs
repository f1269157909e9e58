//! Searching, splitting and trimming texts.

use vstd::prelude::*;

use crate::text;

verus! {

/// A character that counts as white space in Unicode.
pub open spec fn is_space(c: char) -> bool {
    let u = c as u32;
    ||| 0x09 <= u <= 0x0D
    ||| u == 0x20
    ||| u == 0x85
    ||| u == 0xA0
    ||| u == 0x1680
    ||| 0x2000 <= u <= 0x200A
    ||| u == 0x2028
    ||| u == 0x2029
    ||| u == 0x202F
    ||| u == 0x205F
    ||| u == 0x3000
}

/// Whether a character counts as white space in Unicode.
pub fn is_white(c: char) -> (b: bool)
    ensures
        b == is_space(c),
{
    let u: u32 = c as u32;
    (0x09 <= u && u <= 0x0D) || u == 0x20 || u == 0x85 || u == 0xA0 || u == 0x1680 || (0x2000 <= u
        && u <= 0x200A) || u == 0x2028 || u == 0x2029 || u == 0x202F || u == 0x205F || u == 0x3000
}

/// The text without the white space that it begins with.
pub open spec fn trimmed_start(s: Seq<char>) -> Seq<char>
    decreases s.len(),
{
    if s.len() > 0 && is_space(s[0]) {
        trimmed_start(s.drop_first())
    } else {
        s
    }
}

/// The text without the white space that it ends in.
pub open spec fn trimmed_end(s: Seq<char>) -> Seq<char>
    decreases s.len(),
{
    if s.len() > 0 && is_space(s.last()) {
        trimmed_end(s.drop_last())
    } else {
        s
    }
}

/// The text without the white space around it.
pub open spec fn trimmed(s: Seq<char>) -> Seq<char> {
    trimmed_end(trimmed_start(s))
}

/// All characters are white space.
pub open spec fn is_blank(s: Seq<char>) -> bool {
    forall|i: int| 0 <= i < s.len() ==> is_space(#[trigger] s[i])
}

proof fn lemma_trimmed_start(s: Seq<char>, i: int)
    requires
        0 <= i <= s.len(),
        forall|j: int| 0 <= j < i ==> is_space(#[trigger] s[j]),
        i < s.len() ==> !is_space(s[i]),
    ensures
        trimmed_start(s) == s.skip(i),
    decreases i,
{
    if i == 0 {
        assert(s.skip(0) =~= s);
    } else {
        assert(is_space(s[0]));
        let rest = s.drop_first();
        assert forall|j: int| 0 <= j < i - 1 implies is_space(#[trigger] rest[j]) by {
            assert(rest[j] == s[j + 1]);
        }
        lemma_trimmed_start(rest, i - 1);
        assert(rest.skip(i - 1) =~= s.skip(i));
    }
}

proof fn lemma_trimmed_end(s: Seq<char>, i: int)
    requires
        0 <= i <= s.len(),
        forall|j: int| i <= j < s.len() ==> is_space(#[trigger] s[j]),
        i > 0 ==> !is_space(s[i - 1]),
    ensures
        trimmed_end(s) == s.take(i),
    decreases s.len(),
{
    if i == s.len() {
        assert(s.take(i) =~= s);
    } else {
        assert(is_space(s.last()));
        lemma_trimmed_end(s.drop_last(), i);
        assert(s.drop_last().take(i) =~= s.take(i));
    }
}

/// A text is blank where nothing of it is left once it is trimmed.
pub proof fn blank_is_trimmed_to_nothing(s: Seq<char>)
    ensures
        is_blank(s) <==> trimmed(s).len() == 0,
        is_blank(s) <==> trimmed_start(s).len() == 0,
{
    if is_blank(s) {
        lemma_trimmed_start(s, s.len() as int);
        lemma_trimmed_end(trimmed_start(s), 0);
    } else {
        let p = |c: char| !is_space(c);
        if crate::seqs::first_where(s, p) is None {
            assert forall|i: int| 0 <= i < s.len() implies is_space(#[trigger] s[i]) by {
                crate::seqs::lemma_no_first_where(s, p, i);
            }
        }
        let i = crate::seqs::first_where(s, p)->0;
        assert(crate::seqs::is_first_where(s, p, i));
        assert forall|j: int| 0 <= j < i implies is_space(#[trigger] s[j]) by {
            assert(!p(s[j]));
        }
        lemma_trimmed_start(s, i);
        let t = trimmed_start(s);
        assert(t[0] == s[i]);
        lemma_trimmed_end_keeps(t);
    }
}

proof fn lemma_trimmed_end_keeps(s: Seq<char>)
    requires
        s.len() > 0,
        !is_space(s[0]),
    ensures
        trimmed_end(s).len() > 0,
    decreases s.len(),
{
    if is_space(s.last()) {
        lemma_trimmed_end_keeps(s.drop_last());
    }
}

/// Trimming a trimmed text changes nothing.
pub proof fn trimming_twice_is_trimming_once(s: Seq<char>)
    ensures
        trimmed(trimmed(s)) == trimmed(s),
{
    let a = trimmed_start(s);
    lemma_start_of_trimmed(s);
    lemma_end_of_trimmed(a);
    let t = trimmed_end(a);
    assert(trimmed_start(t) == t);
    assert(trimmed_end(t) == t);
}

proof fn lemma_start_of_trimmed(s: Seq<char>)
    ensures
        trimmed_start(s).len() > 0 ==> !is_space(trimmed_start(s)[0]),
    decreases s.len(),
{
    if s.len() > 0 && is_space(s[0]) {
        lemma_start_of_trimmed(s.drop_first());
    }
}

proof fn lemma_end_of_trimmed(s: Seq<char>)
    ensures
        trimmed_end(s).len() > 0 ==> !is_space(trimmed_end(s).last()) && trimmed_end(s)[0] == s[0],
    decreases s.len(),
{
    if s.len() > 0 && is_space(s.last()) {
        lemma_end_of_trimmed(s.drop_last());
    }
}

/// The text without the white space around it.
pub fn trim(s: &str) -> (out: String)
    ensures
        out@ == trimmed(s@),
{
    let all = text::chars_of(s);
    let mut from: usize = 0;
    while from < all.len() && is_white(all[from])
        invariant
            0 <= from <= all@.len(),
            all@ == s@,
            forall|j: int| 0 <= j < from ==> is_space(#[trigger] s@[j]),
        decreases all@.len() - from,
    {
        from += 1;
    }
    proof {
        lemma_trimmed_start(s@, from as int);
    }
    let ghost rest = s@.skip(from as int);
    let mut to: usize = all.len();
    while to > from && is_white(all[to - 1])
        invariant
            from <= to <= all@.len(),
            all@ == s@,
            rest == s@.skip(from as int),
            forall|j: int| to - from <= j < rest.len() ==> is_space(#[trigger] rest[j]),
        decreases to,
    {
        assert(rest[to - 1 - from] == s@[to - 1]);
        to -= 1;
    }
    proof {
        if to > from {
            assert(rest[to - 1 - from] == s@[to - 1]);
        }
        lemma_trimmed_end(rest, to - from);
        assert(rest.take(to - from) =~= s@.subrange(from as int, to as int));
    }
    text::string_of(all.as_slice(), from, to)
}

/// The text without the white space that it begins with.
pub fn trim_start(s: &str) -> (out: String)
    ensures
        out@ == trimmed_start(s@),
{
    let all = text::chars_of(s);
    let mut from: usize = 0;
    while from < all.len() && is_white(all[from])
        invariant
            0 <= from <= all@.len(),
            all@ == s@,
            forall|j: int| 0 <= j < from ==> is_space(#[trigger] s@[j]),
        decreases all@.len() - from,
    {
        from += 1;
    }
    proof {
        lemma_trimmed_start(s@, from as int);
        assert(s@.skip(from as int) =~= s@.subrange(from as int, s@.len() as int));
    }
    text::string_of(all.as_slice(), from, all.len())
}

/// Whether nothing but white space is in a text.
pub fn blank(s: &str) -> (b: bool)
    ensures
        b == is_blank(s@),
        b == (trimmed(s@).len() == 0),
{
    proof {
        blank_is_trimmed_to_nothing(s@);
    }
    let all = text::chars_of(s);
    let mut i: usize = 0;
    while i < all.len()
        invariant
            0 <= i <= all@.len(),
            all@ == s@,
            is_blank(s@) <==> trimmed(s@).len() == 0,
            forall|j: int| 0 <= j < i ==> is_space(#[trigger] s@[j]),
        decreases all@.len() - i,
    {
        if !is_white(all[i]) {
            assert(!is_space(s@[i as int]));
            return false;
        }
        i += 1;
    }
    true
}

/// The text without the copies of `suffix` that it ends in.
pub open spec fn without_suffixes(s: Seq<char>, suffix: Seq<char>) -> Seq<char>
    decreases s.len(),
{
    if suffix.len() > 0 && suffix.is_suffix_of(s) {
        without_suffixes(s.take(s.len() - suffix.len()), suffix)
    } else {
        s
    }
}

/// Whether `all[..to]` ends in `suffix`.
fn ends_in(all: &Vec<char>, to: usize, suffix: &Vec<char>) -> (b: bool)
    requires
        to <= all@.len(),
    ensures
        b == suffix@.is_suffix_of(all@.take(to as int)),
{
    if suffix.len() > to {
        return false;
    }
    let from: usize = to - suffix.len();
    let ghost s = all@.take(to as int);
    let mut i: usize = 0;
    while i < suffix.len()
        invariant
            0 <= i <= suffix@.len(),
            from + suffix@.len() == to <= all@.len(),
            s == all@.take(to as int),
            forall|j: int| 0 <= j < i ==> #[trigger] suffix@[j] == all@[from + j],
        decreases suffix@.len() - i,
    {
        if suffix[i] != all[from + i] {
            assert(s.subrange(s.len() - suffix@.len(), s.len() as int)[i as int] != suffix@[i as int]);
            return false;
        }
        i += 1;
    }
    assert(s.subrange(s.len() - suffix@.len(), s.len() as int) =~= suffix@);
    true
}

/// The text without the copies of `suffix` that it ends in.
pub fn strip_suffixes(s: &str, suffix: &str) -> (out: String)
    ensures
        out@ == without_suffixes(s@, suffix@),
{
    let all = text::chars_of(s);
    let end = text::chars_of(suffix);
    if end.len() == 0 {
        return s.to_owned();
    }
    let mut to: usize = all.len();
    assert(s@.take(to as int) =~= s@);
    while ends_in(&all, to, &end)
        invariant
            to <= all@.len(),
            all@ == s@,
            end@ == suffix@,
            suffix@.len() > 0,
            without_suffixes(s@, suffix@) == without_suffixes(s@.take(to as int), suffix@),
        decreases to,
    {
        assert(s@.take(to as int).take(to - suffix@.len()) =~= s@.take(to - suffix@.len()));
        to = to - end.len();
    }
    assert(s@.subrange(0, to as int) =~= s@.take(to as int));
    text::string_of(all.as_slice(), 0, to)
}

/// `pat` stands in `s` at `i`.
pub open spec fn stands_at(s: Seq<char>, pat: Seq<char>, i: int) -> bool {
    0 <= i && i + pat.len() <= s.len() && s.subrange(i, i + pat.len()) == pat
}

/// `pat` stands in `s` at `i` and not ahead of it.
pub open spec fn stands_first_at(s: Seq<char>, pat: Seq<char>, i: int) -> bool {
    stands_at(s, pat, i) && forall|j: int| 0 <= j < i ==> !#[trigger] stands_at(s, pat, j)
}

/// Where `pat` stands first in `s`.
pub open spec fn place_of(s: Seq<char>, pat: Seq<char>) -> Option<int> {
    if exists|i: int| stands_first_at(s, pat, i) {
        Some(choose|i: int| stands_first_at(s, pat, i))
    } else {
        None
    }
}

/// `pat` stands somewhere in `s`.
pub open spec fn occurs(s: Seq<char>, pat: Seq<char>) -> bool {
    exists|i: int| stands_at(s, pat, i)
}

/// There is one first place.
pub proof fn lemma_place(s: Seq<char>, pat: Seq<char>, i: int)
    requires
        stands_first_at(s, pat, i),
    ensures
        place_of(s, pat) == Some(i),
{
    let c = choose|c: int| stands_first_at(s, pat, c);
    assert(stands_first_at(s, pat, c));
    if c < i {
        assert(!stands_at(s, pat, c));
    }
    if i < c {
        assert(!stands_at(s, pat, i));
    }
}

/// A text has a first place in another where it occurs there.
pub proof fn lemma_occurs(s: Seq<char>, pat: Seq<char>)
    ensures
        occurs(s, pat) <==> place_of(s, pat) is Some,
{
    if occurs(s, pat) {
        let i = choose|i: int| stands_at(s, pat, i);
        lemma_some_first(s, pat, i);
    }
    if place_of(s, pat) is Some {
        let i = choose|i: int| stands_first_at(s, pat, i);
        assert(stands_at(s, pat, i));
    }
}

proof fn lemma_some_first(s: Seq<char>, pat: Seq<char>, i: int)
    requires
        stands_at(s, pat, i),
    ensures
        exists|j: int| stands_first_at(s, pat, j),
    decreases i,
{
    if forall|j: int| 0 <= j < i ==> !#[trigger] stands_at(s, pat, j) {
        assert(stands_first_at(s, pat, i));
    } else {
        let j = choose|j: int| 0 <= j < i && #[trigger] stands_at(s, pat, j);
        lemma_some_first(s, pat, j);
    }
}

/// Whether `pat` stands in `all` at `at`.
fn is_at(all: &[char], pat: &[char], at: usize) -> (b: bool)
    requires
        at + pat@.len() <= all@.len(),
    ensures
        b == stands_at(all@, pat@, at as int),
{
    let ghost part = all@.subrange(at as int, at + pat@.len());
    let n: usize = all.len();
    let mut i: usize = 0;
    while i < pat.len()
        invariant
            0 <= i <= pat@.len(),
            at + pat@.len() <= all@.len() == n,
            part == all@.subrange(at as int, at + pat@.len()),
            forall|j: int| 0 <= j < i ==> #[trigger] pat@[j] == part[j],
        decreases pat@.len() - i,
    {
        if pat[i] != all[at + i] {
            assert(part[i as int] != pat@[i as int]);
            return false;
        }
        i += 1;
    }
    assert(part =~= pat@);
    true
}

/// Where `pat` stands first.
pub fn find_chars(all: &[char], pat: &[char]) -> (at: Option<usize>)
    ensures
        match at {
            Some(i) => place_of(all@, pat@) == Some(i as int) && i + pat@.len() <= all@.len(),
            None => place_of(all@, pat@) is None && !occurs(all@, pat@),
        },
{
    let mut i: usize = 0;
    while i <= all.len() && pat.len() <= all.len() - i
        invariant
            0 <= i <= all@.len() + 1,
            forall|j: int| 0 <= j < i ==> !#[trigger] stands_at(all@, pat@, j),
        decreases all@.len() + 1 - i,
    {
        if is_at(all, pat, i) {
            proof {
                assert(stands_first_at(all@, pat@, i as int));
                lemma_place(all@, pat@, i as int);
            }
            return Some(i);
        }
        if i == all.len() {
            assert forall|j: int| !stands_at(all@, pat@, j) by {}
            proof {
                lemma_occurs(all@, pat@);
            }
            return None;
        }
        i += 1;
    }
    proof {
        assert forall|j: int| !stands_at(all@, pat@, j) by {}
        lemma_occurs(all@, pat@);
    }
    None
}

/// Whether `pat` stands somewhere in `s`.
pub fn contains_str(s: &str, pat: &str) -> (b: bool)
    ensures
        b == occurs(s@, pat@),
{
    let all = text::chars_of(s);
    let part = text::chars_of(pat);
    proof {
        lemma_occurs(s@, pat@);
    }
    find_chars(all.as_slice(), part.as_slice()).is_some()
}

/// The text ahead of the first `pat` and the text behind it.
pub open spec fn cut_at(s: Seq<char>, pat: Seq<char>) -> Option<(Seq<char>, Seq<char>)> {
    match place_of(s, pat) {
        Some(i) => Some((s.take(i), s.skip(i + pat.len()))),
        None => None,
    }
}

/// What a pair of texts says.
pub open spec fn pair_view(p: Option<(String, String)>) -> Option<(Seq<char>, Seq<char>)> {
    match p {
        Some((a, b)) => Some((a@, b@)),
        None => None,
    }
}

/// The text ahead of the first `pat` and the text behind it.
pub fn split_once(s: &str, pat: &str) -> (parts: Option<(String, String)>)
    ensures
        pair_view(parts) == cut_at(s@, pat@),
{
    let all = text::chars_of(s);
    let part = text::chars_of(pat);
    match find_chars(all.as_slice(), part.as_slice()) {
        Some(i) => {
            let n: usize = all.len();
            assert(i + pat@.len() <= n);
            let head = text::string_of(all.as_slice(), 0, i);
            let tail = text::string_of(all.as_slice(), i + part.len(), n);
            assert(head@ =~= s@.take(i as int));
            assert(tail@ =~= s@.skip(i + pat@.len()));
            Some((head, tail))
        },
        None => None,
    }
}

/// The parts of a text between the copies of a character.
pub open spec fn parts(s: Seq<char>, sep: char) -> Seq<Seq<char>>
    decreases s.len(),
{
    if s.len() == 0 {
        seq![seq![]]
    } else {
        let before = parts(s.drop_last(), sep);
        if s.last() == sep {
            before.push(seq![])
        } else {
            before.drop_last().push(before.last().push(s.last()))
        }
    }
}

/// There is at least one part.
pub proof fn lemma_parts(s: Seq<char>, sep: char)
    ensures
        parts(s, sep).len() >= 1,
    decreases s.len(),
{
    if s.len() > 0 {
        lemma_parts(s.drop_last(), sep);
    }
}

/// The parts of a text between the copies of a character.
pub fn split(s: &str, sep: char) -> (list: Vec<String>)
    ensures
        text::views(list@) == parts(s@, sep),
{
    let all = text::chars_of(s);
    let mut list: Vec<String> = Vec::new();
    let mut current = String::new();
    let mut i: usize = 0;
    assert(s@.take(0) =~= seq![]);
    while i < all.len()
        invariant
            0 <= i <= all@.len(),
            all@ == s@,
            text::views(list@).push(current@) =~= parts(s@.take(i as int), sep),
        decreases all@.len() - i,
    {
        let ghost before = text::views(list@).push(current@);
        proof {
            assert(s@.take(i + 1).drop_last() =~= s@.take(i as int));
            assert(before.drop_last() =~= text::views(list@));
            assert(before.last() == current@);
        }
        if all[i] == sep {
            let ghost was = list@;
            list.push(current);
            current = String::new();
            assert(text::views(list@) =~= before);
        } else {
            current.push(all[i]);
        }
        i += 1;
    }
    let ghost done = text::views(list@);
    list.push(current);
    assert(text::views(list@) =~= done.push(current@));
    assert(s@.take(i as int) =~= s@);
    list
}

/// What stands between two texts occurs in the whole.
pub proof fn lemma_part_occurs(pre: Seq<char>, pat: Seq<char>, post: Seq<char>)
    ensures
        occurs(pre + pat + post, pat),
{
    let all = pre + pat + post;
    assert(all.subrange(pre.len() as int, (pre.len() + pat.len()) as int) =~= pat);
    assert(stands_at(all, pat, pre.len() as int));
}

/// What occurs in a part occurs in the whole.
pub proof fn lemma_occurs_within(pre: Seq<char>, part: Seq<char>, post: Seq<char>, pat: Seq<char>)
    requires
        occurs(part, pat),
    ensures
        occurs(pre + part + post, pat),
{
    let i = choose|i: int| stands_at(part, pat, i);
    let all = pre + part + post;
    let at = pre.len() + i;
    assert(all.subrange(at, at + pat.len()) =~= part.subrange(i, i + pat.len()));
    assert(stands_at(all, pat, at));
}

/// What occurs in a text occurs in every text that it begins, and the end of a text occurs in
/// it.
pub proof fn lemma_occurs_ahead(s: Seq<char>, post: Seq<char>, pat: Seq<char>)
    ensures
        occurs(s, pat) ==> occurs(s + post, pat),
        occurs(s + post, post),
{
    let none = Seq::<char>::empty();
    if occurs(s, pat) {
        lemma_occurs_within(none, s, post, pat);
        assert(none + s + post =~= s + post);
    }
    lemma_part_occurs(s, post, none);
    assert(s + post + none =~= s + post);
}

/// White space ahead of a text that begins with none is what is trimmed from it.
pub proof fn lemma_blank_is_trimmed(space: Seq<char>, rest: Seq<char>)
    requires
        is_blank(space),
        rest.len() > 0 ==> !is_space(rest[0]),
    ensures
        trimmed_start(space + rest) == rest,
    decreases space.len(),
{
    let all = space + rest;
    if space.len() > 0 {
        assert(all.drop_first() =~= space.drop_first() + rest);
        assert forall|i: int| 0 <= i < space.drop_first().len() implies is_space(
            #[trigger] space.drop_first()[i],
        ) by {
            assert(space.drop_first()[i] == space[i + 1]);
        }
        assert(is_space(space[0]));
        lemma_blank_is_trimmed(space.drop_first(), rest);
    } else {
        assert(all =~= rest);
    }
}

/// Trimming takes away white space and nothing else: what is left stands in the text with
/// white space around it, and begins and ends with none.
pub proof fn trimming_takes_white_space(s: Seq<char>)
    ensures
        exists|i: int, j: int|
            0 <= i <= j <= s.len() && trimmed(s) == #[trigger] s.subrange(i, j) && is_blank(
                s.take(i),
            ) && is_blank(s.skip(j)),
        trimmed(s).len() > 0 ==> !is_space(trimmed(s)[0]) && !is_space(trimmed(s).last()),
{
    let t = trimmed_start(s);
    let u = trimmed_end(t);
    lemma_start_is_blank(s);
    lemma_end_is_blank(t);
    let i = s.len() - t.len();
    let j = i + u.len();
    assert(u =~= s.subrange(i, j));
    assert(s.skip(j) =~= t.skip(u.len() as int));
    if u.len() > 0 {
        assert(u[0] == t[0]);
    }
}

proof fn lemma_start_is_blank(s: Seq<char>)
    ensures
        trimmed_start(s).len() <= s.len(),
        trimmed_start(s) == s.skip(s.len() - trimmed_start(s).len()),
        is_blank(s.take(s.len() - trimmed_start(s).len())),
        trimmed_start(s).len() > 0 ==> !is_space(trimmed_start(s)[0]),
    decreases s.len(),
{
    let t = trimmed_start(s);
    if s.len() > 0 && is_space(s[0]) {
        let rest = s.drop_first();
        lemma_start_is_blank(rest);
        assert(t =~= s.skip(s.len() - t.len()));
        let ahead = s.take(s.len() - t.len());
        assert forall|i: int| 0 <= i < ahead.len() implies is_space(#[trigger] ahead[i]) by {
            if i > 0 {
                assert(ahead[i] == rest.take(rest.len() - t.len())[i - 1]);
            }
        }
    } else {
        assert(s.skip(0) =~= s);
        assert(is_blank(s.take(0)));
    }
}

proof fn lemma_end_is_blank(s: Seq<char>)
    ensures
        trimmed_end(s).len() <= s.len(),
        trimmed_end(s) == s.take(trimmed_end(s).len() as int),
        is_blank(s.skip(trimmed_end(s).len() as int)),
        trimmed_end(s).len() > 0 ==> !is_space(trimmed_end(s).last()),
    decreases s.len(),
{
    let t = trimmed_end(s);
    if s.len() > 0 && is_space(s.last()) {
        let rest = s.drop_last();
        lemma_end_is_blank(rest);
        assert(t =~= s.take(t.len() as int));
        let behind = s.skip(t.len() as int);
        assert forall|i: int| 0 <= i < behind.len() implies is_space(#[trigger] behind[i]) by {
            if i < behind.len() - 1 {
                assert(behind[i] == rest.skip(t.len() as int)[i]);
            } else {
                assert(behind[i] == s.last());
            }
        }
    } else {
        assert(s.take(s.len() as int) =~= s);
        assert(is_blank(s.skip(s.len() as int)));
    }
}

/// The parts of a text are what stands between the separators: put together with the separator
/// between them they are the text again, and no part holds one.
pub proof fn parts_make_up_the_text(s: Seq<char>, sep: char)
    ensures
        text::joined(parts(s, sep), seq![sep]) == s,
        parts(s, sep).len() > 0,
        forall|i: int, k: int|
            0 <= i < parts(s, sep).len() && 0 <= k < (#[trigger] parts(s, sep)[i]).len() ==> (
            #[trigger] parts(s, sep)[i][k]) != sep,
    decreases s.len(),
{
    let all = parts(s, sep);
    let one = seq![sep];
    if s.len() == 0 {
        assert(all =~= seq![seq![]]);
        assert(text::joined(all, one) =~= s);
    } else {
        let rest = s.drop_last();
        let before = parts(rest, sep);
        parts_make_up_the_text(rest, sep);
        if s.last() == sep {
            assert(all.drop_last() =~= before);
            assert(text::joined(all, one) =~= rest + one + Seq::<char>::empty());
            assert(s =~= rest.push(sep));
            assert forall|i: int, k: int|
                0 <= i < all.len() && 0 <= k < (#[trigger] all[i]).len() implies (
            #[trigger] all[i][k]) != sep by {
                assert(all[i] == before[i]);
            }
        } else {
            let ahead = before.drop_last();
            let last = before.last().push(s.last());
            assert(all =~= ahead.push(last));
            assert(all.drop_last() =~= ahead);
            if before.len() == 1 {
                assert(text::joined(before, one) == before[0]);
                assert(text::joined(all, one) == last);
            } else {
                assert(text::joined(before, one) == text::joined(ahead, one) + one
                    + before.last());
                assert(text::joined(all, one) == text::joined(ahead, one) + one + last);
            }
            assert(text::joined(all, one) =~= rest.push(s.last()));
            assert(s =~= rest.push(s.last()));
            assert forall|i: int, k: int|
                0 <= i < all.len() && 0 <= k < (#[trigger] all[i]).len() implies (
            #[trigger] all[i][k]) != sep by {
                if i < ahead.len() {
                    assert(all[i] == before[i]);
                } else if k < before.last().len() {
                    assert(all[i][k] == before[before.len() - 1][k]);
                }
            }
        }
    }
}

/// A text is cut at the first place of the pattern: the two parts and the pattern between them
/// make the text up, and the pattern stands nowhere ahead. Where it does not occur there is
/// nothing to cut.
pub proof fn texts_are_cut_at_the_first_place(s: Seq<char>, pat: Seq<char>)
    ensures
        cut_at(s, pat) matches Some((a, b)) ==> s == a + pat + b && forall|j: int|
            0 <= j < a.len() ==> !#[trigger] stands_at(s, pat, j),
        cut_at(s, pat) is None <==> !occurs(s, pat),
{
    if cut_at(s, pat) is Some {
        let i = place_of(s, pat)->0;
        assert(stands_first_at(s, pat, i));
        assert(s =~= s.take(i) + pat + s.skip(i + pat.len())) by {
            assert(s.subrange(i, i + pat.len()) == pat);
            assert forall|k: int| i <= k < i + pat.len() implies s[k] == pat[k - i] by {
                assert(s.subrange(i, i + pat.len())[k - i] == s[k]);
            }
        }
        assert(occurs(s, pat));
    } else if occurs(s, pat) {
        let i = choose|i: int| stands_at(s, pat, i);
        lemma_some_first(s, pat, i);
    }
}

/// What stands behind the last separator is the last part, and the parts ahead are those of
/// the text ahead; a text without the separator is one part.
pub proof fn the_last_part_stands_behind(a: Seq<char>, b: Seq<char>, sep: char)
    requires
        !b.contains(sep),
    ensures
        parts(a.push(sep) + b, sep) == parts(a, sep).push(b),
        parts(b, sep) == seq![b],
    decreases b.len(),
{
    let all = a.push(sep) + b;
    if b.len() == 0 {
        assert(b =~= Seq::<char>::empty());
        assert(all =~= a.push(sep));
        assert(all.drop_last() =~= a);
        assert(parts(all, sep) =~= parts(a, sep).push(b));
        assert(parts(b, sep) =~= seq![b]);
    } else {
        let rest = b.drop_last();
        assert forall|i: int| 0 <= i < rest.len() implies rest[i] != sep by {
            assert(rest[i] == b[i]);
            assert(b.contains(b[i]));
        }
        assert(b.contains(b.last()));
        the_last_part_stands_behind(a, rest, sep);
        assert(all.drop_last() =~= a.push(sep) + rest);
        assert(all.last() == b.last());
        let before = parts(a, sep);
        assert(before.push(rest).drop_last() =~= before);
        assert(rest.push(b.last()) =~= b);
        assert(parts(all, sep) =~= before.push(b));
        assert(seq![rest].drop_last().push(rest.push(b.last())) =~= seq![b]);
    }
}

} // verus!

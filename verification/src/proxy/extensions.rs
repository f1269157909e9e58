//! File extensions that are mentioned in messages.

use vstd::prelude::*;

use crate::proxy::message::{texts_of_parts, texts, ChatMessage, MessageContent};
use crate::text;

verus! {

/// A path and, as its first group, the extension of the file.
pub const EXTENSION_PATTERN_SOURCE: &'static str = r"[A-Za-z0-9_/\\.-]{1,256}\.([A-Za-z0-9]{1,10})\b";

/// The bytes of text that are looked at per request.
pub const EXTENSION_SCAN_BUDGET_BYTES: usize = 65536;

/// The number of different extensions that are returned per request.
pub const EXTENSION_UNIQUE_CAP: usize = 32;

/// A compiled regular expression.
#[verifier::external_type_specification]
#[verifier::external_body]
pub struct ExRegex(regex::Regex);

/// The pattern that a regular expression was compiled from.
pub uninterp spec fn pattern_of(re: regex::Regex) -> Seq<char>;

/// The pattern is a regular expression that the `regex` crate compiles.
pub uninterp spec fn compiles(pattern: Seq<char>) -> bool;

/// The first group of each match of a pattern in a text, where the group takes part.
pub uninterp spec fn first_groups(pattern: Seq<char>, text: Seq<char>) -> Seq<Option<Seq<char>>>;

/// `regex::Regex::new`. Which patterns compile is left to the name; a compiled expression
/// is that of its pattern.
#[verifier::external_body]
fn compile(pattern: &str) -> (r: Option<regex::Regex>)
    ensures
        r is Some == compiles(pattern@),
        r matches Some(re) ==> pattern_of(re) == pattern@,
{
    regex::Regex::new(pattern).ok()
}

/// `regex::Regex::captures_iter`, and of each match its group `1` as a string. Which
/// matches there are is left to the name.
#[verifier::external_body]
fn groups(re: &regex::Regex, text: &str) -> (out: Vec<Option<String>>)
    ensures
        group_views(out@) == first_groups(pattern_of(*re), text@),
{
    re.captures_iter(text).map(|c| c.get(1).map(|m| m.as_str().to_owned())).collect()
}

/// What a list of groups says.
pub open spec fn group_views(groups: Seq<Option<String>>) -> Seq<Option<Seq<char>>> {
    Seq::new(groups.len(), |i: int| text::opt_view(groups[i]))
}

/// The compiled pattern, unless it is not a regular expression.
pub fn compile_extension_pattern(pattern: &str) -> (r: Option<regex::Regex>)
    ensures
        r is Some == compiles(pattern@),
        r matches Some(re) ==> pattern_of(re) == pattern@,
{
    compile(pattern)
}

/// How far a scan has come: the bytes that may still be looked at, and the extensions
/// found.
#[verifier::ext_equal]
pub struct ScanView {
    pub remaining: nat,
    pub found: Seq<Seq<char>>,
}

/// The scan ends here.
pub open spec fn exhausted(scan: ScanView) -> bool {
    scan.remaining == 0 || scan.found.len() >= EXTENSION_UNIQUE_CAP
}

/// The extensions with one more, in small letters, unless it is known or there are enough.
pub open spec fn with_extension(found: Seq<Seq<char>>, ext: Option<Seq<char>>) -> Seq<Seq<char>> {
    match ext {
        Some(ext) => if found.len() >= EXTENSION_UNIQUE_CAP || found.contains(
            text::lowered(ext),
        ) {
            found
        } else {
            found.push(text::lowered(ext))
        },
        None => found,
    }
}

/// The extensions with those of the first `n` groups.
pub open spec fn with_groups(
    found: Seq<Seq<char>>,
    groups: Seq<Option<Seq<char>>>,
    n: int,
) -> Seq<Seq<char>>
    decreases n,
{
    if n <= 0 {
        found
    } else {
        with_extension(with_groups(found, groups, n - 1), groups[n - 1])
    }
}

/// The scan of one more text. No more of it is looked at than the budget allows.
pub open spec fn scanned(scan: ScanView, pattern: Seq<char>, t: Seq<char>) -> ScanView {
    if exhausted(scan) {
        scan
    } else {
        let slice = text::clipped(t, scan.remaining);
        let groups = first_groups(pattern, slice);
        ScanView {
            remaining: (scan.remaining - text::utf8_len(slice)) as nat,
            found: with_groups(scan.found, groups, groups.len() as int),
        }
    }
}

/// The scan of the first `n` of some texts.
pub open spec fn scanned_texts(
    scan: ScanView,
    pattern: Seq<char>,
    list: Seq<Seq<char>>,
    n: int,
) -> ScanView
    decreases n,
{
    if n <= 0 {
        scan
    } else {
        scanned(scanned_texts(scan, pattern, list, n - 1), pattern, list[n - 1])
    }
}

/// The scan of the first `n` messages.
pub open spec fn scanned_messages(
    pattern: Seq<char>,
    messages: Seq<ChatMessage>,
    n: int,
) -> ScanView
    decreases n,
{
    if n <= 0 {
        ScanView { remaining: EXTENSION_SCAN_BUDGET_BYTES as nat, found: seq![] }
    } else {
        let list = texts(messages[n - 1].content);
        scanned_texts(
            scanned_messages(pattern, messages, n - 1),
            pattern,
            list,
            list.len() as int,
        )
    }
}

/// The extensions that a pattern finds in messages.
pub open spec fn extensions_in(pattern: Seq<char>, messages: Seq<ChatMessage>) -> Seq<Seq<char>> {
    scanned_messages(pattern, messages, messages.len() as int).found
}

/// How far a scan has come.
struct Scan {
    remaining: usize,
    found: Vec<String>,
}

impl View for Scan {
    type V = ScanView;

    closed spec fn view(&self) -> ScanView {
        ScanView { remaining: self.remaining as nat, found: text::views(self.found@) }
    }
}

proof fn lemma_exhausted_stays(
    scan: ScanView,
    pattern: Seq<char>,
    list: Seq<Seq<char>>,
    from: int,
    n: int,
)
    requires
        0 <= from <= n,
        exhausted(scanned_texts(scan, pattern, list, from)),
    ensures
        scanned_texts(scan, pattern, list, n) == scanned_texts(scan, pattern, list, from),
    decreases n,
{
    if from < n {
        lemma_exhausted_stays(scan, pattern, list, from, n - 1);
    }
}

proof fn lemma_full_stays(found: Seq<Seq<char>>, groups: Seq<Option<Seq<char>>>, from: int, n: int)
    requires
        0 <= from <= n,
        with_groups(found, groups, from).len() >= EXTENSION_UNIQUE_CAP,
    ensures
        with_groups(found, groups, n) == with_groups(found, groups, from),
    decreases n,
{
    if from < n {
        lemma_full_stays(found, groups, from, n - 1);
    }
}

/// Adds an extension, in small letters, unless it is known or there are enough.
fn add_extension(found: &mut Vec<String>, ext: &Option<String>)
    ensures
        text::views(final(found)@) == with_extension(
            text::views(old(found)@),
            text::opt_view(*ext),
        ),
{
    let ghost before = text::views(found@);
    if let Some(ext) = ext {
        if found.len() < EXTENSION_UNIQUE_CAP {
            let small = text::to_lowercase(ext.as_str());
            if !text::contains(found, small.as_str()) {
                found.push(small);
                assert(text::views(found@) =~= before.push(small@));
            }
        }
    }
}

/// Adds the extensions that a text was found to mention, in small letters, each once, and
/// no more than the cap allows.
pub fn collect_extensions(found: &mut Vec<String>, groups: &Vec<Option<String>>)
    ensures
        text::views(final(found)@) == with_groups(
            text::views(old(found)@),
            group_views(groups@),
            groups@.len() as int,
        ),
{
    let ghost before = text::views(found@);
    let ghost v = group_views(groups@);
    let mut i: usize = 0;
    while i < groups.len()
        invariant
            0 <= i <= groups@.len(),
            v == group_views(groups@),
            before == text::views(old(found)@),
            text::views(found@) == with_groups(before, v, i as int),
        decreases groups@.len() - i,
    {
        if found.len() >= EXTENSION_UNIQUE_CAP {
            proof {
                lemma_full_stays(before, v, i as int, groups@.len() as int);
            }
            return;
        }
        add_extension(found, &groups[i]);
        i += 1;
    }
}

impl Scan {
    /// Scans one more text.
    fn scan_slice(&mut self, re: &regex::Regex, t: &str)
        ensures
            final(self)@ == scanned(old(self)@, pattern_of(*re), t@),
    {
        if self.remaining == 0 || self.found.len() >= EXTENSION_UNIQUE_CAP {
            return;
        }
        let ghost before = self@;
        let slice = text::clip(t, self.remaining);
        proof {
            text::lemma_clip_fits(t@, self.remaining as nat);
        }
        self.remaining = self.remaining - text::byte_len(slice.as_str());
        let list = groups(re, slice.as_str());
        collect_extensions(&mut self.found, &list);
        assert(self@ =~= scanned(before, pattern_of(*re), t@));
    }

    /// Scans texts, one after the other.
    fn scan_texts(&mut self, re: &regex::Regex, list: &Vec<String>)
        ensures
            final(self)@ == scanned_texts(
                old(self)@,
                pattern_of(*re),
                text::views(list@),
                list@.len() as int,
            ),
    {
        let ghost v = text::views(list@);
        let mut i: usize = 0;
        while i < list.len()
            invariant
                0 <= i <= list@.len(),
                v == text::views(list@),
                self@ == scanned_texts(old(self)@, pattern_of(*re), v, i as int),
            decreases list@.len() - i,
        {
            if self.remaining == 0 || self.found.len() >= EXTENSION_UNIQUE_CAP {
                proof {
                    lemma_exhausted_stays(
                        old(self)@,
                        pattern_of(*re),
                        v,
                        i as int,
                        list@.len() as int,
                    );
                }
                return;
            }
            self.scan_slice(re, list[i].as_str());
            i += 1;
        }
    }
}

/// The extensions that the expression finds in the messages.
pub fn extensions_by(re: &regex::Regex, messages: &Vec<ChatMessage>) -> (out: Vec<String>)
    ensures
        text::views(out@) == extensions_in(pattern_of(*re), messages@),
{
    let ghost pattern = pattern_of(*re);
    let mut scan = Scan { remaining: EXTENSION_SCAN_BUDGET_BYTES, found: Vec::new() };
    let mut i: usize = 0;
    assert(scan@ =~= scanned_messages(pattern, messages@, 0));
    while i < messages.len()
        invariant
            0 <= i <= messages@.len(),
            pattern == pattern_of(*re),
            scan@ == scanned_messages(pattern, messages@, i as int),
        decreases messages@.len() - i,
    {
        match &messages[i].content {
            MessageContent::Text(t) => {
                let ghost list = seq![t@];
                let ghost before = scan@;
                scan.scan_slice(re, t.as_str());
                proof {
                    reveal_with_fuel(scanned_texts, 2);
                    assert(list[0] == t@);
                    assert(texts(messages@[i as int].content) =~= list);
                    assert(scan@ == scanned_texts(before, pattern, list, 1));
                }
            },
            MessageContent::Parts(parts) => {
                let list = texts_of_parts(parts);
                scan.scan_texts(re, &list);
            },
        }
        i += 1;
    }
    scan.found
}

/// The extensions of the files that the messages mention, in small letters and each once,
/// in the order in which they come up. The text that is looked at and the number of
/// extensions are bounded.
pub fn extract_extensions_from_messages(messages: &Vec<ChatMessage>) -> (out: Vec<String>)
    ensures
        text::views(out@) == (if compiles(EXTENSION_PATTERN_SOURCE@) {
            extensions_in(EXTENSION_PATTERN_SOURCE@, messages@)
        } else {
            Seq::<Seq<char>>::empty()
        }),
{
    match compile_extension_pattern(EXTENSION_PATTERN_SOURCE) {
        Some(re) => extensions_by(&re, messages),
        None => {
            let out: Vec<String> = Vec::new();
            assert(text::views(out@) =~= Seq::<Seq<char>>::empty());
            out
        },
    }
}

/// There are no more extensions than the cap allows, and each stands once.
pub open spec fn within_bounds(scan: ScanView) -> bool {
    &&& scan.remaining <= EXTENSION_SCAN_BUDGET_BYTES
    &&& scan.found.len() <= EXTENSION_UNIQUE_CAP
    &&& scan.found.no_duplicates()
}

proof fn lemma_groups_within_bounds(
    found: Seq<Seq<char>>,
    groups: Seq<Option<Seq<char>>>,
    n: int,
)
    requires
        0 <= n <= groups.len(),
        found.len() <= EXTENSION_UNIQUE_CAP,
        found.no_duplicates(),
    ensures
        with_groups(found, groups, n).len() <= EXTENSION_UNIQUE_CAP,
        with_groups(found, groups, n).no_duplicates(),
    decreases n,
{
    if n > 0 {
        lemma_groups_within_bounds(found, groups, n - 1);
    }
}

proof fn lemma_texts_within_bounds(
    scan: ScanView,
    pattern: Seq<char>,
    list: Seq<Seq<char>>,
    n: int,
)
    requires
        0 <= n <= list.len(),
        within_bounds(scan),
    ensures
        within_bounds(scanned_texts(scan, pattern, list, n)),
    decreases n,
{
    if n > 0 {
        lemma_texts_within_bounds(scan, pattern, list, n - 1);
        let before = scanned_texts(scan, pattern, list, n - 1);
        if !exhausted(before) {
            let slice = text::clipped(list[n - 1], before.remaining);
            text::lemma_clip_fits(list[n - 1], before.remaining);
            let groups = first_groups(pattern, slice);
            lemma_groups_within_bounds(before.found, groups, groups.len() as int);
        }
    }
}

/// Whatever the messages hold, no more than the budget of bytes is looked at, and the
/// extensions are few and all different.
pub proof fn scans_are_bounded(pattern: Seq<char>, messages: Seq<ChatMessage>, n: int)
    requires
        0 <= n <= messages.len(),
    ensures
        within_bounds(scanned_messages(pattern, messages, n)),
    decreases n,
{
    if n > 0 {
        scans_are_bounded(pattern, messages, n - 1);
        let list = texts(messages[n - 1].content);
        lemma_texts_within_bounds(
            scanned_messages(pattern, messages, n - 1),
            pattern,
            list,
            list.len() as int,
        );
    }
}

/// What is found stays found, and of one more extension that is mentioned the small letters
/// are found too, unless as many as are returned were found before.
pub proof fn a_mention_is_found(found: Seq<Seq<char>>, ext: Seq<char>)
    ensures
        found.is_prefix_of(with_extension(found, Some(ext))),
        found.len() < 32 ==> with_extension(found, Some(ext)).contains(text::lowered(ext)),
        found.len() >= 32 ==> with_extension(found, Some(ext)) == found,
        with_extension(found, None) == found,
        forall|x: Seq<char>| #[trigger]
            with_extension(found, Some(ext)).contains(x) ==> found.contains(x) || x
                == text::lowered(ext),
{
    let now = with_extension(found, Some(ext));
    assert(now.subrange(0, found.len() as int) =~= found);
    if found.len() < 32 && !found.contains(text::lowered(ext)) {
        assert(now[found.len() as int] == text::lowered(ext));
        assert forall|x: Seq<char>| #[trigger] now.contains(x) implies found.contains(x) || x
            == text::lowered(ext) by {
            let i = choose|i: int| 0 <= i < now.len() && now[i] == x;
            if i < found.len() {
                assert(found[i] == x);
            }
        }
    }
}

proof fn lemma_prefix_of_prefix(a: Seq<Seq<char>>, b: Seq<Seq<char>>, c: Seq<Seq<char>>)
    requires
        a.is_prefix_of(b),
        b.is_prefix_of(c),
    ensures
        a.is_prefix_of(c),
        forall|x: Seq<char>| #[trigger] a.contains(x) ==> c.contains(x),
{
    assert(a =~= c.subrange(0, a.len() as int)) by {
        assert forall|i: int| 0 <= i < a.len() implies a[i] == c[i] by {
            assert(b.subrange(0, a.len() as int)[i] == b[i]);
            assert(c.subrange(0, b.len() as int)[i] == c[i]);
        }
    }
    assert forall|x: Seq<char>| #[trigger] a.contains(x) implies c.contains(x) by {
        let i = choose|i: int| 0 <= i < a.len() && a[i] == x;
        assert(c.subrange(0, a.len() as int)[i] == c[i]);
    }
}

/// Every extension among the groups is found, in small letters, and nothing that is neither
/// there nor among what was found before.
pub proof fn every_group_is_found(
    found: Seq<Seq<char>>,
    groups: Seq<Option<Seq<char>>>,
    n: int,
    k: int,
)
    requires
        0 <= k < n <= groups.len(),
    ensures
        found.is_prefix_of(with_groups(found, groups, n)),
        groups[k] matches Some(ext) ==> with_groups(found, groups, n).contains(text::lowered(ext))
            || with_groups(found, groups, n).len() >= 32,
        forall|x: Seq<char>| #[trigger]
            with_groups(found, groups, n).contains(x) ==> found.contains(x) || exists|j: int|
                0 <= j < n && (#[trigger] groups[j]) is Some && x == text::lowered(groups[j]->0),
    decreases n,
{
    let before = with_groups(found, groups, n - 1);
    let now = with_groups(found, groups, n);
    assert(found.subrange(0, found.len() as int) =~= found);
    if let Some(ext) = groups[n - 1] {
        a_mention_is_found(before, ext);
    } else {
        assert(before.subrange(0, before.len() as int) =~= before);
    }
    if n - 1 > 0 {
        every_group_is_found(found, groups, n - 1, if k < n - 1 {
            k
        } else {
            0
        });
    }
    lemma_prefix_of_prefix(found, before, now);
    lemma_prefix_of_prefix(before, now, now);
    assert(now.len() >= before.len());
    assert forall|x: Seq<char>| #[trigger] now.contains(x) implies found.contains(x) || exists|
        j: int,
    |
        0 <= j < n && (#[trigger] groups[j]) is Some && x == text::lowered(groups[j]->0) by {
        if !before.contains(x) {
            assert(groups[n - 1] is Some && x == text::lowered(groups[n - 1]->0));
        } else if n - 1 > 0 && !found.contains(x) {
            let j = choose|j: int|
                0 <= j < n - 1 && (#[trigger] groups[j]) is Some && x == text::lowered(
                    groups[j]->0,
                );
            assert(groups[j] is Some);
        }
    }
}

proof fn lemma_scan_keeps(scan: ScanView, pattern: Seq<char>, t: Seq<char>)
    ensures
        scan.found.is_prefix_of(scanned(scan, pattern, t).found),
{
    assert(scan.found.subrange(0, scan.found.len() as int) =~= scan.found);
    if !exhausted(scan) {
        let groups = first_groups(pattern, text::clipped(t, scan.remaining));
        if groups.len() > 0 {
            every_group_is_found(scan.found, groups, groups.len() as int, 0);
        }
    }
}

proof fn lemma_texts_keep(scan: ScanView, pattern: Seq<char>, list: Seq<Seq<char>>, n: int)
    ensures
        scan.found.is_prefix_of(scanned_texts(scan, pattern, list, n).found),
    decreases n,
{
    assert(scan.found.subrange(0, scan.found.len() as int) =~= scan.found);
    if n > 0 {
        let before = scanned_texts(scan, pattern, list, n - 1);
        lemma_texts_keep(scan, pattern, list, n - 1);
        lemma_scan_keeps(before, pattern, list[n - 1]);
        lemma_prefix_of_prefix(scan.found, before.found, scanned_texts(scan, pattern, list, n).found);
    }
}

/// What was found in the earlier messages stays found, ahead of what the later ones add.
pub proof fn later_messages_add_only(pattern: Seq<char>, messages: Seq<ChatMessage>, m: int, n: int)
    requires
        0 <= m <= n <= messages.len(),
    ensures
        scanned_messages(pattern, messages, m).found.is_prefix_of(
            scanned_messages(pattern, messages, n).found,
        ),
    decreases n,
{
    let a = scanned_messages(pattern, messages, m).found;
    assert(a.subrange(0, a.len() as int) =~= a);
    if m < n {
        later_messages_add_only(pattern, messages, m, n - 1);
        let before = scanned_messages(pattern, messages, n - 1);
        let list = texts(messages[n - 1].content);
        lemma_texts_keep(before, pattern, list, list.len() as int);
        lemma_prefix_of_prefix(a, before.found, scanned_messages(pattern, messages, n).found);
    }
}

/// Every file that a message mentions counts while the budget lasts: where a text of the
/// message fits into what is left to be looked at, each extension in it is found, or as many
/// as are returned are.
pub proof fn every_message_is_looked_at(
    pattern: Seq<char>,
    messages: Seq<ChatMessage>,
    i: int,
    t: String,
    k: int,
)
    requires
        0 <= i < messages.len(),
        messages[i].content == MessageContent::Text(t),
        text::utf8_len(t@) <= scanned_messages(pattern, messages, i).remaining,
        scanned_messages(pattern, messages, i).remaining > 0,
        0 <= k < first_groups(pattern, t@).len(),
        first_groups(pattern, t@)[k] is Some,
    ensures
        extensions_in(pattern, messages).contains(text::lowered(first_groups(pattern, t@)[k]->0))
            || extensions_in(pattern, messages).len() >= 32,
{
    let n = messages.len() as int;
    let before = scanned_messages(pattern, messages, i);
    let after = scanned_messages(pattern, messages, i + 1);
    let groups = first_groups(pattern, t@);
    later_messages_add_only(pattern, messages, i, n);
    later_messages_add_only(pattern, messages, i + 1, n);
    let all = extensions_in(pattern, messages);
    lemma_prefix_of_prefix(before.found, all, all);
    lemma_prefix_of_prefix(after.found, all, all);
    if !exhausted(before) {
        reveal_with_fuel(scanned_texts, 2);
        assert(texts(messages[i].content) =~= seq![t@]);
        assert(t@.take(t@.len() as int) =~= t@);
        text::lemma_clipped(t@, before.remaining, t@.len() as int);
        every_group_is_found(before.found, groups, groups.len() as int, k);
        assert(after.found == with_groups(before.found, groups, groups.len() as int));
    }
}

/// A request is looked at from its first message on, with the whole budget before it.
pub proof fn the_budget_is_for_the_whole_request(pattern: Seq<char>, messages: Seq<ChatMessage>)
    ensures
        scanned_messages(pattern, messages, 0).remaining == 65536,
        scanned_messages(pattern, messages, 0).found.len() == 0,
{
}

/// A scan goes on while there is text left to look at and room for one more extension, and no
/// longer.
pub proof fn scans_end_at_their_bounds(scan: ScanView)
    ensures
        scan.remaining == 0 ==> exhausted(scan),
        scan.found.len() >= 32 ==> exhausted(scan),
        scan.remaining > 0 && scan.found.len() < 32 ==> !exhausted(scan),
{
}

} // verus!

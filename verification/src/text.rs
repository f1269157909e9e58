//! Texts as sequences of characters: building, comparing and measuring them.

use vstd::prelude::*;

use crate::seqs;
use vstd::std_specs::iter::IteratorSpec;

verus! {

/// The characters of a list of strings.
pub open spec fn views(items: Seq<String>) -> Seq<Seq<char>> {
    Seq::new(items.len(), |i: int| items[i]@)
}

/// `String::push`: the character stands behind those that were there, which stay.
pub assume_specification[ String::push ](s: &mut String, ch: char)
    ensures
        final(s)@ == old(s)@.push(ch),
;

/// The characters of `s`, in order.
pub fn chars_of(s: &str) -> (out: Vec<char>)
    ensures
        out@ == s@,
{
    let mut out: Vec<char> = Vec::new();
    for c in iter: s.chars()
        invariant
            iter.seq() == s@,
            out@ == s@.take(iter.index()),
    {
        out.push(c);
    }
    assert(s@.take(s@.len() as int) =~= s@);
    out
}

/// The string made of `chars[from..to]`.
pub fn string_of(chars: &[char], from: usize, to: usize) -> (out: String)
    requires
        from <= to <= chars@.len(),
    ensures
        out@ == chars@.subrange(from as int, to as int),
{
    let mut out = String::new();
    let mut i: usize = from;
    while i < to
        invariant
            from <= i <= to <= chars@.len(),
            out@ == chars@.subrange(from as int, i as int),
        decreases to - i,
    {
        out.push(chars[i]);
        i += 1;
        assert(chars@.subrange(from as int, i as int) =~= chars@.subrange(from as int, i - 1).push(chars@[i - 1]));
    }
    out
}

/// Whether two strings hold the same characters.
pub fn str_eq(a: &str, b: &str) -> (same: bool)
    ensures
        same == (a@ == b@),
{
    let mut x = a.chars();
    let mut y = b.chars();
    let ghost mut i: int = 0;
    loop
        invariant
            0 <= i <= a@.len(),
            i <= b@.len(),
            a@.take(i) == b@.take(i),
            x.remaining() == a@.skip(i),
            y.remaining() == b@.skip(i),
        decreases a@.len() - i,
    {
        match (x.next(), y.next()) {
            (None, None) => {
                assert(a@.take(i) =~= a@);
                assert(b@.take(i) =~= b@);
                return true;
            }
            (Some(c), Some(d)) => {
                if c != d {
                    assert(a@[i] != b@[i]);
                    return false;
                }
                proof {
                    i = i + 1;
                }
            }
            _ => {
                return false;
            }
        }
    }
}

/// The decimal digit `d`.
pub open spec fn digit(d: nat) -> char {
    (48 + d) as char
}

/// `n` written in decimal, without leading zeros.
pub open spec fn decimal(n: nat) -> Seq<char>
    decreases n,
{
    if n < 10 {
        seq![digit(n)]
    } else {
        decimal(n / 10).push(digit(n % 10))
    }
}

fn digit_char(d: u64) -> (c: char)
    requires
        d < 10,
    ensures
        c == digit(d as nat),
{
    match d {
        0 => '0',
        1 => '1',
        2 => '2',
        3 => '3',
        4 => '4',
        5 => '5',
        6 => '6',
        7 => '7',
        8 => '8',
        _ => '9',
    }
}

/// Appends `n` in decimal.
pub fn push_decimal(out: &mut String, n: u64)
    ensures
        final(out)@ == old(out)@ + decimal(n as nat),
    decreases n,
{
    if n >= 10 {
        push_decimal(out, n / 10);
    }
    out.push(digit_char(n % 10));
    assert(out@ =~= old(out)@ + decimal(n as nat));
}

/// `n` written in decimal.
pub fn decimal_string(n: u64) -> (out: String)
    ensures
        out@ == decimal(n as nat),
{
    let mut out = String::new();
    push_decimal(&mut out, n);
    assert(out@ =~= decimal(n as nat));
    out
}

/// Distinct numbers are written differently.
pub proof fn lemma_decimal_injective(a: nat, b: nat)
    requires
        decimal(a) == decimal(b),
    ensures
        a == b,
    decreases a,
{
    assert(decimal(a).last() == digit(a % 10));
    assert(decimal(b).last() == digit(b % 10));
    assert(a % 10 == b % 10);
    lemma_decimal_len(a);
    lemma_decimal_len(b);
    if a >= 10 {
        assert(decimal(a).drop_last() =~= decimal(a / 10));
        assert(decimal(b).drop_last() =~= decimal(b / 10));
        lemma_decimal_injective(a / 10, b / 10);
    }
}

proof fn lemma_decimal_len(n: nat)
    ensures
        decimal(n).len() >= 1,
        n >= 10 ==> decimal(n).len() >= 2,
        n < 10 ==> decimal(n).len() == 1,
    decreases n,
{
    if n >= 10 {
        lemma_decimal_len(n / 10);
    }
}

/// `items` with `sep` between neighbours.
pub open spec fn joined(items: Seq<Seq<char>>, sep: Seq<char>) -> Seq<char>
    decreases items.len(),
{
    if items.len() == 0 {
        seq![]
    } else if items.len() == 1 {
        items[0]
    } else {
        joined(items.drop_last(), sep) + sep + items.last()
    }
}

/// `items` with `sep` between neighbours.
pub fn join(items: &Vec<String>, sep: &str) -> (out: String)
    ensures
        out@ == joined(views(items@), sep@),
{
    let mut out = String::new();
    let mut i: usize = 0;
    while i < items.len()
        invariant
            0 <= i <= items@.len(),
            out@ == joined(views(items@).take(i as int), sep@),
        decreases items@.len() - i,
    {
        if i > 0 {
            out.append(sep);
        }
        out.append(items[i].as_str());
        proof {
            let v = views(items@);
            assert(v.take(i + 1).drop_last() =~= v.take(i as int));
            assert(v.take(i + 1).last() == v[i as int]);
            assert(out@ =~= joined(v.take(i + 1), sep@));
        }
        i += 1;
    }
    assert(views(items@).take(i as int) =~= views(items@));
    out
}

/// Where `id` stands first in `items`, if it stands there at all.
pub fn position(items: &Vec<String>, id: &str) -> (at: Option<usize>)
    ensures
        match at {
            Some(i) => i < items@.len() && items@[i as int]@ == id@
                && forall|j: int| 0 <= j < i ==> items@[j]@ != id@,
            None => !views(items@).contains(id@),
        },
{
    let mut i: usize = 0;
    while i < items.len()
        invariant
            0 <= i <= items@.len(),
            forall|j: int| 0 <= j < i ==> items@[j]@ != id@,
        decreases items@.len() - i,
    {
        if str_eq(items[i].as_str(), id) {
            return Some(i);
        }
        i += 1;
    }
    None
}

/// Whether `id` stands in `items`.
pub fn contains(items: &Vec<String>, id: &str) -> (found: bool)
    ensures
        found == views(items@).contains(id@),
{
    let at = position(items, id);
    proof {
        if let Some(i) = at {
            assert(views(items@)[i as int] == id@);
        }
    }
    at.is_some()
}

/// A copy of a list of strings.
pub fn copy_strings(items: &Vec<String>) -> (out: Vec<String>)
    ensures
        views(out@) == views(items@),
{
    let mut out: Vec<String> = Vec::new();
    let mut i: usize = 0;
    while i < items.len()
        invariant
            0 <= i <= items@.len(),
            out@.len() == i,
            forall|j: int| 0 <= j < i ==> out@[j]@ == items@[j]@,
        decreases items@.len() - i,
    {
        out.push(items[i].clone());
        i += 1;
    }
    assert(views(out@) =~= views(items@));
    out
}

/// The characters of an optional string.
pub open spec fn opt_view(s: Option<String>) -> Option<Seq<char>> {
    match s {
        Some(t) => Some(t@),
        None => None,
    }
}

/// Whether `s` begins with `prefix`.
pub fn starts_with(s: &str, prefix: &str) -> (r: bool)
    ensures
        r == prefix@.is_prefix_of(s@),
{
    let mut x = s.chars();
    let mut y = prefix.chars();
    let ghost mut i: int = 0;
    loop
        invariant
            0 <= i <= s@.len(),
            i <= prefix@.len(),
            s@.take(i) == prefix@.take(i),
            x.remaining() == s@.skip(i),
            y.remaining() == prefix@.skip(i),
        decreases prefix@.len() - i,
    {
        match y.next() {
            None => {
                assert(prefix@.take(i) =~= prefix@);
                assert(s@.subrange(0, i) =~= s@.take(i));
                return true;
            },
            Some(d) => match x.next() {
                None => {
                    return false;
                },
                Some(c) => {
                    if c != d {
                        assert(s@.subrange(0, prefix@.len() as int)[i] != prefix@[i] || s@.len()
                            < prefix@.len());
                        return false;
                    }
                    proof {
                        i = i + 1;
                    }
                },
            },
        }
    }
}

/// The characters of a list of string constants.
pub open spec fn str_views(items: Seq<&'static str>) -> Seq<Seq<char>> {
    Seq::new(items.len(), |i: int| items[i]@)
}

/// Whether `s` stands in a list of string constants.
pub fn listed(items: &Vec<&'static str>, s: &str) -> (found: bool)
    ensures
        found == str_views(items@).contains(s@),
{
    let mut i: usize = 0;
    while i < items.len()
        invariant
            0 <= i <= items@.len(),
            forall|j: int| 0 <= j < i ==> items@[j]@ != s@,
        decreases items@.len() - i,
    {
        if str_eq(items[i], s) {
            assert(str_views(items@)[i as int] == s@);
            return true;
        }
        i += 1;
    }
    false
}

/// A copy of an optional string.
pub fn copy_opt(s: &Option<String>) -> (out: Option<String>)
    ensures
        opt_view(out) == opt_view(*s),
{
    match s {
        Some(t) => Some(t.clone()),
        None => None,
    }
}

/// A character with an ASCII capital made small.
pub open spec fn ascii_lower(c: char) -> char {
    if 'A' <= c <= 'Z' {
        (c as u32 + 32) as char
    } else {
        c
    }
}

/// A text with its ASCII capitals made small.
pub open spec fn ascii_lowercase(s: Seq<char>) -> Seq<char> {
    Seq::new(s.len(), |i: int| ascii_lower(s[i]))
}

/// The lowercase of a text by the Unicode tables of `str::to_lowercase`.
pub uninterp spec fn lowercase(s: Seq<char>) -> Seq<char>;

/// `str::to_lowercase`. It maps by the Unicode tables that the compiler ships, which are
/// not written out here; of ASCII text it changes the capitals and nothing else.
#[verifier::external_body]
fn unicode_lowercase(s: &str) -> (out: String)
    ensures
        out@ == lowercase(s@),
        vstd::utf8::is_ascii_chars(s@) ==> out@ == ascii_lowercase(s@),
{
    s.to_lowercase()
}

/// A text in small letters.
pub open spec fn lowered(s: Seq<char>) -> Seq<char> {
    if vstd::utf8::is_ascii_chars(s) {
        ascii_lowercase(s)
    } else {
        lowercase(s)
    }
}

/// The text in small letters.
pub fn to_lowercase(s: &str) -> (out: String)
    ensures
        out@ == lowered(s@),
{
    unicode_lowercase(s)
}

/// What `String::from_utf8_lossy` makes of bytes.
pub uninterp spec fn lossy(bytes: Seq<u8>) -> Seq<char>;

/// `String::from_utf8_lossy`. Bytes in UTF-8 give the text that they encode. Replacement
/// characters stand in place of others; how many there are is left to the name.
#[verifier::external_body]
fn utf8_lossy(bytes: &[u8]) -> (out: String)
    ensures
        out@ == lossy(bytes@),
        vstd::utf8::valid_utf8(bytes@) ==> out@ == vstd::utf8::decode_utf8(bytes@),
{
    String::from_utf8_lossy(bytes).into_owned()
}

/// The text of bytes that should be UTF-8.
pub open spec fn text_in(bytes: Seq<u8>) -> Seq<char> {
    if vstd::utf8::valid_utf8(bytes) {
        vstd::utf8::decode_utf8(bytes)
    } else {
        lossy(bytes)
    }
}

/// The text of bytes that should be UTF-8, with replacement characters where they are not.
pub fn read_text(bytes: &[u8]) -> (out: String)
    ensures
        out@ == text_in(bytes@),
{
    utf8_lossy(bytes)
}

/// The number of bytes of a text in UTF-8.
pub open spec fn utf8_len(s: Seq<char>) -> nat {
    vstd::utf8::encode_utf8(s).len()
}

/// The number of bytes of a text.
pub fn byte_len(s: &str) -> (n: usize)
    ensures
        n == utf8_len(s@),
{
    s.as_bytes().len()
}

/// Appends a line.
pub fn push_line(out: &mut String, line: &str)
    ensures
        final(out)@ == old(out)@ + line@ + "\n"@,
{
    out.append(line);
    out.append("\n");
}

/// Each item on a line of its own, after `mark`.
pub open spec fn bullets(items: Seq<Seq<char>>, mark: Seq<char>) -> Seq<char>
    decreases items.len(),
{
    if items.len() == 0 {
        seq![]
    } else {
        bullets(items.drop_last(), mark) + mark + items.last() + "\n"@
    }
}

/// Appends each item on a line of its own, after `mark`.
pub fn push_bullets(out: &mut String, items: &Vec<String>, mark: &str)
    ensures
        final(out)@ == old(out)@ + bullets(views(items@), mark@),
{
    let ghost v = views(items@);
    let mut i: usize = 0;
    while i < items.len()
        invariant
            0 <= i <= items@.len(),
            v == views(items@),
            out@ =~= old(out)@ + bullets(v.take(i as int), mark@),
        decreases items@.len() - i,
    {
        out.append(mark);
        out.append(items[i].as_str());
        out.append("\n");
        assert(v.take(i + 1).drop_last() =~= v.take(i as int));
        i += 1;
    }
    assert(v.take(i as int) =~= v);
}

/// A text as `{:?}` prints it, in quotes and escaped.
pub uninterp spec fn quoted(s: Seq<char>) -> Seq<char>;

/// The `Debug` form of a `str`, as `format!` with `{:?}` gives it. What it escapes, and
/// how, is left to the name.
#[verifier::external_body]
pub(crate) fn debug_quoted(s: &str) -> (out: String)
    ensures
        out@ == quoted(s@),
{
    format!("{s:?}")
}

/// `a` comes before `b` in the order of their characters.
pub open spec fn lex_less(a: Seq<char>, b: Seq<char>) -> bool
    decreases a.len(),
{
    if b.len() == 0 {
        false
    } else if a.len() == 0 {
        true
    } else if a[0] != b[0] {
        a[0] < b[0]
    } else {
        lex_less(a.drop_first(), b.drop_first())
    }
}

/// The order of texts by their characters.
pub open spec fn lex_order() -> spec_fn(Seq<char>, Seq<char>) -> bool {
    |a: Seq<char>, b: Seq<char>| lex_less(a, b)
}

proof fn lemma_lex_irreflexive(a: Seq<char>)
    ensures
        !lex_less(a, a),
    decreases a.len(),
{
    if a.len() > 0 {
        lemma_lex_irreflexive(a.drop_first());
    }
}

proof fn lemma_lex_transitive(a: Seq<char>, b: Seq<char>, c: Seq<char>)
    requires
        lex_less(a, b),
        lex_less(b, c),
    ensures
        lex_less(a, c),
    decreases a.len(),
{
    if a.len() > 0 && a[0] == b[0] && b[0] == c[0] {
        lemma_lex_transitive(a.drop_first(), b.drop_first(), c.drop_first());
    }
}

/// Of two texts one comes before the other, or they are the same.
pub proof fn lemma_lex_total(a: Seq<char>, b: Seq<char>)
    ensures
        lex_less(a, b) || lex_less(b, a) || a == b,
    decreases a.len(),
{
    if a.len() > 0 && b.len() > 0 && a[0] == b[0] {
        lemma_lex_total(a.drop_first(), b.drop_first());
        if a.drop_first() == b.drop_first() {
            assert(a =~= seq![a[0]] + a.drop_first());
            assert(b =~= seq![b[0]] + b.drop_first());
        }
    } else if a.len() == 0 && b.len() == 0 {
        assert(a =~= b);
    }
}

/// The order of texts is an order.
pub proof fn lemma_lex_order()
    ensures
        seqs::is_order(lex_order()),
{
    let less = lex_order();
    assert forall|x: Seq<char>| !#[trigger] less(x, x) by {
        lemma_lex_irreflexive(x);
    }
    assert forall|x: Seq<char>, y: Seq<char>, z: Seq<char>| #[trigger]
        less(x, y) && #[trigger] less(y, z) implies less(x, z) by {
        lemma_lex_transitive(x, y, z);
    }
}

/// Whether `a` comes before `b` in the order of their characters.
pub fn less(a: &str, b: &str) -> (r: bool)
    ensures
        r == lex_less(a@, b@),
{
    let mut x = a.chars();
    let mut y = b.chars();
    let ghost mut i: int = 0;
    assert(a@.skip(0) =~= a@);
    assert(b@.skip(0) =~= b@);
    loop
        invariant
            0 <= i <= a@.len(),
            i <= b@.len(),
            lex_less(a@, b@) == lex_less(a@.skip(i), b@.skip(i)),
            x.remaining() == a@.skip(i),
            y.remaining() == b@.skip(i),
        decreases a@.len() - i,
    {
        match y.next() {
            None => {
                return false;
            },
            Some(d) => match x.next() {
                None => {
                    return true;
                },
                Some(c) => {
                    if c != d {
                        return c < d;
                    }
                    proof {
                        assert(a@.skip(i).drop_first() =~= a@.skip(i + 1));
                        assert(b@.skip(i).drop_first() =~= b@.skip(i + 1));
                        i = i + 1;
                    }
                },
            },
        }
    }
}

/// Puts a string into its place in a sorted list.
fn insert_string(sorted: &mut Vec<String>, item: String)
    ensures
        views(final(sorted)@) == views(old(sorted)@).insert(
            seqs::slot(views(old(sorted)@), lex_order(), item@),
            item@,
        ),
{
    let ghost list = views(sorted@);
    let ghost after = |y: Seq<char>| lex_order()(item@, y);
    let mut at: usize = 0;
    while at < sorted.len() && !less(item.as_str(), sorted[at].as_str())
        invariant
            0 <= at <= sorted@.len(),
            list == views(sorted@),
            after == (|y: Seq<char>| lex_order()(item@, y)),
            forall|j: int| 0 <= j < at ==> !after(#[trigger] list[j]),
        decreases sorted@.len() - at,
    {
        assert(list[at as int] == sorted@[at as int]@);
        at += 1;
    }
    proof {
        if at < sorted@.len() {
            assert(list[at as int] == sorted@[at as int]@);
            assert(seqs::is_first_where(list, after, at as int));
            seqs::lemma_first_where(list, after, at as int);
        } else {
            seqs::lemma_none_where(list, after);
        }
        assert(seqs::slot(list, lex_order(), item@) == at);
    }
    sorted.insert(at, item);
    assert(views(sorted@) =~= list.insert(at as int, item@));
}

/// The strings in the order of their characters.
pub fn sort_strings(items: &Vec<String>) -> (sorted: Vec<String>)
    ensures
        views(sorted@) == seqs::sorted_by(views(items@), lex_order()),
{
    let mut sorted: Vec<String> = Vec::new();
    let ghost v = views(items@);
    let mut i: usize = 0;
    assert(views(sorted@) =~= seq![]);
    while i < items.len()
        invariant
            0 <= i <= items@.len(),
            v == views(items@),
            views(sorted@) == seqs::sorted_by(v.take(i as int), lex_order()),
        decreases items@.len() - i,
    {
        assert(v.take(i + 1).drop_last() =~= v.take(i as int));
        insert_string(&mut sorted, items[i].clone());
        i += 1;
    }
    assert(v.take(i as int) =~= v);
    sorted
}

/// A character with a small ASCII letter made a capital.
pub open spec fn ascii_upper(c: char) -> char {
    if 'a' <= c <= 'z' {
        (c as u32 - 32) as char
    } else {
        c
    }
}

/// A text with its small ASCII letters made capitals.
pub open spec fn ascii_uppercase(s: Seq<char>) -> Seq<char> {
    Seq::new(s.len(), |i: int| ascii_upper(s[i]))
}

fn upper_char(c: char) -> (r: char)
    ensures
        r == ascii_upper(c),
{
    if 'a' <= c && c <= 'z' {
        (c as u8 - 32) as char
    } else {
        c
    }
}

fn lower_char(c: char) -> (r: char)
    ensures
        r == ascii_lower(c),
{
    if 'A' <= c && c <= 'Z' {
        (c as u8 + 32) as char
    } else {
        c
    }
}

/// The text with its small ASCII letters made capitals.
pub fn to_ascii_uppercase(s: &str) -> (out: String)
    ensures
        out@ == ascii_uppercase(s@),
{
    let mut out = String::new();
    for c in iter: s.chars()
        invariant
            iter.seq() == s@,
            out@ =~= ascii_uppercase(s@).take(iter.index()),
    {
        out.push(upper_char(c));
    }
    assert(ascii_uppercase(s@).take(s@.len() as int) =~= ascii_uppercase(s@));
    out
}

/// The text with its ASCII capitals made small.
pub fn to_ascii_lowercase(s: &str) -> (out: String)
    ensures
        out@ == ascii_lowercase(s@),
{
    let mut out = String::new();
    for c in iter: s.chars()
        invariant
            iter.seq() == s@,
            out@ =~= ascii_lowercase(s@).take(iter.index()),
    {
        out.push(lower_char(c));
    }
    assert(ascii_lowercase(s@).take(s@.len() as int) =~= ascii_lowercase(s@));
    out
}

/// The number of bytes of a character in UTF-8.
pub open spec fn char_width(c: char) -> nat {
    if c as u32 <= 0x7F {
        1
    } else if c as u32 <= 0x7FF {
        2
    } else if c as u32 <= 0xFFFF {
        3
    } else {
        4
    }
}

/// One more character adds its own bytes.
pub proof fn lemma_utf8_len_push(s: Seq<char>, c: char)
    ensures
        utf8_len(s.push(c)) == utf8_len(s) + char_width(c),
    decreases s.len(),
{
    vstd::utf8::char_is_scalar(c);
    reveal_with_fuel(vstd::utf8::encode_utf8, 2);
    if s.len() == 0 {
        assert(s.push(c).drop_first() =~= seq![]);
        assert(s.push(c)[0] == c);
    } else {
        lemma_utf8_len_push(s.drop_first(), c);
        assert(s.push(c).drop_first() =~= s.drop_first().push(c));
        assert(s.push(c)[0] == s[0]);
    }
}

/// A longer prefix has no fewer bytes.
pub proof fn lemma_utf8_len_take(s: Seq<char>, i: int, j: int)
    requires
        0 <= i <= j <= s.len(),
    ensures
        utf8_len(s.take(i)) <= utf8_len(s.take(j)),
    decreases j - i,
{
    if i < j {
        lemma_utf8_len_take(s, i, j - 1);
        assert(s.take(j) =~= s.take(j - 1).push(s[j - 1]));
        lemma_utf8_len_push(s.take(j - 1), s[j - 1]);
    }
}

/// `k` is the number of leading characters of `s` that fit into `max` bytes.
pub open spec fn is_clip(s: Seq<char>, max: nat, k: int) -> bool {
    &&& 0 <= k <= s.len()
    &&& utf8_len(s.take(k)) <= max
    &&& k < s.len() ==> utf8_len(s.take(k + 1)) > max
}

/// The longest prefix of a text that takes at most `max` bytes.
pub open spec fn clipped(s: Seq<char>, max: nat) -> Seq<char> {
    s.take(choose|k: int| is_clip(s, max, k))
}

/// There is one longest prefix.
pub proof fn lemma_clipped(s: Seq<char>, max: nat, k: int)
    requires
        is_clip(s, max, k),
    ensures
        clipped(s, max) == s.take(k),
{
    let c = choose|c: int| is_clip(s, max, c);
    assert(is_clip(s, max, c));
    if c < k {
        lemma_utf8_len_take(s, c + 1, k);
    }
    if k < c {
        lemma_utf8_len_take(s, k + 1, c);
    }
}

/// Every text has a longest prefix that fits, and it fits.
pub proof fn lemma_clip_fits(s: Seq<char>, max: nat)
    ensures
        utf8_len(clipped(s, max)) <= max,
        clipped(s, max).is_prefix_of(s),
{
    lemma_some_clip(s, max, s.len() as int);
    let k = choose|k: int| is_clip(s, max, k);
    assert(is_clip(s, max, k));
}

proof fn lemma_some_clip(s: Seq<char>, max: nat, n: int)
    requires
        0 <= n <= s.len(),
        n < s.len() ==> utf8_len(s.take(n + 1)) > max,
    ensures
        exists|k: int| is_clip(s, max, k),
    decreases n,
{
    if utf8_len(s.take(n)) <= max {
        assert(is_clip(s, max, n));
    } else {
        if n == 0 {
            assert(s.take(0) =~= seq![]);
        }
        lemma_some_clip(s, max, n - 1);
    }
}

fn width_of(c: char) -> (n: usize)
    ensures
        n == char_width(c),
{
    let code: u32 = c as u32;
    if code <= 0x7F {
        1
    } else if code <= 0x7FF {
        2
    } else if code <= 0xFFFF {
        3
    } else {
        4
    }
}

/// The longest prefix of the text that takes at most `max` bytes. A character is kept
/// whole or left out.
pub fn clip(s: &str, max: usize) -> (out: String)
    ensures
        out@ == clipped(s@, max as nat),
{
    let mut out = String::new();
    let mut left: usize = max;
    let mut rest = s.chars();
    let ghost mut i: int = 0;
    assert(s@.take(0) =~= seq![]);
    loop
        invariant
            0 <= i <= s@.len(),
            rest.remaining() == s@.skip(i),
            out@ =~= s@.take(i),
            left + utf8_len(out@) == max,
        decreases s@.len() - i,
    {
        match rest.next() {
            None => {
                proof {
                    lemma_clipped(s@, max as nat, i);
                }
                return out;
            },
            Some(c) => {
                let width: usize = width_of(c);
                proof {
                    assert(s@.take(i + 1) =~= s@.take(i).push(c));
                    lemma_utf8_len_push(s@.take(i), c);
                }
                if left < width {
                    proof {
                        lemma_clipped(s@, max as nat, i);
                    }
                    return out;
                }
                out.push(c);
                left = left - width;
                proof {
                    i = i + 1;
                }
            },
        }
    }
}

/// The text behind `prefix`, where the text begins with it.
pub open spec fn behind(s: Seq<char>, prefix: Seq<char>) -> Option<Seq<char>> {
    if prefix.is_prefix_of(s) {
        Some(s.skip(prefix.len() as int))
    } else {
        None
    }
}

/// The text behind `prefix`, where the text begins with it.
pub fn strip_prefix(s: &str, prefix: &str) -> (rest: Option<String>)
    ensures
        opt_view(rest) == behind(s@, prefix@),
{
    let all = chars_of(s);
    let start = chars_of(prefix);
    if !starts_with(s, prefix) {
        return None;
    }
    let rest = string_of(all.as_slice(), start.len(), all.len());
    assert(rest@ =~= s@.skip(prefix@.len() as int));
    Some(rest)
}

/// The texts agree in their first `n` characters, as far as `a` goes.
pub open spec fn agree(a: Seq<char>, b: Seq<char>, n: int) -> bool
    decreases n,
{
    n <= 0 || (agree(a, b, n - 1) && (n <= a.len() ==> a[n - 1] == b[n - 1]))
}

/// A text agrees with those that it begins, however far one looks.
pub proof fn lemma_prefix_agrees(a: Seq<char>, b: Seq<char>, n: int)
    requires
        a.is_prefix_of(b),
    ensures
        agree(a, b, n),
    decreases n,
{
    if n > 0 {
        lemma_prefix_agrees(a, b, n - 1);
        if n <= a.len() {
            assert(b.subrange(0, a.len() as int)[n - 1] == b[n - 1]);
        }
    }
}

/// Lists are joined piece by piece: a list of one is the item itself, and a list in two
/// parts is the one part, the separator and the other part.
pub proof fn joined_piece_by_piece(a: Seq<Seq<char>>, b: Seq<Seq<char>>, sep: Seq<char>, x: Seq<char>)
    requires
        a.len() > 0,
        b.len() > 0,
    ensures
        joined(seq![], sep) == Seq::<char>::empty(),
        joined(seq![x], sep) == x,
        joined(a + b, sep) == joined(a, sep) + sep + joined(b, sep),
    decreases b.len(),
{
    let all = a + b;
    assert(all.drop_last() =~= a + b.drop_last());
    assert(all.last() == b.last());
    if b.len() == 1 {
        assert(all.drop_last() =~= a);
        assert(b.last() == b[0]);
    } else {
        joined_piece_by_piece(a, b.drop_last(), sep, x);
        assert(joined(all, sep) =~= joined(a, sep) + sep + joined(b, sep));
    }
}

/// Every item of a list stands in the joined text, ahead of the items behind it.
pub proof fn joined_holds_every_item(items: Seq<Seq<char>>, sep: Seq<char>, i: int)
    requires
        0 <= i < items.len(),
    ensures
        exists|pre: Seq<char>, post: Seq<char>|
            joined(items, sep) == #[trigger] (pre + items[i] + post),
    decreases items.len(),
{
    let all = joined(items, sep);
    if items.len() == 1 {
        assert(all =~= Seq::<char>::empty() + items[i] + Seq::<char>::empty());
    } else if i == items.len() - 1 {
        let pre = joined(items.drop_last(), sep) + sep;
        assert(all =~= pre + items[i] + Seq::<char>::empty());
    } else {
        joined_holds_every_item(items.drop_last(), sep, i);
        let part = joined(items.drop_last(), sep);
        assert(items.drop_last()[i] == items[i]);
        let (pre, post) = choose|pre: Seq<char>, post: Seq<char>|
            part == #[trigger] (pre + items[i] + post);
        assert(all =~= pre + items[i] + (post + sep + items.last()));
    }
}

/// Each item has a line of its own, after the mark, and the lines stand in the order of the
/// items.
pub proof fn bullets_line_by_line(a: Seq<Seq<char>>, b: Seq<Seq<char>>, mark: Seq<char>, x: Seq<char>)
    ensures
        bullets(seq![], mark) == Seq::<char>::empty(),
        bullets(seq![x], mark) == mark + x + "\n"@,
        bullets(a + b, mark) == bullets(a, mark) + bullets(b, mark),
    decreases b.len(),
{
    reveal_with_fuel(bullets, 2);
    assert(seq![x].drop_last() =~= seq![]);
    assert(bullets(seq![x], mark) =~= mark + x + "\n"@);
    let all = a + b;
    if b.len() == 0 {
        assert(all =~= a);
        assert(bullets(all, mark) =~= bullets(a, mark) + bullets(b, mark));
    } else {
        assert(all.drop_last() =~= a + b.drop_last());
        assert(all.last() == b.last());
        bullets_line_by_line(a, b.drop_last(), mark, x);
        assert(bullets(all, mark) =~= bullets(a, mark) + bullets(b, mark));
    }
}

/// A text without a line break.
pub open spec fn one_line(s: Seq<char>) -> bool {
    forall|i: int| 0 <= i < s.len() ==> #[trigger] s[i] != '\n'
}

/// Every item stands on a line of its own.
pub proof fn every_item_has_a_line(items: Seq<Seq<char>>, mark: Seq<char>, i: int)
    requires
        0 <= i < items.len(),
    ensures
        exists|pre: Seq<char>, post: Seq<char>|
            bullets(items, mark) == #[trigger] (pre + (mark + items[i] + "\n"@) + post),
{
    let pre = bullets(items.take(i), mark);
    let post = bullets(items.skip(i + 1), mark);
    assert(items =~= items.take(i) + seq![items[i]] + items.skip(i + 1));
    bullets_line_by_line(items.take(i), seq![items[i]], mark, items[i]);
    bullets_line_by_line(items.take(i) + seq![items[i]], items.skip(i + 1), mark, items[i]);
    assert(bullets(items, mark) == pre + (mark + items[i] + "\n"@) + post);
}

/// Lists of items without line breaks can be told from their lines.
pub proof fn lists_are_told_from_their_lines(
    a: Seq<Seq<char>>,
    b: Seq<Seq<char>>,
    mark: Seq<char>,
)
    requires
        one_line(mark),
        forall|i: int| 0 <= i < a.len() ==> one_line(#[trigger] a[i]),
        forall|i: int| 0 <= i < b.len() ==> one_line(#[trigger] b[i]),
        bullets(a, mark) == bullets(b, mark),
    ensures
        a == b,
    decreases a.len(),
{
    reveal_strlit("\n");
    if a.len() > 0 && b.len() > 0 {
        let x = bullets(a.drop_last(), mark);
        let y = bullets(b.drop_last(), mark);
        let p = mark + a.last();
        let q = mark + b.last();
        let all = bullets(a, mark);
        assert(all =~= x + p + "\n"@);
        assert(all =~= y + q + "\n"@);
        assert(a[a.len() - 1] == a.last() && b[b.len() - 1] == b.last());
        lemma_lines_end(a.drop_last(), mark);
        lemma_lines_end(b.drop_last(), mark);
        if x.len() < y.len() {
            let k = y.len() - 1;
            assert(all[k] == y[k]);
            assert(all[k] == p[k - x.len()]);
            assert(p[k - x.len()] != '\n') by {
                if k - x.len() < mark.len() {
                    assert(p[k - x.len()] == mark[k - x.len()]);
                } else {
                    assert(p[k - x.len()] == a.last()[k - x.len() - mark.len()]);
                }
            }
        }
        if y.len() < x.len() {
            let k = x.len() - 1;
            assert(all[k] == x[k]);
            assert(all[k] == q[k - y.len()]);
            assert(q[k - y.len()] != '\n') by {
                if k - y.len() < mark.len() {
                    assert(q[k - y.len()] == mark[k - y.len()]);
                } else {
                    assert(q[k - y.len()] == b.last()[k - y.len() - mark.len()]);
                }
            }
        }
        assert(x =~= all.take(x.len() as int));
        assert(y =~= all.take(y.len() as int));
        assert(p =~= all.subrange(x.len() as int, all.len() - 1));
        assert(q =~= all.subrange(y.len() as int, all.len() - 1));
        assert(a.last() =~= p.skip(mark.len() as int));
        assert(b.last() =~= q.skip(mark.len() as int));
        assert forall|i: int| 0 <= i < a.drop_last().len() implies one_line(
            #[trigger] a.drop_last()[i],
        ) by {
            assert(a.drop_last()[i] == a[i]);
        }
        assert forall|i: int| 0 <= i < b.drop_last().len() implies one_line(
            #[trigger] b.drop_last()[i],
        ) by {
            assert(b.drop_last()[i] == b[i]);
        }
        lists_are_told_from_their_lines(a.drop_last(), b.drop_last(), mark);
        assert(a =~= a.drop_last().push(a.last()));
        assert(b =~= b.drop_last().push(b.last()));
    } else {
        lemma_lines_end(a, mark);
        lemma_lines_end(b, mark);
        assert(a =~= b);
    }
}

proof fn lemma_lines_end(items: Seq<Seq<char>>, mark: Seq<char>)
    ensures
        bullets(items, mark).len() == 0 <==> items.len() == 0,
        items.len() > 0 ==> bullets(items, mark).last() == '\n',
{
    reveal_strlit("\n");
}

/// The number that decimal digits stand for.
pub open spec fn number_in(digits: Seq<char>) -> int
    decreases digits.len(),
{
    if digits.len() == 0 {
        0
    } else {
        10 * number_in(digits.drop_last()) + (digits.last() as int - '0' as int)
    }
}

/// A number can be read back from its digits, and they begin with no zero to spare.
pub proof fn numbers_are_read_back(n: nat)
    ensures
        number_in(decimal(n)) == n,
        decimal(n).len() > 0,
        decimal(n)[0] == '0' ==> n == 0,
        forall|i: int| 0 <= i < decimal(n).len() ==> '0' <= #[trigger] decimal(n)[i] <= '9',
    decreases n,
{
    if n < 10 {
        assert(decimal(n).drop_last() =~= seq![]);
        assert(number_in(seq![]) == 0);
    } else {
        numbers_are_read_back(n / 10);
        assert(decimal(n).drop_last() =~= decimal(n / 10));
    }
}

} // verus!

//! Passive LSP diagnostic accumulation and injection into the conversation.

use vstd::prelude::*;

use crate::scan;
use crate::seqs;
use crate::string_map::{self, StringMap};
use crate::text;

verus! {

/// LSP `DiagnosticSeverity`.
#[derive(Clone, Copy, Debug, PartialEq, Eq, Structural)]
pub enum DiagnosticSeverity {
    /// `1` on the wire: compilation-blocking issue.
    Error,
    /// `2` on the wire: non-fatal.
    Warning,
    /// `3` on the wire: informational only.
    Information,
    /// `4` on the wire: code-style hint.
    Hint,
}

/// The wire integer of a severity.
pub open spec fn severity_wire(s: DiagnosticSeverity) -> u8 {
    match s {
        DiagnosticSeverity::Error => 1,
        DiagnosticSeverity::Warning => 2,
        DiagnosticSeverity::Information => 3,
        DiagnosticSeverity::Hint => 4,
    }
}

/// The severity of a wire integer: `Information` for what is none.
pub open spec fn severity_of(n: u8) -> DiagnosticSeverity {
    if n == 1 {
        DiagnosticSeverity::Error
    } else if n == 2 {
        DiagnosticSeverity::Warning
    } else if n == 4 {
        DiagnosticSeverity::Hint
    } else {
        DiagnosticSeverity::Information
    }
}

impl DiagnosticSeverity {
    /// Wire integer.
    pub fn wire(&self) -> (n: u8)
        ensures
            n == severity_wire(*self),
    {
        match self {
            DiagnosticSeverity::Error => 1,
            DiagnosticSeverity::Warning => 2,
            DiagnosticSeverity::Information => 3,
            DiagnosticSeverity::Hint => 4,
        }
    }

    /// Decode a wire integer.
    pub fn from_wire(n: u8) -> (s: DiagnosticSeverity)
        ensures
            s == severity_of(n),
    {
        match n {
            1 => DiagnosticSeverity::Error,
            2 => DiagnosticSeverity::Warning,
            4 => DiagnosticSeverity::Hint,
            _ => DiagnosticSeverity::Information,
        }
    }
}

/// A severity that went over the wire is the same severity.
pub proof fn severity_survives_the_wire(s: DiagnosticSeverity)
    ensures
        severity_of(severity_wire(s)) == s,
{
}

/// One LSP diagnostic.
#[derive(Clone, Debug, PartialEq, Eq)]
pub struct Diagnostic {
    /// 1-based line number where the diagnostic starts.
    pub line: u32,
    /// 0-based character offset.
    pub character: u32,
    /// Severity.
    pub severity: DiagnosticSeverity,
    /// Server-supplied message body.
    pub message: String,
    /// Diagnostic source ("rust-analyzer", "tsserver", etc.).
    pub source: Option<String>,
}

/// What a diagnostic says.
pub struct DiagnosticView {
    pub line: u32,
    pub character: u32,
    pub severity: DiagnosticSeverity,
    pub message: Seq<char>,
    pub source: Option<Seq<char>>,
}

impl View for Diagnostic {
    type V = DiagnosticView;

    open spec fn view(&self) -> DiagnosticView {
        DiagnosticView {
            line: self.line,
            character: self.character,
            severity: self.severity,
            message: self.message@,
            source: text::opt_view(self.source),
        }
    }
}

impl Diagnostic {
    /// A copy of the diagnostic.
    pub fn copy(&self) -> (d: Diagnostic)
        ensures
            d@ == self@,
    {
        Diagnostic {
            line: self.line,
            character: self.character,
            severity: self.severity,
            message: self.message.clone(),
            source: text::copy_opt(&self.source),
        }
    }
}

/// What a list of diagnostics says.
pub open spec fn diagnostics_view(list: Seq<Diagnostic>) -> Seq<DiagnosticView> {
    Seq::new(list.len(), |i: int| list[i]@)
}

/// What diagnostics by file say.
pub open spec fn files_view(m: Map<Seq<char>, Vec<Diagnostic>>) -> Map<
    Seq<char>,
    Seq<DiagnosticView>,
> {
    m.map_values(|list: Vec<Diagnostic>| diagnostics_view(list@))
}

/// Accumulator of diagnostics by file URI: of each file the most recent ones, as many as the
/// cap allows.
#[derive(Debug)]
pub struct DiagnosticRegistry {
    inner: StringMap<Vec<Diagnostic>>,
    per_file_cap: usize,
}

/// What a registry holds.
#[verifier::ext_equal]
pub struct RegistryView {
    pub files: Map<Seq<char>, Seq<DiagnosticView>>,
    pub cap: nat,
}

/// Default per-file cap.
pub const DEFAULT_PER_FILE_CAP: usize = 64;

impl View for DiagnosticRegistry {
    type V = RegistryView;

    closed spec fn view(&self) -> RegistryView {
        RegistryView { files: files_view(self.inner@), cap: self.per_file_cap as nat }
    }
}

/// The last diagnostics of a list, as many as the cap allows.
pub open spec fn capped(list: Seq<DiagnosticView>, cap: nat) -> Seq<DiagnosticView> {
    if list.len() > cap {
        list.skip(list.len() - cap)
    } else {
        list
    }
}

/// A registry once a file has its diagnostics replaced.
pub open spec fn published(
    r: RegistryView,
    uri: Seq<char>,
    list: Seq<DiagnosticView>,
) -> RegistryView {
    RegistryView {
        files: if capped(list, r.cap).len() == 0 {
            r.files.remove(uri)
        } else {
            r.files.insert(uri, capped(list, r.cap))
        },
        ..r
    }
}

/// The diagnostics of a file.
pub open spec fn diagnostics_of(r: RegistryView, uri: Seq<char>) -> Seq<DiagnosticView> {
    if r.files.dom().contains(uri) {
        r.files[uri]
    } else {
        seq![]
    }
}

/// A file stands in a registry only while it has diagnostics, and has no more than the cap.
pub open spec fn sound(r: RegistryView) -> bool {
    &&& r.cap > 0
    &&& r.files.dom().finite()
    &&& forall|uri: Seq<char>| #[trigger]
        r.files.dom().contains(uri) ==> 0 < r.files[uri].len() <= r.cap
}

impl Default for DiagnosticRegistry {
    fn default() -> (r: DiagnosticRegistry)
        ensures
            r@ == (RegistryView {
                files: Map::empty(),
                cap: DEFAULT_PER_FILE_CAP as nat,
            }),
    {
        DiagnosticRegistry::new()
    }
}

impl DiagnosticRegistry {
    #[verifier::type_invariant]
    spec fn keeps_its_bounds(self) -> bool {
        sound(self@)
    }

    /// Build a registry with the default per-file cap.
    pub fn new() -> (r: DiagnosticRegistry)
        ensures
            r@ == (RegistryView {
                files: Map::empty(),
                cap: DEFAULT_PER_FILE_CAP as nat,
            }),
    {
        DiagnosticRegistry::with_cap(DEFAULT_PER_FILE_CAP)
    }

    /// Build a registry with a custom per-file cap, of at least one.
    pub fn with_cap(per_file_cap: usize) -> (r: DiagnosticRegistry)
        ensures
            r@ == (RegistryView {
                files: Map::empty(),
                cap: if per_file_cap == 0 {
                    1
                } else {
                    per_file_cap as nat
                },
            }),
    {
        let cap: usize = if per_file_cap == 0 {
            1
        } else {
            per_file_cap
        };
        let inner: StringMap<Vec<Diagnostic>> = StringMap::new();
        assert(files_view(inner@) =~= Map::empty());
        DiagnosticRegistry { inner, per_file_cap: cap }
    }

    /// Replace the entire diagnostic list for `uri`. The most recent ones are kept, no more
    /// than the cap; an empty list removes the file.
    pub fn set(&mut self, uri: &str, diagnostics: Vec<Diagnostic>)
        ensures
            final(self)@ == published(old(self)@, uri@, diagnostics_view(diagnostics@)),
            sound(final(self)@),
    {
        proof {
            use_type_invariant(&*self);
        }
        let cap: usize = self.per_file_cap;
        let mut list = diagnostics;
        if list.len() > cap {
            let older: usize = list.len() - cap;
            list = list.split_off(older);
        }
        let ghost kept = capped(diagnostics_view(diagnostics@), cap as nat);
        assert(diagnostics_view(list@) =~= kept);
        let mut inner: StringMap<Vec<Diagnostic>> = StringMap::new();
        assert(files_view(inner@) =~= Map::empty());
        std::mem::swap(&mut inner, &mut self.inner);
        let ghost before = inner@;
        if list.is_empty() {
            inner.remove(uri);
            assert(files_view(inner@) =~= files_view(before).remove(uri@));
        } else {
            inner.insert(uri.to_owned(), list);
            assert(files_view(inner@) =~= files_view(before).insert(uri@, kept));
        }
        self.inner = inner;
    }

    /// The diagnostics currently held for `uri`.
    pub fn get(&self, uri: &str) -> (out: Vec<Diagnostic>)
        ensures
            diagnostics_view(out@) == diagnostics_of(self@, uri@),
            sound(self@),
    {
        proof {
            use_type_invariant(self);
        }
        let mut out: Vec<Diagnostic> = Vec::new();
        assert(diagnostics_view(out@) =~= seq![]);
        if let Some(list) = self.inner.get(uri) {
            let ghost all = diagnostics_view(list@);
            let mut i: usize = 0;
            while i < list.len()
                invariant
                    0 <= i <= list@.len(),
                    all == diagnostics_view(list@),
                    diagnostics_view(out@) =~= all.take(i as int),
                decreases list@.len() - i,
            {
                let ghost now = diagnostics_view(out@);
                out.push(list[i].copy());
                assert(diagnostics_view(out@) =~= now.push(all[i as int]));
                i += 1;
            }
            assert(all.take(i as int) =~= all);
        }
        out
    }

    /// Hand out every accumulated diagnostic by file, and keep none.
    pub fn drain(&mut self) -> (out: StringMap<Vec<Diagnostic>>)
        ensures
            files_view(out@) == old(self)@.files,
            final(self)@ == (RegistryView { files: Map::empty(), ..old(self)@ }),
            sound(old(self)@),
    {
        proof {
            use_type_invariant(&*self);
        }
        let mut out: StringMap<Vec<Diagnostic>> = StringMap::new();
        assert(files_view(out@) =~= Map::empty());
        std::mem::swap(&mut out, &mut self.inner);
        out
    }

    /// Total diagnostic count across every file.
    pub fn total(&self) -> (n: usize)
        requires
            string_map::items_in(self@.files) <= usize::MAX,
        ensures
            n == string_map::items_in(self@.files),
            sound(self@),
    {
        proof {
            use_type_invariant(self);
        }
        let count: usize = self.inner.len();
        proof {
            self.inner.lemma_keys();
            assert(self@.files.dom() =~= self.inner@.dom());
            string_map::lemma_items_in(self.inner@, self@.files, self.inner.keys());
        }
        if count == 0 {
            return 0;
        }
        self.inner.total_len()
    }
}

/// What a registry hands out is what was read for each file, a file being there exactly if
/// it has diagnostics. Then nothing is left: no file has any, the total is zero, and there
/// is nothing to hand out again.
pub proof fn draining_hands_out_all(r: RegistryView, uri: Seq<char>)
    requires
        sound(r),
    ensures
        r.files.dom().contains(uri) <==> diagnostics_of(r, uri).len() > 0,
        r.files.dom().contains(uri) ==> r.files[uri] == diagnostics_of(r, uri),
        ({
            let after = RegistryView { files: Map::empty(), ..r };
            &&& sound(after)
            &&& diagnostics_of(after, uri).len() == 0
            &&& string_map::items_in(after.files) == 0
            &&& after.files == Map::<Seq<char>, Seq<DiagnosticView>>::empty()
        }),
{
}

/// Whatever is published, a file stands in the registry only while it has diagnostics, and
/// has no more than the cap.
pub proof fn publishing_keeps_the_bounds(r: RegistryView, uri: Seq<char>, list: Seq<DiagnosticView>)
    requires
        sound(r),
    ensures
        sound(published(r, uri, list)),
{
}

/// There are never more diagnostics than the cap allows for each of the files held.
pub proof fn total_is_bounded(r: RegistryView)
    requires
        sound(r),
    ensures
        string_map::items_in(r.files) <= r.cap * r.files.dom().len(),
    decreases r.files.dom().len(),
{
    if r.files.dom().len() > 0 {
        let uri = r.files.dom().choose();
        let rest = RegistryView { files: r.files.remove(uri), ..r };
        assert(rest.files.dom() =~= r.files.dom().remove(uri));
        assert forall|u: Seq<char>| #[trigger] rest.files.dom().contains(u) implies 0
            < rest.files[u].len() <= rest.cap by {
            assert(r.files.dom().contains(u));
        }
        total_is_bounded(rest);
        string_map::items_add_up(r.files, uri);
        let n = r.files.dom().len();
        let cap = r.cap;
        assert(cap * n == cap * (n - 1) + cap) by (nonlinear_arith);
    } else {
        string_map::items_add_up(r.files, seq![]);
    }
}

/// What is published for a file is what is read back, up to the cap, the most recent one
/// always among it, and other files are left alone. A file without diagnostics is forgotten.
pub proof fn published_diagnostics_are_read_back(
    r: RegistryView,
    uri: Seq<char>,
    list: Seq<DiagnosticView>,
    other: Seq<char>,
)
    requires
        other != uri,
    ensures
        diagnostics_of(published(r, uri, list), uri) == capped(list, r.cap),
        list.len() <= r.cap ==> diagnostics_of(published(r, uri, list), uri) == list,
        capped(list, r.cap).len() <= r.cap,
        r.cap > 0 && list.len() > 0 ==> capped(list, r.cap).last() == list.last(),
        diagnostics_of(published(r, uri, list), other) == diagnostics_of(r, other),
        list.len() == 0 ==> !published(r, uri, list).files.dom().contains(uri),
{
    if capped(list, r.cap).len() == 0 {
        assert(capped(list, r.cap) =~= seq![]);
    }
}

/// Renders diagnostics for the next turn.
pub trait DiagnosticInjector: Send + Sync {
    /// Render `diagnostics` into a message body. `None` when there is nothing worth
    /// injecting.
    fn render(&self, diagnostics: &StringMap<Vec<Diagnostic>>) -> Option<String>;
}

/// Drops every diagnostic.
#[derive(Default, Clone, Copy, Debug)]
pub struct NoopDiagnosticInjector;

impl DiagnosticInjector for NoopDiagnosticInjector {
    fn render(&self, diagnostics: &StringMap<Vec<Diagnostic>>) -> (r: Option<String>)
        ensures
            r is None,
    {
        None
    }
}

/// The word for a severity in a rendered block.
pub open spec fn severity_text(s: DiagnosticSeverity) -> Seq<char> {
    match s {
        DiagnosticSeverity::Error => "error"@,
        DiagnosticSeverity::Warning => "warning"@,
        DiagnosticSeverity::Information => "info"@,
        DiagnosticSeverity::Hint => "hint"@,
    }
}

fn severity_label(s: DiagnosticSeverity) -> (r: &'static str)
    ensures
        r@ == severity_text(s),
{
    match s {
        DiagnosticSeverity::Error => "error",
        DiagnosticSeverity::Warning => "warning",
        DiagnosticSeverity::Information => "info",
        DiagnosticSeverity::Hint => "hint",
    }
}

/// The line of one diagnostic.
pub open spec fn diagnostic_line(d: DiagnosticView) -> Seq<char> {
    "    "@ + severity_text(d.severity) + " at "@ + text::decimal(d.line as nat) + ":"@
        + text::decimal(d.character as nat) + ": "@ + d.message + (match d.source {
        Some(source) => " ("@ + source + ")"@,
        None => seq![],
    }) + "\n"@
}

/// The lines of the diagnostics of one file.
pub open spec fn diagnostic_lines(list: Seq<DiagnosticView>) -> Seq<char>
    decreases list.len(),
{
    if list.len() == 0 {
        seq![]
    } else {
        diagnostic_lines(list.drop_last()) + diagnostic_line(list.last())
    }
}

/// The part of one file, empty where it has no diagnostics.
pub open spec fn file_block(uri: Seq<char>, list: Seq<DiagnosticView>) -> Seq<char> {
    if list.len() == 0 {
        seq![]
    } else {
        "  file: "@ + uri + "\n"@ + diagnostic_lines(list)
    }
}

/// The parts of the given files.
pub open spec fn file_blocks(
    files: Map<Seq<char>, Seq<DiagnosticView>>,
    uris: Seq<Seq<char>>,
) -> Seq<char>
    decreases uris.len(),
{
    if uris.len() == 0 {
        seq![]
    } else {
        file_blocks(files, uris.drop_last()) + file_block(uris.last(), files[uris.last()])
    }
}

/// The block that shows diagnostics, files in the order of their URIs.
pub open spec fn rendered(
    files: Map<Seq<char>, Seq<DiagnosticView>>,
    uris: Seq<Seq<char>>,
) -> Seq<char> {
    "<lsp-diagnostics>\n"@ + file_blocks(files, seqs::sorted_by(uris, text::lex_order()))
        + "</lsp-diagnostics>"@
}

fn push_diagnostic(out: &mut String, d: &Diagnostic)
    ensures
        final(out)@ == old(out)@ + diagnostic_line(d@),
{
    let mut line = "    ".to_owned();
    line.append(severity_label(d.severity));
    line.append(" at ");
    text::push_decimal(&mut line, d.line as u64);
    line.append(":");
    text::push_decimal(&mut line, d.character as u64);
    line.append(": ");
    line.append(d.message.as_str());
    if let Some(source) = &d.source {
        let mut part = " (".to_owned();
        part.append(source.as_str());
        part.append(")");
        line.append(part.as_str());
    } else {
        assert(line@ =~= line@ + seq![]);
    }
    line.append("\n");
    out.append(line.as_str());
}

fn push_file(out: &mut String, uri: &str, list: &Vec<Diagnostic>)
    ensures
        final(out)@ == old(out)@ + file_block(uri@, diagnostics_view(list@)),
{
    if list.is_empty() {
        assert(out@ =~= out@ + seq![]);
        return ;
    }
    let ghost all = diagnostics_view(list@);
    let mut block = "  file: ".to_owned();
    text::push_line(&mut block, uri);
    let ghost head = block@;
    let mut i: usize = 0;
    assert(all.take(0) =~= seq![]);
    assert(head =~= head + seq![]);
    while i < list.len()
        invariant
            0 <= i <= list@.len(),
            all == diagnostics_view(list@),
            block@ == head + diagnostic_lines(all.take(i as int)),
        decreases list@.len() - i,
    {
        let ghost now = block@;
        push_diagnostic(&mut block, &list[i]);
        proof {
            assert(all.take(i + 1).drop_last() =~= all.take(i as int));
            assert(all.take(i + 1).last() == list@[i as int]@);
            assert(block@ =~= head + diagnostic_lines(all.take(i + 1)));
        }
        i += 1;
    }
    assert(all.take(i as int) =~= all);
    out.append(block.as_str());
}

/// Produces an `<lsp-diagnostics>` block with one line per diagnostic, grouped by file.
#[derive(Default, Clone, Copy, Debug)]
pub struct DefaultDiagnosticInjector;

impl DiagnosticInjector for DefaultDiagnosticInjector {
    fn render(&self, diagnostics: &StringMap<Vec<Diagnostic>>) -> (r: Option<String>)
        ensures
            match r {
                Some(body) => diagnostics@ != Map::<Seq<char>, Vec<Diagnostic>>::empty() && body@
                    == rendered(files_view(diagnostics@), diagnostics.keys()),
                None => diagnostics@ == Map::<Seq<char>, Vec<Diagnostic>>::empty(),
            },
    {
        if diagnostics.is_empty() {
            return None;
        }
        let n: usize = diagnostics.len();
        let ghost keys = diagnostics.keys();
        proof {
            diagnostics.lemma_keys();
        }
        let mut uris: Vec<String> = Vec::new();
        let mut i: usize = 0;
        while i < n
            invariant
                0 <= i <= n,
                n == keys.len(),
                keys == diagnostics.keys(),
                text::views(uris@) =~= keys.take(i as int),
            decreases n - i,
        {
            let ghost now = text::views(uris@);
            uris.push(diagnostics.key_at(i).to_owned());
            assert(text::views(uris@) =~= now.push(keys[i as int]));
            i += 1;
        }
        assert(keys.take(n as int) =~= keys);
        let sorted = text::sort_strings(&uris);
        let ghost order = text::views(sorted@);
        let ghost files = files_view(diagnostics@);
        proof {
            text::lemma_lex_order();
            seqs::lemma_sorted_by(keys, text::lex_order());
            assert forall|k: int| 0 <= k < order.len() implies diagnostics@.dom().contains(
                #[trigger] order[k],
            ) by {
                order.to_multiset_ensures();
                keys.to_multiset_ensures();
                assert(order.contains(order[k]));
                assert(order.to_multiset().count(order[k]) > 0);
                assert(keys.contains(order[k]));
                assert(keys.to_set().contains(order[k]));
            }
        }
        let mut out = "<lsp-diagnostics>\n".to_owned();
        let ghost head = out@;
        let mut j: usize = 0;
        assert(order.take(0) =~= seq![]);
        assert(head =~= head + seq![]);
        while j < sorted.len()
            invariant
                0 <= j <= sorted@.len(),
                order == text::views(sorted@),
                files == files_view(diagnostics@),
                forall|k: int|
                    0 <= k < order.len() ==> diagnostics@.dom().contains(#[trigger] order[k]),
                out@ == head + file_blocks(files, order.take(j as int)),
            decreases sorted@.len() - j,
        {
            let uri: &str = sorted[j].as_str();
            assert(uri@ == order[j as int]);
            if let Some(list) = diagnostics.get(uri) {
                push_file(&mut out, uri, list);
                proof {
                    assert(order.take(j + 1).drop_last() =~= order.take(j as int));
                    assert(files[uri@] == diagnostics_view(list@));
                    assert(out@ =~= head + file_blocks(files, order.take(j + 1)));
                }
            }
            j += 1;
        }
        assert(order.take(j as int) =~= order);
        out.append("</lsp-diagnostics>");
        Some(out)
    }
}

/// Errors are `1` on the wire, warnings `2`, informations `3` and hints `4`; any other number is
/// an information.
pub proof fn severities_have_their_numbers(n: u8)
    ensures
        severity_of(1) == DiagnosticSeverity::Error,
        severity_of(2) == DiagnosticSeverity::Warning,
        severity_of(3) == DiagnosticSeverity::Information,
        severity_of(4) == DiagnosticSeverity::Hint,
        n == 0 || n > 4 ==> severity_of(n) == DiagnosticSeverity::Information,
{
}

/// Of a list the most recent diagnostics are kept, as many as the cap allows, in their order.
pub proof fn the_most_recent_are_kept(list: Seq<DiagnosticView>, cap: nat, i: int)
    requires
        0 <= i < list.len(),
        i < cap,
    ensures
        capped(list, cap).len() == (if list.len() <= cap {
            list.len()
        } else {
            cap
        }),
        capped(list, cap)[capped(list, cap).len() - 1 - i] == list[list.len() - 1 - i],
{
}

/// A line tells where the diagnostic is, how severe it is, what it says and who says it.
pub proof fn lines_tell_the_diagnostic(d: DiagnosticView)
    ensures
        scan::occurs(
            diagnostic_line(d),
            " at "@ + text::decimal(d.line as nat) + ":"@ + text::decimal(d.character as nat)
                + ": "@ + d.message,
        ),
        d.severity is Error ==> "    error"@.is_prefix_of(diagnostic_line(d)),
        d.severity is Warning ==> "    warning"@.is_prefix_of(diagnostic_line(d)),
        d.severity is Information ==> "    info"@.is_prefix_of(diagnostic_line(d)),
        d.severity is Hint ==> "    hint"@.is_prefix_of(diagnostic_line(d)),
        d.source matches Some(source) ==> scan::occurs(
            diagnostic_line(d),
            " ("@ + source + ")"@,
        ),
{
    let lead = "    "@ + severity_text(d.severity);
    let told = " at "@ + text::decimal(d.line as nat) + ":"@ + text::decimal(d.character as nat)
        + ": "@ + d.message;
    let from = match d.source {
        Some(source) => " ("@ + source + ")"@,
        None => seq![],
    };
    let all = diagnostic_line(d);
    assert(all =~= lead + told + (from + "\n"@));
    scan::lemma_part_occurs(lead, told, from + "\n"@);
    assert(all =~= (lead + told) + from + "\n"@);
    scan::lemma_part_occurs(lead + told, from, "\n"@);
    reveal_strlit("    ");
    reveal_strlit("error");
    reveal_strlit("warning");
    reveal_strlit("info");
    reveal_strlit("hint");
    reveal_strlit("    error");
    reveal_strlit("    warning");
    reveal_strlit("    info");
    reveal_strlit("    hint");
    assert(lead =~= all.subrange(0, lead.len() as int));
    match d.severity {
        DiagnosticSeverity::Error => assert(lead =~= "    error"@),
        DiagnosticSeverity::Warning => assert(lead =~= "    warning"@),
        DiagnosticSeverity::Information => assert(lead =~= "    info"@),
        DiagnosticSeverity::Hint => assert(lead =~= "    hint"@),
    }
}

/// Every diagnostic has its line, in the order of the list.
pub proof fn every_diagnostic_has_its_line(list: Seq<DiagnosticView>, d: DiagnosticView, i: int)
    ensures
        diagnostic_lines(list.push(d)) == diagnostic_lines(list) + diagnostic_line(d),
        0 <= i < list.len() ==> scan::occurs(diagnostic_lines(list), diagnostic_line(list[i])),
    decreases list.len(),
{
    assert(list.push(d).drop_last() =~= list);
    if list.len() > 0 {
        let rest = list.drop_last();
        every_diagnostic_has_its_line(rest, d, i);
        if 0 <= i < list.len() {
            scan::lemma_occurs_ahead(
                diagnostic_lines(rest),
                diagnostic_line(list.last()),
                diagnostic_line(list[i]),
            );
        }
    }
}

/// Every file that has diagnostics is told with all of them, whatever its place among the
/// others.
pub proof fn every_file_is_told(
    files: Map<Seq<char>, Seq<DiagnosticView>>,
    uris: Seq<Seq<char>>,
    uri: Seq<char>,
    i: int,
)
    requires
        uris.contains(uri),
        0 <= i < files[uri].len(),
    ensures
        scan::occurs(rendered(files, uris), "  file: "@ + uri + "\n"@),
        scan::occurs(rendered(files, uris), diagnostic_line(files[uri][i])),
        "<lsp-diagnostics>\n"@.is_prefix_of(rendered(files, uris)),
        "</lsp-diagnostics>"@.is_suffix_of(rendered(files, uris)),
{
    text::lemma_lex_order();
    let less = text::lex_order();
    seqs::lemma_sorted_by(uris, less);
    let sorted = seqs::sorted_by(uris, less);
    uris.to_multiset_ensures();
    sorted.to_multiset_ensures();
    assert(uris.to_multiset().count(uri) > 0);
    assert(sorted.contains(uri));
    let blocks = file_blocks(files, sorted);
    let head = "<lsp-diagnostics>\n"@;
    let tail = "</lsp-diagnostics>"@;
    let all = rendered(files, uris);
    let k = choose|k: int| 0 <= k < sorted.len() && sorted[k] == uri;
    lemma_block_occurs(files, sorted, k);
    let block = file_block(uri, files[uri]);
    let name = "  file: "@ + uri + "\n"@;
    let lines = diagnostic_lines(files[uri]);
    let line = diagnostic_line(files[uri][i]);
    let none = Seq::<char>::empty();
    assert(block =~= none + name + lines);
    scan::lemma_part_occurs(none, name, lines);
    every_diagnostic_has_its_line(files[uri], files[uri][i], i);
    assert(block =~= name + lines + none);
    scan::lemma_occurs_within(name, lines, none, line);
    let at = choose|at: int| scan::stands_at(blocks, block, at);
    let pre = blocks.take(at);
    let post = blocks.skip(at + block.len());
    assert(blocks =~= pre + block + post) by {
        assert(blocks.subrange(at, at + block.len()) == block);
        assert forall|j: int| at <= j < at + block.len() implies blocks[j] == block[j - at] by {
            assert(blocks.subrange(at, at + block.len())[j - at] == blocks[j]);
        }
    }
    scan::lemma_occurs_within(pre, block, post, name);
    scan::lemma_occurs_within(pre, block, post, line);
    assert(all =~= head + blocks + tail);
    scan::lemma_occurs_within(head, blocks, tail, name);
    scan::lemma_occurs_within(head, blocks, tail, line);
    assert(all.subrange(0, head.len() as int) =~= head);
    assert(all.subrange(all.len() - tail.len(), all.len() as int) =~= tail);
}

proof fn lemma_block_occurs(
    files: Map<Seq<char>, Seq<DiagnosticView>>,
    uris: Seq<Seq<char>>,
    k: int,
)
    requires
        0 <= k < uris.len(),
    ensures
        scan::occurs(file_blocks(files, uris), file_block(uris[k], files[uris[k]])),
    decreases uris.len(),
{
    let rest = uris.drop_last();
    let block = file_block(uris[k], files[uris[k]]);
    let last = file_block(uris.last(), files[uris.last()]);
    if k < rest.len() {
        lemma_block_occurs(files, rest, k);
        assert(rest[k] == uris[k]);
    }
    scan::lemma_occurs_ahead(file_blocks(files, rest), last, block);
}

} // verus!

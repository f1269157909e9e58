//! Rules in markdown that are put into a request, by the languages of the files it is
//! about.

use vstd::prelude::*;

use crate::json;
use crate::json::{Json, JsonView};
use crate::scan;
use crate::seqs;
use crate::text;

verus! {

// ---------------------------------------------------------------------------
// Languages

/// A language and the extensions of its files.
#[derive(Debug)]
pub struct Language {
    pub name: &'static str,
    pub extensions: Vec<&'static str>,
}

/// What an entry of the table of languages says.
pub open spec fn language_views(table: Seq<Language>) -> Seq<(Seq<char>, Seq<Seq<char>>)> {
    Seq::new(table.len(), |i: int| (table[i].name@, text::str_views(table[i].extensions@)))
}

/// The languages and the extensions of their files.
pub open spec fn language_table() -> Seq<(Seq<char>, Seq<Seq<char>>)> {
    seq![
        ("rust"@, seq!["rs"@]),
        ("python"@, seq!["py"@, "pyw"@]),
        ("javascript"@, seq!["js"@, "mjs"@, "cjs"@]),
        ("typescript"@, seq!["ts"@, "mts"@, "cts"@]),
        ("tsx"@, seq!["tsx"@]),
        ("jsx"@, seq!["jsx"@]),
        ("go"@, seq!["go"@]),
        ("java"@, seq!["java"@]),
        ("kotlin"@, seq!["kt"@, "kts"@]),
        ("swift"@, seq!["swift"@]),
        ("c"@, seq!["c"@, "h"@]),
        ("cpp"@, seq!["cpp"@, "cc"@, "cxx"@, "hpp"@, "hxx"@]),
        ("csharp"@, seq!["cs"@]),
        ("ruby"@, seq!["rb"@]),
        ("php"@, seq!["php"@]),
        ("scala"@, seq!["scala"@]),
        ("elixir"@, seq!["ex"@, "exs"@]),
        ("erlang"@, seq!["erl"@, "hrl"@]),
        ("haskell"@, seq!["hs"@]),
        ("clojure"@, seq!["clj"@, "cljs"@, "cljc"@]),
        ("lua"@, seq!["lua"@]),
        ("r"@, seq!["r"@]),
        ("julia"@, seq!["jl"@]),
        ("dart"@, seq!["dart"@]),
        ("zig"@, seq!["zig"@]),
        ("nim"@, seq!["nim"@]),
        ("vlang"@, seq!["v"@]),
        ("sql"@, seq!["sql"@]),
        ("shell"@, seq!["sh"@, "bash"@, "zsh"@]),
        ("powershell"@, seq!["ps1"@, "psm1"@]),
        ("yaml"@, seq!["yml"@, "yaml"@]),
        ("json"@, seq!["json"@]),
        ("toml"@, seq!["toml"@]),
        ("xml"@, seq!["xml"@]),
        ("html"@, seq!["html"@, "htm"@]),
        ("css"@, seq!["css"@]),
        ("scss"@, seq!["scss"@, "sass"@]),
        ("less"@, seq!["less"@]),
        ("markdown"@, seq!["md"@, "markdown"@]),
        ("vue"@, seq!["vue"@]),
        ("svelte"@, seq!["svelte"@]),
    ]
}

fn push_language(table: &mut Vec<Language>, name: &'static str, extensions: Vec<&'static str>)
    ensures
        language_views(final(table)@) == language_views(old(table)@).push(
            (name@, text::str_views(extensions@)),
        ),
{
    let ghost before = language_views(table@);
    table.push(Language { name, extensions });
    assert(language_views(table@) =~= before.push((name@, text::str_views(extensions@))));
}

/// The languages and the extensions of their files. An extension belongs to the first
/// language that lists it.
#[verifier::rlimit(60)]
pub fn languages() -> (table: Vec<Language>)
    ensures
        language_views(table@) == language_table(),
{
    let mut table: Vec<Language> = Vec::new();
    push_language(&mut table, "rust", vec!["rs"]);
    push_language(&mut table, "python", vec!["py", "pyw"]);
    push_language(&mut table, "javascript", vec!["js", "mjs", "cjs"]);
    push_language(&mut table, "typescript", vec!["ts", "mts", "cts"]);
    push_language(&mut table, "tsx", vec!["tsx"]);
    push_language(&mut table, "jsx", vec!["jsx"]);
    push_language(&mut table, "go", vec!["go"]);
    push_language(&mut table, "java", vec!["java"]);
    push_language(&mut table, "kotlin", vec!["kt", "kts"]);
    push_language(&mut table, "swift", vec!["swift"]);
    push_language(&mut table, "c", vec!["c", "h"]);
    push_language(&mut table, "cpp", vec!["cpp", "cc", "cxx", "hpp", "hxx"]);
    push_language(&mut table, "csharp", vec!["cs"]);
    push_language(&mut table, "ruby", vec!["rb"]);
    push_language(&mut table, "php", vec!["php"]);
    push_language(&mut table, "scala", vec!["scala"]);
    push_language(&mut table, "elixir", vec!["ex", "exs"]);
    push_language(&mut table, "erlang", vec!["erl", "hrl"]);
    push_language(&mut table, "haskell", vec!["hs"]);
    push_language(&mut table, "clojure", vec!["clj", "cljs", "cljc"]);
    push_language(&mut table, "lua", vec!["lua"]);
    push_language(&mut table, "r", vec!["r"]);
    push_language(&mut table, "julia", vec!["jl"]);
    push_language(&mut table, "dart", vec!["dart"]);
    push_language(&mut table, "zig", vec!["zig"]);
    push_language(&mut table, "nim", vec!["nim"]);
    push_language(&mut table, "vlang", vec!["v"]);
    push_language(&mut table, "sql", vec!["sql"]);
    push_language(&mut table, "shell", vec!["sh", "bash", "zsh"]);
    push_language(&mut table, "powershell", vec!["ps1", "psm1"]);
    push_language(&mut table, "yaml", vec!["yml", "yaml"]);
    push_language(&mut table, "json", vec!["json"]);
    push_language(&mut table, "toml", vec!["toml"]);
    push_language(&mut table, "xml", vec!["xml"]);
    push_language(&mut table, "html", vec!["html", "htm"]);
    push_language(&mut table, "css", vec!["css"]);
    push_language(&mut table, "scss", vec!["scss", "sass"]);
    push_language(&mut table, "less", vec!["less"]);
    push_language(&mut table, "markdown", vec!["md", "markdown"]);
    push_language(&mut table, "vue", vec!["vue"]);
    push_language(&mut table, "svelte", vec!["svelte"]);
    assert(language_views(table@) =~~= language_table());
    table
}

/// The entry lists the extension.
pub open spec fn lists(ext: Seq<char>) -> spec_fn((Seq<char>, Seq<Seq<char>>)) -> bool {
    |row: (Seq<char>, Seq<Seq<char>>)| row.1.contains(ext)
}

/// The language of files with an extension.
pub open spec fn language_of(ext: Seq<char>) -> Option<Seq<char>> {
    match seqs::first_where(language_table(), lists(ext)) {
        Some(i) => Some(language_table()[i].0),
        None => None,
    }
}

/// What the name of a language that may be missing says.
pub open spec fn name_view(name: Option<&'static str>) -> Option<Seq<char>> {
    match name {
        Some(name) => Some(name@),
        None => None,
    }
}

/// The language of files with an extension, whatever its case.
pub fn extension_to_language(ext: &str) -> (name: Option<&'static str>)
    ensures
        name_view(name) == language_of(text::lowered(ext@)),
{
    let small = text::to_lowercase(ext);
    let table = languages();
    let ghost v = language_table();
    let ghost p = lists(small@);
    let mut i: usize = 0;
    while i < table.len()
        invariant
            0 <= i <= table@.len(),
            v == language_table(),
            v == language_views(table@),
            p == lists(small@),
            small@ == text::lowered(ext@),
            forall|j: int| 0 <= j < i ==> !p(#[trigger] v[j]),
        decreases table@.len() - i,
    {
        assert(v[i as int].1 == text::str_views(table@[i as int].extensions@));
        if text::listed(&table[i].extensions, small.as_str()) {
            proof {
                assert(seqs::is_first_where(v, p, i as int));
                seqs::lemma_first_where(v, p, i as int);
            }
            return Some(table[i].name);
        }
        i += 1;
    }
    proof {
        seqs::lemma_none_where(v, p);
    }
    None
}

#[verifier::spinoff_prover]
#[verifier::rlimit(100)]
proof fn lemma_listed_once(i: int, k: int, j: int, m: int)
    requires
        0 <= i < j < language_table().len(),
        0 <= k < language_table()[i].1.len(),
        0 <= m < language_table()[j].1.len(),
    ensures
        language_table()[i].1[k].len() != language_table()[j].1[m].len() || !text::agree(
            language_table()[i].1[k],
            language_table()[j].1[m],
            8,
        ),
{
    reveal_with_fuel(text::agree, 9);
    reveal_strlit("rs");
    reveal_strlit("py");
    reveal_strlit("pyw");
    reveal_strlit("js");
    reveal_strlit("mjs");
    reveal_strlit("cjs");
    reveal_strlit("ts");
    reveal_strlit("mts");
    reveal_strlit("cts");
    reveal_strlit("tsx");
    reveal_strlit("jsx");
    reveal_strlit("go");
    reveal_strlit("java");
    reveal_strlit("kt");
    reveal_strlit("kts");
    reveal_strlit("swift");
    reveal_strlit("c");
    reveal_strlit("h");
    reveal_strlit("cpp");
    reveal_strlit("cc");
    reveal_strlit("cxx");
    reveal_strlit("hpp");
    reveal_strlit("hxx");
    reveal_strlit("cs");
    reveal_strlit("rb");
    reveal_strlit("php");
    reveal_strlit("scala");
    reveal_strlit("ex");
    reveal_strlit("exs");
    reveal_strlit("erl");
    reveal_strlit("hrl");
    reveal_strlit("hs");
    reveal_strlit("clj");
    reveal_strlit("cljs");
    reveal_strlit("cljc");
    reveal_strlit("lua");
    reveal_strlit("r");
    reveal_strlit("jl");
    reveal_strlit("dart");
    reveal_strlit("zig");
    reveal_strlit("nim");
    reveal_strlit("v");
    reveal_strlit("sql");
    reveal_strlit("sh");
    reveal_strlit("bash");
    reveal_strlit("zsh");
    reveal_strlit("ps1");
    reveal_strlit("psm1");
    reveal_strlit("yml");
    reveal_strlit("yaml");
    reveal_strlit("json");
    reveal_strlit("toml");
    reveal_strlit("xml");
    reveal_strlit("html");
    reveal_strlit("htm");
    reveal_strlit("css");
    reveal_strlit("scss");
    reveal_strlit("sass");
    reveal_strlit("less");
    reveal_strlit("md");
    reveal_strlit("markdown");
    reveal_strlit("vue");
    reveal_strlit("svelte");
}

/// Every extension in the table leads to the language that lists it.
pub proof fn extensions_lead_to_their_language(i: int, k: int)
    requires
        0 <= i < language_table().len(),
        0 <= k < language_table()[i].1.len(),
    ensures
        language_of(language_table()[i].1[k]) == Some(language_table()[i].0),
{
    let v = language_table();
    let ext = v[i].1[k];
    let p = lists(ext);
    assert(v[i].1.contains(ext));
    assert forall|j: int| 0 <= j < i implies !p(#[trigger] v[j]) by {
        if v[j].1.contains(ext) {
            let m = choose|m: int| 0 <= m < v[j].1.len() && v[j].1[m] == ext;
            lemma_listed_once(j, m, i, k);
            assert(v[j].1[m] =~= ext.subrange(0, ext.len() as int));
            text::lemma_prefix_agrees(v[j].1[m], ext, 8);
        }
    }
    assert(seqs::is_first_where(v, p, i));
    seqs::lemma_first_where(v, p, i);
}

// ---------------------------------------------------------------------------
// Paths

/// A component that names something: not empty, and not the directory itself.
pub open spec fn is_component(part: Seq<char>) -> bool {
    part.len() > 0 && part != "."@
}

/// The last of the parts that names something.
pub open spec fn last_component(list: Seq<Seq<char>>) -> Option<Seq<char>>
    decreases list.len(),
{
    if list.len() == 0 {
        None
    } else if is_component(list.last()) {
        Some(list.last())
    } else {
        last_component(list.drop_last())
    }
}

/// The name of the file that a path leads to.
pub open spec fn file_name(path: Seq<char>) -> Option<Seq<char>> {
    match last_component(scan::parts(path, '/')) {
        Some(name) if name != ".."@ => Some(name),
        _ => None,
    }
}

/// The extension of a file: what follows the last dot of its name, unless that is the first
/// character.
pub open spec fn extension_of(name: Seq<char>) -> Option<Seq<char>> {
    let list = scan::parts(name, '.');
    if list.len() < 2 || (list.len() == 2 && list[0].len() == 0) {
        None
    } else {
        Some(list.last())
    }
}

/// The extension of the file that a path leads to.
pub open spec fn path_extension(path: Seq<char>) -> Option<Seq<char>> {
    match file_name(path) {
        Some(name) => extension_of(name),
        None => None,
    }
}

fn named_last(list: &Vec<String>) -> (name: Option<String>)
    ensures
        text::opt_view(name) == last_component(text::views(list@)),
{
    let ghost v = text::views(list@);
    let mut n: usize = list.len();
    assert(v.take(n as int) =~= v);
    while n > 0
        invariant
            0 <= n <= list@.len(),
            v == text::views(list@),
            last_component(v) == last_component(v.take(n as int)),
        decreases n,
    {
        let part = &list[n - 1];
        assert(v.take(n as int).last() == part@);
        assert(v.take(n as int).drop_last() =~= v.take(n - 1));
        proof {
            reveal_strlit("");
            assert(part@.len() == 0 ==> part@ =~= ""@);
        }
        if !text::str_eq(part.as_str(), "") && !text::str_eq(part.as_str(), ".") {
            return Some(part.clone());
        }
        n -= 1;
    }
    None
}

/// The extension of the file that a path leads to.
pub fn extension(path: &str) -> (ext: Option<String>)
    ensures
        text::opt_view(ext) == path_extension(path@),
{
    let name = match named_last(&scan::split(path, '/')) {
        Some(name) => name,
        None => {
            return None;
        },
    };
    if text::str_eq(name.as_str(), "..") {
        return None;
    }
    let list = scan::split(name.as_str(), '.');
    let n: usize = list.len();
    proof {
        reveal_strlit("");
        if n > 0 {
            assert(text::views(list@)[0] == list@[0]@);
            assert(list@[0]@.len() == 0 ==> list@[0]@ =~= ""@);
        }
    }
    if n < 2 || (n == 2 && text::str_eq(list[0].as_str(), "")) {
        return None;
    }
    assert(text::views(list@).last() == list@[n - 1]@);
    Some(list[n - 1].clone())
}

// ---------------------------------------------------------------------------
// Rules

/// A loaded rule.
#[derive(Clone, Debug)]
pub struct Rule {
    /// Name of the rule: that of its file, without the extension.
    pub name: String,
    /// The markdown content.
    pub content: String,
    /// Languages this rule applies to. A rule for none applies to all.
    pub languages: Vec<String>,
}

/// What a rule says.
#[verifier::ext_equal]
pub struct RuleView {
    pub name: Seq<char>,
    pub content: Seq<char>,
    pub languages: Seq<Seq<char>>,
}

impl View for Rule {
    type V = RuleView;

    open spec fn view(&self) -> RuleView {
        RuleView {
            name: self.name@,
            content: self.content@,
            languages: text::views(self.languages@),
        }
    }
}

/// What a list of rules says.
pub open spec fn rule_views(rules: Seq<Rule>) -> Seq<RuleView> {
    Seq::new(rules.len(), |i: int| rules[i]@)
}

/// A file in the rules directory.
#[derive(Debug)]
pub struct RuleFile {
    /// Its name without the extension, if it has one.
    pub stem: Option<String>,
    /// The extension.
    pub extension: Option<String>,
    /// What it holds, if it could be read.
    pub content: Option<String>,
}

/// The name is that of the language, or begins with it and a hyphen.
pub open spec fn is_for(name: Seq<char>) -> spec_fn((Seq<char>, Seq<Seq<char>>)) -> bool {
    |row: (Seq<char>, Seq<Seq<char>>)| name == row.0 || (row.0 + "-"@).is_prefix_of(name)
}

/// The languages that a rule's name stands for.
pub open spec fn rule_languages(filename: Seq<char>) -> Seq<Seq<char>> {
    let name = text::lowered(filename);
    if name == "always"@ || name == "global"@ || name == "all"@ {
        seq![]
    } else {
        match seqs::first_where(language_table(), is_for(name)) {
            Some(i) => seq![language_table()[i].0],
            None => seq![],
        }
    }
}

/// Files with the extension hold rules.
pub open spec fn is_rule_extension(extension: Option<String>) -> bool {
    match extension {
        Some(extension) => extension@ == "md"@,
        None => false,
    }
}

/// The rule in a file, if it is one.
pub open spec fn rule_in(file: RuleFile) -> Option<RuleView> {
    match (file.stem, file.content) {
        (Some(stem), Some(content)) if is_rule_extension(file.extension) => Some(
            RuleView {
                name: stem@,
                content: content@,
                languages: rule_languages(stem@),
            },
        ),
        _ => None,
    }
}

/// The rules in the first `n` files.
pub open spec fn rules_in(files: Seq<RuleFile>, n: int) -> Seq<RuleView>
    decreases n,
{
    if n <= 0 {
        seq![]
    } else {
        match rule_in(files[n - 1]) {
            Some(rule) => rules_in(files, n - 1).push(rule),
            None => rules_in(files, n - 1),
        }
    }
}

/// One of the extensions is that of a file in the language.
pub open spec fn in_language(extensions: Seq<Seq<char>>, language: Seq<char>) -> bool {
    exists|k: int|
        0 <= k < extensions.len() && language_of(text::lowered(#[trigger] extensions[k])) == Some(
            language,
        )
}

/// The rule applies to files with one of the extensions.
pub open spec fn applies(rule: RuleView, extensions: Seq<Seq<char>>) -> bool {
    rule.languages.len() == 0 || exists|i: int|
        0 <= i < rule.languages.len() && in_language(extensions, #[trigger] rule.languages[i])
}

/// The rules that apply to files with one of the extensions.
pub open spec fn applying(rules: Seq<RuleView>, extensions: Seq<Seq<char>>) -> Seq<RuleView> {
    rules.filter(|rule: RuleView| applies(rule, extensions))
}

/// The extensions of the first `n` paths that have one.
pub open spec fn extensions_of(paths: Seq<Seq<char>>, n: int) -> Seq<Seq<char>>
    decreases n,
{
    if n <= 0 {
        seq![]
    } else {
        match path_extension(paths[n - 1]) {
            Some(ext) => extensions_of(paths, n - 1).push(ext),
            None => extensions_of(paths, n - 1),
        }
    }
}

/// A rule as it is put into a request.
pub open spec fn rule_text(rule: RuleView) -> Seq<char> {
    "## "@ + rule.name + " Rules\n\n"@ + rule.content
}

/// Rules as they are put into a request.
pub open spec fn rules_text(rules: Seq<RuleView>) -> Seq<char> {
    text::joined(Seq::new(rules.len(), |i: int| rule_text(rules[i])), "\n\n---\n\n"@)
}

/// The rules of a project.
#[derive(Clone, Debug)]
pub struct RulesEngine {
    rules_dir: String,
    rules: Vec<Rule>,
}

/// What references to rules say.
pub open spec fn rule_refs(rules: Seq<&Rule>) -> Seq<RuleView> {
    Seq::new(rules.len(), |i: int| rules[i]@)
}

/// Whether one of the extensions is that of a file in the language.
fn is_language_of(extensions: &Vec<String>, language: &str) -> (b: bool)
    ensures
        b == in_language(text::views(extensions@), language@),
{
    let ghost v = text::views(extensions@);
    let mut k: usize = 0;
    while k < extensions.len()
        invariant
            0 <= k <= extensions@.len(),
            v == text::views(extensions@),
            forall|j: int|
                0 <= j < k ==> language_of(text::lowered(#[trigger] v[j])) != Some(language@),
        decreases extensions@.len() - k,
    {
        assert(v[k as int] == extensions@[k as int]@);
        if let Some(name) = extension_to_language(extensions[k].as_str()) {
            if text::str_eq(name, language) {
                return true;
            }
        }
        k += 1;
    }
    false
}

impl Rule {
    /// Whether the rule applies to files with one of the extensions.
    pub fn applies_to(&self, extensions: &Vec<String>) -> (b: bool)
        ensures
            b == applies(self@, text::views(extensions@)),
    {
        if self.languages.len() == 0 {
            return true;
        }
        let ghost v = self@.languages;
        let ghost exts = text::views(extensions@);
        let mut i: usize = 0;
        while i < self.languages.len()
            invariant
                0 <= i <= self.languages@.len(),
                v == self@.languages,
                v.len() == self.languages@.len(),
                self.languages@.len() > 0,
                exts == text::views(extensions@),
                forall|j: int| 0 <= j < i ==> !in_language(exts, #[trigger] v[j]),
            decreases self.languages@.len() - i,
        {
            assert(v[i as int] == self.languages@[i as int]@);
            if is_language_of(extensions, self.languages[i].as_str()) {
                return true;
            }
            i += 1;
        }
        false
    }
}

impl RulesEngine {
    /// The rules.
    pub closed spec fn rules(&self) -> Seq<RuleView> {
        rule_views(self.rules@)
    }

    /// The directory of the rules.
    pub closed spec fn dir(&self) -> Seq<char> {
        self.rules_dir@
    }

    /// The rules in the files of a directory.
    pub fn new(rules_dir: String, files: &Vec<RuleFile>) -> (e: RulesEngine)
        ensures
            e.dir() == rules_dir@,
            e.rules() == rules_in(files@, files@.len() as int),
    {
        RulesEngine { rules_dir, rules: Self::load_rules(files) }
    }

    /// The rules in files: those in markdown that can be read.
    pub fn load_rules(files: &Vec<RuleFile>) -> (rules: Vec<Rule>)
        ensures
            rule_views(rules@) == rules_in(files@, files@.len() as int),
    {
        let mut rules: Vec<Rule> = Vec::new();
        let mut i: usize = 0;
        assert(rule_views(rules@) =~= seq![]);
        while i < files.len()
            invariant
                0 <= i <= files@.len(),
                rule_views(rules@) == rules_in(files@, i as int),
            decreases files@.len() - i,
        {
            let ghost before = rule_views(rules@);
            if let Some(rule) = Self::load_rule(&files[i]) {
                rules.push(rule);
                assert(rule_views(rules@) =~= before.push(rule@));
            }
            i += 1;
        }
        rules
    }

    /// Whether files with the extension hold rules. Others need not be read.
    pub fn holds_rules(extension: &Option<String>) -> (b: bool)
        ensures
            b == is_rule_extension(*extension),
    {
        match extension {
            Some(extension) => text::str_eq(extension.as_str(), "md"),
            None => false,
        }
    }

    /// The rule in a file, if it is one.
    pub fn load_rule(file: &RuleFile) -> (rule: Option<Rule>)
        ensures
            match rule {
                Some(rule) => rule_in(*file) == Some(rule@),
                None => rule_in(*file) is None,
            },
    {
        match (&file.stem, &file.content) {
            (Some(stem), Some(content)) => if Self::holds_rules(&file.extension) {
                let (name, languages) = Self::parse_rule_name(stem.as_str());
                let rule = Rule { name, content: content.clone(), languages };
                assert(rule@ =~= rule_in(*file)->0);
                Some(rule)
            } else {
                None
            },
            _ => None,
        }
    }

    /// The name of a rule and the languages it is for.
    ///
    /// - `always`, `global`, `all` and names without a language are for all.
    /// - `rust` and `rust-memory` are for Rust.
    pub fn parse_rule_name(filename: &str) -> (r: (String, Vec<String>))
        ensures
            r.0@ == filename@,
            text::views(r.1@) == rule_languages(filename@),
    {
        let small = text::to_lowercase(filename);
        let none: Vec<String> = Vec::new();
        assert(text::views(none@) =~= seq![]);
        if text::str_eq(small.as_str(), "always") || text::str_eq(small.as_str(), "global")
            || text::str_eq(small.as_str(), "all") {
            return (filename.to_owned(), none);
        }
        let table = languages();
        let ghost v = language_table();
        let ghost p = is_for(small@);
        let mut i: usize = 0;
        while i < table.len()
            invariant
                0 <= i <= table@.len(),
                v == language_table(),
                v == language_views(table@),
                p == is_for(small@),
                small@ == text::lowered(filename@),
                small@ != "always"@,
                small@ != "global"@,
                small@ != "all"@,
                forall|j: int| 0 <= j < i ==> !p(#[trigger] v[j]),
            decreases table@.len() - i,
        {
            assert(v[i as int].0 == table@[i as int].name@);
            let mut start = table[i].name.to_owned();
            start.append("-");
            if text::str_eq(small.as_str(), table[i].name) || text::starts_with(
                small.as_str(),
                start.as_str(),
            ) {
                proof {
                    assert(seqs::is_first_where(v, p, i as int));
                    seqs::lemma_first_where(v, p, i as int);
                }
                let mut list: Vec<String> = Vec::new();
                list.push(table[i].name.to_owned());
                assert(text::views(list@) =~= seq![v[i as int].0]);
                return (filename.to_owned(), list);
            }
            i += 1;
        }
        proof {
            seqs::lemma_none_where(v, p);
        }
        (filename.to_owned(), none)
    }

    /// The rules that apply to files with one of the extensions.
    pub fn get_rules_for_extensions(&self, extensions: &Vec<String>) -> (out: Vec<&Rule>)
        ensures
            rule_refs(out@) == applying(self.rules(), text::views(extensions@)),
    {
        let ghost v = self.rules();
        let ghost exts = text::views(extensions@);
        let ghost p = |rule: RuleView| applies(rule, exts);
        let mut out: Vec<&Rule> = Vec::new();
        let mut i: usize = 0;
        assert(rule_refs(out@) =~= v.take(0).filter(p)) by {
            reveal(Seq::filter);
        }
        while i < self.rules.len()
            invariant
                0 <= i <= self.rules@.len(),
                v == self.rules(),
                exts == text::views(extensions@),
                p == (|rule: RuleView| applies(rule, exts)),
                rule_refs(out@) == v.take(i as int).filter(p),
            decreases self.rules@.len() - i,
        {
            proof {
                seqs::lemma_filter_step(v, p, i as int);
            }
            let ghost before = rule_refs(out@);
            let rule = &self.rules[i];
            assert(v[i as int] == rule@);
            if rule.applies_to(extensions) {
                out.push(rule);
                assert(rule_refs(out@) =~= before.push(rule@));
            }
            i += 1;
        }
        assert(v.take(i as int) =~= v);
        out
    }

    /// The rules that apply to the files that the paths lead to.
    pub fn get_rules_for_files(&self, file_paths: &Vec<String>) -> (out: Vec<&Rule>)
        ensures
            rule_refs(out@) == applying(
                self.rules(),
                extensions_of(text::views(file_paths@), file_paths@.len() as int),
            ),
    {
        let ghost v = text::views(file_paths@);
        let mut extensions: Vec<String> = Vec::new();
        let mut i: usize = 0;
        assert(text::views(extensions@) =~= seq![]);
        while i < file_paths.len()
            invariant
                0 <= i <= file_paths@.len(),
                v == text::views(file_paths@),
                text::views(extensions@) == extensions_of(v, i as int),
            decreases file_paths@.len() - i,
        {
            let ghost before = text::views(extensions@);
            if let Some(ext) = extension(file_paths[i].as_str()) {
                extensions.push(ext);
                assert(text::views(extensions@) =~= before.push(ext@));
            }
            i += 1;
        }
        self.get_rules_for_extensions(&extensions)
    }

    /// The rules that apply to files with one of the extensions, as one text.
    pub fn get_combined_rules(&self, extensions: &Vec<String>) -> (out: String)
        ensures
            out@ == rules_text(applying(self.rules(), text::views(extensions@))),
    {
        let rules = self.get_rules_for_extensions(extensions);
        let ghost v = rule_refs(rules@);
        let ghost all = Seq::new(v.len(), |i: int| rule_text(v[i]));
        let mut list: Vec<String> = Vec::new();
        let mut i: usize = 0;
        while i < rules.len()
            invariant
                0 <= i <= rules@.len(),
                v == rule_refs(rules@),
                all == Seq::new(v.len(), |i: int| rule_text(v[i])),
                text::views(list@) =~= all.take(i as int),
            decreases rules@.len() - i,
        {
            let ghost before = text::views(list@);
            let mut part = "## ".to_owned();
            part.append(rules[i].name.as_str());
            part.append(" Rules\n\n");
            part.append(rules[i].content.as_str());
            assert(part@ == rule_text(v[i as int]));
            list.push(part);
            assert(text::views(list@) =~= before.push(part@));
            i += 1;
        }
        assert(all.take(i as int) =~= all);
        text::join(&list, "\n\n---\n\n")
    }

    /// Loads the rules anew.
    pub fn reload(&mut self, files: &Vec<RuleFile>)
        ensures
            final(self).dir() == old(self).dir(),
            final(self).rules() == rules_in(files@, files@.len() as int),
    {
        self.rules = Self::load_rules(files);
    }

    /// The directory of the rules.
    pub fn rules_dir(&self) -> (dir: &str)
        ensures
            dir@ == self.dir(),
    {
        self.rules_dir.as_str()
    }

    /// All rules.
    pub fn all_rules(&self) -> (rules: &Vec<Rule>)
        ensures
            rule_views(rules@) == self.rules(),
    {
        &self.rules
    }
}

/// A rule for no language in particular applies to every file, and the more extensions there
/// are the more rules apply.
pub proof fn more_extensions_bring_more_rules(
    rule: RuleView,
    extensions: Seq<Seq<char>>,
    more: Seq<Seq<char>>,
)
    requires
        forall|k: int| 0 <= k < extensions.len() ==> more.contains(#[trigger] extensions[k]),
    ensures
        rule.languages.len() == 0 ==> applies(rule, extensions),
        applies(rule, extensions) ==> applies(rule, more),
{
    if applies(rule, extensions) && rule.languages.len() > 0 {
        let i = choose|i: int|
            0 <= i < rule.languages.len() && in_language(extensions, #[trigger] rule.languages[i]);
        let k = choose|k: int|
            0 <= k < extensions.len() && language_of(text::lowered(#[trigger] extensions[k]))
                == Some(rule.languages[i]);
        assert(more.contains(extensions[k]));
        let m = choose|m: int| 0 <= m < more.len() && more[m] == extensions[k];
        assert(language_of(text::lowered(more[m])) == Some(rule.languages[i]));
        assert(in_language(more, rule.languages[i]));
    }
}

// ---------------------------------------------------------------------------
// Tool input

/// A character that a glob pattern may end in.
pub open spec fn is_glob_end(c: char) -> bool {
    c == '*' || c == '?' || c == ']' || c == ')'
}

/// A text without the glob characters that it ends in.
pub open spec fn without_glob_end(s: Seq<char>) -> Seq<char>
    decreases s.len(),
{
    if s.len() > 0 && is_glob_end(s.last()) {
        without_glob_end(s.drop_last())
    } else {
        s
    }
}

/// The extension that a glob pattern is for: what follows its last dot. One of ten bytes or
/// more is none.
pub open spec fn glob_extension(pattern: Seq<char>) -> Option<Seq<char>> {
    let ext = without_glob_end(scan::parts(pattern, '.').last());
    if ext.len() > 0 && text::utf8_len(ext) < 10 {
        Some(ext)
    } else {
        None
    }
}

/// The extension of the file that a tool is to work on.
pub open spec fn tool_extension(tool: Seq<char>, input: JsonView) -> Option<Seq<char>> {
    if tool == "Write"@ || tool == "Edit"@ || tool == "Read"@ {
        match json::str_opt(json::member(input, "file_path"@)) {
            Some(path) => path_extension(path),
            None => None,
        }
    } else if tool == "Glob"@ {
        match json::str_opt(json::member(input, "pattern"@)) {
            Some(pattern) => glob_extension(pattern),
            None => None,
        }
    } else {
        None
    }
}

fn trim_glob_end(s: &str) -> (out: String)
    ensures
        out@ == without_glob_end(s@),
{
    let all = text::chars_of(s);
    let mut to: usize = all.len();
    assert(s@.take(to as int) =~= s@);
    while to > 0 && (all[to - 1] == '*' || all[to - 1] == '?' || all[to - 1] == ']' || all[to - 1]
        == ')')
        invariant
            0 <= to <= all@.len(),
            all@ == s@,
            without_glob_end(s@) == without_glob_end(s@.take(to as int)),
        decreases to,
    {
        assert(s@.take(to as int).drop_last() =~= s@.take(to - 1));
        to -= 1;
    }
    assert(s@.subrange(0, to as int) =~= s@.take(to as int));
    text::string_of(all.as_slice(), 0, to)
}

fn glob_ext(pattern: &str) -> (ext: Option<String>)
    ensures
        text::opt_view(ext) == glob_extension(pattern@),
{
    let list = scan::split(pattern, '.');
    proof {
        scan::lemma_parts(pattern@, '.');
        assert(text::views(list@).len() == list@.len());
    }
    let n: usize = list.len();
    let ext = trim_glob_end(list[n - 1].as_str());
    proof {
        reveal_strlit("");
        assert(ext@.len() == 0 ==> ext@ =~= ""@);
    }
    if !text::str_eq(ext.as_str(), "") && text::byte_len(ext.as_str()) < 10 {
        Some(ext)
    } else {
        None
    }
}

/// The extension of the file, or the kind of files, that a tool is to work on.
pub fn extract_extensions_from_tool_input(tool_name: &str, input: &Json) -> (out: Vec<String>)
    ensures
        text::views(out@) == (match tool_extension(tool_name@, input@) {
            Some(ext) => seq![ext],
            None => seq![],
        }),
{
    let found = if text::str_eq(tool_name, "Write") || text::str_eq(tool_name, "Edit")
        || text::str_eq(tool_name, "Read") {
        match input.get_str("file_path") {
            Some(path) => extension(path),
            None => None,
        }
    } else if text::str_eq(tool_name, "Glob") {
        match input.get_str("pattern") {
            Some(pattern) => glob_ext(pattern),
            None => None,
        }
    } else {
        None
    };
    let mut out: Vec<String> = Vec::new();
    if let Some(ext) = found {
        out.push(ext);
        assert(text::views(out@) =~= seq![ext@]);
    } else {
        assert(text::views(out@) =~= seq![]);
    }
    out
}

/// The file name is what stands behind the last slash, and a path without one is the name.
pub proof fn the_name_stands_behind_the_last_slash(dir: Seq<char>, name: Seq<char>)
    requires
        !name.contains('/'),
        name.len() > 0,
        name != "."@,
        name != ".."@,
    ensures
        file_name(dir.push('/') + name) == Some(name),
        file_name(name) == Some(name),
        file_name(dir.push('/') + name + "/"@) == Some(name),
{
    reveal_strlit("/");
    scan::the_last_part_stands_behind(dir, name, '/');
    let path = dir.push('/') + name;
    let none = Seq::<char>::empty();
    scan::the_last_part_stands_behind(path, none, '/');
    assert(path.push('/') + none =~= path + "/"@);
    let list = scan::parts(path, '/');
    assert(list.last() == name);
    assert(seq![name].last() == name);
    assert(list.push(none).drop_last() =~= list);
    reveal_with_fuel(last_component, 2);
}

/// The extension is what stands behind the last dot of the name, if anything stands ahead of
/// that dot; a name without a dot has none, nor has one whose only dot comes first.
pub proof fn the_extension_stands_behind_the_last_dot(stem: Seq<char>, ext: Seq<char>)
    requires
        !ext.contains('.'),
    ensures
        stem.len() > 0 ==> extension_of(stem.push('.') + ext) == Some(ext),
        extension_of(ext) is None,
        extension_of(seq!['.'] + ext) is None,
{
    scan::the_last_part_stands_behind(stem, ext, '.');
    let list = scan::parts(stem.push('.') + ext, '.');
    assert(list.last() == ext);
    scan::parts_make_up_the_text(stem, '.');
    let ahead = scan::parts(stem, '.');
    if stem.len() > 0 && ahead.len() == 1 {
        assert(text::joined(ahead, seq!['.']) == ahead[0]);
    }
    let none = Seq::<char>::empty();
    scan::the_last_part_stands_behind(none, ext, '.');
    assert(none.push('.') + ext =~= seq!['.'] + ext);
    assert(scan::parts(none, '.') =~= seq![none]);
    let hidden = scan::parts(seq!['.'] + ext, '.');
    assert(hidden =~= seq![none].push(ext));
}

/// Each file is a rule or none, in the order of the files: one with the extension `md` that
/// could be read, under its own name and with all that it holds.
pub proof fn every_rule_file_is_a_rule(files: Seq<RuleFile>, file: RuleFile)
    ensures
        ({
            let before = rules_in(files, files.len() as int);
            let now = rules_in(files.push(file), files.len() + 1int);
            match (file.stem, file.extension, file.content) {
                (Some(stem), Some(extension), Some(content)) if extension@ == "md"@ => now.len()
                    == before.len() + 1 && before.is_prefix_of(now) && now.last().name == stem@
                    && now.last().content == content@ && now.last().languages == rule_languages(
                    stem@,
                ),
                _ => now == before,
            }
        }),
{
    lemma_rules_ahead(files.push(file), files, files.len() as int);
    let before = rules_in(files, files.len() as int);
    let now = rules_in(files.push(file), files.len() + 1int);
    if now.len() > before.len() {
        assert(now.subrange(0, before.len() as int) =~= before);
    }
}

proof fn lemma_rules_ahead(a: Seq<RuleFile>, b: Seq<RuleFile>, n: int)
    requires
        n <= a.len(),
        n <= b.len(),
        forall|i: int| 0 <= i < n ==> a[i] == b[i],
    ensures
        rules_in(a, n) == rules_in(b, n),
    decreases n,
{
    if n > 0 {
        lemma_rules_ahead(a, b, n - 1);
    }
}

/// A rule is for the language that its name is, or that its name begins with ahead of a hyphen;
/// `always`, `global` and `all` are for every language, and so is a name that is for none.
pub proof fn names_tell_the_language(filename: Seq<char>, i: int)
    ensures
        ({
            let name = text::lowered(filename);
            let found = rule_languages(filename);
            let everywhere = name == "always"@ || name == "global"@ || name == "all"@;
            &&& found.len() <= 1
            &&& everywhere ==> found.len() == 0
            &&& found.len() == 1 ==> (name == found[0] || (found[0] + "-"@).is_prefix_of(name))
                && exists|k: int| 0 <= k < language_table().len() && (
                #[trigger] language_table()[k]).0 == found[0]
            &&& !everywhere && 0 <= i < language_table().len() && (name == language_table()[i].0
                || (language_table()[i].0 + "-"@).is_prefix_of(name)) ==> found.len() == 1
        }),
{
    let name = text::lowered(filename);
    let table = language_table();
    match seqs::first_where(table, is_for(name)) {
        Some(k) => {
            assert(seqs::is_first_where(table, is_for(name), k));
            assert(table[k].0 == seq![table[k].0][0]);
        },
        None => {
            if 0 <= i < table.len() {
                seqs::lemma_no_first_where(table, is_for(name), i);
            }
        },
    }
}

/// The rules that apply are those for every language and those for the language of one of the
/// files, and no others; they keep their order.
pub proof fn the_rules_of_the_files_apply(
    rules: Seq<RuleView>,
    extensions: Seq<Seq<char>>,
    rule: RuleView,
)
    ensures
        applying(rules, extensions).contains(rule) <==> rules.contains(rule) && (
        rule.languages.len() == 0 || exists|i: int, k: int|
            0 <= i < rule.languages.len() && 0 <= k < extensions.len() && language_of(
                text::lowered(#[trigger] extensions[k]),
            ) == Some(#[trigger] rule.languages[i])),
        applying(rules.push(rule), extensions) == (if applies(rule, extensions) {
            applying(rules, extensions).push(rule)
        } else {
            applying(rules, extensions)
        }),
{
    let p = |rule: RuleView| applies(rule, extensions);
    assert(applying(rules, extensions) == rules.filter(p));
    lemma_filter_holds(rules, p, rule);
    if applies(rule, extensions) && rule.languages.len() > 0 {
        let i = choose|i: int|
            0 <= i < rule.languages.len() && in_language(extensions, #[trigger] rule.languages[i]);
        let k = choose|k: int|
            0 <= k < extensions.len() && language_of(text::lowered(#[trigger] extensions[k]))
                == Some(rule.languages[i]);
        assert(language_of(text::lowered(extensions[k])) == Some(rule.languages[i]));
    }
    if exists|i: int, k: int|
        0 <= i < rule.languages.len() && 0 <= k < extensions.len() && language_of(
            text::lowered(#[trigger] extensions[k]),
        ) == Some(#[trigger] rule.languages[i]) {
        let (i, k) = choose|i: int, k: int|
            0 <= i < rule.languages.len() && 0 <= k < extensions.len() && language_of(
                text::lowered(#[trigger] extensions[k]),
            ) == Some(#[trigger] rule.languages[i]);
        assert(in_language(extensions, rule.languages[i]));
    }
    let all = rules.push(rule);
    seqs::lemma_filter_step(all, p, rules.len() as int);
    assert(all.take(rules.len() as int) =~= rules);
    assert(all.take(rules.len() + 1int) =~= all);
}

proof fn lemma_filter_holds(rules: Seq<RuleView>, p: spec_fn(RuleView) -> bool, rule: RuleView)
    ensures
        rules.filter(p).contains(rule) <==> rules.contains(rule) && p(rule),
    decreases rules.len(),
{
    reveal(Seq::filter);
    if rules.len() > 0 {
        let rest = rules.drop_last();
        lemma_filter_holds(rest, p, rule);
        let all = rules.filter(p);
        if rest.filter(p).contains(rule) {
            let i = choose|i: int| 0 <= i < rest.filter(p).len() && rest.filter(p)[i] == rule;
            assert(all[i] == rule);
        }
        if rest.contains(rule) {
            let i = choose|i: int| 0 <= i < rest.len() && rest[i] == rule;
            assert(rules[i] == rule);
        }
        if rules.contains(rule) {
            let i = choose|i: int| 0 <= i < rules.len() && rules[i] == rule;
            if i < rest.len() {
                assert(rest[i] == rule);
            } else if p(rule) {
                assert(all.last() == rule);
            }
        }
        if all.contains(rule) {
            let i = choose|i: int| 0 <= i < all.len() && all[i] == rule;
            if i < rest.filter(p).len() {
                assert(rest.filter(p)[i] == rule);
            } else {
                assert(rules[rules.len() - 1] == rule);
            }
        }
    }
}

/// Every rule that applies stands in the combined text under its name, with all that it says.
pub proof fn combined_rules_hold_every_rule(rules: Seq<RuleView>, i: int)
    requires
        0 <= i < rules.len(),
    ensures
        scan::occurs(
            rules_text(rules),
            "## "@ + rules[i].name + " Rules\n\n"@ + rules[i].content,
        ),
        rules_text(Seq::<RuleView>::empty()).len() == 0,
{
    let texts = Seq::new(rules.len(), |i: int| rule_text(rules[i]));
    let sep = "\n\n---\n\n"@;
    text::joined_holds_every_item(texts, sep, i);
    let all = text::joined(texts, sep);
    let (pre, post) = choose|pre: Seq<char>, post: Seq<char>|
        all == #[trigger] (pre + texts[i] + post);
    scan::lemma_part_occurs(pre, texts[i], post);
}

/// The extensions of files are those of each that has one, in the order of the files.
pub proof fn every_file_tells_its_extension(paths: Seq<Seq<char>>, path: Seq<char>)
    ensures
        extensions_of(paths.push(path), paths.len() + 1int) == (match path_extension(path) {
            Some(ext) => extensions_of(paths, paths.len() as int).push(ext),
            None => extensions_of(paths, paths.len() as int),
        }),
        extensions_of(seq![], 0).len() == 0,
{
    lemma_extensions_ahead(paths.push(path), paths, paths.len() as int);
}

proof fn lemma_extensions_ahead(a: Seq<Seq<char>>, b: Seq<Seq<char>>, n: int)
    requires
        n <= a.len(),
        n <= b.len(),
        forall|i: int| 0 <= i < n ==> a[i] == b[i],
    ensures
        extensions_of(a, n) == extensions_of(b, n),
    decreases n,
{
    if n > 0 {
        lemma_extensions_ahead(a, b, n - 1);
    }
}

/// The tools that work on a file tell the extension of its path, the one that looks for files
/// that of its pattern, and no other tool tells any.
pub proof fn tools_tell_the_extension(
    tool: Seq<char>,
    input: JsonView,
    path: Seq<char>,
    ahead: Seq<char>,
    ext: Seq<char>,
)
    ensures
        (tool == "Write"@ || tool == "Edit"@ || tool == "Read"@) && json::member(
            input,
            "file_path"@,
        ) == Some(JsonView::Str(path)) ==> tool_extension(tool, input) == path_extension(path),
        (tool == "Write"@ || tool == "Edit"@ || tool == "Read"@) && json::member(
            input,
            "file_path"@,
        ) is None ==> tool_extension(tool, input) is None,
        tool == "Glob"@ && json::member(input, "pattern"@) == Some(
            JsonView::Str(ahead.push('.') + ext),
        ) && !ext.contains('.') && ext.len() > 0 && !is_glob_end(ext.last()) && text::utf8_len(ext)
            < 10 ==> tool_extension(tool, input) == Some(ext),
        tool != "Write"@ && tool != "Edit"@ && tool != "Read"@ && tool != "Glob"@
            ==> tool_extension(tool, input) is None,
{
    reveal_strlit("Write");
    reveal_strlit("Edit");
    reveal_strlit("Read");
    reveal_strlit("Glob");
    assert("Glob"@[0] != "Edit"@[0] && "Glob"@[0] != "Read"@[0] && "Glob"@[0] != "Write"@[0]);
    if !ext.contains('.') {
        scan::the_last_part_stands_behind(ahead, ext, '.');
        let list = scan::parts(ahead.push('.') + ext, '.');
        assert(list.last() == ext);
    }
}

} // verus!

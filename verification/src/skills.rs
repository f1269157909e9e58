//! Skills: prompts in markdown files with a head that names and describes them.

use vstd::prelude::*;

use crate::scan;
use crate::text;

verus! {

/// A skill.
#[derive(Clone, Debug)]
pub struct SkillDefinition {
    pub name: String,
    pub description: String,
    pub allowed_tools: Option<Vec<String>>,
    /// The prompt: what follows the head of the file.
    pub prompt: String,
    /// Path of the file.
    pub path: String,
}

/// What a skill says.
#[verifier::ext_equal]
pub struct SkillView {
    pub name: Seq<char>,
    pub description: Seq<char>,
    pub allowed_tools: Option<Seq<Seq<char>>>,
    pub prompt: Seq<char>,
    pub path: Seq<char>,
}

/// What an optional list of strings says.
pub open spec fn opt_views(list: Option<Vec<String>>) -> Option<Seq<Seq<char>>> {
    match list {
        Some(list) => Some(text::views(list@)),
        None => None,
    }
}

impl View for SkillDefinition {
    type V = SkillView;

    open spec fn view(&self) -> SkillView {
        SkillView {
            name: self.name@,
            description: self.description@,
            allowed_tools: opt_views(self.allowed_tools),
            prompt: self.prompt@,
            path: self.path@,
        }
    }
}

/// What a list of skills says.
pub open spec fn skill_views(skills: Seq<SkillDefinition>) -> Seq<SkillView> {
    Seq::new(skills.len(), |i: int| skills[i]@)
}

/// The head of a skill file and its body, each without the white space around it. The head
/// stands between the dashes that the file begins with and the next ones.
pub open spec fn head_and_body(content: Seq<char>) -> Option<(Seq<char>, Seq<char>)> {
    match text::behind(content, "---"@) {
        Some(rest) => match scan::cut_at(rest, "---"@) {
            Some((head, body)) => Some((scan::trimmed(head), scan::trimmed(body))),
            None => None,
        },
        None => None,
    }
}

/// The head of a skill file and its body.
pub fn split_skill_file(content: &str) -> (parts: Option<(String, String)>)
    ensures
        scan::pair_view(parts) == head_and_body(content@),
{
    match text::strip_prefix(content, "---") {
        Some(rest) => match scan::split_once(rest.as_str(), "---") {
            Some((head, body)) => Some((scan::trim(head.as_str()), scan::trim(body.as_str()))),
            None => None,
        },
        None => None,
    }
}

/// What the head of a skill file says.
#[derive(Debug)]
pub struct SkillHead {
    pub name: String,
    pub description: String,
    pub allowed_tools: Option<Vec<String>>,
}

/// The skill in a file, given its head and its body.
pub fn skill_from(head: SkillHead, body: String, path: String) -> (s: SkillDefinition)
    ensures
        s@ == (SkillView {
            name: head.name@,
            description: head.description@,
            allowed_tools: opt_views(head.allowed_tools),
            prompt: body@,
            path: path@,
        }),
{
    SkillDefinition {
        name: head.name,
        description: head.description,
        allowed_tools: head.allowed_tools,
        prompt: body,
        path,
    }
}

/// The name of a skill: its own, else that of its file or directory.
pub open spec fn skill_name(own: Seq<char>, fallback: Option<Seq<char>>) -> Seq<char> {
    if own.len() > 0 {
        own
    } else {
        match fallback {
            Some(name) => name,
            None => "unknown"@,
        }
    }
}

/// The skill under a name: where its file gives it none, the name of its file or directory.
pub fn named_skill(skill: SkillDefinition, fallback: Option<&str>) -> (s: SkillDefinition)
    ensures
        s@ == (SkillView {
            name: skill_name(skill@.name, crate::json::str_view(fallback)),
            ..skill@
        }),
{
    proof {
        reveal_strlit("");
        assert(skill.name@.len() == 0 ==> skill.name@ =~= ""@);
    }
    let mut skill = skill;
    if text::str_eq(skill.name.as_str(), "") {
        skill.name =
        match fallback {
            Some(name) => name.to_owned(),
            None => "unknown".to_owned(),
        };
    }
    skill
}

/// Where the skill of a directory entry is.
#[derive(Debug, Clone, Copy, PartialEq, Eq, Structural)]
pub enum SkillSource {
    /// In the `SKILL.md` of a directory, whose name stands in for a missing one.
    Nested,
    /// In the entry, a markdown file, whose name stands in for a missing one.
    Direct,
    /// Nowhere.
    Nowhere,
}

/// Where the skill of a directory entry is.
pub fn skill_source(is_dir: bool, has_skill_file: bool, extension: Option<&str>) -> (s: SkillSource)
    ensures
        s == (if is_dir {
            if has_skill_file {
                SkillSource::Nested
            } else {
                SkillSource::Nowhere
            }
        } else if crate::json::str_view(extension) == Some("md"@) {
            SkillSource::Direct
        } else {
            SkillSource::Nowhere
        }),
{
    if is_dir {
        if has_skill_file {
            SkillSource::Nested
        } else {
            SkillSource::Nowhere
        }
    } else {
        match extension {
            Some(ext) => if text::str_eq(ext, "md") {
                SkillSource::Direct
            } else {
                SkillSource::Nowhere
            },
            None => SkillSource::Nowhere,
        }
    }
}

/// The skills directory under another directory.
pub open spec fn skills_under(home: Seq<char>) -> Seq<char> {
    if home.len() == 0 || home.last() == '/' {
        home + ".openclaudia/skills"@
    } else {
        home + "/"@ + ".openclaudia/skills"@
    }
}

/// The directories of skills: the project's first, so that its skills win.
pub fn skill_dirs(home: Option<&str>) -> (dirs: Vec<String>)
    ensures
        text::views(dirs@) == (match home {
            Some(home) => seq![".openclaudia/skills"@, skills_under(home@)],
            None => seq![".openclaudia/skills"@],
        }),
{
    let mut dirs: Vec<String> = Vec::new();
    dirs.push(".openclaudia/skills".to_owned());
    match home {
        Some(home) => {
            let all = text::chars_of(home);
            let mut dir = home.to_owned();
            if all.len() > 0 && all[all.len() - 1] != '/' {
                dir.append("/");
            }
            dir.append(".openclaudia/skills");
            assert(dir@ =~= skills_under(home@));
            dirs.push(dir);
            assert(text::views(dirs@) =~= seq![".openclaudia/skills"@, skills_under(home@)]);
        },
        None => {
            assert(text::views(dirs@) =~= seq![".openclaudia/skills"@]);
        },
    }
    dirs
}

/// No skill ahead of the `i`-th has its name.
pub open spec fn is_first(skills: Seq<SkillView>, i: int) -> bool {
    forall|j: int| 0 <= j < i ==> (#[trigger] skills[j]).name != skills[i].name
}

/// The first of the skills with each name, among the first `n`.
pub open spec fn firsts(skills: Seq<SkillView>, n: int) -> Seq<SkillView>
    decreases n,
{
    if n <= 0 {
        seq![]
    } else if is_first(skills, n - 1) {
        firsts(skills, n - 1).push(skills[n - 1])
    } else {
        firsts(skills, n - 1)
    }
}

/// Whether one of the skills has the name.
fn is_named(skills: &Vec<SkillDefinition>, name: &str) -> (found: bool)
    ensures
        found == exists|j: int| 0 <= j < skills@.len() && (#[trigger] skills@[j]).name@ == name@,
{
    let mut j: usize = 0;
    while j < skills.len()
        invariant
            0 <= j <= skills@.len(),
            forall|k: int| 0 <= k < j ==> (#[trigger] skills@[k]).name@ != name@,
        decreases skills@.len() - j,
    {
        if text::str_eq(skills[j].name.as_str(), name) {
            return true;
        }
        j += 1;
    }
    false
}

proof fn lemma_firsts_names(skills: Seq<SkillView>, n: int, name: Seq<char>)
    requires
        0 <= n <= skills.len(),
    ensures
        (exists|j: int| 0 <= j < firsts(skills, n).len() && (#[trigger] firsts(skills, n)[j]).name == name)
            <==> (exists|i: int| 0 <= i < n && (#[trigger] skills[i]).name == name),
    decreases n,
{
    if n > 0 {
        lemma_firsts_names(skills, n - 1, name);
        let before = firsts(skills, n - 1);
        let now = firsts(skills, n);
        if exists|j: int| 0 <= j < before.len() && (#[trigger] before[j]).name == name {
            let j = choose|j: int| 0 <= j < before.len() && (#[trigger] before[j]).name == name;
            assert(now[j].name == name);
        }
        if skills[n - 1].name == name {
            if is_first(skills, n - 1) {
                assert(now.last().name == name);
            } else {
                let i = choose|i: int| 0 <= i < n - 1 && (#[trigger] skills[i]).name == name;
                assert(skills[i].name == name);
            }
        }
        if exists|j: int| 0 <= j < now.len() && (#[trigger] now[j]).name == name {
            let j = choose|j: int| 0 <= j < now.len() && (#[trigger] now[j]).name == name;
            if j < before.len() {
                assert(before[j].name == name);
            } else {
                assert(skills[n - 1].name == name);
            }
        }
    }
}

/// The skills, of those with one name only the first.
pub fn load_skills_uncached(scanned: Vec<SkillDefinition>) -> (skills: Vec<SkillDefinition>)
    ensures
        skill_views(skills@) == firsts(skill_views(scanned@), scanned@.len() as int),
{
    let ghost v = skill_views(scanned@);
    let ghost all = scanned@;
    let mut rest = scanned;
    let mut skills: Vec<SkillDefinition> = Vec::new();
    let ghost mut i: int = 0;
    assert(skill_views(skills@) =~= seq![]);
    while rest.len() > 0
        invariant
            0 <= i <= all.len(),
            v == skill_views(all),
            rest@ == all.skip(i),
            skill_views(skills@) == firsts(v, i),
        decreases rest@.len(),
    {
        let ghost before = skill_views(skills@);
        let skill = rest.remove(0);
        assert(skill == all[i]);
        assert(rest@ =~= all.skip(i + 1));
        assert(v[i] == skill@);
        let known = is_named(&skills, skill.name.as_str());
        proof {
            lemma_firsts_names(v, i, skill.name@);
            assert(known == exists|j: int|
                0 <= j < before.len() && (#[trigger] before[j]).name == skill.name@) by {
                if known {
                    let j = choose|j: int|
                        0 <= j < skills@.len() && (#[trigger] skills@[j]).name@ == skill.name@;
                    assert(before[j].name == skill.name@);
                }
                if exists|j: int| 0 <= j < before.len() && (#[trigger] before[j]).name == skill.name@ {
                    let j = choose|j: int|
                        0 <= j < before.len() && (#[trigger] before[j]).name == skill.name@;
                    assert(skills@[j].name@ == skill.name@);
                }
            }
            assert(known == !is_first(v, i));
        }
        if !known {
            skills.push(skill);
            assert(skill_views(skills@) =~= before.push(skill@));
        }
        proof {
            i = i + 1;
        }
    }
    skills
}

/// Every name that was found is loaded, from the first place it was found in.
pub proof fn first_skill_wins(skills: Seq<SkillView>, i: int)
    requires
        0 <= i < skills.len(),
    ensures
        exists|j: int|
            0 <= j < firsts(skills, skills.len() as int).len() && (#[trigger] firsts(
                skills,
                skills.len() as int,
            )[j]).name == skills[i].name,
        is_first(skills, i) ==> firsts(skills, skills.len() as int).contains(skills[i]),
{
    lemma_firsts_names(skills, skills.len() as int, skills[i].name);
    if is_first(skills, i) {
        lemma_first_is_kept(skills, i, skills.len() as int);
    }
}

proof fn lemma_first_is_kept(skills: Seq<SkillView>, i: int, n: int)
    requires
        0 <= i < n <= skills.len(),
        is_first(skills, i),
    ensures
        firsts(skills, n).contains(skills[i]),
    decreases n,
{
    let now = firsts(skills, n);
    if i == n - 1 {
        assert(now.last() == skills[i]);
        assert(now[now.len() - 1] == skills[i]);
    } else {
        lemma_first_is_kept(skills, i, n - 1);
        let before = firsts(skills, n - 1);
        let j = choose|j: int| 0 <= j < before.len() && before[j] == skills[i];
        assert(now[j] == skills[i]);
    }
}

/// No two loaded skills have the same name.
pub proof fn loaded_names_differ(skills: Seq<SkillView>, n: int, a: int, b: int)
    requires
        0 <= n <= skills.len(),
        0 <= a < b < firsts(skills, n).len(),
    ensures
        firsts(skills, n)[a].name != firsts(skills, n)[b].name,
    decreases n,
{
    let before = firsts(skills, n - 1);
    if b < before.len() {
        loaded_names_differ(skills, n - 1, a, b);
    } else {
        lemma_firsts_names(skills, n - 1, skills[n - 1].name);
        if before[a].name == skills[n - 1].name {
            assert(exists|j: int| 0 <= j < before.len() && (#[trigger] before[j]).name == skills[n - 1].name);
        }
    }
}

/// The first of the skills with a name.
pub open spec fn skill_called(skills: Seq<SkillView>, name: Seq<char>) -> Option<SkillView>
    decreases skills.len(),
{
    if skills.len() == 0 {
        None
    } else if skills[0].name == name {
        Some(skills[0])
    } else {
        skill_called(skills.drop_first(), name)
    }
}

/// The skill with a name.
pub fn get_skill<'a>(skills: &'a Vec<SkillDefinition>, name: &str) -> (s: Option<
    &'a SkillDefinition,
>)
    ensures
        (match s {
            Some(s) => Some(s@),
            None => None,
        }) == skill_called(skill_views(skills@), name@),
{
    let ghost v = skill_views(skills@);
    let mut i: usize = 0;
    assert(v.skip(0) =~= v);
    while i < skills.len()
        invariant
            0 <= i <= skills@.len(),
            v == skill_views(skills@),
            skill_called(v, name@) == skill_called(v.skip(i as int), name@),
        decreases skills@.len() - i,
    {
        assert(v.skip(i as int)[0] == skills@[i as int]@);
        assert(v.skip(i as int).drop_first() =~= v.skip(i + 1));
        if text::str_eq(skills[i].name.as_str(), name) {
            return Some(&skills[i]);
        }
        i += 1;
    }
    None
}

// ---------------------------------------------------------------------------
// Cache

/// When a directory was changed last, in nanoseconds. A directory that is not there has no
/// time.
#[derive(Debug)]
pub struct DirMtime {
    pub dir: String,
    pub mtime: Option<i128>,
}

/// When directories were changed last.
pub open spec fn mtime_views(list: Seq<DirMtime>) -> Seq<(Seq<char>, Option<i128>)> {
    Seq::new(list.len(), |i: int| (list[i].dir@, list[i].mtime))
}

fn same_mtimes(a: &Vec<DirMtime>, b: &Vec<DirMtime>) -> (same: bool)
    ensures
        same == (mtime_views(a@) == mtime_views(b@)),
{
    let ghost x = mtime_views(a@);
    let ghost y = mtime_views(b@);
    if a.len() != b.len() {
        assert(x.len() != y.len());
        return false;
    }
    let mut i: usize = 0;
    while i < a.len()
        invariant
            0 <= i <= a@.len(),
            a@.len() == b@.len(),
            x == mtime_views(a@),
            y == mtime_views(b@),
            forall|j: int| 0 <= j < i ==> #[trigger] x[j] == y[j],
        decreases a@.len() - i,
    {
        let same_time = match (a[i].mtime, b[i].mtime) {
            (Some(s), Some(t)) => s == t,
            (None, None) => true,
            _ => false,
        };
        if !same_time || !text::str_eq(a[i].dir.as_str(), b[i].dir.as_str()) {
            assert(x[i as int] != y[i as int]);
            return false;
        }
        i += 1;
    }
    assert(x =~= y);
    true
}

/// The skills as they were loaded last, and when their directories were changed then.
#[derive(Debug)]
pub struct SkillsCache {
    loaded: Option<(Vec<DirMtime>, Vec<SkillDefinition>)>,
}

/// What a cache holds.
pub type CacheView = Option<(Seq<(Seq<char>, Option<i128>)>, Seq<SkillView>)>;

impl View for SkillsCache {
    type V = CacheView;

    closed spec fn view(&self) -> CacheView {
        match self.loaded {
            Some((mtimes, skills)) => Some((mtime_views(mtimes@), skill_views(skills@))),
            None => None,
        }
    }
}

/// What is in the cache for directories that were changed last at the given times.
pub open spec fn cached(cache: CacheView, mtimes: Seq<(Seq<char>, Option<i128>)>) -> Option<
    Seq<SkillView>,
> {
    match cache {
        Some((times, skills)) if times == mtimes => Some(skills),
        _ => None,
    }
}

impl SkillsCache {
    /// A cache that holds nothing.
    pub fn new() -> (c: SkillsCache)
        ensures
            c@ is None,
    {
        SkillsCache { loaded: None }
    }

    /// The skills that were loaded last, unless a directory was changed since.
    pub fn lookup(&self, mtimes: &Vec<DirMtime>) -> (r: Option<&Vec<SkillDefinition>>)
        ensures
            (match r {
                Some(skills) => Some(skill_views(skills@)),
                None => None,
            }) == cached(self@, mtime_views(mtimes@)),
    {
        match &self.loaded {
            Some((times, skills)) => if same_mtimes(times, mtimes) {
                Some(skills)
            } else {
                None
            },
            None => None,
        }
    }

    /// Keeps the skills that were loaded.
    pub fn store(&mut self, mtimes: Vec<DirMtime>, skills: Vec<SkillDefinition>)
        ensures
            final(self)@ == Some((mtime_views(mtimes@), skill_views(skills@))),
    {
        self.loaded = Some((mtimes, skills));
    }

    /// Forgets the skills, so that they are loaded anew.
    pub fn invalidate_cache(&mut self)
        ensures
            final(self)@ is None,
    {
        self.loaded = None;
    }
}

/// What was stored is found again until a directory changes or the cache is invalidated.
pub proof fn stored_skills_are_found_again(
    mtimes: Seq<(Seq<char>, Option<i128>)>,
    skills: Seq<SkillView>,
    later: Seq<(Seq<char>, Option<i128>)>,
)
    ensures
        cached(Some((mtimes, skills)), mtimes) == Some(skills),
        later != mtimes ==> cached(Some((mtimes, skills)), later) is None,
        cached(None, later) is None,
{
}

/// A skill file begins with three dashes: its head stands between them and the next three, and
/// its prompt behind those, both without the white space around them. Another file is none.
pub proof fn heads_stand_between_dashes(head: Seq<char>, body: Seq<char>, content: Seq<char>)
    requires
        forall|j: int|
            0 <= j < head.len() ==> !#[trigger] scan::stands_at(
                head + "---"@ + body,
                "---"@,
                j,
            ),
        !"---"@.is_prefix_of(content),
    ensures
        head_and_body("---"@ + (head + "---"@ + body)) == Some(
            (scan::trimmed(head), scan::trimmed(body)),
        ),
        head_and_body(content) is None,
{
    reveal_strlit("---");
    let dashes = "---"@;
    let rest = head + dashes + body;
    let file = dashes + rest;
    assert(file.subrange(0, 3) =~= dashes);
    assert(file.skip(3) =~= rest);
    scan::texts_are_cut_at_the_first_place(rest, dashes);
    scan::lemma_part_occurs(head, dashes, body);
    let (a, b) = scan::cut_at(rest, dashes)->0;
    if a.len() < head.len() {
        assert(rest.subrange(a.len() as int, a.len() + 3int) =~= dashes);
        assert(scan::stands_at(rest, dashes, a.len() as int));
    }
    if a.len() > head.len() {
        assert(rest.subrange(head.len() as int, head.len() + 3int) =~= dashes);
        assert(scan::stands_at(rest, dashes, head.len() as int));
    }
    assert(a =~= rest.take(a.len() as int));
    assert(head =~= rest.take(head.len() as int));
    assert(b =~= rest.skip(a.len() + 3int));
    assert(body =~= rest.skip(head.len() + 3int));
}

/// A skill is called what its head says, or else what its file or directory is called.
pub proof fn skills_have_a_name(own: Seq<char>, fallback: Seq<char>)
    ensures
        own.len() > 0 ==> skill_name(own, Some(fallback)) == own && skill_name(own, None) == own,
        own.len() == 0 ==> skill_name(own, Some(fallback)) == fallback && skill_name(own, None)
            == "unknown"@,
{
}

/// The skills that are loaded are all there, in their order, where their names differ; of one
/// name the first is there and the others are not.
pub proof fn skills_are_loaded_in_order(skills: Seq<SkillView>, skill: SkillView)
    ensures
        firsts(skills.push(skill), skills.len() + 1int) == (if exists|i: int|
            0 <= i < skills.len() && (#[trigger] skills[i]).name == skill.name {
            firsts(skills, skills.len() as int)
        } else {
            firsts(skills, skills.len() as int).push(skill)
        }),
        firsts(seq![], 0).len() == 0,
{
    let all = skills.push(skill);
    lemma_firsts_ahead(all, skills, skills.len() as int);
    if exists|i: int| 0 <= i < skills.len() && (#[trigger] skills[i]).name == skill.name {
        let i = choose|i: int| 0 <= i < skills.len() && (#[trigger] skills[i]).name == skill.name;
        assert(all[i].name == skill.name);
    } else {
        assert forall|j: int| 0 <= j < skills.len() implies (#[trigger] all[j]).name
            != skill.name by {
            assert(all[j] == skills[j]);
        }
    }
}

proof fn lemma_firsts_ahead(a: Seq<SkillView>, b: Seq<SkillView>, n: int)
    requires
        n <= a.len(),
        n <= b.len(),
        forall|i: int| 0 <= i < n ==> a[i] == b[i],
    ensures
        firsts(a, n) == firsts(b, n),
    decreases n,
{
    if n > 0 {
        lemma_firsts_ahead(a, b, n - 1);
        assert(is_first(a, n - 1) == is_first(b, n - 1)) by {
            if is_first(b, n - 1) {
                assert forall|j: int| 0 <= j < n - 1 implies (#[trigger] a[j]).name
                    != a[n - 1].name by {
                    assert(b[j].name != b[n - 1].name);
                }
            }
            if is_first(a, n - 1) {
                assert forall|j: int| 0 <= j < n - 1 implies (#[trigger] b[j]).name
                    != b[n - 1].name by {
                    assert(a[j].name != a[n - 1].name);
                }
            }
        }
    }
}

/// A skill is found by its name: the first of that name, and none where no skill is called so.
pub proof fn skills_are_found_by_name(skills: Seq<SkillView>, name: Seq<char>, i: int)
    ensures
        0 <= i < skills.len() && skills[i].name == name && (forall|j: int|
            0 <= j < i ==> (#[trigger] skills[j]).name != name) ==> skill_called(skills, name)
            == Some(skills[i]),
        (forall|j: int| 0 <= j < skills.len() ==> (#[trigger] skills[j]).name != name)
            ==> skill_called(skills, name) is None,
    decreases skills.len(),
{
    if skills.len() > 0 {
        let rest = skills.drop_first();
        skills_are_found_by_name(rest, name, i - 1);
        if forall|j: int| 0 <= j < skills.len() ==> (#[trigger] skills[j]).name != name {
            assert(skills[0].name != name);
            assert forall|j: int| 0 <= j < rest.len() implies (#[trigger] rest[j]).name
                != name by {
                assert(rest[j] == skills[j + 1]);
            }
        }
        if 0 < i < skills.len() && forall|j: int|
            0 <= j < i ==> (#[trigger] skills[j]).name != name {
            assert(skills[0].name != name);
            assert forall|j: int| 0 <= j < i - 1 implies (#[trigger] rest[j]).name != name by {
                assert(rest[j] == skills[j + 1]);
            }
        }
    }
}

/// The skills of a user stand below the home directory, whether or not its name ends in a
/// slash.
pub proof fn skills_stand_below_the_home(home: Seq<char>)
    requires
        home.len() > 0,
        home.last() != '/',
    ensures
        skills_under(home) == home + "/.openclaudia/skills"@,
        skills_under(home.push('/')) == home + "/.openclaudia/skills"@,
{
    reveal_strlit("/");
    reveal_strlit("/.openclaudia/skills");
    reveal_strlit(".openclaudia/skills");
    assert(skills_under(home) =~= home + "/.openclaudia/skills"@);
    assert(skills_under(home.push('/')) =~= home + "/.openclaudia/skills"@);
}

} // verus!

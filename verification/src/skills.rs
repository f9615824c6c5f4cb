//! Skills: what is installed, what a repository offers, and how the directories of the programs
//! that use them hang together.
use crate::clock::Timestamp;
use crate::text::{concat2, concat3, eq_str, lines, starts_with, strip_prefix, trim};
use vstd::prelude::*;

verus! {

// ---------------------------------------------------------------------------
// Data
// ---------------------------------------------------------------------------

/// The programs that use a skill.
#[derive(Debug, Clone, Copy, PartialEq, Eq, Structural)]
pub struct SkillApps {
    pub codex: bool,
    pub claude: bool,
    pub gemini: bool,
    pub opencode: bool,
}

impl Default for SkillApps {
    fn default() -> (apps: SkillApps)
        ensures
            apps == (SkillApps { codex: true, claude: false, gemini: false, opencode: false }),
    {
        SkillApps { codex: true, claude: false, gemini: false, opencode: false }
    }
}

/// A skill that is installed. Its source is `local` or `github`.
#[derive(Debug)]
pub struct InstalledSkill {
    pub id: String,
    pub name: String,
    pub description: String,
    pub directory: String,
    pub source: String,
    pub repo_owner: Option<String>,
    pub repo_name: Option<String>,
    pub apps: SkillApps,
    pub installed_at: Timestamp,
}

/// A repository of skills.
#[derive(Debug)]
pub struct SkillRepo {
    pub owner: String,
    pub name: String,
    pub branch: String,
    pub enabled: bool,
}

/// A skill that a repository offers.
#[derive(Debug)]
pub struct DiscoverableSkill {
    pub key: String,
    pub name: String,
    pub description: String,
    pub directory: String,
    pub repo_owner: String,
    pub repo_name: String,
    pub repo_branch: String,
    pub installed: bool,
}

/// What is installed, and where more is to be had.
#[derive(Debug)]
pub struct SkillData {
    pub skills: Vec<InstalledSkill>,
    pub repos: Vec<SkillRepo>,
}

/// What a repository is known by.
pub open spec fn repo_view(r: SkillRepo) -> (Seq<char>, Seq<char>, Seq<char>, bool) {
    (r.owner@, r.name@, r.branch@, r.enabled)
}

/// The repositories to begin with. `program` is the name of the program that the collection of the
/// community is made for.
pub fn default_repos(program: &str) -> (repos: Vec<SkillRepo>)
    ensures
        repos@.len() == 2,
        repo_view(repos@[0]) == ("anthropics"@, "skills"@, "main"@, true),
        repo_view(repos@[1]) == (
            "ComposioHQ"@,
            "awesome-"@ + program@ + "-skills"@,
            "master"@,
            true,
        ),
{
    let mut repos: Vec<SkillRepo> = Vec::new();
    repos.push(
        SkillRepo {
            owner: "anthropics".to_owned(),
            name: "skills".to_owned(),
            branch: "main".to_owned(),
            enabled: true,
        },
    );
    repos.push(
        SkillRepo {
            owner: "ComposioHQ".to_owned(),
            name: concat3("awesome-", program, "-skills"),
            branch: "master".to_owned(),
            enabled: true,
        },
    );
    repos
}

impl SkillData {
    /// What there is to begin with: nothing is installed, and some repositories are known.
    pub fn begin(program: &str) -> (data: SkillData)
        ensures
            data.skills@.len() == 0,
            data.repos@.len() == 2,
            repo_view(data.repos@[0]) == ("anthropics"@, "skills"@, "main"@, true),
            repo_view(data.repos@[1]) == (
                "ComposioHQ"@,
                "awesome-"@ + program@ + "-skills"@,
                "master"@,
                true,
            ),
    {
        SkillData { skills: Vec::new(), repos: default_repos(program) }
    }
}

// ---------------------------------------------------------------------------
// The head of a skill file
// ---------------------------------------------------------------------------

/// The line sets the head of the file off.
pub open spec fn fence(line: Seq<char>) -> bool {
    crate::text::trimmed(line) == "---"@
}

/// What stands behind `name` at the beginning of a line.
pub open spec fn behind(line: Seq<char>, name: Seq<char>) -> Option<Seq<char>> {
    if crate::text::begins(line, name) {
        Some(crate::text::trimmed(line.skip(name.len() as int)))
    } else {
        None
    }
}

/// The name and the description that the head gives, from the line `from` on: `inside` tells
/// whether the head has begun, and `found` what it has given so far.
pub open spec fn head_from(
    list: Seq<Seq<char>>,
    from: int,
    inside: bool,
    found: (Option<Seq<char>>, Option<Seq<char>>),
) -> (Option<Seq<char>>, Option<Seq<char>>)
    decreases list.len() - from,
{
    if from < 0 || from >= list.len() {
        found
    } else if fence(list[from]) {
        if inside {
            found
        } else {
            head_from(list, from + 1, true, found)
        }
    } else if !inside {
        head_from(list, from + 1, inside, found)
    } else {
        match behind(list[from], "name:"@) {
            Some(v) => head_from(list, from + 1, inside, (Some(v), found.1)),
            None => match behind(list[from], "description:"@) {
                Some(v) => head_from(list, from + 1, inside, (found.0, Some(v))),
                None => head_from(list, from + 1, inside, found),
            },
        }
    }
}

/// The name and the description that a skill file gives.
pub open spec fn head_of(content: Option<Seq<char>>) -> (Option<Seq<char>>, Option<Seq<char>>) {
    match content {
        Some(c) => head_from(crate::text::line_list(c), 0, false, (None, None)),
        None => (None, None),
    }
}

/// The name and the description that a skill file gives; a file that cannot be read gives none.
pub fn parse_skill_md(content: Option<&str>) -> (head: (Option<String>, Option<String>))
    ensures
        (crate::json::opt_text(head.0), crate::json::opt_text(head.1)) == head_of(
            crate::json::opt_str(content),
        ),
{
    let c: &str = match content {
        Some(c) => c,
        None => return (None, None),
    };
    let list: Vec<String> = lines(c);
    let ghost all = crate::text::line_list(c@);
    let mut name: Option<String> = None;
    let mut description: Option<String> = None;
    let mut inside: bool = false;
    let mut i: usize = 0;
    while i < list.len()
        invariant
            i <= list@.len(),
            crate::text::texts(list@) == all,
            all == crate::text::line_list(c@),
            content == Some(c),
            head_from(all, 0, false, (None, None)) == head_from(
                all,
                i as int,
                inside,
                (crate::json::opt_text(name), crate::json::opt_text(description)),
            ),
        decreases list@.len() - i,
    {
        assert(all[i as int] == list@[i as int]@);
        let t: String = trim(list[i].as_str());
        if eq_str(t.as_str(), "---") {
            if inside {
                return (name, description);
            }
            inside = true;
        } else if inside {
            if let Some(rest) = strip_prefix(list[i].as_str(), "name:") {
                name = Some(trim(rest.as_str()));
            } else if let Some(rest) = strip_prefix(list[i].as_str(), "description:") {
                description = Some(trim(rest.as_str()));
            }
        }
        i += 1;
    }
    (name, description)
}

// ---------------------------------------------------------------------------
// Directories
// ---------------------------------------------------------------------------

/// A directory: its name, where that is text, what it holds of a skill file, and its directories
/// in the order in which they are read. A directory that cannot be read holds none.
#[derive(Debug)]
pub struct DirTree {
    pub name: Option<String>,
    /// There is a skill file.
    pub has_skill: bool,
    /// The content of the skill file, where it can be read.
    pub skill: Option<String>,
    pub dirs: Vec<DirTree>,
}

/// The name of a directory, empty where it is no text.
pub open spec fn dir_name(d: DirTree) -> Seq<char> {
    match d.name {
        Some(n) => n@,
        None => Seq::empty(),
    }
}

/// The name is one that is passed over.
pub open spec fn passed_over(name: Seq<char>) -> bool {
    name.len() == 0 || name[0] == '.'
}

/// What a skill is known by: directory, name and description.
pub type SkillView = (Seq<char>, Seq<char>, Seq<char>);

/// The skill in a directory: by its file, else by the name of the directory.
pub open spec fn skill_in(d: DirTree) -> SkillView {
    let head = head_of(crate::json::opt_text(d.skill));
    (
        dir_name(d),
        match head.0 {
            Some(n) => n,
            None => dir_name(d),
        },
        match head.1 {
            Some(t) => t,
            None => Seq::empty(),
        },
    )
}

/// The skills among the directories, in their order.
pub open spec fn skills_among(dirs: Seq<DirTree>) -> Seq<SkillView>
    decreases dirs,
{
    if dirs.len() == 0 {
        Seq::empty()
    } else {
        skills_among(dirs.drop_last()) + skills_at(dirs.last())
    }
}

/// The skills at a directory: its own, else those in the directories below it.
pub open spec fn skills_at(d: DirTree) -> Seq<SkillView>
    decreases d,
{
    if d.has_skill {
        if passed_over(dir_name(d)) {
            Seq::empty()
        } else {
            seq![skill_in(d)]
        }
    } else {
        skills_among(d.dirs@)
    }
}

/// The skill of a repository is offered as `s`.
pub open spec fn offered(
    s: DiscoverableSkill,
    v: SkillView,
    owner: Seq<char>,
    repo: Seq<char>,
    branch: Seq<char>,
) -> bool {
    &&& s.key@ == owner + "/"@ + repo + ":"@ + v.0
    &&& s.directory@ == v.0
    &&& s.name@ == v.1
    &&& s.description@ == v.2
    &&& s.repo_owner@ == owner
    &&& s.repo_name@ == repo
    &&& s.repo_branch@ == branch
    &&& !s.installed
}

/// The skills of a repository are offered as `list`.
pub open spec fn all_offered(
    list: Seq<DiscoverableSkill>,
    views: Seq<SkillView>,
    owner: Seq<char>,
    repo: Seq<char>,
    branch: Seq<char>,
) -> bool {
    &&& list.len() == views.len()
    &&& forall|i: int|
        0 <= i < list.len() ==> offered(#[trigger] list[i], views[i], owner, repo, branch)
}

fn is_passed_over(name: &str) -> (b: bool)
    ensures
        b == passed_over(name@),
{
    proof {
        reveal_strlit(".");
        reveal_strlit("");
    }
    let hidden: bool = starts_with(name, ".");
    assert(hidden == (name@.len() > 0 && name@[0] == '.')) by {
        if name@.len() > 0 && name@[0] == '.' {
            assert(name@.subrange(0, 1) =~= "."@);
        }
        if hidden {
            assert(name@.subrange(0, 1)[0] == '.');
        }
    }
    assert(name@.len() == 0 ==> name@ =~= ""@);
    eq_str(name, "") || hidden
}

/// The head of the skill file of a directory, with its name in place of a name that is missing.
fn skill_of(d: &DirTree) -> (s: (String, String, String))
    ensures
        (s.0@, s.1@, s.2@) == skill_in(*d),
{
    let directory: String = match &d.name {
        Some(n) => n.clone(),
        None => String::new(),
    };
    let head: (Option<String>, Option<String>) = match &d.skill {
        Some(c) => parse_skill_md(Some(c.as_str())),
        None => parse_skill_md(None),
    };
    let name: String = match head.0 {
        Some(n) => n,
        None => directory.clone(),
    };
    let description: String = match head.1 {
        Some(t) => t,
        None => String::new(),
    };
    (directory, name, description)
}

fn offer(d: &DirTree, owner: &str, repo: &str, branch: &str) -> (s: DiscoverableSkill)
    ensures
        offered(s, skill_in(*d), owner@, repo@, branch@),
{
    let v: (String, String, String) = skill_of(d);
    let mut key: String = concat3(owner, "/", repo);
    key.append(":");
    key.append(v.0.as_str());
    DiscoverableSkill {
        key,
        name: v.1,
        description: v.2,
        directory: v.0,
        repo_owner: owner.to_owned(),
        repo_name: repo.to_owned(),
        repo_branch: branch.to_owned(),
        installed: false,
    }
}

fn walk(d: &DirTree, owner: &str, repo: &str, branch: &str) -> (found: Vec<DiscoverableSkill>)
    ensures
        all_offered(found@, skills_among(d.dirs@), owner@, repo@, branch@),
    decreases d,
{
    let mut found: Vec<DiscoverableSkill> = Vec::new();
    let mut i: usize = 0;
    assert(d.dirs@.take(0) =~= Seq::empty());
    while i < d.dirs.len()
        invariant
            i <= d.dirs@.len(),
            all_offered(found@, skills_among(d.dirs@.take(i as int)), owner@, repo@, branch@),
        decreases d.dirs@.len() - i,
    {
        let sub: &DirTree = &d.dirs[i];
        assert(d.dirs@.take(i + 1).drop_last() =~= d.dirs@.take(i as int));
        assert(d.dirs@.take(i + 1).last() == *sub);
        let ghost before = found@;
        let ghost known = skills_among(d.dirs@.take(i as int));
        assert(skills_among(d.dirs@.take(i + 1)) == known + skills_at(*sub));
        if sub.has_skill {
            let named: bool = match &sub.name {
                Some(n) => !is_passed_over(n.as_str()),
                None => false,
            };
            if named {
                found.push(offer(sub, owner, repo, branch));
                assert forall|k: int| 0 <= k < found@.len() implies offered(
                    #[trigger] found@[k],
                    (known + skills_at(*sub))[k],
                    owner@,
                    repo@,
                    branch@,
                ) by {
                    if k < before.len() {
                        assert(found@[k] == before[k]);
                    }
                }
            } else {
                assert(known + skills_at(*sub) =~= known);
            }
        } else {
            assert(decreases_to!(*d => d.dirs));
            assert(decreases_to!(d.dirs => d.dirs@[i as int]));
            let mut more: Vec<DiscoverableSkill> = walk(sub, owner, repo, branch);
            let ghost rest = more@;
            found.append(&mut more);
            assert(found@ =~= before + rest);
            assert forall|k: int| 0 <= k < found@.len() implies offered(
                #[trigger] found@[k],
                (known + skills_at(*sub))[k],
                owner@,
                repo@,
                branch@,
            ) by {
                if k < before.len() {
                    assert(found@[k] == before[k]);
                } else {
                    assert(found@[k] == rest[k - before.len()]);
                }
            }
        }
        i += 1;
    }
    assert(d.dirs@.take(d.dirs@.len() as int) =~= d.dirs@);
    found
}

/// The skills that a repository offers, from the directory that it was unpacked to.
pub fn scan_for_skills(root: &DirTree, owner: &str, repo: &str, branch: &str) -> (found: Vec<
    DiscoverableSkill,
>)
    ensures
        all_offered(found@, skills_among(root.dirs@), owner@, repo@, branch@),
{
    walk(root, owner, repo, branch)
}

/// The way to the directory `target` with a skill file, among the directories from `from` on. A
/// directory whose name is no text ends the search among them.
pub open spec fn way_among(dirs: Seq<DirTree>, target: Seq<char>, from: int) -> Option<
    Seq<Seq<char>>,
>
    decreases dirs, dirs.len() - from,
{
    if from < 0 || from >= dirs.len() {
        None
    } else {
        let d = dirs[from];
        match d.name {
            None => None,
            Some(n) => if n@ == target && d.has_skill {
                Some(seq![n@])
            } else {
                match way_below(d, target) {
                    Some(way) => Some(seq![n@] + way),
                    None => way_among(dirs, target, from + 1),
                }
            },
        }
    }
}

/// The way from a directory down to the directory `target` with a skill file.
pub open spec fn way_below(d: DirTree, target: Seq<char>) -> Option<Seq<Seq<char>>>
    decreases d, 0int,
{
    way_among(d.dirs@, target, 0)
}

/// What a way says.
pub open spec fn way_view(way: Option<Vec<String>>) -> Option<Seq<Seq<char>>> {
    match way {
        Some(w) => Some(crate::text::texts(w@)),
        None => None,
    }
}

/// The way from a directory down to the directory `directory` with a skill file.
pub fn find_skill_dir(root: &DirTree, directory: &str) -> (way: Option<Vec<String>>)
    ensures
        way_view(way) == way_below(*root, directory@),
    decreases root,
{
    let mut i: usize = 0;
    while i < root.dirs.len()
        invariant
            i <= root.dirs@.len(),
            way_below(*root, directory@) == way_among(root.dirs@, directory@, i as int),
        decreases root.dirs@.len() - i,
    {
        let d: &DirTree = &root.dirs[i];
        match &d.name {
            None => return None,
            Some(n) => {
                if eq_str(n.as_str(), directory) && d.has_skill {
                    let mut way: Vec<String> = Vec::new();
                    way.push(n.clone());
                    assert(crate::text::texts(way@) =~= seq![n@]);
                    return Some(way);
                }
                assert(decreases_to!(*root => root.dirs));
                assert(decreases_to!(root.dirs => root.dirs@[i as int]));
                if let Some(rest) = find_skill_dir(d, directory) {
                    let ghost below = crate::text::texts(rest@);
                    let mut way: Vec<String> = Vec::new();
                    way.push(n.clone());
                    let mut rest: Vec<String> = rest;
                    way.append(&mut rest);
                    assert(crate::text::texts(way@) =~= seq![n@] + below);
                    return Some(way);
                }
            },
        }
        i += 1;
    }
    None
}

/// The way to the directory of a skill that is to be installed.
pub fn locate_skill(root: &DirTree, directory: &str) -> (way: Result<Vec<String>, String>)
    ensures
        match way_below(*root, directory@) {
            Some(w) => way matches Ok(v) && crate::text::texts(v@) == w,
            None => way matches Err(e) && e@ == "Skill not found in repo: "@ + directory@,
        },
{
    match find_skill_dir(root, directory) {
        Some(way) => Ok(way),
        None => Err(concat2("Skill not found in repo: ", directory)),
    }
}

/// A way ends at the directory that was looked for.
pub proof fn ways_lead_to_the_target(dirs: Seq<DirTree>, target: Seq<char>, from: int)
    ensures
        way_among(dirs, target, from) matches Some(way) ==> way.len() > 0 && way.last() == target,
    decreases dirs, dirs.len() - from,
{
    if 0 <= from < dirs.len() {
        let d = dirs[from];
        way_below_leads_to_the_target(d, target);
        ways_lead_to_the_target(dirs, target, from + 1);
        if let Some(n) = d.name {
            if let Some(way) = way_below(d, target) {
                assert((seq![n@] + way).last() == way.last());
            }
        }
    }
}

proof fn way_below_leads_to_the_target(d: DirTree, target: Seq<char>)
    ensures
        way_below(d, target) matches Some(way) ==> way.len() > 0 && way.last() == target,
    decreases d, 0int,
{
    ways_lead_to_the_target(d.dirs@, target, 0);
}

// ---------------------------------------------------------------------------
// What is installed
// ---------------------------------------------------------------------------

/// Keeps what is installed.
pub struct SkillStore;

/// A skill is recorded for the directory.
pub open spec fn recorded_dir(skills: Seq<InstalledSkill>, directory: Seq<char>) -> bool {
    exists|i: int| 0 <= i < skills.len() && (#[trigger] skills[i]).directory@ == directory
}

/// The directories of skills that are not recorded yet.
pub open spec fn unrecorded(dirs: Seq<DirTree>, skills: Seq<InstalledSkill>) -> Seq<DirTree>
    decreases dirs.len(),
{
    if dirs.len() == 0 {
        Seq::empty()
    } else {
        let rest = unrecorded(dirs.drop_last(), skills);
        let d = dirs.last();
        if d.name is Some && !(dir_name(d).len() > 0 && dir_name(d)[0] == '.') && !recorded_dir(
            skills,
            dir_name(d),
        ) {
            rest.push(d)
        } else {
            rest
        }
    }
}

/// The skill in a directory was recorded as `s` at `now`.
pub open spec fn local_skill(s: InstalledSkill, d: DirTree, now: Timestamp) -> bool {
    let v = skill_in(d);
    &&& s.id@ == "local:"@ + v.0
    &&& s.directory@ == v.0
    &&& s.name@ == v.1
    &&& s.description@ == v.2
    &&& s.source@ == "local"@
    &&& s.repo_owner is None
    &&& s.repo_name is None
    &&& s.apps == (SkillApps { codex: true, claude: false, gemini: false, opencode: false })
    &&& s.installed_at == now
}

/// A skill that a repository offers was recorded as `s` at `now`.
pub open spec fn github_skill(s: InstalledSkill, d: DiscoverableSkill, now: Timestamp) -> bool {
    &&& s.id == d.key
    &&& s.name == d.name
    &&& s.description == d.description
    &&& s.directory == d.directory
    &&& s.source@ == "github"@
    &&& s.repo_owner == Some(d.repo_owner)
    &&& s.repo_name == Some(d.repo_name)
    &&& s.apps == (SkillApps { codex: true, claude: false, gemini: false, opencode: false })
    &&& s.installed_at == now
}

/// The skills but for those of a directory.
pub open spec fn without_dir(skills: Seq<InstalledSkill>, directory: Seq<char>) -> Seq<InstalledSkill>
    decreases skills.len(),
{
    if skills.len() == 0 {
        Seq::empty()
    } else if skills.last().directory@ == directory {
        without_dir(skills.drop_last(), directory)
    } else {
        without_dir(skills.drop_last(), directory).push(skills.last())
    }
}

/// The skills but for those with an id.
pub open spec fn without_id(skills: Seq<InstalledSkill>, id: Seq<char>) -> Seq<InstalledSkill>
    decreases skills.len(),
{
    if skills.len() == 0 {
        Seq::empty()
    } else if skills.last().id@ == id {
        without_id(skills.drop_last(), id)
    } else {
        without_id(skills.drop_last(), id).push(skills.last())
    }
}

/// The first skill from `from` on with an id.
pub open spec fn skill_with_id(skills: Seq<InstalledSkill>, id: Seq<char>, from: int) -> Option<
    InstalledSkill,
>
    decreases skills.len() - from,
{
    if from < 0 || from >= skills.len() {
        None
    } else if skills[from].id@ == id {
        Some(skills[from])
    } else {
        skill_with_id(skills, id, from + 1)
    }
}

fn is_recorded(skills: &Vec<InstalledSkill>, directory: &str, n: usize) -> (b: bool)
    requires
        n <= skills@.len(),
    ensures
        b == recorded_dir(skills@.take(n as int), directory@),
{
    let ghost known = skills@.take(n as int);
    let mut i: usize = 0;
    while i < n
        invariant
            i <= n <= skills@.len(),
            known == skills@.take(n as int),
            forall|k: int| 0 <= k < i ==> (#[trigger] known[k]).directory@ != directory@,
        decreases n - i,
    {
        assert(known[i as int] == skills@[i as int]);
        if eq_str(skills[i].directory.as_str(), directory) {
            assert(known[i as int].directory@ == directory@);
            return true;
        }
        i += 1;
    }
    false
}

impl SkillStore {
    /// Records the skills in those of the directories that are not recorded yet, and counts them.
    pub fn scan_existing(data: &mut SkillData, dirs: &Vec<DirTree>, now: Timestamp) -> (imported:
        usize)
        ensures
            final(data).repos == old(data).repos,
            imported == unrecorded(dirs@, old(data).skills@).len(),
            final(data).skills@.len() == old(data).skills@.len() + imported,
            final(data).skills@.take(old(data).skills@.len() as int) == old(data).skills@,
            forall|k: int|
                0 <= k < imported ==> local_skill(
                    #[trigger] final(data).skills@[old(data).skills@.len() + k],
                    unrecorded(dirs@, old(data).skills@)[k],
                    now,
                ),
    {
        let known: usize = data.skills.len();
        let ghost first = data.skills@;
        let mut imported: usize = 0;
        let mut i: usize = 0;
        assert(first.take(known as int) =~= first);
        while i < dirs.len()
            invariant
                i <= dirs@.len(),
                imported <= i,
                data.repos == old(data).repos,
                first == old(data).skills@,
                known == first.len(),
                known <= data.skills@.len(),
                data.skills@.take(known as int) == first,
                imported == unrecorded(dirs@.take(i as int), first).len(),
                data.skills@.len() == known + imported,
                forall|k: int|
                    0 <= k < imported ==> local_skill(
                        #[trigger] data.skills@[known + k],
                        unrecorded(dirs@.take(i as int), first)[k],
                        now,
                    ),
            decreases dirs@.len() - i,
        {
            let d: &DirTree = &dirs[i];
            assert(dirs@.take(i + 1).drop_last() =~= dirs@.take(i as int));
            assert(dirs@.take(i + 1).last() == *d);
            if let Some(n) = &d.name {
                proof {
                    reveal_strlit(".");
                }
                let hidden: bool = starts_with(n.as_str(), ".");
                assert(hidden == (n@.len() > 0 && n@[0] == '.')) by {
                    if n@.len() > 0 && n@[0] == '.' {
                        assert(n@.subrange(0, 1) =~= "."@);
                    }
                    if hidden {
                        assert(n@.subrange(0, 1)[0] == '.');
                    }
                }
                if !hidden && !is_recorded(&data.skills, n.as_str(), known) {
                    let v: (String, String, String) = skill_of(d);
                    let ghost before = data.skills@;
                    data.skills.push(
                        InstalledSkill {
                            id: concat2("local:", v.0.as_str()),
                            name: v.1,
                            description: v.2,
                            directory: v.0,
                            source: "local".to_owned(),
                            repo_owner: None,
                            repo_name: None,
                            apps: SkillApps::default(),
                            installed_at: now,
                        },
                    );
                    imported += 1;
                    assert(data.skills@.take(known as int) =~= before.take(known as int));
                    assert forall|k: int| 0 <= k < imported implies local_skill(
                        #[trigger] data.skills@[known + k],
                        unrecorded(dirs@.take(i + 1), first)[k],
                        now,
                    ) by {
                        if k < imported - 1 {
                            assert(data.skills@[known + k] == before[known + k]);
                        }
                    }
                }
            }
            i += 1;
        }
        assert(dirs@.take(dirs@.len() as int) =~= dirs@);
        imported
    }

    /// Records a skill that was copied to its directory, in place of any other there.
    pub fn install_skill(data: &mut SkillData, skill: &DiscoverableSkill, now: Timestamp)
        ensures
            final(data).repos == old(data).repos,
            final(data).skills@.len() > 0,
            final(data).skills@.drop_last() == without_dir(
                old(data).skills@,
                skill.directory@,
            ),
            github_skill(final(data).skills@.last(), *skill, now),
    {
        let mut kept: Vec<InstalledSkill> = Vec::new();
        let ghost all = data.skills@;
        let mut old_skills: Vec<InstalledSkill> = Vec::new();
        std::mem::swap(&mut old_skills, &mut data.skills);
        for s in iter: old_skills
            invariant
                iter.seq() == all,
                kept@ == without_dir(all.take(iter.index()), skill.directory@),
        {
            let ghost i = iter.index();
            assert(all.take(i + 1).drop_last() =~= all.take(i));
            assert(all.take(i + 1).last() == s);
            if !eq_str(s.directory.as_str(), skill.directory.as_str()) {
                kept.push(s);
            }
        }
        assert(all.take(all.len() as int) =~= all);
        let ghost before = kept@;
        kept.push(
            InstalledSkill {
                id: skill.key.clone(),
                name: skill.name.clone(),
                description: skill.description.clone(),
                directory: skill.directory.clone(),
                source: "github".to_owned(),
                repo_owner: Some(skill.repo_owner.clone()),
                repo_name: Some(skill.repo_name.clone()),
                apps: SkillApps::default(),
                installed_at: now,
            },
        );
        assert(kept@.drop_last() =~= before);
        data.skills = kept;
    }

    /// Takes a skill out of the record: its directory is to be deleted.
    pub fn uninstall_skill(data: &mut SkillData, skill_id: &str) -> (directory: Result<
        String,
        String,
    >)
        ensures
            final(data).repos == old(data).repos,
            match skill_with_id(old(data).skills@, skill_id@, 0) {
                Some(s) => {
                    &&& directory == Ok::<String, String>(s.directory)
                    &&& final(data).skills@ == without_id(old(data).skills@, skill_id@)
                },
                None => {
                    &&& directory matches Err(e) && e@ == "Skill does not exist: "@ + skill_id@
                    &&& final(data).skills@ == old(data).skills@
                },
            },
    {
        let ghost all = data.skills@;
        let mut at: usize = 0;
        while at < data.skills.len() && !eq_str(data.skills[at].id.as_str(), skill_id)
            invariant
                at <= data.skills@.len(),
                data.skills@ == all,
                data.repos == old(data).repos,
                skill_with_id(all, skill_id@, 0) == skill_with_id(all, skill_id@, at as int),
            ensures
                at <= data.skills@.len(),
                data.skills@ == all,
                data.repos == old(data).repos,
                skill_with_id(all, skill_id@, 0) == if at < all.len() {
                    Some(all[at as int])
                } else {
                    None
                },
            decreases data.skills@.len() - at,
        {
            at += 1;
        }
        if at >= data.skills.len() {
            return Err(concat2("Skill does not exist: ", skill_id));
        }
        let directory: String = data.skills[at].directory.clone();
        let mut kept: Vec<InstalledSkill> = Vec::new();
        let mut old_skills: Vec<InstalledSkill> = Vec::new();
        std::mem::swap(&mut old_skills, &mut data.skills);
        for s in iter: old_skills
            invariant
                iter.seq() == all,
                kept@ == without_id(all.take(iter.index()), skill_id@),
        {
            let ghost i = iter.index();
            assert(all.take(i + 1).drop_last() =~= all.take(i));
            assert(all.take(i + 1).last() == s);
            if !eq_str(s.id.as_str(), skill_id) {
                kept.push(s);
            }
        }
        assert(all.take(all.len() as int) =~= all);
        data.skills = kept;
        Ok(directory)
    }
}

/// A skill that was taken out of the record is not there any more, and no other one is missing.
pub proof fn uninstalled_skills_are_gone(skills: Seq<InstalledSkill>, id: Seq<char>)
    ensures
        forall|i: int|
            0 <= i < without_id(skills, id).len() ==> (#[trigger] without_id(skills, id)[i]).id@
                != id,
        forall|i: int|
            0 <= i < skills.len() && (#[trigger] skills[i]).id@ != id ==> without_id(
                skills,
                id,
            ).contains(skills[i]),
    decreases skills.len(),
{
    if skills.len() > 0 {
        let rest = skills.drop_last();
        uninstalled_skills_are_gone(rest, id);
        let before = without_id(rest, id);
        let all = without_id(skills, id);
        assert forall|i: int| 0 <= i < all.len() implies (#[trigger] all[i]).id@ != id by {
            if i < before.len() {
                assert(all[i] == before[i]);
            }
        }
        assert forall|i: int|
            0 <= i < skills.len() && (#[trigger] skills[i]).id@ != id implies all.contains(
            skills[i],
        ) by {
            if i < rest.len() {
                assert(rest[i] == skills[i]);
                assert(before.contains(rest[i]));
                let k = choose|k: int| 0 <= k < before.len() && before[k] == rest[i];
                assert(all[k] == before[k]);
            } else {
                assert(all[all.len() - 1] == skills[i]);
            }
        }
    }
}

/// After an installation, exactly one skill is recorded for its directory, and it is the one that
/// was installed.
pub proof fn installation_leaves_one(
    before: Seq<InstalledSkill>,
    after: Seq<InstalledSkill>,
    skill: DiscoverableSkill,
    now: Timestamp,
)
    requires
        after.len() > 0,
        after.drop_last() == without_dir(before, skill.directory@),
        github_skill(after.last(), skill, now),
    ensures
        forall|i: int|
            0 <= i < after.len() && (#[trigger] after[i]).directory@ == skill.directory@ ==> i
                == after.len() - 1,
        after.last().directory@ == skill.directory@,
        after.last().id@ == skill.key@,
{
    lemma_dir_gone(before, skill.directory@);
    assert forall|i: int|
        0 <= i < after.len() && (#[trigger] after[i]).directory@ == skill.directory@ implies i
        == after.len() - 1 by {
        if i < after.len() - 1 {
            assert(after.drop_last()[i] == after[i]);
        }
    }
}

proof fn lemma_dir_gone(skills: Seq<InstalledSkill>, directory: Seq<char>)
    ensures
        !recorded_dir(without_dir(skills, directory), directory),
    decreases skills.len(),
{
    if skills.len() > 0 {
        let rest = skills.drop_last();
        lemma_dir_gone(rest, directory);
        let before = without_dir(rest, directory);
        let all = without_dir(skills, directory);
        if recorded_dir(all, directory) {
            let i = choose|i: int| 0 <= i < all.len() && (#[trigger] all[i]).directory@ == directory;
            if i < before.len() {
                assert(before[i].directory@ == directory);
            }
        }
    }
}

/// Every skill that was recorded from a directory is found there again: a second look records
/// nothing more.
pub proof fn a_second_look_finds_nothing(
    dirs: Seq<DirTree>,
    before: Seq<InstalledSkill>,
    after: Seq<InstalledSkill>,
    now: Timestamp,
)
    requires
        after.len() == before.len() + unrecorded(dirs, before).len(),
        after.take(before.len() as int) == before,
        forall|k: int|
            0 <= k < unrecorded(dirs, before).len() ==> local_skill(
                #[trigger] after[before.len() + k],
                unrecorded(dirs, before)[k],
                now,
            ),
    ensures
        unrecorded(dirs, after).len() == 0,
{
    assert(dirs.take(dirs.len() as int) =~= dirs);
    lemma_second_look(dirs, dirs, before, after, now);
}

proof fn lemma_unrecorded_grows(dirs: Seq<DirTree>, n: int, skills: Seq<InstalledSkill>)
    requires
        0 <= n <= dirs.len(),
    ensures
        unrecorded(dirs.take(n), skills).len() <= unrecorded(dirs, skills).len(),
        unrecorded(dirs.take(n), skills) == unrecorded(dirs, skills).take(
            unrecorded(dirs.take(n), skills).len() as int,
        ),
    decreases dirs.len() - n,
{
    if n < dirs.len() {
        lemma_unrecorded_grows(dirs, n + 1, skills);
        assert(dirs.take(n + 1).drop_last() =~= dirs.take(n));
        let a = unrecorded(dirs.take(n), skills);
        let b = unrecorded(dirs.take(n + 1), skills);
        let c = unrecorded(dirs, skills);
        assert(a =~= b.take(a.len() as int));
        assert(a =~= c.take(a.len() as int));
    } else {
        assert(dirs.take(n) =~= dirs);
        assert(unrecorded(dirs, skills).take(unrecorded(dirs, skills).len() as int)
            =~= unrecorded(dirs, skills));
    }
}

proof fn lemma_second_look(
    part: Seq<DirTree>,
    dirs: Seq<DirTree>,
    before: Seq<InstalledSkill>,
    after: Seq<InstalledSkill>,
    now: Timestamp,
)
    requires
        part.len() <= dirs.len(),
        part == dirs.take(part.len() as int),
        after.len() == before.len() + unrecorded(dirs, before).len(),
        after.take(before.len() as int) == before,
        forall|k: int|
            0 <= k < unrecorded(dirs, before).len() ==> local_skill(
                #[trigger] after[before.len() + k],
                unrecorded(dirs, before)[k],
                now,
            ),
    ensures
        unrecorded(part, after).len() == 0,
    decreases part.len(),
{
    if part.len() > 0 {
        let rest = part.drop_last();
        assert(rest =~= dirs.take(rest.len() as int));
        lemma_second_look(rest, dirs, before, after, now);
        let d = part.last();
        let name = dir_name(d);
        if d.name is Some && !(name.len() > 0 && name[0] == '.') {
            if recorded_dir(before, name) {
                let i = choose|i: int|
                    0 <= i < before.len() && (#[trigger] before[i]).directory@ == name;
                assert(after.take(before.len() as int)[i] == before[i]);
                assert(after[i].directory@ == name);
            } else {
                lemma_unrecorded_grows(dirs, part.len() as int, before);
                let k = unrecorded(part, before).len() - 1;
                assert(unrecorded(part, before)[k] == d);
                assert(unrecorded(dirs, before)[k] == d);
                assert(local_skill(after[before.len() + k], d, now));
                assert(after[before.len() + k].directory@ == name);
            }
        }
    }
}

// ---------------------------------------------------------------------------
// Repositories
// ---------------------------------------------------------------------------

/// A repository of that owner and name is among them.
pub open spec fn has_repo(repos: Seq<SkillRepo>, owner: Seq<char>, name: Seq<char>) -> bool {
    exists|i: int|
        0 <= i < repos.len() && (#[trigger] repos[i]).owner@ == owner && repos[i].name@ == name
}

/// The repositories but for those of that owner and name.
pub open spec fn without_repo(
    repos: Seq<SkillRepo>,
    owner: Seq<char>,
    name: Seq<char>,
) -> Seq<SkillRepo>
    decreases repos.len(),
{
    if repos.len() == 0 {
        Seq::empty()
    } else if repos.last().owner@ == owner && repos.last().name@ == name {
        without_repo(repos.drop_last(), owner, name)
    } else {
        without_repo(repos.drop_last(), owner, name).push(repos.last())
    }
}

/// The repositories that are switched on, in their order.
pub open spec fn switched_on(repos: Seq<SkillRepo>) -> Seq<SkillRepo>
    decreases repos.len(),
{
    if repos.len() == 0 {
        Seq::empty()
    } else if repos.last().enabled {
        switched_on(repos.drop_last()).push(repos.last())
    } else {
        switched_on(repos.drop_last())
    }
}

/// The repositories that are switched on, in their order.
pub fn enabled_repos(data: &SkillData) -> (repos: Vec<SkillRepo>)
    ensures
        repos@ == switched_on(data.repos@),
{
    let ghost all = data.repos@;
    let mut repos: Vec<SkillRepo> = Vec::new();
    let mut i: usize = 0;
    assert(repos@ =~= switched_on(all.take(0)));
    while i < data.repos.len()
        invariant
            i <= data.repos@.len(),
            all == data.repos@,
            repos@ == switched_on(all.take(i as int)),
        decreases data.repos@.len() - i,
    {
        assert(all.take(i + 1).drop_last() =~= all.take(i as int));
        let r: &SkillRepo = &data.repos[i];
        if r.enabled {
            repos.push(
                SkillRepo {
                    owner: r.owner.clone(),
                    name: r.name.clone(),
                    branch: r.branch.clone(),
                    enabled: true,
                },
            );
        }
        i += 1;
    }
    assert(all.take(all.len() as int) =~= all);
    repos
}

/// Adds a repository, unless there is one of that owner and name.
pub fn add_skill_repo(data: &mut SkillData, owner: String, name: String, branch: String) -> (
    outcome: Result<(), String>)
    ensures
        final(data).skills == old(data).skills,
        if has_repo(old(data).repos@, owner@, name@) {
            &&& outcome matches Err(e) && e@ == "Repo already exists"@
            &&& final(data).repos@ == old(data).repos@
        } else {
            &&& outcome is Ok
            &&& final(data).repos@ == old(data).repos@.push(
                SkillRepo { owner, name, branch, enabled: true },
            )
        },
{
    let mut i: usize = 0;
    while i < data.repos.len()
        invariant
            i <= data.repos@.len(),
            data.repos == old(data).repos,
            data.skills == old(data).skills,
            forall|k: int|
                0 <= k < i ==> !((#[trigger] data.repos@[k]).owner@ == owner@
                    && data.repos@[k].name@ == name@),
        decreases data.repos@.len() - i,
    {
        if eq_str(data.repos[i].owner.as_str(), owner.as_str()) && eq_str(
            data.repos[i].name.as_str(),
            name.as_str(),
        ) {
            assert(data.repos@[i as int].owner@ == owner@);
            return Err("Repo already exists".to_owned());
        }
        i += 1;
    }
    data.repos.push(SkillRepo { owner, name, branch, enabled: true });
    Ok(())
}

/// Takes the repositories of that owner and name out.
pub fn remove_skill_repo(data: &mut SkillData, owner: &str, name: &str)
    ensures
        final(data).skills == old(data).skills,
        final(data).repos@ == without_repo(old(data).repos@, owner@, name@),
{
    let ghost all = data.repos@;
    let mut kept: Vec<SkillRepo> = Vec::new();
    let mut repos: Vec<SkillRepo> = Vec::new();
    std::mem::swap(&mut repos, &mut data.repos);
    for r in iter: repos
        invariant
            iter.seq() == all,
            kept@ == without_repo(all.take(iter.index()), owner@, name@),
    {
        let ghost i = iter.index();
        assert(all.take(i + 1).drop_last() =~= all.take(i));
        assert(all.take(i + 1).last() == r);
        if !(eq_str(r.owner.as_str(), owner) && eq_str(r.name.as_str(), name)) {
            kept.push(r);
        }
    }
    assert(all.take(all.len() as int) =~= all);
    data.repos = kept;
}

/// A repository that was added and is taken out again leaves things as they were.
pub proof fn removing_undoes_adding(
    repos: Seq<SkillRepo>,
    owner: String,
    name: String,
    branch: String,
)
    requires
        !has_repo(repos, owner@, name@),
    ensures
        without_repo(
            repos.push(SkillRepo { owner, name, branch, enabled: true }),
            owner@,
            name@,
        ) == repos,
{
    lemma_without_stranger(repos, owner@, name@);
    assert(repos.push(SkillRepo { owner, name, branch, enabled: true }).drop_last() =~= repos);
}

proof fn lemma_without_stranger(repos: Seq<SkillRepo>, owner: Seq<char>, name: Seq<char>)
    requires
        !has_repo(repos, owner, name),
    ensures
        without_repo(repos, owner, name) == repos,
    decreases repos.len(),
{
    if repos.len() > 0 {
        let rest = repos.drop_last();
        if has_repo(rest, owner, name) {
            let i = choose|i: int|
                0 <= i < rest.len() && (#[trigger] rest[i]).owner@ == owner && rest[i].name@
                    == name;
            assert(repos[i].owner@ == owner);
        }
        lemma_without_stranger(rest, owner, name);
        assert(repos[repos.len() - 1] == repos.last());
        assert(without_repo(repos, owner, name) =~= repos);
    } else {
        assert(without_repo(repos, owner, name) =~= repos);
    }
}

/// The address of the archive of a repository.
pub fn archive_url(owner: &str, name: &str, branch: &str) -> (url: String)
    ensures
        url@ == "https://github.com/"@ + owner@ + "/"@ + name@ + "/archive/refs/heads/"@ + branch@
            + ".zip"@,
{
    let mut url: String = concat3("https://github.com/", owner, "/");
    url.append(name);
    url.append("/archive/refs/heads/");
    url.append(branch);
    url.append(".zip");
    url
}

/// The skills that are offered, each with whether it is installed.
pub fn discover_skills(found: Vec<DiscoverableSkill>, data: &SkillData) -> (list: Vec<
    DiscoverableSkill,
>)
    ensures
        list@.len() == found@.len(),
        forall|i: int|
            0 <= i < list@.len() ==> #[trigger] list@[i] == (DiscoverableSkill {
                installed: recorded_dir(data.skills@, found@[i].directory@),
                ..found@[i]
            }),
{
    let ghost all = found@;
    let mut list: Vec<DiscoverableSkill> = Vec::new();
    for s in iter: found
        invariant
            iter.seq() == all,
            list@.len() == iter.index(),
            forall|i: int|
                0 <= i < list@.len() ==> #[trigger] list@[i] == (DiscoverableSkill {
                    installed: recorded_dir(data.skills@, all[i].directory@),
                    ..all[i]
                }),
    {
        assert(data.skills@.take(data.skills@.len() as int) =~= data.skills@);
        let installed: bool = is_recorded(
            &data.skills,
            s.directory.as_str(),
            data.skills.len(),
        );
        list.push(DiscoverableSkill { installed, ..s });
    }
    list
}

// ---------------------------------------------------------------------------
// The directories of the programs
// ---------------------------------------------------------------------------

/// What stands where the skills of a program are looked for.
#[derive(Debug, Clone, Copy, PartialEq, Eq, Structural)]
pub enum PathKind {
    /// A link, to the common directory or elsewhere.
    Link { to_common: bool },
    /// A directory of its own. One that cannot be read counts as not empty.
    Dir { empty: bool },
    /// A file.
    File,
    /// Nothing.
    Missing,
}

/// What is to be done there, in this order.
#[derive(Debug, Clone, Copy, PartialEq, Eq, Structural)]
pub struct LinkPlan {
    /// Delete the link.
    pub remove_link: bool,
    /// Delete the directory, with all that it holds.
    pub remove_dir: bool,
    /// Make a link to the common directory.
    pub make_link: bool,
}

/// What it takes to have a link to the common directory there. A directory that is not empty is
/// left alone.
pub open spec fn plan_to_link(kind: PathKind) -> LinkPlan {
    match kind {
        PathKind::Link { to_common } => LinkPlan {
            remove_link: !to_common,
            remove_dir: false,
            make_link: !to_common,
        },
        PathKind::Dir { empty } => LinkPlan {
            remove_link: false,
            remove_dir: empty,
            make_link: empty,
        },
        PathKind::File => LinkPlan { remove_link: false, remove_dir: false, make_link: true },
        PathKind::Missing => LinkPlan { remove_link: false, remove_dir: false, make_link: true },
    }
}

/// What it takes to have nothing there.
pub open spec fn plan_to_unlink(kind: PathKind) -> LinkPlan {
    LinkPlan { remove_link: kind is Link, remove_dir: kind is Dir, make_link: false }
}

/// What it takes to have a link to the common directory there.
pub fn link_app_to_ssot(kind: PathKind) -> (plan: LinkPlan)
    ensures
        plan == plan_to_link(kind),
{
    match kind {
        PathKind::Link { to_common } => LinkPlan {
            remove_link: !to_common,
            remove_dir: false,
            make_link: !to_common,
        },
        PathKind::Dir { empty } => LinkPlan {
            remove_link: false,
            remove_dir: empty,
            make_link: empty,
        },
        PathKind::File => LinkPlan { remove_link: false, remove_dir: false, make_link: true },
        PathKind::Missing => LinkPlan { remove_link: false, remove_dir: false, make_link: true },
    }
}

/// What stands there after a plan was carried out. No link can be made where a file stands.
pub open spec fn after_plan(kind: PathKind, plan: LinkPlan) -> PathKind {
    if plan.make_link && kind !is File {
        PathKind::Link { to_common: true }
    } else if plan.remove_link || plan.remove_dir {
        PathKind::Missing
    } else {
        kind
    }
}

/// A link is made at most once: where it stands, nothing more is done. Where a file is in the way,
/// it never stands.
pub proof fn linking_is_done_once(kind: PathKind)
    requires
        kind !is File,
    ensures
        plan_to_link(after_plan(kind, plan_to_link(kind))) == (LinkPlan {
            remove_link: false,
            remove_dir: false,
            make_link: false,
        }),
{
}

/// Making a link never deletes a directory that holds something.
pub proof fn linking_keeps_what_is_there(kind: PathKind)
    ensures
        kind == (PathKind::Dir { empty: false }) ==> after_plan(kind, plan_to_link(kind)) == kind,
{
}

/// Whatever stood there, nothing does once the link was switched on and off again; only a file
/// stays.
pub proof fn unlinking_undoes_linking(kind: PathKind)
    requires
        kind !is File,
    ensures
        after_plan(
            after_plan(kind, plan_to_link(kind)),
            plan_to_unlink(after_plan(kind, plan_to_link(kind))),
        ) == PathKind::Missing,
{
}

/// A program that uses skills.
#[derive(Debug, Clone, Copy, PartialEq, Eq, Structural)]
pub enum SkillApp {
    Codex,
    Claude,
    Gemini,
    Opencode,
}

/// The programs that use skills, in the order in which they are seen to.
pub fn all_apps() -> (apps: Vec<SkillApp>)
    ensures
        apps@ == seq![SkillApp::Codex, SkillApp::Claude, SkillApp::Gemini, SkillApp::Opencode],
{
    let mut apps: Vec<SkillApp> = Vec::new();
    apps.push(SkillApp::Codex);
    apps.push(SkillApp::Claude);
    apps.push(SkillApp::Gemini);
    apps.push(SkillApp::Opencode);
    assert(apps@ =~= seq![
        SkillApp::Codex,
        SkillApp::Claude,
        SkillApp::Gemini,
        SkillApp::Opencode,
    ]);
    apps
}

/// The directory of the skills of a program, below the home directory. `name` is the name of the
/// program in lower case.
pub open spec fn app_path(app: SkillApp, name: Seq<char>) -> Seq<Seq<char>> {
    match app {
        SkillApp::Opencode => seq![".config"@, name, "skills"@],
        _ => seq!["."@ + name, "skills"@],
    }
}

/// The directory of the skills of a program, below the home directory.
pub fn app_skills_dir(app: SkillApp, name: &str) -> (path: Vec<String>)
    ensures
        crate::text::texts(path@) == app_path(app, name@),
{
    let mut path: Vec<String> = Vec::new();
    match app {
        SkillApp::Opencode => {
            path.push(".config".to_owned());
            path.push(name.to_owned());
        },
        _ => {
            path.push(concat2(".", name));
        },
    }
    path.push("skills".to_owned());
    assert(crate::text::texts(path@) =~= app_path(app, name@));
    path
}

/// What is to be done so that all programs share the common directory.
#[derive(Debug, Clone, Copy, PartialEq, Eq, Structural)]
pub struct InitPlan {
    /// Make the common directory.
    pub create: bool,
    /// Move what the directory of Codex holds there.
    pub migrate: bool,
    /// See to the links of all programs.
    pub link: bool,
}

/// What is to be done so that all programs share the common directory. `exists` tells whether it is
/// there, and `codex` what stands where the skills of Codex are looked for.
pub open spec fn plan_to_share(exists: bool, codex: PathKind) -> InitPlan {
    if exists && codex is Link {
        InitPlan { create: false, migrate: false, link: false }
    } else {
        InitPlan { create: !exists, migrate: !exists && codex is Dir, link: true }
    }
}

/// What is to be done so that all programs share the common directory.
pub fn init_ssot(exists: bool, codex: PathKind) -> (plan: InitPlan)
    ensures
        plan == plan_to_share(exists, codex),
{
    let is_link: bool = match codex {
        PathKind::Link { .. } => true,
        _ => false,
    };
    let is_dir: bool = match codex {
        PathKind::Dir { .. } => true,
        _ => false,
    };
    if exists && is_link {
        InitPlan { create: false, migrate: false, link: false }
    } else {
        InitPlan { create: !exists, migrate: !exists && is_dir, link: true }
    }
}

impl SkillStore {
    /// What is to be done so that the links of all programs are right: they are seen to in any
    /// case.
    pub fn sync_all(exists: bool, codex: PathKind) -> (plan: InitPlan)
        ensures
            plan == (InitPlan { link: true, ..plan_to_share(exists, codex) }),
    {
        let plan: InitPlan = init_ssot(exists, codex);
        InitPlan { create: plan.create, migrate: plan.migrate, link: true }
    }

    /// Switches the link of a program on or off; `name` is what it was asked for by.
    pub fn toggle_app_link(app: Option<SkillApp>, name: &str, enabled: bool, kind: PathKind) -> (
        plan: Result<LinkPlan, String>)
        ensures
            if app is None {
                plan matches Err(e) && e@ == "Unknown app: "@ + name@
            } else {
                plan == Ok::<LinkPlan, String>(
                    if enabled {
                        plan_to_link(kind)
                    } else {
                        plan_to_unlink(kind)
                    },
                )
            },
    {
        if app.is_none() {
            return Err(concat2("Unknown app: ", name));
        }
        if enabled {
            return Ok(link_app_to_ssot(kind));
        }
        let remove_link: bool = match kind {
            PathKind::Link { .. } => true,
            _ => false,
        };
        let remove_dir: bool = match kind {
            PathKind::Dir { .. } => true,
            _ => false,
        };
        Ok(LinkPlan { remove_link, remove_dir, make_link: false })
    }

    /// Whether a program has the skills of the common directory, or some of its own.
    pub fn get_app_link_status(kind: PathKind) -> (linked: bool)
        ensures
            linked == match kind {
                PathKind::Link { to_common } => to_common,
                PathKind::Dir { .. } => true,
                PathKind::File => false,
                PathKind::Missing => false,
            },
    {
        match kind {
            PathKind::Link { to_common } => to_common,
            PathKind::Dir { .. } => true,
            PathKind::File => false,
            PathKind::Missing => false,
        }
    }
}

// ---------------------------------------------------------------------------
// Archives
// ---------------------------------------------------------------------------

/// An archive in memory, as `zip` holds it.
#[verifier::external_type_specification]
#[verifier::external_body]
#[verifier::reject_recursive_types(R)]
pub struct ExZipArchive<R>(zip::ZipArchive<R>);

/// Bytes with a position, as `std::io` holds them.
#[verifier::external_type_specification]
#[verifier::external_body]
#[verifier::reject_recursive_types(T)]
pub struct ExCursor<T>(std::io::Cursor<T>);

/// An entry of an archive: its name, whether it is a directory, and its content or why that cannot
/// be read.
#[derive(Debug)]
pub struct ZipEntry {
    pub name: String,
    pub is_dir: bool,
    pub content: Result<Vec<u8>, String>,
}

/// What an entry of an archive says.
pub struct ZipEntryView {
    pub name: Seq<char>,
    pub is_dir: bool,
    pub content: Result<Seq<u8>, Seq<char>>,
}

/// What an entry of an archive says.
pub open spec fn entry_view(e: ZipEntry) -> ZipEntryView {
    ZipEntryView {
        name: e.name@,
        is_dir: e.is_dir,
        content: match e.content {
            Ok(c) => Ok(c@),
            Err(m) => Err(m@),
        },
    }
}

/// The entries of an archive, each or why it cannot be read.
pub uninterp spec fn entries_in(
    archive: zip::ZipArchive<std::io::Cursor<Vec<u8>>>,
) -> Seq<Result<ZipEntryView, Seq<char>>>;

/// What `zip` reads out of bytes: the entries, or why the bytes are no archive.
pub uninterp spec fn zip_read(
    data: Seq<u8>,
) -> Result<Seq<Result<ZipEntryView, Seq<char>>>, Seq<char>>;

/// `zip::ZipArchive::new` over a cursor on the bytes: an archive, or the text of the error. Both
/// depend on the bytes alone.
#[verifier::external_body]
fn open_archive(data: Vec<u8>) -> (archive: Result<
    zip::ZipArchive<std::io::Cursor<Vec<u8>>>,
    String,
>)
    ensures
        match archive {
            Ok(a) => zip_read(data@) == Ok::<Seq<Result<ZipEntryView, Seq<char>>>, Seq<char>>(
                entries_in(a),
            ),
            Err(e) => zip_read(data@) == Err::<Seq<Result<ZipEntryView, Seq<char>>>, Seq<char>>(e@),
        },
{
    zip::ZipArchive::new(std::io::Cursor::new(data)).map_err(|e| e.to_string())
}

/// `zip::ZipArchive::len`: the number of entries.
#[verifier::external_body]
fn archive_len(archive: &zip::ZipArchive<std::io::Cursor<Vec<u8>>>) -> (n: usize)
    ensures
        n == entries_in(*archive).len(),
{
    archive.len()
}

/// `zip::ZipArchive::by_index`, with `name`, `is_dir` and `read_to_end` of the file that it hands
/// out: the entry at a position, or the text of the error. The entries stay as they are.
#[verifier::external_body]
fn read_entry(archive: &mut zip::ZipArchive<std::io::Cursor<Vec<u8>>>, i: usize) -> (entry: Result<
    ZipEntry,
    String,
>)
    requires
        i < entries_in(*old(archive)).len(),
    ensures
        entries_in(*final(archive)) == entries_in(*old(archive)),
        entries_in(*old(archive))[i as int] == match entry {
            Ok(e) => Ok::<ZipEntryView, Seq<char>>(entry_view(e)),
            Err(m) => Err::<ZipEntryView, Seq<char>>(m@),
        },
{
    let mut file = archive.by_index(i).map_err(|e| e.to_string())?;
    let mut content = Vec::new();
    let read = std::io::Read::read_to_end(&mut file, &mut content);
    Ok(
        ZipEntry {
            name: file.name().to_string(),
            is_dir: file.is_dir(),
            content: read.map(|_| content).map_err(|e| e.to_string()),
        },
    )
}

/// A step of unpacking an archive.
#[derive(Debug)]
pub enum UnpackStep {
    /// Make this directory.
    MakeDir(String),
    /// Make this file, and the directory it is in, with this content.
    MakeFile(String, Vec<u8>),
}

/// How an archive is unpacked: the steps in their order, and why it ends early, where it does.
#[derive(Debug)]
pub struct UnpackPlan {
    pub steps: Vec<UnpackStep>,
    pub error: Option<String>,
}

/// What a step says.
pub open spec fn step_view(s: UnpackStep) -> (Seq<char>, Option<Seq<u8>>) {
    match s {
        UnpackStep::MakeDir(n) => (n@, None),
        UnpackStep::MakeFile(n, c) => (n@, Some(c@)),
    }
}

/// What a list of steps says.
pub open spec fn steps_view(list: Seq<UnpackStep>) -> Seq<(Seq<char>, Option<Seq<u8>>)> {
    list.map_values(|s: UnpackStep| step_view(s))
}

/// The steps for the entries from `from` on, and why they end early. A file whose content cannot be
/// read is made empty before they do.
pub open spec fn unpack_from(entries: Seq<Result<ZipEntryView, Seq<char>>>, from: int) -> (
    Seq<(Seq<char>, Option<Seq<u8>>)>,
    Option<Seq<char>>,
)
    decreases entries.len() - from,
{
    if from < 0 || from >= entries.len() {
        (Seq::empty(), None)
    } else {
        match entries[from] {
            Err(m) => (Seq::empty(), Some("Failed to read ZIP entry: "@ + m)),
            Ok(e) => {
                let rest = unpack_from(entries, from + 1);
                if e.is_dir {
                    (seq![(e.name, None)] + rest.0, rest.1)
                } else {
                    match e.content {
                        Ok(c) => (seq![(e.name, Some(c))] + rest.0, rest.1),
                        Err(m) => (
                            seq![(e.name, Some(Seq::empty()))],
                            Some("Read failed: "@ + m),
                        ),
                    }
                }
            },
        }
    }
}

/// How the archive in `data` is unpacked.
pub open spec fn unpacked(
    read: Result<Seq<Result<ZipEntryView, Seq<char>>>, Seq<char>>,
) -> (Seq<(Seq<char>, Option<Seq<u8>>)>, Option<Seq<char>>) {
    match read {
        Err(m) => (Seq::empty(), Some("Failed to open ZIP: "@ + m)),
        Ok(entries) => unpack_from(entries, 0),
    }
}

/// The step for an entry, and why the unpacking ends with it, where it does.
pub fn unpack_entry(entry: Result<ZipEntry, String>) -> (r: (Option<UnpackStep>, Option<String>))
    ensures
        match entry {
            Err(m) => r.0 is None && (r.1 matches Some(t) && t@ == "Failed to read ZIP entry: "@
                + m@),
            Ok(e) => if e.is_dir {
                r.1 is None && (r.0 matches Some(s) && step_view(s) == (
                    e.name@,
                    None::<Seq<u8>>,
                ))
            } else {
                match e.content {
                    Ok(c) => r.1 is None && (r.0 matches Some(s) && step_view(s) == (
                        e.name@,
                        Some(c@),
                    )),
                    Err(m) => (r.1 matches Some(t) && t@ == "Read failed: "@ + m@) && (
                    r.0 matches Some(s) && step_view(s) == (e.name@, Some(Seq::<u8>::empty()))),
                }
            },
        },
{
    match entry {
        Err(m) => (None, Some(concat2("Failed to read ZIP entry: ", m.as_str()))),
        Ok(e) => if e.is_dir {
            (Some(UnpackStep::MakeDir(e.name)), None)
        } else {
            match e.content {
                Ok(c) => (Some(UnpackStep::MakeFile(e.name, c)), None),
                Err(m) => {
                    let nothing: Vec<u8> = Vec::new();
                    assert(nothing@ =~= Seq::empty());
                    (
                        Some(UnpackStep::MakeFile(e.name, nothing)),
                        Some(concat2("Read failed: ", m.as_str())),
                    )
                },
            }
        },
    }
}

/// How the archive in `data` is unpacked.
pub fn extract_zip(data: Vec<u8>) -> (plan: UnpackPlan)
    ensures
        (steps_view(plan.steps@), crate::json::opt_text(plan.error)) == unpacked(
            zip_read(data@),
        ),
{
    let mut steps: Vec<UnpackStep> = Vec::new();
    assert(steps_view(steps@) =~= Seq::empty());
    let mut archive: zip::ZipArchive<std::io::Cursor<Vec<u8>>> = match open_archive(data) {
        Ok(a) => a,
        Err(m) => {
            return UnpackPlan {
                steps,
                error: Some(concat2("Failed to open ZIP: ", m.as_str())),
            };
        },
    };
    let ghost entries = entries_in(archive);
    let n: usize = archive_len(&archive);
    let mut i: usize = 0;
    assert(steps_view(steps@) + unpack_from(entries, 0).0 =~= unpack_from(entries, 0).0);
    while i < n
        invariant
            i <= n,
            n == entries.len(),
            entries_in(archive) == entries,
            zip_read(data@) == Ok::<Seq<Result<ZipEntryView, Seq<char>>>, Seq<char>>(entries),
            unpack_from(entries, 0) == (
                steps_view(steps@) + unpack_from(entries, i as int).0,
                unpack_from(entries, i as int).1,
            ),
        decreases n - i,
    {
        let ghost before = steps@;
        let entry: Result<ZipEntry, String> = read_entry(&mut archive, i);
        let r: (Option<UnpackStep>, Option<String>) = unpack_entry(entry);
        if let Some(s) = r.0 {
            let ghost v = step_view(s);
            steps.push(s);
            assert(steps_view(steps@) =~= steps_view(before).push(v));
            assert(steps_view(steps@) =~= steps_view(before) + seq![v]);
        }
        if r.1.is_some() {
            assert(unpack_from(entries, i as int).1 == crate::json::opt_text(r.1));
            assert(steps_view(steps@) =~= unpack_from(entries, 0).0);
            return UnpackPlan { steps, error: r.1 };
        }
        assert(steps_view(before) + unpack_from(entries, i as int).0 =~= steps_view(steps@)
            + unpack_from(entries, i + 1).0);
        i += 1;
    }
    assert(steps_view(steps@) + Seq::<(Seq<char>, Option<Seq<u8>>)>::empty() =~= steps_view(
        steps@,
    ));
    UnpackPlan { steps, error: None }
}


// ---------------------------------------------------------------------------
// What heads, directories and archives come to
// ---------------------------------------------------------------------------

/// What the lines of a head give, after `found`.
spec fn given(
    body: Seq<Seq<char>>,
    found: (Option<Seq<char>>, Option<Seq<char>>),
) -> (Option<Seq<char>>, Option<Seq<char>>)
    decreases body.len(),
{
    if body.len() == 0 {
        found
    } else {
        let so_far = given(body.drop_last(), found);
        match behind(body.last(), "name:"@) {
            Some(v) => (Some(v), so_far.1),
            None => match behind(body.last(), "description:"@) {
                Some(v) => (so_far.0, Some(v)),
                None => so_far,
            },
        }
    }
}

proof fn lemma_head_inside(
    list: Seq<Seq<char>>,
    from: int,
    to: int,
    found: (Option<Seq<char>>, Option<Seq<char>>),
)
    requires
        0 <= from <= to <= list.len(),
        forall|i: int| from <= i < to ==> !fence(#[trigger] list[i]),
    ensures
        head_from(list, from, true, found) == head_from(
            list,
            to,
            true,
            given(list.subrange(from, to), found),
        ),
    decreases to - from,
{
    if from < to {
        lemma_head_inside(list, from, to - 1, found);
        assert(list.subrange(from, to).drop_last() =~= list.subrange(from, to - 1));
        assert(list.subrange(from, to).last() == list[to - 1]);
    } else {
        assert(list.subrange(from, to) =~= Seq::<Seq<char>>::empty());
    }
}

proof fn lemma_head_outside(list: Seq<Seq<char>>, from: int, to: int)
    requires
        0 <= from <= to <= list.len(),
        forall|i: int| from <= i < to ==> !fence(#[trigger] list[i]),
    ensures
        head_from(list, from, false, (None, None)) == head_from(list, to, false, (None, None)),
    decreases to - from,
{
    if from < to {
        lemma_head_outside(list, from + 1, to);
    }
}

proof fn lemma_fence()
    ensures
        fence("---"@),
{
    reveal_strlit("---");
    crate::text::lemma_trimmed_same("---"@);
}

proof fn lemma_head_of_body(body: Seq<Seq<char>>)
    requires
        forall|i: int| 0 <= i < body.len() ==> !fence(#[trigger] body[i]),
    ensures
        head_from(seq!["---"@] + body, 0, false, (None, None)) == given(body, (None, None)),
{
    let list = seq!["---"@] + body;
    lemma_fence();
    assert(list[0] == "---"@);
    assert forall|i: int| 1 <= i < list.len() implies !fence(#[trigger] list[i]) by {
        assert(list[i] == body[i - 1]);
    }
    lemma_head_inside(list, 1, list.len() as int, (None, None));
    assert(list.subrange(1, list.len() as int) =~= body);
}

/// Only what stands between the first two lines of three dashes counts: neither what is before
/// them nor what follows gives anything.
pub proof fn heads_stand_between_dashes(
    pre: Seq<Seq<char>>,
    a: Seq<char>,
    body: Seq<Seq<char>>,
    b: Seq<char>,
    rest: Seq<Seq<char>>,
)
    requires
        forall|i: int| 0 <= i < pre.len() ==> crate::text::trimmed(#[trigger] pre[i]) != "---"@,
        forall|i: int| 0 <= i < body.len() ==> crate::text::trimmed(#[trigger] body[i]) != "---"@,
        crate::text::trimmed(a) == "---"@,
        crate::text::trimmed(b) == "---"@,
    ensures
        head_from(pre + seq![a] + body + seq![b] + rest, 0, false, (None, None)) == head_from(
            seq!["---"@] + body,
            0,
            false,
            (None, None),
        ),
        head_from(pre, 0, false, (None, None)) == (None::<Seq<char>>, None::<Seq<char>>),
{
    let list = pre + seq![a] + body + seq![b] + rest;
    let n = pre.len() as int;
    let m = n + 1 + body.len();
    assert forall|i: int| 0 <= i < n implies !fence(#[trigger] list[i]) by {
        assert(list[i] == pre[i]);
    }
    lemma_head_outside(list, 0, n);
    assert(list[n] == a);
    assert forall|i: int| n + 1 <= i < m implies !fence(#[trigger] list[i]) by {
        assert(list[i] == body[i - n - 1]);
    }
    lemma_head_inside(list, n + 1, m, (None, None));
    assert(list.subrange(n + 1, m) =~= body);
    assert(list[m] == b);
    assert(forall|i: int| 0 <= i < body.len() ==> !fence(#[trigger] body[i]));
    lemma_head_of_body(body);
    assert forall|i: int| 0 <= i < n implies !fence(#[trigger] pre[i]) by {}
    lemma_head_outside(pre, 0, n);
}

/// Inside a head, a line that begins with the word for the name gives the name, one that begins
/// with the word for the description gives that, without the blanks around it; of several the last
/// one counts, and any other line gives nothing.
pub proof fn lines_of_a_head_give_what_they_name(body: Seq<Seq<char>>, line: Seq<char>)
    requires
        forall|i: int| 0 <= i < body.len() ==> crate::text::trimmed(#[trigger] body[i]) != "---"@,
        crate::text::trimmed(line) != "---"@,
    ensures
        ({
            let before = head_from(seq!["---"@] + body, 0, false, (None, None));
            let after = head_from(seq!["---"@] + body.push(line), 0, false, (None, None));
            &&& crate::text::begins(line, "name:"@) ==> after == (
                Some(crate::text::trimmed(line.skip(5))),
                before.1,
            )
            &&& crate::text::begins(line, "description:"@) ==> after == (
                before.0,
                Some(crate::text::trimmed(line.skip(12))),
            )
            &&& !crate::text::begins(line, "name:"@) && !crate::text::begins(line, "description:"@)
                ==> after == before
        }),
        head_from(seq!["---"@], 0, false, (None, None)) == (None::<Seq<char>>, None::<Seq<char>>),
{
    reveal_strlit("name:");
    reveal_strlit("description:");
    assert(forall|i: int| 0 <= i < body.len() ==> !fence(#[trigger] body[i]));
    lemma_head_of_body(body);
    let more = body.push(line);
    assert forall|i: int| 0 <= i < more.len() implies !fence(#[trigger] more[i]) by {
        if i < body.len() {
            assert(more[i] == body[i]);
        }
    }
    lemma_head_of_body(more);
    assert(more.drop_last() =~= body);
    if crate::text::begins(line, "name:"@) && crate::text::begins(line, "description:"@) {
        assert(line.subrange(0, 0 + "name:"@.len() as int)[0] == 'n');
        assert(line.subrange(0, 0 + "description:"@.len() as int)[0] == 'd');
    }
    lemma_head_of_body(Seq::empty());
    assert(seq!["---"@] + Seq::<Seq<char>>::empty() =~= seq!["---"@]);
}

/// A skill is known by the name of its directory; its own name and description are those of its
/// file, and where the file gives none, that of the directory and nothing.
pub proof fn skills_are_known_by_their_files(d: DirTree)
    requires
        d.name is Some,
    ensures
        skill_in(d).0 == d.name->0@,
        d.skill is None ==> skill_in(d) == (d.name->0@, d.name->0@, Seq::<char>::empty()),
        d.skill matches Some(c) ==> ({
            let head = head_from(crate::text::line_list(c@), 0, false, (None, None));
            &&& head.0 is Some ==> skill_in(d).1 == head.0->0
            &&& head.0 is None ==> skill_in(d).1 == d.name->0@
            &&& head.1 is Some ==> skill_in(d).2 == head.1->0
            &&& head.1 is None ==> skill_in(d).2.len() == 0
        }),
{
}

/// One directory more brings one skill more where it holds a skill file and is not hidden; without
/// a skill file it brings the skills of the directories below it, and they come last.
pub proof fn directories_bring_their_skills(dirs: Seq<DirTree>, d: DirTree)
    ensures
        skills_among(Seq::<DirTree>::empty()).len() == 0,
        d.has_skill && (d.name matches Some(n) && n@.len() > 0 && n@[0] != '.') ==> skills_among(
            dirs.push(d),
        ) == skills_among(dirs).push(skill_in(d)),
        d.has_skill && (d.name matches Some(n) && (n@.len() == 0 || n@[0] == '.')) ==> skills_among(
            dirs.push(d),
        ) == skills_among(dirs),
        d.has_skill && d.name is None ==> skills_among(dirs.push(d)) == skills_among(dirs),
        !d.has_skill ==> skills_among(dirs.push(d)) == skills_among(dirs) + skills_among(d.dirs@),
{
    reveal_with_fuel(skills_among, 3);
    reveal_with_fuel(skills_at, 3);
    assert(dirs.push(d).drop_last() =~= dirs);
    assert(dirs.push(d).last() == d);
    assert(skills_among(dirs) + Seq::<SkillView>::empty() =~= skills_among(dirs));
    assert(skills_among(dirs) + seq![skill_in(d)] =~= skills_among(dirs).push(skill_in(d)));
}

/// What is offered carries the repository that it is from and is known by it and its directory; it
/// does not count as installed.
pub proof fn offers_name_their_repository(
    list: Seq<DiscoverableSkill>,
    views: Seq<SkillView>,
    owner: Seq<char>,
    repo: Seq<char>,
    branch: Seq<char>,
    i: int,
)
    requires
        all_offered(list, views, owner, repo, branch),
        0 <= i < views.len(),
    ensures
        list.len() == views.len(),
        list[i].key@ == owner + "/"@ + repo + ":"@ + list[i].directory@,
        list[i].directory@ == views[i].0,
        list[i].name@ == views[i].1,
        list[i].description@ == views[i].2,
        list[i].repo_owner@ == owner,
        list[i].repo_name@ == repo,
        list[i].repo_branch@ == branch,
        !list[i].installed,
{
    assert(offered(list[i], views[i], owner, repo, branch));
}

/// The names lead from directory to directory, and the last one has a skill file.
pub open spec fn leads(dirs: Seq<DirTree>, way: Seq<Seq<char>>) -> bool
    decreases way.len(),
{
    &&& way.len() > 0
    &&& exists|i: int|
        0 <= i < dirs.len() && ((#[trigger] dirs[i]).name matches Some(n) && n@ == way[0]) && if way.len()
            == 1 {
            dirs[i].has_skill
        } else {
            leads(dirs[i].dirs@, way.skip(1))
        }
}

proof fn lemma_ways_lead(dirs: Seq<DirTree>, target: Seq<char>, from: int)
    ensures
        way_among(dirs, target, from) matches Some(way) ==> leads(dirs, way),
    decreases dirs, dirs.len() - from,
{
    if 0 <= from < dirs.len() {
        let d = dirs[from];
        lemma_way_below_leads(d, target);
        lemma_ways_lead(dirs, target, from + 1);
        if let Some(n) = d.name {
            if n@ == target && d.has_skill {
                let way = seq![n@];
                assert(dirs[from].name matches Some(m) && m@ == way[0]);
                assert(leads(dirs, way));
            } else if let Some(below) = way_below(d, target) {
                let way = seq![n@] + below;
                assert(way.skip(1) =~= below);
                assert(dirs[from].name matches Some(m) && m@ == way[0]);
                assert(leads(dirs, way));
            }
        }
    }
}

proof fn lemma_way_below_leads(d: DirTree, target: Seq<char>)
    ensures
        way_below(d, target) matches Some(way) ==> leads(d.dirs@, way),
    decreases d, 0int,
{
    lemma_ways_lead(d.dirs@, target, 0);
}

/// A way that is found leads from directory to directory to one with a skill file, of the name that
/// was looked for.
pub proof fn ways_can_be_gone(d: DirTree, target: Seq<char>)
    ensures
        way_below(d, target) matches Some(way) ==> leads(d.dirs@, way) && way.last() == target,
{
    lemma_way_below_leads(d, target);
    ways_lead_to_the_target(d.dirs@, target, 0);
}

/// A directory of the name that is looked for, with a skill file, is found, and so is one below a
/// directory, unless a directory before it has a name that is no text.
pub proof fn skills_that_are_there_are_found(
    dirs: Seq<DirTree>,
    target: Seq<char>,
    from: int,
    i: int,
)
    requires
        0 <= from <= i < dirs.len(),
        forall|k: int| from <= k <= i ==> (#[trigger] dirs[k]).name is Some,
    ensures
        dirs[i].name->0@ == target && dirs[i].has_skill ==> way_among(dirs, target, from) is Some,
        way_among(dirs[i].dirs@, target, 0) is Some ==> way_among(dirs, target, from) is Some,
        dirs[from].name->0@ == target && dirs[from].has_skill ==> way_among(dirs, target, from)
            == Some(seq![target]),
    decreases i - from,
{
    reveal_with_fuel(way_below, 2);
    reveal_with_fuel(way_among, 2);
    if from < i {
        skills_that_are_there_are_found(dirs, target, from + 1, i);
    }
}

/// A directory is recorded as a skill just where its name is a text that is not hidden and no skill
/// is recorded for it yet.
pub proof fn new_directories_are_recorded(
    dirs: Seq<DirTree>,
    d: DirTree,
    skills: Seq<InstalledSkill>,
)
    ensures
        unrecorded(Seq::empty(), skills).len() == 0,
        ({
            let before = unrecorded(dirs, skills);
            let after = unrecorded(dirs.push(d), skills);
            &&& d.name is None ==> after == before
            &&& (d.name matches Some(n) && n@.len() > 0 && n@[0] == '.') ==> after == before
            &&& d.name is Some && (exists|i: int|
                0 <= i < skills.len() && (#[trigger] skills[i]).directory@ == d.name->0@) ==> after
                == before
            &&& (d.name matches Some(n) && (n@.len() == 0 || n@[0] != '.')) && (forall|i: int|
                0 <= i < skills.len() ==> (#[trigger] skills[i]).directory@ != d.name->0@) ==> after
                == before.push(d)
        }),
{
    assert(dirs.push(d).drop_last() =~= dirs);
}

/// What is recorded of a skill that was installed is what was offered, where it came from, and that
/// Codex uses it and no other program does.
pub proof fn installed_skills_are_what_was_offered(
    s: InstalledSkill,
    d: DiscoverableSkill,
    now: Timestamp,
)
    requires
        github_skill(s, d, now),
    ensures
        s.id@ == d.key@,
        s.name@ == d.name@,
        s.description@ == d.description@,
        s.directory@ == d.directory@,
        s.source@ == "github"@,
        s.repo_owner matches Some(o) && o@ == d.repo_owner@,
        s.repo_name matches Some(n) && n@ == d.repo_name@,
        s.apps.codex && !s.apps.claude && !s.apps.gemini && !s.apps.opencode,
        s.installed_at == now,
{
}

/// A skill that was found on disk is recorded with its directory, has no repository, and is used by
/// Codex and no other program.
pub proof fn found_skills_are_local(s: InstalledSkill, d: DirTree, now: Timestamp)
    requires
        local_skill(s, d, now),
        d.name is Some,
    ensures
        s.id@ == "local:"@ + d.name->0@,
        s.directory@ == d.name->0@,
        s.name@ == skill_in(d).1,
        s.description@ == skill_in(d).2,
        s.source@ == "local"@,
        s.repo_owner is None,
        s.repo_name is None,
        s.apps.codex && !s.apps.claude && !s.apps.gemini && !s.apps.opencode,
        s.installed_at == now,
{
}

/// Taking out the skills of a directory, or those with an id, keeps every other one in its place:
/// one more skill stays just where it is not one of them.
pub proof fn taking_out_keeps_the_others(
    skills: Seq<InstalledSkill>,
    s: InstalledSkill,
    directory: Seq<char>,
    id: Seq<char>,
)
    ensures
        without_dir(Seq::empty(), directory).len() == 0,
        s.directory@ == directory ==> without_dir(skills.push(s), directory) == without_dir(
            skills,
            directory,
        ),
        s.directory@ != directory ==> without_dir(skills.push(s), directory) == without_dir(
            skills,
            directory,
        ).push(s),
        without_id(Seq::empty(), id).len() == 0,
        s.id@ == id ==> without_id(skills.push(s), id) == without_id(skills, id),
        s.id@ != id ==> without_id(skills.push(s), id) == without_id(skills, id).push(s),
{
    assert(skills.push(s).drop_last() =~= skills);
}

proof fn lemma_skill_with_id(skills: Seq<InstalledSkill>, id: Seq<char>, from: int)
    requires
        0 <= from,
    ensures
        match skill_with_id(skills, id, from) {
            Some(s) => s.id@ == id && exists|i: int|
                from <= i < skills.len() && #[trigger] skills[i] == s && forall|k: int|
                    from <= k < i ==> (#[trigger] skills[k]).id@ != id,
            None => forall|k: int|
                from <= k < skills.len() ==> (#[trigger] skills[k]).id@ != id,
        },
    decreases skills.len() - from,
{
    if from < skills.len() && skills[from].id@ != id {
        lemma_skill_with_id(skills, id, from + 1);
    }
}

/// A skill is found by its id just where one has it, and of several the first is.
pub proof fn skills_are_found_by_their_ids(skills: Seq<InstalledSkill>, id: Seq<char>)
    ensures
        skill_with_id(skills, id, 0) is None <==> forall|k: int|
            0 <= k < skills.len() ==> (#[trigger] skills[k]).id@ != id,
        skill_with_id(skills, id, 0) matches Some(s) ==> s.id@ == id && exists|i: int|
            0 <= i < skills.len() && #[trigger] skills[i] == s && forall|k: int|
                0 <= k < i ==> (#[trigger] skills[k]).id@ != id,
{
    lemma_skill_with_id(skills, id, 0);
}

/// Taking out a repository keeps every one that differs in its owner or its name, in its order.
pub proof fn taking_out_a_repository_keeps_the_others(
    repos: Seq<SkillRepo>,
    r: SkillRepo,
    owner: Seq<char>,
    name: Seq<char>,
)
    ensures
        without_repo(Seq::empty(), owner, name).len() == 0,
        r.owner@ == owner && r.name@ == name ==> without_repo(repos.push(r), owner, name)
            == without_repo(repos, owner, name),
        r.owner@ != owner || r.name@ != name ==> without_repo(repos.push(r), owner, name)
            == without_repo(repos, owner, name).push(r),
        has_repo(repos.push(r), r.owner@, r.name@),
        has_repo(repos, owner, name) ==> has_repo(repos.push(r), owner, name),
        !has_repo(Seq::empty(), owner, name),
        !has_repo(repos, owner, name) && (r.owner@ != owner || r.name@ != name) ==> !has_repo(
            repos.push(r),
            owner,
            name,
        ),
{
    let more = repos.push(r);
    assert(more.drop_last() =~= repos);
    assert(more[repos.len() as int] == r);
    if has_repo(repos, owner, name) {
        let i = choose|i: int|
            0 <= i < repos.len() && (#[trigger] repos[i]).owner@ == owner && repos[i].name@ == name;
        assert(more[i] == repos[i]);
    }
    if has_repo(more, owner, name) {
        let i = choose|i: int|
            0 <= i < more.len() && (#[trigger] more[i]).owner@ == owner && more[i].name@ == name;
        if i < repos.len() {
            assert(repos[i] == more[i]);
        }
    }
}

/// The repositories that are asked are those that are enabled, in their order.
pub proof fn enabled_repositories_are_asked(repos: Seq<SkillRepo>)
    ensures
        switched_on(repos) == repos.filter(|r: SkillRepo| r.enabled),
    decreases repos.len(),
{
    reveal(Seq::filter);
    if repos.len() > 0 {
        enabled_repositories_are_asked(repos.drop_last());
    }
}

/// A link to the common directory is made where there is none, in place of a link elsewhere or of a
/// directory that is empty; a directory that holds something stays, and where the link stands
/// nothing is done. Switching off deletes the link or the directory and makes none.
pub proof fn what_links_take(empty: bool)
    ensures
        ({
            let p = plan_to_link(PathKind::Link { to_common: true });
            !p.remove_link && !p.remove_dir && !p.make_link
        }),
        ({
            let p = plan_to_link(PathKind::Link { to_common: false });
            p.remove_link && !p.remove_dir && p.make_link
        }),
        ({
            let p = plan_to_link(PathKind::Dir { empty });
            !p.remove_link && p.remove_dir == empty && p.make_link == empty
        }),
        ({
            let p = plan_to_link(PathKind::Missing);
            !p.remove_link && !p.remove_dir && p.make_link
        }),
        ({
            let p = plan_to_link(PathKind::File);
            !p.remove_link && !p.remove_dir && p.make_link
        }),
        forall|kind: PathKind|
            #![trigger plan_to_unlink(kind)]
            {
                &&& !plan_to_unlink(kind).make_link
                &&& plan_to_unlink(kind).remove_link == (kind is Link)
                &&& plan_to_unlink(kind).remove_dir == (kind is Dir)
            },
{
}

/// The common directory is made where it is missing, and only then is the directory of Codex moved
/// there; the links are seen to unless the directory is there and Codex has its link.
pub proof fn what_sharing_takes(there: bool, codex: PathKind)
    ensures
        plan_to_share(there, codex).create == !there,
        plan_to_share(there, codex).migrate <==> !there && codex is Dir,
        plan_to_share(there, codex).link <==> !(there && codex is Link),
{
}

/// The skills of a program stand in a directory of that name below a hidden one of the program's
/// name, but for Opencode, which has its own below the one for settings.
pub proof fn where_programs_keep_their_skills(app: SkillApp, name: Seq<char>)
    ensures
        app_path(app, name).last() == "skills"@,
        app == SkillApp::Opencode ==> app_path(app, name).drop_last() == seq![".config"@, name],
        app != SkillApp::Opencode ==> app_path(app, name).drop_last() == seq!["."@ + name],
{
    if app == SkillApp::Opencode {
        assert(app_path(app, name).drop_last() =~= seq![".config"@, name]);
    } else {
        assert(app_path(app, name).drop_last() =~= seq!["."@ + name]);
    }
}

proof fn lemma_unpack(entries: Seq<Result<ZipEntryView, Seq<char>>>, from: int, to: int)
    requires
        0 <= from <= to <= entries.len(),
        forall|i: int|
            from <= i < to ==> ((#[trigger] entries[i]) matches Ok(e) && (e.is_dir
                || e.content is Ok)),
    ensures
        unpack_from(entries, from).0.len() == to - from + unpack_from(entries, to).0.len(),
        unpack_from(entries, from).1 == unpack_from(entries, to).1,
        unpack_from(entries, from).0.skip(to - from) == unpack_from(entries, to).0,
        forall|i: int|
            from <= i < to ==> #[trigger] unpack_from(entries, from).0[i - from] == (
                entries[i]->Ok_0.name,
                if entries[i]->Ok_0.is_dir {
                    None
                } else {
                    Some(entries[i]->Ok_0.content->Ok_0)
                },
            ),
    decreases to - from,
{
    if from < to {
        lemma_unpack(entries, from + 1, to);
        let rest = unpack_from(entries, from + 1).0;
        let all = unpack_from(entries, from).0;
        assert(entries[from] matches Ok(e) && (e.is_dir || e.content is Ok));
        assert(all =~= seq![all[0]] + rest);
        assert(all.skip(to - from) =~= rest.skip(to - from - 1));
        assert forall|i: int| from <= i < to implies #[trigger] all[i - from] == (
            entries[i]->Ok_0.name,
            if entries[i]->Ok_0.is_dir {
                None
            } else {
                Some(entries[i]->Ok_0.content->Ok_0)
            },
        ) by {
            if i > from {
                assert(all[i - from] == rest[i - (from + 1)]);
            }
        }
    } else {
        assert(unpack_from(entries, from).0.skip(0) =~= unpack_from(entries, to).0);
    }
}

/// An archive whose entries can all be read is unpacked entry by entry, in their order: a directory
/// for a directory, and for a file a file with its very content.
pub proof fn archives_are_unpacked_entry_by_entry(
    entries: Seq<Result<ZipEntryView, Seq<char>>>,
    k: int,
)
    requires
        forall|i: int|
            0 <= i < entries.len() ==> ((#[trigger] entries[i]) matches Ok(e) && (e.is_dir
                || e.content is Ok)),
        0 <= k < entries.len(),
    ensures
        ({
            let plan = unpacked(Ok(entries));
            &&& plan.1 is None
            &&& plan.0.len() == entries.len()
            &&& plan.0[k].0 == entries[k]->Ok_0.name
            &&& entries[k]->Ok_0.is_dir ==> plan.0[k].1 is None
            &&& !entries[k]->Ok_0.is_dir ==> plan.0[k].1 == Some(entries[k]->Ok_0.content->Ok_0)
        }),
{
    lemma_unpack(entries, 0, entries.len() as int);
    assert(unpack_from(entries, 0).0[k - 0] == unpack_from(entries, 0).0[k]);
}

/// Unpacking ends at the first entry that cannot be read, with its reason and with what came before
/// done; a file whose content cannot be read is made empty before. What is no archive is not
/// unpacked at all.
pub proof fn unpacking_ends_at_what_cannot_be_read(
    entries: Seq<Result<ZipEntryView, Seq<char>>>,
    n: int,
    reason: Seq<char>,
)
    requires
        0 <= n < entries.len(),
        forall|i: int|
            0 <= i < n ==> ((#[trigger] entries[i]) matches Ok(e) && (e.is_dir || e.content is Ok)),
    ensures
        unpacked(Err(reason)).0.len() == 0,
        unpacked(Err(reason)).1 == Some("Failed to open ZIP: "@ + reason),
        entries[n] == Err::<ZipEntryView, Seq<char>>(reason) ==> unpacked(Ok(entries)).0.len() == n
            && unpacked(Ok(entries)).1 == Some("Failed to read ZIP entry: "@ + reason),
        (entries[n] matches Ok(e) && !e.is_dir && e.content == Err::<Seq<u8>, Seq<char>>(reason))
            ==> unpacked(Ok(entries)).0.len() == n + 1 && unpacked(Ok(entries)).1 == Some(
            "Read failed: "@ + reason,
        ) && unpacked(Ok(entries)).0[n] == (entries[n]->Ok_0.name, Some(Seq::<u8>::empty())),
{
    lemma_unpack(entries, 0, n);
    let all = unpack_from(entries, 0).0;
    if n < all.len() {
        assert(all.skip(n)[0] == all[n]);
    }
}

} // verus!

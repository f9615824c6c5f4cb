use codex_switcher::clock::Timestamp;
use codex_switcher::skills::{
    add_skill_repo, all_apps, app_skills_dir, archive_url, default_repos, discover_skills, enabled_repos, extract_zip,
    find_skill_dir, init_ssot, link_app_to_ssot, locate_skill, parse_skill_md, remove_skill_repo,
    scan_for_skills, unpack_entry, DirTree, InitPlan, LinkPlan, PathKind, SkillApp, SkillApps,
    SkillData, SkillStore, UnpackStep, ZipEntry,
};
use std::io::{Cursor, Write};

const NOW: Timestamp = Timestamp { secs: 1_000, nanos: 0 };

fn dir(name: &str, skill: Option<&str>, dirs: Vec<DirTree>) -> DirTree {
    DirTree {
        name: Some(name.to_string()),
        has_skill: skill.is_some(),
        skill: skill.map(|s| s.to_string()),
        dirs,
    }
}

fn repo() -> DirTree {
    dir(
        "tmp",
        None,
        vec![dir(
            "skills-main",
            None,
            vec![
                dir("pdf", Some("---\nname: PDF tools\ndescription: reads\n---\n"), vec![
                    dir("inner", Some(""), vec![]),
                ]),
                dir(".hidden", Some("---\nname: x\n---\n"), vec![]),
                dir("group", None, vec![dir("xls", Some("no head"), vec![])]),
            ],
        )],
    )
}

#[test]
fn heads_are_read() {
    assert_eq!(
        parse_skill_md(Some("intro\n --- \nname:  A b \r\ndescription:d\n---\nname: other")),
        (Some("A b".to_string()), Some("d".to_string()))
    );
    assert_eq!(parse_skill_md(Some("name: x\ndescription: y")), (None, None));
    assert_eq!(
        parse_skill_md(Some("---\n name: indented\nname:\nname: last")),
        (Some("last".to_string()), None)
    );
    assert_eq!(parse_skill_md(Some("---\nname:")), (Some("".to_string()), None));
    assert_eq!(parse_skill_md(None), (None, None));
}

#[test]
fn a_repository_is_searched() {
    let found = scan_for_skills(&repo(), "own", "rep", "main");
    assert_eq!(found.len(), 2);
    assert_eq!(found[0].key, "own/rep:pdf");
    assert_eq!(found[0].name, "PDF tools");
    assert_eq!(found[0].description, "reads");
    assert_eq!(found[0].repo_branch, "main");
    assert!(!found[0].installed);
    assert_eq!(found[1].directory, "xls");
    assert_eq!(found[1].name, "xls");
    assert_eq!(found[1].description, "");
}

#[test]
fn a_skill_is_found_in_its_repository() {
    let r = repo();
    assert_eq!(find_skill_dir(&r, "xls").unwrap(), vec!["skills-main", "group", "xls"]);
    assert_eq!(find_skill_dir(&r, "inner").unwrap(), vec!["skills-main", "pdf", "inner"]);
    assert!(find_skill_dir(&r, "group").is_none());
    assert_eq!(locate_skill(&r, "nope").unwrap_err(), "Skill not found in repo: nope");
    let mut odd = repo();
    odd.dirs[0].dirs.insert(0, DirTree { name: None, has_skill: false, skill: None, dirs: vec![] });
    assert!(find_skill_dir(&odd, "xls").is_none());
}

#[test]
fn skills_on_disk_are_recorded_once() {
    let mut data = SkillData::begin("x");
    let dirs = vec![
        dir("pdf", Some("---\nname: PDF\n---"), vec![]),
        dir(".git", None, vec![]),
        dir("plain", None, vec![]),
        DirTree { name: None, has_skill: false, skill: None, dirs: vec![] },
    ];
    assert_eq!(SkillStore::scan_existing(&mut data, &dirs, NOW), 2);
    assert_eq!(data.skills[0].id, "local:pdf");
    assert_eq!(data.skills[0].name, "PDF");
    assert_eq!(data.skills[0].source, "local");
    assert_eq!(data.skills[0].apps, SkillApps::default());
    assert!(data.skills[0].apps.codex && !data.skills[0].apps.gemini);
    assert_eq!(data.skills[1].name, "plain");
    assert_eq!(data.skills[1].installed_at, NOW);
    assert_eq!(SkillStore::scan_existing(&mut data, &dirs, NOW), 0);
    assert_eq!(data.skills.len(), 2);
}

#[test]
fn skills_come_and_go() {
    let mut data = SkillData::begin("x");
    let offered = scan_for_skills(&repo(), "own", "rep", "main");
    SkillStore::install_skill(&mut data, &offered[0], NOW);
    SkillStore::install_skill(&mut data, &offered[1], NOW);
    SkillStore::install_skill(&mut data, &offered[0], NOW);
    assert_eq!(data.skills.len(), 2);
    assert_eq!(data.skills[1].id, "own/rep:pdf");
    assert_eq!(data.skills[1].source, "github");
    assert_eq!(data.skills[1].repo_owner.as_deref(), Some("own"));
    let listed = discover_skills(scan_for_skills(&repo(), "own", "rep", "main"), &data);
    assert!(listed.iter().all(|s| s.installed));
    assert_eq!(SkillStore::uninstall_skill(&mut data, "own/rep:pdf"), Ok("pdf".to_string()));
    assert_eq!(
        SkillStore::uninstall_skill(&mut data, "own/rep:pdf"),
        Err("Skill does not exist: own/rep:pdf".to_string())
    );
    assert_eq!(data.skills.len(), 1);
    let listed = discover_skills(scan_for_skills(&repo(), "own", "rep", "main"), &data);
    assert!(!listed[0].installed && listed[1].installed);
}

#[test]
fn repositories_come_and_go() {
    let repos = default_repos("x");
    assert_eq!(repos[0].owner, "anthropics");
    assert_eq!(repos[1].name, "awesome-x-skills");
    assert_eq!(repos[1].branch, "master");
    let mut data = SkillData::begin("x");
    assert!(add_skill_repo(&mut data, "o".to_string(), "n".to_string(), "b".to_string()).is_ok());
    assert_eq!(
        add_skill_repo(&mut data, "o".to_string(), "n".to_string(), "c".to_string()),
        Err("Repo already exists".to_string())
    );
    assert_eq!(data.repos.len(), 3);
    assert!(data.repos[2].enabled);
    data.repos[0].enabled = false;
    let on: Vec<String> = enabled_repos(&data).into_iter().map(|r| r.name).collect();
    assert_eq!(on, vec!["awesome-x-skills", "n"]);
    remove_skill_repo(&mut data, "o", "n");
    remove_skill_repo(&mut data, "o", "m");
    assert_eq!(data.repos.len(), 2);
    assert_eq!(archive_url("o", "n", "b"), "https://github.com/o/n/archive/refs/heads/b.zip");
}

#[test]
fn links_are_planned() {
    let plan = |remove_link, remove_dir, make_link| LinkPlan { remove_link, remove_dir, make_link };
    assert_eq!(link_app_to_ssot(PathKind::Link { to_common: true }), plan(false, false, false));
    assert_eq!(link_app_to_ssot(PathKind::Link { to_common: false }), plan(true, false, true));
    assert_eq!(link_app_to_ssot(PathKind::Dir { empty: true }), plan(false, true, true));
    assert_eq!(link_app_to_ssot(PathKind::Dir { empty: false }), plan(false, false, false));
    assert_eq!(link_app_to_ssot(PathKind::File), plan(false, false, true));
    assert_eq!(link_app_to_ssot(PathKind::Missing), plan(false, false, true));
    let off = |kind| SkillStore::toggle_app_link(Some(SkillApp::Gemini), "gemini", false, kind);
    assert_eq!(off(PathKind::Link { to_common: true }), Ok(plan(true, false, false)));
    assert_eq!(off(PathKind::Dir { empty: false }), Ok(plan(false, true, false)));
    assert_eq!(off(PathKind::Missing), Ok(plan(false, false, false)));
    assert_eq!(
        SkillStore::toggle_app_link(Some(SkillApp::Codex), "codex", true, PathKind::Missing),
        Ok(plan(false, false, true))
    );
    assert_eq!(
        SkillStore::toggle_app_link(None, "vim", true, PathKind::Missing),
        Err("Unknown app: vim".to_string())
    );
    assert!(SkillStore::get_app_link_status(PathKind::Link { to_common: true }));
    assert!(!SkillStore::get_app_link_status(PathKind::Link { to_common: false }));
    assert!(SkillStore::get_app_link_status(PathKind::Dir { empty: false }));
    assert!(!SkillStore::get_app_link_status(PathKind::File));
}

#[test]
fn the_common_directory_is_set_up() {
    let plan = |create, migrate, link| InitPlan { create, migrate, link };
    assert_eq!(init_ssot(true, PathKind::Link { to_common: false }), plan(false, false, false));
    assert_eq!(init_ssot(false, PathKind::Link { to_common: true }), plan(true, false, true));
    assert_eq!(init_ssot(false, PathKind::Dir { empty: false }), plan(true, true, true));
    assert_eq!(SkillStore::sync_all(true, PathKind::Dir { empty: false }), plan(false, false, true));
    assert_eq!(SkillStore::sync_all(false, PathKind::Missing), plan(true, false, true));
    assert_eq!(SkillStore::sync_all(false, PathKind::Dir { empty: true }), plan(true, true, true));
    let linked = PathKind::Link { to_common: true };
    assert_eq!(SkillStore::sync_all(true, linked), plan(false, false, true));
}

#[test]
fn programs_have_directories() {
    assert_eq!(
        all_apps(),
        vec![SkillApp::Codex, SkillApp::Claude, SkillApp::Gemini, SkillApp::Opencode]
    );
    assert_eq!(app_skills_dir(SkillApp::Codex, "codex"), vec![".codex", "skills"]);
    assert_eq!(
        app_skills_dir(SkillApp::Opencode, "opencode"),
        vec![".config", "opencode", "skills"]
    );
}

#[test]
fn archives_are_unpacked() {
    let mut writer = zip::ZipWriter::new(Cursor::new(Vec::new()));
    let options = zip::write::SimpleFileOptions::default();
    writer.add_directory("skills-main/", options).unwrap();
    writer.start_file("skills-main/pdf/SKILL.md", options).unwrap();
    writer.write_all(b"---\nname: PDF\n---\n").unwrap();
    let bytes = writer.finish().unwrap().into_inner();
    let plan = extract_zip(bytes);
    assert!(plan.error.is_none());
    assert_eq!(plan.steps.len(), 2);
    assert!(matches!(plan.steps[0], UnpackStep::MakeDir(ref n) if n == "skills-main/"));
    assert!(matches!(plan.steps[1], UnpackStep::MakeFile(ref n, ref c)
        if n == "skills-main/pdf/SKILL.md" && c == b"---\nname: PDF\n---\n"));
}

#[test]
fn broken_archives_are_told() {
    let plan = extract_zip(b"no archive".to_vec());
    assert!(plan.steps.is_empty());
    assert!(plan.error.unwrap().starts_with("Failed to open ZIP: "));

    let mut writer = zip::ZipWriter::new(Cursor::new(Vec::new()));
    let options = zip::write::SimpleFileOptions::default()
        .compression_method(zip::CompressionMethod::Stored);
    writer.start_file("a", options).unwrap();
    writer.write_all(b"MARKER").unwrap();
    let mut bytes = writer.finish().unwrap().into_inner();
    let at = bytes.windows(6).position(|w| w == b"MARKER").unwrap();
    bytes[at] = b'X';
    let plan = extract_zip(bytes);
    assert!(matches!(plan.steps[0], UnpackStep::MakeFile(ref n, ref c) if n == "a" && c.is_empty()));
    assert!(plan.error.unwrap().starts_with("Read failed: "));

    let (step, error) = unpack_entry(Err("bad".to_string()));
    assert!(step.is_none());
    assert_eq!(error.as_deref(), Some("Failed to read ZIP entry: bad"));
    let entry = ZipEntry { name: "d/".to_string(), is_dir: true, content: Err("x".to_string()) };
    let (step, error) = unpack_entry(Ok(entry));
    assert!(matches!(step, Some(UnpackStep::MakeDir(_))) && error.is_none());
}

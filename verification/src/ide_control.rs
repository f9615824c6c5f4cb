//! The editors and the Codex app on this machine: the scripts that ask after them and reload them,
//! and what is made of the replies.
use crate::text::{concat2, concat3, contains, eq_str, from_utf8_lossy, trim};
use vstd::prelude::*;

verus! {

// ---------------------------------------------------------------------------
// The editors
// ---------------------------------------------------------------------------

/// The editors that are known, each with its bundle id.
pub open spec fn ide_list() -> Seq<(Seq<char>, Seq<char>)> {
    seq![
        ("Visual Studio Code"@, "com.microsoft.VSCode"@),
        ("Cursor"@, "com.todesktop.230313mzl4w4u92"@),
        ("Windsurf"@, "com.exafunction.windsurf"@),
        ("Antigravity"@, "com.google.antigravity"@),
        ("Codex"@, "com.openai.codex"@),
    ]
}

/// The editors that are known, each with its bundle id.
pub fn ide_configs() -> (list: Vec<(String, String)>)
    ensures
        list@.len() == 5,
        forall|i: int|
            0 <= i < 5 ==> ((#[trigger] list@[i]).0@, list@[i].1@) == ide_list()[i],
{
    let mut list: Vec<(String, String)> = Vec::new();
    list.push(("Visual Studio Code".to_owned(), "com.microsoft.VSCode".to_owned()));
    list.push(("Cursor".to_owned(), "com.todesktop.230313mzl4w4u92".to_owned()));
    list.push(("Windsurf".to_owned(), "com.exafunction.windsurf".to_owned()));
    list.push(("Antigravity".to_owned(), "com.google.antigravity".to_owned()));
    list.push(("Codex".to_owned(), "com.openai.codex".to_owned()));
    list
}

/// The script that asks whether an editor runs.
pub fn detection_script(bundle_id: &str) -> (script: String)
    ensures
        script@ == "\n            tell application \"System Events\"\n                if exists (every application process whose bundle identifier is \""@
            + bundle_id@
            + "\") then\n                    return \"true\"\n                else\n                    return \"false\"\n                end if\n            end tell\n            "@,
{
    concat3(
        "\n            tell application \"System Events\"\n                if exists (every application process whose bundle identifier is \"",
        bundle_id,
        "\") then\n                    return \"true\"\n                else\n                    return \"false\"\n                end if\n            end tell\n            ",
    )
}

/// The reply says that the editor runs.
pub open spec fn says_running(reply: Result<String, String>) -> bool {
    reply matches Ok(text) && crate::text::trimmed(text@) == "true"@
}

/// The names of the editors that run, by the replies to the script for each of the first `n`.
pub open spec fn running_of(replies: Seq<Result<String, String>>, n: int) -> Seq<Seq<char>>
    decreases n,
{
    if n <= 0 {
        Seq::empty()
    } else {
        let rest = running_of(replies, n - 1);
        if n <= replies.len() && says_running(replies[n - 1]) {
            rest.push(ide_list()[n - 1].0)
        } else {
            rest
        }
    }
}

/// The names of the editors that run, by the replies to the script for each.
pub fn detect_running_ides(replies: &Vec<Result<String, String>>) -> (running: Vec<String>)
    ensures
        crate::text::texts(running@) == running_of(replies@, 5),
{
    let configs: Vec<(String, String)> = ide_configs();
    let mut running: Vec<String> = Vec::new();
    let mut i: usize = 0;
    assert(crate::text::texts(running@) =~= running_of(replies@, 0));
    while i < 5
        invariant
            i <= 5,
            configs@.len() == 5,
            forall|k: int|
                0 <= k < 5 ==> ((#[trigger] configs@[k]).0@, configs@[k].1@) == ide_list()[k],
            crate::text::texts(running@) == running_of(replies@, i as int),
        decreases 5 - i,
    {
        if i < replies.len() {
            if let Ok(text) = &replies[i] {
                let t: String = trim(text.as_str());
                if eq_str(t.as_str(), "true") {
                    let ghost before = running@;
                    running.push(configs[i].0.clone());
                    assert((configs@[i as int].0@, configs@[i as int].1@) == ide_list()[i as int]);
                    assert(crate::text::texts(running@) =~= crate::text::texts(before).push(
                        ide_list()[i as int].0,
                    ));
                }
            }
        }
        i += 1;
    }
    running
}

/// The position of an editor among those that are known, from `from` on.
pub open spec fn ide_place(name: Seq<char>, from: int) -> Option<int>
    decreases 5 - from,
{
    if from < 0 || from >= 5 {
        None
    } else if ide_list()[from].0 == name {
        Some(from)
    } else {
        ide_place(name, from + 1)
    }
}

/// The script that makes an editor reload.
pub open spec fn reload_text(bundle_id: Seq<char>, command: Seq<char>) -> Seq<char> {
    "\n        tell application id \""@ + bundle_id
        + "\"\n            activate\n            delay 0.5\n            tell application \"System Events\"\n                keystroke \"p\" using {command down, shift down}\n                delay 0.5\n                keystroke \""@
        + command
        + "\"\n                delay 0.5\n                keystroke return\n            end tell\n        end tell\n        "@
}

/// The command that an editor is given.
pub open spec fn reload_command(use_window_reload: bool) -> Seq<char> {
    if use_window_reload {
        "Reload Window"@
    } else {
        "Restart Extension Host"@
    }
}

/// The script that makes an editor reload.
pub fn reload_ide(name: &str, use_window_reload: bool) -> (script: Result<String, String>)
    ensures
        match ide_place(name@, 0) {
            Some(i) => script matches Ok(s) && s@ == reload_text(
                ide_list()[i].1,
                reload_command(use_window_reload),
            ),
            None => script matches Err(e) && e@ == "IDE configuration not found for "@ + name@,
        },
{
    let configs: Vec<(String, String)> = ide_configs();
    let mut i: usize = 0;
    while i < 5
        invariant
            i <= 5,
            configs@.len() == 5,
            forall|k: int|
                0 <= k < 5 ==> ((#[trigger] configs@[k]).0@, configs@[k].1@) == ide_list()[k],
            ide_place(name@, 0) == ide_place(name@, i as int),
        decreases 5 - i,
    {
        assert((configs@[i as int].0@, configs@[i as int].1@) == ide_list()[i as int]);
        if eq_str(configs[i].0.as_str(), name) {
            let mut script: String = concat3(
                "\n        tell application id \"",
                configs[i].1.as_str(),
                "\"\n            activate\n            delay 0.5\n            tell application \"System Events\"\n                keystroke \"p\" using {command down, shift down}\n                delay 0.5\n                keystroke \"",
            );
            if use_window_reload {
                script.append("Reload Window");
            } else {
                script.append("Restart Extension Host");
            }
            script.append(
                "\"\n                delay 0.5\n                keystroke return\n            end tell\n        end tell\n        ",
            );
            return Ok(script);
        }
        i += 1;
    }
    Err(concat2("IDE configuration not found for ", name))
}

/// The message of a script says that the permission for it is missing.
pub open spec fn permission_missing(message: Seq<char>) -> bool {
    ||| crate::text::occurs(message, "1002"@)
    ||| crate::text::occurs(message, "not allowed"@)
    ||| crate::text::occurs(message, "keystroke not allowed"@)
}

/// What came of making an editor reload, from the reply to the script.
pub fn reload_outcome(reply: Result<String, String>) -> (outcome: Result<(), String>)
    ensures
        match reply {
            Ok(_) => outcome is Ok,
            Err(e) => if permission_missing(e@) {
                outcome matches Err(m) && m@
                    == "PERMISSION_DENIED: Accessibility permission required to reload window. Reload manually or grant permission in Settings."@
            } else {
                outcome == Err::<(), String>(e)
            },
        },
{
    match reply {
        Ok(_) => Ok(()),
        Err(e) => if contains(e.as_str(), "1002") || contains(e.as_str(), "not allowed") || contains(
            e.as_str(),
            "keystroke not allowed",
        ) {
            Err(
                "PERMISSION_DENIED: Accessibility permission required to reload window. Reload manually or grant permission in Settings.".to_owned(),
            )
        } else {
            Err(e)
        },
    }
}

/// The names of those of the first `n` editors that have reloaded.
pub open spec fn reloaded_of(
    ides: Seq<Seq<char>>,
    outcomes: Seq<Result<(), String>>,
    n: int,
) -> Seq<Seq<char>>
    decreases n,
{
    if n <= 0 {
        Seq::empty()
    } else {
        let rest = reloaded_of(ides, outcomes, n - 1);
        if n <= outcomes.len() && outcomes[n - 1] is Ok {
            rest.push(ides[n - 1])
        } else {
            rest
        }
    }
}

/// The names of the editors that have reloaded, from what came of each.
pub fn reload_ide_windows(ides: &Vec<String>, outcomes: &Vec<Result<(), String>>) -> (reloaded: Vec<
    String,
>)
    ensures
        crate::text::texts(reloaded@) == reloaded_of(
            crate::text::texts(ides@),
            outcomes@,
            ides@.len() as int,
        ),
{
    let mut reloaded: Vec<String> = Vec::new();
    let ghost names = crate::text::texts(ides@);
    let mut i: usize = 0;
    assert(crate::text::texts(reloaded@) =~= reloaded_of(names, outcomes@, 0));
    while i < ides.len()
        invariant
            i <= ides@.len(),
            names == crate::text::texts(ides@),
            crate::text::texts(reloaded@) == reloaded_of(names, outcomes@, i as int),
        decreases ides@.len() - i,
    {
        if i < outcomes.len() {
            if outcomes[i].is_ok() {
                let ghost before = reloaded@;
                reloaded.push(ides[i].clone());
                assert(crate::text::texts(reloaded@) =~= crate::text::texts(before).push(
                    names[i as int],
                ));
            }
        }
        i += 1;
    }
    reloaded
}

// ---------------------------------------------------------------------------
// Scripts
// ---------------------------------------------------------------------------

/// The script that takes the quarantine off the Codex app.
pub fn quarantine_script() -> (script: String)
    ensures
        script@
            == "\n    do shell script \"xattr -dr com.apple.quarantine /Applications/Codex.app\" with administrator privileges\n    "@,
{
    "\n    do shell script \"xattr -dr com.apple.quarantine /Applications/Codex.app\" with administrator privileges\n    ".to_owned()
}

/// What came of taking the quarantine off, from the reply to the script.
pub fn remove_quarantine(reply: Result<String, String>) -> (outcome: Result<(), String>)
    ensures
        match reply {
            Ok(_) => outcome is Ok,
            Err(e) => outcome == Err::<(), String>(e),
        },
{
    match reply {
        Ok(_) => Ok(()),
        Err(e) => Err(e),
    }
}

/// The reply to a script, from whether it succeeded and what it printed.
pub fn applescript_reply(success: bool, stdout: &[u8], stderr: &[u8]) -> (reply: Result<
    String,
    String,
>)
    ensures
        if success {
            reply matches Ok(s) && s@ == crate::text::lossy_text(stdout@)
        } else {
            reply matches Err(e) && e@ == "AppleScript execution failed: "@
                + crate::text::lossy_text(stderr@)
        },
{
    if success {
        Ok(from_utf8_lossy(stdout))
    } else {
        let text: String = from_utf8_lossy(stderr);
        Err(concat2("AppleScript execution failed: ", text.as_str()))
    }
}


/// An editor is said to run just where the reply to its script is there and says so, blanks apart;
/// the names come in the order of the list of editors.
pub proof fn editors_run_where_the_reply_says_so(replies: Seq<Result<String, String>>, n: int)
    requires
        0 <= n < 5,
    ensures
        running_of(replies, 0).len() == 0,
        n < replies.len() && (replies[n] matches Ok(t) && crate::text::trimmed(t@) == "true"@)
            ==> running_of(replies, n + 1) == running_of(replies, n).push(ide_list()[n].0),
        n < replies.len() && !(replies[n] matches Ok(t) && crate::text::trimmed(t@) == "true"@)
            ==> running_of(replies, n + 1) == running_of(replies, n),
        n >= replies.len() ==> running_of(replies, n + 1) == running_of(replies, n),
{
}

/// Each editor is known by its own bundle id.
pub proof fn editors_have_their_bundle_ids()
    ensures
        ide_list().len() == 5,
        ide_list().contains(("Visual Studio Code"@, "com.microsoft.VSCode"@)),
        ide_list().contains(("Cursor"@, "com.todesktop.230313mzl4w4u92"@)),
        ide_list().contains(("Windsurf"@, "com.exafunction.windsurf"@)),
        ide_list().contains(("Antigravity"@, "com.google.antigravity"@)),
        ide_list().contains(("Codex"@, "com.openai.codex"@)),
{
    assert(ide_list()[0] == ("Visual Studio Code"@, "com.microsoft.VSCode"@));
    assert(ide_list()[1] == ("Cursor"@, "com.todesktop.230313mzl4w4u92"@));
    assert(ide_list()[2] == ("Windsurf"@, "com.exafunction.windsurf"@));
    assert(ide_list()[3] == ("Antigravity"@, "com.google.antigravity"@));
    assert(ide_list()[4] == ("Codex"@, "com.openai.codex"@));
}

proof fn lemma_ide_place(name: Seq<char>, from: int)
    requires
        0 <= from,
    ensures
        match ide_place(name, from) {
            Some(i) => from <= i < 5 && ide_list()[i].0 == name && forall|k: int|
                from <= k < i ==> (#[trigger] ide_list()[k]).0 != name,
            None => forall|k: int| from <= k < 5 ==> (#[trigger] ide_list()[k]).0 != name,
        },
    decreases 5 - from,
{
    if from < 5 && ide_list()[from].0 != name {
        lemma_ide_place(name, from + 1);
    }
}

/// An editor is found by its name just where the list has it.
pub proof fn editors_are_found_by_their_names(name: Seq<char>)
    ensures
        ide_place(name, 0) matches Some(i) ==> 0 <= i < ide_list().len() && ide_list()[i].0 == name,
        ide_place(name, 0) is None <==> forall|k: int|
            0 <= k < ide_list().len() ==> (#[trigger] ide_list()[k]).0 != name,
{
    lemma_ide_place(name, 0);
}

/// The script to reload an editor is for its bundle id and types the command that is asked for:
/// the window is reloaded where that is wanted, else the extensions are.
pub proof fn scripts_type_the_command(bundle_id: Seq<char>, whole_window: bool)
    ensures
        ({
            let script = reload_text(bundle_id, reload_command(whole_window));
            &&& crate::text::occurs(script, bundle_id)
            &&& whole_window ==> crate::text::occurs(script, "Reload Window"@)
            &&& !whole_window ==> crate::text::occurs(script, "Restart Extension Host"@)
        }),
{
    let command = reload_command(whole_window);
    let script = reload_text(bundle_id, command);
    let a = "\n        tell application id \""@;
    let b =
        "\"\n            activate\n            delay 0.5\n            tell application \"System Events\"\n                keystroke \"p\" using {command down, shift down}\n                delay 0.5\n                keystroke \""@;
    let c =
        "\"\n                delay 0.5\n                keystroke return\n            end tell\n        end tell\n        "@;
    crate::text::parts_stand_between_the_rest(script, bundle_id);
    assert(script =~= a + bundle_id + (b + command + c));
    crate::text::parts_stand_between_the_rest(script, command);
    assert(script =~= (a + bundle_id + b) + command + c);
}

/// The permission is missing just where the message says so, by its number or in words.
pub proof fn words_for_a_missing_permission(message: Seq<char>)
    ensures
        crate::text::occurs(message, "1002"@) ==> permission_missing(message),
        crate::text::occurs(message, "not allowed"@) ==> permission_missing(message),
        !crate::text::occurs(message, "1002"@) && !crate::text::occurs(message, "not allowed"@)
            ==> !permission_missing(message),
{
    if crate::text::occurs(message, "keystroke not allowed"@) {
        reveal_strlit("keystroke not allowed");
        reveal_strlit("not allowed");
        let at = choose|at: int|
            #[trigger] crate::text::stands_at(message, "keystroke not allowed"@, at);
        let whole = "keystroke not allowed"@;
        assert(whole.subrange(10, 21) =~= "not allowed"@);
        assert(message.subrange(at + 10, at + 10 + 11) =~= message.subrange(
            at,
            at + whole.len(),
        ).subrange(10, 21));
        assert(crate::text::stands_at(message, "not allowed"@, at + 10));
    }
}

/// The editors that are said to have reloaded are those that did, in their order.
pub proof fn reloaded_editors_are_told(
    ides: Seq<Seq<char>>,
    outcomes: Seq<Result<(), String>>,
    n: int,
)
    requires
        0 <= n < ides.len(),
    ensures
        reloaded_of(ides, outcomes, 0).len() == 0,
        n < outcomes.len() && outcomes[n] is Ok ==> reloaded_of(ides, outcomes, n + 1)
            == reloaded_of(ides, outcomes, n).push(ides[n]),
        n < outcomes.len() && outcomes[n] is Err ==> reloaded_of(ides, outcomes, n + 1)
            == reloaded_of(ides, outcomes, n),
        n >= outcomes.len() ==> reloaded_of(ides, outcomes, n + 1) == reloaded_of(
            ides,
            outcomes,
            n,
        ),
{
}

} // verus!

//! The configuration of Codex and of the shell: the lines that send it through the proxy, and the
//! one that makes it fast.
use crate::lifecycle::show_proxy_url;
use crate::text::{concat2, concat3, contains, join, lines, starts_with, to_chars, trim};
use vstd::prelude::*;

verus! {

/// A text of lines, each of them ended.
pub open spec fn file_of(list: Seq<Seq<char>>) -> Seq<char> {
    crate::text::joined(list, seq!['\n']) + seq!['\n']
}

/// A text of lines, each of them ended.
fn write_file(list: &Vec<String>) -> (text: String)
    ensures
        text@ == file_of(crate::text::texts(list@)),
{
    proof {
        reveal_strlit("\n");
    }
    assert("\n"@ =~= seq!['\n']);
    let body: String = join(list, "\n");
    concat2(body.as_str(), "\n")
}

// ---------------------------------------------------------------------------
// Sections
// ---------------------------------------------------------------------------

/// The line begins a section.
pub open spec fn section_line(line: Seq<char>) -> bool {
    crate::text::begins(crate::text::trimmed(line), "["@)
}

/// The position of the first section from `from` on; the length of the list where there is none.
pub open spec fn first_section(list: Seq<Seq<char>>, from: int) -> int
    decreases list.len() - from,
{
    if from >= list.len() {
        list.len() as int
    } else if section_line(list[from]) {
        from
    } else {
        first_section(list, from + 1)
    }
}

fn is_section_line(line: &str) -> (b: bool)
    ensures
        b == section_line(line@),
{
    let t: String = trim(line);
    starts_with(t.as_str(), "[")
}

/// The position of the first section.
fn find_section(list: &Vec<String>) -> (at: usize)
    ensures
        at == first_section(crate::text::texts(list@), 0),
        at <= list@.len(),
{
    let ghost all = crate::text::texts(list@);
    let mut at: usize = 0;
    while at < list.len() && !is_section_line(list[at].as_str())
        invariant
            at <= list@.len(),
            all == crate::text::texts(list@),
            first_section(all, 0) == first_section(all, at as int),
        ensures
            at <= list@.len(),
            first_section(all, 0) == at,
        decreases list@.len() - at,
    {
        assert(all[at as int] == list@[at as int]@);
        at += 1;
    }
    at
}

proof fn lemma_first_section(list: Seq<Seq<char>>, from: int)
    requires
        0 <= from <= list.len(),
    ensures
        from <= first_section(list, from) <= list.len(),
        first_section(list, from) < list.len() ==> section_line(list[first_section(list, from)]),
        forall|i: int|
            from <= i < first_section(list, from) ==> !section_line(#[trigger] list[i]),
    decreases list.len() - from,
{
    if from < list.len() && !section_line(list[from]) {
        lemma_first_section(list, from + 1);
    }
}

// ---------------------------------------------------------------------------
// The fast mode
// ---------------------------------------------------------------------------

/// The line sets the profile.
pub open spec fn profile_line(line: Seq<char>) -> bool {
    let t = crate::text::trimmed(line);
    crate::text::begins(t, "profile"@) && crate::text::occurs(t, "="@)
}

fn is_profile_line(line: &str) -> (b: bool)
    ensures
        b == profile_line(line@),
{
    let t: String = trim(line);
    starts_with(t.as_str(), "profile") && contains(t.as_str(), "=")
}

/// A line of the list sets the profile.
pub open spec fn has_profile(list: Seq<Seq<char>>) -> bool
    decreases list.len(),
{
    list.len() > 0 && (profile_line(list.last()) || has_profile(list.drop_last()))
}

/// The lines, with those that set the profile replaced by one for the fast mode or left out.
pub open spec fn profile_replaced(list: Seq<Seq<char>>, enable: bool) -> Seq<Seq<char>>
    decreases list.len(),
{
    if list.len() == 0 {
        Seq::empty()
    } else {
        let rest = profile_replaced(list.drop_last(), enable);
        if !profile_line(list.last()) {
            rest.push(list.last())
        } else if enable {
            rest.push("profile = \"fast\""@)
        } else {
            rest
        }
    }
}

/// The lines before any section.
pub open spec fn top_lines(list: Seq<Seq<char>>) -> Seq<Seq<char>> {
    list.take(first_section(list, 0))
}

/// The lines from the first section on.
pub open spec fn section_lines(list: Seq<Seq<char>>) -> Seq<Seq<char>> {
    list.skip(first_section(list, 0))
}

/// The lines before any section, with the fast mode switched.
pub open spec fn fast_top(top: Seq<Seq<char>>, enable: bool) -> Seq<Seq<char>> {
    if enable && !has_profile(top) {
        profile_replaced(top, enable).insert(0, "profile = \"fast\""@)
    } else {
        profile_replaced(top, enable)
    }
}

/// The lines of a configuration in which the fast mode is switched. A profile in a section is
/// another thing, and the sections stay as they are.
pub open spec fn fast_lines(list: Seq<Seq<char>>, enable: bool) -> Seq<Seq<char>> {
    fast_top(top_lines(list), enable) + section_lines(list)
}

/// The first line from `from` on that sets the profile sets the fast mode.
pub open spec fn fast_from(list: Seq<Seq<char>>, from: int) -> bool
    decreases list.len() - from,
{
    if from < 0 || from >= list.len() {
        false
    } else if profile_line(list[from]) {
        crate::text::occurs(crate::text::trimmed(list[from]), "\"fast\""@)
    } else {
        fast_from(list, from + 1)
    }
}

/// Switches the fast mode in a configuration: what is to be written, and what is said about it.
pub fn set_codex_fast_mode(content: Option<&str>, enable: bool) -> (r: Result<
    (String, String),
    String,
>)
    ensures
        match content {
            None => r matches Err(e) && e@ == "~/.codex/config.toml does not exist"@,
            Some(c) => r matches Ok(w) && w.0@ == file_of(
                fast_lines(crate::text::line_list(c@), enable),
            ) && w.1@ == (if enable {
                "Fast mode enabled (2x quota consumption, faster inference). Restart Codex to apply."@
            } else {
                "Fast mode disabled. Restart Codex to apply."@
            }),
        },
{
    let c: &str = match content {
        Some(c) => c,
        None => return Err("~/.codex/config.toml does not exist".to_owned()),
    };
    let list: Vec<String> = lines(c);
    let ghost all = crate::text::line_list(c@);
    let end: usize = find_section(&list);
    let ghost top = top_lines(all);
    let mut out: Vec<String> = Vec::new();
    let mut found: bool = false;
    let mut i: usize = 0;
    assert(crate::text::texts(out@) =~= profile_replaced(top.take(0), enable));
    while i < end
        invariant
            i <= end,
            end <= list@.len(),
            crate::text::texts(list@) == all,
            top == all.take(end as int),
            found == has_profile(top.take(i as int)),
            crate::text::texts(out@) == profile_replaced(top.take(i as int), enable),
        decreases end - i,
    {
        assert(top.take(i + 1).drop_last() =~= top.take(i as int));
        assert(top.take(i + 1).last() == list@[i as int]@);
        let ghost before = out@;
        if is_profile_line(list[i].as_str()) {
            found = true;
            if enable {
                out.push("profile = \"fast\"".to_owned());
                assert(crate::text::texts(out@) =~= crate::text::texts(before).push(
                    "profile = \"fast\""@,
                ));
            }
        } else {
            out.push(list[i].clone());
            assert(crate::text::texts(out@) =~= crate::text::texts(before).push(
                list@[i as int]@,
            ));
        }
        i += 1;
    }
    assert(top.take(end as int) =~= top);
    if enable && !found {
        let ghost before = out@;
        out.insert(0, "profile = \"fast\"".to_owned());
        assert(crate::text::texts(out@) =~= crate::text::texts(before).insert(
            0,
            "profile = \"fast\""@,
        ));
    }
    let ghost head = crate::text::texts(out@);
    assert(head == fast_top(top, enable));
    assert(all.len() == list@.len());
    assert(head + all.subrange(end as int, end as int) =~= head);
    while i < list.len()
        invariant
            end <= i <= list@.len(),
            crate::text::texts(list@) == all,
            crate::text::texts(out@) == head + all.subrange(end as int, i as int),
        decreases list@.len() - i,
    {
        let ghost before = out@;
        out.push(list[i].clone());
        assert(crate::text::texts(out@) =~= crate::text::texts(before).push(list@[i as int]@));
        assert(all.subrange(end as int, i + 1) =~= all.subrange(end as int, i as int).push(
            list@[i as int]@,
        ));
        assert(head + all.subrange(end as int, i + 1) =~= (head + all.subrange(
            end as int,
            i as int,
        )).push(list@[i as int]@));
        i += 1;
    }
    assert(all.subrange(end as int, all.len() as int) =~= all.skip(end as int));
    let text: String = write_file(&out);
    let message: String = if enable {
        "Fast mode enabled (2x quota consumption, faster inference). Restart Codex to apply.".to_owned()
    } else {
        "Fast mode disabled. Restart Codex to apply.".to_owned()
    };
    Ok((text, message))
}

/// Whether the fast mode is on in a configuration: the first line that sets a profile, in a section
/// or before any, sets the fast one. It is not on where there is no configuration.
pub fn get_codex_fast_mode(content: Option<&str>) -> (fast: bool)
    ensures
        fast == match content {
            Some(c) => fast_from(crate::text::line_list(c@), 0),
            None => false,
        },
{
    let c: &str = match content {
        Some(c) => c,
        None => return false,
    };
    let list: Vec<String> = lines(c);
    let ghost all = crate::text::line_list(c@);
    let mut i: usize = 0;
    while i < list.len()
        invariant
            i <= list@.len(),
            crate::text::texts(list@) == all,
            all == crate::text::line_list(c@),
            content == Some(c),
            fast_from(all, 0) == fast_from(all, i as int),
        decreases list@.len() - i,
    {
        assert(all[i as int] == list@[i as int]@);
        if is_profile_line(list[i].as_str()) {
            let t: String = trim(list[i].as_str());
            return contains(t.as_str(), "\"fast\"");
        }
        i += 1;
    }
    false
}

proof fn lemma_fast_line()
    ensures
        profile_line("profile = \"fast\""@),
        crate::text::occurs(crate::text::trimmed("profile = \"fast\""@), "\"fast\""@),
        crate::text::one_line("profile = \"fast\""@),
        crate::text::without_cr("profile = \"fast\""@) == "profile = \"fast\""@,
        !section_line("profile = \"fast\""@),
{
    let line = "profile = \"fast\""@;
    reveal_strlit("profile = \"fast\"");
    reveal_strlit("profile");
    reveal_strlit("=");
    reveal_strlit("\"fast\"");
    crate::text::lemma_trimmed_same(line);
    assert(line.subrange(0, 7) =~= "profile"@);
    assert(crate::text::stands_at(line, "profile"@, 0));
    assert(line.subrange(8, 9) =~= "="@);
    assert(crate::text::stands_at(line, "="@, 8));
    assert(line.subrange(10, 16) =~= "\"fast\""@);
    assert(crate::text::stands_at(line, "\"fast\""@, 10));
    reveal_strlit("[");
    if section_line(line) {
        assert(line.subrange(0, 1)[0] == '[');
    }
}

proof fn lemma_profiles_replaced(list: Seq<Seq<char>>, enable: bool)
    requires
        crate::text::all_one_line(list),
    ensures
        crate::text::all_one_line(profile_replaced(list, enable)),
        forall|i: int|
            0 <= i < profile_replaced(list, enable).len() && profile_line(
                #[trigger] profile_replaced(list, enable)[i],
            ) ==> enable && profile_replaced(list, enable)[i] == "profile = \"fast\""@,
        enable && has_profile(list) ==> has_profile(profile_replaced(list, enable)),
        (forall|i: int| 0 <= i < list.len() ==> !section_line(#[trigger] list[i])) ==> forall|i: int|
            0 <= i < profile_replaced(list, enable).len() ==> !section_line(
                #[trigger] profile_replaced(list, enable)[i],
            ),
    decreases list.len(),
{
    if list.len() > 0 {
        let rest = list.drop_last();
        assert forall|i: int| 0 <= i < rest.len() implies crate::text::one_line(
            #[trigger] rest[i],
        ) by {
            assert(crate::text::one_line(list[i]));
        }
        lemma_profiles_replaced(rest, enable);
        lemma_fast_line();
        let before = profile_replaced(rest, enable);
        let all = profile_replaced(list, enable);
        assert(crate::text::one_line(list[list.len() - 1]));
        assert forall|i: int| 0 <= i < all.len() implies crate::text::one_line(
            #[trigger] all[i],
        ) by {
            if i < before.len() {
                assert(all[i] == before[i]);
                assert(crate::text::one_line(before[i]));
            }
        }
        assert forall|i: int|
            0 <= i < all.len() && profile_line(#[trigger] all[i]) implies enable && all[i]
            == "profile = \"fast\""@ by {
            if i < before.len() {
                assert(all[i] == before[i]);
            }
        }
        if forall|i: int| 0 <= i < list.len() ==> !section_line(#[trigger] list[i]) {
            assert forall|i: int| 0 <= i < rest.len() implies !section_line(#[trigger] rest[i]) by {
                assert(rest[i] == list[i]);
            }
            assert(!section_line(list[list.len() - 1]));
            assert forall|i: int| 0 <= i < all.len() implies !section_line(#[trigger] all[i]) by {
                if i < before.len() {
                    assert(all[i] == before[i]);
                }
            }
        }
        if enable && has_profile(list) {
            if profile_line(list.last()) {
                assert(profile_line(all.last()));
            } else {
                assert(all.drop_last() =~= before);
            }
        }
    }
}

proof fn lemma_fast_from(list: Seq<Seq<char>>, enable: bool, from: int)
    requires
        0 <= from <= list.len(),
        forall|i: int|
            0 <= i < list.len() && profile_line(#[trigger] list[i]) ==> enable
                && crate::text::occurs(crate::text::trimmed(list[i]), "\"fast\""@),
    ensures
        fast_from(list, from) <==> exists|i: int|
            from <= i < list.len() && profile_line(#[trigger] list[i]),
        fast_from(list, from) ==> enable,
    decreases list.len() - from,
{
    if from < list.len() {
        lemma_fast_from(list, enable, from + 1);
        if profile_line(list[from]) {
        } else if fast_from(list, from) {
            let i = choose|i: int| from + 1 <= i < list.len() && profile_line(#[trigger] list[i]);
            assert(profile_line(list[i]));
        }
    }
}

proof fn lemma_has_profile(list: Seq<Seq<char>>)
    ensures
        has_profile(list) <==> exists|i: int| 0 <= i < list.len() && profile_line(#[trigger] list[i]),
    decreases list.len(),
{
    if list.len() > 0 {
        let rest = list.drop_last();
        lemma_has_profile(rest);
        if has_profile(rest) {
            let i = choose|i: int| 0 <= i < rest.len() && profile_line(#[trigger] rest[i]);
            assert(profile_line(list[i]));
        }
        if profile_line(list.last()) {
            assert(profile_line(list[list.len() - 1]));
        }
        if exists|i: int| 0 <= i < list.len() && profile_line(#[trigger] list[i]) {
            let i = choose|i: int| 0 <= i < list.len() && profile_line(#[trigger] list[i]);
            if i < rest.len() {
                assert(rest[i] == list[i]);
            }
        }
    }
}

proof fn lemma_empty_file()
    ensures
        crate::text::line_list(file_of(Seq::empty())) == seq![Seq::<char>::empty()],
{
    let text = file_of(Seq::empty());
    let one = seq![Seq::<char>::empty()];
    assert(one.drop_last() =~= Seq::<Seq<char>>::empty());
    assert(crate::text::ended_lines(one.drop_last()) =~= Seq::<char>::empty());
    assert(crate::text::ended_lines(one) =~= seq!['\n']);
    assert(text =~= crate::text::ended_lines(one) + Seq::<char>::empty());
    crate::text::ended_lines_are_read_back(one, Seq::empty());
    assert(crate::text::line_list(text) =~= one);
}

/// The lines before any section of lines that are set together from lines without a section and
/// lines that begin with one.
proof fn lemma_top_lines(head: Seq<Seq<char>>, tail: Seq<Seq<char>>)
    requires
        forall|i: int| 0 <= i < head.len() ==> !section_line(#[trigger] head[i]),
        tail.len() > 0 ==> section_line(tail[0]),
    ensures
        top_lines(head + tail) == head,
{
    let list = head + tail;
    lemma_first_section(list, 0);
    let p = first_section(list, 0);
    if p < head.len() {
        assert(list[p] == head[p]);
    }
    if p > head.len() {
        assert(list[head.len() as int] == tail[0]);
    }
    assert(top_lines(list) =~= head);
}

/// Reading goes on with `tail` where no line of `head` sets the profile.
proof fn lemma_fast_joined(head: Seq<Seq<char>>, tail: Seq<Seq<char>>, from: int)
    requires
        0 <= from <= head.len(),
    ensures
        fast_from(head + tail, from) == if exists|i: int|
            from <= i < head.len() && profile_line(#[trigger] head[i]) {
            fast_from(head, from)
        } else {
            fast_from(tail, 0)
        },
    decreases head.len() - from,
{
    if from == head.len() {
        lemma_fast_shifted(head, tail, 0);
    } else {
        assert((head + tail)[from] == head[from]);
        lemma_fast_joined(head, tail, from + 1);
        if !profile_line(head[from]) {
            if exists|i: int| from <= i < head.len() && profile_line(#[trigger] head[i]) {
                let i = choose|i: int| from <= i < head.len() && profile_line(#[trigger] head[i]);
                assert(from + 1 <= i < head.len() && profile_line(head[i]));
            }
        }
    }
}

proof fn lemma_fast_shifted(head: Seq<Seq<char>>, tail: Seq<Seq<char>>, k: int)
    requires
        0 <= k <= tail.len(),
    ensures
        fast_from(head + tail, head.len() + k) == fast_from(tail, k),
    decreases tail.len() - k,
{
    if k < tail.len() {
        assert((head + tail)[head.len() + k] == tail[k]);
        lemma_fast_shifted(head, tail, k + 1);
    }
}

proof fn lemma_fast_without_crs(list: Seq<Seq<char>>, from: int)
    requires
        0 <= from <= list.len(),
    ensures
        fast_from(crate::text::without_crs(list), from) == fast_from(list, from),
    decreases list.len() - from,
{
    if from < list.len() {
        crate::text::trimming_ignores_cr(list[from]);
        assert(crate::text::without_crs(list)[from] == crate::text::without_cr(list[from]));
        lemma_fast_without_crs(list, from + 1);
    }
}

/// What is read back from the configuration that was written, whatever it held before: the fast
/// mode is on where it was switched on; where it was switched off, no line before the sections sets
/// a profile any more, and what the sections say is read.
pub proof fn fast_mode_is_read_as_written(content: Seq<char>, enable: bool)
    ensures
        fast_from(
            crate::text::line_list(file_of(fast_lines(crate::text::line_list(content), enable))),
            0,
        ) == (enable || fast_from(section_lines(crate::text::line_list(content)), 0)),
{
    let list = crate::text::line_list(content);
    crate::text::lines_are_lines(content);
    lemma_first_section(list, 0);
    let end = first_section(list, 0);
    let top = top_lines(list);
    let tail = list.skip(end);
    assert forall|i: int| 0 <= i < top.len() implies crate::text::one_line(#[trigger] top[i]) by {
        assert(crate::text::one_line(list[i]));
    }
    lemma_profiles_replaced(top, enable);
    lemma_fast_line();
    let kept = profile_replaced(top, enable);
    let head = fast_top(top, enable);
    let out = fast_lines(list, enable);
    let added = enable && !has_profile(top);
    assert forall|i: int| 0 <= i < head.len() implies crate::text::one_line(#[trigger] head[i]) && (
    profile_line(head[i]) ==> enable && head[i] == "profile = \"fast\""@) by {
        if added {
            if i > 0 {
                assert(head[i] == kept[i - 1]);
                assert(crate::text::one_line(kept[i - 1]));
            }
        } else {
            assert(crate::text::one_line(kept[i]));
        }
    }
    assert(crate::text::all_one_line(out)) by {
        assert forall|i: int| 0 <= i < out.len() implies crate::text::one_line(
            #[trigger] out[i],
        ) by {
            if i < head.len() {
                assert(out[i] == head[i]);
            } else {
                assert(out[i] == list[end + i - head.len()]);
                assert(crate::text::one_line(list[end + i - head.len()]));
            }
        }
    }
    if out.len() == 0 {
        lemma_empty_file();
        assert(out =~= Seq::<Seq<char>>::empty());
        let back = crate::text::line_list(file_of(out));
        assert(!profile_line(back[0])) by {
            reveal_strlit("profile");
        }
        reveal_with_fuel(fast_from, 2);
    } else {
        crate::text::written_lines_are_read_back(out);
        let top_back = crate::text::without_crs(head);
        let tail_back = crate::text::without_crs(tail);
        assert(crate::text::without_crs(out) =~= top_back + tail_back);
        assert forall|i: int| 0 <= i < top_back.len() implies profile_line(#[trigger] top_back[i])
            == profile_line(head[i]) && (profile_line(top_back[i]) ==> enable
            && crate::text::occurs(crate::text::trimmed(top_back[i]), "\"fast\""@)) by {
            crate::text::trimming_ignores_cr(head[i]);
        }
        lemma_fast_joined(top_back, tail_back, 0);
        lemma_fast_without_crs(tail, 0);
        lemma_fast_from(top_back, enable, 0);
        if enable {
            lemma_has_profile(head);
            lemma_has_profile(kept);
            if added {
                assert(profile_line(head[0]));
                assert(profile_line(top_back[0]));
            } else {
                let i = choose|i: int| 0 <= i < head.len() && profile_line(#[trigger] head[i]);
                assert(profile_line(top_back[i]));
            }
        }
    }
}

/// What the fast mode was switched to is what is read back from the configuration that was written,
/// as long as no section of it is taken for the fast mode.
pub proof fn fast_mode_reads_back(content: Seq<char>, enable: bool)
    requires
        enable || !fast_from(section_lines(crate::text::line_list(content)), 0),
    ensures
        fast_from(
            crate::text::line_list(file_of(fast_lines(crate::text::line_list(content), enable))),
            0,
        ) == enable,
{
    fast_mode_is_read_as_written(content, enable);
}

/// What stands in a section is not touched when the fast mode is switched.
pub proof fn sections_are_left_alone(list: Seq<Seq<char>>, enable: bool)
    requires
        crate::text::all_one_line(list),
    ensures
        ({
            let out = fast_lines(list, enable);
            section_lines(out) == section_lines(list)
        }),
{
    lemma_first_section(list, 0);
    let end = first_section(list, 0);
    let top = top_lines(list);
    let tail = list.skip(end);
    assert forall|i: int| 0 <= i < top.len() implies crate::text::one_line(#[trigger] top[i]) by {
        assert(crate::text::one_line(list[i]));
    }
    assert forall|i: int| 0 <= i < top.len() implies !section_line(#[trigger] top[i]) by {
        assert(!section_line(list[i]));
    }
    lemma_profiles_replaced(top, enable);
    lemma_fast_line();
    let kept = profile_replaced(top, enable);
    let head = fast_top(top, enable);
    assert forall|i: int| 0 <= i < head.len() implies !section_line(#[trigger] head[i]) by {
        if enable && !has_profile(top) && i > 0 {
            assert(head[i] == kept[i - 1]);
        }
    }
    lemma_top_lines(head, tail);
    let out = fast_lines(list, enable);
    lemma_first_section(out, 0);
    assert(top_lines(out).len() == first_section(out, 0));
    assert(out.skip(head.len() as int) =~= tail);
}

// ---------------------------------------------------------------------------
// The address of the proxy in the configuration
// ---------------------------------------------------------------------------

/// The line sets the address.
pub open spec fn setting_line(line: Seq<char>) -> bool {
    let t = crate::text::trimmed(line);
    crate::text::begins(t, "openai_base_url"@) && crate::text::occurs(t, "="@)
}

/// A line of the list begins a section.
pub open spec fn has_section(list: Seq<Seq<char>>) -> bool
    decreases list.len(),
{
    list.len() > 0 && (section_line(list.last()) || has_section(list.drop_last()))
}

/// The lines before any section that set the address.
pub open spec fn top_settings(list: Seq<Seq<char>>) -> Seq<Seq<char>>
    decreases list.len(),
{
    if list.len() == 0 {
        Seq::empty()
    } else {
        let rest = top_settings(list.drop_last());
        if setting_line(list.last()) && !has_section(list) {
            rest.push(list.last())
        } else {
            rest
        }
    }
}

/// The line that sets the address to `url`.
pub open spec fn url_setting(url: Seq<char>) -> Seq<char> {
    "openai_base_url = \""@ + url + "\""@
}

/// The lines, with those before any section that set the address replaced by one for `url` or left
/// out.
pub open spec fn url_replaced(list: Seq<Seq<char>>, url: Option<Seq<char>>) -> Seq<Seq<char>>
    decreases list.len(),
{
    if list.len() == 0 {
        Seq::empty()
    } else {
        let rest = url_replaced(list.drop_last(), url);
        if setting_line(list.last()) && !has_section(list) {
            match url {
                Some(u) => rest.push(url_setting(u)),
                None => rest,
            }
        } else {
            rest.push(list.last())
        }
    }
}

/// The lines of a configuration in which the address is set to `url`, or not at all. Where it was
/// not set before, the line for it stands before the first section.
pub open spec fn url_lines(list: Seq<Seq<char>>, url: Option<Seq<char>>) -> Seq<Seq<char>> {
    let kept = url_replaced(list, url);
    match url {
        Some(u) => if top_settings(list).len() == 0 {
            kept.insert(first_section(kept, 0), url_setting(u))
        } else {
            kept
        },
        None => kept,
    }
}

fn is_setting_line(line: &str) -> (b: bool)
    ensures
        b == setting_line(line@),
{
    let t: String = trim(line);
    starts_with(t.as_str(), "openai_base_url") && contains(t.as_str(), "=")
}

fn show_setting(url: &str) -> (line: String)
    ensures
        line@ == url_setting(url@),
{
    concat3("openai_base_url = \"", url, "\"")
}

/// Sets the address in a configuration, or takes it out: what is to be written, where anything is.
pub fn set_codex_config_base_url(content: Option<&str>, url: Option<&str>) -> (text: Option<String>)
    ensures
        match (content, url) {
            (None, None) => text is None,
            (None, Some(u)) => text matches Some(t) && t@ == url_setting(u@) + seq!['\n'],
            (Some(c), _) => text matches Some(t) && t@ == file_of(
                url_lines(crate::text::line_list(c@), crate::json::opt_str(url)),
            ),
        },
{
    proof {
        reveal_strlit("\n");
    }
    assert("\n"@ =~= seq!['\n']);
    let c: &str = match content {
        Some(c) => c,
        None => {
            return match url {
                Some(u) => {
                    let line: String = show_setting(u);
                    Some(concat2(line.as_str(), "\n"))
                },
                None => None,
            };
        },
    };
    let list: Vec<String> = lines(c);
    let ghost all = crate::text::line_list(c@);
    let ghost to = crate::json::opt_str(url);
    let mut out: Vec<String> = Vec::new();
    let mut found: bool = false;
    let mut in_section: bool = false;
    let mut i: usize = 0;
    assert(crate::text::texts(out@) =~= url_replaced(all.take(0), to));
    while i < list.len()
        invariant
            i <= list@.len(),
            crate::text::texts(list@) == all,
            to == crate::json::opt_str(url),
            in_section == has_section(all.take(i as int)),
            found == (top_settings(all.take(i as int)).len() > 0),
            crate::text::texts(out@) == url_replaced(all.take(i as int), to),
        decreases list@.len() - i,
    {
        assert(all.take(i + 1).drop_last() =~= all.take(i as int));
        assert(all.take(i + 1).last() == list@[i as int]@);
        if is_section_line(list[i].as_str()) {
            in_section = true;
        }
        let ghost before = out@;
        if !in_section && is_setting_line(list[i].as_str()) {
            found = true;
            if let Some(u) = url {
                out.push(show_setting(u));
                assert(crate::text::texts(out@) =~= crate::text::texts(before).push(
                    url_setting(u@),
                ));
            }
        } else {
            out.push(list[i].clone());
            assert(crate::text::texts(out@) =~= crate::text::texts(before).push(
                list@[i as int]@,
            ));
        }
        i += 1;
    }
    assert(all.take(all.len() as int) =~= all);
    assert(all.len() == list@.len());
    if let Some(u) = url {
        if !found {
            let ghost kept = crate::text::texts(out@);
            let at: usize = find_section(&out);
            out.insert(at, show_setting(u));
            assert(crate::text::texts(out@) =~= kept.insert(at as int, url_setting(u@)));
        }
    }
    Some(write_file(&out))
}

proof fn lemma_url_setting(url: Seq<char>)
    ensures
        setting_line(url_setting(url)),
        !section_line(url_setting(url)),
        crate::text::one_line(url) ==> crate::text::one_line(url_setting(url)),
        crate::text::without_cr(url_setting(url)) == url_setting(url),
{
    let line = url_setting(url);
    reveal_strlit("openai_base_url = \"");
    reveal_strlit("\"");
    reveal_strlit("openai_base_url");
    reveal_strlit("=");
    reveal_strlit("[");
    let head = "openai_base_url = \""@;
    assert(line[0] == head[0]);
    assert(line.last() == '"');
    crate::text::lemma_trimmed_same(line);
    assert(line.subrange(0, 15) =~= "openai_base_url"@);
    assert(crate::text::stands_at(line, "openai_base_url"@, 0));
    assert(line.subrange(16, 17) =~= "="@);
    assert(crate::text::stands_at(line, "="@, 16));
    if section_line(line) {
        assert(line.subrange(0, 1)[0] == '[');
    }
}

proof fn lemma_url_replaced(list: Seq<Seq<char>>, url: Option<Seq<char>>)
    requires
        crate::text::all_one_line(list),
        url matches Some(u) ==> crate::text::one_line(u),
    ensures
        crate::text::all_one_line(url_replaced(list, url)),
        has_section(url_replaced(list, url)) == has_section(list),
        top_settings(url_replaced(list, url)).len() == if url is Some {
            top_settings(list).len()
        } else {
            0
        },
        forall|i: int|
            0 <= i < top_settings(url_replaced(list, url)).len() ==> url is Some
                && #[trigger] top_settings(url_replaced(list, url))[i] == url_setting(url->0),
    decreases list.len(),
{
    if list.len() > 0 {
        let rest = list.drop_last();
        assert forall|i: int| 0 <= i < rest.len() implies crate::text::one_line(
            #[trigger] rest[i],
        ) by {
            assert(crate::text::one_line(list[i]));
        }
        lemma_url_replaced(rest, url);
        if let Some(u) = url {
            lemma_url_setting(u);
        }
        assert(crate::text::one_line(list[list.len() - 1]));
        let before = url_replaced(rest, url);
        let all = url_replaced(list, url);
        if all.len() > before.len() {
            assert(all.drop_last() =~= before);
            assert forall|i: int| 0 <= i < all.len() implies crate::text::one_line(
                #[trigger] all[i],
            ) by {
                if i < before.len() {
                    assert(crate::text::one_line(before[i]));
                }
            }
            assert forall|i: int| 0 <= i < top_settings(all).len() implies url is Some
                && #[trigger] top_settings(all)[i] == url_setting(url->0) by {
                if i < top_settings(before).len() {
                    assert(top_settings(all)[i] == top_settings(before)[i]);
                }
            }
        }
    }
}

proof fn lemma_has_section(list: Seq<Seq<char>>)
    ensures
        has_section(list) <==> exists|i: int| 0 <= i < list.len() && section_line(#[trigger] list[i]),
    decreases list.len(),
{
    if list.len() > 0 {
        let rest = list.drop_last();
        lemma_has_section(rest);
        if has_section(rest) {
            let i = choose|i: int| 0 <= i < rest.len() && section_line(#[trigger] rest[i]);
            assert(section_line(list[i]));
        }
        if section_line(list.last()) {
            assert(section_line(list[list.len() - 1]));
        }
        if exists|i: int| 0 <= i < list.len() && section_line(#[trigger] list[i]) {
            let i = choose|i: int| 0 <= i < list.len() && section_line(#[trigger] list[i]);
            if i < rest.len() {
                assert(rest[i] == list[i]);
            }
        }
    }
}

proof fn lemma_no_more_settings(list: Seq<Seq<char>>, n: int, p: int)
    requires
        0 <= p < n <= list.len(),
        section_line(list[p]),
    ensures
        top_settings(list.take(n)) == top_settings(list.take(p)),
    decreases n,
{
    let all = list.take(n);
    assert(all.drop_last() =~= list.take(n - 1));
    lemma_has_section(all);
    assert(section_line(all[p]));
    assert(has_section(all));
    if n - 1 > p {
        lemma_no_more_settings(list, n - 1, p);
    }
}

proof fn lemma_prefix_settings(list: Seq<Seq<char>>, n: int)
    requires
        0 <= n <= list.len(),
    ensures
        top_settings(list.take(n)).len() <= top_settings(list).len(),
    decreases list.len() - n,
{
    if n < list.len() {
        lemma_prefix_settings(list, n + 1);
        assert(list.take(n + 1).drop_last() =~= list.take(n));
    } else {
        assert(list.take(n) =~= list);
    }
}

proof fn lemma_setting_inserted(list: Seq<Seq<char>>, url: Seq<char>)
    requires
        top_settings(list).len() == 0,
    ensures
        top_settings(list.insert(first_section(list, 0), url_setting(url))) == seq![
            url_setting(url),
        ],
{
    let y = url_setting(url);
    let p = first_section(list, 0);
    lemma_first_section(list, 0);
    lemma_url_setting(url);
    lemma_prefix_settings(list, p);
    let all = list.insert(p, y);
    let head = all.take(p + 1);
    assert(head.drop_last() =~= list.take(p));
    lemma_has_section(head);
    assert forall|i: int| 0 <= i < head.len() implies !section_line(#[trigger] head[i]) by {
        if i < p {
            assert(head[i] == list[i]);
        }
    }
    assert(!has_section(head));
    assert(top_settings(list.take(p)) =~= Seq::<Seq<char>>::empty());
    assert(top_settings(head) =~= seq![y]);
    if p < list.len() {
        assert(all[p + 1] == list[p]);
        lemma_no_more_settings(all, all.len() as int, p + 1);
    }
    assert(all.take(all.len() as int) =~= all);
}

proof fn lemma_settings_without_crs(list: Seq<Seq<char>>)
    ensures
        has_section(crate::text::without_crs(list)) == has_section(list),
        top_settings(crate::text::without_crs(list)) == crate::text::without_crs(
            top_settings(list),
        ),
    decreases list.len(),
{
    let back = crate::text::without_crs(list);
    if list.len() > 0 {
        lemma_settings_without_crs(list.drop_last());
        assert(back.drop_last() =~= crate::text::without_crs(list.drop_last()));
        crate::text::trimming_ignores_cr(list.last());
        assert(back.last() == crate::text::without_cr(list.last()));
        assert(top_settings(back) =~= crate::text::without_crs(top_settings(list)));
    } else {
        assert(top_settings(back) =~= crate::text::without_crs(top_settings(list)));
    }
}

/// In the configuration that was written, the address is set before any section exactly as it was
/// asked for: to `url`, and nowhere to anything else, or not at all.
pub proof fn address_reads_back(content: Seq<char>, url: Option<Seq<char>>)
    requires
        url matches Some(u) ==> crate::text::one_line(u),
    ensures
        ({
            let set = top_settings(
                crate::text::line_list(file_of(url_lines(crate::text::line_list(content), url))),
            );
            match url {
                Some(u) => set.len() > 0 && forall|i: int|
                    0 <= i < set.len() ==> #[trigger] set[i] == url_setting(u),
                None => set.len() == 0,
            }
        }),
{
    let list = crate::text::line_list(content);
    crate::text::lines_are_lines(content);
    lemma_url_replaced(list, url);
    let kept = url_replaced(list, url);
    let out = url_lines(list, url);
    if let Some(u) = url {
        lemma_url_setting(u);
        if top_settings(list).len() == 0 {
            lemma_setting_inserted(kept, u);
            lemma_first_section(kept, 0);
            let p = first_section(kept, 0);
            assert forall|i: int| 0 <= i < out.len() implies crate::text::one_line(
                #[trigger] out[i],
            ) by {
                if i < p {
                    assert(out[i] == kept[i]);
                    assert(crate::text::one_line(kept[i]));
                } else if i > p {
                    assert(out[i] == kept[i - 1]);
                    assert(crate::text::one_line(kept[i - 1]));
                }
            }
        }
    }
    if out.len() == 0 {
        assert(out =~= Seq::<Seq<char>>::empty());
        lemma_empty_file();
        let back = crate::text::line_list(file_of(out));
        assert(!setting_line(back[0])) by {
            reveal_strlit("openai_base_url");
        }
        assert(back.drop_last() =~= Seq::<Seq<char>>::empty());
        reveal_with_fuel(top_settings, 2);
    } else {
        crate::text::written_lines_are_read_back(out);
        lemma_settings_without_crs(out);
        let set = top_settings(crate::text::without_crs(out));
        assert forall|i: int| 0 <= i < set.len() implies url is Some && #[trigger] set[i]
            == url_setting(url->0) by {
            assert(set[i] == crate::text::without_cr(top_settings(out)[i]));
        }
    }
}

// ---------------------------------------------------------------------------
// The address of the proxy in the environment
// ---------------------------------------------------------------------------

/// The line was put there for the proxy.
pub open spec fn marked_line(line: Seq<char>) -> bool {
    crate::text::occurs(line, "# codex-switcher-proxy"@)
}

/// The lines that were put there for the proxy.
pub open spec fn marked_lines(list: Seq<Seq<char>>) -> Seq<Seq<char>>
    decreases list.len(),
{
    if list.len() == 0 {
        Seq::empty()
    } else if marked_line(list.last()) {
        marked_lines(list.drop_last()).push(list.last())
    } else {
        marked_lines(list.drop_last())
    }
}

/// The lines but for those that were put there for the proxy.
pub open spec fn other_lines(list: Seq<Seq<char>>) -> Seq<Seq<char>>
    decreases list.len(),
{
    if list.len() == 0 {
        Seq::empty()
    } else if marked_line(list.last()) {
        other_lines(list.drop_last())
    } else {
        other_lines(list.drop_last()).push(list.last())
    }
}

/// The line that sends a shell through the proxy.
pub open spec fn export_line(port: u16) -> Seq<char> {
    "export OPENAI_BASE_URL="@ + crate::lifecycle::proxy_url("localhost"@, port)
        + " # codex-switcher-proxy"@
}

/// The text ends with a line feed.
pub open spec fn ends_line(s: Seq<char>) -> bool {
    s.len() > 0 && s.last() == '\n'
}

/// The content of a file for the shell that sends it through the proxy, or does not.
pub open spec fn rc_text(content: Seq<char>, port: u16, enable: bool) -> Seq<char> {
    let others = crate::text::joined(other_lines(crate::text::line_list(content)), seq!['\n']);
    if enable {
        (if ends_line(others) {
            others
        } else {
            others + seq!['\n']
        }) + export_line(port) + seq!['\n']
    } else {
        others
    }
}

/// The content of a file for the shell that sends it through the proxy, or does not.
pub fn edit_rc_file(content: &str, port: u16, enable: bool) -> (text: String)
    ensures
        text@ == rc_text(content@, port, enable),
{
    proof {
        reveal_strlit("\n");
    }
    assert("\n"@ =~= seq!['\n']);
    let list: Vec<String> = lines(content);
    let ghost all = crate::text::line_list(content@);
    let mut others: Vec<String> = Vec::new();
    let mut i: usize = 0;
    assert(crate::text::texts(others@) =~= other_lines(all.take(0)));
    while i < list.len()
        invariant
            i <= list@.len(),
            crate::text::texts(list@) == all,
            crate::text::texts(others@) == other_lines(all.take(i as int)),
        decreases list@.len() - i,
    {
        assert(all.take(i + 1).drop_last() =~= all.take(i as int));
        assert(all.take(i + 1).last() == list@[i as int]@);
        if !contains(list[i].as_str(), "# codex-switcher-proxy") {
            let ghost before = others@;
            others.push(list[i].clone());
            assert(crate::text::texts(others@) =~= crate::text::texts(before).push(
                list@[i as int]@,
            ));
        }
        i += 1;
    }
    assert(all.take(all.len() as int) =~= all);
    assert(all.len() == list@.len());
    let mut text: String = join(&others, "\n");
    if enable {
        let c: Vec<char> = to_chars(text.as_str());
        let ended: bool = c.len() > 0 && c[c.len() - 1] == '\n';
        if !ended {
            text.append("\n");
        }
        let url: String = show_proxy_url("localhost", port);
        text.append("export OPENAI_BASE_URL=");
        text.append(url.as_str());
        text.append(" # codex-switcher-proxy");
        text.append("\n");
        assert(text@ =~= rc_text(content@, port, enable));
    }
    text
}

proof fn lemma_decimal_one_line(n: nat)
    ensures
        crate::text::one_line(crate::text::decimal(n)),
    decreases n,
{
    if n >= 10 {
        lemma_decimal_one_line(n / 10);
    }
}

proof fn lemma_export_line(port: u16)
    ensures
        crate::text::one_line(export_line(port)),
        marked_line(export_line(port)),
        crate::text::without_cr(export_line(port)) == export_line(port),
{
    let line = export_line(port);
    let mark = "# codex-switcher-proxy"@;
    reveal_strlit("export OPENAI_BASE_URL=");
    reveal_strlit("http://");
    reveal_strlit("localhost");
    reveal_strlit(":");
    reveal_strlit("/v1");
    reveal_strlit(" # codex-switcher-proxy");
    reveal_strlit("# codex-switcher-proxy");
    lemma_decimal_one_line(port as nat);
    let tail = " # codex-switcher-proxy"@;
    let at = line.len() - mark.len();
    assert(line.subrange(at, line.len() as int) =~= mark) by {
        assert forall|i: int| 0 <= i < mark.len() implies line[at + i] == mark[i] by {
            assert(line[at + i] == tail[i + 1]);
        }
    }
    assert(crate::text::stands_at(line, mark, at));
    assert(line.last() == tail.last());
}

proof fn lemma_other_lines(list: Seq<Seq<char>>)
    requires
        crate::text::all_one_line(list),
    ensures
        crate::text::all_one_line(other_lines(list)),
        forall|i: int|
            0 <= i < other_lines(list).len() ==> !marked_line(#[trigger] other_lines(list)[i]),
    decreases list.len(),
{
    if list.len() > 0 {
        let rest = list.drop_last();
        assert forall|i: int| 0 <= i < rest.len() implies crate::text::one_line(
            #[trigger] rest[i],
        ) by {
            assert(crate::text::one_line(list[i]));
        }
        lemma_other_lines(rest);
        assert(crate::text::one_line(list[list.len() - 1]));
        let before = other_lines(rest);
        let all = other_lines(list);
        assert forall|i: int| 0 <= i < all.len() implies crate::text::one_line(
            #[trigger] all[i],
        ) by {
            if i < before.len() {
                assert(all[i] == before[i]);
                assert(crate::text::one_line(before[i]));
            }
        }
        assert forall|i: int| 0 <= i < all.len() implies !marked_line(#[trigger] all[i]) by {
            if i < before.len() {
                assert(all[i] == before[i]);
            }
        }
    }
}

proof fn lemma_unmarked(list: Seq<Seq<char>>)
    requires
        forall|i: int| 0 <= i < list.len() ==> !marked_line(#[trigger] list[i]),
    ensures
        marked_lines(crate::text::without_crs(list)) == Seq::<Seq<char>>::empty(),
        marked_lines(list) == Seq::<Seq<char>>::empty(),
    decreases list.len(),
{
    if list.len() > 0 {
        let rest = list.drop_last();
        assert forall|i: int| 0 <= i < rest.len() implies !marked_line(#[trigger] rest[i]) by {
            assert(!marked_line(list[i]));
        }
        lemma_unmarked(rest);
        let back = crate::text::without_crs(list);
        assert(back.drop_last() =~= crate::text::without_crs(rest));
        let x = list[list.len() - 1];
        assert(!marked_line(x));
        let y = crate::text::without_cr(x);
        let mark = "# codex-switcher-proxy"@;
        if marked_line(y) {
            let at = choose|at: int| crate::text::stands_at(y, mark, at);
            assert(x.subrange(at, at + mark.len()) =~= y.subrange(at, at + mark.len()));
            assert(crate::text::stands_at(x, mark, at));
        }
        assert(back.last() == y);
    }
}

proof fn lemma_single_line(x: Seq<char>)
    requires
        crate::text::one_line(x),
    ensures
        crate::text::line_list(x) == if x.len() == 0 {
            Seq::<Seq<char>>::empty()
        } else {
            seq![x]
        },
{
    if x.len() > 0 {
        crate::text::lemma_next_of(x, '\n', 0);
        assert(x.subrange(0, x.len() as int) =~= x);
    }
}

proof fn lemma_marked_last(list: Seq<Seq<char>>, port: u16)
    requires
        crate::text::all_one_line(list),
        forall|i: int| 0 <= i < list.len() ==> !marked_line(#[trigger] list[i]),
    ensures
        marked_lines(
            crate::text::line_list(crate::text::ended_lines(list.push(export_line(port)))),
        ) == seq![export_line(port)],
{
    let e = export_line(port);
    let all = list.push(e);
    lemma_export_line(port);
    assert(crate::text::all_one_line(all)) by {
        assert forall|i: int| 0 <= i < all.len() implies crate::text::one_line(
            #[trigger] all[i],
        ) by {
            if i < list.len() {
                assert(crate::text::one_line(list[i]));
            }
        }
    }
    let text = crate::text::ended_lines(all);
    assert(text =~= text + Seq::<char>::empty());
    crate::text::ended_lines_are_read_back(all, Seq::empty());
    let back = crate::text::without_crs(all);
    assert(back + crate::text::line_list(Seq::<char>::empty()) =~= back);
    lemma_unmarked(list);
    assert(back.drop_last() =~= crate::text::without_crs(list));
    assert(back.last() == e);
    assert(marked_lines(back) =~= seq![e]);
}

/// In the file for the shell that was written, exactly one line sends it through the proxy, and to
/// the port that was asked for; or none does.
pub proof fn shell_setting_reads_back(content: Seq<char>, port: u16, enable: bool)
    ensures
        marked_lines(crate::text::line_list(rc_text(content, port, enable))) == if enable {
            seq![export_line(port)]
        } else {
            Seq::<Seq<char>>::empty()
        },
{
    let list = crate::text::line_list(content);
    crate::text::lines_are_lines(content);
    lemma_other_lines(list);
    let others = other_lines(list);
    let j = crate::text::joined(others, seq!['\n']);
    let e = export_line(port);
    let text = rc_text(content, port, enable);
    if others.len() == 0 {
        if enable {
            let base = seq![Seq::<char>::empty()];
            assert(!marked_line(base[0])) by {
                reveal_strlit("# codex-switcher-proxy");
            }
            assert(base.drop_last() =~= Seq::<Seq<char>>::empty());
            assert(crate::text::ended_lines(base.drop_last()) =~= Seq::<char>::empty());
            assert(base.push(e).drop_last() =~= base);
            assert(crate::text::ended_lines(base) =~= seq!['\n']);
            assert(base.push(e).last() == e);
            assert(crate::text::ended_lines(base.push(e)) == crate::text::ended_lines(base) + e
                + seq!['\n']);
            assert(text =~= crate::text::ended_lines(base.push(e)));
            lemma_marked_last(base, port);
        } else {
            assert(text =~= Seq::<char>::empty());
        }
    } else {
        crate::text::lemma_joined_lines(others);
        let rest = others.drop_last();
        let last = others.last();
        assert(crate::text::one_line(others[others.len() - 1]));
        assert(!marked_line(others[others.len() - 1]));
        assert forall|i: int| 0 <= i < rest.len() implies crate::text::one_line(
            #[trigger] rest[i],
        ) && !marked_line(rest[i]) by {
            assert(crate::text::one_line(others[i]));
            assert(!marked_line(others[i]));
        }
        if enable {
            if ends_line(j) {
                if last.len() > 0 {
                    assert(j.last() == last.last());
                }
                assert(rest.push(e).drop_last() =~= rest);
                assert(text =~= crate::text::ended_lines(rest.push(e)));
                lemma_marked_last(rest, port);
            } else {
                assert(others.push(e).drop_last() =~= others);
                assert(crate::text::ended_lines(others) == crate::text::ended_lines(rest) + last
                    + seq!['\n']);
                assert(others.push(e).last() == e);
                assert(crate::text::ended_lines(others.push(e)) == crate::text::ended_lines(others)
                    + e + seq!['\n']);
                assert(text =~= crate::text::ended_lines(others.push(e)));
                lemma_marked_last(others, port);
            }
        } else {
            crate::text::ended_lines_are_read_back(rest, last);
            lemma_single_line(last);
            lemma_unmarked(rest);
            let back = crate::text::line_list(text);
            if last.len() == 0 {
                assert(back =~= crate::text::without_crs(rest));
            } else {
                assert(back =~= crate::text::without_crs(rest).push(last));
                assert(back.drop_last() =~= crate::text::without_crs(rest));
            }
        }
    }
}

/// What is said about the places that were changed.
pub fn set_proxy_env(enable: bool, places: &Vec<String>) -> (report: String)
    ensures
        report@ == (if enable {
            "Set"@
        } else {
            "Removed"@
        }) + " OPENAI_BASE_URL ("@ + crate::text::joined(crate::text::texts(places@), ", "@)
            + ").\nTerminal: effective in new window\nCodex App: effective after restart"@,
{
    let mut report: String = if enable {
        "Set".to_owned()
    } else {
        "Removed".to_owned()
    };
    report.append(" OPENAI_BASE_URL (");
    report.append(join(places, ", ").as_str());
    report.append(
        ").\nTerminal: effective in new window\nCodex App: effective after restart",
    );
    report
}

/// How the configuration is named among the places that were changed.
pub fn config_place(outcome: &Result<(), String>) -> (place: String)
    ensures
        place@ == match *outcome {
            Ok(_) => "config.toml"@,
            Err(e) => "config.toml(failed: "@ + e@ + ")"@,
        },
{
    match outcome {
        Ok(_) => "config.toml".to_owned(),
        Err(e) => concat3("config.toml(failed: ", e.as_str(), ")"),
    }
}

// ---------------------------------------------------------------------------
// What is left of the user's own lines
// ---------------------------------------------------------------------------

proof fn lemma_filter_push<A>(list: Seq<A>, x: A, keep: spec_fn(A) -> bool)
    ensures
        list.push(x).filter(keep) == if keep(x) {
            list.filter(keep).push(x)
        } else {
            list.filter(keep)
        },
{
    reveal(Seq::filter);
    assert(list.push(x).drop_last() =~= list);
}

proof fn lemma_filter_insert<A>(list: Seq<A>, at: int, x: A, keep: spec_fn(A) -> bool)
    requires
        0 <= at <= list.len(),
        !keep(x),
    ensures
        list.insert(at, x).filter(keep) == list.filter(keep),
{
    let a = list.take(at);
    let b = list.skip(at);
    assert(list =~= a + b);
    assert(list.insert(at, x) =~= a.push(x) + b);
    Seq::filter_distributes_over_add(a, b, keep);
    Seq::filter_distributes_over_add(a.push(x), b, keep);
    lemma_filter_push(a, x, keep);
}

/// The lines of a file for the shell that are not marked stay, unchanged and in their order: the
/// text that is written begins with them. Nothing follows them where the proxy is switched off, and
/// one marked line where it is switched on.
pub proof fn shell_files_keep_unmarked_lines(content: Seq<char>, port: u16)
    ensures
        ({
            let own = crate::text::line_list(content).filter(
                |line: Seq<char>| !crate::text::occurs(line, "# codex-switcher-proxy"@),
            );
            let kept = crate::text::joined(own, seq!['\n']);
            &&& rc_text(content, port, false) == kept
            &&& rc_text(content, port, true) == kept + (if kept.len() > 0 && kept.last() == '\n' {
                Seq::<char>::empty()
            } else {
                seq!['\n']
            }) + "export OPENAI_BASE_URL="@ + ("http://"@ + "localhost"@ + ":"@
                + crate::text::decimal(port as nat) + "/v1"@) + " # codex-switcher-proxy"@
                + seq!['\n']
        }),
{
    let list = crate::text::line_list(content);
    lemma_others_are_unmarked(list);
    let own = list.filter(
        |line: Seq<char>| !crate::text::occurs(line, "# codex-switcher-proxy"@),
    );
    assert(other_lines(list) == own);
    let kept = crate::text::joined(own, seq!['\n']);
    assert(rc_text(content, port, true) =~= kept + (if kept.len() > 0 && kept.last() == '\n' {
        Seq::<char>::empty()
    } else {
        seq!['\n']
    }) + "export OPENAI_BASE_URL="@ + ("http://"@ + "localhost"@ + ":"@ + crate::text::decimal(
        port as nat,
    ) + "/v1"@) + " # codex-switcher-proxy"@ + seq!['\n']);
}

proof fn lemma_others_are_unmarked(list: Seq<Seq<char>>)
    ensures
        other_lines(list) == list.filter(
            |line: Seq<char>| !crate::text::occurs(line, "# codex-switcher-proxy"@),
        ),
        marked_lines(list) == list.filter(
            |line: Seq<char>| crate::text::occurs(line, "# codex-switcher-proxy"@),
        ),
    decreases list.len(),
{
    reveal(Seq::filter);
    if list.len() > 0 {
        lemma_others_are_unmarked(list.drop_last());
    }
}

/// When the lines of the written file are read, the unmarked ones among them are those of the file
/// that was there, but for carriage returns at their ends, as long as the last of them is not empty.
pub proof fn unmarked_lines_read_back(content: Seq<char>, port: u16)
    ensures
        ({
            let unmarked = |line: Seq<char>|
                !crate::text::occurs(line, "# codex-switcher-proxy"@);
            let own = crate::text::line_list(content).filter(unmarked);
            own.len() > 0 && own.last().len() > 0 ==> crate::text::line_list(
                rc_text(content, port, true),
            ).filter(unmarked) == crate::text::without_crs(own)
        }),
{
    let unmarked = |line: Seq<char>| !crate::text::occurs(line, "# codex-switcher-proxy"@);
    let list = crate::text::line_list(content);
    lemma_others_are_unmarked(list);
    let own = list.filter(unmarked);
    assert(other_lines(list) == own);
    if own.len() > 0 && own.last().len() > 0 {
        crate::text::lines_are_lines(content);
        lemma_other_lines(list);
        let e = export_line(port);
        let text = rc_text(content, port, true);
        let j = crate::text::joined(own, seq!['\n']);
        crate::text::lemma_joined_lines(own);
        assert(crate::text::one_line(own[own.len() - 1]));
        assert(j.last() == own.last().last());
        assert(own.last()[own.last().len() - 1] != '\n');
        let rest = own.drop_last();
        let all = own.push(e);
        assert(all.drop_last() =~= own);
        assert(crate::text::ended_lines(own) == crate::text::ended_lines(rest) + own.last()
            + seq!['\n']);
        assert(text =~= crate::text::ended_lines(all));
        lemma_export_line(port);
        assert forall|i: int| 0 <= i < all.len() implies crate::text::one_line(
            #[trigger] all[i],
        ) by {
            if i < own.len() {
                assert(crate::text::one_line(own[i]));
            }
        }
        crate::text::ended_lines_are_read_back(all, Seq::empty());
        assert(text + Seq::<char>::empty() =~= text);
        let back = crate::text::without_crs(all);
        assert(crate::text::line_list(text) =~= back);
        let kept = crate::text::without_crs(own);
        assert(back =~= kept.push(e));
        lemma_filter_push(kept, e, unmarked);
        assert forall|i: int| 0 <= i < own.len() implies !marked_line(#[trigger] kept[i]) by {
            assert(!marked_line(own[i]));
            let mark = "# codex-switcher-proxy"@;
            let x = own[i];
            let y = crate::text::without_cr(x);
            if marked_line(y) {
                let at = choose|at: int| crate::text::stands_at(y, mark, at);
                assert(x.subrange(at, at + mark.len()) =~= y.subrange(at, at + mark.len()));
                assert(crate::text::stands_at(x, mark, at));
            }
        }
        lemma_filter_all(kept, unmarked);
    }
}

proof fn lemma_filter_all<A>(list: Seq<A>, keep: spec_fn(A) -> bool)
    requires
        forall|i: int| 0 <= i < list.len() ==> keep(#[trigger] list[i]),
    ensures
        list.filter(keep) == list,
    decreases list.len(),
{
    reveal(Seq::filter);
    if list.len() > 0 {
        let rest = list.drop_last();
        assert forall|i: int| 0 <= i < rest.len() implies keep(#[trigger] rest[i]) by {
            assert(rest[i] == list[i]);
        }
        lemma_filter_all(rest, keep);
        assert(keep(list[list.len() - 1]));
        assert(rest.push(list.last()) =~= list);
    } else {
        assert(list.filter(keep) =~= list);
    }
}

/// Switching the fast mode keeps every line that sets no profile, and every section; before the
/// sections a profile is then set to the fast one and to no other, or not at all.
pub proof fn the_fast_mode_touches_profiles_only(list: Seq<Seq<char>>, enable: bool)
    requires
        crate::text::all_one_line(list),
    ensures
        ({
            let other = |line: Seq<char>|
                !(crate::text::begins(crate::text::trimmed(line), "profile"@)
                    && crate::text::occurs(crate::text::trimmed(line), "="@));
            let out = fast_lines(list, enable);
            let end = first_section(out, 0);
            &&& out.filter(other) == list.filter(other)
            &&& out.skip(end) == list.skip(first_section(list, 0))
            &&& forall|i: int|
                0 <= i < end && !other(#[trigger] out[i]) ==> enable && out[i]
                    == "profile = \"fast\""@
            &&& enable ==> exists|i: int| 0 <= i < end && #[trigger] out[i] == "profile = \"fast\""@
        }),
{
    let other = |line: Seq<char>|
        !(crate::text::begins(crate::text::trimmed(line), "profile"@) && crate::text::occurs(
            crate::text::trimmed(line),
            "="@,
        ));
    sections_are_left_alone(list, enable);
    lemma_first_section(list, 0);
    let top = top_lines(list);
    let tail = section_lines(list);
    let head = fast_top(top, enable);
    let out = fast_lines(list, enable);
    assert(list =~= top + tail);
    Seq::filter_distributes_over_add(top, tail, other);
    Seq::filter_distributes_over_add(head, tail, other);
    lemma_profiles_filtered(top, enable, other);
    lemma_fast_line();
    let kept = profile_replaced(top, enable);
    if enable && !has_profile(top) {
        lemma_filter_insert(kept, 0, "profile = \"fast\""@, other);
    }
    assert forall|i: int| 0 <= i < top.len() implies crate::text::one_line(#[trigger] top[i]) by {
        assert(crate::text::one_line(list[i]));
    }
    assert forall|i: int| 0 <= i < top.len() implies !section_line(#[trigger] top[i]) by {
        assert(!section_line(list[i]));
    }
    lemma_profiles_replaced(top, enable);
    assert forall|i: int| 0 <= i < head.len() implies !section_line(#[trigger] head[i]) && (
    profile_line(head[i]) ==> enable && head[i] == "profile = \"fast\""@) by {
        if enable && !has_profile(top) {
            if i > 0 {
                assert(head[i] == kept[i - 1]);
            }
        }
    }
    lemma_top_lines(head, tail);
    lemma_first_section(out, 0);
    assert(first_section(out, 0) == head.len()) by {
        assert(top_lines(out).len() == first_section(out, 0));
    }
    assert forall|i: int| 0 <= i < head.len() && !other(#[trigger] out[i]) implies enable && out[i]
        == "profile = \"fast\""@ by {
        assert(out[i] == head[i]);
    }
    if enable {
        if has_profile(top) {
            lemma_has_profile(kept);
            let i = choose|i: int| 0 <= i < kept.len() && profile_line(#[trigger] kept[i]);
            assert(out[i] == "profile = \"fast\""@);
        } else {
            assert(out[0] == "profile = \"fast\""@);
        }
    }
}

proof fn lemma_profiles_filtered(
    list: Seq<Seq<char>>,
    enable: bool,
    other: spec_fn(Seq<char>) -> bool,
)
    requires
        forall|line: Seq<char>| #[trigger] other(line) == !profile_line(line),
    ensures
        profile_replaced(list, enable).filter(other) == list.filter(other),
    decreases list.len(),
{
    if list.len() > 0 {
        let rest = list.drop_last();
        lemma_profiles_filtered(rest, enable, other);
        lemma_fast_line();
        let before = profile_replaced(rest, enable);
        lemma_filter_push(rest, list.last(), other);
        assert(rest.push(list.last()) =~= list);
        lemma_filter_push(before, list.last(), other);
        lemma_filter_push(before, "profile = \"fast\""@, other);
    }
}

/// The fast mode is on exactly where the first line that sets a profile names the fast one.
pub proof fn the_first_profile_counts(list: Seq<Seq<char>>, from: int)
    requires
        0 <= from <= list.len(),
    ensures
        fast_from(list, from) <==> exists|i: int|
            {
                &&& from <= i < list.len()
                &&& crate::text::begins(crate::text::trimmed(#[trigger] list[i]), "profile"@)
                &&& crate::text::occurs(crate::text::trimmed(list[i]), "="@)
                &&& crate::text::occurs(crate::text::trimmed(list[i]), "\"fast\""@)
                &&& forall|k: int|
                    from <= k < i ==> !(crate::text::begins(
                        crate::text::trimmed(#[trigger] list[k]),
                        "profile"@,
                    ) && crate::text::occurs(crate::text::trimmed(list[k]), "="@))
            },
    decreases list.len() - from,
{
    if from < list.len() {
        the_first_profile_counts(list, from + 1);
        if profile_line(list[from]) {
            if fast_from(list, from) {
                assert(profile_line(list[from]));
            }
        } else {
            if fast_from(list, from) {
                let i = choose|i: int|
                    {
                        &&& from + 1 <= i < list.len()
                        &&& crate::text::begins(
                            crate::text::trimmed(#[trigger] list[i]),
                            "profile"@,
                        )
                        &&& crate::text::occurs(crate::text::trimmed(list[i]), "="@)
                        &&& crate::text::occurs(crate::text::trimmed(list[i]), "\"fast\""@)
                        &&& forall|k: int|
                            from + 1 <= k < i ==> !(crate::text::begins(
                                crate::text::trimmed(#[trigger] list[k]),
                                "profile"@,
                            ) && crate::text::occurs(crate::text::trimmed(list[k]), "="@))
                    };
                assert(profile_line(list[i]));
            }
        }
    }
}

/// Setting the address, or taking it out, keeps every line that does not set it, and every section.
pub proof fn the_address_touches_its_own_lines_only(list: Seq<Seq<char>>, url: Option<Seq<char>>)
    ensures
        ({
            let other = |line: Seq<char>|
                !(crate::text::begins(crate::text::trimmed(line), "openai_base_url"@)
                    && crate::text::occurs(crate::text::trimmed(line), "="@));
            let out = url_lines(list, url);
            let end = first_section(out, 0);
            &&& out.filter(other) == list.filter(other)
            &&& out.skip(end) == list.skip(first_section(list, 0))
            &&& forall|i: int|
                0 <= i < end && !other(#[trigger] out[i]) ==> (url matches Some(u) && out[i]
                    == "openai_base_url = \""@ + u + "\""@)
            &&& url matches Some(u) ==> exists|i: int|
                0 <= i < end && #[trigger] out[i] == "openai_base_url = \""@ + u + "\""@
        }),
{
    let other = |line: Seq<char>|
        !(crate::text::begins(crate::text::trimmed(line), "openai_base_url"@)
            && crate::text::occurs(crate::text::trimmed(line), "="@));
    lemma_first_section(list, 0);
    let end = first_section(list, 0);
    let top = top_lines(list);
    let tail = section_lines(list);
    assert(list =~= top + tail);
    assert(list.take(list.len() as int) =~= list);
    assert(list.take(end) =~= top);
    lemma_sections_not_replaced(list, url, list.len() as int);
    assert(list.subrange(end, list.len() as int) =~= tail);
    let before = url_replaced(top, url);
    let kept = url_replaced(list, url);
    assert(kept =~= before + tail);
    assert forall|i: int| 0 <= i < top.len() implies !section_line(#[trigger] top[i]) by {
        assert(!section_line(list[i]));
    }
    lemma_settings_replaced(top, url, other);
    lemma_top_lines(before, tail);
    lemma_first_section(kept, 0);
    assert(first_section(kept, 0) == before.len()) by {
        assert(top_lines(kept).len() == first_section(kept, 0));
    }
    let out = url_lines(list, url);
    Seq::filter_distributes_over_add(top, tail, other);
    Seq::filter_distributes_over_add(before, tail, other);
    if let Some(u) = url {
        let y = url_setting(u);
        lemma_url_setting(u);
        lemma_top_settings_prefix(list, end);
        if top_settings(list).len() == 0 {
            lemma_filter_insert(kept, before.len() as int, y, other);
            let head = before.push(y);
            assert(out =~= head + tail);
            lemma_top_lines(head, tail);
            lemma_first_section(out, 0);
            assert(first_section(out, 0) == head.len()) by {
                assert(top_lines(out).len() == first_section(out, 0));
            }
            assert forall|i: int| 0 <= i < head.len() && !other(#[trigger] out[i]) implies out[i]
                == y by {
                if i < before.len() {
                    assert(out[i] == before[i]);
                }
            }
            assert(out[before.len() as int] == y);
            assert(out.skip(head.len() as int) =~= tail);
        } else {
            lemma_setting_there(top, u);
            let i = choose|i: int| 0 <= i < before.len() && #[trigger] before[i] == y;
            assert(out[i] == y);
            assert forall|i: int| 0 <= i < before.len() && !other(#[trigger] out[i]) implies out[i]
                == y by {
                assert(out[i] == before[i]);
            }
            assert(out.skip(before.len() as int) =~= tail);
        }
    } else {
        assert forall|i: int| 0 <= i < before.len() implies other(#[trigger] out[i]) by {
            assert(out[i] == before[i]);
        }
        assert(out.skip(before.len() as int) =~= tail);
    }
}

proof fn lemma_sections_not_replaced(list: Seq<Seq<char>>, url: Option<Seq<char>>, n: int)
    requires
        first_section(list, 0) <= n <= list.len(),
    ensures
        url_replaced(list.take(n), url) == url_replaced(list.take(first_section(list, 0)), url)
            + list.subrange(first_section(list, 0), n),
    decreases n,
{
    let p = first_section(list, 0);
    lemma_first_section(list, 0);
    if n == p {
        assert(list.subrange(p, n) =~= Seq::<Seq<char>>::empty());
    } else {
        let all = list.take(n);
        lemma_sections_not_replaced(list, url, n - 1);
        assert(all.drop_last() =~= list.take(n - 1));
        lemma_has_section(all);
        assert(section_line(all[p]));
        assert(list.subrange(p, n) =~= list.subrange(p, n - 1).push(all.last()));
    }
}

proof fn lemma_settings_replaced(
    list: Seq<Seq<char>>,
    url: Option<Seq<char>>,
    other: spec_fn(Seq<char>) -> bool,
)
    requires
        forall|i: int| 0 <= i < list.len() ==> !section_line(#[trigger] list[i]),
        forall|line: Seq<char>| #[trigger] other(line) == !setting_line(line),
    ensures
        url_replaced(list, url).filter(other) == list.filter(other),
        forall|i: int|
            0 <= i < url_replaced(list, url).len() ==> !section_line(
                #[trigger] url_replaced(list, url)[i],
            ),
        forall|i: int|
            0 <= i < url_replaced(list, url).len() && setting_line(
                #[trigger] url_replaced(list, url)[i],
            ) ==> url is Some && url_replaced(list, url)[i] == url_setting(url->0),
    decreases list.len(),
{
    if list.len() > 0 {
        let rest = list.drop_last();
        assert forall|i: int| 0 <= i < rest.len() implies !section_line(#[trigger] rest[i]) by {
            assert(!section_line(list[i]));
        }
        lemma_settings_replaced(rest, url, other);
        lemma_has_section(list);
        let before = url_replaced(rest, url);
        let all = url_replaced(list, url);
        assert(!section_line(list[list.len() - 1]));
        lemma_filter_push(rest, list.last(), other);
        assert(rest.push(list.last()) =~= list);
        lemma_filter_push(before, list.last(), other);
        if let Some(u) = url {
            lemma_url_setting(u);
            lemma_filter_push(before, url_setting(u), other);
        }
        assert forall|i: int| 0 <= i < all.len() implies !section_line(#[trigger] all[i]) && (
        setting_line(all[i]) ==> url is Some && all[i] == url_setting(url->0)) by {
            if i < before.len() {
                assert(all[i] == before[i]);
            }
        }
    }
}

proof fn lemma_top_settings_prefix(list: Seq<Seq<char>>, p: int)
    requires
        p == first_section(list, 0),
    ensures
        top_settings(list.take(p)) == top_settings(list),
{
    lemma_first_section(list, 0);
    if p < list.len() {
        lemma_no_more_settings(list, list.len() as int, p);
    }
    assert(list.take(list.len() as int) =~= list);
}

proof fn lemma_setting_there(list: Seq<Seq<char>>, u: Seq<char>)
    requires
        top_settings(list).len() > 0,
    ensures
        exists|i: int|
            0 <= i < url_replaced(list, Some(u)).len() && #[trigger] url_replaced(list, Some(u))[i]
                == url_setting(u),
    decreases list.len(),
{
    let all = url_replaced(list, Some(u));
    let rest = list.drop_last();
    if setting_line(list.last()) && !has_section(list) {
        assert(all[all.len() - 1] == url_setting(u));
    } else {
        lemma_setting_there(rest, u);
        let before = url_replaced(rest, Some(u));
        let i = choose|i: int| 0 <= i < before.len() && #[trigger] before[i] == url_setting(u);
        assert(all[i] == url_setting(u));
    }
}

} // verus!

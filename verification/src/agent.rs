//! The roadmap agent harness: the phases an epic moves through, the checks
//! of its spec, plan and handoff documents, and the roadmap they follow.

use vstd::prelude::*;
use crate::text::{
    ascii_lower_seq, lowercase, to_lowercase, to_ascii_lowercase,
    chars_of, contains, contains_char, contains_seq, find, first_occurrence, has_prefix, join,
    join_with, lines, lines_of, occurs_at, opt_string_view, slice_chars, starts_with, str_eq,
    string_of, trim, trim_chars, views, words, words_of,
};

verus! {

/// The phase of the active epic.
#[derive(Clone, Copy, Debug, PartialEq, Eq, Structural)]
pub enum Phase {
    Uninitialized,
    Initialized,
    Selected,
    Specified,
    Planned,
    InProgress,
    Verifying,
    Done,
}

/// The kind of work an epic is.
#[derive(Clone, Copy, Debug, PartialEq, Eq, Structural)]
pub enum WorkKind {
    Roadmap,
    SmallDirectEdit,
    EmergencyFix,
    HarnessDocs,
}

/// The priority of a roadmap item.
#[derive(Clone, Copy, Debug, PartialEq, Eq, Structural)]
pub enum Priority {
    P0,
    P1,
    P2,
    P3,
}

/// The status of a roadmap item.
#[derive(Clone, Copy, Debug, PartialEq, Eq, Structural)]
pub enum RoadmapStatus {
    Proposed,
    Specified,
    Planned,
    InProgress,
    Done,
    Deferred,
}

/// Whether a verification command passed.
#[derive(Clone, Copy, Debug, PartialEq, Eq, Structural)]
pub enum VerificationResult {
    Passed,
    Failed,
}

/// One item of the roadmap.
#[derive(Debug)]
pub struct RoadmapItem {
    pub title: String,
    pub priority: Priority,
    pub status: RoadmapStatus,
    pub spec: Option<String>,
    pub plan: Option<String>,
    pub dependencies: Vec<String>,
}

/// A recorded verification run.
#[derive(Debug)]
pub struct VerificationEntry {
    pub command: String,
    pub result: VerificationResult,
    pub summary: String,
    pub recorded_at: String,
}

/// The harness state of the active epic.
#[derive(Debug)]
pub struct AgentState {
    pub schema_version: u32,
    pub current_epic: String,
    pub phase: Phase,
    pub locked: bool,
    pub work_kind: WorkKind,
    pub exception_reason: String,
    pub spec: String,
    pub plan: String,
    pub current_handoff: String,
    pub last_handoff: String,
    pub verification: Vec<VerificationEntry>,
}

/// Which of the epic's documents exist.
#[derive(Debug)]
pub struct ArtifactStatus {
    pub spec_exists: bool,
    pub plan_exists: bool,
    pub handoff_exists: bool,
}

/// The findings of a check: errors block, warnings inform.
#[derive(Debug)]
pub struct CheckReport {
    pub errors: Vec<String>,
    pub warnings: Vec<String>,
}

/// The order of the phases.
pub open spec fn phase_rank_spec(p: Phase) -> u8 {
    match p {
        Phase::Uninitialized => 0,
        Phase::Initialized => 1,
        Phase::Selected => 2,
        Phase::Specified => 3,
        Phase::Planned => 4,
        Phase::InProgress => 5,
        Phase::Verifying => 6,
        Phase::Done => 7,
    }
}

/// The order of a phase.
pub fn phase_rank(phase: Phase) -> (r: u8)
    ensures
        r == phase_rank_spec(phase),
{
    match phase {
        Phase::Uninitialized => 0,
        Phase::Initialized => 1,
        Phase::Selected => 2,
        Phase::Specified => 3,
        Phase::Planned => 4,
        Phase::InProgress => 5,
        Phase::Verifying => 6,
        Phase::Done => 7,
    }
}

/// The order of the roadmap statuses (deferred ranks with proposed).
pub open spec fn roadmap_status_rank_spec(s: RoadmapStatus) -> u8 {
    match s {
        RoadmapStatus::Proposed => 0,
        RoadmapStatus::Deferred => 0,
        RoadmapStatus::Specified => 2,
        RoadmapStatus::Planned => 3,
        RoadmapStatus::InProgress => 4,
        RoadmapStatus::Done => 5,
    }
}

/// The order of a roadmap status.
pub fn roadmap_status_rank(status: RoadmapStatus) -> (r: u8)
    ensures
        r == roadmap_status_rank_spec(status),
{
    match status {
        RoadmapStatus::Proposed => 0,
        RoadmapStatus::Deferred => 0,
        RoadmapStatus::Specified => 2,
        RoadmapStatus::Planned => 3,
        RoadmapStatus::InProgress => 4,
        RoadmapStatus::Done => 5,
    }
}

/// Work outside the roadmap: small direct edits, emergency fixes, harness docs.
pub open spec fn is_exception_spec(wk: WorkKind) -> bool {
    wk != WorkKind::Roadmap
}

/// Work outside the roadmap.
pub fn is_exception_work_kind(wk: &WorkKind) -> (r: bool)
    ensures
        r == is_exception_spec(*wk),
{
    match wk {
        WorkKind::Roadmap => false,
        _ => true,
    }
}

/// A phase change is allowed: forward by one phase, or, for exception work,
/// straight from selected to in progress.
pub open spec fn phase_step_ok(current: Phase, target: Phase, wk: WorkKind) -> bool {
    let c = phase_rank_spec(current);
    let t = phase_rank_spec(target);
    &&& t > c
    &&& (t == c + 1 || (is_exception_spec(wk) && current == Phase::Selected && target == Phase::InProgress))
}

/// Checks a phase change: never backward, never skipping a phase, except
/// that exception work may go from selected straight to in progress.
pub fn next_phase(current: Phase, target: Phase, work_kind: &WorkKind) -> (r: Result<(), String>)
    ensures
        r is Ok <==> phase_step_ok(current, target, *work_kind),
        phase_rank_spec(target) <= phase_rank_spec(current) ==> (r matches Err(e) && e@
            == "cannot move backward in phase"@),
        phase_rank_spec(target) > phase_rank_spec(current) && !phase_step_ok(current, target, *work_kind)
            ==> (r matches Err(e) && e@ == "cannot skip phase"@),
{
    let cur_rank = phase_rank(current);
    let target_rank = phase_rank(target);
    if target_rank <= cur_rank {
        return Err(String::from_str("cannot move backward in phase"));
    }
    if is_exception_work_kind(work_kind) {
        if matches!(current, Phase::Selected) && matches!(target, Phase::InProgress) {
            return Ok(());
        }
        if target_rank != cur_rank + 1 {
            return Err(String::from_str("cannot skip phase"));
        }
        return Ok(());
    }
    if target_rank != cur_rank + 1 {
        return Err(String::from_str("cannot skip phase"));
    }
    Ok(())
}

/// A phase never goes backward: any allowed change raises the rank.
pub proof fn lemma_phase_never_backward(current: Phase, target: Phase, wk: WorkKind)
    requires
        phase_step_ok(current, target, wk),
    ensures
        phase_rank_spec(target) > phase_rank_spec(current),
        is_exception_spec(wk) || phase_rank_spec(target) == phase_rank_spec(current) + 1,
{
}

/// The snake-case name of a phase.
pub open spec fn phase_name(p: Phase) -> Seq<char> {
    match p {
        Phase::Uninitialized => "uninitialized"@,
        Phase::Initialized => "initialized"@,
        Phase::Selected => "selected"@,
        Phase::Specified => "specified"@,
        Phase::Planned => "planned"@,
        Phase::InProgress => "in_progress"@,
        Phase::Verifying => "verifying"@,
        Phase::Done => "done"@,
    }
}

/// The snake-case name of a phase.
pub fn format_phase(phase: &Phase) -> (r: String)
    ensures
        r@ == phase_name(*phase),
{
    let s = match phase {
        Phase::Uninitialized => "uninitialized",
        Phase::Initialized => "initialized",
        Phase::Selected => "selected",
        Phase::Specified => "specified",
        Phase::Planned => "planned",
        Phase::InProgress => "in_progress",
        Phase::Verifying => "verifying",
        Phase::Done => "done",
    };
    String::from_str(s)
}

/// The priority a title starts with (`P0`..`P3`, either case).
pub open spec fn priority_of(title: Seq<char>) -> Option<Priority> {
    if has_prefix(title, "P0"@) || has_prefix(title, "p0"@) {
        Some(Priority::P0)
    } else if has_prefix(title, "P1"@) || has_prefix(title, "p1"@) {
        Some(Priority::P1)
    } else if has_prefix(title, "P2"@) || has_prefix(title, "p2"@) {
        Some(Priority::P2)
    } else if has_prefix(title, "P3"@) || has_prefix(title, "p3"@) {
        Some(Priority::P3)
    } else {
        None
    }
}

fn prefixed(title: &Vec<char>, p: &str) -> (r: bool)
    ensures
        r == has_prefix(title@, p@),
{
    starts_with(title.as_slice(), chars_of(p).as_slice())
}

/// The priority of a roadmap title, or an error naming the title.
pub fn parse_priority(title: &str) -> (r: Result<Priority, String>)
    ensures
        match priority_of(title@) {
            Some(p) => r == Ok::<Priority, String>(p),
            None => r matches Err(e) && e@ == "cannot determine priority from title: "@ + title@,
        },
{
    let t = chars_of(title);
    if prefixed(&t, "P0") || prefixed(&t, "p0") {
        Ok(Priority::P0)
    } else if prefixed(&t, "P1") || prefixed(&t, "p1") {
        Ok(Priority::P1)
    } else if prefixed(&t, "P2") || prefixed(&t, "p2") {
        Ok(Priority::P2)
    } else if prefixed(&t, "P3") || prefixed(&t, "p3") {
        Ok(Priority::P3)
    } else {
        let mut e = String::from_str("cannot determine priority from title: ");
        e.append(title);
        Err(e)
    }
}

/// The roadmap status a value names.
pub open spec fn status_of(value: Seq<char>) -> Option<RoadmapStatus> {
    if value == "proposed"@ {
        Some(RoadmapStatus::Proposed)
    } else if value == "specified"@ {
        Some(RoadmapStatus::Specified)
    } else if value == "planned"@ {
        Some(RoadmapStatus::Planned)
    } else if value == "in_progress"@ {
        Some(RoadmapStatus::InProgress)
    } else if value == "done"@ {
        Some(RoadmapStatus::Done)
    } else if value == "deferred"@ {
        Some(RoadmapStatus::Deferred)
    } else {
        None
    }
}

fn status_value(value: &str) -> (r: Option<RoadmapStatus>)
    ensures
        r == status_of(value@),
{
    if str_eq(value, "proposed") {
        Some(RoadmapStatus::Proposed)
    } else if str_eq(value, "specified") {
        Some(RoadmapStatus::Specified)
    } else if str_eq(value, "planned") {
        Some(RoadmapStatus::Planned)
    } else if str_eq(value, "in_progress") {
        Some(RoadmapStatus::InProgress)
    } else if str_eq(value, "done") {
        Some(RoadmapStatus::Done)
    } else if str_eq(value, "deferred") {
        Some(RoadmapStatus::Deferred)
    } else {
        None
    }
}

/// The roadmap status a value names, or an error naming the item.
pub fn parse_status(title: &str, value: &str) -> (r: Result<RoadmapStatus, String>)
    ensures
        match status_of(value@) {
            Some(s) => r == Ok::<RoadmapStatus, String>(s),
            None => r matches Err(e) && e@ == "invalid roadmap status for "@ + title@ + ": "@ + value@,
        },
{
    match status_value(value) {
        Some(s) => Ok(s),
        None => {
            let mut e = String::from_str("invalid roadmap status for ");
            e.append(title);
            e.append(": ");
            e.append(value);
            Err(e)
        },
    }
}

/// A status value accepted for updating the roadmap, as given.
pub fn parse_status_for_update(value: &str) -> (r: Result<String, String>)
    ensures
        status_of(value@) is Some ==> (r matches Ok(s) && s@ == value@),
        status_of(value@) is None ==> (r matches Err(e) && e@ == "invalid roadmap status: "@ + value@),
{
    match status_value(value) {
        Some(_) => Ok(String::from_str(value)),
        None => {
            let mut e = String::from_str("invalid roadmap status: ");
            e.append(value);
            Err(e)
        },
    }
}

/// The text between the first two backticks of a line, if there are two.
pub open spec fn backticked_spec(line: Seq<char>) -> Option<Seq<char>> {
    if exists|i: int| 0 <= i < line.len() && line[i] == '`' {
        let a = choose|i: int| 0 <= i < line.len() && line[i] == '`' && forall|j: int| 0 <= j < i ==> line[j] != '`';
        let rest = line.skip(a + 1);
        if exists|i: int| 0 <= i < rest.len() && rest[i] == '`' {
            let b = choose|i: int| 0 <= i < rest.len() && rest[i] == '`' && forall|j: int| 0 <= j < i ==> rest[j] != '`';
            Some(rest.take(b))
        } else {
            None
        }
    } else {
        None
    }
}

fn first_backtick(v: &Vec<char>, from: usize) -> (r: Option<usize>)
    requires
        from <= v@.len(),
    ensures
        match r {
            Some(i) => from <= i < v@.len() && v@[i as int] == '`' && forall|j: int| from <= j < i ==> v@[j] != '`',
            None => forall|j: int| from <= j < v@.len() ==> v@[j] != '`',
        },
{
    let mut i = from;
    while i < v.len()
        invariant
            from <= i <= v@.len(),
            forall|j: int| from <= j < i ==> v@[j] != '`',
        decreases v@.len() - i,
    {
        if v[i] == '`' {
            return Some(i);
        }
        i += 1;
    }
    None
}

/// The text between the first two backticks of a line, if there are two.
pub fn backticked_path(line: &str) -> (r: Option<String>)
    ensures
        opt_string_view(r) == backticked_spec(line@),
{
    let v = chars_of(line);
    let _len = v.len();
    match first_backtick(&v, 0) {
        None => None,
        Some(a) => {
            let ghost l = line@;
            proof {
                assert(exists|i: int| 0 <= i < l.len() && l[i] == '`');
                let c = choose|i: int| 0 <= i < l.len() && l[i] == '`' && forall|j: int| 0 <= j < i ==> l[j] != '`';
                if c < a {
                } else if c > a {
                }
                assert(c == a);
            }
            match first_backtick(&v, a + 1) {
                None => {
                    proof {
                        let rest = l.skip(a + 1);
                        assert forall|i: int| 0 <= i < rest.len() implies rest[i] != '`' by {
                            assert(rest[i] == l[a + 1 + i]);
                        }
                    }
                    None
                },
                Some(b) => {
                    let ghost rest = l.skip(a + 1);
                    proof {
                        assert(rest[b - a - 1] == '`');
                        let c = choose|i: int| 0 <= i < rest.len() && rest[i] == '`' && forall|j: int| 0 <= j < i ==> rest[j] != '`';
                        if c < b - a - 1 {
                            assert(l[a + 1 + c] == '`');
                        } else if c > b - a - 1 {
                            assert(rest[b - a - 1] == l[b as int]);
                        }
                        assert(c == b - a - 1);
                        assert(v@.subrange(a + 1, b as int) =~= rest.take(c));
                    }
                    Some(string_of(crate::text::slice_chars(v.as_slice(), a + 1, b).as_slice()))
                },
            }
        },
    }
}

/// A command with its whitespace runs collapsed to single spaces and its
/// ends trimmed.
pub open spec fn normalized(command: Seq<char>) -> Seq<char> {
    join_with(words_of(command), " "@)
}

/// Collapses the whitespace of a command.
pub fn normalize_command(command: &str) -> (r: String)
    ensures
        r@ == normalized(command@),
{
    let v = chars_of(command);
    let w = words(v.as_slice());
    let j = join(&w, chars_of(" ").as_slice());
    string_of(j.as_slice())
}

/// The first index at which `p` occurs in `s` (meaningful when it does).
pub open spec fn first_index(s: Seq<char>, p: Seq<char>) -> int {
    choose|i: int| first_occurrence(s, p, i)
}

proof fn lemma_first_index(s: Seq<char>, p: Seq<char>, i: int)
    requires
        first_occurrence(s, p, i),
    ensures
        first_index(s, p) == i,
{
    let j = first_index(s, p);
    assert(first_occurrence(s, p, j));
    if j < i {
        assert(!occurs_at(s, p, j));
    } else if j > i {
        assert(!occurs_at(s, p, i));
    }
}

/// The index of `p` in `s`, or `s`'s length when it does not occur.
pub open spec fn index_or_len(s: Seq<char>, p: Seq<char>) -> int {
    if contains_seq(s, p) {
        first_index(s, p)
    } else {
        s.len() as int
    }
}

fn find_or_len(v: &[char], p: &[char]) -> (r: usize)
    ensures
        r == index_or_len(v@, p@),
        r <= v@.len(),
        contains_seq(v@, p@) ==> occurs_at(v@, p@, r as int),
{
    match find(v, p) {
        Some(i) => {
            proof {
                lemma_first_index(v@, p@, i as int);
                assert(occurs_at(v@, p@, i as int));
            }
            i
        },
        None => v.len(),
    }
}

/// The heading line of a section.
pub open spec fn section_marker(heading: Seq<char>) -> Seq<char> {
    "## "@ + heading
}

/// What follows the first heading of a section, if there is one.
pub open spec fn after_heading(md: Seq<char>, heading: Seq<char>) -> Seq<char> {
    md.skip(first_index(md, section_marker(heading)) + section_marker(heading).len())
}

/// `s` without one leading newline.
pub open spec fn drop_newline(s: Seq<char>) -> Seq<char> {
    if s.len() > 0 && s[0] == '\n' {
        s.skip(1)
    } else {
        s
    }
}

/// The trimmed body of a section: from after its heading line to the next
/// `## ` heading or the end; `None` when there is no such heading.
pub open spec fn section_body_spec(md: Seq<char>, heading: Seq<char>) -> Option<Seq<char>> {
    if !contains_seq(md, section_marker(heading)) {
        None
    } else {
        let a = drop_newline(after_heading(md, heading));
        Some(trim(a.take(index_or_len(a, "\n## "@))))
    }
}

fn marker_of(heading: &str) -> (r: Vec<char>)
    ensures
        r@ == section_marker(heading@),
{
    let mut m = chars_of("## ");
    let mut h = chars_of(heading);
    m.append(&mut h);
    m
}

/// The trimmed body of a section, if the section is there.
pub fn section_body(markdown: &str, heading: &str) -> (r: Option<String>)
    ensures
        opt_string_view(r) == section_body_spec(markdown@, heading@),
{
    let md = chars_of(markdown);
    let _n = md.len();
    let m = marker_of(heading);
    match find(md.as_slice(), m.as_slice()) {
        None => None,
        Some(start) => {
            proof {
                lemma_first_index(md@, m@, start as int);
                assert(occurs_at(md@, m@, start as int));
            }
            let after = slice_chars(md.as_slice(), start + m.len(), md.len());
            let a = if after.len() > 0 && after[0] == '\n' {
                slice_chars(after.as_slice(), 1, after.len())
            } else {
                after
            };
            proof {
                assert(md@.subrange(start + m@.len(), md@.len() as int) =~= md@.skip(start + m@.len()));
                if after@.len() > 0 && after@[0] == '\n' {
                    assert(after@.subrange(1, after@.len() as int) =~= after@.skip(1));
                }
            }
            let end = find_or_len(a.as_slice(), chars_of("\n## ").as_slice());
            let body = slice_chars(a.as_slice(), 0, end);
            proof {
                assert(body@ =~= a@.take(end as int));
            }
            Some(string_of(trim_chars(body.as_slice()).as_slice()))
        },
    }
}

/// The number of newlines `s` starts with.
pub open spec fn leading_newlines(s: Seq<char>) -> nat
    decreases s.len(),
{
    if s.len() > 0 && s[0] == '\n' {
        1 + leading_newlines(s.skip(1))
    } else {
        0
    }
}

proof fn lemma_leading_newlines_le(s: Seq<char>)
    ensures
        leading_newlines(s) <= s.len(),
    decreases s.len(),
{
    if s.len() > 0 && s[0] == '\n' {
        lemma_leading_newlines_le(s.skip(1));
    }
}

/// The text with a section's body replaced by `value`: the body starts after
/// the heading line and the blank lines after it, and runs to the next `##`
/// heading or the end.
pub open spec fn set_section_spec(md: Seq<char>, heading: Seq<char>, value: Seq<char>) -> Seq<char> {
    let start = first_index(md, section_marker(heading)) + section_marker(heading).len();
    let body_start = start + leading_newlines(md.skip(start));
    let rest = md.skip(body_start);
    md.take(body_start) + value + rest.skip(index_or_len(rest, "\n## "@))
}

/// Replaces a section's body, or fails when the section is not there.
pub fn set_section_body(markdown: &str, heading: &str, value: &str) -> (r: Result<String, String>)
    ensures
        match r {
            Ok(s) => contains_seq(markdown@, section_marker(heading@)) && s@ == set_section_spec(
                markdown@,
                heading@,
                value@,
            ),
            Err(e) => !contains_seq(markdown@, section_marker(heading@)) && e@ == "unknown handoff section: "@
                + heading@,
        },
{
    let md = chars_of(markdown);
    let _n = md.len();
    let m = marker_of(heading);
    match find(md.as_slice(), m.as_slice()) {
        None => {
            let mut e = String::from_str("unknown handoff section: ");
            e.append(heading);
            Err(e)
        },
        Some(start0) => {
            proof {
                lemma_first_index(md@, m@, start0 as int);
                assert(occurs_at(md@, m@, start0 as int));
            }
            let start = start0 + m.len();
            let mut body_start = start;
            proof {
                assert(md@.skip(start as int) =~= md@.skip(body_start as int));
            }
            while body_start < md.len() && md[body_start] == '\n'
                invariant
                    start <= body_start <= md@.len(),
                    leading_newlines(md@.skip(start as int)) == (body_start - start) + leading_newlines(
                        md@.skip(body_start as int),
                    ),
                decreases md@.len() - body_start,
            {
                proof {
                    assert(md@.skip(body_start as int).skip(1) =~= md@.skip(body_start + 1));
                }
                body_start += 1;
            }
            proof {
                if body_start < md@.len() {
                    assert(md@.skip(body_start as int)[0] == md@[body_start as int]);
                }
            }
            let rest = slice_chars(md.as_slice(), body_start, md.len());
            proof {
                assert(rest@ =~= md@.skip(body_start as int));
            }
            let body_end = find_or_len(rest.as_slice(), chars_of("\n## ").as_slice());
            let mut out = slice_chars(md.as_slice(), 0, body_start);
            let mut val = chars_of(value);
            out.append(&mut val);
            let mut tail = slice_chars(rest.as_slice(), body_end, rest.len());
            out.append(&mut tail);
            proof {
                assert(md@.subrange(0, body_start as int) =~= md@.take(body_start as int));
                assert(rest@.subrange(body_end as int, rest@.len() as int) =~= rest@.skip(body_end as int));
            }
            Ok(string_of(out.as_slice()))
        },
    }
}

/// The contents that stand for an unfilled section.
pub open spec fn is_placeholder_spec(content: Seq<char>) -> bool {
    let t = trim(content);
    t == "Not recorded yet."@ || t == "Not run yet."@ || t == "None."@ || t == "Record the next concrete action."@
}

/// Whether a section's contents are still a placeholder.
pub fn is_placeholder(content: &str) -> (r: bool)
    ensures
        r == is_placeholder_spec(content@),
{
    let t = string_of(trim_chars(chars_of(content).as_slice()).as_slice());
    str_eq(t.as_str(), "Not recorded yet.") || str_eq(t.as_str(), "Not run yet.") || str_eq(t.as_str(), "None.")
        || str_eq(t.as_str(), "Record the next concrete action.")
}

/// Appending to a section is possible without splitting a character: the
/// section's heading is followed by an ASCII character, and by a newline or
/// a later `## ` heading.
pub open spec fn appendable(md: Seq<char>, heading: Seq<char>) -> bool {
    let after = after_heading(md, heading);
    contains_seq(md, section_marker(heading)) ==> after.len() > 0 && (after[0] as u32) < 128 && (after[0] == '\n'
        || contains_seq(after, "\n## "@))
}

/// The text with `line` added to a section: after its existing contents, or
/// in place of a placeholder (or nothing).
pub open spec fn append_section_spec(md: Seq<char>, heading: Seq<char>, line: Seq<char>) -> Seq<char> {
    let start = first_index(md, section_marker(heading)) + section_marker(heading).len();
    let a = drop_newline(md.skip(start));
    let end = index_or_len(a, "\n## "@);
    let body = a.take(end);
    let before = md.take(start + 1);
    let after = md.skip(start + 1 + end);
    if trim(body).len() > 0 && !is_placeholder_spec(trim(body)) {
        before + body + "\n"@ + line + after
    } else {
        before + line + after
    }
}

/// Adds a line to a section, or fails when the section is not there.
pub fn append_to_section(markdown: &str, heading: &str, line: &str) -> (r: Result<String, String>)
    requires
        appendable(markdown@, heading@),
    ensures
        match r {
            Ok(s) => contains_seq(markdown@, section_marker(heading@)) && s@ == append_section_spec(
                markdown@,
                heading@,
                line@,
            ),
            Err(e) => !contains_seq(markdown@, section_marker(heading@)) && e@ == "handoff section not found: "@
                + heading@,
        },
{
    let md = chars_of(markdown);
    let _n = md.len();
    let m = marker_of(heading);
    match find(md.as_slice(), m.as_slice()) {
        None => {
            let mut e = String::from_str("handoff section not found: ");
            e.append(heading);
            Err(e)
        },
        Some(start0) => {
            proof {
                lemma_first_index(md@, m@, start0 as int);
                assert(occurs_at(md@, m@, start0 as int));
            }
            let start = start0 + m.len();
            let after = slice_chars(md.as_slice(), start, md.len());
            proof {
                assert(after@ =~= md@.skip(start as int));
            }
            let a = if after.len() > 0 && after[0] == '\n' {
                slice_chars(after.as_slice(), 1, after.len())
            } else {
                after
            };
            proof {
                if md@.skip(start as int).len() > 0 && md@.skip(start as int)[0] == '\n' {
                    assert(a@ =~= md@.skip(start as int).skip(1));
                }
            }
            let end = find_or_len(a.as_slice(), chars_of("\n## ").as_slice());
            let body = slice_chars(a.as_slice(), 0, end);
            proof {
                assert(body@ =~= a@.take(end as int));
                let aft = md@.skip(start as int);
                assert(aft == after_heading(md@, heading@));
                if aft[0] != '\n' {
                    assert(a@ == aft);
                    reveal_strlit("\n## ");
                    assert(occurs_at(a@, "\n## "@, end as int));
                }
            }
            let trimmed = trim_chars(body.as_slice());
            let body_s = string_of(body.as_slice());
            let keep = trimmed.len() > 0 && !is_placeholder(string_of(trimmed.as_slice()).as_str());
            proof {
                assert(trim(trim(body@)) == trim(body@)) by {
                    crate::text::lemma_trim_idempotent(body@);
                }
            }
            let mut out = slice_chars(md.as_slice(), 0, start + 1);
            let ghost before = out@;
            if keep {
                let mut b = chars_of(body_s.as_str());
                out.append(&mut b);
                out.push('\n');
            }
            let ghost mid = out@;
            let mut l = chars_of(line);
            out.append(&mut l);
            let mut tail = slice_chars(md.as_slice(), start + 1 + end, md.len());
            let ghost tl = tail@;
            out.append(&mut tail);
            proof {
                reveal_strlit("\n");
                assert(before =~= md@.take(start + 1));
                assert(tl =~= md@.skip(start + 1 + end));
                assert(drop_newline(md@.skip(start as int)) == a@);
                if keep {
                    assert(mid =~= before + body@ + "\n"@);
                    assert(out@ =~= before + body@ + "\n"@ + line@ + tl);
                } else {
                    assert(out@ =~= before + line@ + tl);
                }
            }
            Ok(string_of(out.as_slice()))
        },
    }
}

/// The sections a handoff must fill in.
pub open spec fn handoff_section(k: int) -> Seq<char> {
    if k == 0 {
        "Current Epic"@
    } else if k == 1 {
        "Phase"@
    } else if k == 2 {
        "Exception Reason"@
    } else if k == 3 {
        "Completed"@
    } else if k == 4 {
        "Verification"@
    } else if k == 5 {
        "Modified Files"@
    } else if k == 6 {
        "Unresolved Risks"@
    } else {
        "Next Step"@
    }
}

fn handoff_section_at(k: usize) -> (r: &'static str)
    requires
        k < 8,
    ensures
        r@ == handoff_section(k as int),
{
    if k == 0 {
        "Current Epic"
    } else if k == 1 {
        "Phase"
    } else if k == 2 {
        "Exception Reason"
    } else if k == 3 {
        "Completed"
    } else if k == 4 {
        "Verification"
    } else if k == 5 {
        "Modified Files"
    } else if k == 6 {
        "Unresolved Risks"
    } else {
        "Next Step"
    }
}

/// A handoff section is missing, empty or still a placeholder.
pub open spec fn section_unfilled(md: Seq<char>, name: Seq<char>) -> bool {
    let b = match section_body_spec(md, name) {
        Some(b) => b,
        None => Seq::empty(),
    };
    trim(b).len() == 0 || is_placeholder_spec(trim(b))
}

/// The error of an incomplete handoff.
pub const HANDOFF_INCOMPLETE: &'static str = "AGENT_HANDOFF_INCOMPLETE: handoff section remains empty";

fn empty_report() -> (r: CheckReport)
    ensures
        r.errors@.len() == 0,
        r.warnings@.len() == 0,
{
    CheckReport { errors: Vec::new(), warnings: Vec::new() }
}

/// Checks that every required handoff section is filled in: one error when
/// any is not.
pub fn validate_handoff_structure(markdown: &str) -> (r: CheckReport)
    ensures
        r.warnings@.len() == 0,
        (exists|k: int| 0 <= k < 8 && section_unfilled(markdown@, #[trigger] handoff_section(k))) ==> str_views_of(
            r.errors@,
        ) == seq![HANDOFF_INCOMPLETE@],
        !(exists|k: int| 0 <= k < 8 && section_unfilled(markdown@, #[trigger] handoff_section(k)))
            ==> r.errors@.len() == 0,
{
    let mut report = empty_report();
    let mut k: usize = 0;
    while k < 8
        invariant
            k <= 8,
            report.errors@.len() == 0,
            report.warnings@.len() == 0,
            forall|j: int| 0 <= j < k ==> !section_unfilled(markdown@, #[trigger] handoff_section(j)),
        decreases 8 - k,
    {
        let name = handoff_section_at(k);
        let body = match section_body(markdown, name) {
            Some(b) => b,
            None => String::new(),
        };
        let t = trim_chars(chars_of(body.as_str()).as_slice());
        if t.len() == 0 || is_placeholder(string_of(t.as_slice()).as_str()) {
            report.errors.push(String::from_str(HANDOFF_INCOMPLETE));
            proof {
                assert(section_unfilled(markdown@, handoff_section(k as int)));
                assert(str_views_of(report.errors@) =~= seq![HANDOFF_INCOMPLETE@]);
            }
            return report;
        }
        k += 1;
    }
    report
}

/// The views of a vector of strings.
pub open spec fn str_views_of(v: Seq<String>) -> Seq<Seq<char>> {
    crate::text::str_views(v)
}

/// The sections a spec must have.
pub open spec fn spec_heading(k: int) -> Seq<char> {
    if k == 0 {
        "## Goal"@
    } else if k == 1 {
        "## Scope"@
    } else if k == 2 {
        "## Non-Goals"@
    } else if k == 3 {
        "## Design"@
    } else if k == 4 {
        "## Error Handling"@
    } else if k == 5 {
        "## Verification Strategy"@
    } else {
        "## Regression Coverage Expectations"@
    }
}

fn spec_heading_at(k: usize) -> (r: &'static str)
    requires
        k < 7,
    ensures
        r@ == spec_heading(k as int),
{
    if k == 0 {
        "## Goal"
    } else if k == 1 {
        "## Scope"
    } else if k == 2 {
        "## Non-Goals"
    } else if k == 3 {
        "## Design"
    } else if k == 4 {
        "## Error Handling"
    } else if k == 5 {
        "## Verification Strategy"
    } else {
        "## Regression Coverage Expectations"
    }
}

/// The errors for the first `n` spec headings missing from the lowercased
/// text (headings compared in lowercase).
pub open spec fn missing_spec_sections(lower: Seq<char>, n: int) -> Seq<Seq<char>>
    decreases n,
{
    if n <= 0 {
        Seq::empty()
    } else {
        missing_spec_sections(lower, n - 1) + (if !contains_seq(lower, ascii_lower_seq(spec_heading(n - 1))) {
            seq!["AGENT_MISSING_SPEC_SECTION: missing required section "@ + spec_heading(n - 1)]
        } else {
            Seq::empty()
        })
    }
}

/// Checks that a spec has every required section (in any letter case).
pub fn validate_spec_structure(markdown: &str) -> (r: CheckReport)
    ensures
        r.warnings@.len() == 0,
        str_views_of(r.errors@) == missing_spec_sections(lowercase(markdown@), 7),
{
    let mut report = empty_report();
    let lower = to_lowercase(markdown);
    let lc = chars_of(lower.as_str());
    let mut k: usize = 0;
    while k < 7
        invariant
            k <= 7,
            lc@ == lowercase(markdown@),
            report.warnings@.len() == 0,
            str_views_of(report.errors@) == missing_spec_sections(lc@, k as int),
        decreases 7 - k,
    {
        let heading = spec_heading_at(k);
        let lh = to_ascii_lowercase(chars_of(heading).as_slice());
        let ghost before = report.errors@;
        if !contains(lc.as_slice(), lh.as_slice()) {
            let mut e = String::from_str("AGENT_MISSING_SPEC_SECTION: missing required section ");
            e.append(heading);
            report.errors.push(e);
            proof {
                assert(str_views_of(report.errors@) =~= str_views_of(before).push(e@));
            }
        }
        proof {
            assert(str_views_of(report.errors@) =~= missing_spec_sections(lc@, k + 1));
        }
        k += 1;
    }
    report
}

/// A task heading line.
pub open spec fn is_task_line(l: Seq<char>) -> bool {
    has_prefix(trim(l), "## Task"@) || has_prefix(trim(l), "### Task"@)
}

/// A checkbox line.
pub open spec fn is_checkbox_line(l: Seq<char>) -> bool {
    has_prefix(trim(l), "- [ ]"@) || has_prefix(trim(l), "- [x]"@)
}

/// A line that looks like it names a file path in backticks.
pub open spec fn is_path_line(l: Seq<char>) -> bool {
    l.contains('`') && l.contains('/') && l.contains('.')
}

/// A line that looks like a verification command.
pub open spec fn is_command_line(l: Seq<char>) -> bool {
    (has_prefix(trim(l), "- `"@) && contains_seq(l, "cargo"@)) || contains_seq(l, "make "@)
}

/// The plan text has a lowercase `## <name>` heading.
pub open spec fn has_plan_heading(md: Seq<char>, name: Seq<char>) -> bool {
    contains_seq(lowercase(md), "## "@ + name)
}

/// A message when a condition fails.
pub open spec fn unless(ok: bool, msg: Seq<char>) -> Seq<Seq<char>> {
    if ok {
        Seq::empty()
    } else {
        seq![msg]
    }
}

/// The errors of a plan's structure: required sections, a task heading, a
/// checkbox, a `**Files:**` block, a backticked path, and, when there is a
/// verification commands section, a verification command.
pub open spec fn plan_errors(md: Seq<char>) -> Seq<Seq<char>> {
    let ls = lines_of(md);
    unless(has_plan_heading(md, "existing code map"@), "AGENT_MISSING_PLAN_SECTION: missing ## Existing Code Map"@)
        + unless(has_plan_heading(md, "verification commands"@), "AGENT_MISSING_PLAN_SECTION: missing ## Verification Commands"@)
        + unless(has_plan_heading(md, "expected outcomes"@), "AGENT_MISSING_PLAN_SECTION: missing ## Expected Outcomes"@)
        + unless(has_plan_heading(md, "test level"@), "AGENT_MISSING_PLAN_SECTION: missing ## Test Level"@)
        + unless(
        has_plan_heading(md, "regression coverage expectations"@),
        "AGENT_MISSING_PLAN_SECTION: missing ## Regression Coverage Expectations"@,
    ) + unless(
        exists|i: int| 0 <= i < ls.len() && is_task_line(#[trigger] ls[i]),
        "AGENT_MISSING_PLAN_SECTION: no task heading found"@,
    ) + unless(
        exists|i: int| 0 <= i < ls.len() && is_checkbox_line(#[trigger] ls[i]),
        "AGENT_MISSING_PLAN_SECTION: no checkbox items found"@,
    ) + unless(contains_seq(lowercase(md), "**files:**"@), "AGENT_MISSING_PLAN_SECTION: no **Files:** block found"@)
        + unless(
        exists|i: int| 0 <= i < ls.len() && is_path_line(#[trigger] ls[i]),
        "AGENT_MISSING_PLAN_SECTION: no backticked file path found"@,
    ) + unless(
        !contains_seq(md, "## Verification Commands"@) || exists|i: int|
            0 <= i < ls.len() && is_command_line(#[trigger] ls[i]),
        "AGENT_MISSING_PLAN_SECTION: no backticked verification command"@,
    )
}

/// Which of the four line checks some line of the text passes.
fn line_checks(ls: &Vec<Vec<char>>) -> (r: (bool, bool, bool, bool))
    ensures
        r.0 == exists|i: int| 0 <= i < ls@.len() && is_task_line(#[trigger] views(ls@)[i]),
        r.1 == exists|i: int| 0 <= i < ls@.len() && is_checkbox_line(#[trigger] views(ls@)[i]),
        r.2 == exists|i: int| 0 <= i < ls@.len() && is_path_line(#[trigger] views(ls@)[i]),
        r.3 == exists|i: int| 0 <= i < ls@.len() && is_command_line(#[trigger] views(ls@)[i]),
{
    let mut task = false;
    let mut check = false;
    let mut path = false;
    let mut cmd = false;
    let mut i: usize = 0;
    while i < ls.len()
        invariant
            i <= ls@.len(),
            task == exists|j: int| 0 <= j < i && is_task_line(#[trigger] views(ls@)[j]),
            check == exists|j: int| 0 <= j < i && is_checkbox_line(#[trigger] views(ls@)[j]),
            path == exists|j: int| 0 <= j < i && is_path_line(#[trigger] views(ls@)[j]),
            cmd == exists|j: int| 0 <= j < i && is_command_line(#[trigger] views(ls@)[j]),
        decreases ls@.len() - i,
    {
        let l = &ls[i];
        let t = trim_chars(l.as_slice());
        let is_task = starts_with(t.as_slice(), chars_of("## Task").as_slice()) || starts_with(
            t.as_slice(),
            chars_of("### Task").as_slice(),
        );
        let is_check = starts_with(t.as_slice(), chars_of("- [ ]").as_slice()) || starts_with(
            t.as_slice(),
            chars_of("- [x]").as_slice(),
        );
        let is_path = contains_char(l.as_slice(), '`') && contains_char(l.as_slice(), '/') && contains_char(
            l.as_slice(),
            '.',
        );
        let is_cmd = (starts_with(t.as_slice(), chars_of("- `").as_slice()) && contains(
            l.as_slice(),
            chars_of("cargo").as_slice(),
        )) || contains(l.as_slice(), chars_of("make ").as_slice());
        proof {
            assert(views(ls@)[i as int] == l@);
        }
        task = task || is_task;
        check = check || is_check;
        path = path || is_path;
        cmd = cmd || is_cmd;
        i += 1;
    }
    (task, check, path, cmd)
}

fn push_unless(errors: &mut Vec<String>, ok: bool, msg: &str)
    ensures
        str_views_of(final(errors)@) == str_views_of(old(errors)@) + unless(ok, msg@),
{
    let ghost before = errors@;
    if !ok {
        errors.push(String::from_str(msg));
        proof {
            assert(str_views_of(errors@) =~= str_views_of(before) + seq![msg@]);
        }
    } else {
        proof {
            assert(str_views_of(errors@) =~= str_views_of(before) + Seq::<Seq<char>>::empty());
        }
    }
}

fn has_heading_in(lower: &Vec<char>, name: &str) -> (r: bool)
    ensures
        r == contains_seq(lower@, "## "@ + name@),
{
    let mut p = chars_of("## ");
    let mut n = chars_of(name);
    p.append(&mut n);
    contains(lower.as_slice(), p.as_slice())
}

/// Checks the structure of a plan.
pub fn validate_plan_structure(markdown: &str) -> (r: CheckReport)
    ensures
        r.warnings@.len() == 0,
        str_views_of(r.errors@) == plan_errors(markdown@),
{
    let mut report = empty_report();
    let md = chars_of(markdown);
    let lower = chars_of(to_lowercase(markdown).as_str());
    let ls = lines(md.as_slice());
    let (task, check, path, cmd) = line_checks(&ls);
    let ghost e0 = str_views_of(report.errors@);
    push_unless(&mut report.errors, has_heading_in(&lower, "existing code map"), "AGENT_MISSING_PLAN_SECTION: missing ## Existing Code Map");
    push_unless(&mut report.errors, has_heading_in(&lower, "verification commands"), "AGENT_MISSING_PLAN_SECTION: missing ## Verification Commands");
    push_unless(&mut report.errors, has_heading_in(&lower, "expected outcomes"), "AGENT_MISSING_PLAN_SECTION: missing ## Expected Outcomes");
    push_unless(&mut report.errors, has_heading_in(&lower, "test level"), "AGENT_MISSING_PLAN_SECTION: missing ## Test Level");
    push_unless(
        &mut report.errors,
        has_heading_in(&lower, "regression coverage expectations"),
        "AGENT_MISSING_PLAN_SECTION: missing ## Regression Coverage Expectations",
    );
    push_unless(&mut report.errors, task, "AGENT_MISSING_PLAN_SECTION: no task heading found");
    push_unless(&mut report.errors, check, "AGENT_MISSING_PLAN_SECTION: no checkbox items found");
    push_unless(&mut report.errors, contains(lower.as_slice(), chars_of("**files:**").as_slice()), "AGENT_MISSING_PLAN_SECTION: no **Files:** block found");
    push_unless(&mut report.errors, path, "AGENT_MISSING_PLAN_SECTION: no backticked file path found");
    let in_vc = contains(md.as_slice(), chars_of("## Verification Commands").as_slice());
    push_unless(&mut report.errors, !in_vc || cmd, "AGENT_MISSING_PLAN_SECTION: no backticked verification command");
    proof {
        assert(views(ls@) == lines_of(markdown@));
        assert(e0 =~= Seq::<Seq<char>>::empty());
        let pe = plan_errors(markdown@);
        assert(str_views_of(report.errors@) =~= pe);
    }
    report
}

/// The commands listed under `## Verification Commands`, from line `i` on:
/// each `- \`...\`` line's backticked text, normalised, up to the next `## `
/// heading.
pub open spec fn vc_commands(ls: Seq<Seq<char>>, i: int, in_vc: bool) -> Seq<Seq<char>>
    decreases ls.len() - i,
{
    if i < 0 || i >= ls.len() {
        Seq::empty()
    } else {
        let t = trim(ls[i]);
        if t == "## Verification Commands"@ {
            vc_commands(ls, i + 1, true)
        } else if in_vc && has_prefix(t, "## "@) {
            Seq::empty()
        } else if in_vc && has_prefix(t, "- `"@) && backticked_spec(t) is Some {
            seq![normalized(backticked_spec(t)->0)] + vc_commands(ls, i + 1, in_vc)
        } else {
            vc_commands(ls, i + 1, in_vc)
        }
    }
}

/// The verification commands a plan expects to be run.
pub fn expected_verification_commands(plan: &str) -> (r: Vec<String>)
    ensures
        str_views_of(r@) == vc_commands(lines_of(plan@), 0, false),
{
    let ls = lines(chars_of(plan).as_slice());
    let ghost lv = views(ls@);
    let mut out: Vec<String> = Vec::new();
    let mut in_vc = false;
    let mut i: usize = 0;
    while i < ls.len()
        invariant
            i <= ls@.len(),
            lv == views(ls@),
            lv == lines_of(plan@),
            str_views_of(out@) + vc_commands(lv, i as int, in_vc) == vc_commands(lv, 0, false),
        decreases ls@.len() - i,
    {
        let t = trim_chars(ls[i].as_slice());
        let ts = string_of(t.as_slice());
        proof {
            assert(lv[i as int] == ls@[i as int]@);
        }
        if str_eq(ts.as_str(), "## Verification Commands") {
            in_vc = true;
        } else if in_vc && starts_with(t.as_slice(), chars_of("## ").as_slice()) {
            proof {
                assert(str_views_of(out@) + Seq::<Seq<char>>::empty() =~= str_views_of(out@));
                assert(vc_commands(lv, i as int, in_vc) == Seq::<Seq<char>>::empty());
            }
            return out;
        } else if in_vc && starts_with(t.as_slice(), chars_of("- `").as_slice()) {
            match backticked_path(ts.as_str()) {
                Some(cmd) => {
                    let ghost before = out@;
                    let n = normalize_command(cmd.as_str());
                    out.push(n);
                    proof {
                        assert(str_views_of(out@) =~= str_views_of(before).push(n@));
                        assert(str_views_of(out@) + vc_commands(lv, i + 1, in_vc) =~= str_views_of(before) + (seq![n@] + vc_commands(lv, i + 1, in_vc)));
                    }
                },
                None => {},
            }
        }
        i += 1;
    }
    proof {
        assert(str_views_of(out@) + Seq::<Seq<char>>::empty() =~= str_views_of(out@));
    }
    out
}

/// Some recorded run of `cmd` passed.
pub open spec fn passed_run(recorded: Seq<VerificationEntry>, cmd: Seq<char>) -> bool {
    exists|k: int| 0 <= k < recorded.len() && (#[trigger] recorded[k]).command@ == cmd && recorded[k].result
        == VerificationResult::Passed
}

/// A warning for each expected command, in order, without a passing run.
pub open spec fn missing_runs(expected: Seq<Seq<char>>, recorded: Seq<VerificationEntry>) -> Seq<Seq<char>>
    decreases expected.len(),
{
    if expected.len() == 0 {
        Seq::empty()
    } else {
        missing_runs(expected.drop_last(), recorded) + unless(
            passed_run(recorded, expected.last()),
            "expected verification command not recorded as passed: "@ + expected.last(),
        )
    }
}

/// Warns about each expected verification command that has no passing run.
pub fn compare_expected_verification(expected: &Vec<String>, recorded: &Vec<VerificationEntry>) -> (r: CheckReport)
    ensures
        r.errors@.len() == 0,
        str_views_of(r.warnings@) == missing_runs(str_views_of(expected@), recorded@),
{
    let mut report = empty_report();
    let mut i: usize = 0;
    while i < expected.len()
        invariant
            i <= expected@.len(),
            report.errors@.len() == 0,
            str_views_of(report.warnings@) == missing_runs(str_views_of(expected@).take(i as int), recorded@),
        decreases expected@.len() - i,
    {
        let cmd = &expected[i];
        let mut found = false;
        let mut k: usize = 0;
        while k < recorded.len()
            invariant
                k <= recorded@.len(),
                found == exists|j: int| 0 <= j < k && (#[trigger] recorded@[j]).command@ == cmd@ && recorded@[j].result
                    == VerificationResult::Passed,
            decreases recorded@.len() - k,
        {
            if str_eq(recorded[k].command.as_str(), cmd.as_str()) && matches!(recorded[k].result, VerificationResult::Passed) {
                found = true;
            }
            k += 1;
        }
        let mut msg = String::from_str("expected verification command not recorded as passed: ");
        msg.append(cmd.as_str());
        push_unless(&mut report.warnings, found, msg.as_str());
        proof {
            let e = str_views_of(expected@);
            assert(e.take(i + 1).drop_last() =~= e.take(i as int));
            assert(e.take(i + 1).last() == cmd@);
        }
        i += 1;
    }
    proof {
        assert(str_views_of(expected@).take(expected@.len() as int) =~= str_views_of(expected@));
    }
    report
}

/// The debug name of a phase.
pub open spec fn phase_debug(p: Phase) -> Seq<char> {
    match p {
        Phase::Uninitialized => "Uninitialized"@,
        Phase::Initialized => "Initialized"@,
        Phase::Selected => "Selected"@,
        Phase::Specified => "Specified"@,
        Phase::Planned => "Planned"@,
        Phase::InProgress => "InProgress"@,
        Phase::Verifying => "Verifying"@,
        Phase::Done => "Done"@,
    }
}

fn phase_debug_text(p: Phase) -> (r: &'static str)
    ensures
        r@ == phase_debug(p),
{
    match p {
        Phase::Uninitialized => "Uninitialized",
        Phase::Initialized => "Initialized",
        Phase::Selected => "Selected",
        Phase::Specified => "Specified",
        Phase::Planned => "Planned",
        Phase::InProgress => "InProgress",
        Phase::Verifying => "Verifying",
        Phase::Done => "Done",
    }
}

/// The debug name of a roadmap status.
pub open spec fn status_debug(s: RoadmapStatus) -> Seq<char> {
    match s {
        RoadmapStatus::Proposed => "Proposed"@,
        RoadmapStatus::Specified => "Specified"@,
        RoadmapStatus::Planned => "Planned"@,
        RoadmapStatus::InProgress => "InProgress"@,
        RoadmapStatus::Done => "Done"@,
        RoadmapStatus::Deferred => "Deferred"@,
    }
}

fn status_debug_text(s: RoadmapStatus) -> (r: &'static str)
    ensures
        r@ == status_debug(s),
{
    match s {
        RoadmapStatus::Proposed => "Proposed",
        RoadmapStatus::Specified => "Specified",
        RoadmapStatus::Planned => "Planned",
        RoadmapStatus::InProgress => "InProgress",
        RoadmapStatus::Done => "Done",
        RoadmapStatus::Deferred => "Deferred",
    }
}

/// The first roadmap item titled `epic`, from index `from` on.
pub open spec fn find_title(items: Seq<RoadmapItem>, epic: Seq<char>, from: int) -> Option<int>
    decreases items.len() - from,
{
    if from < 0 || from >= items.len() {
        None
    } else if items[from].title@ == epic {
        Some(from)
    } else {
        find_title(items, epic, from + 1)
    }
}

proof fn lemma_find_title(items: Seq<RoadmapItem>, epic: Seq<char>, from: int)
    requires
        0 <= from,
    ensures
        find_title(items, epic, from) matches Some(k) ==> from <= k < items.len() && items[k].title@ == epic,
    decreases items.len() - from,
{
    if from < items.len() && items[from].title@ != epic {
        lemma_find_title(items, epic, from + 1);
    }
}

/// The runtime phase has run ahead of the roadmap: implementation under way
/// before the item is in progress, or a deferred item specified or done.
pub open spec fn phase_ahead(p: Phase, s: RoadmapStatus) -> bool {
    ||| (p == Phase::InProgress || p == Phase::Verifying) && (s == RoadmapStatus::Proposed || s
        == RoadmapStatus::Specified || s == RoadmapStatus::Planned)
    ||| (p == Phase::Specified || p == Phase::Done) && s == RoadmapStatus::Deferred
}

/// A roadmap status that needs a spec.
pub open spec fn needs_spec(s: RoadmapStatus) -> bool {
    s == RoadmapStatus::Specified || s == RoadmapStatus::Planned || s == RoadmapStatus::InProgress || s
        == RoadmapStatus::Done
}

/// A roadmap status that needs a plan.
pub open spec fn needs_plan(s: RoadmapStatus) -> bool {
    s == RoadmapStatus::Planned || s == RoadmapStatus::InProgress || s == RoadmapStatus::Done
}

/// A phase of active implementation.
pub open spec fn is_active(p: Phase) -> bool {
    p == Phase::InProgress || p == Phase::Verifying
}

/// The title of the harness epic, which blocks other implementation work
/// until it is done.
pub const HARNESS_EPIC: &'static str = "P0 - Roadmap Agent Harness";

/// The harness epic is done.
pub open spec fn harness_done(items: Seq<RoadmapItem>) -> bool {
    exists|k: int| 0 <= k < items.len() && (#[trigger] items[k]).title@ == HARNESS_EPIC@ && items[k].status
        == RoadmapStatus::Done
}

pub const ERR_EPIC_UNLINKED: &'static str = "AGENT_ROADMAP_SPEC_UNLINKED: active epic not found in roadmap";
pub const ERR_SPEC_UNLINKED: &'static str = "AGENT_ROADMAP_SPEC_UNLINKED: roadmap item has no spec link";
pub const ERR_NO_SPEC_PATH: &'static str = "AGENT_MISSING_SPEC: state has no spec path recorded";
pub const ERR_NO_SPEC_FILE: &'static str = "AGENT_MISSING_SPEC: spec file does not exist";
pub const ERR_PLAN_UNLINKED: &'static str = "AGENT_ROADMAP_PLAN_UNLINKED: roadmap item has no plan link";
pub const ERR_NO_PLAN_FILE: &'static str = "AGENT_MISSING_PLAN: plan file does not exist";
pub const ERR_HANDOFF_MISSING: &'static str = "AGENT_HANDOFF_MISSING: handoff file is missing";
pub const ERR_NO_HANDOFF_RECORD: &'static str = "AGENT_HANDOFF_MISSING: no handoff record after finish";
pub const ERR_PREREQUISITE: &'static str = "AGENT_P0_PREREQUISITE: P0 - Roadmap Agent Harness blocks implementation work";

/// The errors of checking the harness state against the roadmap and the
/// documents on disk.
pub open spec fn consistency_errors(state: AgentState, items: Seq<RoadmapItem>, art: ArtifactStatus) -> Seq<Seq<char>> {
    match find_title(items, state.current_epic@, 0) {
        None => seq![ERR_EPIC_UNLINKED@],
        Some(k) => {
            let item = items[k];
            let p = state.phase;
            unless(
                !phase_ahead(p, item.status),
                "AGENT_PHASE_AHEAD: runtime phase "@ + phase_debug(p) + " is ahead of roadmap status "@ + status_debug(
                    item.status,
                ),
            ) + (if needs_spec(item.status) {
                unless(item.spec is Some, ERR_SPEC_UNLINKED@) + (if state.spec@.len() == 0 {
                    seq![ERR_NO_SPEC_PATH@]
                } else {
                    unless(art.spec_exists, ERR_NO_SPEC_FILE@)
                })
            } else {
                Seq::empty()
            }) + (if needs_plan(item.status) {
                unless(item.plan is Some, ERR_PLAN_UNLINKED@) + unless(
                    state.plan@.len() == 0 || art.plan_exists,
                    ERR_NO_PLAN_FILE@,
                )
            } else {
                Seq::empty()
            }) + unless(!is_active(p) || art.handoff_exists, ERR_HANDOFF_MISSING@) + unless(
                !(p == Phase::Done && !art.handoff_exists && state.last_handoff@.len() == 0),
                ERR_NO_HANDOFF_RECORD@,
            ) + unless(
                !(state.work_kind == WorkKind::Roadmap && is_active(p) && state.current_epic@ != HARNESS_EPIC@)
                    || harness_done(items),
                ERR_PREREQUISITE@,
            )
        },
    }
}

/// The warnings of that check: the roadmap ahead of the runtime phase.
pub open spec fn consistency_warnings(state: AgentState, items: Seq<RoadmapItem>) -> Seq<Seq<char>> {
    match find_title(items, state.current_epic@, 0) {
        None => Seq::empty(),
        Some(k) => {
            let s = items[k].status;
            let p = state.phase;
            unless(
                phase_ahead(p, s) || !(roadmap_status_rank_spec(s) > phase_rank_spec(p) && p != Phase::Done),
                "roadmap ahead: runtime phase "@ + phase_debug(p) + ", roadmap status "@ + status_debug(s),
            )
        },
    }
}

fn find_title_exec(items: &Vec<RoadmapItem>, epic: &str) -> (r: Option<usize>)
    ensures
        opt_nat_of(r) == find_title(items@, epic@, 0),
{
    let mut i: usize = 0;
    while i < items.len()
        invariant
            i <= items@.len(),
            find_title(items@, epic@, 0) == find_title(items@, epic@, i as int),
        decreases items@.len() - i,
    {
        if str_eq(items[i].title.as_str(), epic) {
            return Some(i);
        }
        i += 1;
    }
    None
}

/// An index as an integer.
pub open spec fn opt_nat_of(o: Option<usize>) -> Option<int> {
    match o {
        Some(i) => Some(i as int),
        None => None,
    }
}

fn push_text(v: &mut Vec<String>, s: String)
    ensures
        str_views_of(final(v)@) == str_views_of(old(v)@).push(s@),
{
    let ghost before = v@;
    v.push(s);
    assert(str_views_of(v@) =~= str_views_of(before).push(s@));
}

fn unless_text(ok: bool, msg: String) -> (r: Vec<String>)
    ensures
        str_views_of(r@) == unless(ok, msg@),
{
    let mut v: Vec<String> = Vec::new();
    if !ok {
        v.push(msg);
        proof {
            assert(str_views_of(v@) =~= seq![msg@]);
        }
    } else {
        proof {
            assert(str_views_of(v@) =~= Seq::<Seq<char>>::empty());
        }
    }
    v
}

fn concat_texts(v: &mut Vec<String>, w: Vec<String>)
    ensures
        str_views_of(final(v)@) == str_views_of(old(v)@) + str_views_of(w@),
{
    let ghost before = v@;
    let ghost wv = w@;
    let mut w = w;
    v.append(&mut w);
    assert(str_views_of(v@) =~= str_views_of(before) + str_views_of(wv));
}

fn spec_findings(item: &RoadmapItem, state: &AgentState, artifacts: &ArtifactStatus) -> (r: Vec<String>)
    ensures
        str_views_of(r@) == (if needs_spec(item.status) {
            unless(item.spec is Some, ERR_SPEC_UNLINKED@) + (if state.spec@.len() == 0 {
                seq![ERR_NO_SPEC_PATH@]
            } else {
                unless(artifacts.spec_exists, ERR_NO_SPEC_FILE@)
            })
        } else {
            Seq::empty()
        }),
{
    let needed = matches!(item.status, RoadmapStatus::Specified | RoadmapStatus::Planned | RoadmapStatus::InProgress | RoadmapStatus::Done);
    if !needed {
        return Vec::new();
    }
    let mut v = unless_text(item.spec.is_some(), String::from_str(ERR_SPEC_UNLINKED));
    if state.spec.as_str().is_empty() {
        concat_texts(&mut v, unless_text(false, String::from_str(ERR_NO_SPEC_PATH)));
    } else {
        concat_texts(&mut v, unless_text(artifacts.spec_exists, String::from_str(ERR_NO_SPEC_FILE)));
    }
    v
}

fn plan_findings(item: &RoadmapItem, state: &AgentState, artifacts: &ArtifactStatus) -> (r: Vec<String>)
    ensures
        str_views_of(r@) == (if needs_plan(item.status) {
            unless(item.plan is Some, ERR_PLAN_UNLINKED@) + unless(
                state.plan@.len() == 0 || artifacts.plan_exists,
                ERR_NO_PLAN_FILE@,
            )
        } else {
            Seq::empty()
        }),
{
    let needed = matches!(item.status, RoadmapStatus::Planned | RoadmapStatus::InProgress | RoadmapStatus::Done);
    if !needed {
        return Vec::new();
    }
    let mut v = unless_text(item.plan.is_some(), String::from_str(ERR_PLAN_UNLINKED));
    concat_texts(
        &mut v,
        unless_text(state.plan.as_str().is_empty() || artifacts.plan_exists, String::from_str(ERR_NO_PLAN_FILE)),
    );
    v
}

fn harness_is_done(items: &Vec<RoadmapItem>) -> (r: bool)
    ensures
        r == harness_done(items@),
{
    let mut done = false;
    let mut j: usize = 0;
    while j < items.len()
        invariant
            j <= items@.len(),
            done == exists|m: int| 0 <= m < j && (#[trigger] items@[m]).title@ == HARNESS_EPIC@ && items@[m].status
                == RoadmapStatus::Done,
        decreases items@.len() - j,
    {
        if str_eq(items[j].title.as_str(), HARNESS_EPIC) && matches!(items[j].status, RoadmapStatus::Done) {
            done = true;
        }
        j += 1;
    }
    done
}

fn phase_findings(p: Phase, st: RoadmapStatus) -> (r: (Vec<String>, Vec<String>))
    ensures
        str_views_of(r.0@) == unless(
            !phase_ahead(p, st),
            "AGENT_PHASE_AHEAD: runtime phase "@ + phase_debug(p) + " is ahead of roadmap status "@ + status_debug(st),
        ),
        str_views_of(r.1@) == unless(
            phase_ahead(p, st) || !(roadmap_status_rank_spec(st) > phase_rank_spec(p) && p != Phase::Done),
            "roadmap ahead: runtime phase "@ + phase_debug(p) + ", roadmap status "@ + status_debug(st),
        ),
{
    let ahead = match (p, st) {
        (Phase::InProgress, RoadmapStatus::Proposed)
        | (Phase::InProgress, RoadmapStatus::Specified)
        | (Phase::InProgress, RoadmapStatus::Planned)
        | (Phase::Verifying, RoadmapStatus::Proposed)
        | (Phase::Verifying, RoadmapStatus::Specified)
        | (Phase::Verifying, RoadmapStatus::Planned)
        | (Phase::Specified, RoadmapStatus::Deferred)
        | (Phase::Done, RoadmapStatus::Deferred) => true,
        _ => false,
    };
    let mut m = String::from_str("AGENT_PHASE_AHEAD: runtime phase ");
    m.append(phase_debug_text(p));
    m.append(" is ahead of roadmap status ");
    m.append(status_debug_text(st));
    let mut w = String::from_str("roadmap ahead: runtime phase ");
    w.append(phase_debug_text(p));
    w.append(", roadmap status ");
    w.append(status_debug_text(st));
    let warn = !ahead && roadmap_status_rank(st) > phase_rank(p) && !matches!(p, Phase::Done);
    (unless_text(!ahead, m), unless_text(!warn, w))
}

/// Checks the harness state against the roadmap and the documents on disk.
pub fn check_state_consistency(state: &AgentState, items: &Vec<RoadmapItem>, artifacts: &ArtifactStatus) -> (r: CheckReport)
    ensures
        str_views_of(r.errors@) == consistency_errors(*state, items@, *artifacts),
        str_views_of(r.warnings@) == consistency_warnings(*state, items@),
{
    let k = match find_title_exec(items, state.current_epic.as_str()) {
        None => {
            let mut report = empty_report();
            push_text(&mut report.errors, String::from_str(ERR_EPIC_UNLINKED));
            proof {
                assert(str_views_of(report.warnings@) =~= consistency_warnings(*state, items@));
            }
            return report;
        },
        Some(k) => k,
    };
    proof {
        lemma_find_title(items@, state.current_epic@, 0);
    }
    let item = &items[k];
    let p = state.phase;
    let (mut errors, warnings) = phase_findings(p, item.status);
    concat_texts(&mut errors, spec_findings(item, state, artifacts));
    concat_texts(&mut errors, plan_findings(item, state, artifacts));
    let active = matches!(p, Phase::InProgress | Phase::Verifying);
    concat_texts(&mut errors, unless_text(!active || artifacts.handoff_exists, String::from_str(ERR_HANDOFF_MISSING)));
    concat_texts(
        &mut errors,
        unless_text(
            !(matches!(p, Phase::Done) && !artifacts.handoff_exists && state.last_handoff.as_str().is_empty()),
            String::from_str(ERR_NO_HANDOFF_RECORD),
        ),
    );
    let blocked = matches!(state.work_kind, WorkKind::Roadmap) && active && !str_eq(state.current_epic.as_str(), HARNESS_EPIC);
    let ok = !blocked || harness_is_done(items);
    concat_texts(&mut errors, unless_text(ok, String::from_str(ERR_PREREQUISITE)));
    CheckReport { errors, warnings }
}

/// A roadmap item as values: title, priority, status, spec and plan links,
/// dependencies.
pub type ItemV = (Seq<char>, Priority, RoadmapStatus, Option<Seq<char>>, Option<Seq<char>>, Seq<Seq<char>>);

/// The value of a roadmap item.
pub open spec fn item_view(it: RoadmapItem) -> ItemV {
    (it.title@, it.priority, it.status, opt_string_view(it.spec), opt_string_view(it.plan), str_views_of(it.dependencies@))
}

/// The values of roadmap items.
pub open spec fn items_view(items: Seq<RoadmapItem>) -> Seq<ItemV> {
    Seq::new(items.len(), |k: int| item_view(items[k]))
}

/// `s` split at each `c` (`str::split` with a character).
pub open spec fn split_on(s: Seq<char>, c: char) -> Seq<Seq<char>>
    decreases s.len(),
{
    if s.len() == 0 {
        seq![Seq::empty()]
    } else {
        let rest = split_on(s.drop_last(), c);
        if s.last() == c {
            rest.push(Seq::empty())
        } else {
            rest.update(rest.len() - 1, rest.last().push(s.last()))
        }
    }
}

proof fn lemma_split_on_nonempty(s: Seq<char>, c: char)
    ensures
        split_on(s, c).len() >= 1,
    decreases s.len(),
{
    if s.len() > 0 {
        lemma_split_on_nonempty(s.drop_last(), c);
    }
}

/// The items of a comma-separated list: its pieces, trimmed, the empty ones
/// dropped.
pub open spec fn comma_items(pieces: Seq<Seq<char>>) -> Seq<Seq<char>>
    decreases pieces.len(),
{
    if pieces.len() == 0 {
        Seq::empty()
    } else {
        comma_items(pieces.drop_last()) + (if trim(pieces.last()).len() > 0 {
            seq![trim(pieces.last())]
        } else {
            Seq::empty()
        })
    }
}

/// A heading that opens a queue of roadmap items.
pub open spec fn is_queue_heading(t: Seq<char>) -> bool {
    t == "## Active Queue"@ || t == "## Next Queue"@ || t == "## Completed Foundation"@
}

/// The items so far, with the current one added when there is one.
pub open spec fn flushed(acc: Seq<ItemV>, cur: Option<ItemV>) -> Seq<ItemV> {
    match cur {
        Some(c) => acc.push(c),
        None => acc,
    }
}

/// Parsing the roadmap from line `i` on: item headings `### ` inside the
/// queue sections, with their `Status:`, `Depends on:`, `Spec:` and `Plan:`
/// lines.
pub open spec fn parse_from(ls: Seq<Seq<char>>, i: int, in_queue: bool, cur: Option<ItemV>, acc: Seq<ItemV>) -> Result<
    Seq<ItemV>,
    Seq<char>,
>
    decreases ls.len() - i,
{
    if i < 0 || i >= ls.len() {
        Ok(flushed(acc, cur))
    } else {
        let t = trim(ls[i]);
        if is_queue_heading(t) {
            parse_from(ls, i + 1, true, cur, acc)
        } else if !in_queue {
            parse_from(ls, i + 1, false, cur, acc)
        } else if has_prefix(t, "## "@) {
            parse_from(ls, i + 1, false, None, flushed(acc, cur))
        } else if has_prefix(t, "### "@) {
            let title = t.skip(4);
            match priority_of(title) {
                None => Err("cannot determine priority from title: "@ + title),
                Some(pr) => parse_from(
                    ls,
                    i + 1,
                    true,
                    Some((title, pr, RoadmapStatus::Proposed, None, None, Seq::empty())),
                    flushed(acc, cur),
                ),
            }
        } else {
            match cur {
                None => parse_from(ls, i + 1, in_queue, None, acc),
                Some(c) => if has_prefix(t, "Status: "@) {
                    let v = trim(t.skip(8));
                    match status_of(v) {
                        None => Err("invalid roadmap status for "@ + c.0 + ": "@ + v),
                        Some(st) => parse_from(ls, i + 1, in_queue, Some((c.0, c.1, st, c.3, c.4, c.5)), acc),
                    }
                } else if has_prefix(t, "Depends on: "@) {
                    parse_from(
                        ls,
                        i + 1,
                        in_queue,
                        Some((c.0, c.1, c.2, c.3, c.4, c.5 + comma_items(split_on(t.skip(12), ',')))),
                        acc,
                    )
                } else if t == "Spec:"@ && i + 1 < ls.len() && backticked_spec(trim(ls[i + 1])) is Some {
                    parse_from(
                        ls,
                        i + 2,
                        in_queue,
                        Some((c.0, c.1, c.2, backticked_spec(trim(ls[i + 1])), c.4, c.5)),
                        acc,
                    )
                } else if t == "Plan:"@ && i + 1 < ls.len() && backticked_spec(trim(ls[i + 1])) is Some {
                    parse_from(
                        ls,
                        i + 2,
                        in_queue,
                        Some((c.0, c.1, c.2, c.3, backticked_spec(trim(ls[i + 1])), c.5)),
                        acc,
                    )
                } else {
                    parse_from(ls, i + 1, in_queue, cur, acc)
                },
            }
        }
    }
}

/// The items of a roadmap document, or the first error in it.
pub open spec fn roadmap_spec(input: Seq<char>) -> Result<Seq<ItemV>, Seq<char>> {
    parse_from(lines_of(input), 0, false, None, Seq::empty())
}

/// The pieces of a text between occurrences of `c`.
pub(crate) fn split_char(v: &[char], c: char) -> (r: Vec<Vec<char>>)
    ensures
        views(r@) == split_on(v@, c),
{
    let mut r: Vec<Vec<char>> = Vec::new();
    r.push(Vec::new());
    let mut i: usize = 0;
    assert(views(r@) =~= split_on(v@.take(0), c));
    while i < v.len()
        invariant
            i <= v@.len(),
            views(r@) == split_on(v@.take(i as int), c),
            r@.len() >= 1,
        decreases v@.len() - i,
    {
        proof {
            assert(v@.take(i + 1).drop_last() =~= v@.take(i as int));
        }
        let ghost before = views(r@);
        if v[i] == c {
            r.push(Vec::new());
            proof {
                assert(views(r@) =~= before.push(Seq::empty()));
            }
        } else {
            let n = r.len();
            let mut last = r.remove(n - 1);
            last.push(v[i]);
            let ghost lv = last@;
            r.push(last);
            proof {
                assert(views(r@) =~= before.update(before.len() - 1, before.last().push(v@[i as int])));
            }
        }
        i += 1;
    }
    proof {
        assert(v@.take(v@.len() as int) =~= v@);
    }
    r
}

/// The items of a comma-separated list.
pub(crate) fn comma_list(rest: &[char]) -> (r: Vec<String>)
    ensures
        str_views_of(r@) == comma_items(split_on(rest@, ',')),
{
    let pieces = split_char(rest, ',');
    let ghost pv = views(pieces@);
    let mut out: Vec<String> = Vec::new();
    let mut k: usize = 0;
    while k < pieces.len()
        invariant
            k <= pieces@.len(),
            pv == views(pieces@),
            str_views_of(out@) == comma_items(pv.take(k as int)),
        decreases pieces@.len() - k,
    {
        proof {
            assert(pv.take(k + 1).drop_last() =~= pv.take(k as int));
            assert(pv.take(k + 1).last() == pieces@[k as int]@);
        }
        let t = trim_chars(pieces[k].as_slice());
        let ghost before = str_views_of(out@);
        if t.len() > 0 {
            out.push(string_of(t.as_slice()));
            proof {
                assert(str_views_of(out@) =~= before + seq![t@]);
            }
        } else {
            proof {
                assert(str_views_of(out@) =~= before + Seq::<Seq<char>>::empty());
            }
        }
        k += 1;
    }
    proof {
        assert(pv.take(pieces@.len() as int) =~= pv);
    }
    out
}

fn text_is(v: &Vec<char>, s: &str) -> (r: bool)
    ensures
        r == (v@ == s@),
{
    crate::text::chars_eq(v.as_slice(), chars_of(s).as_slice())
}

fn flush(items: &mut Vec<RoadmapItem>, cur: Option<RoadmapItem>)
    ensures
        items_view(final(items)@) == flushed(items_view(old(items)@), match cur {
            Some(c) => Some(item_view(c)),
            None => None,
        }),
{
    let ghost before = items@;
    match cur {
        Some(c) => {
            let ghost cv = item_view(c);
            items.push(c);
            proof {
                assert(items_view(items@) =~= items_view(before).push(cv));
            }
        },
        None => {},
    }
}

/// The view of an optional item.
pub open spec fn opt_item_view(o: Option<RoadmapItem>) -> Option<ItemV> {
    match o {
        Some(c) => Some(item_view(c)),
        None => None,
    }
}

/// Parses the roadmap document.
#[verifier::rlimit(60)]
pub fn parse_roadmap(input: &str) -> (r: Result<Vec<RoadmapItem>, String>)
    ensures
        match r {
            Ok(items) => roadmap_spec(input@) == Ok::<Seq<ItemV>, Seq<char>>(items_view(items@)),
            Err(e) => roadmap_spec(input@) == Err::<Seq<ItemV>, Seq<char>>(e@),
        },
{
    let ls = lines(chars_of(input).as_slice());
    let ghost lv = views(ls@);
    let mut items: Vec<RoadmapItem> = Vec::new();
    let mut current: Option<RoadmapItem> = None;
    let mut in_queue = false;
    let mut i: usize = 0;
    proof {
        assert(items_view(items@) =~= Seq::<ItemV>::empty());
        reveal_strlit("### ");
        reveal_strlit("## ");
        reveal_strlit("Status: ");
        reveal_strlit("Depends on: ");
    }
    while i < ls.len()
        invariant
            i <= ls@.len(),
            "### "@.len() == 4,
            "Status: "@.len() == 8,
            "Depends on: "@.len() == 12,
            lv == views(ls@),
            lv == lines_of(input@),
            roadmap_spec(input@) == parse_from(lv, i as int, in_queue, opt_item_view(current), items_view(items@)),
        decreases ls@.len() - i,
    {
        let t = trim_chars(ls[i].as_slice());
        proof {
            assert(lv[i as int] == ls@[i as int]@);
        }
        if text_is(&t, "## Active Queue") || text_is(&t, "## Next Queue") || text_is(&t, "## Completed Foundation") {
            in_queue = true;
            i += 1;
            continue;
        }
        if !in_queue {
            i += 1;
            continue;
        }
        if starts_with(t.as_slice(), chars_of("## ").as_slice()) {
            let mut taken: Option<RoadmapItem> = None;
            core::mem::swap(&mut taken, &mut current);
            flush(&mut items, taken);
            in_queue = false;
            i += 1;
            continue;
        }
        if starts_with(t.as_slice(), chars_of("### ").as_slice()) {
            let mut taken: Option<RoadmapItem> = None;
            core::mem::swap(&mut taken, &mut current);
            flush(&mut items, taken);
            let title = string_of(slice_chars(t.as_slice(), 4, t.len()).as_slice());
            proof {
                assert(t@.subrange(4, t@.len() as int) =~= t@.skip(4));
            }
            match parse_priority(title.as_str()) {
                Err(e) => {
                    return Err(e);
                },
                Ok(pr) => {
                    current = Some(
                        RoadmapItem {
                            title,
                            priority: pr,
                            status: RoadmapStatus::Proposed,
                            spec: None,
                            plan: None,
                            dependencies: Vec::new(),
                        },
                    );
                    proof {
                        assert(str_views_of(Seq::<String>::empty()) =~= Seq::<Seq<char>>::empty());
                    }
                },
            }
            i += 1;
            continue;
        }
        let mut taken: Option<RoadmapItem> = None;
        core::mem::swap(&mut taken, &mut current);
        match taken {
            None => {
                i += 1;
            },
            Some(mut item) => {
                if starts_with(t.as_slice(), chars_of("Status: ").as_slice()) {
                    let v = trim_chars(slice_chars(t.as_slice(), 8, t.len()).as_slice());
                    proof {
                        assert(t@.subrange(8, t@.len() as int) =~= t@.skip(8));
                    }
                    let vs = string_of(v.as_slice());
                    match parse_status(item.title.as_str(), vs.as_str()) {
                        Err(e) => {
                            return Err(e);
                        },
                        Ok(st) => {
                            item.status = st;
                        },
                    }
                    i += 1;
                } else if starts_with(t.as_slice(), chars_of("Depends on: ").as_slice()) {
                    let rest = slice_chars(t.as_slice(), 12, t.len());
                    proof {
                        assert(rest@ =~= t@.skip(12));
                    }
                    let mut deps = comma_list(rest.as_slice());
                    let ghost d0 = str_views_of(item.dependencies@);
                    let ghost dn = str_views_of(deps@);
                    item.dependencies.append(&mut deps);
                    proof {
                        assert(str_views_of(item.dependencies@) =~= d0 + dn);
                    }
                    i += 1;
                } else if (text_is(&t, "Spec:") || text_is(&t, "Plan:")) && i + 1 < ls.len() {
                    let is_spec = text_is(&t, "Spec:");
                    let next = trim_chars(ls[i + 1].as_slice());
                    proof {
                        assert(lv[i + 1] == ls@[i + 1]@);
                    }
                    match backticked_path(string_of(next.as_slice()).as_str()) {
                        Some(path) => {
                            if is_spec {
                                item.spec = Some(path);
                            } else {
                                item.plan = Some(path);
                            }
                            i += 2;
                        },
                        None => {
                            i += 1;
                        },
                    }
                } else {
                    i += 1;
                }
                current = Some(item);
            },
        }
    }
    flush(&mut items, current);
    Ok(items)
}

} // verus!

use dotman::demo::{DemoState, ReviewEntry, Seed, SeedItem};
use dotman::screen::{plan_screen_lines, run_screen_lines, DrawLine, Tone};

fn item(name: &str, layer: &str, selected: bool) -> SeedItem {
    SeedItem { name: name.to_string(), layer: layer.to_string(), action_count: 1, selected }
}

fn entry(item_index: usize, kind: &str, detail: &str) -> ReviewEntry {
    ReviewEntry {
        item_index,
        order: 0,
        kind: kind.to_string(),
        kind_icon: "I".to_string(),
        severity: "run".to_string(),
        status: String::new(),
        detail: detail.to_string(),
    }
}

fn run_state(step: u32) -> DemoState {
    let mut s = DemoState::default();
    s.width = 40;
    s.height = 20;
    s.run_step = step;
    s.seed = Seed {
        items: vec![item("git", "software", true), item("tmux", "multiplexer", false)],
        review_entries: vec![entry(0, "install", "install git"), entry(1, "link", "link tmux.conf")],
    };
    s
}

fn texts(line: &DrawLine) -> Vec<String> {
    line.spans.iter().map(|s| s.text.clone()).collect()
}

#[test]
fn run_screen_draws_header_current_rows_log_and_hints() {
    let s = run_state(3);
    let lines = run_screen_lines(&s, false);
    assert_eq!(lines.len(), 14);

    let header = &lines[0];
    assert_eq!((header.x, header.y, header.limit), (1, 1, Some(38)));
    let right = format!("Running  0/1  {}", "░".repeat(10));
    assert_eq!(texts(header), vec!["\u{F04B}  Run  ".to_string(), "─".repeat(6), right]);
    assert_eq!(header.spans[2].tone, Tone::Accent);
    assert!(header.spans[2].bold);

    let current = &lines[1];
    assert_eq!(current.y, 2);
    assert_eq!(texts(current), vec![format!("  current  git / install git{}", " ".repeat(10))]);
    assert_eq!(current.spans[0].tone, Tone::Muted);

    let row = &lines[2];
    assert_eq!(row.y, 3);
    assert_eq!(
        texts(row),
        vec!["\u{2838} I git / install git".to_string(), " ".repeat(10), "running".to_string()]
    );
    assert_eq!(row.spans[0].tone, Tone::Accent);

    let title = &lines[3];
    assert_eq!(title.y, 9);
    assert_eq!(texts(title), vec![format!("┌ log: follow · all {}┐", "─".repeat(17))]);
    assert_eq!(title.spans[0].tone, Tone::Divider);

    assert_eq!(texts(&lines[4]), vec![format!("│deploy started{}│", " ".repeat(22))]);
    assert_eq!(lines[7].y, 13);
    assert_eq!(texts(&lines[8]), vec![format!("│{}│", " ".repeat(36))]);
    assert_eq!(lines[11].y, 17);

    let bottom = &lines[12];
    assert_eq!(bottom.y, 18);
    assert_eq!(texts(bottom), vec![format!("└{}┘", "─".repeat(36))]);

    let help = &lines[13];
    assert_eq!((help.y, help.limit), (19, Some(38)));
    assert_eq!(
        texts(help),
        vec!["[↑↓]", " Scroll  ", "[Tab]", " Filter  ", "[Enter]", " Fold  ", "[q]", " Abort"]
    );
    assert_eq!(help.spans[0].tone, Tone::Muted);
    assert_eq!(help.spans[1].tone, Tone::FgDim);
}

#[test]
fn run_screen_finished_counts_outcomes_and_closes_the_log() {
    let mut s = run_state(6);
    s.seed.items[1].selected = true;
    s.seed.review_entries[1].kind = "shell".to_string();
    let lines = run_screen_lines(&s, true);
    let right = format!("Success  2/2  {}", "█".repeat(10));
    assert_eq!(texts(&lines[0])[2], right);
    assert_eq!(lines[0].spans[2].tone, Tone::Success);
    let full = "  current  1 ran, 1 changed, 0 no change, 0 failed";
    assert_eq!(texts(&lines[1])[0], format!("{}...", &full[..35]));
    assert_eq!(texts(&lines[2])[2], "changed");
    assert_eq!(lines[2].spans[0].tone, Tone::Success);
    assert_eq!(texts(&lines[3])[2], "ran");
    let closing = lines.iter().find(|l| texts(l)[0].contains("run completed successfully")).unwrap();
    assert_eq!(closing.spans[0].tone, Tone::Success);
    assert_eq!(texts(lines.last().unwrap())[7], " Back");
}

#[test]
fn run_screen_aborted_marks_where_the_run_stopped() {
    let mut s = run_state(0);
    s.width = 60;
    s.run_aborted = true;
    s.run_filter = 2;
    let lines = run_screen_lines(&s, false);
    assert_eq!(texts(&lines[0])[2], format!("Aborted  0/1  {}", "░".repeat(10)));
    assert_eq!(lines[0].spans[2].tone, Tone::Warning);
    assert!(texts(&lines[1])[0].starts_with("  current  run aborted after 0/1 actions"));
    assert_eq!(texts(&lines[2])[0], "\u{F04D} I git / install git");
    assert_eq!(texts(&lines[2])[2], "aborted");
    assert_eq!(texts(&lines[3])[0], format!("┌ log: follow · errors {}┐", "─".repeat(34)));
    assert!(texts(&lines[4])[0].starts_with("│no errors in this simulated run"));
}

fn plan_state() -> DemoState {
    let mut s = DemoState::default();
    s.width = 40;
    s.height = 20;
    let mut zsh = item("zsh", "shell", true);
    zsh.action_count = 2;
    s.seed = Seed {
        items: vec![zsh, item("git", "software", true), item("bat", "software", false)],
        review_entries: vec![],
    };
    s
}

#[test]
fn plan_screen_draws_header_rows_and_hints() {
    let mut s = plan_state();
    assert_eq!(s.frame_screen(), "plan");
    let lines = plan_screen_lines(&s);
    assert_eq!(lines.len(), 13);

    let header = &lines[0];
    assert_eq!((header.x, header.y, header.limit), (1, 1, Some(38)));
    assert_eq!(
        texts(header),
        vec![
            "\u{F013}  dotman - Plan (".to_string(),
            "○ saved".to_string(),
            ")  ".to_string(),
            "2 selected · 3 actions".to_string(),
            " ".to_string(),
        ]
    );
    assert!(header.spans[0].bold);
    assert_eq!(header.spans[1].tone, Tone::Muted);

    let shell = &lines[1];
    assert_eq!((shell.x, shell.y, shell.active), (1, 2, true));
    assert_eq!(texts(shell), vec![format!("  \u{F47C} 02  Shell{}1 / 1", " ".repeat(20))]);
    assert_eq!(shell.spans[0].tone, Tone::Muted);
    assert_eq!(texts(&lines[2]), vec!["\u{258E}".to_string()]);
    assert_eq!(lines[2].spans[0].tone, Tone::Primary);

    let zsh = &lines[3];
    assert_eq!((zsh.x, zsh.y, zsh.active), (1, 3, false));
    assert_eq!(texts(zsh), vec![format!("    \u{F0132}  zsh (+1){}", " ".repeat(23))]);
    let check = &lines[4];
    assert_eq!((check.x, check.y), (5, 3));
    assert_eq!(texts(check), vec!["\u{F0132}".to_string()]);
    assert_eq!(check.spans[0].tone, Tone::Success);

    assert_eq!(texts(&lines[5]), vec![format!("  {}", "─".repeat(36))]);
    assert_eq!(lines[5].spans[0].tone, Tone::Divider);

    assert_eq!(texts(&lines[6])[0], format!("  \u{F47C} 04  Software{}1 / 2", " ".repeat(17)));
    assert_eq!(lines[6].y, 5);
    assert!(!lines[6].active);

    assert_eq!(texts(&lines[10]), vec!["\u{F0131}".to_string()]);
    assert_eq!(lines[10].spans[0].tone, Tone::FgDim);
    assert_eq!(lines[11].y, 8);

    let help = &lines[12];
    assert_eq!((help.y, help.limit), (17, Some(38)));
    assert_eq!(
        texts(help),
        vec!["[↑↓]", " Navigate  ", "[Space]", " Toggle  ", "[s]", " Save  ", "[r]", " Review  ", "[q]", " Back"]
    );
}

#[test]
fn plan_screen_shows_status_and_read_only_hints() {
    let mut s = plan_state();
    s.frame_screen();
    s.parent_index = 1;
    s.dirty = true;
    s.status = "saved selection".to_string();
    let lines = plan_screen_lines(&s);
    assert_eq!(texts(&lines[0])[1], "○ unsaved");
    let status = &lines[lines.len() - 2];
    assert_eq!((status.x, status.y), (1, 16));
    assert_eq!(texts(status), vec!["  saved selection".to_string()]);
    assert_eq!(status.spans[0].tone, Tone::Muted);
    let help = texts(lines.last().unwrap());
    assert_eq!(&help[6..], &["[q]", " Back  ", "[read-only]", ""]);
}

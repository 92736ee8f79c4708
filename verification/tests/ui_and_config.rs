use kondo::commands::AddPlan;
use kondo::commands::default_deadline;
use kondo::commands::plan_add;
use kondo::config::Configuration;
use kondo::config::Kondo;
use kondo::config::parse_deadline_days;
use kondo::date::Date;
use kondo::list_ui::UiAction;
use kondo::list_ui::UiKey;
use kondo::list_ui::key_action;
use kondo::list_ui::task_display_lines;
use kondo::task::Task;

#[test]
fn deadline_days_reads_plain_decimals() {
    assert_eq!(parse_deadline_days("7"), Some(7));
    assert_eq!(parse_deadline_days("0"), Some(0));
    assert_eq!(parse_deadline_days("365"), Some(365));
    assert_eq!(parse_deadline_days("007"), Some(7));
}

#[test]
fn deadline_days_rejects_everything_else() {
    assert_eq!(parse_deadline_days(""), None);
    assert_eq!(parse_deadline_days("7a"), None);
    assert_eq!(parse_deadline_days("-7"), None);
    assert_eq!(parse_deadline_days("+7"), None);
    assert_eq!(parse_deadline_days("7 "), None);
}

#[test]
fn deadline_days_handles_the_word_boundary() {
    assert_eq!(parse_deadline_days("18446744073709551615"), Some(u64::MAX));
    assert_eq!(parse_deadline_days("18446744073709551616"), None);
    assert_eq!(parse_deadline_days("99999999999999999999"), None);
}

#[test]
fn default_deadline_adds_the_configured_days() {
    let today = Date::new(2025, 3, 1).unwrap();
    assert_eq!(default_deadline(today, "7"), Date::new(2025, 3, 8));
    assert_eq!(default_deadline(today, "31"), Date::new(2025, 4, 1));
    assert_eq!(default_deadline(today, "x"), None);
    let late = Date::new(9999, 12, 31).unwrap();
    assert_eq!(default_deadline(late, "1"), None);
}

#[test]
fn add_plan_decides_like_the_command_line() {
    assert!(matches!(plan_add(None, None), AddPlan::EditThenStore));
    let d = Date::new(2025, 3, 1).unwrap();
    match plan_add(Some(d), Some(String::from("content"))) {
        AddPlan::StoreDirect(pd, pc) => {
            assert_eq!(pd, d);
            assert_eq!(pc, "content");
        }
        _ => panic!("expected a direct store"),
    }
    assert!(matches!(plan_add(Some(d), None), AddPlan::DoNothing));
    assert!(matches!(plan_add(None, Some(String::from("c"))), AddPlan::DoNothing));
}

#[test]
fn key_table_matches_the_list_view() {
    assert_eq!(key_action(true, UiKey::Down), UiAction::ScrollDown);
    assert_eq!(key_action(true, UiKey::Up), UiAction::ScrollUp);
    assert_eq!(key_action(true, UiKey::Char(' ')), UiAction::Toggle);
    assert_eq!(key_action(true, UiKey::Char('x')), UiAction::Ignore);
    assert_eq!(key_action(true, UiKey::Esc), UiAction::Exit);
    assert_eq!(key_action(true, UiKey::Other), UiAction::Ignore);
    assert_eq!(key_action(false, UiKey::Down), UiAction::Ignore);
    assert_eq!(key_action(false, UiKey::Esc), UiAction::Ignore);
}

#[test]
fn display_lines_show_deadline_rule_and_content() {
    let t = Task::new(None, Date::new(2025, 3, 1).unwrap(), "line1\n\nline3");
    let lines = task_display_lines(&t);
    assert_eq!(lines.len(), 5);
    assert_eq!(lines[0], "2025-03-01");
    assert_eq!(lines[1], "---------------------");
    assert_eq!(lines[2], "line1");
    assert_eq!(lines[3], "");
    assert_eq!(lines[4], "line3");
}

#[test]
fn display_lines_of_empty_content() {
    let t = Task::new(None, Date::new(2025, 3, 1).unwrap(), "");
    let lines = task_display_lines(&t);
    assert_eq!(lines.len(), 3);
    assert_eq!(lines[2], "");
}

#[test]
fn task_new_fills_the_defaults() {
    let d = Date::new(2025, 3, 12).unwrap();
    let t = Task::new(None, d, "Test content");
    assert_eq!(t.id, 0);
    assert_eq!(t.deadline, d);
    assert_eq!(t.content, "Test content");
    assert_eq!(t.category, None);
    assert!(!t.done);
    let t = Task::new(Some(41), d, "x");
    assert_eq!(t.id, 41);
}

#[test]
fn configuration_carries_the_two_values() {
    let cfg = Configuration {
        kondo: Kondo {
            default_deadline: String::from("7"),
            editor: String::from("vim"),
        },
    };
    assert_eq!(cfg.kondo.default_deadline, "7");
    assert_eq!(cfg.kondo.editor, "vim");
}

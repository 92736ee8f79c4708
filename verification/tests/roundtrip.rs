use kondo::content_parser::parse_task;
use kondo::date::Date;
use kondo::editor::EditSession;
use kondo::editor::SessionAction;
use kondo::editor::SessionEvent;
use kondo::editor::SessionPhase;
use kondo::editor::render_task;
use kondo::task::Task;

#[test]
fn render_then_parse_gives_the_task_back() {
    let t = Task::new(None, Date::new(2024, 2, 29).unwrap(), "alpha\nbeta");
    let rendered = render_task(&t);
    assert_eq!(rendered, "[2024-02-29]\nalpha\nbeta");
    let back = parse_task(rendered.as_str()).unwrap();
    assert_eq!(back, t);
}

#[test]
fn render_then_parse_with_empty_content() {
    let t = Task::new(None, Date::new(2025, 3, 1).unwrap(), "");
    let rendered = render_task(&t);
    assert_eq!(rendered, "[2025-03-01]\n");
    let back = parse_task(rendered.as_str()).unwrap();
    assert_eq!(back, t);
}

#[test]
fn render_then_parse_keeps_brackets_inside_content() {
    let t = Task::new(None, Date::new(2025, 3, 1).unwrap(), "see [2026-01-01] later");
    let rendered = render_task(&t);
    let back = parse_task(rendered.as_str()).unwrap();
    assert_eq!(back, t);
}

#[test]
fn editor_session_round_trip() {
    let original = Task::new(None, Date::new(2025, 3, 1).unwrap(), "hello");
    let (s, text) = EditSession::start(&original);
    assert!(matches!(s.phase, SessionPhase::Rendering));
    assert_eq!(text, "[2025-03-01]\nhello");

    let (s, a) = s.step(SessionEvent::FileStaged);
    assert!(matches!(s.phase, SessionPhase::Staged));
    assert_eq!(a, SessionAction::SpawnEditor);

    let (s, a) = s.step(SessionEvent::EditorSpawned);
    assert!(matches!(s.phase, SessionPhase::Editing));
    assert_eq!(a, SessionAction::AwaitEditor);

    let (s, a) = s.step(SessionEvent::EditorExited);
    assert!(matches!(s.phase, SessionPhase::Reloading));
    assert_eq!(a, SessionAction::ReloadFile);

    // The simulated external edit changed only the content line.
    let edited = String::from("[2025-03-01]\nrewritten content");
    let (s, a) = s.step(SessionEvent::FileReloaded(edited));
    assert_eq!(a, SessionAction::RemoveFile);
    assert!(matches!(s.phase, SessionPhase::Done));
    let updated = s.result.unwrap();
    assert_eq!(updated.deadline, original.deadline);
    assert_eq!(updated.content, "rewritten content");
}

#[test]
fn editor_session_cleans_up_after_a_parse_failure() {
    let original = Task::new(None, Date::new(2025, 3, 1).unwrap(), "hello");
    let (s, _text) = EditSession::start(&original);
    let (s, _a) = s.step(SessionEvent::FileStaged);
    let (s, _a) = s.step(SessionEvent::EditorSpawned);
    let (s, _a) = s.step(SessionEvent::EditorExited);
    let (s, a) = s.step(SessionEvent::FileReloaded(String::from("ruined beyond repair")));
    assert!(matches!(s.phase, SessionPhase::Failed));
    assert!(s.result.is_none());
    assert_eq!(a, SessionAction::RemoveFile);
}

#[test]
fn editor_session_cleans_up_after_a_spawn_failure() {
    let original = Task::new(None, Date::new(2025, 3, 1).unwrap(), "hello");
    let (s, _text) = EditSession::start(&original);
    let (s, _a) = s.step(SessionEvent::FileStaged);
    let (s, a) = s.step(SessionEvent::SpawnFailed);
    assert!(matches!(s.phase, SessionPhase::Failed));
    assert_eq!(a, SessionAction::RemoveFile);
}

#[test]
fn editor_session_cleans_up_after_a_reload_failure() {
    let original = Task::new(None, Date::new(2025, 3, 1).unwrap(), "hello");
    let (s, _text) = EditSession::start(&original);
    let (s, _a) = s.step(SessionEvent::FileStaged);
    let (s, _a) = s.step(SessionEvent::EditorSpawned);
    let (s, _a) = s.step(SessionEvent::EditorExited);
    let (s, a) = s.step(SessionEvent::ReloadFailed);
    assert!(matches!(s.phase, SessionPhase::Failed));
    assert_eq!(a, SessionAction::RemoveFile);
}

#[test]
fn editor_session_stage_failure_stops_without_a_file() {
    let original = Task::new(None, Date::new(2025, 3, 1).unwrap(), "hello");
    let (s, _text) = EditSession::start(&original);
    let (s, a) = s.step(SessionEvent::StageFailed);
    assert!(matches!(s.phase, SessionPhase::Failed));
    assert_eq!(a, SessionAction::Stop);
}

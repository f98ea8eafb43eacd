use step_logs::action::{Action, BuildStepId, HandlerResult, ResultFields};
use step_logs::handler::LogHandler;
use step_logs::replay::{prefixed_line, replay_line, skip_notice, skipped_text, truncation};
use step_logs::text::to_decimal;
use step_logs::tree::{prefix, BRANCH, TERMINATOR};

const STEP: BuildStepId = BuildStepId(7);

fn line(id: BuildStepId, text: &str) -> Action {
    Action::Result { id, fields: ResultFields::BuildLogLine(text.to_string()) }
}

fn handler_with(lines: &[&str]) -> LogHandler<u8> {
    console::set_colors_enabled(false);
    let mut handler = LogHandler::new(STEP);
    for text in lines {
        let outcome = handler.on_action(None, &line(STEP, text));
        assert_eq!(outcome.result, HandlerResult::Continue);
        assert!(outcome.output.is_empty());
    }
    handler
}

#[test]
fn limit_three_of_five_lines() {
    let mut handler = handler_with(&["a", "b", "c", "d", "e"]);
    let outcome = handler.on_action(Some(3), &Action::Stop { id: STEP });
    assert_eq!(outcome.result, HandlerResult::Close);
    assert_eq!(outcome.window_line, None);
    assert_eq!(outcome.output, vec!["┆ ⋅⋅⋅ (skipped 2 lines)", "│ c", "│ d", "└ e"]);
}

#[test]
fn no_limit_two_lines() {
    let mut handler = handler_with(&["x", "y"]);
    let outcome = handler.on_action(None, &Action::Stop { id: STEP });
    assert_eq!(outcome.result, HandlerResult::Close);
    assert_eq!(outcome.output, vec!["│ x", "└ y"]);
}

#[test]
fn limit_zero_one_line() {
    let mut handler = handler_with(&["only"]);
    let outcome = handler.on_action(Some(0), &Action::Stop { id: STEP });
    assert_eq!(outcome.result, HandlerResult::Close);
    assert_eq!(outcome.output, vec!["┆ ⋅⋅⋅ (skipped 1 lines)"]);
    assert!(handler.logs().is_empty());
}

#[test]
fn limit_equal_to_length_drops_nothing() {
    let mut handler = handler_with(&["a", "b", "c"]);
    let output = handler.finalize(Some(3));
    assert_eq!(output, vec!["│ a", "│ b", "└ c"]);
    assert_eq!(handler.logs(), &vec!["a", "b", "c"]);
}

#[test]
fn limit_above_length_drops_nothing() {
    let mut handler = handler_with(&["a", "b"]);
    let output = handler.finalize(Some(usize::MAX));
    assert_eq!(output, vec!["│ a", "└ b"]);
    assert_eq!(handler.logs(), &vec!["a", "b"]);
}

#[test]
fn limit_below_length_keeps_the_most_recent_lines() {
    let mut handler = handler_with(&["1", "2", "3", "4", "5", "6", "7"]);
    let output = handler.finalize(Some(2));
    assert_eq!(output, vec!["┆ ⋅⋅⋅ (skipped 5 lines)", "│ 6", "└ 7"]);
    assert_eq!(handler.logs(), &vec!["6", "7"]);
}

#[test]
fn limit_one_leaves_only_the_terminator_line() {
    let mut handler = handler_with(&["a", "b", "c"]);
    let output = handler.finalize(Some(1));
    assert_eq!(output, vec!["┆ ⋅⋅⋅ (skipped 2 lines)", "└ c"]);
}

#[test]
fn more_than_nine_lines_skipped() {
    let lines: Vec<String> = (0..12).map(|i| format!("l{i}")).collect();
    let refs: Vec<&str> = lines.iter().map(|l| l.as_str()).collect();
    let mut handler = handler_with(&refs);
    let output = handler.finalize(Some(1));
    assert_eq!(output, vec!["┆ ⋅⋅⋅ (skipped 11 lines)", "└ l11"]);
}

#[test]
fn empty_history_replays_nothing() {
    let mut handler = handler_with(&[]);
    let outcome = handler.on_action(Some(3), &Action::Stop { id: STEP });
    assert_eq!(outcome.result, HandlerResult::Close);
    assert!(outcome.output.is_empty());
}

#[test]
fn empty_history_without_limit_replays_nothing() {
    let mut handler = handler_with(&[]);
    assert!(handler.finalize(None).is_empty());
}

#[test]
fn single_line_uses_the_terminator() {
    let mut handler = handler_with(&["alone"]);
    assert_eq!(handler.finalize(None), vec!["└ alone"]);
}

#[test]
fn exactly_one_line_carries_the_terminator() {
    let mut handler = handler_with(&["a", "b", "c", "d"]);
    let output = handler.finalize(None);
    let with_terminator: Vec<usize> =
        (0..output.len()).filter(|i| output[*i].starts_with(TERMINATOR)).collect();
    assert_eq!(with_terminator, vec![3]);
    assert!(output[..3].iter().all(|l| l.starts_with(BRANCH)));
}

#[test]
fn empty_log_line_is_replayed_as_a_bare_prefix() {
    let mut handler = handler_with(&["", "b"]);
    assert_eq!(handler.finalize(None), vec!["│ ", "└ b"]);
}

#[test]
fn lines_are_appended_in_order() {
    let handler = handler_with(&["first", "second", "third"]);
    assert_eq!(handler.id(), STEP);
    assert_eq!(handler.logs(), &vec!["first", "second", "third"]);
}

#[test]
fn line_of_another_step_is_ignored() {
    let mut handler = handler_with(&["mine"]);
    let outcome = handler.on_action(Some(0), &line(BuildStepId(8), "theirs"));
    assert_eq!(outcome.result, HandlerResult::Continue);
    assert_eq!(outcome.window_line, None);
    assert!(outcome.output.is_empty());
    assert_eq!(handler.logs(), &vec!["mine"]);
}

#[test]
fn stop_of_another_step_is_ignored() {
    let mut handler = handler_with(&["mine"]);
    let outcome = handler.on_action(Some(0), &Action::Stop { id: BuildStepId(8) });
    assert_eq!(outcome.result, HandlerResult::Continue);
    assert!(outcome.output.is_empty());
    assert_eq!(handler.logs(), &vec!["mine"]);
}

#[test]
fn other_events_of_the_step_are_ignored() {
    let mut handler = handler_with(&["mine"]);
    let start = handler.on_action(Some(0), &Action::Start { id: STEP });
    assert_eq!(start.result, HandlerResult::Continue);
    assert!(start.output.is_empty());
    let phase = Action::Result { id: STEP, fields: ResultFields::SetPhase("build".to_string()) };
    let outcome = handler.on_action(Some(0), &phase);
    assert_eq!(outcome.result, HandlerResult::Continue);
    assert_eq!(outcome.window_line, None);
    assert!(outcome.output.is_empty());
    assert_eq!(handler.logs(), &vec!["mine"]);
}

#[test]
fn line_is_not_forwarded_without_a_window() {
    let mut handler: LogHandler<u8> = LogHandler::new(STEP);
    assert!(handler.logs_window().is_none());
    let outcome = handler.on_action(None, &line(STEP, "a"));
    assert_eq!(outcome.window_line, None);
    assert_eq!(handler.append_line(&"b".to_string()), None);
}

#[test]
fn line_is_forwarded_to_the_attached_window() {
    let mut handler = LogHandler::new(STEP).with_logs_window(42u8);
    assert_eq!(handler.logs_window(), Some(&42));
    let outcome = handler.on_action(None, &line(STEP, "a"));
    assert_eq!(outcome.result, HandlerResult::Continue);
    assert_eq!(outcome.window_line, Some("a".to_string()));
    assert_eq!(handler.append_line(&"b".to_string()), Some("b".to_string()));
    assert_eq!(handler.logs(), &vec!["a", "b"]);
}

#[test]
fn ignored_line_is_not_forwarded() {
    let mut handler = LogHandler::new(STEP).with_logs_window(42u8);
    let outcome = handler.on_action(None, &line(BuildStepId(8), "theirs"));
    assert_eq!(outcome.window_line, None);
}

#[test]
fn stop_forwards_nothing() {
    let mut handler = LogHandler::new(STEP).with_logs_window(42u8);
    handler.on_action(None, &line(STEP, "a"));
    let outcome = handler.on_action(None, &Action::Stop { id: STEP });
    assert_eq!(outcome.window_line, None);
    assert_eq!(handler.logs_window(), Some(&42));
}

#[test]
fn attaching_a_window_keeps_the_history() {
    let handler = handler_with(&["a", "b"]).with_logs_window(1u8);
    assert_eq!(handler.id(), STEP);
    assert_eq!(handler.logs(), &vec!["a", "b"]);
}

#[test]
fn default_handler_is_empty() {
    let handler: LogHandler<u8> = LogHandler::default();
    assert_eq!(handler.id(), BuildStepId(0));
    assert_eq!(handler.id(), BuildStepId::default());
    assert!(handler.logs().is_empty());
    assert!(handler.logs_window().is_none());
}

#[test]
fn truncation_is_the_excess_over_the_limit() {
    assert_eq!(truncation(5, Some(3)), 2);
    assert_eq!(truncation(3, Some(3)), 0);
    assert_eq!(truncation(3, Some(5)), 0);
    assert_eq!(truncation(1, Some(0)), 1);
    assert_eq!(truncation(0, Some(0)), 0);
    assert_eq!(truncation(7, None), 0);
    assert_eq!(truncation(usize::MAX, Some(1)), usize::MAX - 1);
}

#[test]
fn counts_are_written_in_decimal() {
    assert_eq!(to_decimal(0), "0");
    assert_eq!(to_decimal(7), "7");
    assert_eq!(to_decimal(9), "9");
    assert_eq!(to_decimal(10), "10");
    assert_eq!(to_decimal(99), "99");
    assert_eq!(to_decimal(100), "100");
    assert_eq!(to_decimal(1234567890), "1234567890");
    assert_eq!(to_decimal(usize::MAX), usize::MAX.to_string());
}

#[test]
fn notice_words_name_the_count() {
    assert_eq!(skipped_text(1), "(skipped 1 lines)");
    assert_eq!(skipped_text(2), "(skipped 2 lines)");
    assert_eq!(skipped_text(250), "(skipped 250 lines)");
}

#[test]
fn notice_without_colours_is_plain() {
    console::set_colors_enabled(false);
    assert_eq!(skip_notice(2), "┆ ⋅⋅⋅ (skipped 2 lines)");
}

#[test]
fn prefixes_mark_the_last_line() {
    assert_eq!(prefix(0, 1), "└");
    assert_eq!(prefix(0, 3), "│");
    assert_eq!(prefix(1, 3), "│");
    assert_eq!(prefix(2, 3), "└");
    assert_eq!(prefix(usize::MAX, usize::MAX), "│");
    assert_eq!(prefix(usize::MAX - 1, usize::MAX), "└");
}

#[test]
fn prefixed_line_is_connector_space_text() {
    assert_eq!(prefixed_line(0, 2, "x"), "│ x");
    assert_eq!(prefixed_line(1, 2, "y"), "└ y");
    assert_eq!(prefixed_line(0, 1, ""), "└ ");
    assert_eq!(prefixed_line(4, 9, "  indented"), "│   indented");
}

#[test]
fn replay_line_without_colours_is_plain() {
    console::set_colors_enabled(false);
    assert_eq!(replay_line(0, 2, "x"), "│ x");
    assert_eq!(replay_line(1, 2, "y"), "└ y");
}

use mcsh::session::{next_step, ReadOutcome, Step};

#[test]
fn lines_are_trimmed_and_run() {
    assert_eq!(next_step(ReadOutcome::Line("  /tp /tmp \n".to_string())), Step::Run("/tp /tmp".to_string()));
    assert_eq!(next_step(ReadOutcome::Line("hello".to_string())), Step::Run("hello".to_string()));
}

#[test]
fn blank_lines_and_interrupts_are_skipped() {
    assert_eq!(next_step(ReadOutcome::Line("   ".to_string())), Step::Skip);
    assert_eq!(next_step(ReadOutcome::Line(String::new())), Step::Skip);
    assert_eq!(next_step(ReadOutcome::Interrupted), Step::Skip);
}

#[test]
fn history_is_shown_for_exactly_history() {
    assert_eq!(next_step(ReadOutcome::Line(" /history ".to_string())), Step::ShowHistory);
    assert_eq!(next_step(ReadOutcome::Line("/History".to_string())), Step::Run("/History".to_string()));
}

#[test]
fn end_of_input_and_errors_end_the_session() {
    assert_eq!(next_step(ReadOutcome::Eof), Step::Disconnect);
    assert_eq!(next_step(ReadOutcome::Failed), Step::Abort);
}

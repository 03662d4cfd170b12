use mcsh::pipeline::{launch_step, parse_pipeline, stage_failure_message, stage_wiring, Launch, PipelineError, Wiring};

fn stages(line: &str) -> Vec<(String, Vec<String>)> {
    parse_pipeline(line)
        .ok()
        .expect("a valid pipeline")
        .into_iter()
        .map(|s| (s.program, s.args))
        .collect()
}

#[test]
fn pipeline_stages_are_split_at_pipes() {
    let s = stages("/cat file.txt | /grep hello | /wc -l");
    assert_eq!(s.len(), 3);
    assert_eq!(s[0], ("cat".to_string(), vec!["file.txt".to_string()]));
    assert_eq!(s[1], ("grep".to_string(), vec!["hello".to_string()]));
    assert_eq!(s[2], ("wc".to_string(), vec!["-l".to_string()]));
}

#[test]
fn pipeline_stages_need_no_slash() {
    let s = stages("/ls|sort  -r");
    assert_eq!(s, vec![
        ("ls".to_string(), vec![]),
        ("sort".to_string(), vec!["-r".to_string()]),
    ]);
}

#[test]
fn pipeline_with_an_empty_stage_is_refused() {
    for line in ["/a | | /b", "/a |", "| /b", "/a | / | /b", "/a ||/b"] {
        match parse_pipeline(line) {
            Err(e) => {
                assert_eq!(e, PipelineError::EmptyStage);
                assert_eq!(e.message(), "Invalid pipeline: empty command between pipes");
            }
            Ok(_) => panic!("{} should be refused", line),
        }
    }
}

#[test]
fn pipeline_wiring() {
    let first = stage_wiring(0, 3);
    let middle = stage_wiring(1, 3);
    let last = stage_wiring(2, 3);
    assert!(!first.stdin_from_previous && first.stdout_to_next);
    assert!(middle.stdin_from_previous && middle.stdout_to_next);
    assert!(last.stdin_from_previous && !last.stdout_to_next);
    let only = stage_wiring(0, 1);
    assert!(!only.stdin_from_previous && !only.stdout_to_next);
}

#[test]
fn pipeline_failure_message() {
    assert_eq!(
        stage_failure_message("nosuch", "No such file or directory (os error 2)"),
        "Pipeline failed: '/nosuch' — No such file or directory (os error 2)"
    );
}

#[test]
fn launching_a_pipeline() {
    assert_eq!(
        launch_step(3, 0, false),
        Launch::Start { stage: 0, wiring: Wiring { stdin_from_previous: false, stdout_to_next: true } }
    );
    assert_eq!(
        launch_step(3, 1, false),
        Launch::Start { stage: 1, wiring: Wiring { stdin_from_previous: true, stdout_to_next: true } }
    );
    assert_eq!(
        launch_step(3, 2, false),
        Launch::Start { stage: 2, wiring: Wiring { stdin_from_previous: true, stdout_to_next: false } }
    );
    assert_eq!(launch_step(3, 3, false), Launch::WaitAll);
    assert_eq!(launch_step(3, 2, true), Launch::Abandon { stage: 2 });
    assert_eq!(launch_step(1, 0, true), Launch::Abandon { stage: 0 });
}

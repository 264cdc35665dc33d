use amplitude_content::config::Args;
use amplitude_content::config::GetLang;
use amplitude_content::config::LanguageConfig;
use amplitude_content::error::CompileError;
use amplitude_content::quiz::parse_quiz;
use amplitude_content::runner::RunOutput;
use amplitude_content::state::Answer;
use amplitude_content::state::ParseState;
use amplitude_content::state::Quiz;
use amplitude_content::watch::Debouncer;
use amplitude_content::watch::Recompiler;

fn sample_quiz() -> Quiz {
    Quiz {
        question: "why".to_string(),
        answers: vec![Answer {
            text: "because".to_string(),
            response: "yes".to_string(),
            correct: true,
        }],
    }
}

#[test]
fn quiz_lookup_by_both_ids() {
    let mut state = ParseState::new();
    assert!(state.get_quiz("a", "q1").is_none());
    assert!(state.insert_quiz("a", "q1", sample_quiz()).is_none());
    assert_eq!(state.get_quiz("a", "q1").unwrap().question, "why");
    assert!(state.get_quiz("a", "q2").is_none());
    assert!(state.get_quiz("b", "q1").is_none());
    // A second insert under the same ids replaces and returns the old quiz.
    let mut newer = sample_quiz();
    newer.question = "how".to_string();
    let old = state.insert_quiz("a", "q1", newer).unwrap();
    assert_eq!(old.question, "why");
    assert_eq!(state.get_quiz("a", "q1").unwrap().question, "how");
}

#[test]
fn parse_quiz_reads_a_full_definition() {
    let text = "question = \"Pick one\"\n\n[[answers]]\ntext = \"a\"\nresponse = \"r\"\n\n[[answers]]\ntext = \"b\"\ncorrect = true\n";
    let quiz = parse_quiz(text).unwrap();
    assert_eq!(quiz.question, "Pick one");
    assert_eq!(quiz.answers.len(), 2);
    assert_eq!(quiz.answers[1].response, "");
    assert!(quiz.answers[1].correct);
    assert!(!quiz.answers[0].correct);
}

#[test]
fn parse_quiz_rejects_missing_fields() {
    assert!(matches!(
        parse_quiz("answers = []").unwrap_err(),
        CompileError::ConfigDeserializationError(_)
    ));
    assert!(matches!(
        parse_quiz("question = \"q\"").unwrap_err(),
        CompileError::ConfigDeserializationError(_)
    ));
    assert!(matches!(
        parse_quiz("question = \"q\"\n[[answers]]\nresponse = \"r\"\n").unwrap_err(),
        CompileError::ConfigDeserializationError(_)
    ));
}

#[test]
fn burst_of_events_in_window_triggers_once() {
    let debouncer = Debouncer { window_ms: 50 };
    assert_eq!(debouncer.coalesce(&vec![100, 101]), 1);
    assert_eq!(debouncer.coalesce(&vec![100, 110, 120, 149, 150]), 1);
}

#[test]
fn events_past_the_window_trigger_again() {
    let debouncer = Debouncer { window_ms: 50 };
    assert_eq!(debouncer.coalesce(&vec![]), 0);
    assert_eq!(debouncer.coalesce(&vec![100, 151]), 2);
    assert_eq!(debouncer.coalesce(&vec![100, 120, 200, 210, 400]), 3);
}

#[test]
fn failed_pass_keeps_previous_index() {
    let mut first = ParseState::new();
    first.insert_quiz("a", "q1", sample_quiz());
    let mut recompiler = Recompiler::new(first);
    let err = recompiler.publish(Err(CompileError::IoError("disk gone".to_string())));
    assert!(err.is_some());
    assert!(recompiler.published.get_quiz("a", "q1").is_some());
    // A successful pass swaps the whole index at once.
    let fresh = ParseState::new();
    assert!(recompiler.publish(Ok(fresh)).is_none());
    assert!(recompiler.published.get_quiz("a", "q1").is_none());
}

#[test]
fn find_lang_returns_first_match() {
    let configs = vec![
        LanguageConfig {
            name: "python".to_string(),
            path: "python".to_string(),
            image_name: "runner-python".to_string(),
            source_path: "main.py".to_string(),
        },
        LanguageConfig {
            name: "javascript".to_string(),
            path: "javascript".to_string(),
            image_name: "runner-js".to_string(),
            source_path: "main.js".to_string(),
        },
    ];
    assert_eq!(configs.get_lang("javascript").unwrap().image_name, "runner-js");
    assert!(configs.get_lang("rust").is_none());
}

#[test]
fn run_output_success_follows_exit_code() {
    let ok = RunOutput {
        stdout: "4".to_string(),
        stderr: String::new(),
        runtime: 12,
        exit_code: 0,
    };
    assert!(ok.success());
    let bad = RunOutput { exit_code: 1, ..ok.clone() };
    assert!(!bad.success());
}

#[test]
fn args_defaults_match_the_documented_values() {
    let a = Args::default();
    assert!(!a.local);
    assert_eq!(a.config, "config.toml");
    let b = amplitude_content::Args::default();
    assert!(!b.watch);
    assert_eq!(b.input, "courses");
    assert_eq!(b.output, "rendered");
    assert_eq!(b.web, "web");
}

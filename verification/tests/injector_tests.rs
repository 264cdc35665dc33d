use amplitude_content::article::compile_article;
use amplitude_content::error::CompileError;
use amplitude_content::inject::InjectData;
use amplitude_content::inject::inject;
use amplitude_content::registry::standard_registry;
use amplitude_content::registry::ExpectedTag;
use amplitude_content::registry::HandlerKind;
use amplitude_content::registry::Registry;
use amplitude_content::state::ParseState;
use amplitude_content::tokens::render_html;
use amplitude_content::tokens::tokenize;
use amplitude_content::watch::Recompiler;

const QUIZ_ARTICLE: &str = "---\ntitle = \"Quizzing\"\n---\nIntro paragraph.\n\n@quiz;q1\n```toml\nquestion = \"What is 2 + 2?\"\n\n[[answers]]\ntext = \"4\"\nresponse = \"right\"\ncorrect = true\n\n[[answers]]\ntext = \"5\"\nresponse = \"off by one\"\n```\n\nOutro paragraph.\n";

#[test]
fn plain_markdown_passes_through_unaltered() {
    let text = "A paragraph that does not begin with an at sign.\n\nAnother *plain* one.\n";
    let reg = standard_registry();
    let mut data = InjectData::new();
    let out = inject(tokenize(text), &reg, &mut data).unwrap();
    assert_eq!(render_html(out), render_html(tokenize(text)));
    assert_eq!(data.quizzes.len(), 0);
}

#[test]
fn at_in_mid_paragraph_is_not_an_annotation() {
    let text = "write me at someone@example.com please\n";
    let reg = standard_registry();
    let mut data = InjectData::new();
    let out = inject(tokenize(text), &reg, &mut data).unwrap();
    assert_eq!(render_html(out), render_html(tokenize(text)));
}

#[test]
fn quiz_annotation_registers_quiz_under_its_ids() {
    let reg = standard_registry();
    let mut state = ParseState::new();
    let article = compile_article(
        "course1/article1",
        QUIZ_ARTICLE,
        "out/course1/article1.html".to_string(),
        &reg,
        &mut state,
    )
    .unwrap();
    assert_eq!(article.title, "Quizzing");
    let quiz = state.get_quiz("course1/article1", "q1").unwrap();
    assert_eq!(quiz.question, "What is 2 + 2?");
    assert_eq!(quiz.answers.len(), 2);
    assert_eq!(quiz.answers[0].text, "4");
    assert_eq!(quiz.answers[0].response, "right");
    assert!(quiz.answers[0].correct);
    assert_eq!(quiz.answers[1].text, "5");
    assert!(!quiz.answers[1].correct);
    // The consumed block leaves no trace in the rendered body.
    assert!(!article.body.contains("question"));
    assert!(article.body.contains("Intro paragraph."));
    assert!(article.body.contains("Outro paragraph."));
}

#[test]
fn unknown_tag_fails_and_keeps_published_index() {
    let reg = standard_registry();
    // First pass: publish an index holding one quiz.
    let mut state = ParseState::new();
    compile_article("a", QUIZ_ARTICLE, "out/a.html".to_string(), &reg, &mut state).unwrap();
    let mut recompiler = Recompiler::new(state);
    // Second pass: a file with an unregistered tag fails compilation.
    let bad = "---\ntitle = \"Bad\"\n---\n@bogus\n```toml\nx = 1\n```\n";
    let mut fresh = ParseState::new();
    let err = compile_article("a", bad, "out/a.html".to_string(), &reg, &mut fresh).unwrap_err();
    match &err {
        CompileError::UnknownAnnotationTag(name) => assert_eq!(name, "bogus"),
        other => panic!("expected UnknownAnnotationTag, got {:?}", other),
    }
    assert_eq!(err.label(), "unknown annotation tag");
    assert_eq!(err.context(), "bogus");
    // The failed pass never reaches the published index.
    let reported = recompiler.publish(Err(err));
    assert!(reported.is_some());
    assert!(recompiler.published.get_quiz("a", "q1").is_some());
}

#[test]
fn blockquote_after_quiz_is_block_mismatch() {
    let text = "---\ntitle = \"Bad\"\n---\n@quiz;q1\n> not a fenced block\n";
    let reg = standard_registry();
    let mut state = ParseState::new();
    let err = compile_article("a", text, "out/a.html".to_string(), &reg, &mut state).unwrap_err();
    assert!(matches!(err, CompileError::AnnotationBlockMismatch(_)));
    // The error names the expected shape and the found one.
    assert_eq!(
        err.context(),
        "a fenced code block with the expected language, found a block quote"
    );
}

#[test]
fn wrong_fence_language_is_block_mismatch() {
    let text = "---\ntitle = \"Bad\"\n---\n@quiz;q1\n```json\n{}\n```\n";
    let reg = standard_registry();
    let mut state = ParseState::new();
    let err = compile_article("a", text, "out/a.html".to_string(), &reg, &mut state).unwrap_err();
    assert!(matches!(err, CompileError::AnnotationBlockMismatch(_)));
}

#[test]
fn whitespace_in_data_is_invalid_syntax() {
    let text = "---\ntitle = \"Bad\"\n---\n@quiz;q 1\n```toml\nquestion = \"q\"\nanswers = []\n```\n";
    let reg = standard_registry();
    let mut state = ParseState::new();
    let err = compile_article("a", text, "out/a.html".to_string(), &reg, &mut state).unwrap_err();
    assert!(matches!(err, CompileError::InvalidAnnotationSyntax(_)));
}

#[test]
fn annotation_at_end_of_stream_is_block_mismatch() {
    let text = "---\ntitle = \"Bad\"\n---\nSome text.\n\n@quiz;q1\n";
    let reg = standard_registry();
    let mut state = ParseState::new();
    let err = compile_article("a", text, "out/a.html".to_string(), &reg, &mut state).unwrap_err();
    assert!(matches!(err, CompileError::AnnotationBlockMismatch(_)));
}

#[test]
fn custom_registry_accepts_any_fence_language() {
    let mut reg = Registry::new();
    reg.register("quiz".to_string(), ExpectedTag::CodeBlock(None), HandlerKind::Quiz);
    let text = "---\ntitle = \"Any\"\n---\n@quiz;q9\n```whatever\nquestion = \"ok?\"\nanswers = []\n```\n";
    let mut state = ParseState::new();
    compile_article("a", text, "out/a.html".to_string(), &reg, &mut state).unwrap();
    assert_eq!(state.get_quiz("a", "q9").unwrap().question, "ok?");
}

#[test]
fn quote_expectation_consumes_a_blockquote() {
    let mut reg = Registry::new();
    reg.register("quiz".to_string(), ExpectedTag::Quote, HandlerKind::Quiz);
    let text =
        "---\ntitle = \"Quoted\"\n---\n@quiz;q2\n> question = \"from a quote?\"\n> answers = []\n";
    let mut state = ParseState::new();
    compile_article("a", text, "out/a.html".to_string(), &reg, &mut state).unwrap();
    assert_eq!(state.get_quiz("a", "q2").unwrap().question, "from a quote?");
}

#[test]
fn malformed_quiz_toml_is_deserialization_error() {
    let text = "---\ntitle = \"Bad\"\n---\n@quiz;q1\n```toml\nquestion = \n```\n";
    let reg = standard_registry();
    let mut state = ParseState::new();
    let err = compile_article("a", text, "out/a.html".to_string(), &reg, &mut state).unwrap_err();
    assert!(matches!(err, CompileError::ConfigDeserializationError(_)));
}

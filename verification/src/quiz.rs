//! The quiz definition parser.
//!
//! A quiz is authored as TOML inside the fenced code block that follows a
//! `@quiz` annotation: a `question` string and a list of `answers` tables,
//! each with a `text`, an optional `response` and an optional `correct`
//! flag. Every read goes through named results of the TOML boundary, so
//! acceptance and the parsed values are pinned exactly.

use vstd::prelude::*;

use crate::error::CompileError;
use crate::state::Answer;
use crate::state::Quiz;
use crate::tomlval::check_toml;
use crate::tomlval::read_arr_bool_field;
use crate::tomlval::read_arr_len;
use crate::tomlval::read_arr_str_field;
use crate::tomlval::read_str_field;
use crate::tomlval::toml_arr_bool;
use crate::tomlval::toml_arr_has;
use crate::tomlval::toml_arr_len;
use crate::tomlval::toml_arr_str;
use crate::tomlval::toml_parses;
use crate::tomlval::toml_str_field;

verus! {

/// Whether answer `i` of the definition is acceptable: a string `text`,
/// and `response` / `correct` either absent or a string / boolean.
pub open spec fn answer_ok(doc: Seq<char>, i: int) -> bool {
    &&& toml_arr_str(doc, "answers"@, i, "text"@) is Some
    &&& (toml_arr_has(doc, "answers"@, i, "response"@) ==> toml_arr_str(
        doc,
        "answers"@,
        i,
        "response"@,
    ) is Some)
    &&& (toml_arr_has(doc, "answers"@, i, "correct"@) ==> toml_arr_bool(
        doc,
        "answers"@,
        i,
        "correct"@,
    ) is Some)
}

/// Whether a text is an acceptable quiz definition: well-formed TOML with
/// a string `question`, an `answers` array, and every answer acceptable.
pub open spec fn quiz_ok(doc: Seq<char>) -> bool {
    &&& toml_parses(doc)
    &&& toml_str_field(doc, "question"@) is Some
    &&& (toml_arr_len(doc, "answers"@) matches Some(n) && (forall|i: int|
        0 <= i < n ==> answer_ok(doc, i)))
}

/// Whether `a` is exactly answer `i` of the definition, defaults applied:
/// `response` defaults to empty, `correct` to false.
pub open spec fn answer_matches(doc: Seq<char>, i: int, a: Answer) -> bool {
    &&& toml_arr_str(doc, "answers"@, i, "text"@) == Some(a.text@)
    &&& a.response@ == if toml_arr_has(doc, "answers"@, i, "response"@) {
        toml_arr_str(doc, "answers"@, i, "response"@)->Some_0
    } else {
        Seq::<char>::empty()
    }
    &&& a.correct == if toml_arr_has(doc, "answers"@, i, "correct"@) {
        toml_arr_bool(doc, "answers"@, i, "correct"@)->Some_0
    } else {
        false
    }
}

/// Whether `q` is exactly the quiz the definition describes.
pub open spec fn quiz_matches(doc: Seq<char>, q: Quiz) -> bool {
    &&& toml_str_field(doc, "question"@) == Some(q.question@)
    &&& toml_arr_len(doc, "answers"@) == Some(q.answers@.len() as int)
    &&& forall|i: int| 0 <= i < q.answers@.len() ==> answer_matches(doc, i, #[trigger] q.answers@[i])
}

/// Parses a quiz definition from the text of its code block: succeeds
/// exactly on acceptable definitions (`quiz_ok`), and the result is
/// exactly what the definition describes (`quiz_matches`).
pub fn parse_quiz(text: &str) -> (r: Result<Quiz, CompileError>)
    ensures
        r is Ok <==> quiz_ok(text@),
        r matches Ok(q) ==> quiz_matches(text@, q),
        r is Err ==> r->Err_0 is ConfigDeserializationError,
{
    if !check_toml(text) {
        return Err(
            CompileError::ConfigDeserializationError(
                String::from_str("quiz definition is not well-formed TOML"),
            ),
        );
    }
    let question = match read_str_field(text, "question").1 {
        Some(s) => s,
        None => {
            return Err(
                CompileError::ConfigDeserializationError(
                    String::from_str("quiz needs a string `question` field"),
                ),
            );
        },
    };
    let n = match read_arr_len(text, "answers") {
        Some(n) => n,
        None => {
            return Err(
                CompileError::ConfigDeserializationError(
                    String::from_str("quiz needs an `answers` list"),
                ),
            );
        },
    };
    let mut answers: Vec<Answer> = Vec::new();
    let mut i: usize = 0;
    while i < n
        invariant
            i <= n,
            toml_arr_len(text@, "answers"@) == Some(n as int),
            answers@.len() == i,
            forall|k: int| 0 <= k < i ==> #[trigger] answer_ok(text@, k),
            forall|k: int| 0 <= k < i ==> answer_matches(text@, k, #[trigger] answers@[k]),
        decreases n - i,
    {
        let text_field = match read_arr_str_field(text, "answers", i, "text").1 {
            Some(s) => s,
            None => {
                proof {
                    assert(!answer_ok(text@, i as int));
                }
                return Err(
                    CompileError::ConfigDeserializationError(
                        String::from_str("quiz answer needs a string `text` field"),
                    ),
                );
            },
        };
        let (has_resp, resp_val) = read_arr_str_field(text, "answers", i, "response");
        let response = if has_resp {
            match resp_val {
                Some(s) => s,
                None => {
                    proof {
                        assert(!answer_ok(text@, i as int));
                    }
                    return Err(
                        CompileError::ConfigDeserializationError(
                            String::from_str("quiz answer field `response` must be a string"),
                        ),
                    );
                },
            }
        } else {
            String::new()
        };
        let (has_corr, corr_val) = read_arr_bool_field(text, "answers", i, "correct");
        let correct = if has_corr {
            match corr_val {
                Some(b) => b,
                None => {
                    proof {
                        assert(!answer_ok(text@, i as int));
                    }
                    return Err(
                        CompileError::ConfigDeserializationError(
                            String::from_str("quiz answer field `correct` must be a boolean"),
                        ),
                    );
                },
            }
        } else {
            false
        };
        let answer = Answer { text: text_field, response, correct };
        proof {
            assert(answer_ok(text@, i as int));
            assert(answer_matches(text@, i as int, answer));
        }
        let ghost answers0 = answers@;
        answers.push(answer);
        proof {
            assert(answers@[i as int] == answer);
            assert forall|k: int| 0 <= k < i + 1 implies #[trigger] answer_ok(text@, k) by {
                if k == i {
                    assert(answer_ok(text@, i as int));
                }
            }
            assert forall|k: int| 0 <= k < i + 1 implies answer_matches(
                text@,
                k,
                #[trigger] answers@[k],
            ) by {
                if k < i {
                    assert(answers@[k] == answers0[k]);
                } else {
                    assert(answers@[k] == answer);
                }
            }
        }
        i = i + 1;
    }
    let quiz = Quiz { question, answers };
    proof {
        assert forall|k: int| 0 <= k < quiz.answers@.len() implies answer_matches(
            text@,
            k,
            #[trigger] quiz.answers@[k],
        ) by {
            assert(quiz.answers@[k] == answers@[k]);
        }
        assert(quiz_matches(text@, quiz));
        assert(quiz_ok(text@));
    }
    Ok(quiz)
}

} // verus!

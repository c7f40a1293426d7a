use language_processor_unit::exception::Exception;
use language_processor_unit::processor::language_logic_unit::{
    BooleanEvalParams, LanguageLogicUnit, OpenAIChatCompletionRequestText,
};
use language_processor_unit::processor::openai::{
    ModelEmbeddingsConfig, OpenAIChatCompletionResponse, OpenAIChatCompletionResponseChoice,
    OpenAIChatCompletionResponseMessage, OpenAIEmbeddingsRequest,
};
use language_processor_unit::processor::registers::ContextMessage;

fn message(role: &str, content: &str) -> OpenAIChatCompletionRequestText {
    OpenAIChatCompletionRequestText {
        role: role.to_string(),
        content: content.to_string(),
    }
}

fn pairs(messages: &[OpenAIChatCompletionRequestText]) -> Vec<(String, String)> {
    messages
        .iter()
        .map(|m| (m.role.clone(), m.content.clone()))
        .collect()
}

#[test]
fn merge_joins_runs_of_one_role() {
    let input = vec![
        message("system", "s"),
        message("user", "a"),
        message("user", "b"),
        message("assistant", "c"),
        message("user", "d"),
        message("user", "e"),
        message("user", "f"),
    ];
    let merged = LanguageLogicUnit::merge_messages_by_role(&input).unwrap();
    assert_eq!(
        pairs(&merged),
        vec![
            ("system".to_string(), "s".to_string()),
            ("user".to_string(), "a\nb".to_string()),
            ("assistant".to_string(), "c".to_string()),
            ("user".to_string(), "d\ne\nf".to_string()),
        ]
    );
}

#[test]
fn merge_of_nothing_is_nothing() {
    assert!(LanguageLogicUnit::merge_messages_by_role(&[]).unwrap().is_empty());
}

#[test]
fn merge_twice_changes_nothing_more() {
    let input = vec![message("user", "a"), message("user", "b"), message("system", "c")];
    let once = LanguageLogicUnit::merge_messages_by_role(&input).unwrap();
    let twice = LanguageLogicUnit::merge_messages_by_role(&once).unwrap();
    assert_eq!(pairs(&once), pairs(&twice));
}

#[test]
fn validate_accepts_alternating_chat() {
    let chat = vec![
        message("system", "s"),
        message("user", "a"),
        message("assistant", "b"),
        message("user", "c"),
    ];
    assert!(LanguageLogicUnit::validate_messages(&chat).is_ok());
}

#[test]
fn validate_rejects_short_chat() {
    let chat = vec![message("system", "s")];
    assert!(matches!(
        LanguageLogicUnit::validate_messages(&chat),
        Err(Exception::LanguageLogic(_))
    ));
}

#[test]
fn validate_rejects_wrong_first_role() {
    let chat = vec![message("user", "s"), message("user", "a")];
    assert!(LanguageLogicUnit::validate_messages(&chat).is_err());
}

#[test]
fn validate_rejects_wrong_second_role() {
    let chat = vec![message("system", "s"), message("assistant", "a")];
    assert!(LanguageLogicUnit::validate_messages(&chat).is_err());
}

#[test]
fn validate_rejects_out_of_turn_role() {
    let chat = vec![
        message("system", "s"),
        message("user", "a"),
        message("user", "b"),
    ];
    assert!(LanguageLogicUnit::validate_messages(&chat).is_err());
}

#[test]
fn validate_rejects_ending_with_assistant() {
    let chat = vec![
        message("system", "s"),
        message("user", "a"),
        message("assistant", "b"),
    ];
    assert!(LanguageLogicUnit::validate_messages(&chat).is_err());
}

#[test]
fn chat_messages_wrap_the_context() {
    let context = vec![
        ContextMessage::new("user", "first"),
        ContextMessage::new("assistant", "second"),
    ];
    let chat = LanguageLogicUnit::chat_messages("third", &context).unwrap();
    let p = pairs(&chat);
    assert_eq!(p.len(), 4);
    assert_eq!(p[0].0, "system");
    assert_eq!(p[1], ("user".to_string(), "first".to_string()));
    assert_eq!(p[2], ("assistant".to_string(), "second".to_string()));
    assert_eq!(p[3], ("user".to_string(), "third".to_string()));
}

#[test]
fn chat_messages_reject_unknown_roles() {
    let context = vec![ContextMessage::new("robot", "x")];
    assert!(matches!(
        LanguageLogicUnit::chat_messages("q", &context),
        Err(Exception::LanguageLogic(_))
    ));
}

#[test]
fn reply_text_takes_the_first_choice() {
    let response = OpenAIChatCompletionResponse {
        model: "m".to_string(),
        choices: vec![
            OpenAIChatCompletionResponseChoice {
                index: 0,
                message: OpenAIChatCompletionResponseMessage {
                    role: "assistant".to_string(),
                    content: "  Hello\nworld \n".to_string(),
                },
            },
            OpenAIChatCompletionResponseChoice {
                index: 1,
                message: OpenAIChatCompletionResponseMessage {
                    role: "assistant".to_string(),
                    content: "other".to_string(),
                },
            },
        ],
    };
    assert_eq!(LanguageLogicUnit::reply_text(&response).unwrap(), "Helloworld");
}

#[test]
fn reply_text_without_choices_fails() {
    let response = OpenAIChatCompletionResponse {
        model: "m".to_string(),
        choices: vec![],
    };
    assert!(matches!(
        LanguageLogicUnit::reply_text(&response),
        Err(Exception::LanguageLogic(_))
    ));
}

#[test]
fn trim_response_removes_space_and_line_feeds() {
    assert_eq!(LanguageLogicUnit::trim_response("\t YES\n "), "YES");
    assert_eq!(LanguageLogicUnit::trim_response("a\nb\nc"), "abc");
    assert!(!LanguageLogicUnit::trim_response(" x \n\n y ").contains('\n'));
}

#[test]
fn best_similarity_match_is_the_largest() {
    assert_eq!(LanguageLogicUnit::best_similarity_match(&[]), 0);
    assert_eq!(LanguageLogicUnit::best_similarity_match(&[3, 91, 4]), 91);
    let scores = [12, 7, 44, 44, 0];
    let best = LanguageLogicUnit::best_similarity_match(&scores);
    assert!(scores.iter().all(|s| *s <= best));
    assert!(scores.contains(&best));
}

#[test]
fn boolean_verdict_compares_best_scores() {
    assert_eq!(LanguageLogicUnit::boolean_verdict(&[80, 20], &[40, 30]), 1);
    assert_eq!(LanguageLogicUnit::boolean_verdict(&[40, 20], &[40, 30]), 0);
    assert_eq!(LanguageLogicUnit::boolean_verdict(&[10], &[]), 1);
    assert_eq!(LanguageLogicUnit::boolean_verdict(&[0], &[]), 0);
}

#[test]
fn similarity_queries_lowercase_both_sides() {
    let candidates = vec!["YES".to_string(), "True".to_string()];
    let q = LanguageLogicUnit::similarity_queries("Yes, Indeed", &candidates);
    assert_eq!(
        q,
        vec![
            ("yes, indeed".to_string(), "yes".to_string()),
            ("yes, indeed".to_string(), "true".to_string()),
        ]
    );
}

#[test]
fn evaluation_prompt_appends_the_instruction() {
    assert_eq!(
        LanguageLogicUnit::evaluation_prompt("Is it?"),
        "Is it?\nAnswer with exactly one word: YES or NO, TRUE or FALSE.\n\nAnswer only:"
    );
}

#[test]
fn boolean_eval_params_words() {
    let p = BooleanEvalParams::for_model("embed");
    assert_eq!(p.true_values, vec!["YES".to_string(), "TRUE".to_string()]);
    assert_eq!(p.false_values, vec!["NO".to_string(), "FALSE".to_string()]);
    assert_eq!(p.embedding_model, "embed");
}

#[test]
fn embeddings_request_uses_float_encoding() {
    let config = ModelEmbeddingsConfig::default_for("qwen");
    assert_eq!(config.encoding_format, "float");
    let request = OpenAIEmbeddingsRequest::new("text", config);
    assert_eq!(request.model, "qwen");
    assert_eq!(request.input, "text");
    assert_eq!(request.encoding_format, "float");
}

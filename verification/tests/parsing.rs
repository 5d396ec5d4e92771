//! Backend-chunk parsing, retrieval decisions, and text utilities.

use dynamic_agent::clean::clean_response_text;
use dynamic_agent::json::{parse_json_tree, JsonVal};
use dynamic_agent::llm::{
    llm_type_from_str, ndjson_chunk, openai_chunk_outputs, parse_gemini_line, parse_llm_type,
    sse_line_payload, supports_native_streaming, LlmType,
};
use dynamic_agent::protocol::parse_client_message;
use dynamic_agent::rag::{
    clean_topic, count_answer, extract_field_term, format_documents_for_prompt, is_count_question,
    is_recency_question, is_recency_topic, needs_fallback, pick_latest, resolve_field_exact,
    schema_summary, IndexSchema, ScoredDocument,
};

#[test]
fn llm_type_parsing_is_case_insensitive() {
    assert!(matches!(parse_llm_type("OpenAI"), Ok(LlmType::OpenAI)));
    assert!(matches!(parse_llm_type("ollama"), Ok(LlmType::Ollama)));
    assert!(matches!(parse_llm_type("GROQ"), Ok(LlmType::Groq)));
    assert_eq!(parse_llm_type("carrier-pigeon").unwrap_err(), "Unsupported LLM type: carrier-pigeon");
    let e = llm_type_from_str("hal9000").unwrap_err();
    assert_eq!(e.message, "Invalid LLM type: 'hal9000'");
}

#[test]
fn only_backends_without_native_streams_use_the_fallback() {
    assert!(supports_native_streaming(LlmType::Ollama));
    assert!(supports_native_streaming(LlmType::OpenAI));
    assert!(supports_native_streaming(LlmType::Gemini));
    assert!(supports_native_streaming(LlmType::XAI));
    assert!(supports_native_streaming(LlmType::Groq));
    assert!(!supports_native_streaming(LlmType::Anthropic));
    assert!(!supports_native_streaming(LlmType::DeepSeek));
}

#[test]
fn sse_lines_are_framed() {
    assert_eq!(sse_line_payload("data: {\"a\":1}"), Some("{\"a\":1}".to_string()));
    assert_eq!(sse_line_payload("data: [DONE]"), None);
    assert_eq!(sse_line_payload(""), None);
    assert_eq!(sse_line_payload(": comment"), None);
}

#[test]
fn openai_chunks_yield_delta_contents_and_stop() {
    let chunk = parse_json_tree(
        r#"{"choices":[{"delta":{"content":"Hel"},"finish_reason":null},{"delta":{"content":"lo"},"finish_reason":"stop"}]}"#,
    )
    .unwrap();
    let (outputs, stop) = openai_chunk_outputs(&chunk);
    assert_eq!(outputs, vec!["Hel".to_string(), "lo".to_string()]);
    assert!(stop);

    let keep_going = parse_json_tree(r#"{"choices":[{"delta":{"content":"x"}}]}"#).unwrap();
    let (outputs, stop) = openai_chunk_outputs(&keep_going);
    assert_eq!(outputs, vec!["x".to_string()]);
    assert!(!stop);

    let empty_delta = parse_json_tree(r#"{"choices":[{"delta":{"content":""}}]}"#).unwrap();
    let (outputs, stop) = openai_chunk_outputs(&empty_delta);
    assert!(outputs.is_empty());
    assert!(!stop);
}

#[test]
fn ndjson_chunks_carry_response_and_done() {
    let t = parse_json_tree(r#"{"response":"to","done":false}"#).unwrap();
    assert_eq!(ndjson_chunk(&t), Some(("to".to_string(), false)));
    let done = parse_json_tree(r#"{"response":"","done":true}"#).unwrap();
    assert_eq!(ndjson_chunk(&done), Some(("".to_string(), true)));
    let malformed = parse_json_tree(r#"{"response":"x"}"#).unwrap();
    assert_eq!(ndjson_chunk(&malformed), None);
}

#[test]
fn gemini_lines_tolerate_array_framing() {
    assert_eq!(parse_gemini_line("["), None);
    assert_eq!(parse_gemini_line("]"), None);
    assert_eq!(parse_gemini_line(","), None);
    assert_eq!(parse_gemini_line("   "), None);
    let obj = r#"{"candidates":[{"content":{"parts":[{"text":"Hello"}]}}]}"#;
    assert_eq!(parse_gemini_line(obj), Some("Hello".to_string()));
    let with_comma = format!("{},", obj);
    assert_eq!(parse_gemini_line(&with_comma), Some("Hello".to_string()));
    assert_eq!(parse_gemini_line("  \"text\": \"Hi\"  "), Some("Hi".to_string()));
}

#[test]
fn json_documents_are_parsed_not_echoed() {
    // A round trip through the parser must yield structure, not the text.
    let t = parse_json_tree(r#"{"k":[true,null,"v"]}"#).unwrap();
    match t.get("k") {
        Some(JsonVal::Arr(items)) => {
            assert_eq!(items.len(), 3);
            assert!(matches!(items[0], JsonVal::Bool(true)));
            assert!(matches!(items[1], JsonVal::Null));
        }
        _ => panic!("expected an array"),
    }
    assert!(parse_json_tree("{nope").is_none());
}

#[test]
fn client_messages_parse_with_optional_capabilities() {
    let plain = parse_json_tree(r#"{"type":"chat","content":"X"}"#).unwrap();
    match parse_client_message(&plain) {
        Some(dynamic_agent::protocol::ClientMessage::Chat { content, capabilities }) => {
            assert_eq!(content, "X");
            assert!(capabilities.is_none());
        }
        None => panic!("expected a chat message"),
    }
    let thinking = parse_json_tree(
        r#"{"type":"chat","content":"X","capabilities":{"supports_thinking":true}}"#,
    )
    .unwrap();
    match parse_client_message(&thinking) {
        Some(dynamic_agent::protocol::ClientMessage::Chat { capabilities, .. }) => {
            assert!(capabilities.unwrap().supports_thinking);
        }
        None => panic!("expected a chat message"),
    }
    let wrong = parse_json_tree(r#"{"type":"ping"}"#).unwrap();
    assert!(parse_client_message(&wrong).is_none());
}

fn schemas() -> Vec<IndexSchema> {
    vec![
        IndexSchema { name: "projects".to_string(), fields: vec!["project_name".to_string(), "end_date".to_string()] },
        IndexSchema { name: "experience".to_string(), fields: vec!["title".to_string()] },
    ]
}

#[test]
fn literal_none_triggers_the_fallback_path() {
    assert!(needs_fallback("none", &schemas()));
    assert!(needs_fallback("", &schemas()));
    assert!(needs_fallback("unknown", &schemas()));
    assert!(!needs_fallback("projects", &schemas()));
}

#[test]
fn topic_cleanup_strips_whitespace_and_quotes() {
    assert_eq!(clean_topic("  \"Projects\"  "), "projects");
    assert_eq!(clean_topic("NONE"), "none");
}

#[test]
fn count_questions_shortcut_to_the_document_count() {
    assert!(is_count_question("how many projects?"));
    assert!(is_count_question("what is the total"));
    assert!(!is_count_question("tell me about projects"));
    assert_eq!(count_answer(42), "42");
    assert_eq!(count_answer(0), "0");
}

#[test]
fn schema_summaries_list_names_and_fields() {
    assert_eq!(
        schema_summary(&schemas()),
        "- projects: fields=project_name, end_date\n- experience: fields=title"
    );
}

#[test]
fn field_terms_drop_verbs_punctuation_and_from_clauses() {
    assert_eq!(extract_field_term("List projects from portfolio"), "projects");
    assert_eq!(extract_field_term("show skills!"), "skills");
    assert_eq!(extract_field_term("find"), "");
    assert_eq!(extract_field_term("what are the project names"), "names");
}

#[test]
fn exact_field_resolution_collapses_separators() {
    let fields = vec!["project_name".to_string(), "end_date".to_string()];
    assert_eq!(resolve_field_exact("list the project_name", &fields), Some(0));
    assert_eq!(resolve_field_exact("show projectname", &fields), Some(0));
    assert_eq!(resolve_field_exact("show something_else", &fields), None);
}

fn doc(id: &str, score: u32, fields: Option<Vec<(&str, &str)>>) -> ScoredDocument {
    ScoredDocument {
        score_scaled: score,
        id: id.to_string(),
        fields: fields.map(|fs| {
            fs.into_iter().map(|(k, v)| (k.to_string(), v.to_string())).collect()
        }),
    }
}

#[test]
fn recency_questions_keep_only_the_newest_hit() {
    assert!(is_recency_topic("experience"));
    assert!(!is_recency_topic("projects"));
    assert!(is_recency_question("what is your latest role?"));
    assert!(!is_recency_question("what roles have you had?"));
    let hits = vec![
        doc("d1", 9000, Some(vec![("end_date", "2020-01-01")])),
        doc("d2", 8000, Some(vec![("end_date", "2023-05-05")])),
        doc("d3", 7000, None),
    ];
    let kept = pick_latest(hits);
    assert_eq!(kept.len(), 1);
    assert_eq!(kept[0].id, "d2");
}

#[test]
fn documents_format_with_scores_and_printable_fields() {
    let hits = vec![doc(
        "d1",
        8234,
        Some(vec![("title", "X"), ("vector", "[0.1]"), ("pdf", "...")]),
    )];
    assert_eq!(
        format_documents_for_prompt(&hits),
        "Document ID: d1 (Score: 0.8234)\n  - title: X\n\n"
    );
    let empty: Vec<ScoredDocument> = Vec::new();
    assert_eq!(format_documents_for_prompt(&empty), "No relevant documents found.");
    let no_fields = vec![doc("d2", 10000, Some(vec![]))];
    assert_eq!(
        format_documents_for_prompt(&no_fields),
        "Document ID: d2 (Score: 1.0000)\n  - (No fields retrieved for this document)\n\n"
    );
    let invalid = vec![doc("d3", 123, None)];
    assert_eq!(
        format_documents_for_prompt(&invalid),
        "Document ID: d3 (Score: 0.0123)\n  - Document content is not a valid JSON object.\n\n"
    );
}

#[test]
fn cleanup_strips_markup_and_meta_commentary() {
    assert_eq!(clean_response_text("**Final Answer:** 42 "), "42");
    assert_eq!(clean_response_text("\\boxed{42}"), "42}");
    assert_eq!(clean_response_text("a\n\n\nb"), "a\n\nb");
    assert_eq!(
        clean_response_text("The user's input is a greeting\n\nHello!"),
        "Hello!"
    );
    // Text before the meta-commentary prefix is kept; only the prefix
    // through the blank line goes.
    assert_eq!(
        clean_response_text("Hi. In response to your question\n\nBye"),
        "Hi. Bye"
    );
    assert_eq!(clean_response_text("  plain  "), "plain");
}

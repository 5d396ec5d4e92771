//! The turn pipeline: cache behavior, prompt configuration, history, and
//! the control plane.

use dynamic_agent::agent::{general_prompt, resolve_action, Agent, TurnDispatch, TurnStart};
use dynamic_agent::cache::{
    normalize_prompt, semantic_hit, semantic_write_allowed, unwrap_cached_response, ExactTier,
};
use dynamic_agent::control::{leg_detail, reload_plan, reload_report, LegOutcome, ReloadRequest, ReloadSource};
use dynamic_agent::history::{
    dedup_by_id, format_history_for_prompt, merge_history, sort_by_timestamp, ChatMessage,
    Conversation,
};
use dynamic_agent::prompt::{load_prompts, PromptError, PromptStore};
use dynamic_agent::remote::{remote_fetch_decision, RemoteFetchOutcome};

const CONFIG_JSON: &str = r#"{
  "intents": {
    "greeting": {"description": "Say hi", "action": "general_llm_call"},
    "data_query": {"description": "Look data up", "action": "call_rag_tool"},
    "legacy": {"description": "An unwired action", "action": "do_magic"}
  },
  "query_templates": {
    "intent_classification": "Intents:\n{intent_descriptions}\nUser: {message}",
    "rag_topic_inference": "Schemas: {schema_json} Q: {user_question}",
    "rag_dynamic_query_generation": "unused",
    "fallback_topic_resolver": "Summary: {schema_summary} Q: {user_question}"
  },
  "response_templates": {
    "rag_final_answer": "S:{schema} T:{topic} D:{documents} Q:{user_question}"
  }
}"#;

#[test]
fn load_prompts_accepts_a_complete_configuration() {
    let config = load_prompts(CONFIG_JSON, 100).unwrap();
    assert_eq!(config.last_loaded, 100);
    assert_eq!(config.intents.len(), 3);
    assert_eq!(config.query_templates.len(), 4);
    assert_eq!(config.response_templates.len(), 1);
}

#[test]
fn load_prompts_rejects_a_missing_required_template() {
    let without_fallback = CONFIG_JSON.replace("fallback_topic_resolver", "other_name");
    match load_prompts(&without_fallback, 100) {
        Err(PromptError::TemplateNotFound(m)) => {
            assert_eq!(m, "query_templates:fallback_topic_resolver")
        }
        _ => panic!("expected the missing template to be reported"),
    }
}

#[test]
fn load_prompts_rejects_invalid_json() {
    assert!(matches!(
        load_prompts("{not json", 1),
        Err(PromptError::ParseError(_))
    ));
}

#[test]
fn intent_prompt_renders_catalogue_and_message() {
    let config = load_prompts(CONFIG_JSON, 1).unwrap();
    let p = dynamic_agent::prompt::get_intent_prompt(&config, "hello there").unwrap();
    assert_eq!(
        p,
        "Intents:\n- data_query: Look data up\n- greeting: Say hi\n- legacy: An unwired action\nUser: hello there"
    );
}

#[test]
fn rag_prompts_render_their_placeholders() {
    let config = load_prompts(CONFIG_JSON, 1).unwrap();
    let t = dynamic_agent::prompt::get_rag_topic_prompt(&config, "[sch]", "who?").unwrap();
    assert_eq!(t, "Schemas: [sch] Q: who?");
    let f = dynamic_agent::prompt::get_rag_final_prompt(&config, "S", "projects", "docs", "who?")
        .unwrap();
    assert_eq!(f, "S:S T:projects D:docs Q:who?");
    let fb = dynamic_agent::prompt::get_fallback_topic_prompt(&config, "- a: fields=x", "who?")
        .unwrap();
    assert_eq!(fb, "Summary: - a: fields=x Q: who?");
}

#[test]
fn prompt_store_reloads_strictly_increase_last_loaded() {
    let first = load_prompts(CONFIG_JSON, 10).unwrap();
    let mut store = PromptStore::new(first);
    assert!(store.needs_local_reload(11));
    assert!(!store.needs_local_reload(10));
    let second = load_prompts(CONFIG_JSON, 20).unwrap();
    store.apply_reload(second);
    assert_eq!(store.config.last_loaded, 20);
}

#[test]
fn cache_update_then_check_returns_the_value() {
    let mut tier = ExactTier::new();
    tier.update("hello world".to_string(), "hi!".to_string(), 60, 1000);
    assert_eq!(tier.check("hello world", 1030), Some("hi!".to_string()));
}

#[test]
fn cache_entry_expires_after_its_ttl() {
    let mut tier = ExactTier::new();
    tier.update("k".to_string(), "v".to_string(), 60, 1000);
    assert_eq!(tier.check("k", 1059), Some("v".to_string()));
    assert_eq!(tier.check("k", 1060), None);
}

#[test]
fn cache_entry_without_ttl_never_expires() {
    let mut tier = ExactTier::new();
    tier.update("k".to_string(), "v".to_string(), 0, 1000);
    assert_eq!(tier.check("k", i64::MAX - 1), Some("v".to_string()));
}

#[test]
fn newest_write_wins_in_the_exact_tier() {
    let mut tier = ExactTier::new();
    tier.update("k".to_string(), "old".to_string(), 0, 1000);
    tier.update("k".to_string(), "new".to_string(), 0, 1001);
    assert_eq!(tier.check("k", 1002), Some("new".to_string()));
}

#[test]
fn normalization_trims_and_lowercases() {
    assert_eq!(normalize_prompt("  Hello World  "), "hello world");
}

#[test]
fn semantic_threshold_boundary_is_a_hit_below_is_a_miss() {
    assert!(semantic_hit(5000, 5000));
    assert!(!semantic_hit(4999, 5000));
}

#[test]
fn semantic_writes_need_a_non_empty_embedding_of_the_right_dimension() {
    assert!(semantic_write_allowed(768, 768));
    assert!(!semantic_write_allowed(0, 768));
    assert!(!semantic_write_allowed(512, 768));
}

#[test]
fn legacy_envelope_payloads_are_unwrapped() {
    assert_eq!(
        unwrap_cached_response(r#"{"response":"the answer","thinking":"hidden"}"#),
        "the answer"
    );
    assert_eq!(unwrap_cached_response("a plain cached answer"), "a plain cached answer");
    assert_eq!(unwrap_cached_response("{malformed \"response\""), "{malformed \"response\"");
}

fn test_agent(enable_cache: bool) -> Agent {
    Agent {
        store: PromptStore::new(load_prompts(CONFIG_JSON, 1).unwrap()),
        cache: ExactTier::new(),
        enable_cache,
        cache_ttl: 60,
    }
}

#[test]
fn identical_messages_hit_the_cache_on_the_second_turn() {
    let mut agent = test_agent(true);
    match agent.begin_turn("Hello World", 1000).unwrap() {
        TurnStart::NeedIntent { .. } => {}
        _ => panic!("first turn must miss the cache"),
    }
    let wrote = agent.finish_turn("Hello World", "hi there!", 1000);
    assert!(wrote);
    // The second, identical message replays the cached response and never
    // reaches intent classification — no model call is issued.
    match agent.begin_turn("Hello World", 1010).unwrap() {
        TurnStart::CachedReply { response } => assert_eq!(response, "hi there!"),
        _ => panic!("second turn must hit the cache"),
    }
    // Normalization makes differently-spaced and differently-cased text the
    // same turn.
    match agent.begin_turn("  hello world ", 1010).unwrap() {
        TurnStart::CachedReply { response } => assert_eq!(response, "hi there!"),
        _ => panic!("normalized variant must hit the cache"),
    }
}

#[test]
fn empty_replies_are_never_cached() {
    let mut agent = test_agent(true);
    assert!(!agent.finish_turn("Hello", "", 1000));
    match agent.begin_turn("Hello", 1001).unwrap() {
        TurnStart::NeedIntent { .. } => {}
        _ => panic!("an empty reply must not populate the cache"),
    }
}

#[test]
fn disabled_cache_never_replays() {
    let mut agent = test_agent(false);
    assert!(!agent.finish_turn("Hello", "hi", 1000));
    match agent.begin_turn("Hello", 1001).unwrap() {
        TurnStart::NeedIntent { .. } => {}
        _ => panic!("with caching disabled every turn classifies"),
    }
}

#[test]
fn intents_dispatch_to_their_actions() {
    let config = load_prompts(CONFIG_JSON, 1).unwrap();
    assert!(matches!(
        resolve_action(&config, " data_query \n"),
        Ok(TurnDispatch::CallRagTool)
    ));
    assert!(matches!(
        resolve_action(&config, "greeting"),
        Ok(TurnDispatch::GeneralLlmCall)
    ));
    match resolve_action(&config, "nonsense") {
        Err(PromptError::IntentNotFound(m)) => assert_eq!(m, "nonsense"),
        _ => panic!("unknown intents abort the turn"),
    }
    match resolve_action(&config, "legacy") {
        Err(PromptError::ActionError(m)) => {
            assert_eq!(m, "Action 'do_magic' is not implemented.")
        }
        _ => panic!("unknown actions abort the turn"),
    }
}

#[test]
fn general_prompt_appends_the_message_after_the_history() {
    assert_eq!(
        general_prompt("Previous conversation:\nUser: a\n", "b"),
        "Previous conversation:\nUser: a\n\n\nUser: b"
    );
}

fn msg(role: &str, content: &str, ts: i64) -> ChatMessage {
    ChatMessage { role: role.to_string(), content: content.to_string(), timestamp: ts }
}

#[test]
fn history_formats_the_exact_prompt_block() {
    let conv = Conversation {
        id: "c1".to_string(),
        messages: vec![msg("user", "hi", 1), msg("assistant", "hello", 2), msg("tool", "x", 3)],
    };
    assert_eq!(
        format_history_for_prompt(&conv),
        "Previous conversation:\nUser: hi\nAssistant: hello\ntool: x\n"
    );
    let empty = Conversation { id: "c2".to_string(), messages: Vec::new() };
    assert_eq!(format_history_for_prompt(&empty), "");
}

#[test]
fn history_sorting_is_non_decreasing() {
    let sorted = sort_by_timestamp(vec![msg("user", "c", 30), msg("user", "a", 10), msg("user", "b", 20)]);
    let times: Vec<i64> = sorted.iter().map(|m| m.timestamp).collect();
    assert_eq!(times, vec![10, 20, 30]);
}

#[test]
fn merged_history_deduplicates_sorts_and_truncates() {
    let recency = vec![("p1".to_string(), msg("assistant", "newest", 50))];
    let semantic = vec![
        ("p1".to_string(), msg("assistant", "duplicate", 50)),
        ("p2".to_string(), msg("user", "older", 10)),
        ("p3".to_string(), msg("user", "middle", 30)),
    ];
    let conv = merge_history("c1".to_string(), recency, semantic, 10);
    let contents: Vec<&str> = conv.messages.iter().map(|m| m.content.as_str()).collect();
    assert_eq!(contents, vec!["older", "middle", "newest"]);
    let times: Vec<i64> = conv.messages.iter().map(|m| m.timestamp).collect();
    assert!(times.windows(2).all(|w| w[0] <= w[1]));

    let recency = vec![("p1".to_string(), msg("assistant", "newest", 50))];
    let semantic = vec![("p2".to_string(), msg("user", "older", 10))];
    let conv = merge_history("c1".to_string(), recency, semantic, 1);
    let contents: Vec<&str> = conv.messages.iter().map(|m| m.content.as_str()).collect();
    assert_eq!(contents, vec!["newest"]);
}

#[test]
fn dedup_keeps_the_first_occurrence_of_an_id() {
    let out = dedup_by_id(vec![
        ("a".to_string(), msg("user", "first", 1)),
        ("b".to_string(), msg("user", "second", 2)),
        ("a".to_string(), msg("user", "third", 3)),
    ]);
    let contents: Vec<&str> = out.iter().map(|p| p.1.content.as_str()).collect();
    assert_eq!(contents, vec!["first", "second"]);
}

#[test]
fn reload_plan_selects_the_requested_legs() {
    assert!(matches!(
        reload_plan(&ReloadRequest { source: Some("local".to_string()) }),
        ReloadSource::Local
    ));
    assert!(matches!(
        reload_plan(&ReloadRequest { source: Some("remote".to_string()) }),
        ReloadSource::Remote
    ));
    assert!(matches!(
        reload_plan(&ReloadRequest { source: Some("both".to_string()) }),
        ReloadSource::Both
    ));
    assert!(matches!(reload_plan(&ReloadRequest { source: None }), ReloadSource::Local));
}

#[test]
fn remote_not_modified_yields_an_unchanged_report() {
    let outcome = remote_fetch_decision(304, "");
    assert!(matches!(outcome, RemoteFetchOutcome::NotModified));
    let detail = leg_detail(true, &LegOutcome::Unchanged);
    assert_eq!(detail, "Remote unchanged");
    let report = reload_report(vec![detail], true);
    assert!(report.success);
    assert_eq!(report.message, "Reload complete");
    assert_eq!(report.details, vec!["Remote unchanged".to_string()]);
}

#[test]
fn remote_fetch_extracts_the_configuration_text() {
    let body = r#"{"parameters":{"prompts":{"defaultValue":{"value":"{\"x\":1}"}}}}"#;
    match remote_fetch_decision(200, body) {
        RemoteFetchOutcome::NewConfig(s) => assert_eq!(s, "{\"x\":1}"),
        _ => panic!("expected a new configuration"),
    }
    match remote_fetch_decision(200, "{}") {
        RemoteFetchOutcome::Failed(m) => {
            assert_eq!(m, "Missing parameters.prompts.defaultValue.value in remoteConfig")
        }
        _ => panic!("expected a failure"),
    }
    match remote_fetch_decision(503, "overloaded") {
        RemoteFetchOutcome::Failed(m) => assert_eq!(m, "Unexpected status 503: overloaded"),
        _ => panic!("expected a failure"),
    }
}

#[test]
fn failed_legs_make_the_report_unsuccessful() {
    let detail = leg_detail(false, &LegOutcome::Error("boom".to_string()));
    assert_eq!(detail, "Local error: boom");
    let report = reload_report(vec![detail], false);
    assert!(!report.success);
    assert_eq!(report.message, "Reload errors");
}

#[test]
fn stored_list_entries_decode_newest_first_and_reverse() {
    let entries: Vec<dynamic_agent::json::JsonVal> = [
        r#"{"role":"assistant","content":"second","timestamp":20}"#,
        r#"{"role":"user","content":"first","timestamp":10}"#,
        r#"not even json-shaped"#,
    ]
    .iter()
    .filter_map(|t| dynamic_agent::json::parse_json_tree(t))
    .collect();
    // The malformed third entry fails to parse at all; add one well-formed
    // JSON document that is not a stored message, which must be skipped.
    let mut entries = entries;
    entries.push(dynamic_agent::json::parse_json_tree(r#"{"role":"user"}"#).unwrap());
    entries.push(
        dynamic_agent::json::parse_json_tree(
            r#"{"role":"user","content":"ancient","timestamp":-5}"#,
        )
        .unwrap(),
    );
    let conv = dynamic_agent::history::conversation_from_list("c9".to_string(), &entries);
    let contents: Vec<&str> = conv.messages.iter().map(|m| m.content.as_str()).collect();
    assert_eq!(contents, vec!["ancient", "first", "second"]);
    assert_eq!(conv.messages[0].timestamp, -5);
    assert_eq!(conv.messages[1].timestamp, 10);
    assert_eq!(conv.id, "c9");
}

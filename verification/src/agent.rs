//! The per-turn request pipeline.
//!
//! A turn runs cache lookup, intent classification, dispatch to retrieval or
//! a plain completion, cache population and history append. The backends —
//! the model, the embedder, the stores behind the cache — are driven from
//! outside; the agent holds the verified state and decides each step: what
//! the cache answers, which prompt is sent, which action an intent selects,
//! and what a finished turn writes back.

use vstd::prelude::*;

verus! {

use crate::cache::{ExactTier, exact_lookup, normalized_of, unwrap_envelope_spec, spec_expiry};
use crate::prompt::{
    PromptStore, PromptConfig, PromptError, intent_lookup, intents_view, tpl_lookup, pairs_view,
    intent_desc_lines,
};
use crate::text::{trim_of, replace_seq};

/// The verified per-process agent state: the prompt snapshot and the logical
/// content of the exact cache tier.
pub struct Agent {
    pub store: PromptStore,
    pub cache: ExactTier,
    pub enable_cache: bool,
    pub cache_ttl: u32,
}

/// How a turn starts: replayed from the cache, or classified first.
pub enum TurnStart {
    /// The exact tier held the normalized prompt: the stored response is
    /// delivered and no model is called this turn.
    CachedReply { response: String },
    /// A cache miss: the intent-classification prompt to complete next.
    NeedIntent { intent_prompt: String },
}

/// Which pipeline an intent dispatches to.
pub enum TurnDispatch {
    /// Retrieval-augmented answering.
    CallRagTool,
    /// A plain completion over the conversation history.
    GeneralLlmCall,
}

impl Agent {
    /// Starts a turn for a user message at time `now`. With caching enabled,
    /// an exact-tier hit on the normalized message replays the stored
    /// response (a legacy envelope unwrapped) and nothing else happens; on a
    /// miss the intent-classification prompt is rendered from the current
    /// snapshot.
    pub fn begin_turn(&self, message: &str, now: i64) -> (r: Result<TurnStart, PromptError>)
        ensures
            ({
                let key = normalized_of(message@);
                let hit = self.enable_cache && exact_lookup(
                    self.cache.entries@,
                    key,
                    now as int,
                ) is Some;
                if hit {
                    r matches Ok(TurnStart::CachedReply { response }) && Some(response@)
                        == match exact_lookup(self.cache.entries@, key, now as int) {
                        Some(v) => Some(unwrap_envelope_spec(v)),
                        None => None,
                    }
                } else {
                    match tpl_lookup(
                        pairs_view(self.store.config.query_templates@),
                        "intent_classification"@,
                    ) {
                        Some(t) => r matches Ok(TurnStart::NeedIntent { intent_prompt })
                            && intent_prompt@ == replace_seq(
                            replace_seq(
                                t,
                                "{intent_descriptions}"@,
                                intent_desc_lines(intents_view(self.store.config.intents@), 0),
                            ),
                            "{message}"@,
                            message@,
                        ),
                        None => r matches Err(PromptError::TemplateNotFound(m)) && m@
                            == "query_templates:intent_classification"@,
                    }
                }
            }),
    {
        let normalized = crate::cache::normalize_prompt(message);
        if self.enable_cache {
            match self.cache.check(normalized.as_str(), now) {
                Some(value) => {
                    let response = crate::cache::unwrap_cached_response(value.as_str());
                    return Ok(TurnStart::CachedReply { response });
                },
                None => {},
            }
        }
        match crate::prompt::get_intent_prompt(&self.store.config, message) {
            Ok(intent_prompt) => Ok(TurnStart::NeedIntent { intent_prompt }),
            Err(e) => Err(e),
        }
    }

    /// Ends a turn: with caching enabled and a non-empty reply, exactly one
    /// entry is prepended to the exact tier — the normalized message, this
    /// reply, and its expiry — and every other entry is preserved; until the
    /// new entry expires a lookup of the same normalized message returns
    /// exactly this reply. An empty reply, or caching disabled, writes
    /// nothing.
    pub fn finish_turn(&mut self, message: &str, reply: &str, now: i64) -> (wrote: bool)
        ensures
            wrote == (old(self).enable_cache && reply@.len() > 0),
            final(self).store == old(self).store,
            final(self).enable_cache == old(self).enable_cache,
            final(self).cache_ttl == old(self).cache_ttl,
            !wrote ==> final(self).cache == old(self).cache,
            wrote ==> ({
                let entries = final(self).cache.entries@;
                &&& entries.len() == old(self).cache.entries@.len() + 1
                &&& entries.skip(1) == old(self).cache.entries@
                &&& entries[0].0@ == normalized_of(message@)
                &&& entries[0].1@ == reply@
                &&& entries[0].2 == spec_expiry(now as int, old(self).cache_ttl as int)
            }),
            wrote ==> forall|t: int|
                (old(self).cache_ttl == 0 || t < spec_expiry(
                    now as int,
                    old(self).cache_ttl as int,
                )) ==> exact_lookup(final(self).cache.entries@, normalized_of(message@), t)
                    == Some(reply@),
    {
        let ghost entries_pre = self.cache.entries@;
        let normalized = crate::cache::normalize_prompt(message);
        if crate::cache::should_cache(self.enable_cache, reply) {
            self.cache.update(normalized, String::from_str(reply), self.cache_ttl, now);
            proof {
                assert(self.cache.entries@.skip(1) =~= entries_pre);
            }
            true
        } else {
            false
        }
    }
}

/// Resolves the classifier's completion to a dispatch: the response is
/// trimmed and looked up in the intent table; an unknown intent or an
/// unimplemented action aborts the turn.
pub fn resolve_action(config: &PromptConfig, intent_response: &str) -> (r: Result<
    TurnDispatch,
    PromptError,
>)
    ensures
        ({
            let name = trim_of(intent_response@);
            match intent_lookup(intents_view(config.intents@), name) {
                None => r matches Err(PromptError::IntentNotFound(m)) && m@ == name,
                Some(iv) => {
                    if iv.1 == "call_rag_tool"@ {
                        r matches Ok(TurnDispatch::CallRagTool)
                    } else if iv.1 == "general_llm_call"@ {
                        r matches Ok(TurnDispatch::GeneralLlmCall)
                    } else {
                        r matches Err(PromptError::ActionError(m)) && m@ == "Action '"@ + iv.1
                            + "' is not implemented."@
                    }
                },
            }
        }),
{
    let name = crate::text::trim_str(intent_response);
    match config.get_intent(name.as_str()) {
        None => Err(PromptError::IntentNotFound(name)),
        Some(def) => {
            if crate::text::str_eq(def.action.as_str(), "call_rag_tool") {
                Ok(TurnDispatch::CallRagTool)
            } else if crate::text::str_eq(def.action.as_str(), "general_llm_call") {
                Ok(TurnDispatch::GeneralLlmCall)
            } else {
                let mut m = String::from_str("Action '");
                m.append(def.action.as_str());
                m.append("' is not implemented.");
                Err(PromptError::ActionError(m))
            }
        },
    }
}

/// Renders the prompt of a plain completion: the history block, a blank
/// line, and the user message.
pub fn general_prompt(history_block: &str, message: &str) -> (r: String)
    ensures
        r@ == history_block@ + "\n\nUser: "@ + message@,
{
    let mut r = String::from_str(history_block);
    r.append("\n\nUser: ");
    r.append(message);
    r
}

/// Two identical chat messages replay the same response: the write a
/// finished turn makes under its normalized message is exactly what the
/// exact tier answers for any message with the same normalized form, until
/// the entry expires — so the second turn starts as a cached replay and no
/// model is called for it.
pub proof fn lemma_second_turn_replays(
    entries: Seq<(String, String, i64)>,
    key: String,
    value: String,
    expiry: i64,
    m2: Seq<char>,
    t: int,
)
    requires
        normalized_of(m2) == key@,
        expiry == 0 || t < expiry,
    ensures
        exact_lookup(entries.insert(0, (key, value, expiry)), normalized_of(m2), t) == Some(
            value@,
        ),
{
    let updated = entries.insert(0, (key, value, expiry));
    assert(updated =~= seq![(key, value, expiry)] + entries);
    assert(updated[0] == (key, value, expiry));
}

} // verus!

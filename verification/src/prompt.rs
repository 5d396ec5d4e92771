//! The hot-reloadable prompt configuration.
//!
//! A configuration holds three mappings — intents, query templates and
//! response templates — plus a monotonic load timestamp. It is immutable
//! once constructed and replaced wholesale on reload. A configuration
//! missing a required template key is rejected at load time.

use vstd::prelude::*;

verus! {

use crate::json::{JsonVal, obj_lookup, json_tree_of};
use crate::text::replace_seq;

/// One intent the classifier may pick: a description shown to the model and
/// the action the agent runs when the intent is chosen.
pub struct IntentDefinition {
    pub description: String,
    pub action: String,
}

/// An error of the prompt layer.
#[derive(Debug)]
pub enum PromptError {
    /// A required or requested template key is absent.
    TemplateNotFound(String),
    /// The classifier produced an intent name the configuration lacks.
    IntentNotFound(String),
    /// An intent names an action the agent does not implement.
    ActionError(String),
    /// The configuration text is not valid JSON of the expected shape.
    ParseError(String),
    /// A remote-configuration setting is absent.
    MissingRemoteConfigField(String),
    /// The remote configuration service failed.
    RemoteFetchError(String),
}

/// The active prompt configuration.
pub struct PromptConfig {
    pub intents: Vec<(String, IntentDefinition)>,
    pub query_templates: Vec<(String, String)>,
    pub response_templates: Vec<(String, String)>,
    /// When this snapshot was loaded, in epoch seconds; strictly increases
    /// across successful reloads.
    pub last_loaded: i64,
}

/// The texts of a template list: each pair as the views of its key and value.
pub open spec fn pairs_view(s: Seq<(String, String)>) -> Seq<(Seq<char>, Seq<char>)> {
    s.map(|i: int, p: (String, String)| (p.0@, p.1@))
}

/// The texts of an intent list: each name with its description and action.
pub open spec fn intents_view(s: Seq<(String, IntentDefinition)>) -> Seq<
    (Seq<char>, (Seq<char>, Seq<char>)),
> {
    s.map(|i: int, p: (String, IntentDefinition)| (p.0@, (p.1.description@, p.1.action@)))
}

/// The value under a key in a template list: the first entry that matches.
pub open spec fn tpl_lookup(m: Seq<(Seq<char>, Seq<char>)>, k: Seq<char>) -> Option<Seq<char>>
    decreases m.len(),
{
    if m.len() == 0 {
        None
    } else if m[0].0 == k {
        Some(m[0].1)
    } else {
        tpl_lookup(m.skip(1), k)
    }
}

/// The intent under a name: the first entry that matches.
pub open spec fn intent_lookup(
    m: Seq<(Seq<char>, (Seq<char>, Seq<char>))>,
    k: Seq<char>,
) -> Option<(Seq<char>, Seq<char>)>
    decreases m.len(),
{
    if m.len() == 0 {
        None
    } else if m[0].0 == k {
        Some(m[0].1)
    } else {
        intent_lookup(m.skip(1), k)
    }
}

/// What an object of string values denotes: its entries in order, or nothing
/// when some value is not a string.
pub open spec fn str_entries(o: Seq<(String, JsonVal)>) -> Option<Seq<(Seq<char>, Seq<char>)>>
    decreases o.len(),
{
    if o.len() == 0 {
        Some(Seq::empty())
    } else {
        match o[0].1 {
            JsonVal::Str(s) => match str_entries(o.skip(1)) {
                Some(rest) => Some(seq![(o[0].0@, s@)] + rest),
                None => None,
            },
            _ => None,
        }
    }
}

/// What one intent object denotes: its description and action texts, or
/// nothing when either field is absent or not a string.
pub open spec fn intent_of(v: JsonVal) -> Option<(Seq<char>, Seq<char>)> {
    match v {
        JsonVal::Obj(e) => match (obj_lookup(e@, "description"@), obj_lookup(e@, "action"@)) {
            (Some(JsonVal::Str(d)), Some(JsonVal::Str(a))) => Some((d@, a@)),
            _ => None,
        },
        _ => None,
    }
}

/// What an intents object denotes: each name with its intent, or nothing
/// when some entry is malformed.
pub open spec fn intent_entries(o: Seq<(String, JsonVal)>) -> Option<
    Seq<(Seq<char>, (Seq<char>, Seq<char>))>,
>
    decreases o.len(),
{
    if o.len() == 0 {
        Some(Seq::empty())
    } else {
        match intent_of(o[0].1) {
            Some(iv) => match intent_entries(o.skip(1)) {
                Some(rest) => Some(seq![(o[0].0@, iv)] + rest),
                None => None,
            },
            None => None,
        }
    }
}

/// The intents table a configuration document carries, if well shaped.
pub open spec fn tree_intents(t: JsonVal) -> Option<Seq<(Seq<char>, (Seq<char>, Seq<char>))>> {
    match t {
        JsonVal::Obj(o) => match obj_lookup(o@, "intents"@) {
            Some(JsonVal::Obj(io)) => intent_entries(io@),
            _ => None,
        },
        _ => None,
    }
}

/// A template table a configuration document carries under `key`, if well
/// shaped.
pub open spec fn tree_templates(t: JsonVal, key: Seq<char>) -> Option<
    Seq<(Seq<char>, Seq<char>)>,
> {
    match t {
        JsonVal::Obj(o) => match obj_lookup(o@, key) {
            Some(JsonVal::Obj(to)) => str_entries(to@),
            _ => None,
        },
        _ => None,
    }
}

/// True when every required template key is present: four query templates
/// and one response template.
pub open spec fn required_ok(
    qt: Seq<(Seq<char>, Seq<char>)>,
    rt: Seq<(Seq<char>, Seq<char>)>,
) -> bool {
    &&& tpl_lookup(qt, "intent_classification"@) is Some
    &&& tpl_lookup(qt, "rag_topic_inference"@) is Some
    &&& tpl_lookup(qt, "rag_dynamic_query_generation"@) is Some
    &&& tpl_lookup(qt, "fallback_topic_resolver"@) is Some
    &&& tpl_lookup(rt, "rag_final_answer"@) is Some
}

/// The message naming the first missing required template key.
pub open spec fn first_missing(
    qt: Seq<(Seq<char>, Seq<char>)>,
    rt: Seq<(Seq<char>, Seq<char>)>,
) -> Seq<char> {
    if tpl_lookup(qt, "intent_classification"@) is None {
        "query_templates:intent_classification"@
    } else if tpl_lookup(qt, "rag_topic_inference"@) is None {
        "query_templates:rag_topic_inference"@
    } else if tpl_lookup(qt, "rag_dynamic_query_generation"@) is None {
        "query_templates:rag_dynamic_query_generation"@
    } else if tpl_lookup(qt, "fallback_topic_resolver"@) is None {
        "query_templates:fallback_topic_resolver"@
    } else {
        "response_templates:rag_final_answer"@
    }
}

fn lookup_pair<'a>(v: &'a Vec<(String, String)>, key: &str, i: usize) -> (r: Option<&'a String>)
    requires
        i <= v@.len(),
    ensures
        match r {
            Some(s) => tpl_lookup(pairs_view(v@).skip(i as int), key@) == Some(s@),
            None => tpl_lookup(pairs_view(v@).skip(i as int), key@) is None,
        },
    decreases v@.len() - i,
{
    proof {
        assert(pairs_view(v@).skip(i as int) =~= pairs_view(v@.skip(i as int)));
    }
    if i >= v.len() {
        proof {
            assert(pairs_view(v@).skip(i as int) =~= Seq::<(Seq<char>, Seq<char>)>::empty());
        }
        return None;
    }
    proof {
        let m = pairs_view(v@).skip(i as int);
        assert(m[0] == (v@[i as int].0@, v@[i as int].1@));
        assert(m.skip(1) =~= pairs_view(v@).skip(i as int + 1));
    }
    let pair = &v[i];
    if crate::text::str_eq(pair.0.as_str(), key) {
        Some(&pair.1)
    } else {
        lookup_pair(v, key, i + 1)
    }
}

/// Looks a template up by key.
pub fn lookup_template<'a>(v: &'a Vec<(String, String)>, key: &str) -> (r: Option<&'a String>)
    ensures
        match r {
            Some(s) => tpl_lookup(pairs_view(v@), key@) == Some(s@),
            None => tpl_lookup(pairs_view(v@), key@) is None,
        },
{
    proof {
        assert(pairs_view(v@).skip(0) =~= pairs_view(v@));
    }
    lookup_pair(v, key, 0)
}

fn lookup_intent_from<'a>(v: &'a Vec<(String, IntentDefinition)>, key: &str, i: usize) -> (r:
    Option<&'a IntentDefinition>)
    requires
        i <= v@.len(),
    ensures
        match r {
            Some(d) => intent_lookup(intents_view(v@).skip(i as int), key@) == Some(
                (d.description@, d.action@),
            ),
            None => intent_lookup(intents_view(v@).skip(i as int), key@) is None,
        },
    decreases v@.len() - i,
{
    if i >= v.len() {
        proof {
            assert(intents_view(v@).skip(i as int) =~= Seq::<
                (Seq<char>, (Seq<char>, Seq<char>)),
            >::empty());
        }
        return None;
    }
    proof {
        let m = intents_view(v@).skip(i as int);
        assert(m[0] == (v@[i as int].0@, (v@[i as int].1.description@, v@[i as int].1.action@)));
        assert(m.skip(1) =~= intents_view(v@).skip(i as int + 1));
    }
    let pair = &v[i];
    if crate::text::str_eq(pair.0.as_str(), key) {
        Some(&pair.1)
    } else {
        lookup_intent_from(v, key, i + 1)
    }
}

impl PromptConfig {
    /// Looks an intent up by name.
    pub fn get_intent<'a>(&'a self, name: &str) -> (r: Option<&'a IntentDefinition>)
        ensures
            match r {
                Some(d) => intent_lookup(intents_view(self.intents@), name@) == Some(
                    (d.description@, d.action@),
                ),
                None => intent_lookup(intents_view(self.intents@), name@) is None,
            },
    {
        proof {
            assert(intents_view(self.intents@).skip(0) =~= intents_view(self.intents@));
        }
        lookup_intent_from(&self.intents, name, 0)
    }

    /// Checks that every required template key is present; on failure the
    /// error names the first missing one.
    pub fn _validate(&self) -> (r: Result<(), PromptError>)
        ensures
            ({
                let qt = pairs_view(self.query_templates@);
                let rt = pairs_view(self.response_templates@);
                match r {
                    Ok(_) => required_ok(qt, rt),
                    Err(e) => !required_ok(qt, rt) && (e matches PromptError::TemplateNotFound(m)
                        && m@ == first_missing(qt, rt)),
                }
            }),
    {
        if lookup_template(&self.query_templates, "intent_classification").is_none() {
            return Err(
                PromptError::TemplateNotFound(
                    String::from_str("query_templates:intent_classification"),
                ),
            );
        }
        if lookup_template(&self.query_templates, "rag_topic_inference").is_none() {
            return Err(
                PromptError::TemplateNotFound(
                    String::from_str("query_templates:rag_topic_inference"),
                ),
            );
        }
        if lookup_template(&self.query_templates, "rag_dynamic_query_generation").is_none() {
            return Err(
                PromptError::TemplateNotFound(
                    String::from_str("query_templates:rag_dynamic_query_generation"),
                ),
            );
        }
        if lookup_template(&self.query_templates, "fallback_topic_resolver").is_none() {
            return Err(
                PromptError::TemplateNotFound(
                    String::from_str("query_templates:fallback_topic_resolver"),
                ),
            );
        }
        if lookup_template(&self.response_templates, "rag_final_answer").is_none() {
            return Err(
                PromptError::TemplateNotFound(
                    String::from_str("response_templates:rag_final_answer"),
                ),
            );
        }
        Ok(())
    }
}

fn extract_str_entries(o: &Vec<(String, JsonVal)>, i: usize) -> (r: Option<Vec<(String, String)>>)
    requires
        i <= o@.len(),
    ensures
        match r {
            Some(v) => str_entries(o@.skip(i as int)) == Some(pairs_view(v@)),
            None => str_entries(o@.skip(i as int)) is None,
        },
    decreases o@.len() - i,
{
    if i >= o.len() {
        let v: Vec<(String, String)> = Vec::new();
        proof {
            assert(o@.skip(i as int) =~= Seq::<(String, JsonVal)>::empty());
            assert(pairs_view(v@) =~= Seq::<(Seq<char>, Seq<char>)>::empty());
        }
        return Some(v);
    }
    proof {
        assert(o@.skip(i as int)[0] == o@[i as int]);
        assert(o@.skip(i as int).skip(1) =~= o@.skip(i as int + 1));
    }
    let pair = &o[i];
    match &pair.1 {
        JsonVal::Str(s) => {
            match extract_str_entries(o, i + 1) {
                Some(mut rest) => {
                    let ghost rest_pre = rest@;
                    rest.insert(0, (pair.0.clone(), s.clone()));
                    proof {
                        assert(pairs_view(rest@) =~= seq![(o@[i as int].0@, s@)] + pairs_view(
                            rest_pre,
                        ));
                    }
                    Some(rest)
                },
                None => None,
            }
        },
        _ => None,
    }
}

fn extract_intent_entries(o: &Vec<(String, JsonVal)>, i: usize) -> (r: Option<
    Vec<(String, IntentDefinition)>,
>)
    requires
        i <= o@.len(),
    ensures
        match r {
            Some(v) => intent_entries(o@.skip(i as int)) == Some(intents_view(v@)),
            None => intent_entries(o@.skip(i as int)) is None,
        },
    decreases o@.len() - i,
{
    if i >= o.len() {
        let v: Vec<(String, IntentDefinition)> = Vec::new();
        proof {
            assert(o@.skip(i as int) =~= Seq::<(String, JsonVal)>::empty());
            assert(intents_view(v@) =~= Seq::<(Seq<char>, (Seq<char>, Seq<char>))>::empty());
        }
        return Some(v);
    }
    proof {
        assert(o@.skip(i as int)[0] == o@[i as int]);
        assert(o@.skip(i as int).skip(1) =~= o@.skip(i as int + 1));
    }
    let pair = &o[i];
    let (d, a) = match &pair.1 {
        JsonVal::Obj(entries) => {
            let d = match pair.1.get("description") {
                Some(v) => match v.as_str() {
                    Some(s) => s.clone(),
                    None => {
                        return None;
                    },
                },
                None => {
                    return None;
                },
            };
            let a = match pair.1.get("action") {
                Some(v) => match v.as_str() {
                    Some(s) => s.clone(),
                    None => {
                        return None;
                    },
                },
                None => {
                    return None;
                },
            };
            (d, a)
        },
        _ => {
            return None;
        },
    };
    match extract_intent_entries(o, i + 1) {
        Some(mut rest) => {
            let ghost rest_pre = rest@;
            let ghost dd = d@;
            let ghost aa = a@;
            rest.insert(0, (pair.0.clone(), IntentDefinition { description: d, action: a }));
            proof {
                assert(intents_view(rest@) =~= seq![(o@[i as int].0@, (dd, aa))] + intents_view(
                    rest_pre,
                ));
            }
            Some(rest)
        },
        None => None,
    }
}

/// Parses and validates a prompt configuration from its JSON text. The new
/// snapshot carries `now` as its load timestamp. The text must be a JSON
/// object with `intents`, `query_templates` and `response_templates`
/// objects, and every required template key must be present.
pub fn load_prompts(json_str: &str, now: i64) -> (r: Result<PromptConfig, PromptError>)
    ensures
        match json_tree_of(json_str@) {
            None => r matches Err(PromptError::ParseError(_)),
            Some(t) => match (
                tree_intents(t),
                tree_templates(t, "query_templates"@),
                tree_templates(t, "response_templates"@),
            ) {
                (Some(iv), Some(qt), Some(rt)) => {
                    if required_ok(qt, rt) {
                        r matches Ok(c) && intents_view(c.intents@) == iv && pairs_view(
                            c.query_templates@,
                        ) == qt && pairs_view(c.response_templates@) == rt && c.last_loaded == now
                    } else {
                        r matches Err(PromptError::TemplateNotFound(m)) && m@ == first_missing(
                            qt,
                            rt,
                        )
                    }
                },
                _ => r matches Err(PromptError::ParseError(_)),
            },
        },
{
    let tree = match crate::json::parse_json_tree(json_str) {
        Some(t) => t,
        None => {
            return Err(PromptError::ParseError(String::from_str("invalid JSON")));
        },
    };
    let intents = match tree.get("intents") {
        Some(v) => match v {
            JsonVal::Obj(io) => {
                proof {
                    assert(io@.skip(0) =~= io@);
                }
                match extract_intent_entries(io, 0) {
                    Some(entries) => entries,
                    None => {
                        return Err(PromptError::ParseError(String::from_str("malformed intents")));
                    },
                }
            },
            _ => {
                return Err(PromptError::ParseError(String::from_str("malformed intents")));
            },
        },
        None => {
            return Err(PromptError::ParseError(String::from_str("missing intents")));
        },
    };
    let query_templates = match tree.get("query_templates") {
        Some(v) => match v {
            JsonVal::Obj(to) => {
                proof {
                    assert(to@.skip(0) =~= to@);
                }
                match extract_str_entries(to, 0) {
                    Some(entries) => entries,
                    None => {
                        return Err(
                            PromptError::ParseError(String::from_str("malformed query_templates")),
                        );
                    },
                }
            },
            _ => {
                return Err(
                    PromptError::ParseError(String::from_str("malformed query_templates")),
                );
            },
        },
        None => {
            return Err(PromptError::ParseError(String::from_str("missing query_templates")));
        },
    };
    let response_templates = match tree.get("response_templates") {
        Some(v) => match v {
            JsonVal::Obj(to) => {
                proof {
                    assert(to@.skip(0) =~= to@);
                }
                match extract_str_entries(to, 0) {
                    Some(entries) => entries,
                    None => {
                        return Err(
                            PromptError::ParseError(
                                String::from_str("malformed response_templates"),
                            ),
                        );
                    },
                }
            },
            _ => {
                return Err(
                    PromptError::ParseError(String::from_str("malformed response_templates")),
                );
            },
        },
        None => {
            return Err(PromptError::ParseError(String::from_str("missing response_templates")));
        },
    };
    let config = PromptConfig { intents, query_templates, response_templates, last_loaded: now };
    match config._validate() {
        Ok(_) => Ok(config),
        Err(e) => Err(e),
    }
}

/// One line of the intent catalogue shown to the classifier.
pub open spec fn intent_desc_line(p: (Seq<char>, (Seq<char>, Seq<char>))) -> Seq<char> {
    "- "@ + p.0 + ": "@ + p.1.0
}

/// The intent catalogue from index `i` on, one line per intent, joined by
/// newlines.
pub open spec fn intent_desc_lines(
    m: Seq<(Seq<char>, (Seq<char>, Seq<char>))>,
    i: int,
) -> Seq<char>
    decreases m.len() - i,
{
    if i < 0 || i >= m.len() {
        Seq::empty()
    } else if i == m.len() - 1 {
        intent_desc_line(m[i])
    } else {
        intent_desc_line(m[i]) + "\n"@ + intent_desc_lines(m, i + 1)
    }
}

fn descs_from(v: &Vec<(String, IntentDefinition)>, i: usize) -> (r: Vec<char>)
    requires
        i <= v@.len(),
    ensures
        r@ == intent_desc_lines(intents_view(v@), i as int),
    decreases v@.len() - i,
{
    let mut line: Vec<char> = crate::text::str_to_chars("- ");
    if i >= v.len() {
        let r: Vec<char> = Vec::new();
        proof {
            assert(r@ =~= intent_desc_lines(intents_view(v@), i as int));
        }
        return r;
    }
    let pair = &v[i];
    crate::text::append_chars(&mut line, &crate::text::str_to_chars(pair.0.as_str()));
    crate::text::append_chars(&mut line, &crate::text::str_to_chars(": "));
    crate::text::append_chars(&mut line, &crate::text::str_to_chars(pair.1.description.as_str()));
    proof {
        assert(intents_view(v@)[i as int] == (v@[i as int].0@, (v@[i as int].1.description@,
            v@[i as int].1.action@)));
        assert(line@ == intent_desc_line(intents_view(v@)[i as int]));
    }
    if i == v.len() - 1 {
        line
    } else {
        crate::text::append_chars(&mut line, &crate::text::str_to_chars("\n"));
        let rest = descs_from(v, i + 1);
        crate::text::append_chars(&mut line, &rest);
        line
    }
}

/// Renders the intent-classification prompt: the template with the intent
/// catalogue and the user message substituted in.
pub fn get_intent_prompt(config: &PromptConfig, message: &str) -> (r: Result<String, PromptError>)
    ensures
        ({
            let qt = pairs_view(config.query_templates@);
            match tpl_lookup(qt, "intent_classification"@) {
                Some(t) => r matches Ok(s) && s@ == replace_seq(
                    replace_seq(
                        t,
                        "{intent_descriptions}"@,
                        intent_desc_lines(intents_view(config.intents@), 0),
                    ),
                    "{message}"@,
                    message@,
                ),
                None => r matches Err(PromptError::TemplateNotFound(m)) && m@
                    == "query_templates:intent_classification"@,
            }
        }),
{
    let template = match lookup_template(&config.query_templates, "intent_classification") {
        Some(t) => crate::text::str_to_chars(t.as_str()),
        None => {
            return Err(
                PromptError::TemplateNotFound(
                    String::from_str("query_templates:intent_classification"),
                ),
            );
        },
    };
    let descriptions = descs_from(&config.intents, 0);
    let step1 = crate::text::replace_all(
        &template,
        &crate::text::str_to_chars("{intent_descriptions}"),
        &descriptions,
    );
    let step2 = crate::text::replace_all(
        &step1,
        &crate::text::str_to_chars("{message}"),
        &crate::text::str_to_chars(message),
    );
    Ok(crate::text::chars_to_string(&step2))
}

/// Renders the topic-inference prompt: the template with the serialized
/// schema list and the user question substituted in.
pub fn get_rag_topic_prompt(config: &PromptConfig, schema_json: &str, user_question: &str) -> (r:
    Result<String, PromptError>)
    ensures
        ({
            let qt = pairs_view(config.query_templates@);
            match tpl_lookup(qt, "rag_topic_inference"@) {
                Some(t) => r matches Ok(s) && s@ == replace_seq(
                    replace_seq(t, "{schema_json}"@, schema_json@),
                    "{user_question}"@,
                    user_question@,
                ),
                None => r matches Err(PromptError::TemplateNotFound(m)) && m@
                    == "query_templates:rag_topic_inference"@,
            }
        }),
{
    let template = match lookup_template(&config.query_templates, "rag_topic_inference") {
        Some(t) => crate::text::str_to_chars(t.as_str()),
        None => {
            return Err(
                PromptError::TemplateNotFound(
                    String::from_str("query_templates:rag_topic_inference"),
                ),
            );
        },
    };
    let step1 = crate::text::replace_all(
        &template,
        &crate::text::str_to_chars("{schema_json}"),
        &crate::text::str_to_chars(schema_json),
    );
    let step2 = crate::text::replace_all(
        &step1,
        &crate::text::str_to_chars("{user_question}"),
        &crate::text::str_to_chars(user_question),
    );
    Ok(crate::text::chars_to_string(&step2))
}

/// Renders the final-answer prompt: the template with the pretty schema, the
/// topic, the formatted documents and the user question substituted in.
pub fn get_rag_final_prompt(
    config: &PromptConfig,
    schema: &str,
    topic: &str,
    documents: &str,
    user_question: &str,
) -> (r: Result<String, PromptError>)
    ensures
        ({
            let rt = pairs_view(config.response_templates@);
            match tpl_lookup(rt, "rag_final_answer"@) {
                Some(t) => r matches Ok(s) && s@ == replace_seq(
                    replace_seq(
                        replace_seq(
                            replace_seq(t, "{schema}"@, schema@),
                            "{topic}"@,
                            topic@,
                        ),
                        "{documents}"@,
                        documents@,
                    ),
                    "{user_question}"@,
                    user_question@,
                ),
                None => r matches Err(PromptError::TemplateNotFound(m)) && m@
                    == "response_templates:rag_final_answer"@,
            }
        }),
{
    let template = match lookup_template(&config.response_templates, "rag_final_answer") {
        Some(t) => crate::text::str_to_chars(t.as_str()),
        None => {
            return Err(
                PromptError::TemplateNotFound(
                    String::from_str("response_templates:rag_final_answer"),
                ),
            );
        },
    };
    let step1 = crate::text::replace_all(
        &template,
        &crate::text::str_to_chars("{schema}"),
        &crate::text::str_to_chars(schema),
    );
    let step2 = crate::text::replace_all(
        &step1,
        &crate::text::str_to_chars("{topic}"),
        &crate::text::str_to_chars(topic),
    );
    let step3 = crate::text::replace_all(
        &step2,
        &crate::text::str_to_chars("{documents}"),
        &crate::text::str_to_chars(documents),
    );
    let step4 = crate::text::replace_all(
        &step3,
        &crate::text::str_to_chars("{user_question}"),
        &crate::text::str_to_chars(user_question),
    );
    Ok(crate::text::chars_to_string(&step4))
}

/// Renders the fallback topic-resolver prompt: the template with the compact
/// schema summary and the user question substituted in.
pub fn get_fallback_topic_prompt(
    config: &PromptConfig,
    schema_summary: &str,
    user_question: &str,
) -> (r: Result<String, PromptError>)
    ensures
        ({
            let qt = pairs_view(config.query_templates@);
            match tpl_lookup(qt, "fallback_topic_resolver"@) {
                Some(t) => r matches Ok(s) && s@ == replace_seq(
                    replace_seq(t, "{schema_summary}"@, schema_summary@),
                    "{user_question}"@,
                    user_question@,
                ),
                None => r matches Err(PromptError::TemplateNotFound(m)) && m@
                    == "query_templates:fallback_topic_resolver"@,
            }
        }),
{
    let template = match lookup_template(&config.query_templates, "fallback_topic_resolver") {
        Some(t) => crate::text::str_to_chars(t.as_str()),
        None => {
            return Err(
                PromptError::TemplateNotFound(
                    String::from_str("query_templates:fallback_topic_resolver"),
                ),
            );
        },
    };
    let step1 = crate::text::replace_all(
        &template,
        &crate::text::str_to_chars("{schema_summary}"),
        &crate::text::str_to_chars(schema_summary),
    );
    let step2 = crate::text::replace_all(
        &step1,
        &crate::text::str_to_chars("{user_question}"),
        &crate::text::str_to_chars(user_question),
    );
    Ok(crate::text::chars_to_string(&step2))
}

/// Looks a query template up by key; a missing key is reported with its
/// qualified name.
pub fn get_query_template<'a>(config: &'a PromptConfig, key: &str) -> (r: Result<
    &'a String,
    PromptError,
>)
    ensures
        match r {
            Ok(s) => tpl_lookup(pairs_view(config.query_templates@), key@) == Some(s@),
            Err(e) => tpl_lookup(pairs_view(config.query_templates@), key@) is None && (
            e matches PromptError::TemplateNotFound(m) && m@ == "query_templates:"@ + key@),
        },
{
    match lookup_template(&config.query_templates, key) {
        Some(s) => Ok(s),
        None => {
            let mut m = String::from_str("query_templates:");
            m.append(key);
            Err(PromptError::TemplateNotFound(m))
        },
    }
}

/// Looks a response template up by key; a missing key is reported with its
/// qualified name.
pub fn get_response_template<'a>(config: &'a PromptConfig, key: &str) -> (r: Result<
    &'a String,
    PromptError,
>)
    ensures
        match r {
            Ok(s) => tpl_lookup(pairs_view(config.response_templates@), key@) == Some(s@),
            Err(e) => tpl_lookup(pairs_view(config.response_templates@), key@) is None && (
            e matches PromptError::TemplateNotFound(m) && m@ == "response_templates:"@ + key@),
        },
{
    match lookup_template(&config.response_templates, key) {
        Some(s) => Ok(s),
        None => {
            let mut m = String::from_str("response_templates:");
            m.append(key);
            Err(PromptError::TemplateNotFound(m))
        },
    }
}

/// The process-wide prompt state: one snapshot, replaced wholesale on
/// reload. A snapshot handed out is a value of its own: a later reload
/// cannot change what a reader already holds, so a turn that captured its
/// snapshot keeps its templates for the whole turn.
pub struct PromptStore {
    pub config: PromptConfig,
}

impl PromptStore {
    /// Wraps the initially loaded configuration.
    pub fn new(config: PromptConfig) -> (r: PromptStore)
        ensures
            r.config == config,
    {
        PromptStore { config }
    }

    /// Whether a local prompts file with the given modification time is
    /// newer than the active snapshot, so a reload is due.
    pub fn needs_local_reload(&self, mtime: i64) -> (r: bool)
        ensures
            r == (mtime > self.config.last_loaded),
    {
        mtime > self.config.last_loaded
    }

    /// Publishes a freshly loaded snapshot. The load timestamp strictly
    /// increases across reloads, which the caller guarantees by loading the
    /// new snapshot at a later clock reading.
    pub fn apply_reload(&mut self, new_config: PromptConfig)
        requires
            new_config.last_loaded > old(self).config.last_loaded,
        ensures
            final(self).config == new_config,
            final(self).config.last_loaded > old(self).config.last_loaded,
    {
        self.config = new_config;
    }
}

} // verus!

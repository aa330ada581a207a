//! The structured-intelligence contract: inputs, context, and the
//! deterministic engine that reads its input as JSON.

use vstd::prelude::*;

use crate::error::{ErrorKind, SetuError};
use crate::json::{json_parse, Json, JsonValue};
use crate::schema::{accepts, JsonSchema};
use crate::text::trim;

verus! {

/// Input document presented to an intelligence engine.
#[derive(Debug, PartialEq)]
pub struct IntelligenceInput {
    pub text: String,
}

impl IntelligenceInput {
    pub fn new(text: &str) -> (r: Self)
        ensures
            r.text@ == text@,
    {
        IntelligenceInput { text: String::from_str(text) }
    }
}

/// Optional surrounding context.
#[derive(Debug, PartialEq)]
pub struct IntelligenceContext {
    pub source: Option<String>,
    pub hints: Vec<String>,
}

impl Default for IntelligenceContext {
    fn default() -> (r: Self)
        ensures
            r.source is None,
            r.hints@.len() == 0,
    {
        IntelligenceContext { source: None, hints: Vec::new() }
    }
}

/// What the deterministic engine yields for `text`: the trimmed text read as
/// JSON, when it parses and satisfies the schema.
pub open spec fn deterministic_inference(text: Seq<char>, s: JsonSchema) -> Result<Json, ErrorKind> {
    match json_parse(trim(text)) {
        None => Err(ErrorKind::ParseFailure),
        Some(j) => if accepts(s, j) {
            Ok(j)
        } else {
            Err(ErrorKind::Validation)
        },
    }
}

/// Engine that parses its input as JSON and validates it; its results have
/// full confidence.
#[derive(Debug)]
pub struct DeterministicEngine;

impl DeterministicEngine {
    pub fn name(&self) -> (r: &'static str)
        ensures
            r@ == "deterministic"@,
    {
        "deterministic"
    }

    /// The input read as JSON and checked against the schema; the context is
    /// not consulted.
    pub fn infer(
        &self,
        input: &IntelligenceInput,
        schema: &JsonSchema,
        context: &IntelligenceContext,
    ) -> (r: crate::error::Result<JsonValue>)
        ensures
            match deterministic_inference(input.text@, *schema) {
                Ok(j) => r matches Ok(v) && v@ == j,
                Err(k) => r matches Err(e) && e.kind == k,
            },
    {
        let trimmed = crate::text::trim_str(input.text.as_str());
        let value = match crate::json::parse_json(trimmed.as_str()) {
            Some(v) => v,
            None => {
                return Err(SetuError::parse_failure("deterministic engine expected JSON input"));
            },
        };
        schema.validate(&value)?;
        Ok(value)
    }
}

} // verus!

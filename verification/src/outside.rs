//! Trusted declarations for the outside crates the core computes through:
//! serde_json's document type and liquid's renderer.
use vstd::prelude::*;

verus! {

/// serde_json's JSON document type, carried opaquely through the render
/// options; the dotted-name lookup serializes it for the query evaluator.
#[verifier::external_type_specification]
#[verifier::external_body]
pub struct ExValue(serde_json::Value);

/// Relies on serde_json's `Value::is_null`: whether the document is `Null`.
pub assume_specification[ serde_json::Value::is_null ](v: &serde_json::Value) -> bool;

/// Relies on serde_json's `Clone` for `Value`.
pub assume_specification[ <serde_json::Value as Clone>::clone ](
    v: &serde_json::Value,
) -> serde_json::Value;

/// Relies on serde_json's `Display` for `Value`: the compact JSON text of
/// the document.
#[verifier::external_body]
pub fn json_text(v: &serde_json::Value) -> String {
    v.to_string()
}

/// Relies on serde_json's `Value::Null` constructor.
#[verifier::external_body]
pub fn json_null() -> serde_json::Value {
    serde_json::Value::Null
}

/// Relies on liquid's parser and renderer: parses `text` with the standard
/// library of tags and filters and renders it with no variable bindings; a
/// parse or render failure comes back as its message.
#[verifier::external_body]
pub fn liquid_render(text: &str) -> Result<String, String> {
    let parser = match liquid::ParserBuilder::with_stdlib().build() {
        Ok(p) => p,
        Err(e) => return Err(format!("{}", e)),
    };
    let template = match parser.parse(text) {
        Ok(t) => t,
        Err(e) => return Err(format!("{}", e)),
    };
    let globals = liquid::Object::new();
    template.render(&globals).map_err(|e| format!("{}", e))
}

} // verus!

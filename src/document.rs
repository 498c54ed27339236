use vstd::prelude::*;
use crate::config::ConfigValue;

verus! {

/// The root table of the TOML document `text`, with each value given as a
/// configuration value (floats and date-times as `ConfigValue::Other`), or
/// `None` when the text is not valid TOML.
pub uninterp spec fn toml_bindings(text: Seq<char>) -> Option<Seq<(String, ConfigValue)>>;

/// toml's value type, carried through without looking inside.
#[verifier::external_type_specification]
#[verifier::external_body]
pub struct ExTomlValue(toml::Value);

/// Converts the values that `parse_document` hands out. Relies on the
/// variants of `toml::Value`, and on `IntoIterator for
/// toml::map::Map` to hand out the bindings of a table: each value becomes
/// the configuration value of the same shape.
#[verifier::external_body]
fn config_of(v: toml::Value) -> ConfigValue {
    match v {
        toml::Value::String(s) => ConfigValue::Str(s),
        toml::Value::Integer(n) => ConfigValue::Int(n),
        toml::Value::Boolean(b) => ConfigValue::Bool(b),
        toml::Value::Array(a) => ConfigValue::Array(a.into_iter().map(config_of).collect()),
        toml::Value::Table(t) => ConfigValue::Table(t.into_iter().map(|(k, x)| (k, config_of(x))).collect()),
        toml::Value::Float(_) => ConfigValue::Other,
        toml::Value::Datetime(_) => ConfigValue::Other,
    }
}

/// Relies on toml's `FromStr for toml::Table`, which parses a TOML document
/// into its root table (and fails exactly on invalid TOML), and on the
/// `Display` of its error for the message.
#[verifier::external_body]
fn parse_document(text: &str) -> (r: Result<Vec<(String, ConfigValue)>, String>)
    ensures
        r is Ok == toml_bindings(text@) is Some,
        r is Ok ==> r->Ok_0@ == toml_bindings(text@)->Some_0,
{
    match text.parse::<toml::Table>() {
        Ok(t) => Ok(t.into_iter().map(|(k, x)| (k, config_of(x))).collect()),
        Err(e) => Err(e.to_string()),
    }
}

/// Parses a TOML configuration document into its root table of attributes;
/// fails with the parser's message when the text is not valid TOML.
pub fn parse_config(text: &String) -> (r: Result<Vec<(String, ConfigValue)>, String>)
    ensures
        r is Ok == toml_bindings(text@) is Some,
        r is Ok ==> r->Ok_0@ == toml_bindings(text@)->Some_0,
{
    parse_document(text.as_str())
}

} // verus!

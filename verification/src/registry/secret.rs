//! A configuration value that holds sensitive data (API keys, tokens).
use vstd::prelude::*;

verus! {

/// Sensitive string; the type marks the field as secret instead of its name.
pub struct Secret(pub String);

impl Secret {
    /// Wraps `value`.
    pub fn new(value: String) -> (s: Self)
        ensures
            s.0@ == value@,
    {
        Secret(value)
    }

    /// Wraps a copy of `value`.
    pub fn from_str_value(value: &str) -> (s: Self)
        ensures
            s.0@ == value@,
    {
        Secret(value.to_string())
    }

    /// The debug rendering: the value itself never appears in it.
    pub fn debug_repr(&self) -> (r: String)
        ensures
            r@ == "Secret(\"****\")"@,
    {
        "Secret(\"****\")".to_string()
    }

    /// Whether the secret is the empty string.
    pub fn is_empty(&self) -> (r: bool)
        ensures
            r == (self.0@.len() == 0),
    {
        self.0.as_str().is_empty()
    }

    /// A copy of the secret.
    pub fn duplicate(&self) -> (r: Secret)
        ensures
            r.0@ == self.0@,
    {
        Secret(self.0.clone())
    }
}

} // verus!

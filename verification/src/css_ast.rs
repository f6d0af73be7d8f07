//! Parsed stylesheet shape, as the stylesheet parser hands it over: a flat
//! list of style rules, each a selector with its declarations.

use vstd::prelude::*;

verus! {

/// One `name: value` declaration inside a rule.
pub struct Declaration {
    pub name: String,
    pub value: String,
}

/// One style rule: a selector and its declarations.
pub struct StyleRule {
    pub selector_text: String,
    pub declarations: Vec<Declaration>,
}

/// A parsed stylesheet.
pub struct Sheet {
    pub rules: Vec<StyleRule>,
}

} // verus!

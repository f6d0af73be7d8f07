//! Stylesheet evaluation: every selector of a parsed sheet is scoped to a
//! document by appending the `[data-pc-<scope>]` marker that plain elements
//! of that document carry.

use vstd::prelude::*;
use crate::base::RuntimeError;
use crate::css_ast::{Declaration, Sheet, StyleRule};
use crate::css_virt::{CSSPropV, CSSRule, CSSRuleV, CSSSheet, CSSStyleProperty, CSSStyleRule,
    CSSStyleRuleV};

verus! {

/// A selector scoped to one document: the written selector followed by an
/// attribute test for that document's scope marker.
pub open spec fn scoped_selector(selector: Seq<char>, scope: Seq<char>) -> Seq<char> {
    selector + "[data-pc-"@ + scope + "]"@
}

pub open spec fn props_v(decls: Seq<Declaration>) -> Seq<CSSPropV> {
    Seq::new(decls.len(), |i: int| CSSPropV { name: decls[i].name@, value: decls[i].value@ })
}

pub open spec fn rule_v(rule: StyleRule, scope: Seq<char>) -> CSSRuleV {
    CSSRuleV::StyleRule(
        CSSStyleRuleV {
            selector_text: scoped_selector(rule.selector_text@, scope),
            style: props_v(rule.declarations@),
        },
    )
}

/// The rules of `sheet`, in order, each scoped with `scope`.
pub open spec fn eval_css(sheet: Sheet, scope: Seq<char>) -> Seq<CSSRuleV> {
    Seq::new(sheet.rules@.len(), |i: int| rule_v(sheet.rules@[i], scope))
}

fn evaluate_rule(rule: &StyleRule, scope: &String) -> (r: CSSRule)
    ensures
        r@ == rule_v(*rule, scope@),
{
    let mut selector = rule.selector_text.clone();
    selector.append("[data-pc-");
    selector.append(scope.as_str());
    selector.append("]");
    let mut style: Vec<CSSStyleProperty> = Vec::new();
    let mut i: usize = 0;
    while i < rule.declarations.len()
        invariant
            0 <= i <= rule.declarations@.len(),
            style@.len() == i,
            forall|j: int| 0 <= j < i ==> style@[j]@ == props_v(rule.declarations@)[j],
        decreases rule.declarations@.len() - i,
    {
        let d = &rule.declarations[i];
        style.push(CSSStyleProperty { name: d.name.clone(), value: d.value.clone() });
        i += 1;
    }
    let out = CSSStyleRule { selector_text: selector, style };
    proof {
        assert(out@.style =~= props_v(rule.declarations@));
    }
    CSSRule::CSSStyleRule(out)
}

/// Evaluate a parsed sheet for one document, scoping every rule with
/// `scope`. The uri only names the sheet's origin for diagnostics; the
/// result is a function of the sheet and the scope.
pub fn evaluate(expr: &Sheet, _uri: &String, scope: &String) -> (r: Result<
    CSSSheet,
    RuntimeError,
>)
    ensures
        r is Ok,
        r->Ok_0@ == eval_css(*expr, scope@),
{
    let mut rules: Vec<CSSRule> = Vec::new();
    let mut i: usize = 0;
    while i < expr.rules.len()
        invariant
            0 <= i <= expr.rules@.len(),
            rules@.len() == i,
            forall|j: int| 0 <= j < i ==> rules@[j]@ == eval_css(*expr, scope@)[j],
        decreases expr.rules@.len() - i,
    {
        let rule = evaluate_rule(&expr.rules[i], scope);
        rules.push(rule);
        i += 1;
    }
    let sheet = CSSSheet { rules };
    proof {
        assert(sheet@ =~= eval_css(*expr, scope@));
    }
    Ok(sheet)
}

} // verus!

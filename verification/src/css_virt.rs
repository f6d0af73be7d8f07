//! Evaluated stylesheet shape: the concrete, scoped rules that end up in
//! the aggregated style element of an evaluated document.

use vstd::prelude::*;

verus! {

/// One evaluated `name: value` property.
#[derive(Debug)]
pub struct CSSStyleProperty {
    pub name: String,
    pub value: String,
}

/// Mathematical image of a property.
pub struct CSSPropV {
    pub name: Seq<char>,
    pub value: Seq<char>,
}

impl View for CSSStyleProperty {
    type V = CSSPropV;

    open spec fn view(&self) -> CSSPropV {
        CSSPropV { name: self.name@, value: self.value@ }
    }
}

/// One evaluated style rule with its already-scoped selector.
#[derive(Debug)]
pub struct CSSStyleRule {
    pub selector_text: String,
    pub style: Vec<CSSStyleProperty>,
}

/// Mathematical image of a style rule.
pub struct CSSStyleRuleV {
    pub selector_text: Seq<char>,
    pub style: Seq<CSSPropV>,
}

impl View for CSSStyleRule {
    type V = CSSStyleRuleV;

    open spec fn view(&self) -> CSSStyleRuleV {
        CSSStyleRuleV {
            selector_text: self.selector_text@,
            style: Seq::new(self.style@.len(), |i: int| self.style@[i]@),
        }
    }
}

/// One evaluated rule. A single variant today; media and keyframe rules
/// would take their place beside it.
#[derive(Debug)]
pub enum CSSRule {
    CSSStyleRule(CSSStyleRule),
}

/// Mathematical image of a rule.
pub enum CSSRuleV {
    StyleRule(CSSStyleRuleV),
}

impl View for CSSRule {
    type V = CSSRuleV;

    open spec fn view(&self) -> CSSRuleV {
        match self {
            CSSRule::CSSStyleRule(r) => CSSRuleV::StyleRule(r@),
        }
    }
}

/// An evaluated sheet: an ordered list of rules.
#[derive(Debug)]
pub struct CSSSheet {
    pub rules: Vec<CSSRule>,
}

impl View for CSSSheet {
    type V = Seq<CSSRuleV>;

    open spec fn view(&self) -> Seq<CSSRuleV> {
        Seq::new(self.rules@.len(), |i: int| self.rules@[i]@)
    }
}

impl CSSStyleRule {
    /// A copy whose view is the same.
    pub fn duplicate(&self) -> (r: CSSStyleRule)
        ensures
            r@ == self@,
    {
        let mut style: Vec<CSSStyleProperty> = Vec::new();
        let mut i: usize = 0;
        while i < self.style.len()
            invariant
                0 <= i <= self.style@.len(),
                style@.len() == i,
                forall|j: int| 0 <= j < i ==> style@[j]@ == self.style@[j]@,
            decreases self.style@.len() - i,
        {
            let p = &self.style[i];
            style.push(CSSStyleProperty { name: p.name.clone(), value: p.value.clone() });
            i += 1;
        }
        let r = CSSStyleRule { selector_text: self.selector_text.clone(), style };
        proof {
            assert(r@.style =~= self@.style);
        }
        r
    }
}

impl CSSSheet {
    /// A copy whose view is the same.
    pub fn duplicate(&self) -> (r: CSSSheet)
        ensures
            r@ == self@,
    {
        let mut rules: Vec<CSSRule> = Vec::new();
        let mut i: usize = 0;
        while i < self.rules.len()
            invariant
                0 <= i <= self.rules@.len(),
                rules@.len() == i,
                forall|j: int| 0 <= j < i ==> rules@[j]@ == self.rules@[j]@,
            decreases self.rules@.len() - i,
        {
            match &self.rules[i] {
                CSSRule::CSSStyleRule(rule) => {
                    rules.push(CSSRule::CSSStyleRule(rule.duplicate()));
                },
            }
            i += 1;
        }
        let r = CSSSheet { rules };
        proof {
            assert(r@ =~= self@);
        }
        r
    }

    /// Append every rule of `other` after the rules already here.
    pub fn extend(&mut self, other: CSSSheet)
        ensures
            final(self)@ == old(self)@ + other@,
    {
        let mut o = other;
        self.rules.append(&mut o.rules);
        proof {
            assert(self@ =~= old(self)@ + other@);
        }
    }
}

} // verus!

//! Positional-parameter descriptions and their rendering in usage text.

use vstd::prelude::*;
use vstd::string::StringExecFns;

verus! {

/// Describes a command parameter and how to display help info for it.
pub struct Parameter {
    /// The name of the parameter, as shown in usage text.
    pub name: &'static str,
    /// Whether the parameter must receive at least one argument.
    pub required: bool,
    /// Whether the parameter may receive more than one argument.
    pub repeating: bool,
}

/// The mathematical content of a `Parameter`: its name as a character
/// sequence, and its two flags.
pub struct ParameterView {
    /// The name of the parameter.
    pub name: Seq<char>,
    /// Whether the parameter must receive at least one argument.
    pub required: bool,
    /// Whether the parameter may receive more than one argument.
    pub repeating: bool,
}

impl View for Parameter {
    type V = ParameterView;

    open spec fn view(&self) -> ParameterView {
        ParameterView { name: self.name@, required: self.required, repeating: self.repeating }
    }
}

impl ParameterView {
    /// Whether the parameter can absorb a number of tokens other than
    /// exactly one: it is optional or repeating.
    pub open spec fn is_variable_width(self) -> bool {
        !self.required || self.repeating
    }
}

/// How a parameter appears in a command's usage line: its bare name if
/// required, in square brackets if optional, with a trailing ellipsis if
/// repeating.
pub open spec fn param_render(p: ParameterView) -> Seq<char> {
    let base = if p.required {
        p.name
    } else {
        "["@ + p.name + "]"@
    };
    if p.repeating {
        base + "..."@
    } else {
        base
    }
}

impl Parameter {
    /// Renders the parameter as it appears in a command's usage line.
    pub fn display_string(&self) -> (r: String)
        ensures
            r@ == param_render(self@),
    {
        let mut s = String::new();
        if !self.required {
            s.append("[");
        }
        s.append(self.name);
        if !self.required {
            s.append("]");
        }
        if self.repeating {
            s.append("...");
        }
        proof {
            assert(s@ =~= param_render(self@));
        }
        s
    }
}

} // verus!

//! The variables of a query.

use crate::macroql::typ::{type_text, Type};
use crate::text::same;
use vstd::prelude::*;
use vstd::string::StringExecFns;

verus! {

/// A variable: its name, its type, and its fields where it is an object
/// that is described in place.
#[derive(Debug, PartialEq, Eq)]
pub struct Var {
    pub name: String,
    pub typ_: Type,
    pub flds: Vec<Var>,
}

/// The name of a variable as a query writes it: `type` for `typ_`, which
/// stands in for it where `type` cannot be written.
pub open spec fn variable_name(name: Seq<char>) -> Seq<char> {
    if name == "typ_"@ {
        "type"@
    } else {
        name
    }
}

/// How a query declares the variable `var`: `$`, its name, and its type.
pub open spec fn declaration(var: Var) -> Option<Seq<char>> {
    match type_text(var.typ_) {
        Some(typ) => Some("$"@ + variable_name(var.name@) + ": "@ + typ),
        None => None,
    }
}

/// The first `upto` declarations of `flds`, with `, ` between them.
pub open spec fn declarations(flds: Seq<Var>, upto: nat) -> Option<Seq<char>>
    decreases upto,
{
    if upto == 0 {
        Some(Seq::empty())
    } else {
        match (declarations(flds, (upto - 1) as nat), declaration(flds[upto - 1])) {
            (Some(before), Some(one)) => Some(
                if upto == 1 {
                    one
                } else {
                    before + ", "@ + one
                },
            ),
            _ => None,
        }
    }
}

/// How a query declares the variables `flds`: in round brackets, and not
/// at all where there are none.
pub open spec fn vars_text(flds: Seq<Var>) -> Option<Seq<char>> {
    if flds.len() == 0 {
        Some(Seq::empty())
    } else {
        match declarations(flds, flds.len()) {
            Some(list) => Some("("@ + list + ")"@),
            None => None,
        }
    }
}

impl Var {
    /// How a query declares the fields of this variable.
    pub fn fmt_gq(&self) -> (text: Option<String>)
        ensures
            text.deep_view() == vars_text(self.flds@),
    {
        fmt_vars(&self.flds)
    }
}

/// How a query declares the variables `flds`.
pub fn fmt_vars(flds: &Vec<Var>) -> (text: Option<String>)
    ensures
        text.deep_view() == vars_text(flds@),
{
    if flds.len() == 0 {
        return Some(String::new());
    }
    let mut text = String::from_str("(");
    let mut at: usize = 0;
    assert("("@ + Seq::<char>::empty() =~= "("@);
    while at < flds.len()
        invariant
            at <= flds.len(),
            declarations(flds@, at as nat) matches Some(list) && text@ == "("@ + list,
        decreases flds.len() - at,
    {
        let fld = &flds[at];
        let ghost before = declarations(flds@, at as nat)->0;
        let typ = match fld.typ_.fmt_gq() {
            Some(typ) => typ,
            None => {
                proof {
                    lemma_declarations_fail(flds@, at as nat + 1, flds@.len());
                }
                return None;
            },
        };
        if at > 0 {
            text.append(", ");
        }
        text.append("$");
        if same(fld.name.as_str(), "typ_") {
            text.append("type");
        } else {
            text.append(fld.name.as_str());
        }
        text.append(": ");
        text.append(typ.as_str());
        proof {
            let one = declaration(*fld)->0;
            if at == 0 {
                assert(text@ =~= "("@ + one);
            } else {
                assert(text@ =~= "("@ + (before + ", "@ + one));
            }
        }
        at += 1;
    }
    text.append(")");
    Some(text)
}

/// A variable that cannot be declared fails the declarations of all that
/// follow it.
pub proof fn lemma_declarations_fail(flds: Seq<Var>, upto: nat, all: nat)
    requires
        upto <= all,
        declarations(flds, upto) is None,
    ensures
        declarations(flds, all) is None,
    decreases all,
{
    if upto < all {
        lemma_declarations_fail(flds, upto, (all - 1) as nat);
    }
}

} // verus!

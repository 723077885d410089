//! Queries of the remote side, described by their variables and
//! selections, and the text that such a description is sent as.

pub mod sel;
pub mod typ;
pub mod var;

use crate::macroql::sel::{body_text, fmt_body, Sel};
use crate::macroql::typ::{cased, ident_to_case, Style};
use crate::macroql::var::{fmt_vars, vars_text, Var};
use vstd::prelude::*;
use vstd::string::StringExecFns;

verus! {

/// A query: the kind of operation, its name, its variables and its
/// selections.
#[derive(Debug, PartialEq, Eq)]
pub struct MQL {
    pub oper: String,
    pub name: String,
    pub vars: Vec<Var>,
    pub sels: Vec<Sel>,
}

/// The text that the query `mql` is sent as: the operation, the name in
/// snake case, the variables, and the selections. A query with a variable
/// or a fragment whose type has no name has no text.
pub open spec fn query_text(mql: MQL) -> Option<Seq<char>> {
    match (vars_text(mql.vars@), body_text(mql.sels@)) {
        (Some(vars), Some(sels)) => Some(
            mql.oper@ + " "@ + cased(mql.name@, Style::Snake) + vars + sels,
        ),
        _ => None,
    }
}

/// The text that the query `mql` is sent as.
pub fn macroql(mql: &MQL) -> (text: Option<String>)
    ensures
        text.deep_view() == query_text(*mql),
{
    let vars = fmt_vars(&mql.vars)?;
    let sels = fmt_body(&mql.sels)?;
    let mut text = mql.oper.clone();
    text.append(" ");
    text.append(ident_to_case(mql.name.as_str(), Style::Snake).as_str());
    text.append(vars.as_str());
    text.append(sels.as_str());
    Some(text)
}

} // verus!

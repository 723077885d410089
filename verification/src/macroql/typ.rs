//! The type of a variable or of a selection.

use crate::text::same;
use convert_case::{Case, Casing};
use vstd::prelude::*;
use vstd::string::StringExecFns;

verus! {

/// The cases that a name is written in.
#[derive(Clone, Copy, Debug, PartialEq, Eq, Structural)]
pub enum Style {
    /// `EachWordCapitalised`.
    Pascal,
    /// `each_word_lowered`.
    Snake,
}

/// `text` written in the case `style`, as `convert_case` writes it: the
/// words of `text`, parted where its case changes and at its hyphens,
/// underscores and spaces, put together again in the new case.
pub uninterp spec fn cased(text: Seq<char>, style: Style) -> Seq<char>;

/// `Casing::to_case` of `convert_case`: a function of the text and the
/// case alone.
#[verifier::external_body]
fn to_case(text: &str, style: Style) -> (out: String)
    ensures
        out@ == cased(text@, style),
{
    match style {
        Style::Pascal => text.to_case(Case::Pascal),
        Style::Snake => text.to_case(Case::Snake),
    }
}

/// The name `ident` written in the case `case`.
pub fn ident_to_case(ident: &str, case: Style) -> (out: String)
    ensures
        out@ == cased(ident@, case),
{
    to_case(ident, case)
}

/// A type as a query names it: a name, which an object that is described
/// in place need not have; whether it is a list; and whether it may be
/// null.
#[derive(Clone, Debug, PartialEq, Eq)]
pub struct Type {
    pub name: Option<String>,
    pub list: bool,
    pub null: bool,
}

impl Default for Type {
    fn default() -> (typ: Type)
        ensures
            typ.name is None,
            !typ.list,
            !typ.null,
    {
        Type { name: None, list: false, null: false }
    }
}

/// `name` is the name of a type that holds no fields.
pub open spec fn is_scalar(name: Seq<char>) -> bool {
    name == "Int"@ || name == "Long"@ || name == "Float"@ || name == "Boolean"@ || name
        == "String"@
}

/// `typ` is the type of an object: it has no name, or a name that is not
/// that of a scalar.
pub open spec fn is_object(typ: Type) -> bool {
    match typ.name {
        Some(name) => !is_scalar(name@),
        None => true,
    }
}

/// The name `base` of a type as a query writes it: in square brackets
/// where the type is a list, with `!` behind where it may not be null.
pub open spec fn decorated(base: Seq<char>, list: bool, null: bool) -> Seq<char> {
    let listed = if list {
        "["@ + base + "]"@
    } else {
        base
    };
    if null {
        listed
    } else {
        listed + "!"@
    }
}

/// How a query names the type `typ`: its name in Pascal case, in square
/// brackets where it is a list, with `!` behind where it may not be null.
/// A type without a name cannot be named.
pub open spec fn type_text(typ: Type) -> Option<Seq<char>> {
    match typ.name {
        None => None,
        Some(name) => Some(decorated(cased(name@, Style::Pascal), typ.list, typ.null)),
    }
}

/// The name `base` of a type as a query writes it.
pub fn decorate(base: &str, list: bool, null: bool) -> (text: String)
    ensures
        text@ == decorated(base@, list, null),
{
    let mut text = String::new();
    if list {
        text.append("[");
        text.append(base);
        text.append("]");
    } else {
        text.append(base);
    }
    if !null {
        text.append("!");
    }
    proof {
        assert(Seq::<char>::empty() + base@ =~= base@);
        assert(Seq::<char>::empty() + "["@ + base@ + "]"@ =~= "["@ + base@ + "]"@);
    }
    text
}

impl Type {
    /// How a query names the type.
    pub fn fmt_gq(&self) -> (text: Option<String>)
        ensures
            text.deep_view() == type_text(*self),
    {
        match &self.name {
            None => None,
            Some(name) => {
                let base = to_case(name.as_str(), Style::Pascal);
                Some(decorate(base.as_str(), self.list, self.null))
            },
        }
    }

    /// Whether the type is that of an object.
    pub fn is_object(&self) -> (object: bool)
        ensures
            object == is_object(*self),
    {
        match &self.name {
            Some(name) => {
                let text = name.as_str();
                !(same(text, "Int") || same(text, "Long") || same(text, "Float") || same(
                    text,
                    "Boolean",
                ) || same(text, "String"))
            },
            None => true,
        }
    }
}

} // verus!

//! The selections of a query.

use crate::macroql::typ::Type;
use vstd::prelude::*;
use vstd::string::StringExecFns;

verus! {

/// A selection.
#[derive(Debug, PartialEq, Eq)]
pub enum Sel {
    /// A field: its name, the variables that it is asked with, its type,
    /// and what is selected of it where it is an object.
    Normal { name: String, args: Vec<String>, typ_: Type, flds: Vec<Sel> },
    /// An inline fragment: what is selected where the object is of the
    /// type `typ_`.
    Inline { typ_: Type, flds: Vec<Sel> },
}

/// How a query hands the variable `arg` to a field: under its own name.
pub open spec fn argument(arg: Seq<char>) -> Seq<char> {
    arg + ": $"@ + arg
}

/// The first `upto` of the arguments `args`, with `, ` between them.
pub open spec fn arguments(args: Seq<String>, upto: nat) -> Seq<char>
    decreases upto,
{
    if upto == 0 {
        Seq::empty()
    } else if upto == 1 {
        argument(args[0]@)
    } else {
        arguments(args, (upto - 1) as nat) + ", "@ + argument(args[upto - 1]@)
    }
}

/// How a query hands the variables `args` to a field: in round brackets,
/// and not at all where there are none.
pub open spec fn args_text(args: Seq<String>) -> Seq<char> {
    if args.len() == 0 {
        Seq::empty()
    } else {
        "("@ + arguments(args, args.len()) + ")"@
    }
}

/// One of the first `upto` of `flds` is an inline fragment.
pub open spec fn has_inline(flds: Seq<Sel>, upto: nat) -> bool
    decreases upto,
{
    if upto == 0 {
        false
    } else {
        has_inline(flds, (upto - 1) as nat) || flds[upto - 1] is Inline
    }
}

/// How a query writes the selection `sel`. A field is written as its
/// name, its arguments and what is selected of it. An inline fragment is
/// written as `... on`, the name of its type, and what is selected. A
/// fragment whose type has no name cannot be written.
pub open spec fn sel_text(sel: Sel) -> Option<Seq<char>>
    decreases sel, 0nat,
{
    match sel {
        Sel::Normal { name, args, typ_, flds } => {
            proof {
                broadcast use vstd::std_specs::vec::axiom_vec_decreases_to_view;

            }
            match body_text(flds@) {
                Some(body) => Some(name@ + args_text(args@) + body),
                None => None,
            }
        },
        Sel::Inline { typ_, flds } => match typ_.name {
            None => None,
            Some(on) => {
                proof {
                    broadcast use vstd::std_specs::vec::axiom_vec_decreases_to_view;

                }
                match sels_text(flds@, flds@.len()) {
                    Some(inner) => Some("... on "@ + on@ + " { "@ + inner + " }"@),
                    None => None,
                }
            },
        },
    }
}

/// How a query writes what is selected of a field: nothing where nothing
/// is selected; else the selections `flds` in curly brackets, and behind
/// them the name of the type where one of them is an inline fragment.
pub open spec fn body_text(flds: Seq<Sel>) -> Option<Seq<char>>
    decreases flds, flds.len() + 1,
{
    if flds.len() == 0 {
        Some(Seq::empty())
    } else {
        match sels_text(flds, flds.len()) {
            Some(inner) => Some(
                " { "@ + inner + (if has_inline(flds, flds.len()) {
                    ", __typename"@
                } else {
                    ""@
                }) + " }"@,
            ),
            None => None,
        }
    }
}

/// How a query writes the first `upto` of the selections `flds`, with
/// `, ` between them.
pub open spec fn sels_text(flds: Seq<Sel>, upto: nat) -> Option<Seq<char>>
    decreases flds, upto,
{
    if upto == 0 || upto > flds.len() {
        Some(Seq::empty())
    } else {
        proof {
            broadcast use vstd::seq::axiom_seq_index_decreases;

        }
        match (sels_text(flds, (upto - 1) as nat), sel_text(flds[upto - 1])) {
            (Some(before), Some(one)) => Some(
                if upto == 1 {
                    one
                } else {
                    before + ", "@ + one
                },
            ),
            _ => None,
        }
    }
}

fn push_args(text: &mut String, args: &Vec<String>)
    ensures
        final(text)@ == old(text)@ + args_text(args@),
{
    if args.len() == 0 {
        assert(old(text)@ + args_text(args@) =~= old(text)@);
        return ;
    }
    text.append("(");
    let mut at: usize = 0;
    assert(text@ + arguments(args@, 0) =~= text@);
    while at < args.len()
        invariant
            at <= args.len(),
            args.len() > 0,
            text@ == old(text)@ + "("@ + arguments(args@, at as nat),
        decreases args.len() - at,
    {
        let ghost before = arguments(args@, at as nat);
        if at > 0 {
            text.append(", ");
        }
        text.append(args[at].as_str());
        text.append(": $");
        text.append(args[at].as_str());
        proof {
            let one = argument(args@[at as int]@);
            if at == 0 {
                assert(text@ =~= old(text)@ + "("@ + one);
            } else {
                assert(text@ =~= old(text)@ + "("@ + (before + ", "@ + one));
            }
        }
        at += 1;
    }
    text.append(")");
    assert(text@ =~= old(text)@ + ("("@ + arguments(args@, args@.len()) + ")"@));
}

fn any_inline(flds: &Vec<Sel>) -> (found: bool)
    ensures
        found == has_inline(flds@, flds@.len()),
{
    let mut found = false;
    let mut at: usize = 0;
    while at < flds.len()
        invariant
            at <= flds.len(),
            found == has_inline(flds@, at as nat),
        decreases flds.len() - at,
    {
        match &flds[at] {
            Sel::Inline { .. } => {
                found = true;
            },
            Sel::Normal { .. } => {},
        }
        at += 1;
    }
    found
}

fn fmt_list(flds: &Vec<Sel>, upto: usize) -> (text: Option<String>)
    requires
        upto <= flds.len(),
    ensures
        text.deep_view() == sels_text(flds@, upto as nat),
    decreases *flds, upto,
{
    if upto == 0 {
        return Some(String::new());
    }
    let mut text = fmt_list(flds, upto - 1)?;
    let ghost before = text@;
    proof {
        broadcast use vstd::std_specs::vec::axiom_vec_index_decreases;

    }
    let one = flds[upto - 1].fmt_gq()?;
    if upto > 1 {
        text.append(", ");
    }
    text.append(one.as_str());
    proof {
        if upto == 1 {
            assert(before =~= Seq::<char>::empty());
            assert(text@ =~= one@);
        }
    }
    Some(text)
}

/// How a query writes what is selected of a field.
pub fn fmt_body(flds: &Vec<Sel>) -> (text: Option<String>)
    ensures
        text.deep_view() == body_text(flds@),
    decreases *flds, flds.len() + 1,
{
    if flds.len() == 0 {
        return Some(String::new());
    }
    let inner = fmt_list(flds, flds.len())?;
    let mut text = String::from_str(" { ");
    text.append(inner.as_str());
    if any_inline(flds) {
        text.append(", __typename");
    } else {
        proof {
            reveal_strlit("");
            assert(text@ + ""@ =~= text@);
        }
    }
    text.append(" }");
    Some(text)
}

impl Sel {
    /// How a query writes the selection.
    pub fn fmt_gq(&self) -> (text: Option<String>)
        ensures
            text.deep_view() == sel_text(*self),
        decreases *self, 0nat,
    {
        match self {
            Sel::Normal { name, args, typ_, flds } => {
                let body = fmt_body(flds)?;
                let mut text = name.clone();
                push_args(&mut text, args);
                text.append(body.as_str());
                Some(text)
            },
            Sel::Inline { typ_, flds } => {
                let on = match &typ_.name {
                    Some(on) => on,
                    None => {
                        return None;
                    },
                };
                let inner = fmt_list(flds, flds.len())?;
                let mut text = String::from_str("... on ");
                text.append(on.as_str());
                text.append(" { ");
                text.append(inner.as_str());
                text.append(" }");
                Some(text)
            },
        }
    }

    /// Whether what is selected is an object.
    pub fn is_object(&self) -> (object: bool)
        ensures
            object == crate::macroql::typ::is_object(
                match *self {
                    Sel::Normal { typ_, .. } => typ_,
                    Sel::Inline { typ_, .. } => typ_,
                },
            ),
    {
        match self {
            Sel::Normal { typ_, .. } => typ_.is_object(),
            Sel::Inline { typ_, .. } => typ_.is_object(),
        }
    }
}

} // verus!


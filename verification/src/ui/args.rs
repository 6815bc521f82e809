//! Command-line arguments of the popup. An argument that is no Unicode text is
//! given as `None`.

use vstd::prelude::*;

use crate::text::same_text;
use crate::types::optional_text;

verus! {

/// Whether an argument after the name of the program is a given text.
pub open spec fn has_argument(args: Seq<Option<String>>, wanted: Seq<char>) -> bool {
    exists|i: int| 1 <= i < args.len() && optional_text(#[trigger] args[i]) == Some(wanted)
}

fn is_argument(arg: &Option<String>, wanted: &str) -> (r: bool)
    ensures
        r == (optional_text(*arg) == Some(wanted@)),
{
    match arg {
        Some(a) => same_text(a.as_str(), wanted),
        None => false,
    }
}

/// Whether the popup was opened to paste as plain text.
pub fn plain_mode_from_args(args: &Vec<Option<String>>) -> (r: bool)
    ensures
        r == has_argument(args@, "--plain"@),
{
    let mut i: usize = 1;
    while i < args.len()
        invariant
            1 <= i,
            forall|j: int|
                1 <= j < i && j < args@.len() ==> optional_text(#[trigger] args@[j]) != Some(
                    "--plain"@,
                ),
        decreases args@.len() - i,
    {
        if is_argument(&args[i], "--plain") {
            return true;
        }
        i += 1;
    }
    false
}

/// What follows the first `--activation-token` from position `i` on.
pub open spec fn token_after(args: Seq<Option<String>>, i: int) -> Option<Seq<char>>
    decreases args.len() - i,
{
    if i < 0 || i >= args.len() {
        None
    } else if optional_text(args[i]) == Some("--activation-token"@) {
        if i + 1 < args.len() {
            optional_text(args[i + 1])
        } else {
            None
        }
    } else {
        token_after(args, i + 1)
    }
}

/// The activation token that the popup was opened with.
pub fn activation_token_from_args(args: &Vec<Option<String>>) -> (r: Option<String>)
    ensures
        optional_text(r) == token_after(args@, 1),
{
    let mut i: usize = 1;
    while i < args.len()
        invariant
            1 <= i,
            args@.len() >= 1 ==> i <= args@.len(),
            token_after(args@, 1) == token_after(args@, i as int),
        decreases args@.len() - i,
    {
        if is_argument(&args[i], "--activation-token") {
            if i + 1 < args.len() {
                return match &args[i + 1] {
                    Some(token) => Some(token.clone()),
                    None => None,
                };
            }
            return None;
        }
        i += 1;
    }
    None
}

/// The first of the places that may hold an activation token and do.
pub fn activation_token(
    option: Option<String>,
    from_args: Option<String>,
    own_variable: Option<String>,
    common_variable: Option<String>,
) -> (r: Option<String>)
    ensures
        r == match (option, from_args, own_variable) {
            (Some(_), _, _) => option,
            (None, Some(_), _) => from_args,
            (None, None, Some(_)) => own_variable,
            (None, None, None) => common_variable,
        },
{
    match option {
        Some(t) => Some(t),
        None => match from_args {
            Some(t) => Some(t),
            None => match own_variable {
                Some(t) => Some(t),
                None => common_variable,
            },
        },
    }
}

} // verus!

use vstd::prelude::*;

verus! {

/// A type that cannot be constructed. Use as a return type for functions
/// that never return.
pub struct Never(());

impl Never {
    /// No value of this type exists.
    #[verifier::type_invariant]
    spec fn never_exists(self) -> bool {
        false
    }
}

/// Takes the error out of a result that cannot be `Ok`.
pub trait ToError<E> {
    fn to_error(self) -> E;
}

impl<E> ToError<E> for Result<Never, E> {
    /// The error held.
    fn to_error(self) -> (e: E)
        ensures
            self == Err::<Never, E>(e),
    {
        match self {
            Ok(never) => {
                proof {
                    use_type_invariant(&never);
                }
                vstd::pervasive::unreached()
            },
            Err(e) => e,
        }
    }
}

/// What `Regex::new(pattern)` then `replace_all(text, replacement)` gives:
/// `None` where the pattern does not compile.
pub uninterp spec fn regex_replacement(
    pattern: Seq<char>,
    text: Seq<char>,
    replacement: Seq<char>,
) -> Option<Seq<char>>;

/// `regex::Regex::new` then `Regex::replace_all`: every leftmost-first match
/// of `pattern` in `text` replaced by `replacement`, or `None` where the
/// pattern does not compile. The result is named by `regex_replacement`.
#[verifier::external_body]
fn regex_replace_all(pattern: &str, text: &str, replacement: &str) -> (r: Option<String>)
    ensures
        match r {
            Some(s) => regex_replacement(pattern@, text@, replacement@) == Some(s@),
            None => regex_replacement(pattern@, text@, replacement@) is None,
        },
{
    match regex::Regex::new(pattern) {
        Ok(re) => Some(re.replace_all(text, replacement).into_owned()),
        Err(_) => None,
    }
}

/// The pattern of a path qualifier: an identifier followed by `::`.
pub open spec fn qualifier_pattern() -> Seq<char> {
    "[_a-zA-Z0-9]*::"@
}

/// `s` with every path qualifier (`ident::`) removed.
pub fn abs_to_rel_paths(s: &str) -> (r: Option<String>)
    ensures
        match r {
            Some(t) => regex_replacement(qualifier_pattern(), s@, ""@) == Some(t@),
            None => regex_replacement(qualifier_pattern(), s@, ""@) is None,
        },
{
    regex_replace_all("[_a-zA-Z0-9]*::", s, "")
}

} // verus!

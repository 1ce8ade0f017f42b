//! Finding text with the patterns of the `regex` crate.

use vstd::prelude::*;

verus! {

/// A compiled pattern of the `regex` crate. Nothing is known of what it
/// holds but the text that [`compiled_from`] names.
#[verifier::external_type_specification]
#[verifier::external_body]
pub struct ExRegex(regex::Regex);

/// The text that a pattern was compiled from with the settings of
/// `regex::Regex::new`: such a pattern matches as its text says. `None` for
/// one that was built with other settings, which may match otherwise.
pub uninterp spec fn compiled_from(pattern: regex::Regex) -> Option<Seq<char>>;

/// Whether `pattern` is a text that `regex::Regex::new` compiles.
pub uninterp spec fn well_formed(pattern: Seq<char>) -> bool;

/// The cut of `line` at the part of the first match of `pattern` that the
/// group `group` has matched: what stands before it, the part itself and
/// what stands behind it, as `regex::Regex::captures` and
/// `regex::Captures::name` find it with the settings of `regex::Regex::new`;
/// `None` where the pattern does not match or the group has no part in the
/// match.
pub uninterp spec fn cut_at(pattern: Seq<char>, line: Seq<char>, group: Seq<char>) -> Option<
    (Seq<char>, Seq<char>, Seq<char>),
>;

/// `text` without the first match of `pattern`, as `regex::Regex::replace`
/// leaves it with the settings of `regex::Regex::new` where the match is
/// replaced by nothing.
pub uninterp spec fn first_match_removed(pattern: Seq<char>, text: Seq<char>) -> Seq<char>;

/// Compiles a pattern; `None` where the pattern is not well-formed.
///
/// Trusted: this is `regex::Regex::new`. Whether it compiles a text is
/// named by [`well_formed`]; what it returns was compiled from that text.
#[verifier::external_body]
pub(crate) fn compile(pattern: &str) -> (compiled: Option<regex::Regex>)
    ensures
        compiled is Some <==> well_formed(pattern@),
        compiled matches Some(made) ==> compiled_from(made) == Some(pattern@),
{
    regex::Regex::new(pattern).ok()
}

/// A line cut at a match: what stands before the match, the match and what
/// stands behind it.
#[derive(Clone, Debug, PartialEq, Eq)]
pub struct Located {
    pub before: String,
    pub found: String,
    pub after: String,
}

/// The part of the first match of the pattern in `line` that the group
/// `group` has matched, with what stands before and behind it; `None` where
/// the pattern does not match or the group has no part in the match.
///
/// Trusted: this is `regex::Regex::captures` and `regex::Captures::name`.
/// The three parts are cut from the line at the ends of the match, so they
/// make up the line. For a pattern with the settings of
/// `regex::Regex::new`, where the match is found depends on the text of the
/// pattern, the line and the group alone, and is named by [`cut_at`].
#[verifier::external_body]
pub(crate) fn locate(pattern: &regex::Regex, line: &str, group: &str) -> (located: Option<Located>)
    ensures
        located matches Some(parts) ==> line@ == parts.before@ + parts.found@ + parts.after@,
        compiled_from(*pattern) matches Some(text) ==> match located {
            Some(parts) => cut_at(text, line@, group@) == Some(
                (parts.before@, parts.found@, parts.after@),
            ),
            None => cut_at(text, line@, group@) is None,
        },
{
    let found = pattern.captures(line)?.name(group)?;
    Some(
        Located {
            before: line[..found.start()].to_string(),
            found: found.as_str().to_string(),
            after: line[found.end()..].to_string(),
        },
    )
}

/// The text with the first match of the pattern taken out.
///
/// Trusted: this is `regex::Regex::replace` with an empty replacement. For
/// a pattern with the settings of `regex::Regex::new`, what it leaves
/// depends on the text of the pattern and on the text alone, and is named
/// by [`first_match_removed`].
#[verifier::external_body]
pub(crate) fn without_first_match(pattern: &regex::Regex, text: &str) -> (left: String)
    ensures
        compiled_from(*pattern) matches Some(from) ==> left@ == first_match_removed(from, text@),
{
    pattern.replace(text, "").into_owned()
}

} // verus!

//! Log filter directives: which texts can be handed to the `EnvFilter`
//! parser, and `LevelFilter`, a parsed filter that keeps the text it was
//! parsed from.
use crate::text::chars_of;
use vstd::prelude::*;

verus! {

#[verifier::external_type_specification]
#[verifier::external_body]
pub struct ExEnvFilter(tracing_subscriber::EnvFilter);

/// What `EnvFilter::try_new` makes of the filter directives `directives`:
/// `None` when it accepts them, otherwise the text of its parse error.
pub uninterp spec fn filter_parse_error(directives: Seq<char>) -> Option<Seq<char>>;

/// A character `char::is_whitespace` holds of (Unicode White_Space), which
/// is what `str::trim` removes.
pub open spec fn is_white_space(c: char) -> bool {
    ||| ('\u{9}' <= c && c <= '\u{d}')
    ||| c == ' '
    ||| c == '\u{85}'
    ||| c == '\u{a0}'
    ||| c == '\u{1680}'
    ||| ('\u{2000}' <= c && c <= '\u{200a}')
    ||| c == '\u{2028}'
    ||| c == '\u{2029}'
    ||| c == '\u{202f}'
    ||| c == '\u{205f}'
    ||| c == '\u{3000}'
}

fn is_white_space_char(c: char) -> (r: bool)
    ensures
        r == is_white_space(c),
{
    ('\u{9}' <= c && c <= '\u{d}') || c == ' ' || c == '\u{85}' || c == '\u{a0}' || c
        == '\u{1680}' || ('\u{2000}' <= c && c <= '\u{200a}') || c == '\u{2028}' || c
        == '\u{2029}' || c == '\u{202f}' || c == '\u{205f}' || c == '\u{3000}'
}

/// Where the comma-separated filter directive that holds position `j` of
/// `s` starts.
pub open spec fn directive_start(s: Seq<char>, j: int) -> int
    decreases j,
{
    if j <= 0 || s[j - 1] == ',' {
        j
    } else {
        directive_start(s, j - 1)
    }
}

/// Filter directives that the parser is sure to take without panicking: no
/// directive that starts with whitespace holds a character outside ASCII.
/// (The parser cuts each directive at positions taken from its trimmed text;
/// this is a sufficient condition for those cuts to fall between characters,
/// and it also leaves out a few directives the parser would accept.)
pub open spec fn filter_text_safe(s: Seq<char>) -> bool {
    forall|j: int|
        0 <= j < s.len() && (#[trigger] s[j] as u32) >= 128 ==> !is_white_space(
            s[directive_start(s, j)],
        )
}

/// Whether the filter directives `s` can be handed to the parser (see
/// `filter_text_safe`).
pub fn filter_text_is_safe(s: &str) -> (r: bool)
    ensures
        r == filter_text_safe(s@),
{
    let cs = chars_of(s);
    let mut start_ws = false;
    let mut i: usize = 0;
    while i < cs.len()
        invariant
            cs@ == s@,
            i <= cs.len(),
            forall|j: int|
                0 <= j < i && (#[trigger] cs@[j] as u32) >= 128 ==> !is_white_space(
                    cs@[directive_start(cs@, j)],
                ),
            i > 0 ==> start_ws == is_white_space(cs@[directive_start(cs@, i - 1)]),
        decreases cs.len() - i,
    {
        let c = cs[i];
        if i == 0 || cs[i - 1] == ',' {
            start_ws = is_white_space_char(c);
        }
        assert(start_ws == is_white_space(cs@[directive_start(cs@, i as int)]));
        if (c as u32) >= 128 && start_ws {
            assert(cs@[i as int] == c);
            return false;
        }
        i = i + 1;
    }
    true
}

/// The reason given for filter directives the parser cannot take.
pub open spec fn unsafe_filter_reason() -> Seq<char> {
    "a filter directive that starts with whitespace holds a character outside ASCII"@
}

/// A log filter together with the directives it was parsed from. Only
/// `parse_env_filter` makes one, so its directives are always the text the
/// filter was parsed from.
pub struct LevelFilter {
    filter: tracing_subscriber::EnvFilter,
    directives: String,
}

impl LevelFilter {
    /// The directives the filter was parsed from.
    pub closed spec fn source(&self) -> Seq<char> {
        self.directives@
    }

    /// The directives the filter was parsed from.
    pub fn directives(&self) -> (r: &str)
        ensures
            r@ == self.source(),
    {
        self.directives.as_str()
    }

    /// The parsed filter.
    pub fn into_env_filter(self) -> tracing_subscriber::EnvFilter {
        self.filter
    }
}

/// Parses log filter directives (`EnvFilter::try_new`), giving the filter,
/// kept with the directives it was parsed from, or the text of the parse
/// error (its `Display`). Whether it fails, and the error's text, are named
/// `filter_parse_error(directives)`. The parser cuts each directive at
/// positions taken from its trimmed text, so a directive that starts with
/// whitespace and holds a character outside ASCII can make it panic: the
/// `requires` leaves those out.
#[verifier::external_body]
pub(crate) fn parse_env_filter(directives: &str) -> (r: Result<LevelFilter, String>)
    requires
        filter_text_safe(directives@),
    ensures
        match r {
            Ok(f) => filter_parse_error(directives@) is None && f.source() == directives@,
            Err(m) => filter_parse_error(directives@) == Some(m@),
        },
{
    match tracing_subscriber::EnvFilter::try_new(directives) {
        Ok(filter) => Ok(LevelFilter { filter, directives: directives.to_owned() }),
        Err(e) => Err(e.to_string()),
    }
}

} // verus!

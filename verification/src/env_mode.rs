//! The environment classifier: a two-valued runtime mode with lossy,
//! case-insensitive parsing from free-form strings.  Unrecognized or
//! absent input always resolves to the `PROD` default; the classifier
//! never fails.

use vstd::prelude::*;
use vstd::string::StrSliceExecFns;

verus! {

/// The environment the server is considered to run in.  The `PROD`
/// variant tells the consuming server to leave the live-reload watch
/// channel out; `DEV` wires it up.  Defaults to `PROD`.
#[derive(Debug, Clone, Copy, PartialEq, Eq, Structural)]
pub enum RustEnv {
    PROD,
    DEV,
}

/// ASCII lower-casing of a single character: the capitals `A`..`Z` map
/// to their small counterparts, every other character is left alone.
pub open spec fn lower_char(c: char) -> char {
    match c {
        'A' => 'a',
        'B' => 'b',
        'C' => 'c',
        'D' => 'd',
        'E' => 'e',
        'F' => 'f',
        'G' => 'g',
        'H' => 'h',
        'I' => 'i',
        'J' => 'j',
        'K' => 'k',
        'L' => 'l',
        'M' => 'm',
        'N' => 'n',
        'O' => 'o',
        'P' => 'p',
        'Q' => 'q',
        'R' => 'r',
        'S' => 's',
        'T' => 't',
        'U' => 'u',
        'V' => 'v',
        'W' => 'w',
        'X' => 'x',
        'Y' => 'y',
        'Z' => 'z',
        _ => c,
    }
}

/// ASCII lower-casing of a whole string.
pub open spec fn lower(s: Seq<char>) -> Seq<char> {
    Seq::new(s.len(), |i: int| lower_char(s[i]))
}

/// The spellings the classifier recognizes as `DEV`.
pub open spec fn spells_dev(s: Seq<char>) -> bool {
    lower(s) == "dev"@ || lower(s) == "development"@
}

/// The spellings the classifier recognizes as `PROD`.
pub open spec fn spells_prod(s: Seq<char>) -> bool {
    lower(s) == "prod"@ || lower(s) == "production"@
}

/// What the classifier makes of a string: a spelling of `DEV` yields
/// `DEV`; everything else, the `PROD` spellings included, yields `PROD`.
pub open spec fn classified(s: Seq<char>) -> RustEnv {
    if spells_dev(s) {
        RustEnv::DEV
    } else {
        RustEnv::PROD
    }
}

fn char_to_lower(c: char) -> (r: char)
    ensures
        r == lower_char(c),
{
    match c {
        'A' => 'a',
        'B' => 'b',
        'C' => 'c',
        'D' => 'd',
        'E' => 'e',
        'F' => 'f',
        'G' => 'g',
        'H' => 'h',
        'I' => 'i',
        'J' => 'j',
        'K' => 'k',
        'L' => 'l',
        'M' => 'm',
        'N' => 'n',
        'O' => 'o',
        'P' => 'p',
        'Q' => 'q',
        'R' => 'r',
        'S' => 's',
        'T' => 't',
        'U' => 'u',
        'V' => 'v',
        'W' => 'w',
        'X' => 'x',
        'Y' => 'y',
        'Z' => 'z',
        _ => c,
    }
}

/// Whether two strings agree after ASCII lower-casing.
fn eq_ignore_case(s: &str, t: &str) -> (r: bool)
    ensures
        r == (lower(s@) == lower(t@)),
{
    let n: usize = s.unicode_len();
    if n != t.unicode_len() {
        assert(lower(s@).len() != lower(t@).len());
        return false;
    }
    let mut i: usize = 0;
    while i < n
        invariant
            0 <= i <= n,
            n == s@.len(),
            n == t@.len(),
            forall|j: int| 0 <= j < i ==> lower_char(s@[j]) == lower_char(t@[j]),
        decreases n - i,
    {
        if char_to_lower(s.get_char(i)) != char_to_lower(t.get_char(i)) {
            assert(lower(s@)[i as int] != lower(t@)[i as int]);
            return false;
        }
        i = i + 1;
    }
    assert(lower(s@) =~= lower(t@));
    true
}

/// The recognized literals are already lower-case, so lower-casing
/// leaves them as they are.
proof fn lemma_literals_lower()
    ensures
        lower("dev"@) == "dev"@,
        lower("development"@) == "development"@,
{
    reveal_strlit("dev");
    reveal_strlit("development");
    assert(lower("dev"@) =~= "dev"@);
    assert(lower("development"@) =~= "development"@);
}

/// Classifies a free-form string: a case-insensitive spelling of `dev`
/// or `development` yields `DEV`, anything else yields `PROD`.
pub fn classify(input: &str) -> (r: RustEnv)
    ensures
        r == classified(input@),
{
    proof {
        lemma_literals_lower();
    }
    if eq_ignore_case(input, "dev") || eq_ignore_case(input, "development") {
        RustEnv::DEV
    } else {
        RustEnv::PROD
    }
}

impl Default for RustEnv {
    fn default() -> (r: Self)
        ensures
            r == RustEnv::PROD,
    {
        RustEnv::PROD
    }
}

impl RustEnv {
    /// Parses an environment name.  The lookup is lossy and total: the
    /// result is always `Ok`, and unrecognized spellings resolve to
    /// `PROD`, so bad input never fails the caller.
    pub fn from_str(input: &str) -> (r: Result<RustEnv, ()>)
        ensures
            r == Ok::<RustEnv, ()>(classified(input@)),
    {
        Ok(classify(input))
    }

    /// Classifies the result of an optional lookup, such as reading an
    /// environment variable: an absent value resolves to `PROD` without
    /// error, a present one is classified like any other string.
    pub fn from_lookup(input: Option<&str>) -> (r: RustEnv)
        ensures
            r == (match input {
                Some(s) => classified(s@),
                None => RustEnv::PROD,
            }),
    {
        match input {
            Some(s) => classify(s),
            None => RustEnv::PROD,
        }
    }
}

/// Law: every recognized spelling of the development mode classifies as
/// `DEV`, and every recognized spelling of the production mode
/// classifies as `PROD`.
pub proof fn lemma_recognized_spellings(s: Seq<char>)
    ensures
        spells_dev(s) ==> classified(s) == RustEnv::DEV,
        spells_prod(s) ==> classified(s) == RustEnv::PROD,
{
    if spells_prod(s) {
        reveal_strlit("dev");
        reveal_strlit("development");
        reveal_strlit("prod");
        reveal_strlit("production");
        assert(lower(s).len() != 3 && lower(s).len() != 11);
    }
}

/// Law: every string outside the recognized set classifies as `PROD`,
/// the default; together with the `None` case of `from_lookup` this is
/// the no-fail policy for bad or absent input.
pub proof fn lemma_unrecognized_defaults(s: Seq<char>)
    requires
        !spells_dev(s),
    ensures
        classified(s) == RustEnv::PROD,
{
}

} // verus!

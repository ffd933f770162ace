//! Ordered, case-insensitive regex classification: the heart of account
//! resolution. The regex engine itself is called through one trusted wrapper;
//! everything around it - rule order, first match wins, table concatenation -
//! is verified.

use vstd::prelude::*;
use crate::errors::RowError;
use crate::settings::Mapping;

verus! {

/// Whether `pattern` is a regular expression the engine accepts under the
/// given case sensitivity: a property of the pattern text and the case flag
/// (the flag changes how the pattern is compiled, so it can change whether
/// the engine's size limits are met).
pub uninterp spec fn regex_ok(pattern: Seq<char>, case_insensitive: bool) -> bool;

/// The text of the leftmost match of `pattern` in `haystack` (under the given
/// case sensitivity), or `None` where nothing matches: a function of the
/// three arguments alone.
pub uninterp spec fn regex_find_spec(
    pattern: Seq<char>,
    case_insensitive: bool,
    haystack: Seq<char>,
) -> Option<Seq<char>>;

/// Relies on `regex::RegexBuilder` (`new`, `case_insensitive`, `build`) and
/// `regex::Regex::find`: whether a pattern compiles depends on the pattern
/// and the case flag alone, and the leftmost match depends on the pattern,
/// the case flag and the haystack alone.
#[verifier::external_body]
pub fn regex_find(pattern: &str, case_insensitive: bool, haystack: &str) -> (r: Result<
    Option<String>,
    RowError,
>)
    ensures
        r is Ok <==> regex_ok(pattern@, case_insensitive),
        r matches Err(e) ==> e == RowError::PatternInvalid,
        r matches Ok(m) ==> (m is Some <==> regex_find_spec(
            pattern@,
            case_insensitive,
            haystack@,
        ) is Some),
        r matches Ok(m) && m matches Some(t) ==> regex_find_spec(
            pattern@,
            case_insensitive,
            haystack@,
        ) == Some(t@),
{
    match regex::RegexBuilder::new(pattern).case_insensitive(case_insensitive).build() {
        Ok(re) => Ok(re.find(haystack).map(|m| m.as_str().to_string())),
        Err(_) => Err(RowError::PatternInvalid),
    }
}

/// The outcome of walking an ordered rule table top to bottom against `hint`:
/// the first rule whose pattern matches wins; a pattern that does not compile
/// stops the walk with an error; a walk falling off the end yields `None`.
pub open spec fn spec_classify(maps: Seq<Mapping>, hint: Seq<char>) -> Result<
    Option<Seq<char>>,
    RowError,
>
    decreases maps.len(),
{
    if maps.len() == 0 {
        Ok(None)
    } else if !regex_ok(maps[0].key@, true) {
        Err(RowError::PatternInvalid)
    } else if regex_find_spec(maps[0].key@, true, hint) is Some {
        Ok(Some(maps[0].value@))
    } else {
        spec_classify(maps.drop_first(), hint)
    }
}

/// Walks the rule table in order with case-insensitive matching, exactly as
/// [`spec_classify`] states it.
pub fn classify(maps: &Vec<Mapping>, hint: &str) -> (r: Result<Option<String>, RowError>)
    ensures
        match r {
            Ok(Some(v)) => spec_classify(maps@, hint@) == Ok::<Option<Seq<char>>, RowError>(
                Some(v@),
            ),
            Ok(None) => spec_classify(maps@, hint@) == Ok::<Option<Seq<char>>, RowError>(
                None::<Seq<char>>,
            ),
            Err(e) => spec_classify(maps@, hint@) == Err::<Option<Seq<char>>, RowError>(e),
        },
{
    let n = maps.len();
    let mut i: usize = 0;
    proof {
        assert(maps@.skip(0) =~= maps@);
    }
    while i < n
        invariant
            n == maps@.len(),
            0 <= i <= n,
            spec_classify(maps@, hint@) == spec_classify(maps@.skip(i as int), hint@),
        decreases n - i,
    {
        proof {
            assert(maps@.skip(i as int)[0] == maps@[i as int]);
            assert(maps@.skip(i as int).drop_first() =~= maps@.skip(i + 1));
        }
        match regex_find(maps[i].key.as_str(), true, hint) {
            Err(e) => {
                return Err(e);
            },
            Ok(Some(_)) => {
                return Ok(Some(maps[i].value.clone()));
            },
            Ok(None) => {
                i = i + 1;
            },
        }
    }
    proof {
        assert(maps@.skip(n as int) =~= Seq::<Mapping>::empty());
    }
    Ok(None)
}

/// Walking a concatenated table equals walking the first table and, only
/// where it falls off the end unmatched, the second.
pub proof fn lemma_classify_append(a: Seq<Mapping>, b: Seq<Mapping>, hint: Seq<char>)
    ensures
        spec_classify(a + b, hint) == match spec_classify(a, hint) {
            Ok(Some(v)) => Ok(Some(v)),
            Ok(None) => spec_classify(b, hint),
            Err(e) => Err::<Option<Seq<char>>, RowError>(e),
        },
    decreases a.len(),
{
    if a.len() == 0 {
        assert(a + b =~= b);
    } else {
        assert((a + b)[0] == a[0]);
        assert((a + b).drop_first() =~= a.drop_first() + b);
        lemma_classify_append(a.drop_first(), b, hint);
    }
}

/// Income fallback law: a transaction classified as income is matched against
/// the expense table first, the income table only after it. So whenever some
/// expense rule matches the hint, appending the income table changes nothing:
/// the expense rule's account is returned.
pub proof fn lemma_expense_match_wins(expense: Seq<Mapping>, income: Seq<Mapping>, hint: Seq<char>)
    ensures
        spec_classify(expense, hint) matches Ok(m) && m is Some ==> spec_classify(
            expense + income,
            hint,
        ) == spec_classify(expense, hint),
{
    lemma_classify_append(expense, income, hint);
}

} // verus!

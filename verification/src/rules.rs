//! Rule resolution: matching a file key against every rule's pattern and
//! picking the most specific match.

use vstd::prelude::*;
use vstd::utf8::encode_utf8;
use crate::error::IngestionError;
use crate::models::IngestionConfigRule;

verus! {

/// Whether a pattern is a well-formed regular expression. A function of
/// the pattern alone.
pub uninterp spec fn regex_valid(pattern: Seq<char>) -> bool;

/// Whether a well-formed pattern matches somewhere in a text. A function
/// of the two strings alone.
pub uninterp spec fn regex_matches(pattern: Seq<char>, text: Seq<char>) -> bool;

/// Relies on `regex::Regex::new` and `regex::Regex::is_match`: whether the
/// pattern compiles, and then whether it matches anywhere in the text.
#[verifier::external_body]
fn pattern_match(pattern: &str, text: &str) -> (r: Result<bool, String>)
    ensures
        match r {
            Ok(m) => regex_valid(pattern@) && m == regex_matches(pattern@, text@),
            Err(_) => !regex_valid(pattern@),
        },
{
    match regex::Regex::new(pattern) {
        Ok(re) => Ok(re.is_match(text)),
        Err(e) => Err(e.to_string()),
    }
}

/// The pattern of each rule in a rule list.
pub open spec fn rule_patterns(rules: Seq<IngestionConfigRule>) -> Seq<Seq<char>> {
    Seq::new(
        rules.len(),
        |i: int|
            if 0 <= i < rules.len() {
                rules[i].pattern@
            } else {
                Seq::empty()
            },
    )
}

/// Whether every pattern of a list is well formed. An ill-formed stored
/// pattern surfaces at resolution time, not earlier.
pub open spec fn all_valid(patterns: Seq<Seq<char>>) -> bool {
    forall|i: int| 0 <= i < patterns.len() ==> regex_valid(#[trigger] patterns[i])
}

/// A pattern's length for the specificity comparison: the length of its
/// encoded text, as the stored pattern strings measure it.
pub open spec fn pattern_weight(p: Seq<char>) -> nat {
    encode_utf8(p).len()
}

/// The selected rule among the matching ones: the position of the first
/// pattern of greatest length that matches the key, or -1 when none
/// matches. Later patterns win only by being strictly longer, so the
/// first of equally long matches is kept.
pub open spec fn best_match(patterns: Seq<Seq<char>>, key: Seq<char>) -> int
    decreases patterns.len(),
{
    if patterns.len() == 0 {
        -1
    } else {
        let b = best_match(patterns.drop_last(), key);
        let l = patterns.len() - 1;
        if regex_matches(patterns[l], key) && (b == -1 || pattern_weight(patterns[l])
            > pattern_weight(patterns[b])) {
            l
        } else {
            b
        }
    }
}

/// `best_match` names a matching pattern, when it names one.
pub proof fn lemma_best_match(patterns: Seq<Seq<char>>, key: Seq<char>)
    ensures
        -1 <= best_match(patterns, key) < patterns.len(),
        best_match(patterns, key) >= 0 ==> regex_matches(patterns[best_match(patterns, key)], key),
        best_match(patterns, key) == -1 ==> forall|i: int|
            0 <= i < patterns.len() ==> !regex_matches(#[trigger] patterns[i], key),
    decreases patterns.len(),
{
    if patterns.len() > 0 {
        lemma_best_match(patterns.drop_last(), key);
        assert(forall|i: int|
            0 <= i < patterns.len() - 1 ==> patterns.drop_last()[i] == patterns[i]);
    }
}

/// The selection rule in full: the selected pattern matches, no matching
/// pattern is longer, and every equally long match stands at or after the
/// selected position — the first longest match wins.
pub proof fn lemma_best_match_selects(patterns: Seq<Seq<char>>, key: Seq<char>)
    ensures
        best_match(patterns, key) >= 0 ==> {
            let b = best_match(patterns, key);
            &&& forall|i: int|
                0 <= i < patterns.len() && regex_matches(#[trigger] patterns[i], key)
                    ==> pattern_weight(patterns[i]) <= pattern_weight(patterns[b])
            &&& forall|i: int|
                0 <= i < b && regex_matches(#[trigger] patterns[i], key) ==> pattern_weight(
                    patterns[i],
                ) < pattern_weight(patterns[b])
        },
    decreases patterns.len(),
{
    if patterns.len() > 0 {
        let pre = patterns.drop_last();
        lemma_best_match(pre, key);
        lemma_best_match_selects(pre, key);
        assert(forall|i: int| 0 <= i < patterns.len() - 1 ==> pre[i] == patterns[i]);
    }
}

/// Resolves a key against a rule list: every pattern is evaluated against
/// the key, an ill-formed pattern is a configuration error, and among the
/// matches the first longest pattern wins. `None` means no rule matched.
#[verifier::loop_isolation(false)]
pub fn resolve_rule<'a>(rules: &'a Vec<IngestionConfigRule>, key: &str) -> (r: Result<
    Option<&'a IngestionConfigRule>,
    IngestionError,
>)
    ensures
        ({
            let pv = rule_patterns(rules@);
            match r {
                Ok(opt) => all_valid(pv) && (match opt {
                    Some(rule) => best_match(pv, key@) >= 0 && *rule == rules@[best_match(
                        pv,
                        key@,
                    )],
                    None => best_match(pv, key@) == -1,
                }),
                Err(e) => e is Config && !all_valid(pv),
            }
        }),
{
    let ghost pv = rule_patterns(rules@);
    let n = rules.len();
    let mut best: usize = 0;
    let mut has_best = false;
    let mut i: usize = 0;
    while i < n
        invariant
            0 <= i <= n,
            forall|j: int| 0 <= j < i ==> regex_valid(#[trigger] pv[j]),
            has_best ==> best < i && best_match(pv.take(i as int), key@) == best,
            !has_best ==> best_match(pv.take(i as int), key@) == -1,
        decreases n - i,
    {
        proof {
            assert(pv.take(i + 1).drop_last() =~= pv.take(i as int));
            assert(pv.take(i + 1).last() == pv[i as int]);
        }
        match pattern_match(rules[i].pattern.as_str(), key) {
            Err(m) => {
                proof {
                    assert(!regex_valid(pv[i as int]));
                }
                return Err(IngestionError::Config(m));
            },
            Ok(true) => {
                if !has_best || rules[i].pattern.as_str().as_bytes().len()
                    > rules[best].pattern.as_str().as_bytes().len() {
                    best = i;
                    has_best = true;
                }
            },
            Ok(false) => {},
        }
        i = i + 1;
    }
    proof {
        assert(pv.take(n as int) =~= pv);
    }
    if has_best {
        Ok(Some(&rules[best]))
    } else {
        Ok(None)
    }
}

} // verus!

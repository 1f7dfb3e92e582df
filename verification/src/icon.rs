//! The icon in front of the line, chosen by the player's name.

use vstd::prelude::*;
use crate::chars::{chars_of, contains, occurs_in};

verus! {

/// The value that `str::to_lowercase` of std returns for the text `s`: its
/// lowercase equivalent by the Unicode rules. The rules are not modelled;
/// this only names the result.
pub uninterp spec fn lowercase(s: Seq<char>) -> Seq<char>;

/// The lowercase equivalent of `s`.
///
/// Trusted: the body calls `str::to_lowercase` of std. The contract claims
/// only that the result is the one named by [`lowercase`], that is, that the
/// call depends on the text alone.
#[verifier::external_body]
fn to_lowercase(s: &str) -> (r: String)
    ensures
        r@ == lowercase(s@),
{
    s.to_lowercase()
}

/// One entry of the icon list: players whose name holds `pattern` get `icon`.
/// Patterns are written in lowercase.
pub struct IconRule {
    pub pattern: String,
    pub icon: String,
}

/// Whether a rule's pattern applies to a player's name: the pattern, as it
/// is written, occurs in the name put in lowercase. So the letter case of
/// the name does not matter.
pub open spec fn rule_matches(pattern: Seq<char>, name: Seq<char>) -> bool {
    occurs_in(lowercase(name), pattern)
}

/// The icon for the player `name`: that of the first rule in `rules` whose
/// pattern applies, and `fallback` if none does.
pub open spec fn icon_for(rules: Seq<IconRule>, fallback: Seq<char>, name: Seq<char>) -> Seq<char>
    decreases rules.len(),
{
    if rules.len() == 0 {
        fallback
    } else if rule_matches(rules[0].pattern@, name) {
        rules[0].icon@
    } else {
        icon_for(rules.drop_first(), fallback, name)
    }
}

/// The order of the rules decides: the icon is that of the first rule that
/// applies, whichever later rules apply as well.
pub proof fn lemma_first_match_wins(
    rules: Seq<IconRule>,
    fallback: Seq<char>,
    name: Seq<char>,
    first: int,
)
    requires
        0 <= first < rules.len(),
        rule_matches(rules[first].pattern@, name),
        forall|j: int| 0 <= j < first ==> !rule_matches(#[trigger] rules[j].pattern@, name),
    ensures
        icon_for(rules, fallback, name) == rules[first].icon@,
    decreases first,
{
    if first > 0 {
        assert(!rule_matches(rules[0].pattern@, name));
        let rest = rules.drop_first();
        assert forall|j: int| 0 <= j < first - 1 implies !rule_matches(
            #[trigger] rest[j].pattern@,
            name,
        ) by {
            assert(rest[j] == rules[j + 1]);
        }
        lemma_first_match_wins(rest, fallback, name, first - 1);
    }
}

/// Of two rules that both apply to a name, the earlier one gives the icon.
pub proof fn lemma_earlier_rule_wins(
    first: IconRule,
    second: IconRule,
    fallback: Seq<char>,
    name: Seq<char>,
)
    requires
        rule_matches(first.pattern@, name),
        rule_matches(second.pattern@, name),
    ensures
        icon_for(seq![first, second], fallback, name) == first.icon@,
{
    lemma_first_match_wins(seq![first, second], fallback, name, 0);
}

/// Where no rule applies, the icon is the fallback.
pub proof fn lemma_no_match_falls_back(rules: Seq<IconRule>, fallback: Seq<char>, name: Seq<char>)
    requires
        forall|j: int| 0 <= j < rules.len() ==> !rule_matches(#[trigger] rules[j].pattern@, name),
    ensures
        icon_for(rules, fallback, name) == fallback,
    decreases rules.len(),
{
    if rules.len() > 0 {
        assert(!rule_matches(rules[0].pattern@, name));
        let rest = rules.drop_first();
        assert forall|j: int| 0 <= j < rest.len() implies !rule_matches(
            #[trigger] rest[j].pattern@,
            name,
        ) by {
            assert(rest[j] == rules[j + 1]);
        }
        lemma_no_match_falls_back(rest, fallback, name);
    }
}

/// The icon for the player `name`.
pub fn select_icon(rules: &Vec<IconRule>, fallback: &str, name: &str) -> (r: String)
    ensures
        r@ == icon_for(rules@, fallback@, name@),
{
    let folded = to_lowercase(name);
    let lowered = chars_of(folded.as_str());
    let mut i: usize = 0;
    assert(rules@.skip(0) =~= rules@);
    while i < rules.len()
        invariant
            i <= rules.len(),
            lowered@ == lowercase(name@),
            icon_for(rules@, fallback@, name@) == icon_for(
                rules@.skip(i as int),
                fallback@,
                name@,
            ),
        decreases rules.len() - i,
    {
        assert(rules@.skip(i as int)[0] == rules@[i as int]);
        let pattern = chars_of(rules[i].pattern.as_str());
        if contains(&lowered, &pattern) {
            return rules[i].icon.clone();
        }
        assert(rules@.skip(i as int).drop_first() =~= rules@.skip(i + 1));
        i += 1;
    }
    fallback.to_owned()
}

} // verus!

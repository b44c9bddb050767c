//! The order of texts by which the members of a JSON object are walked.

use vstd::prelude::*;

verus! {

/// `a` comes before `b`: at the first place where they differ `a` has the
/// character with the lesser code point, or `a` ends there and `b` does not.
pub open spec fn text_before(a: Seq<char>, b: Seq<char>) -> bool
    decreases a.len(),
{
    if b.len() == 0 {
        false
    } else if a.len() == 0 {
        true
    } else if a[0] != b[0] {
        (a[0] as u32) < (b[0] as u32)
    } else {
        text_before(a.drop_first(), b.drop_first())
    }
}

/// Each text comes before those after it.
pub open spec fn ascending(texts: Seq<Seq<char>>) -> bool {
    forall|i: int, j: int|
        0 <= i < j < texts.len() ==> text_before(#[trigger] texts[i], #[trigger] texts[j])
}

/// The sequence holds the texts of the set, and no others.
pub open spec fn lists(texts: Seq<Seq<char>>, set: Set<Seq<char>>) -> bool {
    forall|text: Seq<char>| set.contains(text) <==> #[trigger] texts.contains(text)
}

/// The texts of a set, each once, in ascending order.
pub open spec fn in_order(set: Set<Seq<char>>) -> Seq<Seq<char>> {
    choose|texts: Seq<Seq<char>>| ascending(texts) && lists(texts, set)
}

/// No text comes before itself.
pub proof fn lemma_before_is_strict(a: Seq<char>)
    ensures
        !text_before(a, a),
    decreases a.len(),
{
    if a.len() > 0 {
        lemma_before_is_strict(a.drop_first());
    }
}

/// What comes before a text comes before all that the text comes before.
pub proof fn lemma_before_is_transitive(a: Seq<char>, b: Seq<char>, c: Seq<char>)
    requires
        text_before(a, b),
        text_before(b, c),
    ensures
        text_before(a, c),
    decreases a.len(),
{
    if a.len() > 0 && a[0] == b[0] && b[0] == c[0] {
        lemma_before_is_transitive(a.drop_first(), b.drop_first(), c.drop_first());
    }
}

/// A set has one ascending sequence at most.
pub proof fn lemma_order_is_unique(first: Seq<Seq<char>>, second: Seq<Seq<char>>)
    requires
        ascending(first),
        ascending(second),
        forall|text: Seq<char>| first.contains(text) <==> second.contains(text),
    ensures
        first == second,
    decreases first.len(),
{
    if first.len() == 0 {
        if second.len() > 0 {
            assert(second.contains(second[0]));
            assert(first.contains(second[0]));
        }
        assert(first =~= second);
    } else {
        assert(first.contains(first[0]));
        assert(second.contains(first[0]));
        let at = choose|k: int| 0 <= k < second.len() && second[k] == first[0];
        assert(second.contains(second[0]));
        assert(first.contains(second[0]));
        let back = choose|k: int| 0 <= k < first.len() && first[k] == second[0];
        if at > 0 {
            assert(text_before(second[0], second[at]));
            if back > 0 {
                assert(text_before(first[0], first[back]));
                lemma_before_is_transitive(first[0], second[0], first[0]);
            }
            lemma_before_is_strict(first[0]);
        }
        assert(second[0] == first[0]);
        let rest_first = first.drop_first();
        let rest_second = second.drop_first();
        assert forall|i: int, j: int| 0 <= i < j < rest_first.len() implies text_before(
            #[trigger] rest_first[i],
            #[trigger] rest_first[j],
        ) by {
            assert(text_before(first[i + 1], first[j + 1]));
        }
        assert forall|i: int, j: int| 0 <= i < j < rest_second.len() implies text_before(
            #[trigger] rest_second[i],
            #[trigger] rest_second[j],
        ) by {
            assert(text_before(second[i + 1], second[j + 1]));
        }
        assert forall|text: Seq<char>| rest_first.contains(text) <==> rest_second.contains(
            text,
        ) by {
            lemma_before_is_strict(first[0]);
            if rest_first.contains(text) {
                let k = choose|k: int| 0 <= k < rest_first.len() && rest_first[k] == text;
                assert(first[k + 1] == text);
                assert(text_before(first[0], first[k + 1]));
                assert(first.contains(text));
                assert(second.contains(text));
                let m = choose|m: int| 0 <= m < second.len() && second[m] == text;
                assert(m != 0);
                assert(rest_second[m - 1] == text);
            }
            if rest_second.contains(text) {
                let k = choose|k: int| 0 <= k < rest_second.len() && rest_second[k] == text;
                assert(second[k + 1] == text);
                assert(text_before(second[0], second[k + 1]));
                assert(second.contains(text));
                assert(first.contains(text));
                let m = choose|m: int| 0 <= m < first.len() && first[m] == text;
                assert(m != 0);
                assert(rest_first[m - 1] == text);
            }
        }
        lemma_order_is_unique(rest_first, rest_second);
        assert(first =~= second) by {
            assert forall|i: int| 0 <= i < first.len() implies first[i] == second[i] by {
                if i > 0 {
                    assert(rest_first[i - 1] == first[i]);
                    assert(rest_second[i - 1] == second[i]);
                }
            }
            assert(first.len() == rest_first.len() + 1);
            assert(second.len() == rest_second.len() + 1);
        }
    }
}

/// An ascending sequence that lists a set is the set in order.
pub proof fn lemma_in_order(texts: Seq<Seq<char>>, set: Set<Seq<char>>)
    requires
        ascending(texts),
        lists(texts, set),
    ensures
        in_order(set) == texts,
{
    let chosen = in_order(set);
    assert(ascending(chosen) && lists(chosen, set));
    assert forall|text: Seq<char>| texts.contains(text) <==> chosen.contains(text) by {
        assert(set.contains(text) <==> texts.contains(text));
        assert(set.contains(text) <==> chosen.contains(text));
    }
    lemma_order_is_unique(texts, chosen);
}

} // verus!

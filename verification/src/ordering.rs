//! What the ordered list of a snapshot holds: one butterfly for each Japanese
//! name, the first of that name, in the order of the names.
use vstd::prelude::*;
use crate::butterfly::ButterflyView;
use crate::butterfly_collector::{insertion_point, placed, sorted_unique};
use crate::text::{lemma_lex_irreflexive, lemma_lex_total, lemma_lex_transitive, lex_lt};

verus! {

/// Whether the Japanese names of a list ascend strictly.
pub open spec fn ascending(list: Seq<ButterflyView>) -> bool {
    forall|i: int, j: int|
        0 <= i < j < list.len() ==> lex_lt((#[trigger] list[i]).jp_name, (#[trigger] list[j]).jp_name)
}

/// Index of the first butterfly at or after `from` with the given Japanese
/// name, or the length of the list if there is none.
pub open spec fn first_named(list: Seq<ButterflyView>, name: Seq<char>, from: int) -> int
    decreases list.len() - from,
{
    if from < 0 || from >= list.len() {
        list.len() as int
    } else if list[from].jp_name == name {
        from
    } else {
        first_named(list, name, from + 1)
    }
}

/// Whether an ordered list holds a butterfly with the given Japanese name.
pub open spec fn holds_name(list: Seq<ButterflyView>, name: Seq<char>) -> bool {
    let k = insertion_point(list, name, 0);
    k < list.len() && list[k].jp_name == name
}

/// Whether `ordered` is the ordered list of `list`: its names ascend
/// strictly, so that no name occurs twice; each of its butterflies is the
/// first butterfly of `list` with its name; and it holds every name of
/// `list`.
pub open spec fn settled(list: Seq<ButterflyView>, ordered: Seq<ButterflyView>) -> bool {
    &&& ascending(ordered)
    &&& forall|i: int|
        0 <= i < ordered.len() ==> {
            &&& first_named(list, (#[trigger] ordered[i]).jp_name, 0) < list.len()
            &&& ordered[i] == list[first_named(list, ordered[i].jp_name, 0)]
        }
    &&& forall|k: int| 0 <= k < list.len() ==> holds_name(ordered, (#[trigger] list[k]).jp_name)
}

/// What `first_named` finds: no butterfly before it has the name, and the
/// butterfly at it, if there is one, has it.
proof fn lemma_first_named_bounds(list: Seq<ButterflyView>, name: Seq<char>, from: int)
    requires
        0 <= from <= list.len(),
    ensures
        from <= first_named(list, name, from) <= list.len(),
        first_named(list, name, from) < list.len() ==> list[first_named(list, name, from)].jp_name
            == name,
        forall|j: int| from <= j < first_named(list, name, from) ==> (#[trigger] list[j]).jp_name != name,
    decreases list.len() - from,
{
    if from < list.len() && list[from].jp_name != name {
        lemma_first_named_bounds(list, name, from + 1);
    }
}

/// An index with the name, before which no butterfly has the name, is what
/// `first_named` finds.
proof fn lemma_first_named_is(list: Seq<ButterflyView>, name: Seq<char>, from: int, at: int)
    requires
        0 <= from <= at <= list.len(),
        at < list.len() ==> list[at].jp_name == name,
        forall|j: int| from <= j < at ==> (#[trigger] list[j]).jp_name != name,
    ensures
        first_named(list, name, from) == at,
    decreases at - from,
{
    if from < at {
        lemma_first_named_is(list, name, from + 1, at);
    }
}

/// What `insertion_point` finds: every name before it comes before the given
/// name, and the name at it, if there is one, does not.
proof fn lemma_insertion_point_bounds(list: Seq<ButterflyView>, name: Seq<char>, from: int)
    requires
        0 <= from <= list.len(),
    ensures
        from <= insertion_point(list, name, from) <= list.len(),
        insertion_point(list, name, from) < list.len() ==> !lex_lt(
            list[insertion_point(list, name, from)].jp_name,
            name,
        ),
        forall|j: int|
            from <= j < insertion_point(list, name, from) ==> lex_lt(
                (#[trigger] list[j]).jp_name,
                name,
            ),
    decreases list.len() - from,
{
    if from < list.len() && lex_lt(list[from].jp_name, name) {
        lemma_insertion_point_bounds(list, name, from + 1);
    }
}

/// An index before which every name comes before the given name, and whose
/// own name does not, is what `insertion_point` finds.
proof fn lemma_insertion_point_is(list: Seq<ButterflyView>, name: Seq<char>, from: int, at: int)
    requires
        0 <= from <= at <= list.len(),
        at < list.len() ==> !lex_lt(list[at].jp_name, name),
        forall|j: int| from <= j < at ==> lex_lt((#[trigger] list[j]).jp_name, name),
    ensures
        insertion_point(list, name, from) == at,
    decreases at - from,
{
    if from < at {
        lemma_insertion_point_is(list, name, from + 1, at);
    }
}

/// In a list whose names ascend, a butterfly is found at its own name.
proof fn lemma_found_at_own_name(list: Seq<ButterflyView>, i: int)
    requires
        ascending(list),
        0 <= i < list.len(),
    ensures
        insertion_point(list, list[i].jp_name, 0) == i,
        holds_name(list, list[i].jp_name),
{
    let name = list[i].jp_name;
    lemma_lex_irreflexive(name);
    assert forall|j: int| 0 <= j < i implies lex_lt((#[trigger] list[j]).jp_name, name) by {
        assert(lex_lt(list[j].jp_name, list[i].jp_name));
    }
    lemma_insertion_point_is(list, name, 0, i);
}

/// Placing a butterfly keeps the names ascending, and the list then holds
/// the butterfly's name.
proof fn lemma_placed_ascending(list: Seq<ButterflyView>, b: ButterflyView)
    requires
        ascending(list),
    ensures
        ascending(placed(list, b)),
        holds_name(placed(list, b), b.jp_name),
{
    let k = insertion_point(list, b.jp_name, 0);
    lemma_insertion_point_bounds(list, b.jp_name, 0);
    if !(k < list.len() && list[k].jp_name == b.jp_name) {
        let next = list.insert(k, b);
        assert forall|i: int, j: int| 0 <= i < j < next.len() implies lex_lt(
            (#[trigger] next[i]).jp_name,
            (#[trigger] next[j]).jp_name,
        ) by {
            if j < k {
                assert(lex_lt(list[i].jp_name, list[j].jp_name));
            } else if j == k {
                assert(lex_lt(list[i].jp_name, b.jp_name));
            } else {
                lemma_lex_total(list[k].jp_name, b.jp_name);
                assert(lex_lt(b.jp_name, list[k].jp_name));
                if j - 1 > k {
                    assert(lex_lt(list[k].jp_name, list[j - 1].jp_name));
                    lemma_lex_transitive(b.jp_name, list[k].jp_name, list[j - 1].jp_name);
                }
                assert(lex_lt(b.jp_name, next[j].jp_name));
                if i < k {
                    assert(lex_lt(list[i].jp_name, b.jp_name));
                    lemma_lex_transitive(list[i].jp_name, b.jp_name, next[j].jp_name);
                } else if i > k {
                    assert(lex_lt(list[i - 1].jp_name, list[j - 1].jp_name));
                }
            }
        }
        assert(next[k] == b);
        lemma_found_at_own_name(next, k);
    }
}

/// Where the first butterfly of a name is once a butterfly is appended.
proof fn lemma_first_named_push(list: Seq<ButterflyView>, b: ButterflyView, name: Seq<char>)
    ensures
        first_named(list.push(b), name, 0) == if first_named(list, name, 0) < list.len() {
            first_named(list, name, 0)
        } else if b.jp_name == name {
            list.len() as int
        } else {
            list.len() as int + 1
        },
{
    let grown = list.push(b);
    let at = first_named(list, name, 0);
    lemma_first_named_bounds(list, name, 0);
    assert forall|j: int| 0 <= j < at implies (#[trigger] grown[j]).jp_name != name by {
        assert(grown[j] == list[j]);
    }
    if at < list.len() {
        assert(grown[at] == list[at]);
        lemma_first_named_is(grown, name, 0, at);
    } else if b.jp_name == name {
        assert(grown[list.len() as int] == b);
        lemma_first_named_is(grown, name, 0, list.len() as int);
    } else {
        assert(grown[list.len() as int] == b);
        lemma_first_named_is(grown, name, 0, list.len() as int + 1);
    }
}

/// Placing the next butterfly of a list into its ordered list gives the
/// ordered list of the longer list.
proof fn lemma_placed_settled(list: Seq<ButterflyView>, ordered: Seq<ButterflyView>, b: ButterflyView)
    requires
        settled(list, ordered),
    ensures
        settled(list.push(b), placed(ordered, b)),
{
    let grown = list.push(b);
    let next = placed(ordered, b);
    let k = insertion_point(ordered, b.jp_name, 0);
    lemma_insertion_point_bounds(ordered, b.jp_name, 0);
    lemma_placed_ascending(ordered, b);
    if k < ordered.len() && ordered[k].jp_name == b.jp_name {
        assert(next == ordered);
        assert forall|i: int| 0 <= i < next.len() implies {
            &&& first_named(grown, (#[trigger] next[i]).jp_name, 0) < grown.len()
            &&& next[i] == grown[first_named(grown, next[i].jp_name, 0)]
        } by {
            let at = first_named(list, ordered[i].jp_name, 0);
            assert(ordered[i] == list[at]);
            lemma_first_named_bounds(list, ordered[i].jp_name, 0);
            lemma_first_named_push(list, b, ordered[i].jp_name);
            assert(grown[at] == list[at]);
        }
        assert forall|m: int| 0 <= m < grown.len() implies holds_name(
            next,
            (#[trigger] grown[m]).jp_name,
        ) by {
            if m < list.len() {
                assert(grown[m] == list[m]);
            }
        }
    } else {
        assert(next == ordered.insert(k, b));
        // No butterfly of the list has the new name: it would be in `ordered`.
        lemma_first_named_bounds(list, b.jp_name, 0);
        assert(first_named(list, b.jp_name, 0) == list.len()) by {
            if first_named(list, b.jp_name, 0) < list.len() {
                assert(holds_name(ordered, list[first_named(list, b.jp_name, 0)].jp_name));
            }
        }
        assert forall|i: int| 0 <= i < next.len() implies {
            &&& first_named(grown, (#[trigger] next[i]).jp_name, 0) < grown.len()
            &&& next[i] == grown[first_named(grown, next[i].jp_name, 0)]
        } by {
            lemma_first_named_push(list, b, next[i].jp_name);
            if i == k {
                assert(next[i] == b);
                assert(grown[list.len() as int] == b);
            } else {
                let old = if i < k {
                    ordered[i]
                } else {
                    ordered[i - 1]
                };
                assert(next[i] == old);
                let at = first_named(list, old.jp_name, 0);
                assert(old == list[at]);
                lemma_first_named_bounds(list, old.jp_name, 0);
                assert(grown[at] == list[at]);
            }
        }
        assert forall|m: int| 0 <= m < grown.len() implies holds_name(
            next,
            (#[trigger] grown[m]).jp_name,
        ) by {
            if m < list.len() {
                assert(grown[m] == list[m]);
                assert(holds_name(ordered, list[m].jp_name));
                let p = insertion_point(ordered, list[m].jp_name, 0);
                lemma_insertion_point_bounds(ordered, list[m].jp_name, 0);
                if p < k {
                    assert(next[p] == ordered[p]);
                    lemma_found_at_own_name(next, p);
                } else {
                    assert(next[p + 1] == ordered[p]);
                    lemma_found_at_own_name(next, p + 1);
                }
            }
        }
    }
}

/// The ordered list of a snapshot holds each name once, the first butterfly
/// of each name, in the order of the names.
///
/// The Japanese names of the ordered list ascend strictly, so two butterflies
/// of one name become one entry. Every butterfly of the ordered list is the
/// first butterfly of the list with its name, and every name of the list is
/// the name of a butterfly of the ordered list.
pub proof fn law_ordered_list_is_settled(list: Seq<ButterflyView>)
    ensures
        settled(list, sorted_unique(list)),
    decreases list.len(),
{
    if list.len() > 0 {
        law_ordered_list_is_settled(list.drop_last());
        lemma_placed_settled(list.drop_last(), sorted_unique(list.drop_last()), list.last());
        assert(list.drop_last().push(list.last()) =~= list);
    }
}

/// Of two butterflies with one Japanese name the earlier one stays: the entry
/// of that name in the ordered list is not the later one unless both are
/// equal.
pub proof fn law_first_of_a_name_stays(list: Seq<ButterflyView>, first: int, second: int)
    requires
        0 <= first < second < list.len(),
        list[first].jp_name == list[second].jp_name,
    ensures
        holds_name(sorted_unique(list), list[second].jp_name),
        first_named(list, list[second].jp_name, 0) <= first,
        sorted_unique(list)[insertion_point(sorted_unique(list), list[second].jp_name, 0)]
            == list[first_named(list, list[second].jp_name, 0)],
{
    law_ordered_list_is_settled(list);
    let ordered = sorted_unique(list);
    let name = list[second].jp_name;
    assert(holds_name(ordered, list[second].jp_name));
    let at = insertion_point(ordered, name, 0);
    lemma_insertion_point_bounds(ordered, name, 0);
    assert(ordered[at] == list[first_named(list, ordered[at].jp_name, 0)]);
    lemma_first_named_bounds(list, name, 0);
    if first_named(list, name, 0) > first {
        assert(list[first].jp_name != name);
    }
}

/// A list that is ordered already is its own ordered list.
///
/// So the butterflies of a snapshot, taken into a collection again and frozen
/// again, are the butterflies of the snapshot.
pub proof fn law_ordered_list_is_stable(list: Seq<ButterflyView>)
    requires
        ascending(list),
    ensures
        sorted_unique(list) == list,
    decreases list.len(),
{
    if list.len() > 0 {
        let rest = list.drop_last();
        let b = list.last();
        assert forall|i: int, j: int| 0 <= i < j < rest.len() implies lex_lt(
            (#[trigger] rest[i]).jp_name,
            (#[trigger] rest[j]).jp_name,
        ) by {
            assert(lex_lt(list[i].jp_name, list[j].jp_name));
        }
        law_ordered_list_is_stable(rest);
        assert forall|j: int| 0 <= j < rest.len() implies lex_lt(
            (#[trigger] rest[j]).jp_name,
            b.jp_name,
        ) by {
            assert(lex_lt(list[j].jp_name, list[list.len() - 1].jp_name));
        }
        lemma_insertion_point_is(rest, b.jp_name, 0, rest.len() as int);
        assert(rest.insert(rest.len() as int, b) =~= list);
    }
}

/// Freezing twice gives what freezing once gives.
pub proof fn law_ordering_is_idempotent(list: Seq<ButterflyView>)
    ensures
        sorted_unique(sorted_unique(list)) == sorted_unique(list),
{
    law_ordered_list_is_settled(list);
    law_ordered_list_is_stable(sorted_unique(list));
}

} // verus!

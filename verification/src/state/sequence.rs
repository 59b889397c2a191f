//! A sequence without one of its values.

use vstd::prelude::*;

verus! {

/// The sequence without every occurrence of `value`; what stays keeps
/// its order.
pub open spec fn without<T>(items: Seq<T>, value: T) -> Seq<T> {
    items.filter(|item: T| item != value)
}

/// Taking a value out of a sequence that ends in `last`.
pub proof fn lemma_without_push<T>(items: Seq<T>, last: T, value: T)
    ensures
        without(items.push(last), value) == if last != value {
            without(items, value).push(last)
        } else {
            without(items, value)
        },
{
    reveal(Seq::filter);
    assert(items.push(last).drop_last() =~= items);
}

/// What stays is what was there and is not the value taken out.
pub proof fn lemma_without_contains<T>(items: Seq<T>, value: T, item: T)
    ensures
        without(items, value).contains(item) <==> items.contains(item) && item != value,
    decreases items.len(),
{
    reveal(Seq::filter);
    if items.len() > 0 {
        let before = items.drop_last();
        lemma_without_contains(before, value, item);
        lemma_without_push(before, items.last(), value);
        assert(before.push(items.last()) =~= items);
        let kept = without(before, value);
        if without(items, value).contains(item) {
            if items.last() != value {
                let k = choose|k: int|
                    0 <= k < kept.push(items.last()).len() && kept.push(items.last())[k] == item;
                if k < kept.len() {
                    assert(kept[k] == item);
                    let j = choose|j: int| 0 <= j < before.len() && before[j] == item;
                    assert(items[j] == item);
                } else {
                    assert(items[items.len() - 1] == item);
                }
            } else {
                let j = choose|j: int| 0 <= j < before.len() && before[j] == item;
                assert(items[j] == item);
            }
        }
        if items.contains(item) && item != value {
            let j = choose|j: int| 0 <= j < items.len() && items[j] == item;
            if j < before.len() {
                assert(before[j] == item);
                let k = choose|k: int| 0 <= k < kept.len() && kept[k] == item;
                if items.last() != value {
                    assert(kept.push(items.last())[k] == item);
                }
            } else {
                assert(kept.push(item)[kept.len() as int] == item);
            }
        }
    }
}

/// Taking a value out of a sequence in which nothing occurs twice
/// leaves one in which nothing occurs twice.
pub proof fn lemma_without_no_duplicates<T>(items: Seq<T>, value: T)
    requires
        items.no_duplicates(),
    ensures
        without(items, value).no_duplicates(),
    decreases items.len(),
{
    reveal(Seq::filter);
    if items.len() > 0 {
        let before = items.drop_last();
        lemma_without_no_duplicates(before, value);
        lemma_without_push(before, items.last(), value);
        assert(before.push(items.last()) =~= items);
        if items.last() != value {
            lemma_without_contains(before, value, items.last());
            if before.contains(items.last()) {
                let j = choose|j: int| 0 <= j < before.len() && before[j] == items.last();
                assert(items[j] == items[items.len() - 1]);
            }
            let kept = without(before, value);
            assert forall|a: int, b: int|
                0 <= a < kept.len() + 1 && 0 <= b < kept.len() + 1 && a != b implies kept.push(
                items.last(),
            )[a] != kept.push(items.last())[b] by {
                if a < kept.len() && b < kept.len() {
                } else if a < kept.len() {
                    assert(kept.contains(kept[a]));
                } else {
                    assert(kept.contains(kept[b]));
                }
            }
        }
    }
}

/// Taking a value out and then renaming every item is renaming every
/// item and then taking the renamed value out, where the renaming tells
/// the value apart from every item.
pub proof fn lemma_without_map<A, B>(items: Seq<A>, value: A, rename: spec_fn(A) -> B)
    requires
        forall|i: int| 0 <= i < items.len() && #[trigger] items[i] != value ==> rename(items[i])
            != rename(value),
    ensures
        without(items, value).map_values(rename) == without(
            items.map_values(rename),
            rename(value),
        ),
    decreases items.len(),
{
    reveal(Seq::filter);
    if items.len() > 0 {
        let before = items.drop_last();
        assert forall|i: int| 0 <= i < before.len() && #[trigger] before[i] != value implies rename(
            before[i],
        ) != rename(value) by {
            assert(before[i] == items[i]);
        }
        lemma_without_map(before, value, rename);
        lemma_without_push(before, items.last(), value);
        lemma_without_push(before.map_values(rename), rename(items.last()), rename(value));
        assert(before.push(items.last()) =~= items);
        assert(before.map_values(rename).push(rename(items.last())) =~= items.map_values(rename));
        assert(items[items.len() - 1] == items.last());
        if items.last() != value {
            assert(without(before, value).push(items.last()).map_values(rename) =~= without(
                before,
                value,
            ).map_values(rename).push(rename(items.last())));
        }
    } else {
        assert(without(items, value).map_values(rename) =~= without(
            items.map_values(rename),
            rename(value),
        ));
    }
}

} // verus!

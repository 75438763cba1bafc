//! What holds of the order in which devices are listed.
use vstd::prelude::*;
use zbus::zvariant::OwnedObjectPath;

use crate::bluetooth;
use crate::bluetooth::DeviceView;
use crate::bus;
use crate::bus::Interfaces;
use crate::text;

verus! {

/// Connected devices are listed before the others; among those with the same connection paired ones
/// come first; and among those with the same pairing too the display names decide.
pub proof fn law_listing_order(input: Seq<DeviceView>, output: Seq<DeviceView>, i: int, j: int)
    requires
        bluetooth::in_listing_order(input, output),
        0 <= i < j < output.len(),
    ensures
        output[j].connected ==> output[i].connected,
        output[i].connected == output[j].connected && output[j].paired ==> output[i].paired,
        output[i].connected == output[j].connected && output[i].paired == output[j].paired
            ==> text::lexical_le(
            text::lowercased(output[i].display_name()),
            text::lowercased(output[j].display_name()),
        ),
{
    let source = choose|source: Seq<int>| bluetooth::arranged(input, output, source);
    assert(bluetooth::listed_before(output[i], output[j]));
}

/// `output` holds what `input` holds, where `source[i]` is the place in `input` of what stands at
/// place `i`.
spec fn permuted<T>(input: Seq<T>, output: Seq<T>, source: Seq<int>) -> bool {
    &&& source.len() == input.len()
    &&& output.len() == input.len()
    &&& source.no_duplicates()
    &&& forall|i: int|
        0 <= i < source.len() ==> 0 <= #[trigger] source[i] < input.len() && output[i]
            == input[source[i]]
}

/// A list of distinct places that is as long as the list of all places meets each of them.
proof fn lemma_every_place(source: Seq<int>, n: int, place: int)
    requires
        source.len() == n,
        source.no_duplicates(),
        forall|i: int| 0 <= i < n ==> 0 <= #[trigger] source[i] < n,
        0 <= place < n,
    ensures
        exists|i: int| 0 <= i < n && source[i] == place,
{
    if !exists|i: int| 0 <= i < n && source[i] == place {
        // Without `place` the places below `n` are too few for `n` distinct ones.
        let gap = Seq::new(
            n as nat,
            |i: int|
                if source[i] > place {
                    source[i] - 1
                } else {
                    source[i]
                },
        );
        assert forall|i: int, j: int| 0 <= i < n && 0 <= j < n && i != j implies gap[i] != gap[j] by {
            assert(source[i] != source[j]);
            assert(source[i] != place && source[j] != place);
        }
        assert forall|i: int| 0 <= i < n implies 0 <= #[trigger] gap[i] < n - 1 by {
            assert(source[i] != place);
        }
        lemma_at_most(gap, n - 1);
    }
}

/// There are no more than `n` distinct numbers below `n`.
proof fn lemma_at_most(list: Seq<int>, n: int)
    requires
        n >= 0,
        list.no_duplicates(),
        forall|i: int| 0 <= i < list.len() ==> 0 <= #[trigger] list[i] < n,
    ensures
        list.len() <= n,
    decreases n,
{
    if n == 0 {
        if list.len() > 0 {
            assert(0 <= list[0] < n);
        }
    } else if exists|k: int| 0 <= k < list.len() && list[k] == n - 1 {
        let k = choose|k: int| 0 <= k < list.len() && list[k] == n - 1;
        let rest = list.remove(k);
        assert forall|i: int| 0 <= i < rest.len() implies 0 <= #[trigger] rest[i] < n - 1 by {
            let from = if i < k {
                i
            } else {
                i + 1
            };
            assert(rest[i] == list[from]);
        }
        assert(rest.no_duplicates());
        lemma_at_most(rest, n - 1);
    } else {
        assert forall|i: int| 0 <= i < list.len() implies 0 <= #[trigger] list[i] < n - 1 by {}
        lemma_at_most(list, n - 1);
    }
}

/// A permutation keeps what a list holds.
proof fn lemma_permuted_multiset<T>(input: Seq<T>, output: Seq<T>, source: Seq<int>)
    requires
        permuted(input, output, source),
    ensures
        input.to_multiset() == output.to_multiset(),
    decreases input.len(),
{
    broadcast use vstd::seq_lib::group_to_multiset_ensures;

    let n = input.len() as int;
    if n == 0 {
        assert(input =~= output);
    } else {
        lemma_every_place(source, n, n - 1);
        let k = choose|k: int| 0 <= k < n && source[k] == n - 1;
        let fewer = source.remove(k);
        let rest = output.remove(k);
        assert forall|i: int| 0 <= i < fewer.len() implies 0 <= #[trigger] fewer[i] < n - 1
            && rest[i] == input.drop_last()[fewer[i]] by {
            let from = if i < k {
                i
            } else {
                i + 1
            };
            assert(fewer[i] == source[from]);
            assert(source[from] != source[k]);
        }
        assert(fewer.no_duplicates());
        lemma_permuted_multiset(input.drop_last(), rest, fewer);
        assert(input.drop_last() =~= input.remove(n - 1));
        assert(output[k] == input[n - 1]);
        assert(input.contains(input[n - 1]));
        assert(output.contains(output[k]));
        assert(input.to_multiset() =~= input.remove(n - 1).to_multiset().insert(input[n - 1]));
        assert(output.to_multiset() =~= rest.to_multiset().insert(output[k]));
    }
}

/// Listing loses no device and invents none.
pub proof fn law_listing_keeps_devices(input: Seq<DeviceView>, output: Seq<DeviceView>)
    requires
        bluetooth::in_listing_order(input, output),
    ensures
        output.to_multiset() == input.to_multiset(),
{
    let source = choose|source: Seq<int>| bluetooth::arranged(input, output, source);
    assert(permuted(input, output, source));
    lemma_permuted_multiset(input, output, source);
}

/// There is one listing order: the devices and the order they come in decide it.
pub proof fn law_listing_unique(
    input: Seq<DeviceView>,
    first: Seq<DeviceView>,
    second: Seq<DeviceView>,
)
    requires
        bluetooth::in_listing_order(input, first),
        bluetooth::in_listing_order(input, second),
    ensures
        first == second,
{
    let a = choose|source: Seq<int>| bluetooth::arranged(input, first, source);
    let b = choose|source: Seq<int>| bluetooth::arranged(input, second, source);
    assert(bluetooth::arranged(input, first, a));
    assert(bluetooth::arranged(input, second, b));
    lemma_same_source(input, first, second, a, b, input.len() as int);
    assert forall|i: int| 0 <= i < input.len() implies first[i] == second[i] by {
        assert(a[i] == b[i]);
    }
    assert(first =~= second);
}

/// Two listings of the same devices take the first `n` from the same places.
proof fn lemma_same_source(
    input: Seq<DeviceView>,
    first: Seq<DeviceView>,
    second: Seq<DeviceView>,
    a: Seq<int>,
    b: Seq<int>,
    n: int,
)
    requires
        bluetooth::arranged(input, first, a),
        bluetooth::arranged(input, second, b),
        0 <= n <= input.len(),
    ensures
        forall|i: int| 0 <= i < n ==> a[i] == b[i],
    decreases n,
{
    if n > 0 {
        lemma_same_source(input, first, second, a, b, n - 1);
        let k = n - 1;
        if a[k] != b[k] {
            lemma_every_place(b, input.len() as int, a[k]);
            lemma_every_place(a, input.len() as int, b[k]);
            let p = choose|p: int| 0 <= p < input.len() && b[p] == a[k];
            let q = choose|q: int| 0 <= q < input.len() && a[q] == b[k];
            // Neither stands among the first places, which are the same in both listings.
            if p < k {
                assert(a[p] == b[p]);
            }
            if q < k {
                assert(a[q] == b[q]);
            }
            assert(k < p && k < q);
            assert(second[k] == input[b[k]] && second[p] == input[a[k]]);
            assert(first[k] == input[a[k]] && first[q] == input[b[k]]);
            assert(bluetooth::listed_before(second[k], second[p]));
            assert(bluetooth::listed_before(first[k], first[q]));
        }
    }
}

/// Two walks of one map meet the same entries.
proof fn lemma_walks_agree(
    map: Map<OwnedObjectPath, Interfaces>,
    first: Seq<(OwnedObjectPath, Interfaces)>,
    second: Seq<(OwnedObjectPath, Interfaces)>,
)
    requires
        bus::walks(first, map),
        bus::walks(second, map),
    ensures
        first.to_multiset() == second.to_multiset(),
{
    let source = Seq::new(
        second.len(),
        |i: int| choose|j: int| 0 <= j < first.len() && first[j].0 == second[i].0,
    );
    let back = Seq::new(
        first.len(),
        |i: int| choose|j: int| 0 <= j < second.len() && second[j].0 == first[i].0,
    );
    assert forall|i: int| 0 <= i < second.len() implies 0 <= #[trigger] source[i] < first.len()
        && second[i] == first[source[i]] by {
        assert(map.contains_key(second[i].0));
        assert(exists|j: int| 0 <= j < first.len() && first[j].0 == second[i].0);
        assert(first[source[i]].0 == second[i].0);
    }
    assert forall|i: int| 0 <= i < first.len() implies 0 <= #[trigger] back[i] < second.len()
        && first[i] == second[back[i]] by {
        assert(map.contains_key(first[i].0));
        assert(exists|j: int| 0 <= j < second.len() && second[j].0 == first[i].0);
        assert(second[back[i]].0 == first[i].0);
    }
    assert forall|i: int, j: int| 0 <= i < source.len() && 0 <= j < source.len() && i != j implies
        source[i] != source[j] by {
        if i < j {
            assert(second[i].0 != second[j].0);
        } else {
            assert(second[j].0 != second[i].0);
        }
    }
    assert forall|i: int, j: int| 0 <= i < back.len() && 0 <= j < back.len() && i != j implies back[i]
        != back[j] by {
        if i < j {
            assert(first[i].0 != first[j].0);
        } else {
            assert(first[j].0 != first[i].0);
        }
    }
    lemma_at_most(source, first.len() as int);
    lemma_at_most(back, second.len() as int);
    lemma_permuted_multiset(first, second, source);
}

/// What the devices of a walk hold with one of its objects taken out.
proof fn lemma_managed_without(walk: Seq<(OwnedObjectPath, Interfaces)>, k: int)
    requires
        0 <= k < walk.len(),
    ensures
        bus::managed_devices(walk).to_multiset() == match bus::managed_device(walk[k]) {
            Some(device) => bus::managed_devices(walk.remove(k)).to_multiset().insert(device),
            None => bus::managed_devices(walk.remove(k)).to_multiset(),
        },
    decreases walk.len(),
{
    broadcast use vstd::seq_lib::group_to_multiset_ensures;

    let last = walk.len() - 1;
    if k == last {
        assert(walk.remove(k) =~= walk.drop_last());
    } else {
        lemma_managed_without(walk.drop_last(), k);
        assert(walk.remove(k).drop_last() =~= walk.drop_last().remove(k));
        assert(walk.remove(k).last() == walk.last());
        let without = bus::managed_devices(walk.drop_last().remove(k)).to_multiset();
        match (bus::managed_device(walk[k]), bus::managed_device(walk.last())) {
            (Some(a), Some(b)) => {
                assert(without.insert(a).insert(b) =~= without.insert(b).insert(a));
            },
            _ => {},
        }
    }
}

/// Objects that come in another order hold the same devices.
proof fn lemma_managed_multiset(
    first: Seq<(OwnedObjectPath, Interfaces)>,
    second: Seq<(OwnedObjectPath, Interfaces)>,
)
    requires
        first.to_multiset() == second.to_multiset(),
    ensures
        bus::managed_devices(first).to_multiset() == bus::managed_devices(second).to_multiset(),
    decreases first.len(),
{
    broadcast use vstd::seq_lib::group_to_multiset_ensures;

    assert(first.len() == first.to_multiset().len());
    assert(second.len() == second.to_multiset().len());
    if first.len() > 0 {
        let object = first.last();
        assert(first.contains(object)) by {
            assert(first[first.len() - 1] == object);
        }
        assert(first.to_multiset().count(object) > 0);
        assert(second.to_multiset().count(object) > 0);
        assert(second.contains(object));
        let k = choose|k: int| 0 <= k < second.len() && second[k] == object;
        assert(first.drop_last() =~= first.remove(first.len() - 1));
        lemma_managed_multiset(first.drop_last(), second.remove(k));
        lemma_managed_without(second, k);
        lemma_managed_without(first, first.len() - 1);
    } else {
        assert(first =~= second);
    }
}

/// No two devices may stand either way.
pub open spec fn unambiguous(devices: Seq<DeviceView>) -> bool {
    forall|i: int, j: int|
        0 <= i < j < devices.len() ==> !(bluetooth::listed_before(
            #[trigger] devices[i],
            #[trigger] devices[j],
        ) && bluetooth::listed_before(devices[j], devices[i]))
}

/// The order in which the objects of the bus come does not matter: the same devices are listed, and
/// in the same order unless the flags and the names of two of them leave their order open.
pub proof fn law_object_order_irrelevant(
    map: Map<OwnedObjectPath, Interfaces>,
    first_walk: Seq<(OwnedObjectPath, Interfaces)>,
    second_walk: Seq<(OwnedObjectPath, Interfaces)>,
    first: Seq<DeviceView>,
    second: Seq<DeviceView>,
)
    requires
        bus::walks(first_walk, map),
        bus::walks(second_walk, map),
        bluetooth::in_listing_order(bus::managed_devices(first_walk), first),
        bluetooth::in_listing_order(bus::managed_devices(second_walk), second),
    ensures
        first.to_multiset() == second.to_multiset(),
        unambiguous(first) ==> first == second,
{
    lemma_walks_agree(map, first_walk, second_walk);
    lemma_managed_multiset(first_walk, second_walk);
    law_listing_keeps_devices(bus::managed_devices(first_walk), first);
    law_listing_keeps_devices(bus::managed_devices(second_walk), second);
    if unambiguous(first) {
        assert forall|i: int, j: int| 0 <= i < j < first.len() implies bluetooth::listed_before(
            #[trigger] first[i],
            #[trigger] first[j],
        ) by {
            let source = choose|source: Seq<int>|
                bluetooth::arranged(bus::managed_devices(first_walk), first, source);
            assert(bluetooth::arranged(bus::managed_devices(first_walk), first, source));
        }
        assert forall|i: int, j: int| 0 <= i < j < second.len() implies bluetooth::listed_before(
            #[trigger] second[i],
            #[trigger] second[j],
        ) by {
            let source = choose|source: Seq<int>|
                bluetooth::arranged(bus::managed_devices(second_walk), second, source);
            assert(bluetooth::arranged(bus::managed_devices(second_walk), second, source));
        }
        lemma_one_order(first, second);
    }
}

/// Devices that cannot stand either way have one order.
proof fn lemma_one_order(first: Seq<DeviceView>, second: Seq<DeviceView>)
    requires
        first.to_multiset() == second.to_multiset(),
        unambiguous(first),
        forall|i: int, j: int|
            0 <= i < j < first.len() ==> bluetooth::listed_before(
                #[trigger] first[i],
                #[trigger] first[j],
            ),
        forall|i: int, j: int|
            0 <= i < j < second.len() ==> bluetooth::listed_before(
                #[trigger] second[i],
                #[trigger] second[j],
            ),
    ensures
        first == second,
    decreases first.len(),
{
    broadcast use vstd::seq_lib::group_to_multiset_ensures;

    assert(first.len() == first.to_multiset().len());
    assert(second.len() == second.to_multiset().len());
    if first.len() == 0 {
        assert(first =~= second);
    } else {
        assert(first.contains(first[0]));
        assert(second.contains(second[0]));
        assert(first.to_multiset().count(first[0]) > 0);
        assert(second.to_multiset().count(second[0]) > 0);
        assert(second.contains(first[0]));
        assert(first.contains(second[0]));
        let j = choose|j: int| 0 <= j < second.len() && second[j] == first[0];
        let i = choose|i: int| 0 <= i < first.len() && first[i] == second[0];
        if first[0] != second[0] {
            assert(bluetooth::listed_before(second[0], second[j]));
            assert(bluetooth::listed_before(first[0], first[i]));
        }
        let a = first.remove(0);
        let b = second.remove(0);
        assert forall|i: int, j: int| 0 <= i < j < a.len() implies bluetooth::listed_before(
            #[trigger] a[i],
            #[trigger] a[j],
        ) && !bluetooth::listed_before(a[j], a[i]) by {
            assert(a[i] == first[i + 1] && a[j] == first[j + 1]);
        }
        assert forall|i: int, j: int| 0 <= i < j < b.len() implies bluetooth::listed_before(
            #[trigger] b[i],
            #[trigger] b[j],
        ) by {
            assert(b[i] == second[i + 1] && b[j] == second[j + 1]);
        }
        lemma_one_order(a, b);
        assert(first =~= seq![first[0]] + a);
        assert(second =~= seq![second[0]] + b);
    }
}

} // verus!

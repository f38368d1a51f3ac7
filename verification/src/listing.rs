//! The port listing: the descriptions of the reported ports in the stable
//! order of their names.

use crate::order::{
    lemma_lex_le_antisymmetric, lemma_lex_le_reflexive, lemma_lex_le_total,
    lemma_lex_le_transitive, lex_le, name_key, name_le, name_precedes,
};
use crate::error::{enumeration_failure, TransportError};
use crate::ports::{description_of, PortDescriptor, PortDescriptorView, ReportedPort, ReportedPortView};
use vstd::prelude::*;

verus! {

/// The keys by which the reported ports are ordered, one for each port.
pub open spec fn name_keys(reported: Seq<ReportedPortView>) -> Seq<Seq<u8>> {
    Seq::new(reported.len(), |i: int| name_key(reported[i].name))
}

/// The port reported at index `a` stands before the port reported at index
/// `b`: its name comes first, or the names are the same and it was reported
/// first.
pub open spec fn stands_before(keys: Seq<Seq<u8>>, a: int, b: int) -> bool {
    lex_le(keys[a], keys[b]) && (keys[a] == keys[b] ==> a < b)
}

/// `order` names every index from `from` on, each before all those that it
/// stands before.
pub open spec fn stable_order_from(keys: Seq<Seq<u8>>, from: int, order: Seq<int>) -> bool {
    &&& 0 <= from <= keys.len()
    &&& order.len() == keys.len() - from
    &&& forall|i: int| 0 <= i < order.len() ==> from <= #[trigger] order[i] < keys.len()
    &&& forall|k: int| from <= k < keys.len() ==> #[trigger] order.contains(k)
    &&& forall|i: int, j: int|
        #![trigger order[i], order[j]]
        0 <= i < j < order.len() ==> stands_before(keys, order[i], order[j])
}

/// `order` is the stable order of all the indices of `keys`: the indices by
/// ascending key, those of equal keys by ascending index.
pub open spec fn stable_order(keys: Seq<Seq<u8>>, order: Seq<int>) -> bool {
    stable_order_from(keys, 0, order)
}

/// `listing` holds the descriptions of the reported ports, arranged as
/// `order` says, and `order` is the stable order of their names.
pub open spec fn arranges(
    reported: Seq<ReportedPortView>,
    order: Seq<int>,
    listing: Seq<PortDescriptorView>,
) -> bool {
    &&& stable_order(name_keys(reported), order)
    &&& listing.len() == reported.len()
    &&& forall|i: int|
        0 <= i < listing.len() ==> #[trigger] listing[i] == description_of(reported[order[i]])
}

/// `listing` is the listing of the reported ports: every port described, in
/// the order of the names, ports of the same name in the order in which they
/// were reported.
pub open spec fn is_listing_of(
    reported: Seq<ReportedPortView>,
    listing: Seq<PortDescriptorView>,
) -> bool {
    exists|order: Seq<int>| arranges(reported, order, listing)
}

/// The names of the listing never descend.
pub open spec fn names_ascending(listing: Seq<PortDescriptorView>) -> bool {
    forall|i: int, j: int|
        #![trigger listing[i], listing[j]]
        0 <= i <= j < listing.len() ==> name_precedes(listing[i].name, listing[j].name)
}

/// An index that stands before all those from `at` on, and after all those
/// before `at`, can be put into the order at `at`.
proof fn lemma_insert_keeps_order(keys: Seq<Seq<u8>>, from: int, order: Seq<int>, at: int)
    requires
        0 < from,
        stable_order_from(keys, from, order),
        0 <= at <= order.len(),
        forall|i: int| 0 <= i < at ==> !lex_le(keys[from - 1], keys[#[trigger] order[i]]),
        at < order.len() ==> lex_le(keys[from - 1], keys[order[at]]),
    ensures
        stable_order_from(keys, from - 1, order.insert(at, from - 1)),
{
    let k = from - 1;
    let grown = order.insert(at, k);
    assert forall|i: int| 0 <= i < grown.len() implies k <= #[trigger] grown[i] < keys.len() by {
        if i < at {
            assert(grown[i] == order[i]);
        } else if i > at {
            assert(grown[i] == order[i - 1]);
        }
    }
    assert forall|x: int| k <= x < keys.len() implies #[trigger] grown.contains(x) by {
        if x == k {
            assert(grown[at] == k);
        } else {
            assert(order.contains(x));
            let i = choose|i: int| 0 <= i < order.len() && order[i] == x;
            if i < at {
                assert(grown[i] == x);
            } else {
                assert(grown[i + 1] == x);
            }
        }
    }
    assert forall|i: int, j: int|
        #![trigger grown[i], grown[j]]
        0 <= i < j < grown.len() implies stands_before(keys, grown[i], grown[j]) by {
        if j == at {
            assert(grown[i] == order[i]);
            lemma_lex_le_total(keys[k], keys[order[i]]);
            lemma_lex_le_reflexive(keys[k]);
        } else if i == at {
            assert(grown[j] == order[j - 1]);
            if j - 1 > at {
                assert(stands_before(keys, order[at], order[j - 1]));
            } else {
                lemma_lex_le_reflexive(keys[order[at]]);
            }
            lemma_lex_le_transitive(keys[k], keys[order[at]], keys[order[j - 1]]);
        } else {
            let i0 = if i < at { i } else { i - 1 };
            let j0 = if j < at { j } else { j - 1 };
            assert(grown[i] == order[i0]);
            assert(grown[j] == order[j0]);
            assert(stands_before(keys, order[i0], order[j0]));
        }
    }
}

/// In a listing the names never descend.
pub proof fn lemma_listing_ascending(
    reported: Seq<ReportedPortView>,
    order: Seq<int>,
    listing: Seq<PortDescriptorView>,
)
    requires
        arranges(reported, order, listing),
    ensures
        names_ascending(listing),
{
    let keys = name_keys(reported);
    assert forall|i: int, j: int|
        #![trigger listing[i], listing[j]]
        0 <= i <= j < listing.len() implies name_precedes(listing[i].name, listing[j].name) by {
        assert(listing[i] == description_of(reported[order[i]]));
        assert(listing[j] == description_of(reported[order[j]]));
        assert(name_key(listing[i].name) == keys[order[i]]);
        assert(name_key(listing[j].name) == keys[order[j]]);
        if i == j {
            lemma_lex_le_reflexive(keys[order[i]]);
        } else {
            assert(stands_before(keys, order[i], order[j]));
        }
    }
}

/// Two sequences that hold the same indices, each in the order in which the
/// indices stand before one another, are the same sequence.
proof fn lemma_same_indices_same_order(keys: Seq<Seq<u8>>, p: Seq<int>, q: Seq<int>)
    requires
        p.len() == q.len(),
        forall|x: int| p.contains(x) <==> q.contains(x),
        forall|i: int, j: int|
            #![trigger p[i], p[j]]
            0 <= i < j < p.len() ==> stands_before(keys, p[i], p[j]),
        forall|i: int, j: int|
            #![trigger q[i], q[j]]
            0 <= i < j < q.len() ==> stands_before(keys, q[i], q[j]),
    ensures
        p == q,
    decreases p.len(),
{
    if p.len() == 0 {
        assert(p =~= q);
    } else {
        assert(p[0] == q[0]) by {
            assert(p.contains(p[0]));
            assert(q.contains(q[0]));
            let j = choose|j: int| 0 <= j < q.len() && q[j] == p[0];
            let i = choose|i: int| 0 <= i < p.len() && p[i] == q[0];
            if i > 0 && j > 0 {
                assert(stands_before(keys, q[0], q[j]));
                assert(stands_before(keys, p[0], p[i]));
                lemma_lex_le_antisymmetric(keys[p[0]], keys[q[0]]);
            }
        }
        let p1 = p.drop_first();
        let q1 = q.drop_first();
        assert forall|x: int| p1.contains(x) <==> q1.contains(x) by {
            if p1.contains(x) {
                let i = choose|i: int| 0 <= i < p1.len() && p1[i] == x;
                assert(p[i + 1] == x);
                assert(stands_before(keys, p[0], p[i + 1]));
                assert(q.contains(x));
                let j = choose|j: int| 0 <= j < q.len() && q[j] == x;
                assert(q1[j - 1] == x);
            }
            if q1.contains(x) {
                let j = choose|j: int| 0 <= j < q1.len() && q1[j] == x;
                assert(q[j + 1] == x);
                assert(stands_before(keys, q[0], q[j + 1]));
                assert(p.contains(x));
                let i = choose|i: int| 0 <= i < p.len() && p[i] == x;
                assert(p1[i - 1] == x);
            }
        }
        assert forall|i: int, j: int|
            #![trigger p1[i], p1[j]]
            0 <= i < j < p1.len() implies stands_before(keys, p1[i], p1[j]) by {
            assert(stands_before(keys, p[i + 1], p[j + 1]));
        }
        assert forall|i: int, j: int|
            #![trigger q1[i], q1[j]]
            0 <= i < j < q1.len() implies stands_before(keys, q1[i], q1[j]) by {
            assert(stands_before(keys, q[i + 1], q[j + 1]));
        }
        lemma_same_indices_same_order(keys, p1, q1);
        assert(p =~= seq![p[0]] + p1);
        assert(q =~= seq![q[0]] + q1);
    }
}

/// There is one stable order of the indices of `keys`, and no other.
pub proof fn lemma_stable_order_unique(keys: Seq<Seq<u8>>, p: Seq<int>, q: Seq<int>)
    requires
        stable_order(keys, p),
        stable_order(keys, q),
    ensures
        p == q,
{
    assert forall|x: int| p.contains(x) <==> q.contains(x) by {
        if p.contains(x) {
            let i = choose|i: int| 0 <= i < p.len() && p[i] == x;
            assert(0 <= p[i] < keys.len());
        }
        if q.contains(x) {
            let j = choose|j: int| 0 <= j < q.len() && q[j] == x;
            assert(0 <= q[j] < keys.len());
        }
    }
    lemma_same_indices_same_order(keys, p, q);
}

/// What was reported determines the listing: two listings of the same
/// reported ports are the same listing.
pub proof fn lemma_listing_unique(
    reported: Seq<ReportedPortView>,
    first: Seq<PortDescriptorView>,
    second: Seq<PortDescriptorView>,
)
    requires
        is_listing_of(reported, first),
        is_listing_of(reported, second),
    ensures
        first == second,
{
    let p = choose|order: Seq<int>| arranges(reported, order, first);
    let q = choose|order: Seq<int>| arranges(reported, order, second);
    lemma_stable_order_unique(name_keys(reported), p, q);
    assert(first =~= second);
}

/// Describes the reported ports and lists them by name. Ports of the same
/// name keep the order in which they were reported.
pub fn describe_ports(reported: Vec<ReportedPort>) -> (listing: Vec<PortDescriptor>)
    ensures
        is_listing_of(reported.deep_view(), listing.deep_view()),
        names_ascending(listing.deep_view()),
{
    let ghost source = reported.deep_view();
    let ghost keys = name_keys(source);
    let ghost mut order: Seq<int> = Seq::empty();
    let mut rest = reported;
    let mut listing: Vec<PortDescriptor> = Vec::new();
    while rest.len() > 0
        invariant
            rest.len() <= source.len(),
            rest.deep_view() =~= source.take(rest.len() as int),
            keys == name_keys(source),
            stable_order_from(keys, rest.len() as int, order),
            listing.len() == order.len(),
            forall|i: int|
                0 <= i < listing.len() ==> (#[trigger] listing[i])@ == description_of(
                    source[order[i]],
                ),
        decreases rest.len(),
    {
        let ghost before = rest.deep_view();
        let ghost k = rest.len() - 1;
        let port = rest.pop().unwrap();
        assert(port@ == source[k]) by {
            assert(before[k] == source.take(k + 1)[k]);
        }
        let descriptor = PortDescriptor::describe(port);
        let mut at: usize = 0;
        while at < listing.len() && !name_le(descriptor.name().as_str(), listing[at].name().as_str())
            invariant
                at <= listing.len(),
                0 <= k < source.len(),
                keys == name_keys(source),
                descriptor@ == description_of(source[k]),
                listing.len() == order.len(),
                forall|i: int| 0 <= i < order.len() ==> k < #[trigger] order[i] < keys.len(),
                forall|i: int|
                    0 <= i < listing.len() ==> (#[trigger] listing[i])@ == description_of(
                        source[order[i]],
                    ),
                forall|i: int| 0 <= i < at ==> !lex_le(keys[k], keys[#[trigger] order[i]]),
            decreases listing.len() - at,
        {
            assert(listing[at as int]@ == description_of(source[order[at as int]]));
            at += 1;
        }
        proof {
            if at < listing.len() {
                assert(listing[at as int]@ == description_of(source[order[at as int]]));
            }
            lemma_insert_keeps_order(keys, k + 1, order, at as int);
        }
        let ghost listed = listing@;
        listing.insert(at, descriptor);
        proof {
            let grown = order.insert(at as int, k);
            assert forall|i: int| 0 <= i < listing.len() implies (#[trigger] listing[i])@
                == description_of(source[grown[i]]) by {
                if i < at {
                    assert(listing[i] == listed[i]);
                } else if i > at {
                    assert(listing[i] == listed[i - 1]);
                }
            }
            order = grown;
            assert(rest.deep_view() =~= source.take(rest.len() as int)) by {
                assert forall|i: int| 0 <= i < rest.len() implies rest.deep_view()[i]
                    == source[i] by {
                    assert(before[i] == source.take(k + 1)[i]);
                }
            }
        }
    }
    proof {
        let views = listing.deep_view();
        assert(arranges(source, order, views)) by {
            assert forall|i: int| 0 <= i < views.len() implies #[trigger] views[i]
                == description_of(source[order[i]]) by {
                assert(views[i] == listing[i]@);
            }
        }
        lemma_listing_ascending(source, order, views);
    }
    listing
}

/// Lists the serial ports from what a scan of the machine gave: the ports
/// that it reported, or the reason why it could not report any. A scan that
/// failed fails the whole call; no part of a listing is returned then.
pub fn serial_list_ports(scan: Result<Vec<ReportedPort>, String>) -> (outcome: Result<
    Vec<PortDescriptor>,
    TransportError,
>)
    ensures
        match scan {
            Ok(reported) => {
                &&& outcome matches Ok(listing)
                &&& is_listing_of(reported.deep_view(), listing.deep_view())
                &&& names_ascending(listing.deep_view())
            },
            Err(cause) => {
                &&& outcome matches Err(error)
                &&& error@ == enumeration_failure(cause@)
            },
        },
{
    match scan {
        Ok(reported) => Ok(describe_ports(reported)),
        Err(cause) => Err(TransportError::enumeration(cause.as_str())),
    }
}

} // verus!

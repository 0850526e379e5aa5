use vstd::prelude::*;
use crate::context::Context;
use crate::context::registered_names;
use crate::plugin::Plugin;

verus! {

/// The names of a registry's descriptors, in registry order.
pub open spec fn declared_names(registry: Seq<Plugin>) -> Seq<Seq<char>> {
    registry.map_values(|p: Plugin| p.name@)
}

/// The descriptors of a registry whose constructors register.
pub open spec fn registering_plugins(registry: Seq<Plugin>) -> Seq<Plugin> {
    registry.filter(|p: Plugin| p.registers())
}

/// However the constructors behave, a built context records at most one
/// name per descriptor in the registry.
pub proof fn lemma_record_no_longer_than_registry(registry: Seq<Plugin>)
    ensures
        registered_names(registry).len() <= registry.len(),
    decreases registry.len(),
{
    if registry.len() > 0 {
        lemma_record_no_longer_than_registry(registry.drop_last());
    }
}

/// What a built context records is exactly the name sequence of the
/// registering descriptors, in registry order: one entry per descriptor
/// that registered, none for any other.
pub proof fn lemma_record_is_registering_names(registry: Seq<Plugin>)
    ensures
        registered_names(registry) == declared_names(registering_plugins(registry)),
    decreases registry.len(),
{
    reveal(Seq::filter);
    if registry.len() == 0 {
        assert(registered_names(registry) =~= declared_names(registering_plugins(registry)));
    } else {
        lemma_record_is_registering_names(registry.drop_last());
        assert(registered_names(registry) =~= declared_names(registering_plugins(registry)));
    }
}

/// A registry in which every descriptor's constructor registers the
/// plugin, once, yields a context that records exactly one name per
/// descriptor: with N descriptors in the registry, N recorded entries.
pub proof fn lemma_full_registration_count(registry: Seq<Plugin>)
    requires
        forall|i: int| 0 <= i < registry.len() ==> (#[trigger] registry[i]).registers(),
    ensures
        registered_names(registry).len() == registry.len(),
    decreases registry.len(),
{
    if registry.len() > 0 {
        assert forall|i: int|
            0 <= i < registry.drop_last().len() implies (#[trigger] registry.drop_last()[i]).registers() by {
            assert(registry.drop_last()[i] == registry[i]);
        }
        lemma_full_registration_count(registry.drop_last());
    }
}

/// When every descriptor registers, the record is the registry's own name
/// sequence, so the set of recorded names equals the set of declared
/// names, whatever order the registry was aggregated in.
pub proof fn lemma_full_registration_names(registry: Seq<Plugin>)
    requires
        forall|i: int| 0 <= i < registry.len() ==> (#[trigger] registry[i]).registers(),
    ensures
        registered_names(registry) == declared_names(registry),
        registered_names(registry).to_set() == declared_names(registry).to_set(),
    decreases registry.len(),
{
    if registry.len() == 0 {
        assert(registered_names(registry) =~= declared_names(registry));
    } else {
        assert forall|i: int|
            0 <= i < registry.drop_last().len() implies (#[trigger] registry.drop_last()[i]).registers() by {
            assert(registry.drop_last()[i] == registry[i]);
        }
        lemma_full_registration_names(registry.drop_last());
        assert(registered_names(registry) =~= declared_names(registry));
    }
}

/// Two registries that hold the same descriptors, in any two orders the
/// aggregation happened to produce, declare the same multiset of names.
pub proof fn lemma_declared_names_permutation(first: Seq<Plugin>, second: Seq<Plugin>)
    requires
        first.to_multiset() == second.to_multiset(),
    ensures
        declared_names(first).to_multiset() == declared_names(second).to_multiset(),
    decreases first.len(),
{
    broadcast use vstd::seq_lib::group_to_multiset_ensures;
    broadcast use vstd::multiset::group_multiset_axioms;

    if first.len() == 0 {
        assert(second.to_multiset().len() == 0);
        assert(second.len() == 0);
        assert(declared_names(first) =~= declared_names(second));
    } else {
        let p = first.last();
        let rest = first.drop_last();
        assert(first =~= rest.push(p));
        assert(rest.push(p).to_multiset() =~= rest.to_multiset().insert(p));
        assert(first[first.len() - 1] == p);
        assert(first.contains(p));
        assert(first.to_multiset().count(p) > 0);
        assert(second.to_multiset().count(p) > 0);
        assert(second.contains(p));
        let j = choose|j: int| 0 <= j < second.len() && second[j] == p;
        let second_rest = second.remove(j);
        assert(second.remove(j).to_multiset() =~= second.to_multiset().remove(p));
        assert(rest.to_multiset() =~= second_rest.to_multiset()) by {
            assert forall|x: Plugin|
                rest.to_multiset().count(x) == second_rest.to_multiset().count(x) by {
                assert(first.to_multiset().count(x) == rest.to_multiset().insert(p).count(x));
                assert(second_rest.to_multiset().count(x) == second.to_multiset().remove(p).count(
                    x,
                ));
            }
        }
        lemma_declared_names_permutation(rest, second_rest);
        let names_first = declared_names(first);
        let names_rest = declared_names(rest);
        let names_second = declared_names(second);
        assert(names_first =~= names_rest.push(p.name@));
        assert(names_rest.push(p.name@).to_multiset() =~= names_rest.to_multiset().insert(
            p.name@,
        ));
        assert(declared_names(second_rest) =~= names_second.remove(j));
        assert(names_second.remove(j).to_multiset() =~= names_second.to_multiset().remove(
            names_second[j],
        ));
        assert(names_second[j] == p.name@);
        assert(names_first.to_multiset() =~= names_second.to_multiset()) by {
            assert(names_second.contains(p.name@));
            assert(names_second.to_multiset().count(p.name@) > 0);
            assert forall|x: Seq<char>|
                names_first.to_multiset().count(x) == names_second.to_multiset().count(x) by {
                assert(names_first.to_multiset().count(x) == names_rest.to_multiset().insert(
                    p.name@,
                ).count(x));
                assert(declared_names(second_rest).to_multiset().count(x)
                    == names_second.to_multiset().remove(p.name@).count(x));
            }
        }
    }
}

/// Two registries that hold the same descriptors, in whatever orders their
/// aggregation happened to produce, yield contexts that record the same
/// multiset of names when every descriptor registers: construction is
/// order-independent up to reordering of the record.
pub proof fn lemma_order_independent_multiset(first: Seq<Plugin>, second: Seq<Plugin>)
    requires
        first.to_multiset() == second.to_multiset(),
        forall|i: int| 0 <= i < first.len() ==> (#[trigger] first[i]).registers(),
    ensures
        registered_names(first).to_multiset() == registered_names(second).to_multiset(),
{
    broadcast use vstd::seq_lib::group_to_multiset_ensures;
    assert forall|i: int| 0 <= i < second.len() implies (#[trigger] second[i]).registers() by {
        assert(second.contains(second[i]));
        assert(second.to_multiset().count(second[i]) > 0);
        assert(first.to_multiset().count(second[i]) > 0);
        assert(first.contains(second[i]));
        let k = choose|k: int| 0 <= k < first.len() && first[k] == second[i];
        assert(first[k].registers());
    }
    lemma_full_registration_names(first);
    lemma_full_registration_names(second);
    lemma_declared_names_permutation(first, second);
}

/// Rebuilding a context from the same registry records the same names:
/// two contexts built from one registry have identical name multisets.
pub proof fn lemma_rebuild_same_multiset(registry: Seq<Plugin>, first: Context, second: Context)
    requires
        first.names() == registered_names(registry),
        second.names() == registered_names(registry),
    ensures
        first.names().to_multiset() == second.names().to_multiset(),
{
}

/// A descriptor whose constructor never registers leaves the context with
/// fewer recorded names than the registry has descriptors: the record
/// reflects only the plugins that explicitly registered, not all of them.
pub proof fn lemma_silent_plugin_undercounts(registry: Seq<Plugin>, k: int)
    requires
        0 <= k < registry.len(),
        !registry[k].registers(),
    ensures
        registered_names(registry).len() < registry.len(),
    decreases registry.len(),
{
    if k == registry.len() - 1 {
        lemma_record_no_longer_than_registry(registry.drop_last());
    } else {
        assert(registry.drop_last()[k] == registry[k]);
        lemma_silent_plugin_undercounts(registry.drop_last(), k);
    }
}

/// Every recorded name is the name of a registering descriptor, and every
/// registering descriptor's name is recorded.
pub proof fn lemma_record_matches_registration(registry: Seq<Plugin>)
    ensures
        forall|i: int|
            0 <= i < registry.len() && (#[trigger] registry[i]).registers() ==> registered_names(
                registry,
            ).contains(registry[i].name@),
        forall|x: Seq<char>|
            registered_names(registry).contains(x) ==> exists|i: int|
                0 <= i < registry.len() && (#[trigger] registry[i]).registers()
                    && registry[i].name@ == x,
    decreases registry.len(),
{
    if registry.len() > 0 {
        lemma_record_matches_registration(registry.drop_last());
        let prefix = registered_names(registry.drop_last());
        let whole = registered_names(registry);
        assert forall|i: int|
            0 <= i < registry.len() && (#[trigger] registry[i]).registers() implies whole.contains(
            registry[i].name@,
        ) by {
            if i < registry.len() - 1 {
                assert(registry.drop_last()[i] == registry[i]);
                let j = choose|j: int| 0 <= j < prefix.len() && prefix[j] == registry[i].name@;
                assert(whole[j] == registry[i].name@);
            } else {
                assert(whole[whole.len() - 1] == registry[i].name@);
            }
        }
        assert forall|x: Seq<char>| whole.contains(x) implies exists|i: int|
            0 <= i < registry.len() && (#[trigger] registry[i]).registers() && registry[i].name@
                == x by {
            let j = choose|j: int| 0 <= j < whole.len() && whole[j] == x;
            if j < prefix.len() {
                assert(whole[j] == prefix[j]);
                assert(prefix.contains(x));
                let i = choose|i: int|
                    0 <= i < registry.drop_last().len()
                        && (#[trigger] registry.drop_last()[i]).registers()
                        && registry.drop_last()[i].name@ == x;
                assert(registry[i] == registry.drop_last()[i]);
                assert(0 <= i < registry.len() && registry[i].registers() && registry[i].name@
                    == x);
            } else {
                let last = registry.len() - 1;
                assert(registry[last] == registry.last());
                assert(registry.last().registers());
                assert(whole[j] == registry.last().effect()[j - prefix.len()]);
                assert(registry[last].registers() && registry[last].name@ == x);
            }
        }
    }
}

} // verus!

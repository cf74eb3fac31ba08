//! Lists of plugins on their way from configuration to started.

use vstd::prelude::*;
use crate::assoc::{first_index, string_keys};
use crate::config::DefinitionView;
use crate::error::Error;
use crate::plugin::{
    Plugin, PluginInterface, RawPlugin, RawPluginState, is_start_failure_as, is_started_as,
};

verus! {

/// Whether a raw plugin is unresolved and waits for a handle for `definition`.
pub open spec fn waits_for<P>(plugin: RawPlugin<P>, definition: DefinitionView) -> bool {
    match plugin.state {
        RawPluginState::Unresolved(wanted) => wanted@ == definition,
        RawPluginState::Resolved(_) => false,
    }
}

/// The names of a list of raw plugins.
pub open spec fn raw_names<P>(plugins: Seq<RawPlugin<P>>) -> Seq<Seq<char>> {
    Seq::new(plugins.len(), |i: int| plugins[i].name@)
}

/// The kind of handle each raw plugin still waits for; none for one that is resolved.
pub open spec fn wanted_kinds<P>(plugins: Seq<RawPlugin<P>>) -> Seq<Option<Seq<char>>> {
    Seq::new(
        plugins.len(),
        |i: int|
            match plugins[i].state {
                RawPluginState::Unresolved(definition) => Some(definition.kind@),
                RawPluginState::Resolved(_) => None,
            },
    )
}

/// The kinds of handle that a list of definitions asks for.
pub open spec fn defined_kinds(definitions: Seq<(Seq<char>, DefinitionView)>) -> Seq<
    Option<Seq<char>>,
> {
    Seq::new(definitions.len(), |i: int| Some(definitions[i].1.kind))
}

/// The names that a list of definitions gives its plugins.
pub open spec fn defined_names(definitions: Seq<(Seq<char>, DefinitionView)>) -> Seq<Seq<char>> {
    Seq::new(definitions.len(), |i: int| definitions[i].0)
}

/// The kinds of handle left after one plugin was served: a plugin that waits
/// for a kind takes the first handle of that kind.
pub open spec fn kinds_after_one(kinds: Seq<Seq<char>>, want: Option<Seq<char>>) -> Seq<Seq<char>> {
    match want {
        Some(kind) => match first_index(kinds, kind) {
            Some(i) => kinds.remove(i),
            None => kinds,
        },
        None => kinds,
    }
}

/// The kinds of handle left after the plugins were served from first to last.
pub open spec fn kinds_after(kinds: Seq<Seq<char>>, wanted: Seq<Option<Seq<char>>>) -> Seq<
    Seq<char>,
>
    decreases wanted.len(),
{
    if wanted.len() == 0 {
        kinds
    } else {
        kinds_after_one(kinds_after(kinds, wanted.drop_last()), wanted.last())
    }
}

/// Whether the plugin at position `i` has a handle once the plugins were
/// served from first to last: it had one, or one of its kind was left for it.
pub open spec fn is_served(kinds: Seq<Seq<char>>, wanted: Seq<Option<Seq<char>>>, i: int) -> bool {
    match wanted[i] {
        Some(kind) => first_index(kinds_after(kinds, wanted.subrange(0, i)), kind) is Some,
        None => true,
    }
}

/// The names of those of the first `n` plugins that are left without a handle, in order.
pub open spec fn unserved_names(
    kinds: Seq<Seq<char>>,
    names: Seq<Seq<char>>,
    wanted: Seq<Option<Seq<char>>>,
    n: int,
) -> Seq<Seq<char>>
    decreases n,
{
    if n <= 0 {
        Seq::empty()
    } else {
        let before = unserved_names(kinds, names, wanted, n - 1);
        if is_served(kinds, wanted, n - 1) {
            before
        } else {
            before.push(names[n - 1])
        }
    }
}

/// The names of those of the first `n` plugins whose flag is set, in order.
pub open spec fn selected_names<P>(plugins: Seq<RawPlugin<P>>, flags: Seq<bool>, n: int) -> Seq<
    Seq<char>,
>
    decreases n,
{
    if n <= 0 {
        Seq::empty()
    } else {
        let before = selected_names(plugins, flags, n - 1);
        if flags[n - 1] {
            before.push(plugins[n - 1].name@)
        } else {
            before
        }
    }
}

/// For each plugin, whether it is unresolved.
pub open spec fn unresolved_flags<P>(plugins: Seq<RawPlugin<P>>) -> Seq<bool> {
    Seq::new(plugins.len(), |i: int| plugins[i].state is Unresolved)
}

/// The names of the unresolved plugins of a list, in order.
pub open spec fn unresolved_names<P>(plugins: Seq<RawPlugin<P>>) -> Seq<Seq<char>> {
    selected_names(plugins, unresolved_flags(plugins), plugins.len() as int)
}

/// Which names are selected depends on the flags of the plugins looked at, and on nothing else.
pub proof fn lemma_selected_names_by_flags<P>(
    plugins: Seq<RawPlugin<P>>,
    a: Seq<bool>,
    b: Seq<bool>,
    n: int,
)
    requires
        0 <= n <= plugins.len(),
        n <= a.len(),
        n <= b.len(),
        forall|i: int| 0 <= i < n ==> a[i] == b[i],
    ensures
        selected_names(plugins, a, n) == selected_names(plugins, b, n),
    decreases n,
{
    if n > 0 {
        lemma_selected_names_by_flags(plugins, a, b, n - 1);
    }
}

/// A list has no unresolved name exactly when all its plugins are resolved.
pub proof fn lemma_unresolved_names_empty<P>(plugins: Seq<RawPlugin<P>>, n: int)
    requires
        0 <= n <= plugins.len(),
    ensures
        selected_names(plugins, unresolved_flags(plugins), n).len() == 0 <==> forall|i: int|
            0 <= i < n ==> (#[trigger] plugins[i]).state is Resolved,
    decreases n,
{
    if n > 0 {
        lemma_unresolved_names_empty(plugins, n - 1);
        if plugins[n - 1].state is Resolved {
        } else {
            assert(unresolved_flags(plugins)[n - 1]);
        }
    }
}

/// Removing an entry of a keyed list removes its key.
pub proof fn lemma_string_keys_remove<V>(entries: Seq<(String, V)>, i: int)
    requires
        0 <= i < entries.len(),
    ensures
        string_keys(entries.remove(i)) == string_keys(entries).remove(i),
{
    assert(string_keys(entries.remove(i)) =~= string_keys(entries).remove(i));
}

/// After resolving, the unresolved plugins are those that were not served.
pub proof fn lemma_unresolved_are_unserved<P>(
    resolved: Seq<RawPlugin<P>>,
    kinds: Seq<Seq<char>>,
    names: Seq<Seq<char>>,
    wanted: Seq<Option<Seq<char>>>,
    n: int,
)
    requires
        0 <= n <= resolved.len(),
        names == raw_names(resolved),
        wanted.len() == resolved.len(),
        forall|i: int|
            0 <= i < resolved.len() ==> ((#[trigger] resolved[i]).state is Resolved <==> is_served(
                kinds,
                wanted,
                i,
            )),
    ensures
        selected_names(resolved, unresolved_flags(resolved), n) == unserved_names(
            kinds,
            names,
            wanted,
            n,
        ),
    decreases n,
{
    if n > 0 {
        lemma_unresolved_are_unserved(resolved, kinds, names, wanted, n - 1);
        assert(resolved[n - 1].state is Resolved <==> is_served(kinds, wanted, n - 1));
    }
}

/// Whether `name` is the name of one of the first `n` plugins that is left
/// without a handle.
pub open spec fn is_unserved_name(
    kinds: Seq<Seq<char>>,
    names: Seq<Seq<char>>,
    wanted: Seq<Option<Seq<char>>>,
    n: int,
    name: Seq<char>,
) -> bool {
    exists|i: int| 0 <= i < n && !is_served(kinds, wanted, i) && #[trigger] names[i] == name
}

/// The list of unresolved names is complete and holds nothing else: it
/// holds the name of every plugin that is left without a handle, and every
/// name it holds is the name of such a plugin.
pub proof fn law_unresolved_list_is_complete(
    kinds: Seq<Seq<char>>,
    names: Seq<Seq<char>>,
    wanted: Seq<Option<Seq<char>>>,
    n: int,
)
    requires
        0 <= n <= names.len(),
        names.len() == wanted.len(),
    ensures
        forall|i: int|
            0 <= i < n && !is_served(kinds, wanted, i) ==> unserved_names(
                kinds,
                names,
                wanted,
                n,
            ).contains(#[trigger] names[i]),
        forall|k: int|
            0 <= k < unserved_names(kinds, names, wanted, n).len() ==> is_unserved_name(
                kinds,
                names,
                wanted,
                n,
                #[trigger] unserved_names(kinds, names, wanted, n)[k],
            ),
    decreases n,
{
    if n > 0 {
        law_unresolved_list_is_complete(kinds, names, wanted, n - 1);
        let before = unserved_names(kinds, names, wanted, n - 1);
        let all = unserved_names(kinds, names, wanted, n);
        assert forall|i: int| 0 <= i < n && !is_served(kinds, wanted, i) implies all.contains(
            #[trigger] names[i],
        ) by {
            if i < n - 1 {
                let k = choose|k: int| 0 <= k < before.len() && before[k] == names[i];
                assert(all[k] == names[i]);
            } else {
                assert(all[all.len() - 1] == names[i]);
            }
        }
        assert forall|k: int| 0 <= k < all.len() implies is_unserved_name(
            kinds,
            names,
            wanted,
            n,
            #[trigger] all[k],
        ) by {
            if k < before.len() {
                assert(all[k] == before[k]);
                assert(is_unserved_name(kinds, names, wanted, n - 1, before[k]));
                let i = choose|i: int|
                    0 <= i < n - 1 && !is_served(kinds, wanted, i) && #[trigger] names[i]
                        == before[k];
                assert(names[i] == all[k]);
            } else {
                assert(names[n - 1] == all[k]);
            }
        }
    }
}

/// Whether a raw plugin is resolved and its handle answers the start with success.
pub open spec fn answers_start_well<P: PluginInterface>(plugin: RawPlugin<P>) -> bool {
    match plugin.state {
        RawPluginState::Unresolved(_) => false,
        RawPluginState::Resolved(handle) => handle.answers_start(Ok(())),
    }
}

/// Whether `started` holds the plugins of `plugins`, each started, in the same order.
pub open spec fn are_started_as<P: PluginInterface>(
    started: Seq<Plugin<P>>,
    plugins: Seq<RawPlugin<P>>,
) -> bool {
    &&& started.len() == plugins.len()
    &&& forall|i: int| 0 <= i < plugins.len() ==> is_started_as(#[trigger] started[i], plugins[i])
}

/// Whether `e` is the failure of the first plugin of `plugins` that does not
/// start: every plugin in front of it answered its start with success, and `e`
/// is the failure of that plugin to start.
pub open spec fn is_first_start_failure<P: PluginInterface>(
    e: Error,
    plugins: Seq<RawPlugin<P>>,
) -> bool {
    exists|i: int|
        0 <= i < plugins.len() && is_start_failure_as(e, #[trigger] plugins[i]) && forall|j: int|
            0 <= j < i ==> answers_start_well(#[trigger] plugins[j])
}

} // verus!

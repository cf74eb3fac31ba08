//! What holds of every compiled sequence.

use vstd::prelude::*;
use crate::assoc::{is_first_index, lemma_first_exists};
use crate::config::ConfigView;
use crate::graph::{
    ActionKindView, ActionView, has_source, is_emitted, member_actions, provisions, publications,
    published_before, published_in, sequence_upto, sink_action, step_actions,
};
use crate::plugin::{DeclarationView, PluginId, SinkView};
use crate::step::{PluginStep, STEP_COUNT, step_at};

verus! {

/// Whether an action fills a sink that the plugin `id` needs for `step`.
pub open spec fn is_provision_of(
    action: ActionView,
    plugins: Seq<DeclarationView>,
    config: ConfigView,
    table: Seq<Seq<PluginId>>,
    id: PluginId,
    step: PluginStep,
) -> bool {
    exists|a: int|
        0 <= a < plugins[id as int].sinks.len() && (#[trigger] plugins[id as int].sinks[a]).step
            == step && action == (ActionView {
            id,
            kind: sink_action(plugins, config, table, id, plugins[id as int].sinks[a]),
        })
}

/// Whether an action publishes a source that `step` publishes on the plugin `id`.
pub open spec fn is_publication_of(
    action: ActionView,
    plugins: Seq<DeclarationView>,
    id: PluginId,
    step: PluginStep,
) -> bool {
    exists|a: int|
        0 <= a < plugins[id as int].sources.len() && (
        #[trigger] plugins[id as int].sources[a]).step == step && action == (ActionView {
            id,
            kind: ActionKindView::Get(plugins[id as int].sources[a].key),
        })
}

/// Every provision of a plugin for a step fills one of the plugin's sinks for that step.
pub proof fn lemma_provisions_are_sinks(
    plugins: Seq<DeclarationView>,
    config: ConfigView,
    table: Seq<Seq<PluginId>>,
    id: PluginId,
    step: PluginStep,
    n: int,
)
    requires
        0 <= n <= plugins[id as int].sinks.len(),
    ensures
        forall|o: int|
            0 <= o < provisions(plugins, config, table, id, step, n).len() ==> is_provision_of(
                #[trigger] provisions(plugins, config, table, id, step, n)[o],
                plugins,
                config,
                table,
                id,
                step,
            ),
    decreases n,
{
    if n > 0 {
        lemma_provisions_are_sinks(plugins, config, table, id, step, n - 1);
        let before = provisions(plugins, config, table, id, step, n - 1);
        let all = provisions(plugins, config, table, id, step, n);
        let sink = plugins[id as int].sinks[n - 1];
        assert forall|o: int| 0 <= o < all.len() implies is_provision_of(
            #[trigger] all[o],
            plugins,
            config,
            table,
            id,
            step,
        ) by {
            if o < before.len() {
                assert(all[o] == before[o]);
            } else {
                assert(sink.step == step);
                assert(all[o] == (ActionView {
                    id,
                    kind: sink_action(plugins, config, table, id, sink),
                }));
            }
        }
    }
}

/// Every sink that a plugin needs for a step has its provision.
pub proof fn lemma_sinks_are_provided(
    plugins: Seq<DeclarationView>,
    config: ConfigView,
    table: Seq<Seq<PluginId>>,
    id: PluginId,
    step: PluginStep,
    n: int,
    a: int,
) -> (o: int)
    requires
        0 <= a < n <= plugins[id as int].sinks.len(),
        plugins[id as int].sinks[a].step == step,
    ensures
        0 <= o < provisions(plugins, config, table, id, step, n).len(),
        provisions(plugins, config, table, id, step, n)[o] == (ActionView {
            id,
            kind: sink_action(plugins, config, table, id, plugins[id as int].sinks[a]),
        }),
    decreases n,
{
    let before = provisions(plugins, config, table, id, step, n - 1);
    if a == n - 1 {
        before.len() as int
    } else {
        let o = lemma_sinks_are_provided(plugins, config, table, id, step, n - 1, a);
        let all = provisions(plugins, config, table, id, step, n);
        assert(all[o] == before[o]);
        o
    }
}

/// Every publication of a plugin for a step publishes one of the plugin's sources of that step.
pub proof fn lemma_publications_are_sources(
    plugins: Seq<DeclarationView>,
    id: PluginId,
    step: PluginStep,
    n: int,
)
    requires
        0 <= n <= plugins[id as int].sources.len(),
    ensures
        forall|o: int|
            0 <= o < publications(plugins, id, step, n).len() ==> is_publication_of(
                #[trigger] publications(plugins, id, step, n)[o],
                plugins,
                id,
                step,
            ),
    decreases n,
{
    if n > 0 {
        lemma_publications_are_sources(plugins, id, step, n - 1);
        let before = publications(plugins, id, step, n - 1);
        let all = publications(plugins, id, step, n);
        let source = plugins[id as int].sources[n - 1];
        assert forall|o: int| 0 <= o < all.len() implies is_publication_of(
            #[trigger] all[o],
            plugins,
            id,
            step,
        ) by {
            if o < before.len() {
                assert(all[o] == before[o]);
            } else {
                assert(source.step == step);
                assert(all[o] == (ActionView { id, kind: ActionKindView::Get(source.key) }));
            }
        }
    }
}

/// Every source that a step publishes on a plugin has its publication.
pub proof fn lemma_sources_are_published(
    plugins: Seq<DeclarationView>,
    id: PluginId,
    step: PluginStep,
    n: int,
    a: int,
) -> (o: int)
    requires
        0 <= a < n <= plugins[id as int].sources.len(),
        plugins[id as int].sources[a].step == step,
    ensures
        0 <= o < publications(plugins, id, step, n).len(),
        publications(plugins, id, step, n)[o] == (ActionView {
            id,
            kind: ActionKindView::Get(plugins[id as int].sources[a].key),
        }),
    decreases n,
{
    let before = publications(plugins, id, step, n - 1);
    if a == n - 1 {
        before.len() as int
    } else {
        let o = lemma_sources_are_published(plugins, id, step, n - 1, a);
        let all = publications(plugins, id, step, n);
        assert(all[o] == before[o]);
        o
    }
}

/// The actions of the step at position `t` as they stand in the sequence:
/// all of them, or none where a dry run leaves the step out.
pub open spec fn block(
    plugins: Seq<DeclarationView>,
    config: ConfigView,
    table: Seq<Seq<PluginId>>,
    is_dry_run: bool,
    t: int,
) -> Seq<ActionView> {
    if is_emitted(step_at(t), is_dry_run) {
        step_actions(plugins, config, table, step_at(t), table[t].len() as int)
    } else {
        Seq::empty()
    }
}

/// Whether position `j` of the sequence is offset `o` of the actions of the
/// member at position `i` of the step at position `t`.
pub open spec fn locates(
    plugins: Seq<DeclarationView>,
    config: ConfigView,
    table: Seq<Seq<PluginId>>,
    is_dry_run: bool,
    j: int,
    t: int,
    i: int,
    o: int,
) -> bool {
    &&& 0 <= t < STEP_COUNT
    &&& is_emitted(step_at(t), is_dry_run)
    &&& 0 <= i < table[t].len()
    &&& 0 <= o < member_actions(plugins, config, table, step_at(t), i).len()
    &&& j == sequence_upto(plugins, config, table, is_dry_run, t).len() + step_actions(
        plugins,
        config,
        table,
        step_at(t),
        i,
    ).len() + o
}

/// The sequence grows block by block.
pub proof fn lemma_sequence_unfold(
    plugins: Seq<DeclarationView>,
    config: ConfigView,
    table: Seq<Seq<PluginId>>,
    is_dry_run: bool,
    n: int,
)
    requires
        n > 0,
    ensures
        sequence_upto(plugins, config, table, is_dry_run, n) == sequence_upto(
            plugins,
            config,
            table,
            is_dry_run,
            n - 1,
        ) + block(plugins, config, table, is_dry_run, n - 1),
{
    let before = sequence_upto(plugins, config, table, is_dry_run, n - 1);
    assert(before + Seq::<ActionView>::empty() =~= before);
}

/// The actions of a member stand in the actions of its step, behind those of
/// the members before it.
pub proof fn lemma_member_in_step(
    plugins: Seq<DeclarationView>,
    config: ConfigView,
    table: Seq<Seq<PluginId>>,
    step: PluginStep,
    m: int,
    i: int,
    o: int,
)
    requires
        0 <= i < m,
        0 <= o < member_actions(plugins, config, table, step, i).len(),
    ensures
        step_actions(plugins, config, table, step, i).len() + o < step_actions(
            plugins,
            config,
            table,
            step,
            m,
        ).len(),
        step_actions(plugins, config, table, step, m)[step_actions(
            plugins,
            config,
            table,
            step,
            i,
        ).len() + o] == member_actions(plugins, config, table, step, i)[o],
    decreases m,
{
    if i < m - 1 {
        lemma_member_in_step(plugins, config, table, step, m - 1, i, o);
    }
}

/// The actions of a step that a run holds stand in the sequence, behind
/// those of the steps before it.
pub proof fn lemma_block_in_sequence(
    plugins: Seq<DeclarationView>,
    config: ConfigView,
    table: Seq<Seq<PluginId>>,
    is_dry_run: bool,
    n: int,
    t: int,
    b: int,
)
    requires
        0 <= t < n,
        0 <= b < block(plugins, config, table, is_dry_run, t).len(),
    ensures
        sequence_upto(plugins, config, table, is_dry_run, t).len() + b < sequence_upto(
            plugins,
            config,
            table,
            is_dry_run,
            n,
        ).len(),
        sequence_upto(plugins, config, table, is_dry_run, n)[sequence_upto(
            plugins,
            config,
            table,
            is_dry_run,
            t,
        ).len() + b] == block(plugins, config, table, is_dry_run, t)[b],
    decreases n,
{
    lemma_sequence_unfold(plugins, config, table, is_dry_run, n);
    if t < n - 1 {
        lemma_block_in_sequence(plugins, config, table, is_dry_run, n - 1, t, b);
    }
}

/// A located position holds the action it is located at.
pub proof fn lemma_located_action(
    plugins: Seq<DeclarationView>,
    config: ConfigView,
    table: Seq<Seq<PluginId>>,
    is_dry_run: bool,
    j: int,
    t: int,
    i: int,
    o: int,
)
    requires
        locates(plugins, config, table, is_dry_run, j, t, i, o),
    ensures
        0 <= j < sequence_upto(plugins, config, table, is_dry_run, t + 1).len(),
        j < sequence_upto(plugins, config, table, is_dry_run, STEP_COUNT as int).len(),
        sequence_upto(plugins, config, table, is_dry_run, STEP_COUNT as int)[j] == member_actions(
            plugins,
            config,
            table,
            step_at(t),
            i,
        )[o],
{
    let b = step_actions(plugins, config, table, step_at(t), i).len() + o;
    lemma_member_in_step(plugins, config, table, step_at(t), table[t].len() as int, i, o);
    lemma_block_in_sequence(plugins, config, table, is_dry_run, t + 1, t, b);
    lemma_block_in_sequence(plugins, config, table, is_dry_run, STEP_COUNT as int, t, b);
}

/// Every position of the actions of a step lies in the actions of one of its members.
pub proof fn lemma_locate_in_step(
    plugins: Seq<DeclarationView>,
    config: ConfigView,
    table: Seq<Seq<PluginId>>,
    step: PluginStep,
    m: int,
    b: int,
) -> (r: (int, int))
    requires
        0 <= b < step_actions(plugins, config, table, step, m).len(),
    ensures
        0 <= r.0 < m,
        0 <= r.1 < member_actions(plugins, config, table, step, r.0).len(),
        b == step_actions(plugins, config, table, step, r.0).len() + r.1,
    decreases m,
{
    let before = step_actions(plugins, config, table, step, m - 1);
    if b < before.len() {
        lemma_locate_in_step(plugins, config, table, step, m - 1, b)
    } else {
        (m - 1, b - before.len())
    }
}

/// Every position of the sequence is located.
pub proof fn lemma_locate(
    plugins: Seq<DeclarationView>,
    config: ConfigView,
    table: Seq<Seq<PluginId>>,
    is_dry_run: bool,
    n: int,
    j: int,
) -> (r: (int, int, int))
    requires
        0 <= n <= STEP_COUNT,
        0 <= j < sequence_upto(plugins, config, table, is_dry_run, n).len(),
    ensures
        r.0 < n,
        locates(plugins, config, table, is_dry_run, j, r.0, r.1, r.2),
    decreases n,
{
    lemma_sequence_unfold(plugins, config, table, is_dry_run, n);
    let before = sequence_upto(plugins, config, table, is_dry_run, n - 1);
    if j < before.len() {
        lemma_locate(plugins, config, table, is_dry_run, n - 1, j)
    } else {
        let (i, o) = lemma_locate_in_step(
            plugins,
            config,
            table,
            step_at(n - 1),
            table[n - 1].len() as int,
            j - before.len(),
        );
        (n - 1, i, o)
    }
}

/// The sequence only grows from step to step.
pub proof fn lemma_sequence_grows(
    plugins: Seq<DeclarationView>,
    config: ConfigView,
    table: Seq<Seq<PluginId>>,
    is_dry_run: bool,
    a: int,
    b: int,
)
    requires
        0 <= a <= b,
    ensures
        sequence_upto(plugins, config, table, is_dry_run, a).len() <= sequence_upto(
            plugins,
            config,
            table,
            is_dry_run,
            b,
        ).len(),
    decreases b,
{
    if a < b {
        lemma_sequence_unfold(plugins, config, table, is_dry_run, b);
        lemma_sequence_grows(plugins, config, table, is_dry_run, a, b - 1);
    }
}

/// The actions of a step only grow from member to member.
pub proof fn lemma_step_grows(
    plugins: Seq<DeclarationView>,
    config: ConfigView,
    table: Seq<Seq<PluginId>>,
    step: PluginStep,
    a: int,
    b: int,
)
    requires
        0 <= a <= b,
    ensures
        step_actions(plugins, config, table, step, a).len() <= step_actions(
            plugins,
            config,
            table,
            step,
            b,
        ).len(),
    decreases b,
{
    if a < b {
        lemma_step_grows(plugins, config, table, step, a, b - 1);
    }
}

/// The offset of the call in the actions of the member at position `i` of
/// `step`: the number of provisions in front of it.
pub open spec fn call_offset(
    plugins: Seq<DeclarationView>,
    config: ConfigView,
    table: Seq<Seq<PluginId>>,
    step: PluginStep,
    i: int,
) -> int {
    let members = table[step.position()];
    let id = members[i];
    if is_first_index(members, id, i) {
        provisions(
            plugins,
            config,
            table,
            id,
            step,
            plugins[id as int].sinks.len() as int,
        ).len() as int
    } else {
        0
    }
}

/// The actions of a member are its provisions, then the call, then its
/// publications, all on the member's plugin.
pub proof fn lemma_member_shape(
    plugins: Seq<DeclarationView>,
    config: ConfigView,
    table: Seq<Seq<PluginId>>,
    step: PluginStep,
    i: int,
    o: int,
)
    requires
        0 <= o < member_actions(plugins, config, table, step, i).len(),
    ensures
        ({
            let id = table[step.position()][i];
            let action = member_actions(plugins, config, table, step, i)[o];
            let at = call_offset(plugins, config, table, step, i);
            &&& action.id == id
            &&& 0 <= at < member_actions(plugins, config, table, step, i).len()
            &&& o < at ==> is_provision_of(action, plugins, config, table, id, step)
                && is_first_index(table[step.position()], id, i) && action == provisions(
                plugins,
                config,
                table,
                id,
                step,
                plugins[id as int].sinks.len() as int,
            )[o]
            &&& o == at ==> action.kind == ActionKindView::Call(step)
            &&& o > at ==> is_publication_of(action, plugins, id, step) && action == publications(
                plugins,
                id,
                step,
                plugins[id as int].sources.len() as int,
            )[o - at - 1]
            &&& member_actions(plugins, config, table, step, i).len() == at + 1 + publications(
                plugins,
                id,
                step,
                plugins[id as int].sources.len() as int,
            ).len()
        }),
{
    let id = table[step.position()][i];
    lemma_provisions_are_sinks(
        plugins,
        config,
        table,
        id,
        step,
        plugins[id as int].sinks.len() as int,
    );
    lemma_publications_are_sources(plugins, id, step, plugins[id as int].sources.len() as int);
}

/// A provision is never a call and never a read; a publication is a read.
pub proof fn lemma_kinds_of_member(
    plugins: Seq<DeclarationView>,
    config: ConfigView,
    table: Seq<Seq<PluginId>>,
    step: PluginStep,
    i: int,
    o: int,
)
    requires
        0 <= o < member_actions(plugins, config, table, step, i).len(),
    ensures
        ({
            let action = member_actions(plugins, config, table, step, i)[o];
            let at = call_offset(plugins, config, table, step, i);
            &&& action.kind is Call <==> o == at
            &&& action.kind is Get <==> o > at
            &&& action.kind is SetFrom ==> o < at
        }),
{
    lemma_member_shape(plugins, config, table, step, i, o);
}

/// The whole sequence for a membership table.
pub open spec fn whole(
    plugins: Seq<DeclarationView>,
    config: ConfigView,
    table: Seq<Seq<PluginId>>,
    is_dry_run: bool,
) -> Seq<ActionView> {
    sequence_upto(plugins, config, table, is_dry_run, STEP_COUNT as int)
}

/// In front of every call of a step on a plugin stands, for each sink that
/// the plugin needs for that step, the action that fills it.
pub proof fn lemma_provision_precedes_call(
    plugins: Seq<DeclarationView>,
    config: ConfigView,
    table: Seq<Seq<PluginId>>,
    is_dry_run: bool,
    c: int,
    step: PluginStep,
    a: int,
) -> (j: int)
    requires
        0 <= c < whole(plugins, config, table, is_dry_run).len(),
        whole(plugins, config, table, is_dry_run)[c].kind == ActionKindView::Call(step),
        0 <= a < plugins[whole(plugins, config, table, is_dry_run)[c].id as int].sinks.len(),
        plugins[whole(plugins, config, table, is_dry_run)[c].id as int].sinks[a].step == step,
    ensures
        0 <= j < c,
        whole(plugins, config, table, is_dry_run)[j] == (ActionView {
            id: whole(plugins, config, table, is_dry_run)[c].id,
            kind: sink_action(
                plugins,
                config,
                table,
                whole(plugins, config, table, is_dry_run)[c].id,
                plugins[whole(plugins, config, table, is_dry_run)[c].id as int].sinks[a],
            ),
        }),
{
    let seq = whole(plugins, config, table, is_dry_run);
    let (t, i, o) = lemma_locate(plugins, config, table, is_dry_run, STEP_COUNT as int, c);
    lemma_located_action(plugins, config, table, is_dry_run, c, t, i, o);
    let at_step = step_at(t);
    lemma_member_shape(plugins, config, table, at_step, i, o);
    lemma_kinds_of_member(plugins, config, table, at_step, i, o);
    assert(at_step == step);
    assert(step.position() == t);
    let members = table[t];
    let id = members[i];
    assert(seq[c].id == id);
    lemma_first_exists(members, id, i);
    let first = choose|first: int| is_first_index(members, id, first) && first <= i;
    let filled = provisions(plugins, config, table, id, step, plugins[id as int].sinks.len() as int);
    let offset = lemma_sinks_are_provided(
        plugins,
        config,
        table,
        id,
        step,
        plugins[id as int].sinks.len() as int,
        a,
    );
    assert(call_offset(plugins, config, table, step, first) == filled.len());
    assert(member_actions(plugins, config, table, step, first).len() > filled.len());
    lemma_member_shape(plugins, config, table, step, first, offset);
    let j = sequence_upto(plugins, config, table, is_dry_run, t).len() + step_actions(
        plugins,
        config,
        table,
        step,
        first,
    ).len() + offset;
    assert(locates(plugins, config, table, is_dry_run, j, t, first, offset));
    lemma_located_action(plugins, config, table, is_dry_run, j, t, first, offset);
    if first < i {
        lemma_member_in_step(plugins, config, table, step, first + 1, first, offset);
        lemma_step_grows(plugins, config, table, step, first + 1, i);
    }
    j
}

/// A step that runs has every earlier step running too.
pub proof fn lemma_earlier_steps_run(is_dry_run: bool, earlier: int, later: int)
    requires
        0 <= earlier <= later < STEP_COUNT,
        is_emitted(step_at(later), is_dry_run),
    ensures
        is_emitted(step_at(earlier), is_dry_run),
{
}

/// In front of every action that writes a published value into a plugin
/// stands the action that reads that value from another plugin.
pub proof fn lemma_publication_precedes_use(
    plugins: Seq<DeclarationView>,
    config: ConfigView,
    table: Seq<Seq<PluginId>>,
    is_dry_run: bool,
    j: int,
    dst: Seq<char>,
    key: Seq<char>,
) -> (g: int)
    requires
        0 <= j < whole(plugins, config, table, is_dry_run).len(),
        whole(plugins, config, table, is_dry_run)[j].kind == ActionKindView::SetFrom(dst, key),
    ensures
        0 <= g < j,
        whole(plugins, config, table, is_dry_run)[g].kind == ActionKindView::Get(key),
        whole(plugins, config, table, is_dry_run)[g].id != whole(
            plugins,
            config,
            table,
            is_dry_run,
        )[j].id,
{
    let seq = whole(plugins, config, table, is_dry_run);
    let (t, i, o) = lemma_locate(plugins, config, table, is_dry_run, STEP_COUNT as int, j);
    lemma_located_action(plugins, config, table, is_dry_run, j, t, i, o);
    let step = step_at(t);
    lemma_member_shape(plugins, config, table, step, i, o);
    lemma_kinds_of_member(plugins, config, table, step, i, o);
    let id = table[t][i];
    assert(is_provision_of(seq[j], plugins, config, table, id, step));
    let a = choose|a: int|
        0 <= a < plugins[id as int].sinks.len() && (#[trigger] plugins[id as int].sinks[a]).step
            == step && seq[j] == (ActionView {
            id,
            kind: sink_action(plugins, config, table, id, plugins[id as int].sinks[a]),
        });
    let sink = plugins[id as int].sinks[a];
    assert(published_before(plugins, table, id, key, step));
    let earlier = choose|earlier: int|
        0 <= earlier < step.position() && earlier < table.len() && #[trigger] published_in(
            plugins,
            table[earlier],
            id,
            key,
            step_at(earlier),
        );
    let from = step_at(earlier);
    let at = choose|at: int|
        0 <= at < table[earlier].len() && (#[trigger] table[earlier][at]) != id
            && table[earlier][at] < plugins.len() && has_source(
            plugins[table[earlier][at] as int],
            key,
            from,
        );
    let other = table[earlier][at];
    let k = choose|k: int|
        0 <= k < plugins[other as int].sources.len() && (
        #[trigger] plugins[other as int].sources[k]).key == key
            && plugins[other as int].sources[k].step == from;
    let behind = lemma_sources_are_published(
        plugins,
        other,
        from,
        plugins[other as int].sources.len() as int,
        k,
    );
    let offset = call_offset(plugins, config, table, from, at) + 1 + behind;
    assert(from.position() == earlier);
    assert(member_actions(plugins, config, table, from, at).len() > offset) by {
        assert(member_actions(plugins, config, table, from, at).len() >= call_offset(
            plugins,
            config,
            table,
            from,
            at,
        ) + 1 + publications(
            plugins,
            other,
            from,
            plugins[other as int].sources.len() as int,
        ).len());
    }
    lemma_member_shape(plugins, config, table, from, at, offset);
    lemma_earlier_steps_run(is_dry_run, earlier, t);
    let g = sequence_upto(plugins, config, table, is_dry_run, earlier).len() + step_actions(
        plugins,
        config,
        table,
        from,
        at,
    ).len() + offset;
    assert(locates(plugins, config, table, is_dry_run, g, earlier, at, offset));
    lemma_located_action(plugins, config, table, is_dry_run, g, earlier, at, offset);
    lemma_sequence_grows(plugins, config, table, is_dry_run, earlier + 1, t);
    g
}

/// A dry run holds no call of a step that is not dry-run safe.
pub proof fn lemma_dry_run_calls_are_safe(
    plugins: Seq<DeclarationView>,
    config: ConfigView,
    table: Seq<Seq<PluginId>>,
    j: int,
    step: PluginStep,
)
    requires
        0 <= j < whole(plugins, config, table, true).len(),
        whole(plugins, config, table, true)[j].kind == ActionKindView::Call(step),
    ensures
        step.dry_run_safe(),
{
    let (t, i, o) = lemma_locate(plugins, config, table, true, STEP_COUNT as int, j);
    lemma_located_action(plugins, config, table, true, j, t, i, o);
    lemma_member_shape(plugins, config, table, step_at(t), i, o);
    lemma_kinds_of_member(plugins, config, table, step_at(t), i, o);
}

/// The number of steps that are dry-run safe: the pipeline up to and
/// including the verification of the release.
pub open spec fn safe_steps() -> int {
    PluginStep::VerifyRelease.position() + 1
}

/// A dry run holds the actions of the steps that are dry-run safe and no others.
pub proof fn lemma_dry_run_is_safe_part(
    plugins: Seq<DeclarationView>,
    config: ConfigView,
    table: Seq<Seq<PluginId>>,
    n: int,
)
    requires
        0 <= n <= STEP_COUNT,
    ensures
        sequence_upto(plugins, config, table, true, n) == sequence_upto(
            plugins,
            config,
            table,
            false,
            if n <= safe_steps() {
                n
            } else {
                safe_steps()
            },
        ),
    decreases n,
{
    if n > 0 {
        lemma_dry_run_is_safe_part(plugins, config, table, n - 1);
        lemma_sequence_unfold(plugins, config, table, true, n);
        if n <= safe_steps() {
            lemma_sequence_unfold(plugins, config, table, false, n);
            assert(is_emitted(step_at(n - 1), true));
        } else {
            assert(!is_emitted(step_at(n - 1), true));
            let before = sequence_upto(plugins, config, table, true, n - 1);
            assert(before + Seq::<ActionView>::empty() =~= before);
        }
    }
}

/// The sequence up to a step is the front of the sequence up to a later step.
pub proof fn lemma_sequence_is_prefix(
    plugins: Seq<DeclarationView>,
    config: ConfigView,
    table: Seq<Seq<PluginId>>,
    is_dry_run: bool,
    a: int,
    b: int,
)
    requires
        0 <= a <= b,
    ensures
        sequence_upto(plugins, config, table, is_dry_run, a).len() <= sequence_upto(
            plugins,
            config,
            table,
            is_dry_run,
            b,
        ).len(),
        sequence_upto(plugins, config, table, is_dry_run, b).subrange(
            0,
            sequence_upto(plugins, config, table, is_dry_run, a).len() as int,
        ) == sequence_upto(plugins, config, table, is_dry_run, a),
    decreases b,
{
    let front = sequence_upto(plugins, config, table, is_dry_run, a);
    if a < b {
        lemma_sequence_is_prefix(plugins, config, table, is_dry_run, a, b - 1);
        lemma_sequence_unfold(plugins, config, table, is_dry_run, b);
        let shorter = sequence_upto(plugins, config, table, is_dry_run, b - 1);
        let longer = sequence_upto(plugins, config, table, is_dry_run, b);
        assert(longer.subrange(0, front.len() as int) =~= shorter.subrange(
            0,
            front.len() as int,
        ));
    } else {
        assert(front.subrange(0, front.len() as int) =~= front);
    }
}

/// What a full run holds behind the actions of a dry run belongs to steps
/// that are not dry-run safe.
pub proof fn lemma_rest_is_unsafe(
    plugins: Seq<DeclarationView>,
    config: ConfigView,
    table: Seq<Seq<PluginId>>,
    j: int,
    step: PluginStep,
)
    requires
        whole(plugins, config, table, true).len() <= j < whole(
            plugins,
            config,
            table,
            false,
        ).len(),
        whole(plugins, config, table, false)[j].kind == ActionKindView::Call(step),
    ensures
        !step.dry_run_safe(),
{
    let (t, i, o) = lemma_locate(plugins, config, table, false, STEP_COUNT as int, j);
    lemma_located_action(plugins, config, table, false, j, t, i, o);
    lemma_member_shape(plugins, config, table, step_at(t), i, o);
    lemma_kinds_of_member(plugins, config, table, step_at(t), i, o);
    lemma_dry_run_is_safe_part(plugins, config, table, STEP_COUNT as int);
    if t < safe_steps() {
        lemma_sequence_grows(plugins, config, table, false, t + 1, safe_steps());
    }
}

/// How often a list of actions calls a step.
pub open spec fn calls_of(actions: Seq<ActionView>, step: PluginStep) -> nat
    decreases actions.len(),
{
    if actions.len() == 0 {
        0
    } else {
        calls_of(actions.drop_last(), step) + if actions.last().kind == ActionKindView::Call(step) {
            1nat
        } else {
            0nat
        }
    }
}

/// The calls of two lists add up.
pub proof fn lemma_calls_add(a: Seq<ActionView>, b: Seq<ActionView>, step: PluginStep)
    ensures
        calls_of(a + b, step) == calls_of(a, step) + calls_of(b, step),
    decreases b.len(),
{
    if b.len() == 0 {
        assert(a + b =~= a);
    } else {
        assert((a + b).drop_last() =~= a + b.drop_last());
        assert((a + b).last() == b.last());
        lemma_calls_add(a, b.drop_last(), step);
    }
}

/// A list without calls calls no step.
pub proof fn lemma_calls_of_none(actions: Seq<ActionView>, step: PluginStep)
    requires
        forall|i: int| 0 <= i < actions.len() ==> !((#[trigger] actions[i]).kind is Call),
    ensures
        calls_of(actions, step) == 0,
    decreases actions.len(),
{
    if actions.len() > 0 {
        let front = actions.drop_last();
        assert forall|i: int| 0 <= i < front.len() implies !((#[trigger] front[i]).kind is Call) by {
            assert(front[i] == actions[i]);
        }
        lemma_calls_of_none(front, step);
        assert(actions.last() == actions[actions.len() - 1]);
    }
}

/// The actions of a member call the member's step once and no other step.
pub proof fn lemma_member_calls(
    plugins: Seq<DeclarationView>,
    config: ConfigView,
    table: Seq<Seq<PluginId>>,
    at: PluginStep,
    i: int,
    step: PluginStep,
)
    ensures
        calls_of(member_actions(plugins, config, table, at, i), step) == if at == step {
            1nat
        } else {
            0nat
        },
{
    let id = table[at.position()][i];
    let sinks = plugins[id as int].sinks.len() as int;
    let sources = plugins[id as int].sources.len() as int;
    let filled = if is_first_index(table[at.position()], id, i) {
        provisions(plugins, config, table, id, at, sinks)
    } else {
        Seq::empty()
    };
    let gets = publications(plugins, id, at, sources);
    let call = ActionView { id, kind: ActionKindView::Call(at) };
    lemma_provisions_are_sinks(plugins, config, table, id, at, sinks);
    lemma_publications_are_sources(plugins, id, at, sources);
    assert forall|o: int| 0 <= o < filled.len() implies !((#[trigger] filled[o]).kind is Call) by {
        assert(is_provision_of(filled[o], plugins, config, table, id, at));
    }
    assert forall|o: int| 0 <= o < gets.len() implies !((#[trigger] gets[o]).kind is Call) by {
        assert(is_publication_of(gets[o], plugins, id, at));
    }
    lemma_calls_of_none(filled, step);
    lemma_calls_of_none(gets, step);
    assert(filled.push(call).drop_last() =~= filled);
    lemma_calls_add(filled.push(call), gets, step);
}

/// The actions of the first members of a step call the step once for each
/// member and no other step.
pub proof fn lemma_step_calls(
    plugins: Seq<DeclarationView>,
    config: ConfigView,
    table: Seq<Seq<PluginId>>,
    at: PluginStep,
    m: int,
    step: PluginStep,
)
    requires
        0 <= m,
    ensures
        calls_of(step_actions(plugins, config, table, at, m), step) == if at == step {
            m
        } else {
            0
        },
    decreases m,
{
    if m > 0 {
        lemma_step_calls(plugins, config, table, at, m - 1, step);
        lemma_member_calls(plugins, config, table, at, m - 1, step);
        lemma_calls_add(
            step_actions(plugins, config, table, at, m - 1),
            member_actions(plugins, config, table, at, m - 1),
            step,
        );
    }
}

/// The sequence up to a step calls each step that runs and lies before it
/// once for each of its members, and no other step.
pub proof fn lemma_sequence_calls(
    plugins: Seq<DeclarationView>,
    config: ConfigView,
    table: Seq<Seq<PluginId>>,
    is_dry_run: bool,
    n: int,
    step: PluginStep,
)
    requires
        0 <= n <= STEP_COUNT,
    ensures
        calls_of(sequence_upto(plugins, config, table, is_dry_run, n), step) == if step.position()
            < n && is_emitted(step, is_dry_run) {
            table[step.position()].len()
        } else {
            0
        },
    decreases n,
{
    if n > 0 {
        lemma_sequence_calls(plugins, config, table, is_dry_run, n - 1, step);
        lemma_sequence_unfold(plugins, config, table, is_dry_run, n);
        let at = step_at(n - 1);
        lemma_step_calls(plugins, config, table, at, table[n - 1].len() as int, step);
        lemma_calls_add(
            sequence_upto(plugins, config, table, is_dry_run, n - 1),
            block(plugins, config, table, is_dry_run, n - 1),
            step,
        );
        assert(at == step <==> step.position() == n - 1);
    }
}

/// The key of the plugin that an action writes to; a call and a read write to none.
pub open spec fn destination(kind: ActionKindView) -> Option<Seq<char>> {
    match kind {
        ActionKindView::Call(_) => None,
        ActionKindView::Get(_) => None,
        ActionKindView::SetFrom(dst_key, _) => Some(dst_key),
        ActionKindView::SetValue(dst_key, _) => Some(dst_key),
        ActionKindView::RequireConfigEntry(dst_key) => Some(dst_key),
        ActionKindView::RequireEnvValue(dst_key, _) => Some(dst_key),
    }
}

/// The action that fills a sink writes to the key of the sink.
pub proof fn lemma_sink_action_writes_to_sink(
    plugins: Seq<DeclarationView>,
    config: ConfigView,
    table: Seq<Seq<PluginId>>,
    id: PluginId,
    sink: SinkView,
)
    ensures
        destination(sink_action(plugins, config, table, id, sink)) == Some(sink.key),
{
}

/// No action that writes to a key of a plugin stands behind a call of the
/// step for which alone the plugin needs that key.
pub proof fn lemma_writes_precede_call(
    plugins: Seq<DeclarationView>,
    config: ConfigView,
    table: Seq<Seq<PluginId>>,
    is_dry_run: bool,
    c: int,
    step: PluginStep,
    x: int,
    key: Seq<char>,
)
    requires
        0 <= c < whole(plugins, config, table, is_dry_run).len(),
        0 <= x < whole(plugins, config, table, is_dry_run).len(),
        whole(plugins, config, table, is_dry_run)[c].kind == ActionKindView::Call(step),
        whole(plugins, config, table, is_dry_run)[x].id == whole(
            plugins,
            config,
            table,
            is_dry_run,
        )[c].id,
        destination(whole(plugins, config, table, is_dry_run)[x].kind) == Some(key),
        forall|a: int|
            0 <= a < plugins[whole(plugins, config, table, is_dry_run)[c].id as int].sinks.len() && (
            #[trigger] plugins[whole(plugins, config, table, is_dry_run)[c].id as int].sinks[a]).key
                == key ==> plugins[whole(
                plugins,
                config,
                table,
                is_dry_run,
            )[c].id as int].sinks[a].step == step,
    ensures
        x < c,
{
    let seq = whole(plugins, config, table, is_dry_run);
    let id = seq[c].id;
    let (t, i, o) = lemma_locate(plugins, config, table, is_dry_run, STEP_COUNT as int, x);
    lemma_located_action(plugins, config, table, is_dry_run, x, t, i, o);
    lemma_member_shape(plugins, config, table, step_at(t), i, o);
    lemma_kinds_of_member(plugins, config, table, step_at(t), i, o);
    assert(is_provision_of(seq[x], plugins, config, table, id, step_at(t)));
    let a = choose|a: int|
        0 <= a < plugins[id as int].sinks.len() && (#[trigger] plugins[id as int].sinks[a]).step
            == step_at(t) && seq[x] == (ActionView {
            id,
            kind: sink_action(plugins, config, table, id, plugins[id as int].sinks[a]),
        });
    lemma_sink_action_writes_to_sink(plugins, config, table, id, plugins[id as int].sinks[a]);
    assert(step_at(t) == step);
    let (tc, ic, oc) = lemma_locate(plugins, config, table, is_dry_run, STEP_COUNT as int, c);
    lemma_located_action(plugins, config, table, is_dry_run, c, tc, ic, oc);
    lemma_member_shape(plugins, config, table, step_at(tc), ic, oc);
    lemma_kinds_of_member(plugins, config, table, step_at(tc), ic, oc);
    assert(step_at(tc) == step);
    assert(tc == t);
    assert(step.position() == t);
    assert(is_first_index(table[t], id, i));
    assert(table[t][ic] == id);
    if i < ic {
        lemma_member_in_step(plugins, config, table, step, i + 1, i, o);
        lemma_step_grows(plugins, config, table, step, i + 1, ic);
    }
}

/// In front of every action that writes the value published under a key
/// into a plugin stands the read of that key from each plugin that publishes
/// it, as a member of its step, in a step before all steps for which the
/// first plugin needs the key.
pub proof fn lemma_each_publication_precedes_use(
    plugins: Seq<DeclarationView>,
    config: ConfigView,
    table: Seq<Seq<PluginId>>,
    is_dry_run: bool,
    j: int,
    dst: Seq<char>,
    key: Seq<char>,
    publisher: PluginId,
    t: int,
) -> (g: int)
    requires
        0 <= j < whole(plugins, config, table, is_dry_run).len(),
        whole(plugins, config, table, is_dry_run)[j].kind == ActionKindView::SetFrom(dst, key),
        0 <= t < STEP_COUNT,
        table[t].contains(publisher),
        has_source(plugins[publisher as int], key, step_at(t)),
        forall|a: int|
            0 <= a < plugins[whole(plugins, config, table, is_dry_run)[j].id as int].sinks.len() && (
            #[trigger] plugins[whole(plugins, config, table, is_dry_run)[j].id as int].sinks[a]).key
                == key ==> plugins[whole(
                plugins,
                config,
                table,
                is_dry_run,
            )[j].id as int].sinks[a].step.position() > t,
    ensures
        0 <= g < j,
        whole(plugins, config, table, is_dry_run)[g] == (ActionView {
            id: publisher,
            kind: ActionKindView::Get(key),
        }),
{
    let seq = whole(plugins, config, table, is_dry_run);
    let id = seq[j].id;
    let (s, i, o) = lemma_locate(plugins, config, table, is_dry_run, STEP_COUNT as int, j);
    lemma_located_action(plugins, config, table, is_dry_run, j, s, i, o);
    lemma_member_shape(plugins, config, table, step_at(s), i, o);
    lemma_kinds_of_member(plugins, config, table, step_at(s), i, o);
    assert(is_provision_of(seq[j], plugins, config, table, id, step_at(s)));
    let a = choose|a: int|
        0 <= a < plugins[id as int].sinks.len() && (#[trigger] plugins[id as int].sinks[a]).step
            == step_at(s) && seq[j] == (ActionView {
            id,
            kind: sink_action(plugins, config, table, id, plugins[id as int].sinks[a]),
        });
    lemma_sink_action_writes_to_sink(plugins, config, table, id, plugins[id as int].sinks[a]);
    assert(plugins[id as int].sinks[a].key == key);
    assert(step_at(s).position() == s);
    assert(t < s);
    let at = choose|at: int| 0 <= at < table[t].len() && table[t][at] == publisher;
    let from = step_at(t);
    assert(from.position() == t);
    let k = choose|k: int|
        0 <= k < plugins[publisher as int].sources.len() && (
        #[trigger] plugins[publisher as int].sources[k]).key == key
            && plugins[publisher as int].sources[k].step == from;
    let behind = lemma_sources_are_published(
        plugins,
        publisher,
        from,
        plugins[publisher as int].sources.len() as int,
        k,
    );
    let offset = call_offset(plugins, config, table, from, at) + 1 + behind;
    assert(member_actions(plugins, config, table, from, at).len() > offset) by {
        assert(member_actions(plugins, config, table, from, at).len() >= call_offset(
            plugins,
            config,
            table,
            from,
            at,
        ) + 1 + publications(
            plugins,
            publisher,
            from,
            plugins[publisher as int].sources.len() as int,
        ).len());
    }
    lemma_member_shape(plugins, config, table, from, at, offset);
    lemma_earlier_steps_run(is_dry_run, t, s);
    let g = sequence_upto(plugins, config, table, is_dry_run, t).len() + step_actions(
        plugins,
        config,
        table,
        from,
        at,
    ).len() + offset;
    assert(locates(plugins, config, table, is_dry_run, g, t, at, offset));
    lemma_located_action(plugins, config, table, is_dry_run, g, t, at, offset);
    lemma_sequence_grows(plugins, config, table, is_dry_run, t + 1, s);
    g
}

} // verus!

//! Structural comparison of two snapshots: the state after teardown against the state
//! before activation.

use vstd::prelude::*;

use super::snapshot::{snapshot_state, sub_view, SubsystemSnapshot, SystemSnapshot};
use crate::clock::{format_hms_u64, hms, now_unix};
use crate::shared::TeardownReport;
use crate::text::{owned, push_str, str_eq};

verus! {

pub open spec fn chain_divergence() -> Seq<char> {
    "la chaîne VITRAIL_REDIRECT est toujours présente après désactivation"@
}

pub open spec fn subsystem_divergence(name: Seq<char>) -> Seq<char> {
    "le sous-système "@ + name + " est toujours actif après désactivation"@
}

pub open spec fn no_prior_message() -> Seq<char> {
    "aucune activation préalable enregistrée, vérification non significative"@
}

/// Whether the domain named `name` was active in `pre` (the first entry of that name; false
/// when there is none).
pub open spec fn was_active(pre: Seq<(Seq<char>, bool)>, name: Seq<char>) -> bool
    decreases pre.len(),
{
    if pre.len() == 0 {
        false
    } else if pre[0].0 == name {
        pre[0].1
    } else {
        was_active(pre.drop_first(), name)
    }
}

/// The divergence messages of the domains of `post` whose activity differs from `pre`.
pub open spec fn sub_divergences(pre: Seq<(Seq<char>, bool)>, post: Seq<(Seq<char>, bool)>) -> Seq<
    Seq<char>,
>
    decreases post.len(),
{
    if post.len() == 0 {
        Seq::empty()
    } else {
        let rest = sub_divergences(pre, post.drop_last());
        if post.last().1 != was_active(pre, post.last().0) {
            rest.push(subsystem_divergence(post.last().0))
        } else {
            rest
        }
    }
}

/// Every divergence between the two recorded states.
pub open spec fn divergences(
    pre: (bool, Seq<(Seq<char>, bool)>),
    post: (bool, Seq<(Seq<char>, bool)>),
) -> Seq<Seq<char>> {
    let chain = if post.0 != pre.0 {
        seq![chain_divergence()]
    } else {
        Seq::empty()
    };
    chain + sub_divergences(pre.1, post.1)
}

/// The report of a check made at `now`, with no prior activation to compare with.
pub fn no_prior_activation_at(now: u64) -> (r: TeardownReport)
    ensures
        !r.clean,
        r.divergences@.map_values(|d: String| d@) == seq![no_prior_message()],
        r.checked_at@ == hms(now as nat),
{
    let mut divergences: Vec<String> = Vec::new();
    divergences.push(
        owned("aucune activation préalable enregistrée, vérification non significative"),
    );
    assert(divergences@.map_values(|d: String| d@) =~= seq![no_prior_message()]);
    TeardownReport { clean: false, divergences, checked_at: format_hms_u64(now) }
}

/// No activation is recorded: comparing the state with itself would always look clean,
/// so the report says explicitly that the check is not meaningful.
pub fn no_prior_activation() -> (r: TeardownReport)
    ensures
        !r.clean,
        r.divergences@.map_values(|d: String| d@) == seq![no_prior_message()],
        exists|t: nat| #[trigger] hms(t) == r.checked_at@,
{
    let now = now_unix();
    let r = no_prior_activation_at(now);
    assert(hms(now as nat) == r.checked_at@);
    r
}

fn lookup_active(pre: &SystemSnapshot, name: &str) -> (b: bool)
    ensures
        b == was_active(snapshot_state(*pre).1, name@),
{
    let ghost subs = snapshot_state(*pre).1;
    assert(subs.subrange(0, subs.len() as int) =~= subs);
    let mut i: usize = 0;
    while i < pre.subsystems.len()
        invariant
            0 <= i <= pre.subsystems@.len(),
            subs == pre.subsystems@.map_values(|x: SubsystemSnapshot| sub_view(x)),
            was_active(subs, name@) == was_active(subs.subrange(i as int, subs.len() as int), name@),
        decreases pre.subsystems@.len() - i,
    {
        let ghost rest = subs.subrange(i as int, subs.len() as int);
        assert(rest[0] == sub_view(pre.subsystems@[i as int]));
        if str_eq(pre.subsystems[i].name.as_str(), name) {
            return pre.subsystems[i].active;
        }
        assert(rest.drop_first() =~= subs.subrange(i + 1, subs.len() as int));
        i += 1;
    }
    false
}

/// The comparison of `post` with `pre`, checked at `now`.
pub fn diff_at(pre: &SystemSnapshot, post: &SystemSnapshot, now: u64) -> (r: TeardownReport)
    ensures
        r.divergences@.map_values(|d: String| d@) == divergences(
            snapshot_state(*pre),
            snapshot_state(*post),
        ),
        r.clean == (divergences(snapshot_state(*pre), snapshot_state(*post)).len() == 0),
        r.checked_at@ == hms(now as nat),
{
    let mut divergences_v: Vec<String> = Vec::new();
    if post.nftables_chain_present != pre.nftables_chain_present {
        divergences_v.push(
            owned("la chaîne VITRAIL_REDIRECT est toujours présente après désactivation"),
        );
    }
    let ghost chain = divergences_v@.map_values(|d: String| d@);
    let ghost post_subs = snapshot_state(*post).1;
    let ghost pre_subs = snapshot_state(*pre).1;
    let mut i: usize = 0;
    while i < post.subsystems.len()
        invariant
            0 <= i <= post.subsystems@.len(),
            post_subs == post.subsystems@.map_values(|x: SubsystemSnapshot| sub_view(x)),
            pre_subs == snapshot_state(*pre).1,
            divergences_v@.map_values(|d: String| d@) == chain + sub_divergences(
                pre_subs,
                post_subs.subrange(0, i as int),
            ),
        decreases post.subsystems@.len() - i,
    {
        let sub = &post.subsystems[i];
        let before = lookup_active(pre, sub.name.as_str());
        let ghost old_d = divergences_v@;
        proof {
            let p = post_subs.subrange(0, i + 1);
            assert(p.drop_last() =~= post_subs.subrange(0, i as int));
            assert(p.last() == sub_view(post.subsystems@[i as int]));
        }
        if sub.active != before {
            let mut msg = owned("le sous-système ");
            push_str(&mut msg, sub.name.as_str());
            push_str(&mut msg, " est toujours actif après désactivation");
            divergences_v.push(msg);
            assert(divergences_v@.map_values(|d: String| d@) =~= old_d.map_values(|d: String| d@).push(
                subsystem_divergence(sub.name@),
            ));
        }
        i += 1;
    }
    assert(post_subs.subrange(0, post.subsystems@.len() as int) =~= post_subs);
    let clean = divergences_v.len() == 0;
    proof {
        assert(divergences_v@.map_values(|d: String| d@) =~= divergences(
            snapshot_state(*pre),
            snapshot_state(*post),
        ));
    }
    TeardownReport { clean, divergences: divergences_v, checked_at: format_hms_u64(now) }
}

/// The comparison of `post` with `pre`, checked now.
pub fn diff(pre: &SystemSnapshot, post: &SystemSnapshot) -> (r: TeardownReport)
    ensures
        r.divergences@.map_values(|d: String| d@) == divergences(
            snapshot_state(*pre),
            snapshot_state(*post),
        ),
        r.clean == (divergences(snapshot_state(*pre), snapshot_state(*post)).len() == 0),
{
    diff_at(pre, post, now_unix())
}


/// Whether a domain was active in `pre`, in terms of its entries: the first entry of that
/// name says, and a domain with no entry was not active.
pub proof fn lemma_was_active_first_entry(pre: Seq<(Seq<char>, bool)>, name: Seq<char>)
    ensures
        (forall|j: int| 0 <= j < pre.len() ==> (#[trigger] pre[j]).0 != name) ==> !was_active(pre, name),
        forall|j: int|
            0 <= j < pre.len() && (#[trigger] pre[j]).0 == name && (forall|i: int|
                0 <= i < j ==> (#[trigger] pre[i]).0 != name) ==> was_active(pre, name) == pre[j].1,
    decreases pre.len(),
{
    if pre.len() > 0 {
        lemma_was_active_first_entry(pre.drop_first(), name);
        assert forall|j: int|
            0 <= j < pre.len() && (#[trigger] pre[j]).0 == name && (forall|i: int|
                0 <= i < j ==> (#[trigger] pre[i]).0 != name) implies was_active(pre, name) == pre[j].1 by {
            if j > 0 {
                assert(pre[0].0 != name);
                assert(pre.drop_first()[j - 1] == pre[j]);
                assert forall|i: int| 0 <= i < j - 1 implies (#[trigger] pre.drop_first()[i]).0 != name by {
                    assert(pre.drop_first()[i] == pre[i + 1]);
                }
            }
        }
        if forall|j: int| 0 <= j < pre.len() ==> (#[trigger] pre[j]).0 != name {
            assert(pre[0].0 != name);
            assert forall|j: int| 0 <= j < pre.drop_first().len() implies (#[trigger] pre.drop_first()[j]).0
                != name by {
                assert(pre.drop_first()[j] == pre[j + 1]);
            }
        }
    }
}

/// Every domain of `post` whose activity differs from what it was in `pre` is reported by
/// name, and every report names such a domain; in particular a domain still active after
/// deactivation that was not active before makes the comparison unclean.
pub proof fn lemma_sub_divergences_report_changes(pre: Seq<(Seq<char>, bool)>, post: Seq<(Seq<char>, bool)>)
    ensures
        forall|k: int|
            0 <= k < post.len() && (#[trigger] post[k]).1 != was_active(pre, post[k].0) ==> sub_divergences(
                pre,
                post,
            ).contains(subsystem_divergence(post[k].0)),
        forall|m: int|
            #![trigger sub_divergences(pre, post)[m]]
            0 <= m < sub_divergences(pre, post).len() ==> exists|k: int|
                0 <= k < post.len() && (#[trigger] post[k]).1 != was_active(pre, post[k].0)
                    && sub_divergences(pre, post)[m] == subsystem_divergence(post[k].0),
        (exists|k: int| 0 <= k < post.len() && (#[trigger] post[k]).1 != was_active(pre, post[k].0))
            ==> sub_divergences(pre, post).len() > 0,
    decreases post.len(),
{
    if post.len() > 0 {
        let rest = post.drop_last();
        lemma_sub_divergences_report_changes(pre, rest);
        let r = sub_divergences(pre, rest);
        let n = post.len() - 1;
        assert forall|k: int|
            0 <= k < post.len() && (#[trigger] post[k]).1 != was_active(pre, post[k].0) implies sub_divergences(
                pre,
                post,
            ).contains(subsystem_divergence(post[k].0)) by {
            if k < n {
                assert(rest[k] == post[k]);
                let w = choose|w: int| 0 <= w < r.len() && r[w] == subsystem_divergence(rest[k].0);
                assert(sub_divergences(pre, post)[w] == r[w]);
            } else {
                assert(sub_divergences(pre, post).last() == subsystem_divergence(post[k].0));
            }
        }
        assert forall|m: int| #![trigger sub_divergences(pre, post)[m]] 0 <= m < sub_divergences(pre, post).len() implies exists|k: int|
            0 <= k < post.len() && (#[trigger] post[k]).1 != was_active(pre, post[k].0)
                && sub_divergences(pre, post)[m] == subsystem_divergence(post[k].0) by {
            if m < r.len() {
                assert(sub_divergences(pre, post)[m] == r[m]);
                let k = choose|k: int|
                    0 <= k < rest.len() && (#[trigger] rest[k]).1 != was_active(pre, rest[k].0) && r[m]
                        == subsystem_divergence(rest[k].0);
                assert(rest[k] == post[k]);
            } else {
                assert(post[n] == post.last());
            }
        }
        if exists|k: int| 0 <= k < post.len() && (#[trigger] post[k]).1 != was_active(pre, post[k].0) {
            let k = choose|k: int| 0 <= k < post.len() && (#[trigger] post[k]).1 != was_active(pre, post[k].0);
            assert(sub_divergences(pre, post).contains(subsystem_divergence(post[k].0)));
        }
    }
}

/// The comparison of two snapshots reports the chain when its presence changed and every
/// domain whose activity changed; it is clean exactly when nothing changed.
pub proof fn lemma_divergences_report_changes(
    pre: (bool, Seq<(Seq<char>, bool)>),
    post: (bool, Seq<(Seq<char>, bool)>),
)
    ensures
        post.0 != pre.0 ==> divergences(pre, post).contains(chain_divergence()),
        forall|k: int|
            0 <= k < post.1.len() && (#[trigger] post.1[k]).1 != was_active(pre.1, post.1[k].0) ==> divergences(
                pre,
                post,
            ).contains(subsystem_divergence(post.1[k].0)),
        divergences(pre, post).len() == 0 <==> (post.0 == pre.0 && forall|k: int|
            0 <= k < post.1.len() ==> (#[trigger] post.1[k]).1 == was_active(pre.1, post.1[k].0)),
{
    lemma_sub_divergences_report_changes(pre.1, post.1);
    let chain = if post.0 != pre.0 {
        seq![chain_divergence()]
    } else {
        Seq::<Seq<char>>::empty()
    };
    let subs = sub_divergences(pre.1, post.1);
    assert(divergences(pre, post) == chain + subs);
    if post.0 != pre.0 {
        assert((chain + subs)[0] == chain_divergence());
    }
    assert forall|k: int|
        0 <= k < post.1.len() && (#[trigger] post.1[k]).1 != was_active(pre.1, post.1[k].0) implies divergences(
            pre,
            post,
        ).contains(subsystem_divergence(post.1[k].0)) by {
        let w = choose|w: int| 0 <= w < subs.len() && subs[w] == subsystem_divergence(post.1[k].0);
        assert((chain + subs)[chain.len() + w] == subs[w]);
    }
    if post.0 == pre.0 && forall|k: int| 0 <= k < post.1.len() ==> (#[trigger] post.1[k]).1 == was_active(pre.1, post.1[k].0) {
        if subs.len() > 0 {
            let k = choose|k: int|
                0 <= k < post.1.len() && (#[trigger] post.1[k]).1 != was_active(pre.1, post.1[k].0)
                    && subs[0] == subsystem_divergence(post.1[k].0);
        }
    }
}

} // verus!

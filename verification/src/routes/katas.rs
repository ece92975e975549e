//! Listing the catalog and looking an entry up.

use vstd::prelude::*;
use crate::models::kata::{
    group_views, kata_views, summary_view, summary_views, Kata, KataListResponse, KataSummary,
    KataSummaryView, KataView, PhaseGroup, PhaseGroupView,
};
use crate::sorting::{
    is_placement, is_stable_sort_by, law_stable_sort_keeps_items, law_stable_sort_maps, own_rank,
    sort_by_rank,
};

verus! {

/// Membership in `phase`, as a function.
pub open spec fn in_phase(phase: u32) -> spec_fn(KataView) -> bool {
    |k: KataView| k.phase == phase
}

/// The summaries of the entries of `phase`, in catalog order.
pub open spec fn members_of(katas: Seq<KataView>, phase: u32) -> Seq<KataSummaryView> {
    katas.filter(in_phase(phase)).map_values(|k: KataView| k.summary())
}

/// The rank of a summary in a listing: its sequence.
pub open spec fn by_sequence() -> spec_fn(KataSummaryView) -> u64 {
    |s: KataSummaryView| s.sequence as u64
}

/// Whether the entry at `k` is the first of `phase` in the catalog.
pub open spec fn is_first_of_phase(katas: Seq<KataView>, k: int, phase: u32) -> bool {
    &&& 0 <= k < katas.len()
    &&& katas[k].phase == phase
    &&& forall|e: int| 0 <= e < k ==> katas[e].phase != phase
}

/// Whether `group` takes its title from the entry at `k`, the first of its
/// phase.
pub open spec fn is_titled_by(katas: Seq<KataView>, group: PhaseGroupView, k: int) -> bool {
    is_first_of_phase(katas, k, group.phase) && group.title == katas[k].phase_title
}

/// Whether `group` takes its title from the first entry of its phase.
pub open spec fn is_titled(katas: Seq<KataView>, group: PhaseGroupView) -> bool {
    exists|k: int| is_titled_by(katas, group, k)
}

/// Whether `group` lists its phase of the catalog: titled as the first
/// entry of the phase says, and holding the summaries of the phase's
/// entries sorted by sequence, those of equal sequence in catalog order.
pub open spec fn is_group_of(katas: Seq<KataView>, group: PhaseGroupView) -> bool {
    &&& is_titled(katas, group)
    &&& is_stable_sort_by(members_of(katas, group.phase), group.katas, by_sequence())
}

/// Whether `groups` lists the catalog: one group for each phase that
/// occurs, in strictly ascending order of phase.
pub open spec fn is_listing(katas: Seq<KataView>, groups: Seq<PhaseGroupView>) -> bool {
    &&& forall|i: int, j: int|
        0 <= i < j < groups.len() ==> (#[trigger] groups[i]).phase < (#[trigger] groups[j]).phase
    &&& forall|i: int| 0 <= i < groups.len() ==> is_group_of(katas, #[trigger] groups[i])
    &&& forall|k: int| 0 <= k < katas.len() ==> has_phase(groups, (#[trigger] katas[k]).phase)
}

/// Whether one of `groups` is for `phase`.
pub open spec fn has_phase(groups: Seq<PhaseGroupView>, phase: u32) -> bool {
    exists|i: int| 0 <= i < groups.len() && (#[trigger] groups[i]).phase == phase
}

/// Whether `group` has gathered, unsorted, the summaries of its phase.
spec fn has_gathered(katas: Seq<KataView>, group: PhaseGroup) -> bool {
    &&& is_titled(katas, group@)
    &&& summary_views(group.katas@) == members_of(katas, group.phase)
}

/// A phase keeps its group where the groups that were there keep their
/// places and their phases.
proof fn lemma_phase_stays(before: Seq<PhaseGroup>, after: Seq<PhaseGroup>, phase: u32)
    requires
        has_phase(group_views(before), phase),
        before.len() <= after.len(),
        forall|h: int| 0 <= h < before.len() ==> (#[trigger] after[h]).phase == before[h].phase,
    ensures
        has_phase(group_views(after), phase),
{
    let h = choose|h: int|
        0 <= h < before.len() && (#[trigger] group_views(before)[h]).phase == phase;
    assert(after[h].phase == phase);
    assert(group_views(after)[h].phase == phase);
}

/// Taking one more entry into view adds its summary to its own phase and
/// leaves the other phases as they were.
proof fn lemma_members_grow(katas: Seq<KataView>, k: int, phase: u32)
    requires
        0 <= k < katas.len(),
    ensures
        members_of(katas.take(k + 1), phase) == if katas[k].phase == phase {
            members_of(katas.take(k), phase).push(katas[k].summary())
        } else {
            members_of(katas.take(k), phase)
        },
{
    reveal(Seq::filter);
    let longer = katas.take(k + 1);
    assert(longer.drop_last() == katas.take(k));
    assert(longer.last() == katas[k]);
    let kept = katas.take(k).filter(in_phase(phase));
    if katas[k].phase == phase {
        assert(longer.filter(in_phase(phase)) == kept.push(katas[k]));
        assert(members_of(longer, phase) =~= members_of(katas.take(k), phase).push(
            katas[k].summary(),
        ));
    } else {
        assert(longer.filter(in_phase(phase)) == kept);
    }
}

/// Gathers the entries into one group for each phase, groups and summaries
/// in the order in which the catalog first shows them.
fn gather(katas: &Vec<Kata>) -> (phases: Vec<PhaseGroup>)
    ensures
        forall|a: int, b: int|
            0 <= a < b < phases@.len() ==> (#[trigger] phases@[a]).phase != (
            #[trigger] phases@[b]).phase,
        forall|g: int|
            0 <= g < phases@.len() ==> has_gathered(kata_views(katas@), #[trigger] phases@[g]),
        forall|e: int|
            0 <= e < katas@.len() ==> has_phase(group_views(phases@), (#[trigger] katas@[e]).phase),
{
    let ghost cat = kata_views(katas@);
    let mut phases: Vec<PhaseGroup> = Vec::new();
    let mut k: usize = 0;
    while k < katas.len()
        invariant
            k <= katas.len(),
            cat == kata_views(katas@),
            forall|a: int, b: int|
                0 <= a < b < phases@.len() ==> (#[trigger] phases@[a]).phase != (
                #[trigger] phases@[b]).phase,
            forall|g: int|
                0 <= g < phases@.len() ==> has_gathered(cat.take(k as int), #[trigger] phases@[g]),
            forall|e: int|
                0 <= e < k ==> has_phase(group_views(phases@), (#[trigger] katas@[e]).phase),
        decreases katas.len() - k,
    {
        let kata = &katas[k];
        let mut g: usize = 0;
        while g < phases.len() && phases[g].phase != kata.phase
            invariant
                g <= phases.len(),
                forall|t: int| 0 <= t < g ==> (#[trigger] phases@[t]).phase != kata.phase,
            decreases phases.len() - g,
        {
            g += 1;
        }
        let summary = KataSummary {
            id: kata.id.clone(),
            sequence: kata.sequence,
            title: kata.title.clone(),
        };
        assert(summary@ == cat[k as int].summary());
        let ghost before = phases@;
        if g < phases.len() {
            phases[g].katas.push(summary);
            assert(summary_views(phases@[g as int].katas@) =~= summary_views(
                before[g as int].katas@,
            ).push(summary@));
        } else {
            let mut members: Vec<KataSummary> = Vec::new();
            members.push(summary);
            phases.push(PhaseGroup { phase: kata.phase, title: kata.phase_title.clone(), katas: members });
            assert(summary_views(phases@[g as int].katas@) =~= Seq::<KataSummaryView>::empty().push(
                summary@,
            ));
        }
        proof {
            let shorter = cat.take(k as int);
            let longer = cat.take(k + 1);
            assert forall|t: int| 0 <= t < phases@.len() implies has_gathered(
                longer,
                #[trigger] phases@[t],
            ) by {
                let group = phases@[t];
                lemma_members_grow(cat, k as int, group.phase);
                if t < before.len() {
                    assert(has_gathered(shorter, before[t]));
                    let first = choose|first: int| is_titled_by(shorter, before[t]@, first);
                    assert(is_titled_by(longer, group@, first));
                } else {
                    // a new group: no entry before this one is of its phase
                    assert forall|e: int| 0 <= e < k implies longer[e].phase != group.phase by {
                        assert(has_phase(group_views(before), katas@[e].phase));
                        let h = choose|h: int|
                            0 <= h < before.len() && (#[trigger] group_views(before)[h]).phase
                                == katas@[e].phase;
                        assert(before[h].phase != kata.phase);
                    }
                    assert(is_titled_by(longer, group@, k as int));
                    lemma_members_empty(cat, k as int, group.phase);
                }
            }
            assert forall|e: int| 0 <= e < k + 1 implies has_phase(
                group_views(phases@),
                (#[trigger] katas@[e]).phase,
            ) by {
                if e < k {
                    lemma_phase_stays(before, phases@, katas@[e].phase);
                } else {
                    assert(group_views(phases@)[g as int].phase == katas@[e].phase);
                }
            }
        }
        k += 1;
    }
    assert(cat.take(k as int) == cat);
    phases
}

/// A phase that no entry among the first `k` belongs to has no members
/// there.
proof fn lemma_members_empty(katas: Seq<KataView>, k: int, phase: u32)
    requires
        0 <= k <= katas.len(),
        forall|e: int| 0 <= e < k ==> katas[e].phase != phase,
    ensures
        members_of(katas.take(k), phase) == Seq::<KataSummaryView>::empty(),
    decreases k,
{
    if k > 0 {
        lemma_members_empty(katas, k - 1, phase);
        lemma_members_grow(katas, k - 1, phase);
    } else {
        reveal(Seq::filter);
        assert(members_of(katas.take(0), phase) =~= Seq::<KataSummaryView>::empty());
    }
}

/// Lists the catalog by phase: one group for each phase that occurs, in
/// ascending order of phase, titled as the first entry of the phase says,
/// and within each group the summaries of its entries by ascending
/// sequence, those of equal sequence in catalog order.
pub fn list_katas(katas: &Vec<Kata>) -> (listing: KataListResponse)
    ensures
        is_listing(kata_views(katas@), listing@),
{
    let ghost cat = kata_views(katas@);
    let mut phases = gather(katas);
    let ghost gathered = phases@;
    sort_by_rank(&mut phases);
    proof {
        let origin = choose|origin: Seq<int>|
            is_placement(gathered, phases@, own_rank::<PhaseGroup>(), origin);
        law_stable_sort_keeps_items(gathered, phases@, own_rank::<PhaseGroup>());
        assert forall|a: int, b: int| 0 <= a < b < phases@.len() implies (
        #[trigger] phases@[a]).phase < (#[trigger] phases@[b]).phase by {
            assert(crate::sorting::goes_before(
                own_rank::<PhaseGroup>()(gathered[origin[a]]),
                origin[a],
                own_rank::<PhaseGroup>()(gathered[origin[b]]),
                origin[b],
            ));
            assert(phases@[a] == gathered[origin[a]]);
            assert(phases@[b] == gathered[origin[b]]);
        }
        assert forall|g: int| 0 <= g < phases@.len() implies has_gathered(
            cat,
            #[trigger] phases@[g],
        ) by {
            assert(phases@[g] == gathered[origin[g]]);
        }
        assert forall|e: int| 0 <= e < katas@.len() implies has_phase(
            group_views(phases@),
            (#[trigger] katas@[e]).phase,
        ) by {
            assert(has_phase(group_views(gathered), katas@[e].phase));
            let h = choose|h: int|
                0 <= h < gathered.len() && (#[trigger] group_views(gathered)[h]).phase
                    == katas@[e].phase;
            assert(phases@.contains(gathered[h]));
            let i = choose|i: int| 0 <= i < phases@.len() && phases@[i] == gathered[h];
            assert(group_views(phases@)[i].phase == katas@[e].phase);
        }
    }
    let n: usize = phases.len();
    let mut i: usize = 0;
    while i < n
        invariant
            i <= n,
            n == phases@.len(),
            cat == kata_views(katas@),
            forall|a: int, b: int|
                0 <= a < b < n ==> (#[trigger] phases@[a]).phase < (#[trigger] phases@[b]).phase,
            forall|g: int| 0 <= g < n ==> is_titled(cat, (#[trigger] phases@[g])@),
            forall|g: int| 0 <= g < i ==> is_group_of(cat, (#[trigger] phases@[g])@),
            forall|g: int|
                i <= g < n ==> summary_views((#[trigger] phases@[g]).katas@) == members_of(
                    cat,
                    phases@[g].phase,
                ),
            forall|e: int|
                0 <= e < katas@.len() ==> has_phase(
                    group_views(phases@),
                    (#[trigger] katas@[e]).phase,
                ),
        decreases n - i,
    {
        let ghost before = phases@;
        sort_by_rank(&mut phases[i].katas);
        proof {
            assert(phases@[i as int].phase == before[i as int].phase);
            assert(phases@[i as int].title == before[i as int].title);
            assert forall|g: int| 0 <= g < n && g != i implies phases@[g] == before[g] by {}
            law_stable_sort_maps(
                before[i as int].katas@,
                phases@[i as int].katas@,
                own_rank::<KataSummary>(),
                summary_view(),
                by_sequence(),
            );
            assert forall|g: int| 0 <= g < n implies is_titled(cat, (#[trigger] phases@[g])@) by {
                assert(is_titled(cat, before[g]@));
                let k = choose|k: int| is_titled_by(cat, before[g]@, k);
                assert(is_titled_by(cat, phases@[g]@, k));
            }
            assert(is_group_of(cat, phases@[i as int]@));
            assert forall|g: int| 0 <= g < i + 1 implies is_group_of(
                cat,
                (#[trigger] phases@[g])@,
            ) by {
                if g < i {
                    assert(is_group_of(cat, before[g]@));
                }
            }
            assert forall|e: int| 0 <= e < katas@.len() implies has_phase(
                group_views(phases@),
                (#[trigger] katas@[e]).phase,
            ) by {
                lemma_phase_stays(before, phases@, katas@[e].phase);
            }
        }
        i += 1;
    }
    let listing = KataListResponse { phases };
    proof {
        let groups = listing@;
        assert(groups == group_views(phases@));
        assert forall|a: int, b: int| 0 <= a < b < groups.len() implies (#[trigger] groups[a]).phase
            < (#[trigger] groups[b]).phase by {
            assert(phases@[a].phase < phases@[b].phase);
        }
        assert forall|g: int| 0 <= g < groups.len() implies is_group_of(
            cat,
            #[trigger] groups[g],
        ) by {
            assert(is_group_of(cat, phases@[g]@));
        }
    }
    listing
}

/// Whether the entry at `k` is the first of the catalog with the given id.
pub open spec fn is_first_with_id(katas: Seq<Kata>, id: Seq<char>, k: int) -> bool {
    &&& 0 <= k < katas.len()
    &&& katas[k].id@ == id
    &&& forall|e: int| 0 <= e < k ==> (#[trigger] katas[e]).id@ != id
}

/// Looks up the first entry of the catalog whose id is `id`; `None` where
/// no entry has that id.
pub fn get_kata<'a>(katas: &'a Vec<Kata>, id: &str) -> (found: Option<&'a Kata>)
    ensures
        match found {
            Some(kata) => exists|k: int| is_first_with_id(katas@, id@, k) && *kata == katas@[k],
            None => forall|k: int| 0 <= k < katas@.len() ==> (#[trigger] katas@[k]).id@ != id@,
        },
{
    let wanted = String::from_str(id);
    let mut k: usize = 0;
    while k < katas.len()
        invariant
            k <= katas.len(),
            wanted@ == id@,
            forall|e: int| 0 <= e < k ==> (#[trigger] katas@[e]).id@ != id@,
        decreases katas.len() - k,
    {
        if katas[k].id == wanted {
            assert(is_first_with_id(katas@, id@, k as int));
            return Some(&katas[k]);
        }
        k += 1;
    }
    None
}

} // verus!

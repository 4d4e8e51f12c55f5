//! The way of a scan, place by place.

use crate::deque::Steal;
use crate::laws::lanes::drawn;
use crate::walk::{after_steal, Place, ScanWalk, Visit};
use vstd::prelude::*;

verus! {

/// A walk begins at the worker's preferred shard, which is its index's remainder, with nothing
/// found and nothing lost.
pub proof fn walk_begins_at_the_preferred_shard(
    idx: usize,
    shards: usize,
    workers: usize,
    rng: u32,
    walk: ScanWalk,
    place: Option<Place>,
)
    requires
        call_ensures(ScanWalk::new, (idx, shards, workers, rng), walk),
        call_ensures(ScanWalk::place, (&walk,), place),
        0 < shards,
        idx < workers,
    ensures
        place == Some(Place::Shard((idx as int % shards as int) as usize)),
        walk.idx == idx,
        walk.shards == shards,
        walk.workers == workers,
        walk.rng == rng,
        walk.first == rng,
        walk.start == 0,
        walk.stop == 0,
        !walk.contended,
        walk.found is None,
{
}

/// Where a walk is: over, if it has found a task or has come by every other place; else at one of
/// the other shards until it has come by them all, and then at one of the other workers.
pub proof fn walk_is_at_another_place(walk: ScanWalk, place: Option<Place>)
    requires
        call_ensures(ScanWalk::place, (&walk,), place),
        walk.wf(),
    ensures
        walk.found is Some || walk.stop == walk.shards + walk.workers - 1 ==> place is None,
        walk.found is None && walk.stop < walk.shards + walk.workers - 1 ==> ({
            let home = walk.idx as int % walk.shards as int;
            if walk.stop == 0 {
                place == Some(Place::Shard(home as usize))
            } else if walk.stop < walk.shards {
                let ahead = (walk.start + (walk.stop - 1)) % (walk.shards - 1);
                place == Some(Place::Shard(((home + 1 + ahead) % walk.shards as int) as usize))
            } else {
                let ahead = (walk.start + (walk.stop - walk.shards)) % (walk.workers - 1);
                place == Some(Place::Peer(((walk.idx + 1 + ahead) % walk.workers as int) as usize))
            }
        }),
{
    if walk.found is None && walk.stop < walk.shards + walk.workers - 1 {
        crate::walk::source_at_is_in_range(
            walk.idx as int,
            walk.shards as int,
            walk.workers as int,
            walk.first,
            walk.stop as int,
        );
    }
}

/// What a steal means: a task ends the walk there; a lost attempt is told and the walk goes on; an
/// empty place is passed by.
pub proof fn steal_leads_on(
    stolen: Steal,
    contended: bool,
    visit: Visit,
    walk: &mut ScanWalk,
)
    requires
        call_ensures(after_steal, (stolen, contended), visit),
        call_ensures(ScanWalk::observe, (walk, stolen), ()),
        walk.found is None,
        walk.stop < walk.shards + walk.workers - 1,
        walk.stop < usize::MAX,
    ensures
        stolen matches Steal::Success(task) ==> visit == Visit::Found(task) && final(walk).found
            == Some(task) && final(walk).stop == old(walk).stop && final(walk).contended == old(
            walk,
        ).contended && final(walk).rng == old(walk).rng,
        stolen is Retry ==> visit == Visit::GoOn(true) && final(walk).contended,
        stolen is Empty ==> visit == Visit::GoOn(contended) && final(walk).contended == old(
            walk,
        ).contended,
        stolen !is Success ==> final(walk).found is None && final(walk).stop == old(walk).stop + 1,
        final(walk).idx == old(walk).idx,
        final(walk).shards == old(walk).shards,
        final(walk).workers == old(walk).workers,
        final(walk).first == old(walk).first,
{
}

/// A walk draws as it leaves the preferred shard, where there are other shards, and as it leaves
/// the last shard, where there are other workers: what is drawn says where the round begins. On
/// the way from place to place in a round it does not.
pub proof fn walk_draws_once_for_each_round(walk: &mut ScanWalk, stolen: Steal)
    requires
        call_ensures(ScanWalk::observe, (walk, stolen), ()),
        walk.wf(),
        walk.found is None,
        walk.stop < walk.shards + walk.workers - 1,
        stolen !is Success,
    ensures
        old(walk).stop == 0 && old(walk).shards > 1 ==> final(walk).rng == drawn(old(walk).rng)
            && final(walk).start == drawn(old(walk).rng) as int % (old(walk).shards - 1),
        old(walk).stop + 1 == old(walk).shards && old(walk).workers > 1 ==> final(walk).rng
            == drawn(old(walk).rng) && final(walk).start == drawn(old(walk).rng) as int % (old(
            walk,
        ).workers - 1),
        0 < old(walk).stop && old(walk).stop + 1 != old(walk).shards && old(walk).stop + 1 < old(
            walk,
        ).shards + old(walk).workers - 1 ==> final(walk).rng == old(walk).rng && final(walk).start
            == old(walk).start,
{
}

} // verus!

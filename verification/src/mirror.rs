//! Repairing collections of vectors that have drifted from the index, one at a time.

use crate::text;
use vstd::prelude::*;

verus! {

/// How often the repair wakes up.
pub const MIRROR_REPAIR_INTERVAL_MS: u64 = 300_000;

/// How long the repair waits before its first pass.
pub const MIRROR_REPAIR_INITIAL_DELAY_MS: u64 = 30_000;

/// What the repair remembers: whether there is a mirror at all, and the owners that it
/// does not touch again.
#[derive(Debug)]
pub struct MirrorRepair {
    enabled: bool,
    attempted: Vec<String>,
}

/// What came of the repair of one owner.
#[derive(Clone, Copy, Debug, PartialEq, Eq, Structural)]
pub enum RepairOutcome {
    /// The collection was written anew. `still_drifted` tells whether it differs from
    /// the index all the same.
    Written { still_drifted: bool },
    /// The collection cannot be repaired.
    Impossible,
    Failed,
}

/// What came of the repair of one owner, by what the write reported and by the owners
/// that have drifted after it. Where those cannot be told, the repair is taken to have
/// worked.
pub fn repair_outcome(
    owner: &str,
    written: Result<bool, String>,
    drifted_after: Option<&Vec<String>>,
) -> (r: RepairOutcome)
    ensures
        r == (match written {
            Ok(true) => RepairOutcome::Written {
                still_drifted: (match drifted_after {
                    Some(owners) => text::views(owners@).contains(owner@),
                    None => false,
                }),
            },
            Ok(false) => RepairOutcome::Impossible,
            Err(_) => RepairOutcome::Failed,
        }),
{
    match written {
        Ok(true) => {
            let still_drifted = match drifted_after {
                Some(owners) => text::listed(owners, owner),
                None => false,
            };
            RepairOutcome::Written { still_drifted }
        },
        Ok(false) => RepairOutcome::Impossible,
        Err(_) => RepairOutcome::Failed,
    }
}

/// The first owner that has drifted and has not been given up.
pub open spec fn next_owner(drifted: Seq<Seq<char>>, attempted: Seq<Seq<char>>) -> Option<Seq<char>>
    decreases drifted.len(),
{
    if drifted.len() == 0 {
        None
    } else if !attempted.contains(drifted[0]) {
        Some(drifted[0])
    } else {
        next_owner(drifted.drop_first(), attempted)
    }
}

/// The owner that a pass repairs: none where there is no mirror.
pub open spec fn choice(
    enabled: bool,
    drifted: Seq<Seq<char>>,
    attempted: Seq<Seq<char>>,
) -> Option<Seq<char>> {
    if enabled {
        next_owner(drifted, attempted)
    } else {
        None
    }
}

/// The owners that are given up once a repair has come to an end: also the repaired
/// one, unless the repair has worked.
pub open spec fn noted(
    attempted: Seq<Seq<char>>,
    owner: Seq<char>,
    outcome: RepairOutcome,
) -> Seq<Seq<char>> {
    if outcome == (RepairOutcome::Written { still_drifted: false }) {
        attempted
    } else {
        attempted.push(owner)
    }
}

impl MirrorRepair {
    /// There is a mirror.
    pub closed spec fn is_enabled(&self) -> bool {
        self.enabled
    }

    /// The owners that the repair does not touch again.
    pub closed spec fn given_up(&self) -> Seq<Seq<char>> {
        text::views(self.attempted@)
    }

    /// Nothing has been repaired yet.
    pub fn new(enabled: bool) -> (r: MirrorRepair)
        ensures
            r.is_enabled() == enabled,
            r.given_up() == Seq::<Seq<char>>::empty(),
    {
        let r = MirrorRepair { enabled, attempted: Vec::new() };
        assert(r.given_up() =~= Seq::<Seq<char>>::empty());
        r
    }

    /// The owner that the next pass repairs: one at most, the first that has drifted
    /// and has not been given up, and none where there is no mirror.
    pub fn start_mirror_repair(&self, drifted: &Vec<String>) -> (r: Option<String>)
        ensures
            text::opt_view(r) == choice(
                self.is_enabled(),
                text::views(drifted@),
                self.given_up(),
            ),
    {
        if !self.enabled {
            return None;
        }
        let ghost all = text::views(drifted@);
        let mut i: usize = 0;
        assert(all.skip(0) =~= all);
        while i < drifted.len()
            invariant
                i <= drifted@.len(),
                all == text::views(drifted@),
                self.is_enabled(),
                next_owner(all, self.given_up()) == next_owner(
                    all.skip(i as int),
                    self.given_up(),
                ),
            decreases drifted@.len() - i,
        {
            assert(all.skip(i as int)[0] == drifted@[i as int]@);
            assert(all.skip(i as int).drop_first() =~= all.skip(i + 1));
            if !text::listed(&self.attempted, drifted[i].as_str()) {
                return Some(drifted[i].clone());
            }
            i += 1;
        }
        None
    }

    /// Notes what came of a repair. An owner that still differs afterwards is given up.
    pub fn note(&mut self, owner: &str, outcome: RepairOutcome)
        ensures
            final(self).is_enabled() == old(self).is_enabled(),
            final(self).given_up() == noted(old(self).given_up(), owner@, outcome),
    {
        let repaired = match outcome {
            RepairOutcome::Written { still_drifted } => !still_drifted,
            _ => false,
        };
        if !repaired {
            let ghost before = self.given_up();
            self.attempted.push(owner.to_owned());
            assert(self.given_up() =~= before.push(owner@));
        }
    }
}

/// One pass: the owners that have drifted, and what comes of the repair of the chosen
/// one, where one is chosen.
pub struct Pass {
    pub drifted: Seq<Seq<char>>,
    pub outcome: RepairOutcome,
}

/// The owners that are given up after a series of passes.
pub open spec fn given_up_after(enabled: bool, passes: Seq<Pass>) -> Seq<Seq<char>>
    decreases passes.len(),
{
    if passes.len() == 0 {
        Seq::empty()
    } else {
        let before = given_up_after(enabled, passes.drop_last());
        match choice(enabled, passes.last().drifted, before) {
            Some(owner) => noted(before, owner, passes.last().outcome),
            None => before,
        }
    }
}

/// The owner that is repaired in a pass of a series.
pub open spec fn repaired(enabled: bool, passes: Seq<Pass>, i: int) -> Option<Seq<char>> {
    choice(enabled, passes[i].drifted, given_up_after(enabled, passes.take(i)))
}

proof fn lemma_not_chosen(drifted: Seq<Seq<char>>, attempted: Seq<Seq<char>>, owner: Seq<char>)
    requires
        attempted.contains(owner),
    ensures
        next_owner(drifted, attempted) != Some(owner),
    decreases drifted.len(),
{
    if drifted.len() > 0 {
        lemma_not_chosen(drifted.drop_first(), attempted, owner);
    }
}

proof fn lemma_stays_given_up(enabled: bool, passes: Seq<Pass>, n: int, owner: Seq<char>)
    requires
        0 <= n <= passes.len(),
        given_up_after(enabled, passes.take(n)).contains(owner),
    ensures
        given_up_after(enabled, passes).contains(owner),
    decreases passes.len(),
{
    if n == passes.len() {
        assert(passes.take(n) =~= passes);
    } else {
        let rest = passes.drop_last();
        assert(rest.take(n) =~= passes.take(n));
        lemma_stays_given_up(enabled, rest, n, owner);
        let before = given_up_after(enabled, rest);
        let k = choose|k: int| 0 <= k < before.len() && before[k] == owner;
        let after = given_up_after(enabled, passes);
        assert(k < after.len() && after[k] == owner);
    }
}

/// Where there is no mirror, no pass repairs anything, and nothing is given up.
pub proof fn disabled_mirrors_are_never_repaired(passes: Seq<Pass>)
    ensures
        forall|i: int| 0 <= i < passes.len() ==> #[trigger] repaired(false, passes, i) is None,
        given_up_after(false, passes) == Seq::<Seq<char>>::empty(),
    decreases passes.len(),
{
    if passes.len() > 0 {
        disabled_mirrors_are_never_repaired(passes.drop_last());
    }
}

/// An owner whose repair has failed, was impossible, or has left it drifted is never
/// repaired again, whatever the passes after that find.
pub proof fn failed_repairs_are_never_repeated(enabled: bool, passes: Seq<Pass>, i: int, j: int)
    requires
        0 <= i < j < passes.len(),
        repaired(enabled, passes, i) is Some,
        passes[i].outcome != (RepairOutcome::Written { still_drifted: false }),
    ensures
        repaired(enabled, passes, j) != repaired(enabled, passes, i),
{
    let owner = repaired(enabled, passes, i)->Some_0;
    let upto = passes.take(i + 1);
    assert(upto.drop_last() =~= passes.take(i));
    let before = given_up_after(enabled, passes.take(i));
    assert(given_up_after(enabled, upto) == before.push(owner));
    assert(before.push(owner)[before.len() as int] == owner);
    assert(passes.take(j).take(i + 1) =~= upto);
    lemma_stays_given_up(enabled, passes.take(j), i + 1, owner);
    lemma_not_chosen(passes[j].drifted, given_up_after(enabled, passes.take(j)), owner);
}

/// A pass repairs the first owner that has drifted and has not been given up, and
/// repairs one as long as such an owner is left.
pub proof fn passes_find_drifted_owners(drifted: Seq<Seq<char>>, attempted: Seq<Seq<char>>)
    ensures
        next_owner(drifted, attempted) matches Some(owner) ==> !attempted.contains(owner) && exists|
            k: int,
        |
            0 <= k < drifted.len() && #[trigger] drifted[k] == owner && forall|m: int|
                0 <= m < k ==> attempted.contains(#[trigger] drifted[m]),
        next_owner(drifted, attempted) is None <==> forall|i: int|
            0 <= i < drifted.len() ==> attempted.contains(#[trigger] drifted[i]),
    decreases drifted.len(),
{
    if drifted.len() > 0 {
        let rest = drifted.drop_first();
        passes_find_drifted_owners(rest, attempted);
        assert(drifted[0] == drifted[0]);
        if next_owner(rest, attempted) is Some && attempted.contains(drifted[0]) {
            let owner = next_owner(rest, attempted)->Some_0;
            let k = choose|k: int|
                0 <= k < rest.len() && #[trigger] rest[k] == owner && forall|m: int|
                    0 <= m < k ==> attempted.contains(#[trigger] rest[m]);
            assert(drifted[k + 1] == owner);
            assert forall|m: int| 0 <= m < k + 1 implies attempted.contains(
                #[trigger] drifted[m],
            ) by {
                if m > 0 {
                    assert(rest[m - 1] == drifted[m]);
                }
            }
        }
        if forall|i: int| 0 <= i < rest.len() ==> attempted.contains(#[trigger] rest[i]) {
            assert forall|i: int| 1 <= i < drifted.len() implies attempted.contains(
                #[trigger] drifted[i],
            ) by {
                assert(rest[i - 1] == drifted[i]);
            }
        } else {
            let k = choose|k: int| 0 <= k < rest.len() && !attempted.contains(#[trigger] rest[k]);
            assert(drifted[k + 1] == rest[k]);
        }
    }
}

/// The repair first waits half a minute, and then wakes up every five minutes.
pub proof fn repairs_wake_up_regularly()
    ensures
        MIRROR_REPAIR_INITIAL_DELAY_MS == 30 * 1000,
        MIRROR_REPAIR_INTERVAL_MS == 5 * 60 * 1000,
{
}

/// A repair has worked where the write did and the owner is not found among those that
/// have drifted after it; it was impossible where nothing was written, and has failed
/// where the write did.
pub proof fn repairs_are_judged_by_what_is_left(
    owner: &str,
    written: Result<bool, String>,
    drifted_after: Option<&Vec<String>>,
    r: RepairOutcome,
    i: int,
)
    requires
        call_ensures(repair_outcome, (owner, written, drifted_after), r),
    ensures
        written is Err ==> r is Failed,
        written matches Ok(false) ==> r is Impossible,
        written matches Ok(true) ==> r is Written,
        written matches Ok(true) ==> (drifted_after is None ==> r == (RepairOutcome::Written {
            still_drifted: false,
        })),
        written matches Ok(true) ==> (drifted_after matches Some(owners) ==> (0 <= i < owners@.len()
            && owners@[i]@ == owner@ ==> r == (RepairOutcome::Written { still_drifted: true }))),
        written matches Ok(true) ==> (drifted_after matches Some(owners) ==> ((forall|k: int|
            0 <= k < owners@.len() ==> (#[trigger] owners@[k])@ != owner@) ==> r == (
        RepairOutcome::Written { still_drifted: false }))),
{
    match drifted_after {
        Some(owners) => {
            let all = text::views(owners@);
            if 0 <= i < owners@.len() {
                assert(all[i] == owners@[i]@);
            }
            if all.contains(owner@) {
                let k = choose|k: int| 0 <= k < all.len() && all[k] == owner@;
                assert(all[k] == owners@[k]@);
            }
        },
        None => {},
    }
}

/// A repair starts with nothing given up. A pass repairs the first owner that has drifted
/// and has not been given up, and none where there is no mirror.
pub proof fn passes_repair_the_first_that_is_left(
    enabled: bool,
    fresh: MirrorRepair,
    repair: MirrorRepair,
    drifted: Vec<String>,
    r: Option<String>,
    i: int,
)
    requires
        call_ensures(MirrorRepair::new, (enabled,), fresh),
        call_ensures(MirrorRepair::start_mirror_repair, (&repair, &drifted), r),
    ensures
        fresh.is_enabled() == enabled,
        fresh.given_up().len() == 0,
        !repair.is_enabled() ==> r is None,
        repair.is_enabled() && 0 <= i < drifted@.len() && !repair.given_up().contains(drifted@[i]@)
            && (forall|k: int|
            0 <= k < i ==> repair.given_up().contains((#[trigger] drifted@[k])@)) ==> (
        r matches Some(owner) && owner@ == drifted@[i]@),
        (forall|k: int| 0 <= k < drifted@.len() ==> repair.given_up().contains((#[trigger] drifted@[k])@))
            ==> r is None,
{
    let all = text::views(drifted@);
    assert forall|k: int| 0 <= k < all.len() implies #[trigger] all[k] == drifted@[k]@ by {}
    passes_find_drifted_owners(all, repair.given_up());
    if repair.is_enabled() && 0 <= i < drifted@.len() && !repair.given_up().contains(drifted@[i]@)
        && (forall|k: int| 0 <= k < i ==> repair.given_up().contains((#[trigger] drifted@[k])@)) {
        assert(!repair.given_up().contains(all[i]));
        let owner = next_owner(all, repair.given_up())->Some_0;
        let k = choose|k: int|
            0 <= k < all.len() && #[trigger] all[k] == owner && forall|m: int|
                0 <= m < k ==> repair.given_up().contains(#[trigger] all[m]);
        if k < i {
            assert(repair.given_up().contains(drifted@[k]@));
        }
        if k > i {
            assert(repair.given_up().contains(all[i]));
        }
    }
    if forall|k: int| 0 <= k < drifted@.len() ==> repair.given_up().contains((#[trigger] drifted@[k])@) {
        assert forall|k: int| 0 <= k < all.len() implies repair.given_up().contains(
            #[trigger] all[k],
        ) by {
            assert(repair.given_up().contains(drifted@[k]@));
        }
    }
}

/// An owner is given up unless its repair has worked; nobody else is, and nobody who was
/// given up comes back.
pub proof fn owners_are_given_up_unless_repaired(
    repair: &mut MirrorRepair,
    owner: &str,
    outcome: RepairOutcome,
    r: (),
)
    requires
        call_ensures(MirrorRepair::note, (repair, owner, outcome), r),
    ensures
        final(repair).is_enabled() == old(repair).is_enabled(),
        outcome == (RepairOutcome::Written { still_drifted: false }) ==> final(repair).given_up()
            == old(repair).given_up(),
        outcome is Failed || outcome is Impossible || outcome == (RepairOutcome::Written {
            still_drifted: true,
        }) ==> final(repair).given_up() == old(repair).given_up() + seq![owner@],
{
    assert(old(repair).given_up().push(owner@) =~= old(repair).given_up() + seq![owner@]);
}

} // verus!

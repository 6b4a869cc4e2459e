//! Clips counted by the user who made them.

use crate::clips::Clip;
use vstd::hash_map::StringHashMap;
use vstd::prelude::*;

verus! {

/// The clips of `clips` that `creator` made, in order.
pub open spec fn made_by(clips: Seq<Clip>, creator: Seq<char>) -> Seq<Clip> {
    clips.filter(is_by(creator))
}

/// Whether a clip was made by `creator`.
pub open spec fn is_by(creator: Seq<char>) -> spec_fn(Clip) -> bool {
    |clip: Clip| clip.creator_id@ == creator
}

/// The views of all clips of `clips` together.
pub open spec fn views_sum(clips: Seq<Clip>) -> nat
    decreases clips.len(),
{
    if clips.len() == 0 {
        0
    } else {
        views_sum(clips.drop_last()) + clips.last().view_count as nat
    }
}

/// How many clips of `clips` `creator` made.
pub open spec fn clip_count(clips: Seq<Clip>, creator: Seq<char>) -> nat {
    made_by(clips, creator).len()
}

/// The views of the clips of `clips` that `creator` made, together.
pub open spec fn total_views(clips: Seq<Clip>, creator: Seq<char>) -> nat {
    views_sum(made_by(clips, creator))
}

/// For each user who made a clip of `clips`: how many, and their views together.
pub open spec fn creator_stats(clips: Seq<Clip>) -> Map<Seq<char>, (nat, nat)> {
    Map::new(
        |creator: Seq<char>| clip_count(clips, creator) > 0,
        |creator: Seq<char>| (clip_count(clips, creator), total_views(clips, creator)),
    )
}

/// No creator's count or views exceed what a `u32` holds.
pub open spec fn stats_fit(clips: Seq<Clip>) -> bool {
    forall|creator: Seq<char>|
        #![trigger clip_count(clips, creator)]
        #![trigger total_views(clips, creator)]
        clip_count(clips, creator) <= u32::MAX && total_views(clips, creator) <= u32::MAX
}

/// Clip counts and view totals by creator.
pub struct CreatorMap {
    creators: Vec<String>,
    stats: StringHashMap<(u32, u32)>,
}

/// `creators` names each key of `stats` once and nothing else.
pub open spec fn lists_keys<V>(creators: Seq<String>, stats: Map<Seq<char>, V>) -> bool {
    &&& forall|i: int, j: int|
        0 <= i < j < creators.len() ==> (#[trigger] creators[i])@ != (#[trigger] creators[j])@
    &&& forall|i: int| 0 <= i < creators.len() ==> stats.contains_key((#[trigger] creators[i])@)
    &&& forall|creator: Seq<char>| #[trigger]
        stats.contains_key(creator) ==> exists|i: int|
            0 <= i < creators.len() && (#[trigger] creators[i])@ == creator
}

impl View for CreatorMap {
    type V = Map<Seq<char>, (nat, nat)>;

    closed spec fn view(&self) -> Map<Seq<char>, (nat, nat)> {
        self.stats@.map_values(|entry: (u32, u32)| (entry.0 as nat, entry.1 as nat))
    }
}

impl CreatorMap {
    #[verifier::type_invariant]
    spec fn wf(self) -> bool {
        lists_keys(self.creators@, self.stats@)
    }

    /// How many clips `creator` made: 0 for one who made none.
    pub open spec fn count_of(&self, creator: Seq<char>) -> nat {
        if self@.contains_key(creator) {
            self@[creator].0
        } else {
            0
        }
    }

    /// The views of the clips of `creator` together: 0 for one who made none.
    pub open spec fn views_of(&self, creator: Seq<char>) -> nat {
        if self@.contains_key(creator) {
            self@[creator].1
        } else {
            0
        }
    }

    /// The count and the views of `creator`, if they made a clip.
    pub fn get(&self, creator: &str) -> (entry: Option<(u32, u32)>)
        ensures
            match entry {
                Some(e) => self@.contains_key(creator@) && self@[creator@] == (
                    e.0 as nat,
                    e.1 as nat,
                ),
                None => !self@.contains_key(creator@),
            },
    {
        match self.stats.get(creator) {
            Some(e) => Some(*e),
            None => None,
        }
    }

    /// How many clips `creator` made.
    pub fn count_for(&self, creator: &str) -> (count: u32)
        ensures
            count == self.count_of(creator@),
    {
        match self.stats.get(creator) {
            Some(e) => e.0,
            None => 0,
        }
    }

    /// The views of the clips of `creator` together.
    pub fn views_for(&self, creator: &str) -> (views: u32)
        ensures
            views == self.views_of(creator@),
    {
        match self.stats.get(creator) {
            Some(e) => e.1,
            None => 0,
        }
    }

    /// The users who made a clip, each once.
    pub fn creators(&self) -> (creators: &Vec<String>)
        ensures
            lists_keys(creators@, self@),
    {
        proof {
            use_type_invariant(self);
            assert(self@.dom() =~= self.stats@.dom());
        }
        &self.creators
    }
}

proof fn views_sum_add(a: Seq<Clip>, b: Seq<Clip>)
    ensures
        views_sum(a + b) == views_sum(a) + views_sum(b),
    decreases b.len(),
{
    if b.len() == 0 {
        assert(a + b =~= a);
    } else {
        assert((a + b).drop_last() =~= a + b.drop_last());
        views_sum_add(a, b.drop_last());
    }
}

/// One more clip adds one to the count of its creator and its views to their
/// total, and leaves every other creator's as they were.
proof fn stats_push(clips: Seq<Clip>, clip: Clip, creator: Seq<char>)
    ensures
        clip.creator_id@ == creator ==> clip_count(clips.push(clip), creator) == clip_count(
            clips,
            creator,
        ) + 1 && total_views(clips.push(clip), creator) == total_views(clips, creator)
            + clip.view_count,
        clip.creator_id@ != creator ==> clip_count(clips.push(clip), creator) == clip_count(
            clips,
            creator,
        ) && total_views(clips.push(clip), creator) == total_views(clips, creator),
{
    reveal(Seq::filter);
    assert(clips.push(clip).drop_last() =~= clips);
    if clip.creator_id@ == creator {
        assert(made_by(clips, creator).push(clip).drop_last() =~= made_by(clips, creator));
    }
}

/// Clips are counted once: of two collections laid end to end, as the pages of
/// clips are, each creator has the clips of both and the views of both.
pub proof fn stats_of_concatenation(a: Seq<Clip>, b: Seq<Clip>, creator: Seq<char>)
    ensures
        clip_count(a + b, creator) == clip_count(a, creator) + clip_count(b, creator),
        total_views(a + b, creator) == total_views(a, creator) + total_views(b, creator),
{
    Seq::filter_distributes_over_add(a, b, is_by(creator));
    views_sum_add(made_by(a, creator), made_by(b, creator));
}

/// The first `n` clips give no creator more than all clips do.
proof fn stats_of_prefix(clips: Seq<Clip>, n: int, creator: Seq<char>)
    requires
        0 <= n <= clips.len(),
    ensures
        clip_count(clips.take(n), creator) <= clip_count(clips, creator),
        total_views(clips.take(n), creator) <= total_views(clips, creator),
{
    assert(clips =~= clips.take(n) + clips.skip(n));
    stats_of_concatenation(clips.take(n), clips.skip(n), creator);
}

/// Only those who made a clip are counted: a creator has an entry exactly where
/// some clip of `clips` names them.
pub proof fn creators_are_present(clips: Seq<Clip>, creator: Seq<char>)
    ensures
        creator_stats(clips).contains_key(creator) <==> exists|i: int|
            0 <= i < clips.len() && (#[trigger] clips[i]).creator_id@ == creator,
    decreases clips.len(),
{
    if clips.len() > 0 {
        let before = clips.drop_last();
        creators_are_present(before, creator);
        assert(clips =~= before.push(clips.last()));
        stats_push(before, clips.last(), creator);
        if exists|i: int| 0 <= i < before.len() && (#[trigger] before[i]).creator_id@ == creator {
            let i = choose|i: int|
                0 <= i < before.len() && (#[trigger] before[i]).creator_id@ == creator;
            assert(clips[i].creator_id@ == creator);
        }
        if exists|i: int| 0 <= i < clips.len() && (#[trigger] clips[i]).creator_id@ == creator {
            let i = choose|i: int|
                0 <= i < clips.len() && (#[trigger] clips[i]).creator_id@ == creator;
            if i < before.len() {
                assert(before[i].creator_id@ == creator);
            }
        }
    }
}

/// What `stats` says of any user is what `clips` holds: the count is the number of
/// clips of `clips` that the user made, the views are the sum of those clips' views.
pub open spec fn counts_clips(stats: CreatorMap, clips: Seq<Clip>) -> bool {
    forall|creator: Seq<char>|
        #![trigger stats.count_of(creator)]
        #![trigger stats.views_of(creator)]
        stats.count_of(creator) == made_by(clips, creator).len() && stats.views_of(creator)
            == views_sum(made_by(clips, creator))
}

/// Counting the clips of a collection by creator.
pub trait ClipToCreatorMap {
    /// The clips of the collection, in order.
    spec fn counted(&self) -> Seq<Clip>;

    /// For each user who made a clip of the collection: how many, and their views
    /// together.
    fn get_creator_map(&self) -> (stats: CreatorMap)
        requires
            stats_fit(self.counted()),
        ensures
            stats@ == creator_stats(self.counted()),
            counts_clips(stats, self.counted()),
    ;

    /// As `get_creator_map`, for any collection: `None` where a count or a total
    /// exceeds what a `u32` holds.
    fn checked_creator_map(&self) -> (stats: Option<CreatorMap>)
        ensures
            stats is Some <==> stats_fit(self.counted()),
            stats matches Some(s) ==> s@ == creator_stats(self.counted()) && counts_clips(
                s,
                self.counted(),
            ),
    ;
}

impl ClipToCreatorMap for Vec<Clip> {
    open spec fn counted(&self) -> Seq<Clip> {
        self@
    }

    fn get_creator_map(&self) -> (stats: CreatorMap) {
        match self.checked_creator_map() {
            Some(stats) => stats,
            None => {
                assert(false);
                CreatorMap { creators: Vec::new(), stats: StringHashMap::new() }
            },
        }
    }

    fn checked_creator_map(&self) -> (result: Option<CreatorMap>) {
        let mut creators: Vec<String> = Vec::new();
        let mut stats: StringHashMap<(u32, u32)> = StringHashMap::new();
        let mut i: usize = 0;
        while i < self.len()
            invariant
                i <= self.len(),
                lists_keys(creators@, stats@),
                forall|creator: Seq<char>| #[trigger]
                    stats@.contains_key(creator) <==> clip_count(self@.take(i as int), creator)
                        > 0,
                forall|creator: Seq<char>| #[trigger]
                    stats@.contains_key(creator) ==> stats@[creator].0 == clip_count(
                        self@.take(i as int),
                        creator,
                    ) && stats@[creator].1 == total_views(self@.take(i as int), creator),
            decreases self.len() - i,
        {
            let clip = &self[i];
            let ghost seen = self@.take(i as int);
            let ghost key = clip.creator_id@;
            let ghost before = stats@;
            let ghost listed = creators@;
            proof {
                assert(self@.take(i + 1) =~= seen.push(*clip));
                assert forall|creator: Seq<char>|
                    clip_count(seen.push(*clip), creator) == clip_count(seen, creator) + (if key
                        == creator {
                        1nat
                    } else {
                        0nat
                    }) && total_views(seen.push(*clip), creator) == total_views(seen, creator) + (
                    if key == creator {
                        clip.view_count as nat
                    } else {
                        0nat
                    }) by {
                    stats_push(seen, *clip, creator);
                }
                stats_of_prefix(self@, i + 1, key);
            }
            match stats.get(clip.creator_id.as_str()) {
                Some(entry) => {
                    let count: u32 = entry.0;
                    let views: u32 = entry.1;
                    if count == u32::MAX || views > u32::MAX - clip.view_count {
                        assert(!stats_fit(self@)) by {
                            assert(clip_count(self@, key) > u32::MAX || total_views(self@, key)
                                > u32::MAX);
                        }
                        return None;
                    }
                    stats.insert(clip.creator_id.clone(), (count + 1, views + clip.view_count));
                    assert(lists_keys(creators@, stats@)) by {
                        assert forall|creator: Seq<char>| #[trigger]
                            stats@.contains_key(creator) implies exists|j: int|
                            0 <= j < creators.len() && (#[trigger] creators[j])@ == creator by {
                            assert(before.contains_key(creator));
                        }
                    }
                },
                None => {
                    assert(made_by(seen, key).len() == 0);
                    assert(total_views(seen, key) == 0);
                    creators.push(clip.creator_id.clone());
                    stats.insert(clip.creator_id.clone(), (1, clip.view_count));
                    assert(lists_keys(creators@, stats@)) by {
                        let last = listed.len() as int;
                        assert(creators@[last]@ == key);
                        assert forall|j: int| 0 <= j < last implies (#[trigger] creators@[j])@
                            != key by {
                            assert(creators@[j] == listed[j]);
                            assert(before.contains_key(listed[j]@));
                        }
                        assert forall|a: int, b: int| 0 <= a < b < creators.len() implies (
                        #[trigger] creators[a])@ != (#[trigger] creators[b])@ by {
                            if b < last {
                                assert(creators@[a] == listed[a]);
                                assert(creators@[b] == listed[b]);
                            }
                        }
                        assert forall|creator: Seq<char>| #[trigger]
                            stats@.contains_key(creator) implies exists|j: int|
                            0 <= j < creators.len() && (#[trigger] creators[j])@ == creator by {
                            if creator == key {
                                assert(creators[last]@ == creator);
                            } else {
                                assert(before.contains_key(creator));
                                let j = choose|j: int|
                                    0 <= j < listed.len() && (#[trigger] listed[j])@ == creator;
                                assert(creators[j]@ == creator);
                            }
                        }
                    }
                },
            }
            i = i + 1;
        }
        assert(self@.take(i as int) =~= self@);
        let result = CreatorMap { creators, stats };
        proof {
            assert(result@ =~= creator_stats(self@));
            assert(stats_fit(self@)) by {
                assert forall|creator: Seq<char>|
                    #![trigger clip_count(self@, creator)]
                    #![trigger total_views(self@, creator)]
                    clip_count(self@, creator) <= u32::MAX && total_views(self@, creator)
                        <= u32::MAX by {
                    if !stats@.contains_key(creator) {
                        assert(made_by(self@, creator).len() == 0);
                    }
                }
            }
        }
        Some(result)
    }
}

/// Without the clip at `j`, its creator has one clip less and that clip's views
/// less, and every other creator has what they had.
proof fn stats_remove(clips: Seq<Clip>, j: int, creator: Seq<char>)
    requires
        0 <= j < clips.len(),
    ensures
        clips[j].creator_id@ == creator ==> clip_count(clips, creator) == clip_count(
            clips.remove(j),
            creator,
        ) + 1 && total_views(clips, creator) == total_views(clips.remove(j), creator)
            + clips[j].view_count,
        clips[j].creator_id@ != creator ==> clip_count(clips, creator) == clip_count(
            clips.remove(j),
            creator,
        ) && total_views(clips, creator) == total_views(clips.remove(j), creator),
{
    let head = clips.take(j);
    let tail = clips.skip(j + 1);
    let upto = head.push(clips[j]);
    assert(clips =~= upto + tail);
    assert(clips.remove(j) =~= head + tail);
    stats_push(head, clips[j], creator);
    Seq::filter_distributes_over_add(upto, tail, is_by(creator));
    Seq::filter_distributes_over_add(head, tail, is_by(creator));
    views_sum_add(made_by(upto, creator), made_by(tail, creator));
    views_sum_add(made_by(head, creator), made_by(tail, creator));
}

proof fn same_stats(a: Seq<Clip>, b: Seq<Clip>, creator: Seq<char>)
    requires
        a.to_multiset() == b.to_multiset(),
    ensures
        clip_count(a, creator) == clip_count(b, creator),
        total_views(a, creator) == total_views(b, creator),
    decreases a.len(),
{
    a.to_multiset_ensures();
    b.to_multiset_ensures();
    if a.len() == 0 {
        assert(a =~= b);
    } else {
        let last = a.len() - 1;
        assert(a.contains(a[last]));
        assert(a.to_multiset().count(a[last]) > 0);
        assert(b.to_multiset().count(a[last]) > 0);
        assert(b.contains(a[last]));
        let j = choose|j: int| 0 <= j < b.len() && b[j] == a[last];
        assert(a.remove(last).to_multiset() =~= b.remove(j).to_multiset());
        same_stats(a.remove(last), b.remove(j), creator);
        stats_remove(a, last, creator);
        stats_remove(b, j, creator);
    }
}

/// The counts and the views do not depend on the order of the clips: two
/// collections that hold the same clips, each as often in one as in the other, give
/// every creator the same.
pub proof fn stats_ignore_order(a: Seq<Clip>, b: Seq<Clip>)
    requires
        a.to_multiset() == b.to_multiset(),
    ensures
        creator_stats(a) == creator_stats(b),
{
    assert forall|creator: Seq<char>|
        clip_count(a, creator) == clip_count(b, creator) && total_views(a, creator)
            == total_views(b, creator) by {
        same_stats(a, b, creator);
    }
    assert(creator_stats(a) =~= creator_stats(b));
}

/// One creator's count and views.
#[derive(Debug)]
pub struct CreatorStats {
    pub creator_id: String,
    pub clip_count: u32,
    pub total_views: u32,
}

/// `ranking` names each creator of `stats` once, with that creator's count and
/// views, and nobody else.
pub open spec fn lists_stats(
    ranking: Seq<CreatorStats>,
    stats: Map<Seq<char>, (nat, nat)>,
) -> bool {
    &&& forall|i: int, j: int|
        0 <= i < j < ranking.len() ==> (#[trigger] ranking[i]).creator_id@ != (
        #[trigger] ranking[j]).creator_id@
    &&& forall|i: int|
        0 <= i < ranking.len() ==> stats.contains_key((#[trigger] ranking[i]).creator_id@)
            && stats[ranking[i].creator_id@] == (
            ranking[i].clip_count as nat,
            ranking[i].total_views as nat,
        )
    &&& forall|creator: Seq<char>| #[trigger]
        stats.contains_key(creator) ==> exists|i: int|
            0 <= i < ranking.len() && (#[trigger] ranking[i]).creator_id@ == creator
}

/// No creator of `ranking` has more views than one listed before.
pub open spec fn highest_first(ranking: Seq<CreatorStats>) -> bool {
    forall|i: int, j: int|
        0 <= i < j < ranking.len() ==> (#[trigger] ranking[i]).total_views >= (
        #[trigger] ranking[j]).total_views
}

/// The positions of `order` hold the numbers below `n`, each once.
spec fn permutes(order: Seq<usize>, n: int) -> bool {
    &&& order.len() == n
    &&& forall|p: int| 0 <= p < order.len() ==> (#[trigger] order[p]) < n
    &&& forall|p: int, q: int|
        0 <= p < q < order.len() ==> #[trigger] order[p] != #[trigger] order[q]
    &&& forall|k: usize| k < n ==> #[trigger] order.contains(k)
}

/// Two neighbours of `order` change places: `swapped` holds what `order` held.
proof fn swap_permutes(order: Seq<usize>, swapped: Seq<usize>, j: int, n: int)
    requires
        permutes(order, n),
        0 < j < order.len(),
        swapped == order.update(j - 1, order[j]).update(j, order[j - 1]),
    ensures
        permutes(swapped, n),
{
    assert forall|k: usize| k < n implies #[trigger] swapped.contains(k) by {
        assert(order.contains(k));
        let p = choose|p: int| 0 <= p < order.len() && order[p] == k;
        if p == j {
            assert(swapped[j - 1] == k);
        } else if p == j - 1 {
            assert(swapped[j] == k);
        } else {
            assert(swapped[p] == k);
        }
    }
}

impl CreatorMap {
    /// The views of each creator, in the order in which `creators` lists them.
    fn views_listed(&self) -> (views: Vec<u32>)
        ensures
            views.len() == self.creators.len(),
            forall|k: int|
                0 <= k < views.len() ==> self.stats@[self.creators[k]@].1 == #[trigger] views[k],
    {
        proof {
            use_type_invariant(self);
        }
        let mut views: Vec<u32> = Vec::new();
        let mut i: usize = 0;
        while i < self.creators.len()
            invariant
                i <= self.creators.len(),
                views.len() == i,
                lists_keys(self.creators@, self.stats@),
                forall|k: int|
                    0 <= k < i ==> self.stats@[self.creators[k]@].1 == #[trigger] views[k],
            decreases self.creators.len() - i,
        {
            let listed: u32 = match self.stats.get(self.creators[i].as_str()) {
                Some(entry) => entry.1,
                None => {
                    assert(false);
                    0
                },
            };
            views.push(listed);
            i = i + 1;
        }
        views
    }

    /// The creators with their counts and views, those with the most views first.
    pub fn ranking(&self) -> (ranking: Vec<CreatorStats>)
        ensures
            lists_stats(ranking@, self@),
            highest_first(ranking@),
    {
        proof {
            use_type_invariant(self);
        }
        let n: usize = self.creators.len();
        let views = self.views_listed();
        let mut order: Vec<usize> = Vec::new();
        let mut i: usize = 0;
        while i < n
            invariant
                i <= n,
                n == views.len(),
                permutes(order@, i as int),
                forall|p: int, q: int|
                    0 <= p < q < order.len() ==> views[order[p] as int] >= views[order[q] as int],
            decreases n - i,
        {
            let ghost before = order@;
            order.push(i);
            assert(permutes(order@, i + 1)) by {
                assert forall|k: usize| k < i + 1 implies #[trigger] order@.contains(k) by {
                    if k < i {
                        assert(before.contains(k));
                        let p = choose|p: int| 0 <= p < before.len() && before[p] == k;
                        assert(order[p] == k);
                    } else {
                        assert(order[i as int] == k);
                    }
                }
            }
            let mut j: usize = i;
            while j > 0 && views[order[j - 1]] < views[order[j]]
                invariant
                    j <= i < n,
                    n == views.len(),
                    permutes(order@, i + 1),
                    forall|p: int, q: int|
                        0 <= p < q < order.len() && p != j && q != j ==> views[order[p] as int]
                            >= views[order[q] as int],
                    forall|q: int|
                        j < q < order.len() ==> views[order[j as int] as int]
                            > views[order[q] as int],
                decreases j,
            {
                let ghost unswapped = order@;
                let left: usize = order[j - 1];
                let right: usize = order[j];
                order.set(j - 1, right);
                order.set(j, left);
                proof {
                    swap_permutes(unswapped, order@, j as int, i + 1);
                }
                j = j - 1;
            }
            i = i + 1;
        }
        let mut ranking: Vec<CreatorStats> = Vec::new();
        let mut p: usize = 0;
        while p < n
            invariant
                p <= n,
                n == views.len(),
                n == self.creators.len(),
                ranking.len() == p,
                permutes(order@, n as int),
                lists_keys(self.creators@, self.stats@),
                forall|k: int|
                    0 <= k < views.len() ==> self.stats@[self.creators[k]@].1
                        == #[trigger] views[k],
                forall|k: int|
                    0 <= k < p ==> {
                        let listed = self.creators[order[k] as int]@;
                        &&& (#[trigger] ranking[k]).creator_id@ == listed
                        &&& ranking[k].clip_count == self.stats@[listed].0
                        &&& ranking[k].total_views == self.stats@[listed].1
                    },
            decreases n - p,
        {
            let creator = &self.creators[order[p]];
            let entry: (u32, u32) = match self.stats.get(creator.as_str()) {
                Some(entry) => *entry,
                None => {
                    assert(false);
                    (0, 0)
                },
            };
            ranking.push(
                CreatorStats {
                    creator_id: creator.clone(),
                    clip_count: entry.0,
                    total_views: entry.1,
                },
            );
            p = p + 1;
        }
        proof {
            assert forall|a: int, b: int| 0 <= a < b < ranking.len() implies (
            #[trigger] ranking[a]).creator_id@ != (#[trigger] ranking[b]).creator_id@ by {
                assert(order[a] != order[b]);
            }
            assert forall|creator: Seq<char>| #[trigger]
                self@.contains_key(creator) implies exists|k: int|
                0 <= k < ranking.len() && (#[trigger] ranking[k]).creator_id@ == creator by {
                assert(self.stats@.contains_key(creator));
                let at = choose|at: int|
                    0 <= at < self.creators.len() && (#[trigger] self.creators[at])@ == creator;
                assert(order@.contains(at as usize));
                let k = choose|k: int| 0 <= k < order.len() && order[k] == at as usize;
                assert(ranking[k].creator_id@ == creator);
            }
            assert forall|a: int, b: int| 0 <= a < b < ranking.len() implies (
            #[trigger] ranking[a]).total_views >= (#[trigger] ranking[b]).total_views by {
                assert(views[order[a] as int] >= views[order[b] as int]);
            }
        }
        ranking
    }
}

} // verus!

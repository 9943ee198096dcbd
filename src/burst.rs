//! Segmentation of a timestamp sequence into bursts: runs of shots taken in
//! quick succession.
use vstd::prelude::*;
use std::collections::HashMap;
use crate::datetime::{LocalDateTime, NANOS_PER_SECOND};

verus! {

/// Position of a record in the scanned sequence.
pub type BurstGroupId = usize;

/// A run of consecutive records whose capture times are close together.
#[derive(Clone, Debug)]
pub struct BurstGroup {
    /// Sequential id, in the order the groups were found.
    pub id: BurstGroupId,
    /// Indices of the members in the scanned sequence, ascending and contiguous.
    pub photo_indices: Vec<usize>,
    /// Capture time of the first member.
    pub start_time: LocalDateTime,
    /// Capture time of the last member.
    pub end_time: LocalDateTime,
    /// Number of members.
    pub count: usize,
}

/// Thresholds of burst detection.
#[derive(Clone, Copy, Debug)]
pub struct BurstDetectorConfig {
    /// Largest gap between two neighbouring members, in seconds.
    pub max_interval_seconds: i64,
    /// Fewest members a run needs to count as a burst.
    pub min_count: usize,
}

impl Default for BurstDetectorConfig {
    fn default() -> (r: Self)
        ensures
            r.max_interval_seconds == 3,
            r.min_count == 3,
    {
        BurstDetectorConfig { max_interval_seconds: 3, min_count: 3 }
    }
}

/// Item `i` continues the run of item `i - 1`: it was taken no earlier and at
/// most `max_interval` seconds later.
pub open spec fn linked(dates: Seq<LocalDateTime>, max_interval: int, i: int) -> bool {
    &&& 0 < i < dates.len()
    &&& 0 <= dates[i].instant() - dates[i - 1].instant()
    &&& dates[i].instant() - dates[i - 1].instant() <= max_interval * NANOS_PER_SECOND
}

/// Items `s..=e` form a maximal run: each is linked to its predecessor, and
/// neither neighbour outside the range is.
pub open spec fn is_run(dates: Seq<LocalDateTime>, max_interval: int, s: int, e: int) -> bool {
    &&& 0 <= s <= e < dates.len()
    &&& forall|k: int| s < k <= e ==> #[trigger] linked(dates, max_interval, k)
    &&& !linked(dates, max_interval, s)
    &&& !linked(dates, max_interval, e + 1)
}

/// The index sequence `s, s + 1, ..., e`.
pub open spec fn index_range(s: int, e: int) -> Seq<usize> {
    Seq::new((e - s + 1) as nat, |k: int| (s + k) as usize)
}

/// First member index of a group.
pub open spec fn first_index(g: BurstGroup) -> int {
    g.photo_indices@[0] as int
}

/// Last member index of a group.
pub open spec fn last_index(g: BurstGroup) -> int {
    g.photo_indices@.last() as int
}

/// `g` is the burst made of a maximal run of at least `min_count` items,
/// numbered `id`.
pub open spec fn is_burst(dates: Seq<LocalDateTime>, config: BurstDetectorConfig, g: BurstGroup, id: int) -> bool {
    let s = first_index(g);
    let e = last_index(g);
    &&& g.photo_indices@.len() > 0
    &&& is_run(dates, config.max_interval_seconds as int, s, e)
    &&& e - s + 1 >= config.min_count
    &&& g.id == id
    &&& g.photo_indices@ == index_range(s, e)
    &&& g.count == e - s + 1
    &&& g.start_time == dates[s]
    &&& g.end_time == dates[e]
}

/// The groups are ordered and disjoint: member indices ascend across the
/// whole list, and each count is the number of members.
pub open spec fn groups_ordered(groups: Seq<BurstGroup>) -> bool {
    &&& forall|g: int| 0 <= g < groups.len() ==> #[trigger] groups[g].count == groups[g].photo_indices@.len()
    &&& forall|g: int, j: int, k: int|
        0 <= g < groups.len() && 0 <= j < k < groups[g].photo_indices@.len()
            ==> #[trigger] groups[g].photo_indices@[j] < #[trigger] groups[g].photo_indices@[k]
    &&& forall|g: int, h: int, j: int, k: int|
        0 <= g < h < groups.len() && 0 <= j < groups[g].photo_indices@.len() && 0 <= k
            < groups[h].photo_indices@.len()
            ==> #[trigger] groups[g].photo_indices@[j] < #[trigger] groups[h].photo_indices@[k]
}

/// The groups are exactly the bursts among the maximal runs that end before
/// `bound`, in order, and no member index reaches `bound`.
#[verifier::opaque]
pub open spec fn bursts_before(
    dates: Seq<LocalDateTime>,
    config: BurstDetectorConfig,
    groups: Seq<BurstGroup>,
    bound: int,
) -> bool {
    &&& groups_ordered(groups)
    &&& forall|g: int, j: int|
        0 <= g < groups.len() && 0 <= j < groups[g].photo_indices@.len()
            ==> #[trigger] groups[g].photo_indices@[j] < bound
    &&& forall|g: int| 0 <= g < groups.len() ==> #[trigger] is_burst(dates, config, groups[g], g)
    &&& forall|s: int, e: int|
        is_run(dates, config.max_interval_seconds as int, s, e) && e < bound && e - s + 1
            >= config.min_count ==> exists|g: int|
            0 <= g < groups.len() && #[trigger] groups[g].photo_indices@ == index_range(s, e)
}

/// `groups` is what burst detection finds in `dates`: every group is the
/// burst of a maximal run, numbered in order, every long enough maximal run
/// is a group, and the groups are ordered and disjoint.
pub open spec fn is_detection(dates: Seq<LocalDateTime>, config: BurstDetectorConfig, groups: Seq<BurstGroup>) -> bool {
    &&& forall|g: int| 0 <= g < groups.len() ==> #[trigger] is_burst(dates, config, groups[g], g)
    &&& forall|s: int, e: int|
        is_run(dates, config.max_interval_seconds as int, s, e) && e - s + 1
            >= config.min_count ==> exists|g: int|
            0 <= g < groups.len() && #[trigger] groups[g].photo_indices@ == index_range(s, e)
    &&& groups_ordered(groups)
}

fn in_burst_range(prev: &LocalDateTime, cur: &LocalDateTime, max_interval: i64) -> (r: bool)
    requires
        prev.wf(),
        cur.wf(),
    ensures
        r == (0 <= cur.instant() - prev.instant() <= max_interval * NANOS_PER_SECOND),
{
    let delta = cur.instant_nanos() - prev.instant_nanos();
    delta >= 0 && delta <= max_interval as i128 * 1_000_000_000
}

/// Splits the capture times, in scan order, into maximal runs whose
/// neighbours are at most `max_interval_seconds` apart and never go
/// backwards, and returns the runs of at least `min_count` members, in order,
/// numbered from 0. No sorting is done.
#[verifier::spinoff_prover]
pub fn detect_bursts(dates: &[LocalDateTime], config: &BurstDetectorConfig) -> (groups: Vec<
    BurstGroup,
>)
    requires
        forall|i: int| 0 <= i < dates@.len() ==> #[trigger] dates@[i].wf(),
    ensures
        is_detection(dates@, *config, groups@),
{
    let ghost mi = config.max_interval_seconds as int;
    let mut groups: Vec<BurstGroup> = Vec::new();
    if dates.len() == 0 {
        return groups;
    }
    proof { reveal(bursts_before); }
    let mut current: Vec<usize> = Vec::new();
    current.push(0);
    let mut start: usize = 0;
    let mut i: usize = 1;
    while i < dates.len()
        invariant
            forall|i: int| 0 <= i < dates@.len() ==> #[trigger] dates@[i].wf(),
            mi == config.max_interval_seconds as int,
            0 <= start < i <= dates@.len(),
            current@ == index_range(start as int, i - 1),
            forall|k: int| start < k < i ==> #[trigger] linked(dates@, mi, k),
            !linked(dates@, mi, start as int),
            bursts_before(dates@, *config, groups@, start as int),
        decreases dates.len() - i,
    {
        if in_burst_range(&dates[i - 1], &dates[i], config.max_interval_seconds) {
            current.push(i);
            assert(current@ =~= index_range(start as int, i as int));
        } else {
            let ghost before = groups@;
            if current.len() >= config.min_count {
                let g = BurstGroup {
                    id: groups.len(),
                    photo_indices: current,
                    start_time: dates[start],
                    end_time: dates[i - 1],
                    count: i - start,
                };
                groups.push(g);
                assert(groups@.drop_last() =~= before);
            }
            proof { lemma_close_run(dates@, *config, before, groups@, start as int, i as int); }
            current = Vec::new();
            current.push(i);
            assert(current@ =~= index_range(i as int, i as int));
            start = i;
        }
        i = i + 1;
    }
    let ghost before = groups@;
    if current.len() >= config.min_count {
        let count = current.len();
        let g = BurstGroup {
            id: groups.len(),
            photo_indices: current,
            start_time: dates[start],
            end_time: dates[i - 1],
            count,
        };
        groups.push(g);
        assert(groups@.drop_last() =~= before);
    }
    proof {
        lemma_close_run(dates@, *config, before, groups@, start as int, i as int);
        reveal(bursts_before);
    }
    groups
}

/// Closing the run `start..i`: the groups found so far, with that run added
/// when it is long enough, are exactly the bursts among the runs that end
/// before `i`.
#[verifier::spinoff_prover]
proof fn lemma_close_run(
    dates: Seq<LocalDateTime>,
    config: BurstDetectorConfig,
    before: Seq<BurstGroup>,
    after: Seq<BurstGroup>,
    start: int,
    i: int,
)
    requires
        0 <= start < i <= dates.len(),
        i <= usize::MAX,
        forall|k: int| start < k < i ==> #[trigger] linked(dates, config.max_interval_seconds as int, k),
        !linked(dates, config.max_interval_seconds as int, start),
        !linked(dates, config.max_interval_seconds as int, i),
        bursts_before(dates, config, before, start),
        i - start >= config.min_count ==> after.len() == before.len() + 1 && after.drop_last()
            == before && after.last().id == before.len() && after.last().photo_indices@
            == index_range(start, i - 1) && after.last().count == i - start
            && after.last().start_time == dates[start] && after.last().end_time == dates[i - 1],
        i - start < config.min_count ==> after == before,
    ensures
        bursts_before(dates, config, after, i),
{
    reveal(bursts_before);
    let mi = config.max_interval_seconds as int;
    lemma_run_unique(dates, mi, start, i);
    assert(is_run(dates, mi, start, i - 1));
    let n = before.len();
    assert forall|g: int| 0 <= g < n implies #[trigger] after[g] == before[g] by {
        if i - start >= config.min_count {
            assert(after[g] == after.drop_last()[g]);
        }
    }
    if i - start >= config.min_count {
        let last = after[n as int];
        assert(last == after.last());
        assert forall|j: int| 0 <= j < last.photo_indices@.len() implies #[trigger] last.photo_indices@[j] == start + j by {}
        assert(first_index(last) == start);
        assert(last_index(last) == i - 1);
        assert(is_burst(dates, config, last, n as int));
    }
    assert forall|g: int| 0 <= g < after.len() implies #[trigger] is_burst(dates, config, after[g], g) by {
        if g < n {
            assert(after[g] == before[g]);
        }
    }
    assert forall|s: int, e: int|
        is_run(dates, mi, s, e) && e < i && e - s + 1 >= config.min_count implies exists|g: int|
            0 <= g < after.len() && #[trigger] after[g].photo_indices@ == index_range(s, e) by {
        if e < start {
            let g = choose|g: int| 0 <= g < n && #[trigger] before[g].photo_indices@ == index_range(s, e);
            assert(after[g] == before[g]);
        } else {
            assert(s == start && e == i - 1);
            assert(after[n as int].photo_indices@ == index_range(s, e));
        }
    }
    lemma_close_ordered(dates, config, before, after, start, i);
}

/// Closing a run keeps the groups ordered and below the bound.
#[verifier::spinoff_prover]
proof fn lemma_close_ordered(
    dates: Seq<LocalDateTime>,
    config: BurstDetectorConfig,
    before: Seq<BurstGroup>,
    after: Seq<BurstGroup>,
    start: int,
    i: int,
)
    requires
        0 <= start < i <= dates.len(),
        i <= usize::MAX,
        bursts_before(dates, config, before, start),
        i - start >= config.min_count ==> after.len() == before.len() + 1 && after.drop_last()
            == before && after.last().photo_indices@ == index_range(start, i - 1)
            && after.last().count == i - start,
        i - start < config.min_count ==> after == before,
    ensures
        groups_ordered(after),
        forall|g: int, j: int|
            0 <= g < after.len() && 0 <= j < after[g].photo_indices@.len()
                ==> #[trigger] after[g].photo_indices@[j] < i,
{
    reveal(bursts_before);
    let n = before.len();
    assert forall|g: int| 0 <= g < n implies #[trigger] after[g] == before[g] by {
        if i - start >= config.min_count {
            assert(after[g] == after.drop_last()[g]);
        }
    }
    if i - start >= config.min_count {
        let last = after[n as int];
        assert(last == after.last());
        assert forall|j: int| 0 <= j < last.photo_indices@.len() implies #[trigger] last.photo_indices@[j] == start + j by {}
    }
    assert forall|g: int, j: int|
        0 <= g < after.len() && 0 <= j < after[g].photo_indices@.len()
            implies #[trigger] after[g].photo_indices@[j] < i by {
        if g < n {
            assert(after[g] == before[g]);
        }
    }
    assert forall|g: int| 0 <= g < after.len() implies #[trigger] after[g].count == after[g].photo_indices@.len() by {
        if g < n {
            assert(after[g] == before[g]);
        }
    }
    assert forall|g: int, j: int, k: int|
        0 <= g < after.len() && 0 <= j < k < after[g].photo_indices@.len()
        implies #[trigger] after[g].photo_indices@[j] < #[trigger] after[g].photo_indices@[k] by {
        if g < n {
            assert(after[g] == before[g]);
        }
    }
    assert forall|g: int, h: int, j: int, k: int|
        0 <= g < h < after.len() && 0 <= j < after[g].photo_indices@.len() && 0 <= k
            < after[h].photo_indices@.len()
        implies #[trigger] after[g].photo_indices@[j] < #[trigger] after[h].photo_indices@[k] by {
        assert(after[g] == before[g]);
        if h < n {
            assert(after[h] == before[h]);
        } else {
            assert(after[g].photo_indices@[j] < start);
        }
    }
}

/// Indices of the present entries, in order.
pub open spec fn present_positions(dates: Seq<Option<LocalDateTime>>) -> Seq<usize>
    decreases dates.len(),
{
    if dates.len() == 0 {
        Seq::empty()
    } else if dates.last() is Some {
        present_positions(dates.drop_last()).push((dates.len() - 1) as usize)
    } else {
        present_positions(dates.drop_last())
    }
}

/// The present entries, in order.
pub open spec fn present_dates(dates: Seq<Option<LocalDateTime>>) -> Seq<LocalDateTime> {
    present_positions(dates).map_values(|i: usize| dates[i as int].unwrap())
}

/// `out` is `found` with member indices moved through `positions`.
pub open spec fn groups_relocated(found: Seq<BurstGroup>, positions: Seq<usize>, out: Seq<BurstGroup>) -> bool {
    &&& out.len() == found.len()
    &&& forall|g: int|
        0 <= g < out.len() ==> {
            &&& #[trigger] out[g].id == found[g].id
            &&& out[g].count == found[g].count
            &&& out[g].start_time == found[g].start_time
            &&& out[g].end_time == found[g].end_time
            &&& out[g].photo_indices@ == found[g].photo_indices@.map_values(|k: usize| positions[k as int])
        }
}

/// Present positions ascend, stay in range and point at present entries.
proof fn lemma_present_positions(dates: Seq<Option<LocalDateTime>>)
    requires
        dates.len() <= usize::MAX,
    ensures
        forall|a: int, b: int|
            0 <= a < b < present_positions(dates).len() ==> #[trigger] present_positions(dates)[a]
                < #[trigger] present_positions(dates)[b],
        forall|a: int|
            0 <= a < present_positions(dates).len() ==> #[trigger] present_positions(dates)[a] < dates.len()
                && dates[present_positions(dates)[a] as int] is Some,
    decreases dates.len(),
{
    if dates.len() > 0 {
        let shorter = dates.drop_last();
        lemma_present_positions(shorter);
        let p = present_positions(shorter);
        assert forall|a: int| 0 <= a < p.len() implies #[trigger] dates[p[a] as int] == shorter[p[a] as int] by {}
    }
}

/// Burst detection over the present entries only: absent ones neither join
/// nor break a run. Member indices refer to positions in `dates`.
#[verifier::spinoff_prover]
pub fn detect_burst_groups(dates: &[Option<LocalDateTime>], config: &BurstDetectorConfig) -> (groups: Vec<
    BurstGroup,
>)
    requires
        forall|i: int| 0 <= i < dates@.len() ==> (#[trigger] dates@[i] matches Some(d) ==> d.wf()),
    ensures
        exists|found: Seq<BurstGroup>|
            is_detection(present_dates(dates@), *config, found) && groups_relocated(
                found,
                present_positions(dates@),
                groups@,
            ),
        groups_ordered(groups@),
{
    let n = dates.len();
    let mut positions: Vec<usize> = Vec::new();
    let mut present: Vec<LocalDateTime> = Vec::new();
    let mut i: usize = 0;
    while i < n
        invariant
            n == dates@.len(),
            i <= n,
            positions@ == present_positions(dates@.subrange(0, i as int)),
            present@ == present_dates(dates@.subrange(0, i as int)),
        decreases n - i,
    {
        let ghost prefix = dates@.subrange(0, i as int);
        let ghost next = dates@.subrange(0, i + 1);
        assert(next.drop_last() =~= prefix);
        proof {
            lemma_present_positions(prefix);
        }
        assert forall|a: int| 0 <= a < present_positions(prefix).len() implies #[trigger] next[present_positions(prefix)[a] as int] == prefix[present_positions(prefix)[a] as int] by {}
        match dates[i] {
            Some(d) => {
                positions.push(i);
                present.push(d);
            },
            None => {},
        }
        assert(present@ =~= present_dates(next));
        i = i + 1;
    }
    assert(dates@.subrange(0, n as int) =~= dates@);
    proof {
        lemma_present_positions(dates@);
    }
    assert forall|k: int| 0 <= k < present@.len() implies #[trigger] present@[k].wf() by {
        assert(dates@[positions@[k] as int] is Some);
    }
    let found = detect_bursts(present.as_slice(), config);
    let mut groups: Vec<BurstGroup> = Vec::new();
    let mut g: usize = 0;
    while g < found.len()
        invariant
            positions@ == present_positions(dates@),
            present@.len() == positions@.len(),
            is_detection(present@, *config, found@),
            g <= found@.len(),
            groups@.len() == g,
            forall|h: int|
                0 <= h < g ==> {
                    &&& #[trigger] groups@[h].id == found@[h].id
                    &&& groups@[h].count == found@[h].count
                    &&& groups@[h].start_time == found@[h].start_time
                    &&& groups@[h].end_time == found@[h].end_time
                    &&& groups@[h].photo_indices@ == found@[h].photo_indices@.map_values(
                        |k: usize| positions@[k as int],
                    )
                },
        decreases found.len() - g,
    {
        let group = &found[g];
        assert(is_burst(present@, *config, found@[g as int], g as int));
        let mut mapped: Vec<usize> = Vec::new();
        let mut j: usize = 0;
        while j < group.photo_indices.len()
            invariant
                *group == found@[g as int],
                is_burst(present@, *config, found@[g as int], g as int),
                present@.len() == positions@.len(),
                j <= group.photo_indices@.len(),
                mapped@ == group.photo_indices@.subrange(0, j as int).map_values(
                    |k: usize| positions@[k as int],
                ),
            decreases group.photo_indices.len() - j,
        {
            let k = group.photo_indices[j];
            assert(k == first_index(*group) + j);
            mapped.push(positions[k]);
            j = j + 1;
            assert(mapped@ =~= group.photo_indices@.subrange(0, j as int).map_values(
                |k: usize| positions@[k as int],
            ));
        }
        assert(group.photo_indices@.subrange(0, j as int) =~= group.photo_indices@);
        groups.push(
            BurstGroup {
                id: group.id,
                photo_indices: mapped,
                start_time: group.start_time,
                end_time: group.end_time,
                count: group.count,
            },
        );
        g = g + 1;
    }
    proof {
        lemma_relocated_ordered(present@, *config, found@, positions@, groups@);
    }
    groups
}

/// Moving the members of ordered groups through ascending positions keeps
/// them ordered.
proof fn lemma_relocated_ordered(
    dates: Seq<LocalDateTime>,
    config: BurstDetectorConfig,
    found: Seq<BurstGroup>,
    positions: Seq<usize>,
    out: Seq<BurstGroup>,
)
    requires
        is_detection(dates, config, found),
        positions.len() == dates.len(),
        forall|a: int, b: int| 0 <= a < b < positions.len() ==> #[trigger] positions[a] < #[trigger] positions[b],
        groups_relocated(found, positions, out),
    ensures
        groups_ordered(out),
{
    assert forall|g: int, j: int| 0 <= g < found.len() && 0 <= j < found[g].photo_indices@.len()
        implies #[trigger] found[g].photo_indices@[j] < positions.len() by {
        assert(is_burst(dates, config, found[g], g));
        assert(found[g].photo_indices@[j] == first_index(found[g]) + j);
    }
    assert forall|g: int| 0 <= g < out.len() implies #[trigger] out[g].count == out[g].photo_indices@.len() by {
        assert(out[g].id == found[g].id);
    }
    assert forall|g: int, j: int, k: int|
        0 <= g < out.len() && 0 <= j < k < out[g].photo_indices@.len()
        implies #[trigger] out[g].photo_indices@[j] < #[trigger] out[g].photo_indices@[k] by {
        assert(out[g].id == found[g].id);
        assert(found[g].photo_indices@[j] < found[g].photo_indices@[k]);
    }
    assert forall|g: int, h: int, j: int, k: int|
        0 <= g < h < out.len() && 0 <= j < out[g].photo_indices@.len() && 0 <= k
            < out[h].photo_indices@.len()
        implies #[trigger] out[g].photo_indices@[j] < #[trigger] out[h].photo_indices@[k] by {
        assert(out[g].id == found[g].id);
        assert(out[h].id == found[h].id);
        assert(found[g].photo_indices@[j] < found[h].photo_indices@[k]);
    }
}

/// Sum of the counts of the groups.
pub open spec fn total_count(groups: Seq<BurstGroup>) -> int
    decreases groups.len(),
{
    if groups.len() == 0 {
        0
    } else {
        total_count(groups.drop_last()) + groups.last().count
    }
}

/// `(h, l)` is the position of a member: group `h`, place `l`.
pub open spec fn member_at(groups: Seq<BurstGroup>, h: int, l: int) -> bool {
    0 <= h < groups.len() && 0 <= l < groups[h].photo_indices@.len()
}

/// No index is a member twice, within a group or across groups.
pub open spec fn groups_disjoint(groups: Seq<BurstGroup>) -> bool {
    forall|g: int, j: int, h: int, l: int|
        member_at(groups, g, j) && member_at(groups, h, l) && (g != h || j != l)
            ==> #[trigger] groups[g].photo_indices@[j] != #[trigger] groups[h].photo_indices@[l]
}

/// Every index that is a member of some group.
pub open spec fn member_indices(groups: Seq<BurstGroup>) -> Set<usize> {
    Set::new(|k: usize| exists|h: int, l: int| member_at(groups, h, l) && #[trigger] groups[h].photo_indices@[l] == k)
}

/// Number of member places over all groups.
pub open spec fn total_members(groups: Seq<BurstGroup>) -> int
    decreases groups.len(),
{
    if groups.len() == 0 {
        0
    } else {
        total_members(groups.drop_last()) + groups.last().photo_indices@.len()
    }
}

/// `(h, l)` comes before place `j` of group `g`.
pub open spec fn member_before(groups: Seq<BurstGroup>, h: int, l: int, g: int, j: int) -> bool {
    member_at(groups, h, l) && (h < g || (h == g && l < j))
}

/// The member indices before place `j` of group `g`.
pub open spec fn indices_before(groups: Seq<BurstGroup>, g: int, j: int) -> Set<usize> {
    Set::new(|k: usize| exists|h: int, l: int| member_before(groups, h, l, g, j) && #[trigger] groups[h].photo_indices@[l] == k)
}

/// Ordered groups are disjoint.
pub proof fn lemma_ordered_groups_disjoint(groups: Seq<BurstGroup>)
    requires
        groups_ordered(groups),
    ensures
        groups_disjoint(groups),
{
    assert forall|g: int, j: int, h: int, l: int|
        member_at(groups, g, j) && member_at(groups, h, l) && (g != h || j != l)
        implies #[trigger] groups[g].photo_indices@[j] != #[trigger] groups[h].photo_indices@[l] by {
        if g == h {
            if j < l {
                assert(groups[g].photo_indices@[j] < groups[g].photo_indices@[l]);
            } else {
                assert(groups[g].photo_indices@[l] < groups[g].photo_indices@[j]);
            }
        } else if g < h {
            assert(groups[g].photo_indices@[j] < groups[h].photo_indices@[l]);
        } else {
            assert(groups[h].photo_indices@[l] < groups[g].photo_indices@[j]);
        }
    }
}

/// Where every count is the number of members, the counts add up to the
/// member places.
proof fn lemma_counts_are_members(groups: Seq<BurstGroup>)
    requires
        forall|g: int| 0 <= g < groups.len() ==> #[trigger] groups[g].count == groups[g].photo_indices@.len(),
    ensures
        total_count(groups) == total_members(groups),
    decreases groups.len(),
{
    if groups.len() > 0 {
        let shorter = groups.drop_last();
        assert forall|g: int| 0 <= g < shorter.len() implies #[trigger] shorter[g].count == shorter[g].photo_indices@.len() by {
            assert(shorter[g] == groups[g]);
        }
        lemma_counts_are_members(shorter);
        assert(groups.last() == groups[groups.len() - 1]);
    }
}

/// Moving past the last place of group `g` starts group `g + 1`.
proof fn lemma_indices_next_group(groups: Seq<BurstGroup>, g: int)
    requires
        0 <= g < groups.len(),
    ensures
        indices_before(groups, g, groups[g].photo_indices@.len() as int) == indices_before(groups, g + 1, 0),
        total_members(groups.take(g + 1)) == total_members(groups.take(g)) + groups[g].photo_indices@.len(),
{
    let n = groups[g].photo_indices@.len() as int;
    assert forall|k: usize| indices_before(groups, g, n).contains(k) <==> indices_before(groups, g + 1, 0).contains(k) by {
        if indices_before(groups, g, n).contains(k) {
            let (h, l) = choose|h: int, l: int| member_before(groups, h, l, g, n) && #[trigger] groups[h].photo_indices@[l] == k;
            assert(member_before(groups, h, l, g + 1, 0));
        }
        if indices_before(groups, g + 1, 0).contains(k) {
            let (h, l) = choose|h: int, l: int| member_before(groups, h, l, g + 1, 0) && #[trigger] groups[h].photo_indices@[l] == k;
            assert(member_before(groups, h, l, g, n));
        }
    }
    assert(indices_before(groups, g, n) =~= indices_before(groups, g + 1, 0));
    assert(groups.take(g + 1).drop_last() =~= groups.take(g));
}

/// Taking the next place `j` of group `g` adds its index.
proof fn lemma_indices_next_place(groups: Seq<BurstGroup>, g: int, j: int)
    requires
        member_at(groups, g, j),
    ensures
        indices_before(groups, g, j + 1) == indices_before(groups, g, j).insert(groups[g].photo_indices@[j]),
        groups_disjoint(groups) ==> !indices_before(groups, g, j).contains(groups[g].photo_indices@[j]),
{
    let k0 = groups[g].photo_indices@[j];
    assert forall|k: usize| indices_before(groups, g, j + 1).contains(k) <==> indices_before(groups, g, j).insert(k0).contains(k) by {
        if indices_before(groups, g, j + 1).contains(k) {
            let (h, l) = choose|h: int, l: int| member_before(groups, h, l, g, j + 1) && #[trigger] groups[h].photo_indices@[l] == k;
            if !(h == g && l == j) {
                assert(member_before(groups, h, l, g, j));
            }
        }
        if indices_before(groups, g, j).contains(k) {
            let (h, l) = choose|h: int, l: int| member_before(groups, h, l, g, j) && #[trigger] groups[h].photo_indices@[l] == k;
            assert(member_before(groups, h, l, g, j + 1));
        }
        if k == k0 {
            assert(member_before(groups, g, j, g, j + 1));
        }
    }
    assert(indices_before(groups, g, j + 1) =~= indices_before(groups, g, j).insert(k0));
    if groups_disjoint(groups) && indices_before(groups, g, j).contains(k0) {
        let (h, l) = choose|h: int, l: int| member_before(groups, h, l, g, j) && #[trigger] groups[h].photo_indices@[l] == k0;
        assert(groups[h].photo_indices@[l] != groups[g].photo_indices@[j]);
    }
}

/// Maps each member index to the id of its group: the keys are exactly the
/// member indices. For disjoint groups, such as those that
/// `detect_burst_groups` returns, every member maps to its own group's id,
/// and the map holds one entry per member place, so as many as the counts
/// add up to where each count is its group's size.
#[verifier::spinoff_prover]
pub fn create_photo_to_group_map(groups: &[BurstGroup]) -> (map: HashMap<usize, BurstGroupId>)
    ensures
        map@.dom() == member_indices(groups@),
        groups_disjoint(groups@) ==> forall|g: int, j: int|
            member_at(groups@, g, j) ==> #[trigger] map@[groups@[g].photo_indices@[j]] == groups@[g].id,
        groups_disjoint(groups@) ==> map@.len() == total_members(groups@),
        groups_disjoint(groups@) && (forall|g: int|
            0 <= g < groups@.len() ==> #[trigger] groups@[g].count == groups@[g].photo_indices@.len())
            ==> map@.len() == total_count(groups@),
{
    broadcast use vstd::std_specs::hash::group_hash_axioms;
    let mut map: HashMap<usize, BurstGroupId> = HashMap::new();
    let ghost disjoint = groups_disjoint(groups@);
    assert(indices_before(groups@, 0, 0) =~= Set::<usize>::empty());
    let mut g: usize = 0;
    while g < groups.len()
        invariant
            disjoint == groups_disjoint(groups@),
            g <= groups@.len(),
            map@.dom() == indices_before(groups@, g as int, 0),
            disjoint ==> forall|h: int, l: int|
                member_before(groups@, h, l, g as int, 0) ==> #[trigger] map@[groups@[h].photo_indices@[l]]
                    == groups@[h].id,
            disjoint ==> map@.len() == total_members(groups@.take(g as int)),
        decreases groups.len() - g,
    {
        let group = &groups[g];
        let ghost before_len = map@.len();
        let mut j: usize = 0;
        while j < group.photo_indices.len()
            invariant
                disjoint == groups_disjoint(groups@),
                g < groups@.len(),
                *group == groups@[g as int],
                j <= group.photo_indices@.len(),
                map@.dom() == indices_before(groups@, g as int, j as int),
                disjoint ==> forall|h: int, l: int|
                    member_before(groups@, h, l, g as int, j as int) ==> #[trigger] map@[groups@[h].photo_indices@[l]]
                        == groups@[h].id,
                disjoint ==> map@.len() == before_len + j,
            decreases group.photo_indices.len() - j,
        {
            let idx = group.photo_indices[j];
            proof {
                lemma_indices_next_place(groups@, g as int, j as int);
            }
            let ghost old_map = map@;
            map.insert(idx, group.id);
            proof {
                assert(map@.dom() =~= indices_before(groups@, g as int, j + 1));
                if disjoint {
                    assert forall|h: int, l: int|
                        member_before(groups@, h, l, g as int, j + 1) implies #[trigger] map@[groups@[h].photo_indices@[l]]
                            == groups@[h].id by {
                        if !(h == g && l == j) {
                            assert(member_before(groups@, h, l, g as int, j as int));
                            assert(groups@[h].photo_indices@[l] != groups@[g as int].photo_indices@[j as int]);
                        }
                    }
                }
            }
            j = j + 1;
        }
        proof {
            lemma_indices_next_group(groups@, g as int);
            if disjoint {
                assert forall|h: int, l: int|
                    member_before(groups@, h, l, g + 1, 0) implies #[trigger] map@[groups@[h].photo_indices@[l]]
                        == groups@[h].id by {
                    assert(member_before(groups@, h, l, g as int, j as int));
                }
            }
        }
        g = g + 1;
    }
    proof {
        assert(groups@.take(g as int) =~= groups@);
        assert forall|k: usize| indices_before(groups@, g as int, 0).contains(k) <==> member_indices(groups@).contains(k) by {
            if indices_before(groups@, g as int, 0).contains(k) {
                let (h, l) = choose|h: int, l: int| member_before(groups@, h, l, g as int, 0) && #[trigger] groups@[h].photo_indices@[l] == k;
                assert(member_at(groups@, h, l));
            }
            if member_indices(groups@).contains(k) {
                let (h, l) = choose|h: int, l: int| member_at(groups@, h, l) && #[trigger] groups@[h].photo_indices@[l] == k;
                assert(member_before(groups@, h, l, g as int, 0));
            }
        }
        assert(map@.dom() =~= member_indices(groups@));
        if disjoint {
            assert forall|h: int, l: int| member_at(groups@, h, l) implies #[trigger] map@[groups@[h].photo_indices@[l]]
                == groups@[h].id by {
                assert(member_before(groups@, h, l, g as int, 0));
            }
        }
        if disjoint && (forall|h: int| 0 <= h < groups@.len() ==> #[trigger] groups@[h].count == groups@[h].photo_indices@.len()) {
            lemma_counts_are_members(groups@);
        }
    }
    map
}

/// A maximal run that ends before `i` and overlaps the run `start..i` is that run.
proof fn lemma_run_unique(dates: Seq<LocalDateTime>, mi: int, start: int, i: int)
    requires
        0 <= start < i <= dates.len(),
        forall|k: int| start < k < i ==> #[trigger] linked(dates, mi, k),
        !linked(dates, mi, start),
    ensures
        forall|s: int, e: int| is_run(dates, mi, s, e) && e < i && e >= start ==> s == start && e == i - 1,
{
    assert forall|s: int, e: int| is_run(dates, mi, s, e) && e < i && e >= start implies s == start && e
        == i - 1 by {
        if s > start {
            assert(linked(dates, mi, s));
        }
        if s < start {
            assert(linked(dates, mi, start));
        }
        if e < i - 1 {
            assert(linked(dates, mi, e + 1));
        }
    }
}

} // verus!

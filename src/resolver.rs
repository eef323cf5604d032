//! Resolution of declared axis sizes: every reference is followed to a fixed
//! or parameterized size, and cycles, dangling references, repeated axes and
//! sizes beyond the machine's range are reported.

use vstd::prelude::*;
use vstd::set_lib::{lemma_int_range, lemma_len_subset, set_int_range};
use crate::axis_size::{
    AnyAxisSize, AxisKey, AxisSizeModel, FixedAxisSize, ParameterizedAxisSize, QualifiedAxisId,
    ResolvedAxisSize, min_extent, shifted,
};

verus! {

/// One declared size: the axis and what its size is declared as.
pub type SizeEntry = (AxisKey, AxisSizeModel);

/// The declared sizes as plain values.
pub open spec fn entries_model(pairs: Seq<(QualifiedAxisId, AnyAxisSize)>) -> Seq<SizeEntry> {
    pairs.map_values(|p: (QualifiedAxisId, AnyAxisSize)| (p.0@, p.1@))
}

/// Whether the axis of entry `j` was already declared by an earlier entry.
pub open spec fn repeats_earlier(es: Seq<SizeEntry>, j: int) -> bool {
    exists|i: int| 0 <= i < j && es[i].0 == es[j].0
}

/// No axis is declared twice.
pub open spec fn keys_unique(es: Seq<SizeEntry>) -> bool {
    forall|i: int, j: int| 0 <= i < es.len() && 0 <= j < es.len() && i != j ==> es[i].0 != es[j].0
}

pub open spec fn has_key(es: Seq<SizeEntry>, k: AxisKey) -> bool {
    exists|j: int| 0 <= j < es.len() && es[j].0 == k
}

/// Entry `i` refers to an axis that no entry declares.
pub open spec fn is_dangling(es: Seq<SizeEntry>, i: int) -> bool {
    match es[i].1 {
        AxisSizeModel::Reference { target, .. } => !has_key(es, target),
        _ => false,
    }
}

pub open spec fn no_dangling(es: Seq<SizeEntry>) -> bool {
    forall|i: int| 0 <= i < es.len() ==> !is_dangling(es, i)
}

/// The entry that declares axis `k`.
pub open spec fn index_of(es: Seq<SizeEntry>, k: AxisKey) -> int {
    choose|j: int| 0 <= j < es.len() && es[j].0 == k
}

/// The entry that entry `i` refers to; a fixed or parameterized entry refers
/// to itself.
pub open spec fn next(es: Seq<SizeEntry>, i: int) -> int {
    match es[i].1 {
        AxisSizeModel::Reference { target, .. } => index_of(es, target),
        _ => i,
    }
}

/// The entry reached from entry `i` after following `k` references.
pub open spec fn chain(es: Seq<SizeEntry>, i: int, k: nat) -> int
    decreases k,
{
    if k == 0 {
        i
    } else {
        next(es, chain(es, i, (k - 1) as nat))
    }
}

pub open spec fn hop_offset(es: Seq<SizeEntry>, i: int) -> nat {
    match es[i].1 {
        AxisSizeModel::Reference { offset, .. } => offset,
        _ => 0,
    }
}

/// The sum of the offsets of the first `k` references followed from entry `i`.
pub open spec fn chain_offset(es: Seq<SizeEntry>, i: int, k: nat) -> nat
    decreases k,
{
    if k == 0 {
        0
    } else {
        chain_offset(es, i, (k - 1) as nat) + hop_offset(es, chain(es, i, (k - 1) as nat))
    }
}

pub open spec fn is_reference(s: AxisSizeModel) -> bool {
    s is Reference
}

/// After `k` references from entry `i`, a fixed or parameterized entry is reached.
pub open spec fn at_base(es: Seq<SizeEntry>, i: int, k: nat) -> bool {
    !is_reference(es[chain(es, i, k)].1)
}

/// Following references from entry `i` ends at a fixed or parameterized size.
pub open spec fn reaches_base(es: Seq<SizeEntry>, i: int) -> bool {
    exists|k: nat| at_base(es, i, k)
}

/// The size of entry `i`: the size at the end of its chain of references,
/// shifted by the sum of their offsets.
pub open spec fn resolved(es: Seq<SizeEntry>, i: int) -> AxisSizeModel {
    let k = choose|k: nat| at_base(es, i, k);
    shifted(es[chain(es, i, k)].1, chain_offset(es, i, k))
}

/// The resolved size of entry `i` does not fit in a `usize`.
pub open spec fn overflows(es: Seq<SizeEntry>, i: int) -> bool {
    min_extent(resolved(es, i)) > usize::MAX
}

/// The chain from entry `i` first meets an entry it already passed after `b`
/// steps.
pub open spec fn first_repeat_at(es: Seq<SizeEntry>, i: int, b: nat) -> bool {
    &&& exists|a: nat| a < b && chain(es, i, a) == chain(es, i, b)
    &&& forall|a: nat, c: nat| a < c < b ==> chain(es, i, a) != chain(es, i, c)
}

/// The cycle that the chain from entry `i` runs into, from the first entry of
/// the cycle that the chain reaches.
pub open spec fn cycle_of(es: Seq<SizeEntry>, i: int) -> Seq<AxisKey> {
    let b = choose|b: nat| first_repeat_at(es, i, b);
    let a = choose|a: nat| a < b && chain(es, i, a) == chain(es, i, b);
    Seq::new((b - a) as nat, |k: int| es[chain(es, i, (a + k) as nat)].0)
}

pub open spec fn is_first_duplicate(es: Seq<SizeEntry>, j: int) -> bool {
    &&& 0 <= j < es.len()
    &&& repeats_earlier(es, j)
    &&& forall|j2: int| 0 <= j2 < j ==> !repeats_earlier(es, j2)
}

pub open spec fn is_first_dangling(es: Seq<SizeEntry>, i: int) -> bool {
    &&& 0 <= i < es.len()
    &&& is_dangling(es, i)
    &&& forall|i2: int| 0 <= i2 < i ==> !is_dangling(es, i2)
}

pub open spec fn is_first_cyclic(es: Seq<SizeEntry>, i: int) -> bool {
    &&& 0 <= i < es.len()
    &&& !reaches_base(es, i)
    &&& forall|i2: int| 0 <= i2 < i ==> reaches_base(es, i2)
}

pub open spec fn is_first_overflow(es: Seq<SizeEntry>, i: int) -> bool {
    &&& 0 <= i < es.len()
    &&& overflows(es, i)
    &&& forall|i2: int| 0 <= i2 < i ==> !overflows(es, i2)
}

pub open spec fn reference_target(s: AxisSizeModel) -> AxisKey {
    match s {
        AxisSizeModel::Reference { target, .. } => target,
        _ => arbitrary(),
    }
}

/// The outcome of resolving a list of declared sizes.
pub enum ResolutionModel {
    Resolved(Map<AxisKey, AxisSizeModel>),
    DuplicateAxisId(AxisKey),
    DanglingReference { referrer: AxisKey, missing_target: AxisKey },
    CyclicReference(Seq<AxisKey>),
    SizeOverflow(AxisKey),
}

/// What resolving the declared sizes `es` gives. Errors are checked in this
/// order, each reported for the first entry in input order that has it:
/// an axis declared twice, a reference to an undeclared axis, a chain of
/// references that runs into a cycle, a size beyond `usize::MAX`.
pub open spec fn resolution(es: Seq<SizeEntry>) -> ResolutionModel {
    if exists|j: int| 0 <= j < es.len() && repeats_earlier(es, j) {
        let j = choose|j: int| is_first_duplicate(es, j);
        ResolutionModel::DuplicateAxisId(es[j].0)
    } else if exists|i: int| 0 <= i < es.len() && is_dangling(es, i) {
        let i = choose|i: int| is_first_dangling(es, i);
        ResolutionModel::DanglingReference {
            referrer: es[i].0,
            missing_target: reference_target(es[i].1),
        }
    } else if exists|i: int| 0 <= i < es.len() && !reaches_base(es, i) {
        let i = choose|i: int| is_first_cyclic(es, i);
        ResolutionModel::CyclicReference(cycle_of(es, i))
    } else if exists|i: int| 0 <= i < es.len() && overflows(es, i) {
        let i = choose|i: int| is_first_overflow(es, i);
        ResolutionModel::SizeOverflow(es[i].0)
    } else {
        ResolutionModel::Resolved(resolved_map(es))
    }
}

/// Each declared axis, mapped to its resolved size.
pub open spec fn resolved_map(es: Seq<SizeEntry>) -> Map<AxisKey, AxisSizeModel> {
    Map::new(|k: AxisKey| has_key(es, k), |k: AxisKey| resolved(es, index_of(es, k)))
}

/// Why a list of declared sizes cannot be resolved.
#[derive(Debug)]
pub enum AxisSizeResolutionError {
    /// The axis is declared more than once.
    DuplicateAxisId { qualified_axis_id: QualifiedAxisId },
    /// `referrer` refers to an axis that has no declared size.
    DanglingReference { referrer: QualifiedAxisId, missing_target: QualifiedAxisId },
    /// Each axis of `cycle` refers to the next, and the last to the first.
    CyclicReference { cycle: Vec<QualifiedAxisId> },
    /// The resolved size of the axis does not fit in a `usize`.
    SizeOverflow { qualified_axis_id: QualifiedAxisId },
}

pub open spec fn keys_of(ids: Seq<QualifiedAxisId>) -> Seq<AxisKey> {
    ids.map_values(|q: QualifiedAxisId| q@)
}

/// The resolved size of each declared axis.
#[derive(Debug)]
pub struct ResolvedSizes {
    entries: Vec<(QualifiedAxisId, ResolvedAxisSize)>,
}

pub open spec fn resolved_entries_model(entries: Seq<(QualifiedAxisId, ResolvedAxisSize)>) -> Seq<
    SizeEntry,
> {
    entries.map_values(|p: (QualifiedAxisId, ResolvedAxisSize)| (p.0@, p.1@))
}

impl ResolvedSizes {
    #[verifier::type_invariant]
    spec fn wf(self) -> bool {
        keys_unique(resolved_entries_model(self.entries@))
    }

    /// The resolved size of the axis `key`, if it has one.
    pub fn get(&self, key: &QualifiedAxisId) -> (r: Option<ResolvedAxisSize>)
        ensures
            r is Some <==> self@.contains_key(key@),
            r matches Some(s) ==> s@ == self@[key@],
    {
        proof {
            use_type_invariant(self);
        }
        let ghost es = resolved_entries_model(self.entries@);
        let mut i: usize = 0;
        while i < self.entries.len()
            invariant
                es == resolved_entries_model(self.entries@),
                keys_unique(es),
                i <= self.entries.len(),
                forall|j: int| 0 <= j < i ==> es[j].0 != key@,
            decreases self.entries.len() - i,
        {
            if self.entries[i].0.same_as(key) {
                proof {
                    assert(es[i as int].0 == key@);
                    assert(has_key(es, key@));
                    let j = index_of(es, key@);
                    assert(j == i);
                }
                return Some(self.entries[i].1);
            }
            i += 1;
        }
        proof {
            assert(!has_key(es, key@));
        }
        None
    }

    /// The number of axes with a resolved size.
    pub fn len(&self) -> (r: usize)
        ensures
            r == self@.dom().len(),
    {
        proof {
            use_type_invariant(self);
            lemma_map_dom_len(resolved_entries_model(self.entries@));
        }
        self.entries.len()
    }
}

impl View for ResolvedSizes {
    type V = Map<AxisKey, AxisSizeModel>;

    closed spec fn view(&self) -> Map<AxisKey, AxisSizeModel> {
        let es = resolved_entries_model(self.entries@);
        Map::new(|k: AxisKey| has_key(es, k), |k: AxisKey| es[index_of(es, k)].1)
    }
}

/// The map built from entries with distinct keys has one key per entry.
proof fn lemma_map_dom_len(es: Seq<SizeEntry>)
    requires
        keys_unique(es),
    ensures
        Set::new(|k: AxisKey| has_key(es, k)).len() == es.len(),
        Set::new(|k: AxisKey| has_key(es, k)).finite(),
{
    let keys = es.map_values(|e: SizeEntry| e.0);
    assert(keys.no_duplicates()) by {
        assert forall|i: int, j: int|
            0 <= i < keys.len() && 0 <= j < keys.len() && i != j implies keys[i] != keys[j] by {
            assert(es[i].0 != es[j].0);
        }
    }
    keys.unique_seq_to_set();
    assert(keys.to_set() =~= Set::new(|k: AxisKey| has_key(es, k))) by {
        assert forall|k: AxisKey| has_key(es, k) implies keys.contains(k) by {
            let j = choose|j: int| 0 <= j < es.len() && es[j].0 == k;
            assert(keys[j] == k);
        }
    }
    vstd::seq_lib::seq_to_set_is_finite(keys);
}


/// The result of `solve` as plain values.
pub open spec fn solve_model(r: Result<ResolvedSizes, AxisSizeResolutionError>) -> ResolutionModel {
    match r {
        Ok(sizes) => ResolutionModel::Resolved(sizes@),
        Err(AxisSizeResolutionError::DuplicateAxisId { qualified_axis_id }) => {
            ResolutionModel::DuplicateAxisId(qualified_axis_id@)
        },
        Err(AxisSizeResolutionError::DanglingReference { referrer, missing_target }) => {
            ResolutionModel::DanglingReference {
                referrer: referrer@,
                missing_target: missing_target@,
            }
        },
        Err(AxisSizeResolutionError::CyclicReference { cycle }) => {
            ResolutionModel::CyclicReference(keys_of(cycle@))
        },
        Err(AxisSizeResolutionError::SizeOverflow { qualified_axis_id }) => {
            ResolutionModel::SizeOverflow(qualified_axis_id@)
        },
    }
}

/// The position of the first of `pairs[..end]` that declares `key`.
fn position_of(pairs: &Vec<(QualifiedAxisId, AnyAxisSize)>, key: &QualifiedAxisId, end: usize) -> (r:
    Option<usize>)
    requires
        end <= pairs.len(),
    ensures
        r matches Some(j) ==> j < end && entries_model(pairs@)[j as int].0 == key@,
        r is None ==> forall|i: int| 0 <= i < end ==> entries_model(pairs@)[i].0 != key@,
{
    let ghost es = entries_model(pairs@);
    let mut i: usize = 0;
    while i < end
        invariant
            es == entries_model(pairs@),
            i <= end <= pairs.len(),
            forall|j: int| 0 <= j < i ==> es[j].0 != key@,
        decreases end - i,
    {
        if pairs[i].0.same_as(key) {
            return Some(i);
        }
        i += 1;
    }
    None
}

/// The first entry whose axis an earlier entry already declares.
fn first_duplicate(pairs: &Vec<(QualifiedAxisId, AnyAxisSize)>) -> (r: Option<usize>)
    ensures
        r matches Some(j) ==> is_first_duplicate(entries_model(pairs@), j as int),
        r is None ==> keys_unique(entries_model(pairs@)),
{
    let ghost es = entries_model(pairs@);
    let mut j: usize = 0;
    while j < pairs.len()
        invariant
            es == entries_model(pairs@),
            j <= pairs.len(),
            forall|j2: int| 0 <= j2 < j ==> !repeats_earlier(es, j2),
        decreases pairs.len() - j,
    {
        if let Some(_) = position_of(pairs, &pairs[j].0, j) {
            return Some(j);
        }
        j += 1;
    }
    proof {
        assert forall|a: int, b: int|
            0 <= a < es.len() && 0 <= b < es.len() && a != b implies es[a].0 != es[b].0 by {
            if a < b {
                assert(!repeats_earlier(es, b));
            } else {
                assert(!repeats_earlier(es, a));
            }
        }
    }
    None
}

/// For each entry, the entry it refers to (itself if it refers to none); or
/// the first entry that refers to an undeclared axis, with that axis.
fn link(pairs: &Vec<(QualifiedAxisId, AnyAxisSize)>) -> (r: Result<Vec<usize>, (usize, QualifiedAxisId)>)
    requires
        keys_unique(entries_model(pairs@)),
    ensures
        r matches Ok(t) ==> {
            &&& t.len() == pairs.len()
            &&& no_dangling(entries_model(pairs@))
            &&& forall|i: int| 0 <= i < t.len() ==> t[i] == next(entries_model(pairs@), i)
        },
        r matches Err((i, missing)) ==> is_first_dangling(entries_model(pairs@), i as int)
            && missing@ == reference_target(entries_model(pairs@)[i as int].1),
{
    let ghost es = entries_model(pairs@);
    let mut targets: Vec<usize> = Vec::new();
    let mut i: usize = 0;
    while i < pairs.len()
        invariant
            es == entries_model(pairs@),
            keys_unique(es),
            i <= pairs.len(),
            targets.len() == i,
            forall|j: int| 0 <= j < i ==> !is_dangling(es, j),
            forall|j: int| 0 <= j < i ==> targets[j] == next(es, j),
        decreases pairs.len() - i,
    {
        match &pairs[i].1 {
            AnyAxisSize::Reference(reference) => {
                match position_of(pairs, &reference.qualified_axis_id, pairs.len()) {
                    Some(j) => {
                        proof {
                            let target = reference.qualified_axis_id@;
                            assert(es[j as int].0 == target);
                            assert(has_key(es, target));
                            let k = index_of(es, target);
                            assert(es[k].0 == target);
                            assert(k == j);
                        }
                        targets.push(j);
                    },
                    None => {
                        proof {
                            assert(!has_key(es, reference.qualified_axis_id@));
                        }
                        return Err((i, reference.qualified_axis_id.clone()));
                    },
                }
            },
            _ => {
                targets.push(i);
            },
        }
        i += 1;
    }
    Ok(targets)
}

/// With no dangling reference, following references never leaves the list.
proof fn lemma_chain_in_range(es: Seq<SizeEntry>, i: int, k: nat)
    requires
        no_dangling(es),
        0 <= i < es.len(),
    ensures
        0 <= chain(es, i, k) < es.len(),
    decreases k,
{
    if k > 0 {
        lemma_chain_in_range(es, i, (k - 1) as nat);
        let p = chain(es, i, (k - 1) as nat);
        assert(!is_dangling(es, p));
        if let AxisSizeModel::Reference { target, .. } = es[p].1 {
            assert(has_key(es, target));
        }
    }
}

/// Once a fixed or parameterized entry is reached, the chain stays there and
/// collects no more offset.
proof fn lemma_stays_at_base(es: Seq<SizeEntry>, i: int, k0: nat, k: nat)
    requires
        at_base(es, i, k0),
        k0 <= k,
    ensures
        chain(es, i, k) == chain(es, i, k0),
        chain_offset(es, i, k) == chain_offset(es, i, k0),
    decreases k,
{
    if k > k0 {
        lemma_stays_at_base(es, i, k0, (k - 1) as nat);
    }
}

/// The size of entry `i`, read off the first base entry of its chain.
proof fn lemma_resolved_at(es: Seq<SizeEntry>, i: int, k0: nat)
    requires
        at_base(es, i, k0),
        forall|k: nat| k < k0 ==> !at_base(es, i, k),
    ensures
        reaches_base(es, i),
        resolved(es, i) == shifted(es[chain(es, i, k0)].1, chain_offset(es, i, k0)),
{
    let k = choose|k: nat| at_base(es, i, k);
    assert(k >= k0);
    lemma_stays_at_base(es, i, k0, k);
}

/// A chain that meets an entry again repeats itself from there on.
proof fn lemma_periodic(es: Seq<SizeEntry>, i: int, a: nat, b: nat, m: nat)
    requires
        a < b,
        chain(es, i, a) == chain(es, i, b),
        a <= m,
    ensures
        chain(es, i, m + (b - a) as nat) == chain(es, i, m),
    decreases m - a,
{
    if m > a {
        lemma_periodic(es, i, a, b, (m - 1) as nat);
        assert(chain(es, i, m + (b - a) as nat) == next(es, chain(es, i, (m - 1 + (b - a)) as nat)));
    }
}

/// A chain that meets an entry again, passing only references on the way,
/// never reaches a fixed or parameterized entry.
proof fn lemma_never_at_base(es: Seq<SizeEntry>, i: int, a: nat, b: nat, k: nat)
    requires
        a < b,
        chain(es, i, a) == chain(es, i, b),
        forall|j: nat| j < b ==> is_reference(es[chain(es, i, j)].1),
    ensures
        !at_base(es, i, k),
    decreases k,
{
    if k >= b {
        let p = (b - a) as nat;
        lemma_periodic(es, i, a, b, (k - p) as nat);
        lemma_never_at_base(es, i, a, b, (k - p) as nat);
    }
}

/// Distinct integers in `[0, n)` number at most `n`.
proof fn lemma_distinct_ints_below(ints: Seq<int>, n: nat)
    requires
        ints.no_duplicates(),
        forall|k: int| 0 <= k < ints.len() ==> 0 <= #[trigger] ints[k] < n,
    ensures
        ints.len() <= n,
{
    ints.unique_seq_to_set();
    lemma_int_range(0, n as int);
    assert(ints.to_set().subset_of(set_int_range(0, n as int))) by {
        assert forall|x: int| ints.to_set().contains(x) implies set_int_range(0, n as int).contains(
            x,
        ) by {
            let k = choose|k: int| 0 <= k < ints.len() && ints[k] == x;
        }
    }
    lemma_len_subset(ints.to_set(), set_int_range(0, n as int));
}

/// Distinct indices below `n` number at most `n`.
proof fn lemma_distinct_below(path: Seq<usize>, n: nat)
    requires
        path.no_duplicates(),
        forall|k: int| 0 <= k < path.len() ==> path[k] < n,
    ensures
        path.len() <= n,
{
    let ints = path.map_values(|x: usize| x as int);
    assert(ints.no_duplicates()) by {
        assert forall|p: int, q: int|
            0 <= p < ints.len() && 0 <= q < ints.len() && p != q implies ints[p] != ints[q] by {
            assert(path[p] != path[q]);
        }
    }
    lemma_distinct_ints_below(ints, n);
}

/// Where following references from one entry ends.
enum ChainEnd {
    /// At the fixed or parameterized entry `base`, with the sum of the offsets
    /// on the way (`None` where it exceeds `usize::MAX`).
    Base { base: usize, offset: Option<usize>, total: Ghost<nat> },
    /// In a cycle: `path` lists the entries passed, and the entry after the
    /// last one is `path[start]`.
    Cycle { path: Vec<usize>, start: usize },
}

/// Follows references from entry `i`.
fn follow(pairs: &Vec<(QualifiedAxisId, AnyAxisSize)>, targets: &Vec<usize>, i: usize) -> (r: ChainEnd)
    requires
        keys_unique(entries_model(pairs@)),
        no_dangling(entries_model(pairs@)),
        targets.len() == pairs.len(),
        forall|j: int| 0 <= j < targets.len() ==> targets[j] == next(entries_model(pairs@), j),
        i < pairs.len(),
    ensures
        r matches ChainEnd::Base { base, offset, total } ==> {
            &&& base < pairs.len()
            &&& reaches_base(entries_model(pairs@), i as int)
            &&& !is_reference(entries_model(pairs@)[base as int].1)
            &&& resolved(entries_model(pairs@), i as int) == shifted(
                entries_model(pairs@)[base as int].1,
                total@,
            )
            &&& offset matches Some(o) ==> o == total@
            &&& offset is None ==> total@ > usize::MAX
        },
        r matches ChainEnd::Cycle { path, start } ==> {
            &&& !reaches_base(entries_model(pairs@), i as int)
            &&& start < path.len()
            &&& forall|k: int| 0 <= k < path.len() ==> path[k] < pairs.len()
            &&& first_repeat_at(entries_model(pairs@), i as int, path.len() as nat)
            &&& chain(entries_model(pairs@), i as int, start as nat) == chain(
                entries_model(pairs@),
                i as int,
                path.len() as nat,
            )
            &&& forall|k: int| 0 <= k < path.len() ==> path[k] == chain(entries_model(pairs@), i as int, k as nat)
        },
{
    let ghost es = entries_model(pairs@);
    let mut path: Vec<usize> = Vec::new();
    path.push(i);
    let mut cur: usize = i;
    let mut offset: Option<usize> = Some(0);
    let ghost mut total: nat = 0;
    loop
        invariant
            es == entries_model(pairs@),
            keys_unique(es),
            no_dangling(es),
            targets.len() == pairs.len(),
            forall|j: int| 0 <= j < targets.len() ==> targets[j] == next(es, j),
            i < pairs.len(),
            path.len() >= 1,
            cur == path[path.len() - 1],
            forall|k: int| 0 <= k < path.len() ==> path[k] == chain(es, i as int, k as nat),
            forall|k: int| 0 <= k < path.len() ==> path[k] < pairs.len(),
            path@.no_duplicates(),
            forall|k: nat| k < path.len() - 1 ==> is_reference(es[chain(es, i as int, k)].1),
            total == chain_offset(es, i as int, (path.len() - 1) as nat),
            offset matches Some(o) ==> o == total,
            offset is None ==> total > usize::MAX,
        decreases pairs.len() - path.len(),
    {
        let ghost steps = (path.len() - 1) as nat;
        let hop = match &pairs[cur].1 {
            AnyAxisSize::Reference(reference) => reference.offset,
            _ => {
                proof {
                    assert forall|k: nat| k < steps implies !at_base(es, i as int, k) by {}
                    lemma_resolved_at(es, i as int, steps);
                }
                return ChainEnd::Base { base: cur, offset, total: Ghost(total) };
            },
        };
        let nxt = targets[cur];
        proof {
            total = total + hop as nat;
            assert(chain(es, i as int, steps + 1) == nxt);
        }
        offset = match offset {
            Some(o) => o.checked_add(hop),
            None => None,
        };
        let found = find_index(&path, nxt);
        proof {
            lemma_chain_in_range(es, i as int, steps + 1);
        }
        if let Some(a) = found {
            proof {
                let b = path.len() as nat;
                assert(chain(es, i as int, a as nat) == chain(es, i as int, b));
                assert forall|j: nat| j < b implies is_reference(es[chain(es, i as int, j)].1) by {}
                assert forall|k: nat| !at_base(es, i as int, k) by {
                    lemma_never_at_base(es, i as int, a as nat, b, k);
                }
                assert forall|x: nat, c: nat| x < c < b implies chain(es, i as int, x) != chain(
                    es,
                    i as int,
                    c,
                ) by {
                    assert(path[x as int] != path[c as int]);
                }
            }
            return ChainEnd::Cycle { path, start: a };
        }
        proof {
            lemma_distinct_below(path@, pairs.len() as nat);
            let extended = path@.push(nxt);
            assert(extended.no_duplicates());
            lemma_distinct_below(extended, pairs.len() as nat);
        }
        path.push(nxt);
        cur = nxt;
    }
}

/// The first position of `x` in `path`.
fn find_index(path: &Vec<usize>, x: usize) -> (r: Option<usize>)
    ensures
        r matches Some(a) ==> a < path.len() && path[a as int] == x,
        r is None ==> forall|k: int| 0 <= k < path.len() ==> path[k] != x,
{
    let mut a: usize = 0;
    while a < path.len()
        invariant
            0 <= a <= path.len(),
            forall|k: int| 0 <= k < a ==> path[k] != x,
        decreases path.len() - a,
    {
        if path[a] == x {
            return Some(a);
        }
        a += 1;
    }
    None
}

/// The keys of `path[start..]`.
fn cycle_keys(pairs: &Vec<(QualifiedAxisId, AnyAxisSize)>, path: &Vec<usize>, start: usize) -> (r: Vec<
    QualifiedAxisId,
>)
    requires
        start <= path.len(),
        forall|k: int| 0 <= k < path.len() ==> path[k] < pairs.len(),
    ensures
        keys_of(r@) == Seq::new(
            (path.len() - start) as nat,
            |k: int| entries_model(pairs@)[path[start + k] as int].0,
        ),
{
    let ghost es = entries_model(pairs@);
    let mut out: Vec<QualifiedAxisId> = Vec::new();
    let mut k: usize = start;
    while k < path.len()
        invariant
            es == entries_model(pairs@),
            start <= k <= path.len(),
            out.len() == k - start,
            forall|m: int| 0 <= m < path.len() ==> path[m] < pairs.len(),
            keys_of(out@) == Seq::new((k - start) as nat, |m: int| es[path[start + m] as int].0),
        decreases path.len() - k,
    {
        let ghost before = out@;
        let q = pairs[path[k]].0.clone();
        out.push(q);
        proof {
            assert(out@ == before.push(q));
            assert(es[path[k as int] as int].0 == q@);
            assert forall|m: int| 0 <= m < k + 1 - start implies keys_of(out@)[m] == es[path[start
                + m] as int].0 by {
                if m < k - start {
                    assert(keys_of(before)[m] == es[path[start + m] as int].0);
                    assert(out@[m] == before[m]);
                }
            }
        }
        k += 1;
        proof {
            assert(keys_of(out@) =~= Seq::new((k - start) as nat, |m: int| es[path[start + m] as int].0));
        }
    }
    out
}

/// The fixed or parameterized size `size`, made `offset` larger; `None` where
/// the result does not fit in a `usize`.
fn shift_size(size: &AnyAxisSize, offset: usize) -> (r: Option<ResolvedAxisSize>)
    requires
        !is_reference(size@),
    ensures
        r matches Some(s) ==> s@ == shifted(size@, offset as nat),
        r is None <==> min_extent(shifted(size@, offset as nat)) > usize::MAX,
{
    match size {
        AnyAxisSize::Fixed(n) => {
            match n.get().checked_add(offset) {
                Some(v) => match FixedAxisSize::new(v) {
                    Some(extent) => Some(ResolvedAxisSize::Fixed(extent)),
                    None => None,
                },
                None => None,
            }
        },
        AnyAxisSize::Parameterized(p) => {
            match p.min.get().checked_add(offset) {
                Some(v) => match FixedAxisSize::new(v) {
                    Some(min) => Some(
                        ResolvedAxisSize::Parameterized(ParameterizedAxisSize { min, step: p.step }),
                    ),
                    None => None,
                },
                None => None,
            }
        },
        AnyAxisSize::Reference(_) => None,
    }
}

/// The two choices in `cycle_of` are the repeat that `follow` found.
proof fn lemma_cycle_of(es: Seq<SizeEntry>, i: int, a: nat, b: nat)
    requires
        a < b,
        first_repeat_at(es, i, b),
        chain(es, i, a) == chain(es, i, b),
    ensures
        cycle_of(es, i) == Seq::new((b - a) as nat, |k: int| es[chain(es, i, (a + k) as nat)].0),
{
    let b2 = choose|b2: nat| first_repeat_at(es, i, b2);
    assert(first_repeat_at(es, i, b2));
    if b2 < b {
        let a2 = choose|a2: nat| a2 < b2 && chain(es, i, a2) == chain(es, i, b2);
        assert(chain(es, i, a2) != chain(es, i, b2));
    } else if b < b2 {
        assert(chain(es, i, a) != chain(es, i, b));
    }
    let a2 = choose|a2: nat| a2 < b && chain(es, i, a2) == chain(es, i, b);
    if a2 < a {
        assert(chain(es, i, a2) != chain(es, i, a));
    } else if a < a2 {
        assert(chain(es, i, a) != chain(es, i, a2));
    }
}

/// Resolves the declared sizes `pairs`: each axis gets the size at the end of
/// its chain of references, made larger by the offsets along the chain.
/// Fails on the first axis (in input order) that is declared twice, then on
/// the first reference to an undeclared axis, then on the first axis whose
/// references run into a cycle, then on the first size beyond `usize::MAX`.
pub fn solve(pairs: &Vec<(QualifiedAxisId, AnyAxisSize)>) -> (r: Result<
    ResolvedSizes,
    AxisSizeResolutionError,
>)
    ensures
        solve_model(r) == resolution(entries_model(pairs@)),
{
    let ghost es = entries_model(pairs@);
    if let Some(j) = first_duplicate(pairs) {
        proof {
            assert(repeats_earlier(es, j as int));
            let j2 = choose|j2: int| is_first_duplicate(es, j2);
            assert(is_first_duplicate(es, j2));
            assert(j2 == j);
        }
        return Err(AxisSizeResolutionError::DuplicateAxisId { qualified_axis_id: pairs[j].0.clone() });
    }
    proof {
        assert forall|j: int| 0 <= j < es.len() implies !repeats_earlier(es, j) by {
            if repeats_earlier(es, j) {
                let i = choose|i: int| 0 <= i < j && es[i].0 == es[j].0;
                assert(es[i].0 != es[j].0);
            }
        }
    }
    let targets = match link(pairs) {
        Ok(t) => t,
        Err((i, missing_target)) => {
            proof {
                assert(is_dangling(es, i as int));
                let i2 = choose|i2: int| is_first_dangling(es, i2);
                assert(is_first_dangling(es, i2));
                assert(i2 == i);
            }
            return Err(
                AxisSizeResolutionError::DanglingReference {
                    referrer: pairs[i].0.clone(),
                    missing_target,
                },
            );
        },
    };
    let mut ends: Vec<(usize, Option<usize>)> = Vec::new();
    let ghost mut totals: Seq<nat> = Seq::empty();
    let mut i: usize = 0;
    while i < pairs.len()
        invariant
            es == entries_model(pairs@),
            keys_unique(es),
            no_dangling(es),
            forall|j: int| 0 <= j < es.len() ==> !repeats_earlier(es, j),
            targets.len() == pairs.len(),
            forall|j: int| 0 <= j < targets.len() ==> targets[j] == next(es, j),
            i <= pairs.len(),
            ends.len() == i,
            totals.len() == i,
            forall|j: int|
                #![trigger ends@[j]]
                0 <= j < i ==> {
                    &&& ends[j].0 < pairs.len()
                    &&& reaches_base(es, j)
                    &&& !is_reference(es[ends[j].0 as int].1)
                    &&& resolved(es, j) == shifted(es[ends[j].0 as int].1, totals[j])
                    &&& ends[j].1 matches Some(o) ==> o == totals[j]
                    &&& ends[j].1 is None ==> totals[j] > usize::MAX
                },
        decreases pairs.len() - i,
    {
        match follow(pairs, &targets, i) {
            ChainEnd::Base { base, offset, total } => {
                ends.push((base, offset));
                proof {
                    totals = totals.push(total@);
                }
            },
            ChainEnd::Cycle { path, start } => {
                let cycle = cycle_keys(pairs, &path, start);
                proof {
                    let b = path.len() as nat;
                    lemma_cycle_of(es, i as int, start as nat, b);
                    assert(keys_of(cycle@) =~= cycle_of(es, i as int));
                    assert forall|j: int| 0 <= j < i implies reaches_base(es, j) by {
                        assert(ends@[j].0 < pairs.len());
                    }
                    let i2 = choose|i2: int| is_first_cyclic(es, i2);
                    assert(is_first_cyclic(es, i as int));
                    assert(is_first_cyclic(es, i2));
                    assert(i2 == i);
                }
                return Err(AxisSizeResolutionError::CyclicReference { cycle });
            },
        }
        i += 1;
    }
    let mut entries: Vec<(QualifiedAxisId, ResolvedAxisSize)> = Vec::new();
    let mut i: usize = 0;
    while i < pairs.len()
        invariant
            es == entries_model(pairs@),
            keys_unique(es),
            no_dangling(es),
            forall|j: int| 0 <= j < es.len() ==> !repeats_earlier(es, j),
            ends.len() == pairs.len(),
            totals.len() == pairs.len(),
            forall|j: int|
                #![trigger ends@[j]]
                0 <= j < pairs.len() ==> {
                    &&& ends[j].0 < pairs.len()
                    &&& reaches_base(es, j)
                    &&& !is_reference(es[ends[j].0 as int].1)
                    &&& resolved(es, j) == shifted(es[ends[j].0 as int].1, totals[j])
                    &&& ends[j].1 matches Some(o) ==> o == totals[j]
                    &&& ends[j].1 is None ==> totals[j] > usize::MAX
                },
            i <= pairs.len(),
            entries.len() == i,
            forall|j: int| 0 <= j < i ==> !overflows(es, j),
            forall|j: int|
                #![trigger entries@[j]]
                0 <= j < i ==> entries[j].0@ == es[j].0 && entries[j].1@ == resolved(es, j),
        decreases pairs.len() - i,
    {
        let (base, offset) = ends[i];
        proof {
            assert(base == ends@[i as int].0 && offset == ends@[i as int].1);
            assert(es[base as int].1 == pairs@[base as int].1@);
        }
        let size = match offset {
            Some(o) => shift_size(&pairs[base].1, o),
            None => None,
        };
        match size {
            Some(s) => {
                entries.push((pairs[i].0.clone(), s));
            },
            None => {
                proof {
                    assert(overflows(es, i as int));
                    let i2 = choose|i2: int| is_first_overflow(es, i2);
                    assert(is_first_overflow(es, i as int));
                    assert(is_first_overflow(es, i2));
                    assert(i2 == i);
                    assert forall|j: int| 0 <= j < es.len() implies reaches_base(es, j) by {
                        assert(ends@[j].0 < pairs.len());
                    }
                }
                return Err(
                    AxisSizeResolutionError::SizeOverflow { qualified_axis_id: pairs[i].0.clone() },
                );
            },
        }
        i += 1;
    }
    let ghost rs = resolved_entries_model(entries@);
    proof {
        assert(rs.len() == es.len());
        assert forall|j: int| 0 <= j < es.len() implies rs[j].0 == es[j].0 && rs[j].1 == resolved(
            es,
            j,
        ) by {}
        assert forall|a: int, b: int|
            0 <= a < rs.len() && 0 <= b < rs.len() && a != b implies rs[a].0 != rs[b].0 by {
            assert(rs[a].0 == es[a].0);
            assert(rs[b].0 == es[b].0);
        }
        assert forall|j: int| 0 <= j < es.len() implies reaches_base(es, j) by {
            assert(ends@[j].0 < pairs.len());
        }
        assert forall|j: int| 0 <= j < es.len() implies !overflows(es, j) by {}
    }
    let sizes = ResolvedSizes { entries };
    proof {
        assert forall|k: AxisKey| has_key(es, k) implies index_of(rs, k) == index_of(es, k) by {
            let j = index_of(es, k);
            assert(0 <= j < es.len() && es[j].0 == k);
            assert(rs[j].0 == k);
            assert(has_key(rs, k));
            let j2 = index_of(rs, k);
            assert(es[j2].0 == k);
        }
        assert forall|k: AxisKey| has_key(rs, k) implies has_key(es, k) by {
            let j = choose|j: int| 0 <= j < rs.len() && rs[j].0 == k;
            assert(es[j].0 == k);
        }
        assert forall|k: AxisKey| has_key(es, k) implies sizes@[k] == resolved_map(es)[k] by {
            let j = index_of(es, k);
            assert(0 <= j < es.len() && es[j].0 == k);
            assert(rs[j].1 == resolved(es, j));
        }
        assert(sizes@ =~= resolved_map(es));
    }
    Ok(sizes)
}

/// Following `a` references and then `m` more is following `a + m`.
proof fn lemma_chain_compose(es: Seq<SizeEntry>, i: int, a: nat, m: nat)
    ensures
        chain(es, chain(es, i, a), m) == chain(es, i, a + m),
    decreases m,
{
    if m > 0 {
        lemma_chain_compose(es, i, a, (m - 1) as nat);
        assert(chain(es, i, a + m) == next(es, chain(es, i, (a + m - 1) as nat)));
    }
}

/// No reference leads back to itself, however many references are followed.
pub open spec fn acyclic(es: Seq<SizeEntry>) -> bool {
    forall|x: int, p: nat|
        0 <= x < es.len() && p > 0 && is_reference(es[x].1) ==> chain(es, x, p) != x
}

/// The set of declared axes.
pub open spec fn declared_keys(es: Seq<SizeEntry>) -> Set<AxisKey> {
    Set::new(|k: AxisKey| has_key(es, k))
}

/// In a reference graph without cycles, every chain of references ends at a
/// fixed or parameterized size.
pub proof fn lemma_acyclic_reaches_base(es: Seq<SizeEntry>, i: int)
    requires
        keys_unique(es),
        no_dangling(es),
        acyclic(es),
        0 <= i < es.len(),
    ensures
        reaches_base(es, i),
{
    if !reaches_base(es, i) {
        let n = es.len();
        let nodes = Seq::new((n + 1) as nat, |k: int| chain(es, i, k as nat));
        assert forall|k: int| 0 <= k < nodes.len() implies 0 <= #[trigger] nodes[k] < n by {
            lemma_chain_in_range(es, i, k as nat);
        }
        if nodes.no_duplicates() {
            lemma_distinct_ints_below(nodes, n as nat);
        }
        let (a, b) = choose|a: int, b: int|
            0 <= a < nodes.len() && 0 <= b < nodes.len() && a != b && nodes[a] == nodes[b];
        let (lo, hi) = if a < b {
            (a as nat, b as nat)
        } else {
            (b as nat, a as nat)
        };
        let x = chain(es, i, lo);
        lemma_chain_in_range(es, i, lo);
        assert(!at_base(es, i, lo));
        lemma_chain_compose(es, i, lo, (hi - lo) as nat);
        assert(chain(es, x, (hi - lo) as nat) == x);
    }
}

/// Resolution succeeds on every list of distinct axes whose references all
/// name a declared axis, form no cycle and give sizes that fit in a `usize`;
/// the resolved map has exactly the declared axes as keys.
pub proof fn lemma_acyclic_resolves(es: Seq<SizeEntry>)
    requires
        keys_unique(es),
        no_dangling(es),
        acyclic(es),
        forall|i: int| 0 <= i < es.len() ==> !overflows(es, i),
    ensures
        resolution(es) matches ResolutionModel::Resolved(m) && m.dom() == declared_keys(es),
{
    assert forall|j: int| 0 <= j < es.len() implies !repeats_earlier(es, j) by {
        if repeats_earlier(es, j) {
            let i = choose|i: int| 0 <= i < j && es[i].0 == es[j].0;
            assert(es[i].0 != es[j].0);
        }
    }
    assert forall|i: int| 0 <= i < es.len() implies reaches_base(es, i) by {
        lemma_acyclic_reaches_base(es, i);
    }
    assert(resolved_map(es).dom() =~= declared_keys(es));
}

/// Two steps at which the chain from `i` stands at a fixed or parameterized
/// entry give the same entry and the same sum of offsets.
proof fn lemma_base_unique(es: Seq<SizeEntry>, i: int, k1: nat, k2: nat)
    requires
        at_base(es, i, k1),
        at_base(es, i, k2),
    ensures
        chain(es, i, k1) == chain(es, i, k2),
        chain_offset(es, i, k1) == chain_offset(es, i, k2),
{
    if k1 <= k2 {
        lemma_stays_at_base(es, i, k1, k2);
    } else {
        lemma_stays_at_base(es, i, k2, k1);
    }
}

/// Along a chain of references from entry `i` that ends at a fixed or
/// parameterized entry after `k` steps, the resolved size's least extent is the
/// end's fixed extent or `min` plus the sum of the offsets on the way; a
/// fixed end gives a fixed size, and a parameterized end keeps its step.
pub proof fn lemma_chain_offsets_add_up(es: Seq<SizeEntry>, i: int, k: nat)
    requires
        0 <= i < es.len(),
        at_base(es, i, k),
        resolution(es) is Resolved,
    ensures
        resolution(es) matches ResolutionModel::Resolved(m) && {
            let base = es[chain(es, i, k)].1;
            let size = m[es[i].0];
            &&& m.contains_key(es[i].0)
            &&& min_extent(size) == min_extent(base) + chain_offset(es, i, k)
            &&& base is Fixed ==> size is Fixed
            &&& base matches AxisSizeModel::Parameterized { step, .. } ==> size
                matches AxisSizeModel::Parameterized { step: s, .. } && s == step
        },
{
    let k2 = choose|k2: nat| at_base(es, i, k2);
    lemma_base_unique(es, i, k, k2);
    assert(has_key(es, es[i].0));
    assert(!repeats_earlier(es, i));
    let j = index_of(es, es[i].0);
    if j != i {
        if j < i {
            assert(repeats_earlier(es, i));
        } else {
            assert(repeats_earlier(es, j));
        }
    }
}

/// An axis whose references lead back to itself, after any number of steps,
/// makes resolution fail with a cycle (once no axis is declared twice and no
/// reference is dangling).
pub proof fn lemma_self_reference_is_cyclic(es: Seq<SizeEntry>, i: int, p: nat)
    requires
        keys_unique(es),
        no_dangling(es),
        0 <= i < es.len(),
        is_reference(es[i].1),
        p > 0,
        chain(es, i, p) == i,
    ensures
        resolution(es) is CyclicReference,
{
    assert forall|j: int| 0 <= j < es.len() implies !repeats_earlier(es, j) by {
        if repeats_earlier(es, j) {
            let x = choose|x: int| 0 <= x < j && es[x].0 == es[j].0;
            assert(es[x].0 != es[j].0);
        }
    }
    assert forall|j: nat| j < p implies is_reference(es[chain(es, i, j)].1) by {
        if !is_reference(es[chain(es, i, j)].1) {
            lemma_stays_at_base(es, i, j, p);
        }
    }
    assert(!reaches_base(es, i)) by {
        assert forall|k: nat| !at_base(es, i, k) by {
            lemma_never_at_base(es, i, 0, p, k);
        }
    }
}

/// A reference to an axis that is not declared makes resolution fail with a
/// dangling reference that names the referring axis and the missing one (the
/// first such reference in input order, once no axis is declared twice).
pub proof fn lemma_dangling_reported(es: Seq<SizeEntry>, i: int)
    requires
        keys_unique(es),
        0 <= i < es.len(),
        is_dangling(es, i),
    ensures
        resolution(es) matches ResolutionModel::DanglingReference { referrer, missing_target }
            && exists|j: int|
            0 <= j <= i && is_first_dangling(es, j) && referrer == es[j].0 && missing_target
                == reference_target(es[j].1) && !has_key(es, missing_target),
{
    assert forall|j: int| 0 <= j < es.len() implies !repeats_earlier(es, j) by {
        if repeats_earlier(es, j) {
            let x = choose|x: int| 0 <= x < j && es[x].0 == es[j].0;
            assert(es[x].0 != es[j].0);
        }
    }
    lemma_first_dangling_exists(es, i);
}

/// Where some entry is dangling, a first dangling entry exists.
proof fn lemma_first_dangling_exists(es: Seq<SizeEntry>, i: int)
    requires
        0 <= i < es.len(),
        is_dangling(es, i),
    ensures
        exists|j: int| 0 <= j <= i && is_first_dangling(es, j),
    decreases i,
{
    if exists|j: int| 0 <= j < i && is_dangling(es, j) {
        let j = choose|j: int| 0 <= j < i && is_dangling(es, j);
        lemma_first_dangling_exists(es, j);
    } else {
        assert(is_first_dangling(es, i));
    }
}

} // verus!

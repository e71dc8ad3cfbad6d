//! The performance analyzer: an observer that is told of executions and
//! answers which code offsets are hot. It compiles nothing and changes no
//! run.
use vstd::prelude::*;
use crate::shared::number;

verus! {

/// A point in time, as `std::time::Instant` holds it.
#[verifier::external_type_specification]
#[verifier::external_body]
pub struct ExInstant(std::time::Instant);

/// `std::time::Instant::now` is the present moment; nothing is known of it.
pub assume_specification[ std::time::Instant::now ]() -> (now: std::time::Instant)
;

/// What is recorded of one code offset. Times are in nanoseconds.
#[derive(Debug, Clone, Copy)]
pub struct HotSpot {
    pub offset: usize,
    pub execution_count: u64,
    pub total_time: u128,
    pub average_time: u128,
    pub last_executed: std::time::Instant,
}

/// What is recorded of one compiled function. The time is in nanoseconds,
/// the speedup factor a double as its bits.
#[derive(Debug, Clone, Copy)]
pub struct CompiledFunction {
    pub offset: usize,
    pub native_address: usize,
    pub compilation_time: u128,
    pub speedup_factor: u64,
}

/// The figures of an analyzer. The mean of `speedup_factors` is the
/// average speedup; it is 1 where there are none.
#[derive(Debug, Clone)]
pub struct AnalysisStatistics {
    pub total_hotspots: usize,
    pub hot_count: usize,
    pub compiled_count: usize,
    pub total_executions: u64,
    pub speedup_factors: Vec<u64>,
    pub jit_threshold: u64,
}

/// The hot spots by code offset: a `hashbrown::HashMap`.
#[verifier::external_body]
pub struct HotSpotTable {
    table: hashbrown::HashMap<usize, HotSpot>,
}

/// What a [`HotSpotTable`] holds.
pub uninterp spec fn hotspot_entries(table: HotSpotTable) -> Map<usize, HotSpot>;

impl View for HotSpotTable {
    type V = Map<usize, HotSpot>;

    open spec fn view(&self) -> Map<usize, HotSpot> {
        hotspot_entries(*self)
    }
}

impl HotSpotTable {
    /// `hashbrown::HashMap::new`: a map that holds nothing.
    #[verifier::external_body]
    fn new() -> (table: HotSpotTable)
        ensures
            hotspot_entries(table) == (Map::<usize, HotSpot>::empty()),
    {
        HotSpotTable { table: hashbrown::HashMap::new() }
    }

    /// `hashbrown::HashMap::insert`: afterwards the map holds `spot` under
    /// `offset`, and everything else as before.
    #[verifier::external_body]
    fn insert(&mut self, offset: usize, spot: HotSpot)
        ensures
            hotspot_entries(*final(self)) == hotspot_entries(*old(self)).insert(offset, spot),
    {
        self.table.insert(offset, spot);
    }

    /// `hashbrown::HashMap::get`: what the map holds under `offset`, if it
    /// holds anything there.
    #[verifier::external_body]
    fn get(&self, offset: usize) -> (found: Option<&HotSpot>)
        ensures
            found is Some == hotspot_entries(*self).contains_key(offset),
            found matches Some(spot) ==> *spot == hotspot_entries(*self)[offset],
    {
        self.table.get(&offset)
    }

    /// `hashbrown::HashMap::clear`: afterwards the map holds nothing.
    #[verifier::external_body]
    fn clear(&mut self)
        ensures
            hotspot_entries(*final(self)) == (Map::<usize, HotSpot>::empty()),
    {
        self.table.clear();
    }

    /// `hashbrown::HashMap::keys`: every offset that the map holds, each
    /// once, in an order that is not fixed.
    #[verifier::external_body]
    fn keys(&self) -> (offsets: Vec<usize>)
        ensures
            offsets@.no_duplicates(),
            forall|offset: usize| offsets@.contains(offset) <==> hotspot_entries(*self).contains_key(offset),
    {
        self.table.keys().copied().collect()
    }
}

/// The compiled functions by code offset: a `hashbrown::HashMap`.
#[verifier::external_body]
pub struct CompiledTable {
    table: hashbrown::HashMap<usize, CompiledFunction>,
}

/// What a [`CompiledTable`] holds.
pub uninterp spec fn compiled_entries(table: CompiledTable) -> Map<usize, CompiledFunction>;

impl View for CompiledTable {
    type V = Map<usize, CompiledFunction>;

    open spec fn view(&self) -> Map<usize, CompiledFunction> {
        compiled_entries(*self)
    }
}

impl CompiledTable {
    /// `hashbrown::HashMap::new`: a map that holds nothing.
    #[verifier::external_body]
    fn new() -> (table: CompiledTable)
        ensures
            compiled_entries(table) == (Map::<usize, CompiledFunction>::empty()),
    {
        CompiledTable { table: hashbrown::HashMap::new() }
    }

    /// `hashbrown::HashMap::insert`: afterwards the map holds `function`
    /// under `offset`, and everything else as before.
    #[verifier::external_body]
    fn insert(&mut self, offset: usize, function: CompiledFunction)
        ensures
            compiled_entries(*final(self)) == compiled_entries(*old(self)).insert(offset, function),
    {
        self.table.insert(offset, function);
    }

    /// `hashbrown::HashMap::get`: what the map holds under `offset`, if it
    /// holds anything there.
    #[verifier::external_body]
    fn get(&self, offset: usize) -> (found: Option<&CompiledFunction>)
        ensures
            found is Some == compiled_entries(*self).contains_key(offset),
            found matches Some(function) ==> *function == compiled_entries(*self)[offset],
    {
        self.table.get(&offset)
    }

    /// `hashbrown::HashMap::clear`: afterwards the map holds nothing.
    #[verifier::external_body]
    fn clear(&mut self)
        ensures
            compiled_entries(*final(self)) == (Map::<usize, CompiledFunction>::empty()),
    {
        self.table.clear();
    }

    /// `hashbrown::HashMap::keys`: every offset that the map holds, each
    /// once, in an order that is not fixed.
    #[verifier::external_body]
    fn keys(&self) -> (offsets: Vec<usize>)
        ensures
            offsets@.no_duplicates(),
            forall|offset: usize| offsets@.contains(offset) <==> compiled_entries(*self).contains_key(offset),
    {
        self.table.keys().copied().collect()
    }
}

pub struct PerformanceAnalyzer {
    hotspots: HotSpotTable,
    hot_threshold: u64,
    jit_compilation_threshold: u64,
    compiled_functions: CompiledTable,
}

/// The state of an analyzer.
pub struct AnalyzerView {
    pub hotspots: Map<usize, HotSpot>,
    pub hot_threshold: u64,
    pub jit_compilation_threshold: u64,
    pub compiled_functions: Map<usize, CompiledFunction>,
}

impl View for PerformanceAnalyzer {
    type V = AnalyzerView;

    closed spec fn view(&self) -> AnalyzerView {
        AnalyzerView {
            hotspots: self.hotspots@,
            hot_threshold: self.hot_threshold,
            jit_compilation_threshold: self.jit_compilation_threshold,
            compiled_functions: self.compiled_functions@,
        }
    }
}

/// One more execution; the count stays at the largest count.
pub open spec fn count_after(count: u64) -> u64 {
    if count < u64::MAX {
        (count + 1) as u64
    } else {
        count
    }
}

/// The total time with `time` more; it stays at the largest time.
pub open spec fn time_after(total: u128, time: u128) -> u128 {
    if total + time <= u128::MAX {
        (total + time) as u128
    } else {
        u128::MAX
    }
}

/// The sum of the execution counts at the first `upto` of `offsets`, up
/// to the largest count.
pub open spec fn executions_upto(hotspots: Map<usize, HotSpot>, offsets: Seq<usize>, upto: int) -> u64
    decreases upto,
{
    if upto <= 0 {
        0
    } else {
        let before = executions_upto(hotspots, offsets, upto - 1);
        let count = hotspots[offsets[upto - 1]].execution_count;
        if before + count <= u64::MAX {
            (before + count) as u64
        } else {
            u64::MAX
        }
    }
}

/// How many of the first `upto` of `offsets` have a count of `threshold`
/// or more.
pub open spec fn hot_upto(hotspots: Map<usize, HotSpot>, offsets: Seq<usize>, threshold: u64, upto: int) -> int
    decreases upto,
{
    if upto <= 0 {
        0
    } else {
        hot_upto(hotspots, offsets, threshold, upto - 1) + (if hotspots[offsets[upto - 1]].execution_count
            >= threshold {
            1int
        } else {
            0int
        })
    }
}

/// `offsets` lists the offsets that `map` holds, each once.
pub open spec fn lists_offsets<V>(offsets: Seq<usize>, map: Map<usize, V>) -> bool {
    &&& offsets.no_duplicates()
    &&& forall|offset: usize| offsets.contains(offset) <==> map.contains_key(offset)
}

/// `spot` is one of `spots`.
pub open spec fn listed(spots: Seq<&HotSpot>, spot: HotSpot) -> bool {
    exists|i: int| 0 <= i < spots.len() && *spots[i] == spot
}

impl AnalyzerView {
    pub open spec fn fresh() -> AnalyzerView {
        AnalyzerView {
            hotspots: Map::empty(),
            hot_threshold: 1000,
            jit_compilation_threshold: 5000,
            compiled_functions: Map::empty(),
        }
    }

    /// The execution count of an offset; 0 where none was recorded.
    pub open spec fn count(self, offset: usize) -> u64 {
        if self.hotspots.contains_key(offset) {
            self.hotspots[offset].execution_count
        } else {
            0
        }
    }

    /// The total time of an offset; 0 where none was recorded.
    pub open spec fn total(self, offset: usize) -> u128 {
        if self.hotspots.contains_key(offset) {
            self.hotspots[offset].total_time
        } else {
            0
        }
    }

    /// What is recorded of `offset` after one more execution that took
    /// `time`, but for the moment of the execution.
    pub open spec fn recorded(self, offset: usize, time: u128, spot: HotSpot) -> bool {
        &&& spot.offset == offset
        &&& spot.execution_count == count_after(self.count(offset))
        &&& spot.total_time == time_after(self.total(offset), time)
        &&& spot.average_time == spot.total_time / (spot.execution_count as u128)
    }

    /// `spot` is what is recorded of some offset.
    pub open spec fn holds(self, spot: HotSpot) -> bool {
        exists|offset: usize| self.hotspots.contains_key(offset) && spot == self.hotspots[offset]
    }

    /// The figures that sum over the hot spots, taken in some order.
    pub open spec fn sums(self, total_executions: u64, hot_count: usize) -> bool {
        exists|offsets: Seq<usize>|
            lists_offsets(offsets, self.hotspots) && total_executions == executions_upto(
                self.hotspots,
                offsets,
                offsets.len() as int,
            ) && hot_count == hot_upto(self.hotspots, offsets, self.hot_threshold, offsets.len() as int)
    }

    /// The speedup factors of the compiled functions, taken in some order.
    pub open spec fn speedups(self, factors: Seq<u64>) -> bool {
        exists|offsets: Seq<usize>|
            lists_offsets(offsets, self.compiled_functions) && factors.len() == offsets.len() && forall|i: int|
                0 <= i < offsets.len() ==> factors[i] == self.compiled_functions[#[trigger] offsets[i]].speedup_factor
    }

    pub open spec fn is_hot(self, offset: usize) -> bool {
        self.hotspots.contains_key(offset) && self.hotspots[offset].execution_count >= self.hot_threshold
    }

    pub open spec fn should_jit_compile(self, offset: usize) -> bool {
        self.hotspots.contains_key(offset) && self.hotspots[offset].execution_count
            >= self.jit_compilation_threshold && !self.compiled_functions.contains_key(offset)
    }
}

impl PerformanceAnalyzer {
    pub fn new() -> (analyzer: PerformanceAnalyzer)
        ensures
            analyzer@ == AnalyzerView::fresh(),
    {
        PerformanceAnalyzer {
            hotspots: HotSpotTable::new(),
            hot_threshold: 1000,
            jit_compilation_threshold: 5000,
            compiled_functions: CompiledTable::new(),
        }
    }

    /// Records one execution at `offset` that took `execution_time`
    /// nanoseconds.
    pub fn record_execution(&mut self, offset: usize, execution_time: u128)
        ensures
            final(self)@.hotspots.contains_key(offset),
            old(self)@.recorded(offset, execution_time, final(self)@.hotspots[offset]),
            final(self)@ == (AnalyzerView {
                hotspots: old(self)@.hotspots.insert(offset, final(self)@.hotspots[offset]),
                ..old(self)@
            }),
    {
        let (count, total): (u64, u128) = match self.hotspots.get(offset) {
            Some(spot) => (spot.execution_count, spot.total_time),
            None => (0, 0),
        };
        let execution_count: u64 = if count < u64::MAX {
            count + 1
        } else {
            count
        };
        let total_time: u128 = if total <= u128::MAX - execution_time {
            total + execution_time
        } else {
            u128::MAX
        };
        let spot = HotSpot {
            offset,
            execution_count,
            total_time,
            average_time: total_time / (execution_count as u128),
            last_executed: std::time::Instant::now(),
        };
        self.hotspots.insert(offset, spot);
    }

    pub fn should_jit_compile(&self, offset: usize) -> (r: bool)
        ensures
            r == self@.should_jit_compile(offset),
    {
        match self.hotspots.get(offset) {
            Some(spot) => spot.execution_count >= self.jit_compilation_threshold
                && self.compiled_functions.get(offset).is_none(),
            None => false,
        }
    }

    pub fn is_hot(&self, offset: usize) -> (r: bool)
        ensures
            r == self@.is_hot(offset),
    {
        match self.hotspots.get(offset) {
            Some(spot) => spot.execution_count >= self.hot_threshold,
            None => false,
        }
    }

    /// Records that the code at `offset` was compiled; its speedup factor
    /// is 1 until it is updated.
    pub fn mark_compiled(&mut self, offset: usize, native_address: usize, compilation_time: u128)
        ensures
            final(self)@ == (AnalyzerView {
                compiled_functions: old(self)@.compiled_functions.insert(
                    offset,
                    CompiledFunction { offset, native_address, compilation_time, speedup_factor: number::ONE },
                ),
                ..old(self)@
            }),
    {
        let compiled = CompiledFunction { offset, native_address, compilation_time, speedup_factor: number::ONE };
        self.compiled_functions.insert(offset, compiled);
    }

    pub fn get_compiled_function(&self, offset: usize) -> (found: Option<&CompiledFunction>)
        ensures
            found is Some == self@.compiled_functions.contains_key(offset),
            found matches Some(function) ==> *function == self@.compiled_functions[offset],
    {
        self.compiled_functions.get(offset)
    }

    /// Every hot spot, the most executed first. The order among hot spots
    /// with the same count is not fixed.
    pub fn get_hotspots(&self) -> (spots: Vec<&HotSpot>)
        ensures
            spots@.len() == self@.hotspots.dom().len(),
            forall|i: int, j: int|
                0 <= i < j < spots@.len() ==> spots@[i].execution_count >= spots@[j].execution_count,
            forall|i: int| 0 <= i < spots@.len() ==> self@.holds(*#[trigger] spots@[i]),
            forall|offset: usize|
                self@.hotspots.contains_key(offset) ==> listed(spots@, #[trigger] self@.hotspots[offset]),
    {
        let offsets = self.hotspots.keys();
        proof {
            offsets@.unique_seq_to_set();
            assert(offsets@.to_set() =~= self@.hotspots.dom());
        }
        let mut spots: Vec<&HotSpot> = Vec::new();
        let ghost mut placed: Seq<usize> = Seq::empty();
        let mut i: usize = 0;
        while i < offsets.len()
            invariant
                i <= offsets.len(),
                offsets@.no_duplicates(),
                forall|offset: usize| offsets@.contains(offset) <==> self@.hotspots.contains_key(offset),
                spots@.len() == i,
                placed.len() == i,
                forall|k: int|
                    0 <= k < i ==> self@.hotspots.contains_key(#[trigger] placed[k]) && *spots@[k]
                        == self@.hotspots[placed[k]],
                forall|k: int| 0 <= k < i ==> exists|m: int| 0 <= m < i && #[trigger] offsets@[k] == placed[m],
                forall|a: int, b: int|
                    0 <= a < b < i ==> spots@[a].execution_count >= spots@[b].execution_count,
            decreases offsets.len() - i,
        {
            let offset: usize = offsets[i];
            assert(offsets@.contains(offset));
            match self.hotspots.get(offset) {
                Some(spot) => {
                    let mut at: usize = 0;
                    while at < spots.len() && spots[at].execution_count >= spot.execution_count
                        invariant
                            at <= spots.len(),
                            forall|k: int| 0 <= k < at ==> spots@[k].execution_count >= spot.execution_count,
                        decreases spots.len() - at,
                    {
                        at = at + 1;
                    }
                    let ghost before = spots@;
                    let ghost placed_before = placed;
                    spots.insert(at, spot);
                    proof {
                        placed = placed.insert(at as int, offset);
                        assert forall|k: int| 0 <= k < i + 1 implies self@.hotspots.contains_key(
                            #[trigger] placed[k],
                        ) && *spots@[k] == self@.hotspots[placed[k]] by {
                            if k < at {
                                assert(placed[k] == placed_before[k]);
                            } else if k > at {
                                assert(placed[k] == placed_before[k - 1]);
                                assert(spots@[k] == before[k - 1]);
                            }
                        }
                        assert forall|k: int| 0 <= k < i + 1 implies exists|m: int|
                            0 <= m < i + 1 && #[trigger] offsets@[k] == placed[m] by {
                            if k < i {
                                let m = choose|m: int| 0 <= m < i && offsets@[k] == placed_before[m];
                                if m < at {
                                    assert(placed[m] == placed_before[m]);
                                } else {
                                    assert(placed[m + 1] == placed_before[m]);
                                }
                            } else {
                                assert(placed[at as int] == offset);
                            }
                        }
                        assert forall|a: int, b: int| 0 <= a < b < i + 1 implies spots@[a].execution_count
                            >= spots@[b].execution_count by {
                            if a < at && b > at {
                                assert(spots@[b] == before[b - 1]);
                            } else if a > at {
                                assert(spots@[a] == before[a - 1]);
                                assert(spots@[b] == before[b - 1]);
                            } else if a == at {
                                assert(spots@[b] == before[b - 1]);
                            }
                        }
                    }
                },
                None => {},
            }
            i = i + 1;
        }
        proof {
            assert forall|k: int| 0 <= k < spots@.len() implies self@.holds(*#[trigger] spots@[k]) by {
                assert(self@.hotspots.contains_key(placed[k]) && *spots@[k] == self@.hotspots[placed[k]]);
            }
            assert forall|offset: usize| self@.hotspots.contains_key(offset) implies listed(
                spots@,
                #[trigger] self@.hotspots[offset],
            ) by {
                assert(offsets@.contains(offset));
                let k = choose|k: int| 0 <= k < offsets@.len() && offsets@[k] == offset;
                let m = choose|m: int| 0 <= m < i && offsets@[k] == placed[m];
                assert(*spots@[m] == self@.hotspots[placed[m]]);
            }
        }
        spots
    }

    /// The offsets whose code has run often enough to be compiled and was
    /// not compiled yet, in an order that is not fixed.
    pub fn get_compilation_candidates(&self) -> (candidates: Vec<usize>)
        ensures
            candidates@.no_duplicates(),
            forall|offset: usize| candidates@.contains(offset) <==> self@.should_jit_compile(offset),
    {
        let offsets = self.hotspots.keys();
        let mut candidates: Vec<usize> = Vec::new();
        let mut i: usize = 0;
        while i < offsets.len()
            invariant
                i <= offsets.len(),
                lists_offsets(offsets@, self@.hotspots),
                candidates@.no_duplicates(),
                forall|offset: usize|
                    candidates@.contains(offset) <==> (offsets@.take(i as int).contains(offset)
                        && self@.should_jit_compile(offset)),
            decreases offsets.len() - i,
        {
            let offset: usize = offsets[i];
            let ghost before = candidates@;
            let ghost taken = offsets@.take(i as int);
            let ghost grown = offsets@.take(i + 1);
            proof {
                assert(grown =~= taken.push(offset));
                assert(!taken.contains(offset)) by {
                    if taken.contains(offset) {
                        let k = choose|k: int| 0 <= k < taken.len() && taken[k] == offset;
                        assert(offsets@[k] == offsets@[i as int]);
                    }
                }
                assert forall|other: usize| grown.contains(other) <==> (taken.contains(other) || other == offset) by {
                    if grown.contains(other) {
                        let k = choose|k: int| 0 <= k < grown.len() && grown[k] == other;
                        if k < i {
                            assert(taken[k] == other);
                        }
                    }
                    if taken.contains(other) {
                        let k = choose|k: int| 0 <= k < taken.len() && taken[k] == other;
                        assert(grown[k] == other);
                    }
                    if other == offset {
                        assert(grown[i as int] == other);
                    }
                }
            }
            if self.should_jit_compile(offset) {
                candidates.push(offset);
                proof {
                    assert forall|other: usize| candidates@.contains(other) <==> (before.contains(other) || other
                        == offset) by {
                        if candidates@.contains(other) {
                            let k = choose|k: int| 0 <= k < candidates@.len() && candidates@[k] == other;
                            if k < before.len() {
                                assert(before[k] == other);
                            }
                        }
                        if before.contains(other) {
                            let k = choose|k: int| 0 <= k < before.len() && before[k] == other;
                            assert(candidates@[k] == other);
                        }
                        if other == offset {
                            assert(candidates@[before.len() as int] == other);
                        }
                    }
                    assert(!before.contains(offset));
                }
            }
            proof {
                let pushed = self@.should_jit_compile(offset);
                assert forall|other: usize| candidates@.contains(other) <==> (grown.contains(other)
                    && self@.should_jit_compile(other)) by {
                    assert(grown.contains(other) <==> (taken.contains(other) || other == offset));
                    assert(before.contains(other) <==> (taken.contains(other) && self@.should_jit_compile(other)));
                    if pushed {
                        assert(candidates@.contains(other) <==> (before.contains(other) || other == offset));
                    } else {
                        assert(candidates@ == before);
                    }
                }
            }
            i = i + 1;
        }
        assert(offsets@.take(offsets.len() as int) =~= offsets@);
        candidates
    }

    /// Sets the speedup factor of the compiled function at `offset`, if
    /// there is one.
    pub fn update_speedup(&mut self, offset: usize, speedup: u64)
        ensures
            old(self)@.compiled_functions.contains_key(offset) ==> final(self)@ == (AnalyzerView {
                compiled_functions: old(self)@.compiled_functions.insert(
                    offset,
                    CompiledFunction { speedup_factor: speedup, ..old(self)@.compiled_functions[offset] },
                ),
                ..old(self)@
            }),
            !old(self)@.compiled_functions.contains_key(offset) ==> final(self)@ == old(self)@,
    {
        let found: Option<CompiledFunction> = match self.compiled_functions.get(offset) {
            Some(compiled) => Some(*compiled),
            None => None,
        };
        match found {
            Some(compiled) => {
                self.compiled_functions.insert(offset, CompiledFunction { speedup_factor: speedup, ..compiled });
            },
            None => {},
        }
    }

    /// The figures of the analyzer.
    pub fn get_statistics(&self) -> (statistics: AnalysisStatistics)
        ensures
            statistics.total_hotspots == self@.hotspots.dom().len(),
            statistics.compiled_count == self@.compiled_functions.dom().len(),
            statistics.jit_threshold == self@.jit_compilation_threshold,
            self@.sums(statistics.total_executions, statistics.hot_count),
            self@.speedups(statistics.speedup_factors@),
    {
        let offsets = self.hotspots.keys();
        proof {
            offsets@.unique_seq_to_set();
            assert(offsets@.to_set() =~= self@.hotspots.dom());
        }
        let mut total_executions: u64 = 0;
        let mut hot_count: usize = 0;
        let mut i: usize = 0;
        while i < offsets.len()
            invariant
                i <= offsets.len(),
                lists_offsets(offsets@, self@.hotspots),
                total_executions == executions_upto(self@.hotspots, offsets@, i as int),
                hot_count == hot_upto(self@.hotspots, offsets@, self@.hot_threshold, i as int),
                hot_count <= i,
            decreases offsets.len() - i,
        {
            assert(offsets@.contains(offsets@[i as int]));
            match self.hotspots.get(offsets[i]) {
                Some(spot) => {
                    total_executions = if total_executions <= u64::MAX - spot.execution_count {
                        total_executions + spot.execution_count
                    } else {
                        u64::MAX
                    };
                    if spot.execution_count >= self.hot_threshold {
                        hot_count = hot_count + 1;
                    }
                },
                None => {},
            }
            i = i + 1;
        }
        let compiled = self.compiled_functions.keys();
        proof {
            compiled@.unique_seq_to_set();
            assert(compiled@.to_set() =~= self@.compiled_functions.dom());
        }
        let mut speedup_factors: Vec<u64> = Vec::new();
        let mut j: usize = 0;
        while j < compiled.len()
            invariant
                j <= compiled.len(),
                lists_offsets(compiled@, self@.compiled_functions),
                speedup_factors@.len() == j,
                forall|k: int|
                    0 <= k < j ==> speedup_factors@[k] == self@.compiled_functions[#[trigger] compiled@[k]].speedup_factor,
            decreases compiled.len() - j,
        {
            assert(compiled@.contains(compiled@[j as int]));
            match self.compiled_functions.get(compiled[j]) {
                Some(function) => {
                    speedup_factors.push(function.speedup_factor);
                },
                None => {},
            }
            j = j + 1;
        }
        AnalysisStatistics {
            total_hotspots: offsets.len(),
            hot_count,
            compiled_count: compiled.len(),
            total_executions,
            speedup_factors,
            jit_threshold: self.jit_compilation_threshold,
        }
    }

    /// Forgets every hot spot and every compiled function.
    pub fn reset(&mut self)
        ensures
            final(self)@ == (AnalyzerView {
                hotspots: Map::empty(),
                compiled_functions: Map::empty(),
                ..old(self)@
            }),
    {
        self.hotspots.clear();
        self.compiled_functions.clear();
    }

    pub fn set_hot_threshold(&mut self, threshold: u64)
        ensures
            final(self)@ == (AnalyzerView { hot_threshold: threshold, ..old(self)@ }),
    {
        self.hot_threshold = threshold;
    }

    pub fn set_jit_threshold(&mut self, threshold: u64)
        ensures
            final(self)@ == (AnalyzerView { jit_compilation_threshold: threshold, ..old(self)@ }),
    {
        self.jit_compilation_threshold = threshold;
    }
}

impl Default for PerformanceAnalyzer {
    fn default() -> (analyzer: PerformanceAnalyzer)
        ensures
            analyzer@ == AnalyzerView::fresh(),
    {
        PerformanceAnalyzer::new()
    }
}

} // verus!

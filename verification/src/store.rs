use vstd::prelude::*;
use vstd::hash_map::StringHashMap;
use vstd::hash_set::StringHashSet;

use crate::config::DistillationConfig;
use crate::correction::{Correction, TrainingExample, UNIT};
use crate::correction::current_unix_secs;

verus! {

broadcast use vstd::seq_lib::group_seq_properties;

/// The tile identifiers of a sequence of corrections, in order.
pub open spec fn tile_ids(s: Seq<Correction>) -> Seq<Seq<char>> {
    s.map_values(|c: Correction| c.tile_id@)
}

/// The distinct tile identifiers of a sequence of corrections.
pub open spec fn tile_set(s: Seq<Correction>) -> Set<Seq<char>> {
    tile_ids(s).to_set()
}

/// The corrections of `s` made on tile `t`, in their order in `s`.
pub open spec fn with_tile(s: Seq<Correction>, t: Seq<char>) -> Seq<Correction> {
    s.filter(|c: Correction| c.tile_id@ == t)
}

/// The values behind a sequence of references.
pub open spec fn derefs(r: Seq<&Correction>) -> Seq<Correction> {
    r.map_values(|x: &Correction| *x)
}

/// The sum of the confidences of a sequence of corrections.
pub open spec fn confidence_sum(s: Seq<Correction>) -> int
    decreases s.len(),
{
    if s.len() == 0 {
        0
    } else {
        confidence_sum(s.drop_last()) + s.last().confidence
    }
}

/// The training input that a correction is exported with: `tile:{room}:{tile}`.
pub open spec fn training_input(c: Correction) -> Seq<char> {
    "tile:"@ + c.room_id@ + ":"@ + c.tile_id@
}

/// The exported input of a correction is laid out as `tile:`, the room id, a
/// colon, then the tile id: nothing cut and nothing added.
pub proof fn lemma_training_input_layout(c: Correction)
    ensures
        training_input(c).len() == c.room_id@.len() + c.tile_id@.len() + 6,
        training_input(c)[0] == 't',
        training_input(c)[1] == 'i',
        training_input(c)[2] == 'l',
        training_input(c)[3] == 'e',
        training_input(c)[4] == ':',
        training_input(c).subrange(5, 5 + c.room_id@.len() as int) == c.room_id@,
        training_input(c)[5 + c.room_id@.len() as int] == ':',
        training_input(c).subrange(6 + c.room_id@.len() as int, training_input(c).len() as int)
            == c.tile_id@,
{
    reveal_strlit("tile:");
    reveal_strlit(":");
    let t = training_input(c);
    let r = c.room_id@.len() as int;
    assert(t.subrange(5, 5 + r) =~= c.room_id@);
    assert(t.subrange(6 + r, t.len() as int) =~= c.tile_id@);
}

/// Whether the store has enough corrections, and diverse enough ones, for `config`.
pub open spec fn volume_met(s: Seq<Correction>, config: DistillationConfig) -> bool {
    &&& s.len() >= config.min_corrections
    &&& (config.min_diversity matches Some(d) ==> tile_set(s).len() >= d)
}

/// Whether the clock at `now` reads earlier than the last distillation, at a
/// point where the interval would have to be measured from it.
pub open spec fn clock_behind(
    s: Seq<Correction>,
    last: Option<u64>,
    config: DistillationConfig,
    now: u64,
) -> bool {
    &&& volume_met(s, config)
    &&& config.max_interval_secs is Some
    &&& now < last.unwrap_or(0)
}

/// Whether a distillation round is due at time `now` (seconds since the epoch):
/// enough corrections, enough distinct tiles, and, where an interval is set,
/// at least that many seconds since the last round (since 0 if none).
pub open spec fn distill_due(
    s: Seq<Correction>,
    last: Option<u64>,
    config: DistillationConfig,
    now: u64,
) -> bool {
    &&& volume_met(s, config)
    &&& (config.max_interval_secs matches Some(i) ==> now - last.unwrap_or(0) >= i)
}

/// Diversity never exceeds the number of corrections, and a non-empty log has
/// at least one distinct tile.
pub proof fn lemma_diversity_bounds(s: Seq<Correction>)
    ensures
        tile_set(s).len() <= s.len(),
        s.len() > 0 ==> tile_set(s).len() >= 1,
{
    tile_ids(s).lemma_cardinality_of_set();
    if s.len() > 0 {
        assert(tile_set(s).contains(tile_ids(s)[0]));
        vstd::set_lib::lemma_len_subset(set![tile_ids(s)[0]], tile_set(s));
    }
}

/// Adding a correction raises the diversity by one when its tile is new to the
/// log, and leaves it unchanged otherwise.
pub proof fn lemma_add_diversity(s: Seq<Correction>, c: Correction)
    ensures
        tile_set(s).contains(c.tile_id@) ==> tile_set(s.push(c)).len() == tile_set(s).len(),
        !tile_set(s).contains(c.tile_id@) ==> tile_set(s.push(c)).len() == tile_set(s).len() + 1,
{
    s.lemma_push_map_commute(|x: Correction| x.tile_id@, c);
    tile_ids(s).lemma_push_to_set_commute(c.tile_id@);
    if tile_set(s).contains(c.tile_id@) {
        assert(tile_set(s).insert(c.tile_id@) =~= tile_set(s));
    }
}

/// Once a log has enough corrections, and diverse enough ones, for a
/// configuration, adding a correction keeps it so.
pub proof fn lemma_volume_persists(s: Seq<Correction>, c: Correction, config: DistillationConfig)
    requires
        volume_met(s, config),
    ensures
        volume_met(s.push(c), config),
{
    lemma_add_diversity(s, c);
}

/// After a round marked at time `t`, no round is due while fewer than the
/// configured interval's seconds have passed.
pub proof fn lemma_not_due_within_interval(
    s: Seq<Correction>,
    config: DistillationConfig,
    t: u64,
    now: u64,
)
    requires
        config.max_interval_secs is Some,
        t <= now,
        now - t < config.max_interval_secs->0,
    ensures
        !distill_due(s, Some(t), config, now),
{
}

/// The confidences of corrections all within `[0, UNIT]` add up to at most
/// `UNIT` per correction.
pub proof fn lemma_confidence_sum_bounded(s: Seq<Correction>)
    requires
        forall|i: int| 0 <= i < s.len() ==> #[trigger] s[i].confidence <= UNIT,
    ensures
        0 <= confidence_sum(s) <= s.len() * (UNIT as int),
    decreases s.len(),
{
    if s.len() > 0 {
        let t = s.drop_last();
        assert forall|i: int| 0 <= i < t.len() implies #[trigger] t[i].confidence <= UNIT by {
            assert(t[i] == s[i]);
        }
        lemma_confidence_sum_bounded(t);
    }
}

/// The groups by tile partition the log: each correction lies in the group of
/// its own tile, and each group holds only corrections of its tile.
pub proof fn lemma_groups_partition(s: Seq<Correction>, k: Seq<char>, i: int)
    requires
        0 <= i < s.len(),
    ensures
        with_tile(s, s[i].tile_id@).contains(s[i]),
        tile_set(s).contains(s[i].tile_id@),
        forall|j: int| 0 <= j < with_tile(s, k).len() ==> (#[trigger] with_tile(s, k)[j]).tile_id@ == k,
{
    let pred = |c: Correction| c.tile_id@ == s[i].tile_id@;
    s.filter_lemma(pred);
    s.filter_lemma(|c: Correction| c.tile_id@ == k);
    assert(tile_ids(s)[i] == s[i].tile_id@);
}

/// The total size of the groups of `s` for the tiles listed in `keys`.
pub open spec fn group_sizes(s: Seq<Correction>, keys: Seq<Seq<char>>) -> int
    decreases keys.len(),
{
    if keys.len() == 0 {
        0
    } else {
        group_sizes(s, keys.drop_last()) + with_tile(s, keys.last()).len()
    }
}

/// How many times `x` occurs in `keys`.
pub open spec fn occurrences(keys: Seq<Seq<char>>, x: Seq<char>) -> int
    decreases keys.len(),
{
    if keys.len() == 0 {
        0
    } else {
        occurrences(keys.drop_last(), x) + if keys.last() == x { 1int } else { 0int }
    }
}

proof fn lemma_occurrences_once(keys: Seq<Seq<char>>, x: Seq<char>)
    requires
        keys.no_duplicates(),
    ensures
        occurrences(keys, x) == if keys.contains(x) { 1int } else { 0int },
    decreases keys.len(),
{
    if keys.len() > 0 {
        let rest = keys.drop_last();
        assert(rest.no_duplicates());
        lemma_occurrences_once(rest, x);
        if keys.last() == x {
            assert(!rest.contains(x)) by {
                if rest.contains(x) {
                    let j = choose|j: int| 0 <= j < rest.len() && rest[j] == x;
                    assert(keys[j] == keys[keys.len() - 1]);
                }
            }
        } else {
            assert(keys.contains(x) == rest.contains(x)) by {
                if keys.contains(x) {
                    let j = choose|j: int| 0 <= j < keys.len() && keys[j] == x;
                    assert(rest[j] == x);
                }
            }
        }
    }
}

proof fn lemma_group_sizes_push(s: Seq<Correction>, c: Correction, keys: Seq<Seq<char>>)
    ensures
        group_sizes(s.push(c), keys) == group_sizes(s, keys) + occurrences(keys, c.tile_id@),
    decreases keys.len(),
{
    if keys.len() > 0 {
        lemma_group_sizes_push(s, c, keys.drop_last());
        s.lemma_filter_push(c, |x: Correction| x.tile_id@ == keys.last());
    }
}

/// Grouping by tile loses no correction and counts none twice: over any
/// duplicate-free list of tiles that covers the log, the group sizes add up to
/// the number of corrections.
pub proof fn lemma_groups_cover_log(s: Seq<Correction>, keys: Seq<Seq<char>>)
    requires
        keys.no_duplicates(),
        tile_set(s).subset_of(keys.to_set()),
    ensures
        group_sizes(s, keys) == s.len(),
    decreases s.len(),
{
    if s.len() == 0 {
        lemma_group_sizes_empty(s, keys);
    } else {
        let t = s.drop_last();
        let c = s.last();
        assert(s =~= t.push(c));
        t.lemma_push_map_commute(|x: Correction| x.tile_id@, c);
        tile_ids(t).lemma_push_to_set_commute(c.tile_id@);
        lemma_groups_cover_log(t, keys);
        lemma_group_sizes_push(t, c, keys);
        lemma_occurrences_once(keys, c.tile_id@);
        assert(tile_set(s).contains(c.tile_id@));
        assert(keys.to_set().contains(c.tile_id@));
        assert(keys.contains(c.tile_id@));
    }
}

proof fn lemma_group_sizes_empty(s: Seq<Correction>, keys: Seq<Seq<char>>)
    requires
        s.len() == 0,
    ensures
        group_sizes(s, keys) == 0,
    decreases keys.len(),
{
    if keys.len() > 0 {
        lemma_group_sizes_empty(s, keys.drop_last());
        s.filter_lemma(|x: Correction| x.tile_id@ == keys.last());
    }
}

/// Append-only log of corrections per room.
#[derive(Debug, Clone, PartialEq)]
pub struct CorrectionStore {
    corrections: Vec<Correction>,
    room_id: String,
    last_distillation_timestamp: Option<u64>,
}

impl CorrectionStore {
    /// The corrections logged so far, oldest first.
    pub closed spec fn entries(&self) -> Seq<Correction> {
        self.corrections@
    }

    /// The room this log belongs to.
    pub closed spec fn room(&self) -> Seq<char> {
        self.room_id@
    }

    /// When the last distillation round was marked, if ever.
    pub closed spec fn last_distilled(&self) -> Option<u64> {
        self.last_distillation_timestamp
    }

    /// A new, empty log for a room.
    pub fn new(room_id: &str) -> (st: Self)
        ensures
            st.entries() == Seq::<Correction>::empty(),
            st.room() == room_id@,
            st.last_distilled() is None,
    {
        CorrectionStore {
            corrections: Vec::new(),
            room_id: room_id.to_owned(),
            last_distillation_timestamp: None,
        }
    }

    /// A log rebuilt from its parts, as a serialised copy hands them back.
    pub fn from_parts(
        room_id: String,
        corrections: Vec<Correction>,
        last_distillation_timestamp: Option<u64>,
    ) -> (st: Self)
        ensures
            st.entries() == corrections@,
            st.room() == room_id@,
            st.last_distilled() == last_distillation_timestamp,
    {
        CorrectionStore { corrections, room_id, last_distillation_timestamp }
    }

    /// The room this log belongs to.
    pub fn room_id(&self) -> (r: &str)
        ensures
            r@ == self.room(),
    {
        self.room_id.as_str()
    }

    /// When the last distillation round was marked, if ever.
    pub fn last_distillation_timestamp(&self) -> (t: Option<u64>)
        ensures
            t == self.last_distilled(),
    {
        self.last_distillation_timestamp
    }

    /// Log a new cloud correction.
    pub fn add(&mut self, correction: Correction)
        ensures
            final(self).entries() == old(self).entries().push(correction),
            final(self).room() == old(self).room(),
            final(self).last_distilled() == old(self).last_distilled(),
    {
        self.corrections.push(correction);
    }

    /// Number of corrections stored.
    pub fn len(&self) -> (n: usize)
        ensures
            n == self.entries().len(),
    {
        self.corrections.len()
    }

    pub fn is_empty(&self) -> (b: bool)
        ensures
            b == (self.entries().len() == 0),
    {
        self.corrections.len() == 0
    }

    /// Get all corrections.
    pub fn corrections(&self) -> (c: &[Correction])
        ensures
            c@ == self.entries(),
    {
        self.corrections.as_slice()
    }

    /// The exact total of the stored confidences (in millionths); the average
    /// confidence is this total over `len()`, 0.0 for an empty store.
    pub fn confidence_total(&self) -> (t: u128)
        ensures
            t == confidence_sum(self.entries()),
    {
        let ghost s = self.corrections@;
        let n = self.corrections.len();
        let mut sum: u128 = 0;
        for i in 0..n
            invariant
                n == s.len(),
                s == self.corrections@,
                sum == confidence_sum(s.take(i as int)),
                sum <= i * (u32::MAX as int),
        {
            proof {
                assert(s.take(i + 1).drop_last() =~= s.take(i as int));
            }
            sum = sum + self.corrections[i].confidence as u128;
        }
        proof {
            assert(s.take(n as int) =~= s);
        }
        sum
    }

    /// Check, at time `now` (seconds since the epoch), if distillation should be
    /// triggered based on config thresholds.
    pub fn should_distill_at(&self, config: &DistillationConfig, now: u64) -> (r: bool)
        requires
            !clock_behind(self.entries(), self.last_distilled(), *config, now),
        ensures
            r == distill_due(self.entries(), self.last_distilled(), *config, now),
    {
        if self.corrections.len() < config.min_corrections {
            return false;
        }
        if let Some(min_div) = config.min_diversity {
            if self.diversity() < min_div {
                return false;
            }
        }
        if let Some(interval) = config.max_interval_secs {
            let last = match self.last_distillation_timestamp {
                Some(t) => t,
                None => 0,
            };
            if now - last < interval {
                return false;
            }
        }
        true
    }

    /// Check if distillation should be triggered based on config thresholds,
    /// reading the current time from the system clock. Where the clock reads
    /// earlier than the last distillation, the interval has not elapsed.
    pub fn should_distill(&self, config: &DistillationConfig) -> (r: bool)
        ensures
            r ==> volume_met(self.entries(), *config),
            config.max_interval_secs is None ==> (r == volume_met(self.entries(), *config)),
            r ==> exists|now: u64| distill_due(self.entries(), self.last_distilled(), *config, now),
    {
        let now = current_unix_secs();
        let behind = match (config.max_interval_secs, self.last_distillation_timestamp) {
            (Some(_), Some(last)) => now < last,
            _ => false,
        };
        if behind {
            return false;
        }
        self.should_distill_at(config, now)
    }

    /// Format corrections for LoRA training.
    pub fn export_training_data(&self) -> (v: Vec<TrainingExample>)
        ensures
            v@.len() == self.entries().len(),
            forall|i: int|
                #![trigger v@[i]]
                0 <= i < v@.len() ==> {
                    &&& v@[i].input@ == training_input(self.entries()[i])
                    &&& v@[i].input@ == "tile:"@ + self.entries()[i].room_id@ + ":"@
                        + self.entries()[i].tile_id@
                    &&& v@[i].expected_output@ == self.entries()[i].expected_label@
                    &&& v@[i].confidence == self.entries()[i].confidence
                    &&& v@[i].tile_id@ == self.entries()[i].tile_id@
                },
    {
        let mut v: Vec<TrainingExample> = Vec::new();
        let n = self.corrections.len();
        for i in 0..n
            invariant
                n == self.corrections@.len(),
                v@.len() == i,
                forall|k: int|
                    #![trigger v@[k]]
                    0 <= k < i ==> {
                        &&& v@[k].input@ == training_input(self.corrections@[k])
                        &&& v@[k].expected_output@ == self.corrections@[k].expected_label@
                        &&& v@[k].confidence == self.corrections@[k].confidence
                        &&& v@[k].tile_id@ == self.corrections@[k].tile_id@
                    },
        {
            let c = &self.corrections[i];
            let mut input = String::from_str("tile:");
            input.append(c.room_id.as_str());
            input.append(":");
            input.append(c.tile_id.as_str());
            let ex = TrainingExample {
                input,
                expected_output: c.expected_label.clone(),
                confidence: c.confidence,
                tile_id: c.tile_id.clone(),
            };
            v.push(ex);
        }
        v
    }

    /// Mark that a distillation round has occurred at time `now`.
    pub fn mark_distilled_at(&mut self, now: u64)
        ensures
            final(self).last_distilled() == Some(now),
            final(self).entries() == old(self).entries(),
            final(self).room() == old(self).room(),
    {
        self.last_distillation_timestamp = Some(now);
    }

    /// Mark that a distillation round has occurred (updates timestamp from the
    /// system clock).
    pub fn mark_distilled(&mut self)
        ensures
            final(self).last_distilled() is Some,
            final(self).entries() == old(self).entries(),
            final(self).room() == old(self).room(),
    {
        let now = current_unix_secs();
        self.mark_distilled_at(now);
    }

    /// Number of unique tile_ids in the store (diversity measure).
    pub fn diversity(&self) -> (d: usize)
        ensures
            d == tile_set(self.entries()).len(),
    {
        let ghost s = self.corrections@;
        let mut unique = StringHashSet::new();
        let n = self.corrections.len();
        assert(tile_ids(s.take(0)).to_set() =~= Set::empty());
        for i in 0..n
            invariant
                n == s.len(),
                s == self.corrections@,
                unique@ == tile_set(s.take(i as int)),
        {
            let t = &self.corrections[i].tile_id;
            proof {
                assert(s.take(i + 1) =~= s.take(i as int).push(s[i as int]));
                s.take(i as int).lemma_push_map_commute(|c: Correction| c.tile_id@, s[i as int]);
                tile_ids(s.take(i as int)).lemma_push_to_set_commute(t@);
            }
            unique.insert(t.clone());
        }
        assert(s.take(n as int) =~= s);
        unique.len()
    }

    /// The corrections of the log made on tile `t`, oldest first.
    fn corrections_on<'a>(&'a self, t: &String) -> (r: Vec<&'a Correction>)
        ensures
            derefs(r@) == with_tile(self.entries(), t@),
    {
        let ghost s = self.corrections@;
        let ghost pred = |c: Correction| c.tile_id@ == t@;
        let mut r: Vec<&'a Correction> = Vec::new();
        let n = self.corrections.len();
        assert(s.take(0).filter(pred) =~= Seq::empty());
        assert(derefs(r@) =~= Seq::empty());
        for i in 0..n
            invariant
                n == s.len(),
                s == self.corrections@,
                pred == (|c: Correction| c.tile_id@ == t@),
                derefs(r@) == s.take(i as int).filter(pred),
        {
            let c = &self.corrections[i];
            proof {
                assert(s.take(i + 1) =~= s.take(i as int).push(s[i as int]));
                s.take(i as int).lemma_filter_push(s[i as int], pred);
            }
            if c.tile_id == *t {
                let ghost old_r = r@;
                r.push(c);
                proof {
                    old_r.lemma_push_map_commute(|x: &Correction| *x, c);
                }
            }
        }
        assert(s.take(n as int) =~= s);
        r
    }

    /// Group corrections by tile_id.
    pub fn by_tile(&self) -> (m: StringHashMap<Vec<&Correction>>)
        ensures
            m@.dom() == tile_set(self.entries()),
            forall|k: Seq<char>|
                #[trigger] m@.dom().contains(k) ==> derefs(m@[k]@) == with_tile(self.entries(), k),
    {
        let ghost s = self.corrections@;
        let mut m: StringHashMap<Vec<&Correction>> = StringHashMap::new();
        let n = self.corrections.len();
        assert(tile_ids(s.take(0)).to_set() =~= Set::empty());
        for i in 0..n
            invariant
                n == s.len(),
                s == self.corrections@,
                m@.dom() == tile_set(s.take(i as int)),
                forall|k: Seq<char>|
                    #[trigger] m@.dom().contains(k) ==> derefs(m@[k]@) == with_tile(s, k),
        {
            let t = &self.corrections[i].tile_id;
            proof {
                assert(s.take(i + 1) =~= s.take(i as int).push(s[i as int]));
                s.take(i as int).lemma_push_map_commute(|c: Correction| c.tile_id@, s[i as int]);
                tile_ids(s.take(i as int)).lemma_push_to_set_commute(t@);
            }
            if !m.contains_key(t.as_str()) {
                let group = self.corrections_on(t);
                m.insert(t.clone(), group);
            } else {
                proof {
                    assert(m@.dom().insert(t@) =~= m@.dom());
                }
            }
        }
        assert(s.take(n as int) =~= s);
        m
    }
}

} // verus!

//! Remembered extend-mode preferences, keyed by the pair of monitors they are for.
use crate::layout::ExtendLayout;
use crate::text::{contains_string, string_views};
use vstd::prelude::*;

verus! {

broadcast use vstd::string::group_string_axioms;

/// A point in time (UTC): whole seconds since the Unix epoch and the
/// nanoseconds past that second (at or above 10^9 only within a leap second).
#[derive(Clone, Copy, Debug, PartialEq, Eq, Structural)]
pub struct Timestamp {
    pub secs: i64,
    pub nanos: u32,
}

/// `a` comes strictly before `b`.
pub open spec fn before(a: Timestamp, b: Timestamp) -> bool {
    a.secs < b.secs || (a.secs == b.secs && a.nanos < b.nanos)
}

impl Timestamp {
    pub fn is_before(&self, other: &Timestamp) -> (r: bool)
        ensures
            r == before(*self, *other),
    {
        self.secs < other.secs || (self.secs == other.secs && self.nanos < other.nanos)
    }
}

#[verifier::external_type_specification]
#[verifier::external_body]
pub struct ExSystemTime(std::time::SystemTime);

/// Relies on `std::time::SystemTime::now`: a reading of the system clock, of
/// which nothing is known.
pub assume_specification[ std::time::SystemTime::now ]() -> std::time::SystemTime;

/// Relies on `SystemTime::duration_since(UNIX_EPOCH)`: how far `t` lies after
/// (`Ok`) or before (`Err`) 1970-01-01 00:00 UTC, as the whole seconds and the
/// nanoseconds past them of that `Duration`; `Duration::subsec_nanos` is
/// documented to be below one billion.
#[verifier::external_body]
fn offset_from_epoch(t: std::time::SystemTime) -> (r: Result<(u64, u32), (u64, u32)>)
    ensures
        match r {
            Ok((_, nanos)) => nanos < 1_000_000_000,
            Err((_, nanos)) => nanos < 1_000_000_000,
        },
{
    match t.duration_since(std::time::UNIX_EPOCH) {
        Ok(d) => Ok((d.as_secs(), d.subsec_nanos())),
        Err(e) => Err((e.duration().as_secs(), e.duration().subsec_nanos())),
    }
}

/// The time that lies `offset` after (`Ok`) or before (`Err`) the Unix epoch,
/// as seconds and nanoseconds; seconds beyond the range of `i64` are clamped to it.
pub open spec fn epoch_timestamp(offset: Result<(u64, u32), (u64, u32)>) -> Timestamp {
    match offset {
        Ok((secs, nanos)) => Timestamp {
            secs: if secs > i64::MAX {
                i64::MAX
            } else {
                secs as i64
            },
            nanos,
        },
        Err((secs, nanos)) => {
            let whole = if nanos == 0 {
                -(secs as int)
            } else {
                -(secs as int) - 1
            };
            Timestamp {
                secs: if whole < i64::MIN {
                    i64::MIN
                } else {
                    whole as i64
                },
                nanos: if nanos == 0 {
                    0
                } else {
                    (1_000_000_000 - nanos) as u32
                },
            }
        },
    }
}

/// Converts an offset from the Unix epoch, after (`Ok`) or before (`Err`) it,
/// into a [`Timestamp`]. A time before the epoch gets negative seconds and the
/// nanoseconds that count forward from them.
pub fn timestamp_from_epoch_offset(offset: Result<(u64, u32), (u64, u32)>) -> (r: Timestamp)
    requires
        match offset {
            Ok((_, nanos)) => nanos < 1_000_000_000,
            Err((_, nanos)) => nanos < 1_000_000_000,
        },
    ensures
        r == epoch_timestamp(offset),
{
    match offset {
        Ok((secs, nanos)) => {
            let s = if secs > i64::MAX as u64 {
                i64::MAX
            } else {
                secs as i64
            };
            Timestamp { secs: s, nanos }
        },
        Err((secs, nanos)) => {
            let back: u64 = if nanos == 0 {
                0
            } else {
                1
            };
            let s = if secs > i64::MAX as u64 {
                i64::MIN
            } else {
                0 - (secs as i64) - (back as i64)
            };
            let n: u32 = if nanos == 0 {
                0
            } else {
                1_000_000_000 - nanos
            };
            Timestamp { secs: s, nanos: n }
        },
    }
}

/// The current time by the system clock.
pub(crate) fn current_time() -> (r: Timestamp)
    ensures
        r.nanos < 1_000_000_000,
{
    let offset = offset_from_epoch(std::time::SystemTime::now());
    timestamp_from_epoch_offset(offset)
}

/// A remembered extend-mode preference for a pair of monitors.
///
/// A resolution is `"auto"` or `"<width>x<height>"`; a rotation is one of
/// `normal`, `left`, `right`, `inverted`.
#[derive(Clone, Debug)]
pub struct ExtendConfiguration {
    pub name: String,
    pub primary_monitor: String,
    pub primary_resolution: String,
    pub primary_rotation: String,
    pub secondary_monitor: String,
    pub secondary_resolution: String,
    pub secondary_rotation: String,
    pub layout: ExtendLayout,
    pub created_at: Timestamp,
    pub last_used: Timestamp,
}

/// What an [`ExtendConfiguration`] holds, with its texts as character sequences.
pub struct ExtendConfigView {
    pub name: Seq<char>,
    pub primary_monitor: Seq<char>,
    pub primary_resolution: Seq<char>,
    pub primary_rotation: Seq<char>,
    pub secondary_monitor: Seq<char>,
    pub secondary_resolution: Seq<char>,
    pub secondary_rotation: Seq<char>,
    pub layout: ExtendLayout,
    pub created_at: Timestamp,
    pub last_used: Timestamp,
}

impl View for ExtendConfiguration {
    type V = ExtendConfigView;

    open spec fn view(&self) -> ExtendConfigView {
        ExtendConfigView {
            name: self.name@,
            primary_monitor: self.primary_monitor@,
            primary_resolution: self.primary_resolution@,
            primary_rotation: self.primary_rotation@,
            secondary_monitor: self.secondary_monitor@,
            secondary_resolution: self.secondary_resolution@,
            secondary_rotation: self.secondary_rotation@,
            layout: self.layout,
            created_at: self.created_at,
            last_used: self.last_used,
        }
    }
}

pub open spec fn config_views(v: Seq<ExtendConfiguration>) -> Seq<ExtendConfigView> {
    v.map_values(|c: ExtendConfiguration| c@)
}

/// The key a preference is stored under: `"<primary>_<secondary>"`. It depends
/// on which monitor is primary.
pub open spec fn key_of(c: ExtendConfigView) -> Seq<char> {
    c.primary_monitor + "_"@ + c.secondary_monitor
}

/// `c` with its last use set to `now`.
pub open spec fn stamped(c: ExtendConfigView, now: Timestamp) -> ExtendConfigView {
    ExtendConfigView { last_used: now, ..c }
}

/// The preference built from the extend-mode settings at time `now`.
pub open spec fn settings_config(
    primary_monitor: Seq<char>,
    secondary_monitor: Seq<char>,
    primary_resolution: Seq<char>,
    primary_rotation: Seq<char>,
    secondary_resolution: Seq<char>,
    secondary_rotation: Seq<char>,
    layout: ExtendLayout,
    now: Timestamp,
) -> ExtendConfigView {
    ExtendConfigView {
        name: primary_monitor + " + "@ + secondary_monitor,
        primary_monitor,
        primary_resolution,
        primary_rotation,
        secondary_monitor,
        secondary_resolution,
        secondary_rotation,
        layout,
        created_at: now,
        last_used: now,
    }
}

/// No two records share a key.
pub open spec fn keys_distinct(recs: Seq<ExtendConfigView>) -> bool {
    forall|i: int, j: int|
        0 <= i < recs.len() && 0 <= j < recs.len() && i != j ==> key_of(#[trigger] recs[i])
            != key_of(#[trigger] recs[j])
}

pub open spec fn has_key(recs: Seq<ExtendConfigView>, k: Seq<char>) -> bool {
    exists|i: int| 0 <= i < recs.len() && key_of(#[trigger] recs[i]) == k
}

/// The position of the record stored under `k`.
pub open spec fn key_index(recs: Seq<ExtendConfigView>, k: Seq<char>) -> int {
    choose|i: int| 0 <= i < recs.len() && key_of(#[trigger] recs[i]) == k
}

/// `recs` after storing `c` under its key: it replaces the record with that key
/// in place, or is appended.
pub open spec fn insert_record(recs: Seq<ExtendConfigView>, c: ExtendConfigView) -> Seq<
    ExtendConfigView,
> {
    if has_key(recs, key_of(c)) {
        recs.update(key_index(recs, key_of(c)), c)
    } else {
        recs.push(c)
    }
}

/// The records of `recs` stored one after the other into an empty store.
pub open spec fn insert_all(recs: Seq<ExtendConfigView>) -> Seq<ExtendConfigView>
    decreases recs.len(),
{
    if recs.len() == 0 {
        seq![]
    } else {
        insert_record(insert_all(recs.drop_last()), recs.last())
    }
}

/// The records of a store and the key of the preference saved last.
pub struct StoreState {
    pub records: Seq<ExtendConfigView>,
    pub last_key: Option<Seq<char>>,
}

/// The store after saving `c`, already stamped.
pub open spec fn saved(s: StoreState, c: ExtendConfigView) -> StoreState {
    StoreState { records: insert_record(s.records, c), last_key: Some(key_of(c)) }
}

/// The preference saved last, if it is still stored.
pub open spec fn last_record(s: StoreState) -> Option<ExtendConfigView> {
    match s.last_key {
        Some(k) => if has_key(s.records, k) {
            Some(s.records[key_index(s.records, k)])
        } else {
            None
        },
        None => None,
    }
}

/// `c` is for monitors `a` and `b`, either way round.
pub open spec fn is_pair(c: ExtendConfigView, a: Seq<char>, b: Seq<char>) -> bool {
    (c.primary_monitor == a && c.secondary_monitor == b) || (c.primary_monitor == b
        && c.secondary_monitor == a)
}

pub open spec fn is_first_pair(recs: Seq<ExtendConfigView>, a: Seq<char>, b: Seq<char>, i: int) -> bool {
    0 <= i < recs.len() && is_pair(recs[i], a, b) && forall|j: int|
        0 <= j < i ==> !is_pair(#[trigger] recs[j], a, b)
}

/// The first stored record for monitors `a` and `b`, either way round.
pub open spec fn pair_record(recs: Seq<ExtendConfigView>, a: Seq<char>, b: Seq<char>) -> Option<
    ExtendConfigView,
> {
    if exists|i: int| is_first_pair(recs, a, b, i) {
        Some(recs[choose|i: int| is_first_pair(recs, a, b, i)])
    } else {
        None
    }
}

/// Both monitors of `c` are among `names`.
pub open spec fn covered_by(c: ExtendConfigView, names: Seq<Seq<char>>) -> bool {
    names.contains(c.primary_monitor) && names.contains(c.secondary_monitor)
}

/// `recs[i]` is covered by `names`, no covered record was used later, and
/// every covered record stored before it was used earlier.
pub open spec fn is_latest_match(recs: Seq<ExtendConfigView>, names: Seq<Seq<char>>, i: int) -> bool {
    &&& 0 <= i < recs.len()
    &&& covered_by(recs[i], names)
    &&& forall|j: int|
        0 <= j < recs.len() && covered_by(#[trigger] recs[j], names) ==> !before(
            recs[i].last_used,
            recs[j].last_used,
        ) && (j < i ==> before(recs[j].last_used, recs[i].last_used))
}

/// The most recently used record whose monitors are both among `names`; of
/// several used at the same time, the one stored first.
pub open spec fn latest_match(recs: Seq<ExtendConfigView>, names: Seq<Seq<char>>) -> Option<
    ExtendConfigView,
> {
    if exists|i: int| is_latest_match(recs, names, i) {
        Some(recs[choose|i: int| is_latest_match(recs, names, i)])
    } else {
        None
    }
}

/// The primary monitor of the latest match, if it is among `names`.
pub open spec fn preferred_primary(recs: Seq<ExtendConfigView>, names: Seq<Seq<char>>) -> Option<
    Seq<char>,
> {
    match latest_match(recs, names) {
        Some(c) => if names.contains(c.primary_monitor) {
            Some(c.primary_monitor)
        } else {
            None
        },
        None => None,
    }
}

proof fn lemma_latest_unique(recs: Seq<ExtendConfigView>, names: Seq<Seq<char>>, i: int, k: int)
    requires
        is_latest_match(recs, names, i),
        is_latest_match(recs, names, k),
    ensures
        i == k,
{
    assert(covered_by(recs[i], names));
    assert(covered_by(recs[k], names));
}

proof fn lemma_latest_is(recs: Seq<ExtendConfigView>, names: Seq<Seq<char>>, i: int)
    requires
        is_latest_match(recs, names, i),
    ensures
        latest_match(recs, names) == Some(recs[i]),
{
    let k = choose|k: int| is_latest_match(recs, names, k);
    lemma_latest_unique(recs, names, i, k);
}

proof fn lemma_key_index(recs: Seq<ExtendConfigView>, i: int)
    requires
        keys_distinct(recs),
        0 <= i < recs.len(),
    ensures
        has_key(recs, key_of(recs[i])),
        key_index(recs, key_of(recs[i])) == i,
{
    assert(has_key(recs, key_of(recs[i])));
}

/// The persisted state: the stored preferences and the key of the one saved last.
#[derive(Clone, Debug)]
pub struct DisplayConfig {
    pub extend_configurations: Vec<ExtendConfiguration>,
    pub last_used_extend_config: Option<String>,
}

pub open spec fn opt_view(o: Option<String>) -> Option<Seq<char>> {
    match o {
        Some(s) => Some(s@),
        None => None,
    }
}

impl Default for DisplayConfig {
    /// No stored preference.
    fn default() -> (r: DisplayConfig)
        ensures
            r.extend_configurations@.len() == 0,
            r.last_used_extend_config is None,
    {
        DisplayConfig { extend_configurations: Vec::new(), last_used_extend_config: None }
    }
}

/// The store of extend-mode preferences.
pub struct ConfigManager {
    config: DisplayConfig,
}

impl Default for ConfigManager {
    /// An empty store.
    fn default() -> (r: ConfigManager)
        ensures
            r.wf(),
            r@.records.len() == 0,
            r@.last_key is None,
    {
        let r = ConfigManager { config: DisplayConfig::default() };
        assert(r@.records =~= seq![]);
        r
    }
}

/// `"<primary>_<secondary>"`
fn config_key(primary: &String, secondary: &String) -> (r: String)
    ensures
        r@ == primary@ + "_"@ + secondary@,
{
    let mut k = primary.clone();
    k.append("_");
    k.append(secondary.as_str());
    k
}

impl View for ConfigManager {
    type V = StoreState;

    closed spec fn view(&self) -> StoreState {
        StoreState {
            records: config_views(self.config.extend_configurations@),
            last_key: opt_view(self.config.last_used_extend_config),
        }
    }
}

impl ConfigManager {
    /// The store's records have distinct keys, each derived from its own record.
    pub open spec fn wf(&self) -> bool {
        keys_distinct(self@.records)
    }

    /// Stores `config` under its key, replacing the record with that key.
    fn insert(&mut self, config: ExtendConfiguration)
        requires
            old(self).wf(),
        ensures
            final(self).wf(),
            final(self)@.records == insert_record(old(self)@.records, config@),
            final(self)@.last_key == old(self)@.last_key,
    {
        let key = config_key(&config.primary_monitor, &config.secondary_monitor);
        let ghost recs = self@.records;
        let mut i: usize = 0;
        while i < self.config.extend_configurations.len()
            invariant
                recs == config_views(self.config.extend_configurations@),
                recs == old(self)@.records,
                self@ == old(self)@,
                keys_distinct(recs),
                key@ == key_of(config@),
                i <= recs.len(),
                forall|j: int| 0 <= j < i ==> key_of(#[trigger] recs[j]) != key@,
            decreases recs.len() - i,
        {
            let c = &self.config.extend_configurations[i];
            let k = config_key(&c.primary_monitor, &c.secondary_monitor);
            assert(recs[i as int] == c@);
            if k == key {
                proof {
                    lemma_key_index(recs, i as int);
                }
                self.config.extend_configurations.set(i, config);
                proof {
                    assert(config_views(self.config.extend_configurations@) =~= recs.update(
                        i as int,
                        config@,
                    ));
                    let nr = recs.update(i as int, config@);
                    assert forall|a: int, b: int|
                        0 <= a < nr.len() && 0 <= b < nr.len() && a != b implies key_of(
                        #[trigger] nr[a],
                    ) != key_of(#[trigger] nr[b]) by {
                        if a != i && b != i {
                            assert(nr[a] == recs[a] && nr[b] == recs[b]);
                        } else if a == i {
                            assert(nr[b] == recs[b]);
                        } else {
                            assert(nr[a] == recs[a]);
                        }
                    }
                }
                return;
            }
            i = i + 1;
        }
        let ghost cv = config@;
        self.config.extend_configurations.push(config);
        proof {
            assert(!has_key(recs, key_of(cv)));
            assert(config_views(self.config.extend_configurations@) =~= recs.push(cv));
            let nr = recs.push(cv);
            assert forall|a: int, b: int|
                0 <= a < nr.len() && 0 <= b < nr.len() && a != b implies key_of(
                #[trigger] nr[a],
            ) != key_of(#[trigger] nr[b]) by {
                if a < recs.len() && b < recs.len() {
                    assert(nr[a] == recs[a] && nr[b] == recs[b]);
                } else if a == recs.len() {
                    assert(nr[b] == recs[b]);
                } else {
                    assert(nr[a] == recs[a]);
                }
            }
        }
    }

    /// Builds the store from persisted state: each record is stored under its
    /// own key, a later one replacing an earlier one with the same key.
    pub fn new(config: DisplayConfig) -> (r: ConfigManager)
        ensures
            r.wf(),
            r@.records == insert_all(config_views(config.extend_configurations@)),
            r@.last_key == opt_view(config.last_used_extend_config),
    {
        let DisplayConfig { extend_configurations, last_used_extend_config } = config;
        let ghost all = config_views(extend_configurations@);
        let mut store = ConfigManager { config: DisplayConfig::default() };
        assert(store@.records =~= seq![]);
        let mut i: usize = 0;
        while i < extend_configurations.len()
            invariant
                i <= extend_configurations@.len(),
                all == config_views(extend_configurations@),
                store.wf(),
                store@.records == insert_all(all.take(i as int)),
                store@.last_key is None,
            decreases extend_configurations@.len() - i,
        {
            let c = extend_configurations[i].duplicate();
            store.insert(c);
            assert(all.take(i + 1).drop_last() =~= all.take(i as int));
            i = i + 1;
        }
        assert(all.take(i as int) =~= all);
        store.config.last_used_extend_config = last_used_extend_config;
        store
    }

    /// The key `config` is stored under: `"<primary>_<secondary>"`.
    pub fn generate_config_key(&self, config: &ExtendConfiguration) -> (r: String)
        ensures
            r@ == key_of(config@),
    {
        config_key(&config.primary_monitor, &config.secondary_monitor)
    }

    /// The persisted state of the store.
    pub fn config(&self) -> (r: &DisplayConfig)
        ensures
            config_views(r.extend_configurations@) == self@.records,
            opt_view(r.last_used_extend_config) == self@.last_key,
    {
        &self.config
    }

    /// Records `config` as used at `now` and stores it under its key, which
    /// becomes the key of the preference saved last.
    pub fn save_extend_configuration_at(&mut self, config: ExtendConfiguration, now: Timestamp)
        requires
            old(self).wf(),
        ensures
            final(self).wf(),
            final(self)@ == saved(old(self)@, stamped(config@, now)),
    {
        let mut updated = config;
        updated.last_used = now;
        let key = config_key(&updated.primary_monitor, &updated.secondary_monitor);
        assert(updated@ == stamped(config@, now));
        self.insert(updated);
        self.config.last_used_extend_config = Some(key);
    }

    /// Records `config` as used now and stores it under its key, which becomes
    /// the key of the preference saved last.
    pub fn save_extend_configuration(&mut self, config: ExtendConfiguration)
        requires
            old(self).wf(),
        ensures
            final(self).wf(),
            exists|now: Timestamp| final(self)@ == saved(old(self)@, stamped(config@, now)),
    {
        let now = current_time();
        self.save_extend_configuration_at(config, now);
    }

    /// The preference saved last, if it is still stored.
    pub fn get_last_extend_configuration(&self) -> (r: Option<&ExtendConfiguration>)
        requires
            self.wf(),
        ensures
            match r {
                Some(c) => last_record(self@) == Some(c@),
                None => last_record(self@) is None,
            },
    {
        match &self.config.last_used_extend_config {
            None => None,
            Some(key) => {
                let ghost recs = self@.records;
                let mut i: usize = 0;
                while i < self.config.extend_configurations.len()
                    invariant
                        recs == config_views(self.config.extend_configurations@),
                        keys_distinct(recs),
                        self@.last_key == Some(key@),
                        i <= recs.len(),
                        forall|j: int| 0 <= j < i ==> key_of(#[trigger] recs[j]) != key@,
                    decreases recs.len() - i,
                {
                    let c = &self.config.extend_configurations[i];
                    let k = config_key(&c.primary_monitor, &c.secondary_monitor);
                    assert(recs[i as int] == c@);
                    if k == *key {
                        proof {
                            lemma_key_index(recs, i as int);
                        }
                        return Some(c);
                    }
                    i = i + 1;
                }
                None
            },
        }
    }

    /// All stored preferences.
    pub fn get_extend_configurations(&self) -> (r: &Vec<ExtendConfiguration>)
        ensures
            config_views(r@) == self@.records,
    {
        &self.config.extend_configurations
    }

    /// The first stored preference for monitors `primary` and `secondary`,
    /// either way round.
    pub fn get_extend_configuration_by_monitors(&self, primary: &str, secondary: &str) -> (r:
        Option<&ExtendConfiguration>)
        ensures
            match r {
                Some(c) => pair_record(self@.records, primary@, secondary@) == Some(c@),
                None => pair_record(self@.records, primary@, secondary@) is None,
            },
    {
        let a = primary.to_owned();
        let b = secondary.to_owned();
        let ghost recs = self@.records;
        let mut i: usize = 0;
        while i < self.config.extend_configurations.len()
            invariant
                recs == config_views(self.config.extend_configurations@),
                recs == self@.records,
                a@ == primary@,
                b@ == secondary@,
                i <= recs.len(),
                forall|j: int| 0 <= j < i ==> !is_pair(#[trigger] recs[j], a@, b@),
            decreases recs.len() - i,
        {
            let c = &self.config.extend_configurations[i];
            assert(recs[i as int] == c@);
            if (c.primary_monitor == a && c.secondary_monitor == b) || (c.primary_monitor == b
                && c.secondary_monitor == a) {
                proof {
                    assert(is_first_pair(recs, a@, b@, i as int));
                    let k = choose|k: int| is_first_pair(recs, a@, b@, k);
                    if k < i {
                        assert(!is_pair(recs[k], a@, b@));
                    }
                    if k > i {
                        assert(!is_pair(recs[i as int], a@, b@));
                    }
                }
                return Some(c);
            }
            i = i + 1;
        }
        None
    }

    /// The most recently used preference whose two monitors are both among
    /// `available_monitors`; of several used at the same time, the one stored first.
    pub fn get_extend_configuration_for_monitors(&self, available_monitors: &[String]) -> (r:
        Option<&ExtendConfiguration>)
        ensures
            match r {
                Some(c) => latest_match(self@.records, string_views(available_monitors@)) == Some(
                    c@,
                ),
                None => latest_match(self@.records, string_views(available_monitors@)) is None,
            },
    {
        let ghost recs = self@.records;
        let ghost names = string_views(available_monitors@);
        let mut best: Option<usize> = None;
        let mut i: usize = 0;
        while i < self.config.extend_configurations.len()
            invariant
                recs == config_views(self.config.extend_configurations@),
                names == string_views(available_monitors@),
                i <= recs.len(),
                match best {
                    Some(b) => b < i && covered_by(recs[b as int], names) && forall|j: int|
                        0 <= j < i && covered_by(#[trigger] recs[j], names) ==> !before(
                            recs[b as int].last_used,
                            recs[j].last_used,
                        ) && (j < b ==> before(recs[j].last_used, recs[b as int].last_used)),
                    None => forall|j: int| 0 <= j < i ==> !covered_by(#[trigger] recs[j], names),
                },
            decreases recs.len() - i,
        {
            let c = &self.config.extend_configurations[i];
            assert(recs[i as int] == c@);
            if contains_string(available_monitors, &c.primary_monitor) && contains_string(
                available_monitors,
                &c.secondary_monitor,
            ) {
                match best {
                    None => {
                        best = Some(i);
                    },
                    Some(b) => {
                        let bc = &self.config.extend_configurations[b];
                        assert(recs[b as int] == bc@);
                        if bc.last_used.is_before(&c.last_used) {
                            best = Some(i);
                        }
                    },
                }
            }
            i = i + 1;
        }
        match best {
            None => {
                proof {
                    if exists|k: int| is_latest_match(recs, names, k) {
                        let k = choose|k: int| is_latest_match(recs, names, k);
                        assert(covered_by(recs[k], names));
                    }
                }
                None
            },
            Some(b) => {
                proof {
                    lemma_latest_is(recs, names, b as int);
                }
                Some(&self.config.extend_configurations[b])
            },
        }
    }

    /// The primary monitor of the preference that
    /// [`get_extend_configuration_for_monitors`](Self::get_extend_configuration_for_monitors)
    /// picks, if it is among `available_monitors`.
    pub fn get_preferred_primary_monitor(&self, available_monitors: &[String]) -> (r: Option<
        String,
    >)
        ensures
            opt_view(r) == preferred_primary(self@.records, string_views(available_monitors@)),
    {
        match self.get_extend_configuration_for_monitors(available_monitors) {
            Some(c) => {
                if contains_string(available_monitors, &c.primary_monitor) {
                    Some(c.primary_monitor.clone())
                } else {
                    None
                }
            },
            None => None,
        }
    }

    /// A preference built from the extend-mode settings at time `now`, named
    /// `"<primary> + <secondary>"`, created and last used at `now`.
    pub fn config_from_settings_at(
        primary_monitor: String,
        secondary_monitor: String,
        primary_resolution: String,
        primary_rotation: String,
        secondary_resolution: String,
        secondary_rotation: String,
        layout: ExtendLayout,
        now: Timestamp,
    ) -> (r: ExtendConfiguration)
        ensures
            r@ == settings_config(
                primary_monitor@,
                secondary_monitor@,
                primary_resolution@,
                primary_rotation@,
                secondary_resolution@,
                secondary_rotation@,
                layout,
                now,
            ),
    {
        let mut name = primary_monitor.clone();
        name.append(" + ");
        name.append(secondary_monitor.as_str());
        ExtendConfiguration {
            name,
            primary_monitor,
            primary_resolution,
            primary_rotation,
            secondary_monitor,
            secondary_resolution,
            secondary_rotation,
            layout,
            created_at: now,
            last_used: now,
        }
    }

    /// A preference built from the extend-mode settings now, named
    /// `"<primary> + <secondary>"`, created and last used now.
    pub fn create_config_from_settings(
        primary_monitor: String,
        secondary_monitor: String,
        primary_resolution: String,
        primary_rotation: String,
        secondary_resolution: String,
        secondary_rotation: String,
        layout: ExtendLayout,
    ) -> (r: ExtendConfiguration)
        ensures
            exists|now: Timestamp|
                r@ == settings_config(
                    primary_monitor@,
                    secondary_monitor@,
                    primary_resolution@,
                    primary_rotation@,
                    secondary_resolution@,
                    secondary_rotation@,
                    layout,
                    now,
                ),
    {
        let now = current_time();
        ConfigManager::config_from_settings_at(
            primary_monitor,
            secondary_monitor,
            primary_resolution,
            primary_rotation,
            secondary_resolution,
            secondary_rotation,
            layout,
            now,
        )
    }
}

impl ExtendConfiguration {
    /// A copy of this preference.
    pub fn duplicate(&self) -> (r: ExtendConfiguration)
        ensures
            r@ == self@,
    {
        ExtendConfiguration {
            name: self.name.clone(),
            primary_monitor: self.primary_monitor.clone(),
            primary_resolution: self.primary_resolution.clone(),
            primary_rotation: self.primary_rotation.clone(),
            secondary_monitor: self.secondary_monitor.clone(),
            secondary_resolution: self.secondary_resolution.clone(),
            secondary_rotation: self.secondary_rotation.clone(),
            layout: self.layout,
            created_at: self.created_at,
            last_used: self.last_used,
        }
    }
}

/// Save, then look up by the saved pair: once a preference is saved at `now`,
/// the lookup by its two monitors returns it, equal to what was saved but for
/// its last use, which is `now`. This holds when every stored record for that
/// pair was last used before `now`, as it is with a clock that moves forward.
pub proof fn lemma_save_then_lookup(s: StoreState, c: ExtendConfigView, now: Timestamp)
    requires
        keys_distinct(s.records),
        forall|i: int|
            0 <= i < s.records.len() && covered_by(
                #[trigger] s.records[i],
                seq![c.primary_monitor, c.secondary_monitor],
            ) ==> before(s.records[i].last_used, now),
    ensures
        latest_match(
            saved(s, stamped(c, now)).records,
            seq![c.primary_monitor, c.secondary_monitor],
        ) == Some(stamped(c, now)),
        stamped(c, now) == (ExtendConfigView { last_used: now, ..c }),
{
    let names = seq![c.primary_monitor, c.secondary_monitor];
    let c2 = stamped(c, now);
    let recs = s.records;
    let nr = saved(s, c2).records;
    assert(names[0] == c.primary_monitor && names[1] == c.secondary_monitor);
    assert(covered_by(c2, names));
    let k = if has_key(recs, key_of(c2)) {
        key_index(recs, key_of(c2))
    } else {
        recs.len() as int
    };
    assert(nr[k] == c2);
    assert forall|j: int| 0 <= j < nr.len() && covered_by(#[trigger] nr[j], names) implies !before(
        nr[k].last_used,
        nr[j].last_used,
    ) && (j < k ==> before(nr[j].last_used, nr[k].last_used)) by {
        if j != k {
            assert(nr[j] == recs[j]);
        }
    }
    assert(is_latest_match(nr, names, k));
    lemma_latest_is(nr, names, k);
}

/// Recency: of two stored records for monitors `a` and `b`, last used at
/// different times, the lookup by `a` and `b` returns the one used later.
pub proof fn lemma_recency(recs: Seq<ExtendConfigView>, a: Seq<char>, b: Seq<char>)
    requires
        recs.len() == 2,
        forall|i: int|
            0 <= i < 2 ==> (#[trigger] recs[i].primary_monitor == a || recs[i].primary_monitor
                == b) && (recs[i].secondary_monitor == a || recs[i].secondary_monitor == b),
        recs[0].last_used != recs[1].last_used,
    ensures
        latest_match(recs, seq![a, b]) == Some(
            if before(recs[0].last_used, recs[1].last_used) {
                recs[1]
            } else {
                recs[0]
            },
        ),
{
    let names = seq![a, b];
    assert(names[0] == a && names[1] == b);
    assert(recs[0].primary_monitor == a || recs[0].primary_monitor == b);
    assert(recs[1].primary_monitor == a || recs[1].primary_monitor == b);
    assert(covered_by(recs[0], names));
    assert(covered_by(recs[1], names));
    if before(recs[0].last_used, recs[1].last_used) {
        assert(is_latest_match(recs, names, 1));
        lemma_latest_is(recs, names, 1);
    } else {
        assert(is_latest_match(recs, names, 0));
        lemma_latest_is(recs, names, 0);
    }
}

/// Saving never removes a preference: every key stored before is stored after,
/// and the store grows by at most the one record saved.
pub proof fn lemma_save_keeps_keys(s: StoreState, c: ExtendConfigView, k: Seq<char>)
    requires
        keys_distinct(s.records),
        has_key(s.records, k),
    ensures
        has_key(saved(s, c).records, k),
        has_key(saved(s, c).records, key_of(c)),
        s.records.len() <= saved(s, c).records.len() <= s.records.len() + 1,
{
    let nr = saved(s, c).records;
    let i = choose|i: int| 0 <= i < s.records.len() && key_of(#[trigger] s.records[i]) == k;
    if has_key(s.records, key_of(c)) {
        let j = key_index(s.records, key_of(c));
        assert(key_of(nr[j]) == key_of(c));
        if i == j {
            assert(key_of(nr[i]) == k);
        } else {
            assert(nr[i] == s.records[i]);
        }
    } else {
        assert(nr[i] == s.records[i]);
        assert(nr[s.records.len() as int] == c);
    }
}

} // verus!

use vstd::prelude::*;
use crate::intervals::{intervals_wf, merge_step, record_sighting, PresenceInterval};
use crate::jsonio::{cfg_readings_of, read_config_text};

verus! {

/// The run mode selected at session start. The two modes are mutually
/// exclusive and a run never transitions between them.
#[derive(Clone, Copy, Debug, PartialEq, Eq, Structural)]
pub enum ScanMode {
    Instant,
    Scheduled,
}

/// Validated configuration for one run. The durations are only meaningful in
/// scheduled mode and default to zero.
#[derive(Clone, Copy, Debug, PartialEq, Eq, Structural)]
pub struct ScanConfig {
    pub mode: ScanMode,
    pub start_after: u64,
    pub scan_duration: u64,
}

/// A configuration that cannot drive a run, by cause.
#[derive(Clone, Copy, Debug, PartialEq, Eq, Structural)]
pub enum ConfigError {
    /// The configuration text is not a well-formed document.
    Unparseable,
    /// The `instant_scan` mode key is missing.
    MissingModeKey,
    /// A duration key is present but not a non-negative integer.
    InvalidDuration,
}

/// Why a run produced no report. A missing mode key and a missing adapter
/// are distinct outcomes.
#[derive(Clone, Copy, Debug, PartialEq, Eq, Structural)]
pub enum RunError {
    Config(ConfigError),
    AdapterUnavailable,
}

/// The validated configuration determined by the raw key readings.
/// `instant_flag` is `None` when the mode key is missing, otherwise whether
/// its value is the boolean `true`; each duration reading is `None` when its
/// key is missing, `Some(None)` when the key is present but not a
/// non-negative integer, and `Some(Some(n))` when it reads `n`.
pub open spec fn interpreted_config(
    instant_flag: Option<bool>,
    start_after: Option<Option<u64>>,
    scan_duration: Option<Option<u64>>,
) -> Result<ScanConfig, ConfigError> {
    match instant_flag {
        None => Err(ConfigError::MissingModeKey),
        Some(true) => Ok(
            ScanConfig { mode: ScanMode::Instant, start_after: 0, scan_duration: 0 },
        ),
        Some(false) => match start_after {
            Some(None) => Err(ConfigError::InvalidDuration),
            _ => match scan_duration {
                Some(None) => Err(ConfigError::InvalidDuration),
                _ => Ok(
                    ScanConfig {
                        mode: ScanMode::Scheduled,
                        start_after: match start_after {
                            Some(Some(n)) => n,
                            _ => 0,
                        },
                        scan_duration: match scan_duration {
                            Some(Some(n)) => n,
                            _ => 0,
                        },
                    },
                ),
            },
        },
    }
}

/// Validates the raw configuration key readings: a missing mode key is a
/// named error, the durations apply only to a scheduled run and default to
/// zero when absent.
pub fn interpret_config(
    instant_flag: Option<bool>,
    start_after: Option<Option<u64>>,
    scan_duration: Option<Option<u64>>,
) -> (r: Result<ScanConfig, ConfigError>)
    ensures
        r == interpreted_config(instant_flag, start_after, scan_duration),
{
    match instant_flag {
        None => Err(ConfigError::MissingModeKey),
        Some(true) => Ok(ScanConfig { mode: ScanMode::Instant, start_after: 0, scan_duration: 0 }),
        Some(false) => {
            let sa: u64 = match start_after {
                None => 0,
                Some(None) => {
                    return Err(ConfigError::InvalidDuration);
                },
                Some(Some(n)) => n,
            };
            let sd: u64 = match scan_duration {
                None => 0,
                Some(None) => {
                    return Err(ConfigError::InvalidDuration);
                },
                Some(Some(n)) => n,
            };
            Ok(ScanConfig { mode: ScanMode::Scheduled, start_after: sa, scan_duration: sd })
        },
    }
}

/// How the raw reading of the mode key determines the mode flag: the run is
/// instant exactly when the key is present and its value reads as the
/// boolean `true`; any other present value selects a scheduled run.
pub open spec fn instant_flag_of(f: Option<Option<bool>>) -> Option<bool> {
    match f {
        None => None,
        Some(x) => Some(x == Some(true)),
    }
}

/// Reads the configuration document for a run: parses the text as JSON and
/// validates the recognized keys (`instant_scan`, `start_after_duration`,
/// `scan_duration`). Text that is not well-formed JSON is the named
/// `Unparseable` error; any other text determines its result through the
/// key readings `cfg_readings_of` gives it.
pub fn parse_config(contents: &str) -> (r: Result<ScanConfig, ConfigError>)
    ensures
        r == match cfg_readings_of(contents@) {
            None => Err::<ScanConfig, ConfigError>(ConfigError::Unparseable),
            Some((f, sa, sd)) => interpreted_config(instant_flag_of(f), sa, sd),
        },
{
    match read_config_text(contents) {
        None => Err(ConfigError::Unparseable),
        Some((f, sa, sd)) => {
            let flag: Option<bool> = match f {
                None => None,
                Some(Some(true)) => Some(true),
                Some(_) => Some(false),
            };
            interpret_config(flag, sa, sd)
        },
    }
}

/// What a run does before any scanning, given the configuration reading and
/// whether a radio adapter is present. Unreadable configuration stops the run
/// before the adapter is consulted; after that, a missing adapter stops it
/// before the mode key is consulted.
pub open spec fn session_plan(config: Result<ScanConfig, ConfigError>, adapter_present: bool) -> Result<
    ScanConfig,
    RunError,
> {
    if config == Err::<ScanConfig, ConfigError>(ConfigError::Unparseable) {
        Err(RunError::Config(ConfigError::Unparseable))
    } else if !adapter_present {
        Err(RunError::AdapterUnavailable)
    } else {
        match config {
            Ok(c) => Ok(c),
            Err(e) => Err(RunError::Config(e)),
        }
    }
}

/// Decides whether the run may scan at all. Each failure is a distinct named
/// outcome, and no failing plan produces a report.
pub fn plan_session(config: Result<ScanConfig, ConfigError>, adapter_present: bool) -> (r: Result<
    ScanConfig,
    RunError,
>)
    ensures
        r == session_plan(config, adapter_present),
{
    match config {
        Err(ConfigError::Unparseable) => Err(RunError::Config(ConfigError::Unparseable)),
        _ => {
            if !adapter_present {
                Err(RunError::AdapterUnavailable)
            } else {
                match config {
                    Ok(c) => Ok(c),
                    Err(e) => Err(RunError::Config(e)),
                }
            }
        },
    }
}

/// The enriched, report-ready description of one device at its most recent
/// sighting: already-sanitized names and already-rendered radio readings.
pub struct DeviceDetails {
    pub address_type: String,
    pub device_class: String,
    pub manufacturer: String,
    pub local_name: String,
    pub manufacturer_data: String,
    pub service_data: String,
    pub services: String,
    pub rssi: String,
    pub tx_power_level: String,
}

/// The evolving aggregate for one device during a run: its identifier, the
/// metadata of its most recent sighting, and its merged interval history.
pub struct DeviceRecord {
    pub device_id: String,
    pub details: DeviceDetails,
    pub intervals: Vec<PresenceInterval>,
}

/// The identifiers of a record store, in first-seen order.
pub open spec fn ids_of(records: Seq<DeviceRecord>) -> Seq<Seq<char>> {
    records.map_values(|r: DeviceRecord| r.device_id@)
}

pub open spec fn has_device(records: Seq<DeviceRecord>, id: Seq<char>) -> bool {
    exists|i: int| 0 <= i < records.len() && records[i].device_id@ == id
}

pub open spec fn device_index(records: Seq<DeviceRecord>, id: Seq<char>) -> int {
    choose|i: int| 0 <= i < records.len() && records[i].device_id@ == id
}

/// Process-wide state for one run: the validated configuration, the gap
/// tolerance, the per-device records in first-seen order, and the time of
/// the latest tick.
pub struct ScanSession {
    pub config: ScanConfig,
    pub gap_tolerance: u64,
    pub records: Vec<DeviceRecord>,
    pub clock: u64,
}

impl ScanSession {
    /// Session invariant: device identifiers are unique, every record has a
    /// non-empty well-formed interval history, and no interval runs past the
    /// latest tick.
    pub open spec fn wf(self) -> bool {
        &&& ids_of(self.records@).no_duplicates()
        &&& forall|i: int|
            0 <= i < self.records@.len() ==> {
                &&& intervals_wf((#[trigger] self.records@[i]).intervals@, self.gap_tolerance)
                &&& self.records@[i].intervals@.len() > 0
                &&& self.records@[i].intervals@.last().end <= self.clock
            }
    }

    /// Opens a session with no devices seen yet.
    pub fn new(config: ScanConfig, gap_tolerance: u64) -> (s: ScanSession)
        ensures
            s.wf(),
            s.records@.len() == 0,
            s.config == config,
            s.gap_tolerance == gap_tolerance,
            s.clock == 0,
    {
        let s = ScanSession { config, gap_tolerance, records: Vec::new(), clock: 0 };
        assert(ids_of(s.records@) =~= Seq::<Seq<char>>::empty());
        s
    }

    /// Feeds one sighting at elapsed time `now`: looks up or creates the
    /// record for the device, overwrites its metadata with the sighting's
    /// enriched values (last write wins), and either extends the record's
    /// last interval or opens a new one under the gap-tolerance rule.
    pub fn observe(&mut self, device_id: String, details: DeviceDetails, now: u64)
        requires
            old(self).wf(),
            old(self).clock <= now,
        ensures
            final(self).wf(),
            final(self).config == old(self).config,
            final(self).gap_tolerance == old(self).gap_tolerance,
            final(self).clock == now,
            has_device(old(self).records@, device_id@) ==> {
                let i = device_index(old(self).records@, device_id@);
                &&& final(self).records@.len() == old(self).records@.len()
                &&& forall|j: int|
                    0 <= j < old(self).records@.len() && j != i ==> final(self).records@[j] == old(
                        self,
                    ).records@[j]
                &&& final(self).records@[i].device_id == old(self).records@[i].device_id
                &&& final(self).records@[i].details == details
                &&& final(self).records@[i].intervals@ == merge_step(
                    old(self).records@[i].intervals@,
                    now,
                    old(self).gap_tolerance,
                )
            },
            !has_device(old(self).records@, device_id@) ==> {
                &&& final(self).records@.len() == old(self).records@.len() + 1
                &&& forall|j: int|
                    0 <= j < old(self).records@.len() ==> final(self).records@[j] == old(
                        self,
                    ).records@[j]
                &&& final(self).records@.last().device_id == device_id
                &&& final(self).records@.last().details == details
                &&& final(self).records@.last().intervals@ == seq![
                    PresenceInterval { start: now, end: now },
                ]
            },
    {
        let found = find_device(&self.records, &device_id);
        match found {
            Some(i) => {
                proof {
                    assert(has_device(self.records@, device_id@));
                    let k = device_index(self.records@, device_id@);
                    assert(ids_of(self.records@)[k] == device_id@);
                    assert(ids_of(self.records@)[i as int] == device_id@);
                    assert(k == i);
                }
                let mut rec = self.records.remove(i);
                rec.details = details;
                record_sighting(&mut rec.intervals, now, self.gap_tolerance);
                proof {
                    crate::intervals::lemma_merge_step_wf(
                        old(self).records@[i as int].intervals@,
                        now,
                        self.gap_tolerance,
                    );
                }
                self.records.insert(i, rec);
                self.clock = now;
                proof {
                    assert(self.records@ =~= old(self).records@.update(
                        i as int,
                        self.records@[i as int],
                    ));
                    assert(ids_of(self.records@) =~= ids_of(old(self).records@));
                }
            },
            None => {
                let intervals = vec![PresenceInterval { start: now, end: now }];
                assert(intervals@ =~= seq![PresenceInterval { start: now, end: now }]);
                let rec = DeviceRecord { device_id, details, intervals };
                self.records.push(rec);
                self.clock = now;
                proof {
                    let new_ids = ids_of(self.records@);
                    let old_ids = ids_of(old(self).records@);
                    assert(new_ids =~= old_ids.push(self.records@.last().device_id@));
                    assert(forall|a: int, b: int|
                        0 <= a < b < new_ids.len() ==> new_ids[a] != new_ids[b]) by {
                        let last_idx = old_ids.len() as int;
                        assert(forall|a: int|
                            0 <= a < old_ids.len() ==> old_ids[a] != new_ids[last_idx]);
                    }
                    assert(new_ids.no_duplicates());
                }
            },
        }
    }
}

/// The index of the record for a device identifier, if one exists.
fn find_device(records: &Vec<DeviceRecord>, id: &String) -> (r: Option<usize>)
    ensures
        match r {
            Some(i) => i < records@.len() && records@[i as int].device_id@ == id@,
            None => !has_device(records@, id@),
        },
{
    let mut i: usize = 0;
    while i < records.len()
        invariant
            i <= records@.len(),
            forall|j: int| 0 <= j < i ==> records@[j].device_id@ != id@,
        decreases records@.len() - i,
    {
        if records[i].device_id == *id {
            return Some(i);
        }
        i += 1;
    }
    None
}

} // verus!

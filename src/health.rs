//! Router health tracking and the retry policy of router requests.

use vstd::prelude::*;

verus! {

/// The router's health as last observed.
pub enum HealthStatus {
    Healthy,
    /// Unhealthy, with what went wrong.
    Unhealthy(String),
    /// Not known yet, or the connection dropped.
    Unknown,
    Starting,
    Stopping,
}

impl HealthStatus {
    /// Whether the router is healthy.
    pub fn is_healthy(&self) -> (r: bool)
        ensures
            r == (*self is Healthy),
    {
        match self {
            HealthStatus::Healthy => true,
            _ => false,
        }
    }

    /// The name shown for the status.
    pub fn display_name(&self) -> (r: &'static str)
        ensures
            r@ == match *self {
                HealthStatus::Healthy => "正常"@,
                HealthStatus::Unhealthy(_) => "异常"@,
                HealthStatus::Unknown => "未知"@,
                HealthStatus::Starting => "启动中"@,
                HealthStatus::Stopping => "停止中"@,
            },
    {
        match self {
            HealthStatus::Healthy => "正常",
            HealthStatus::Unhealthy(_) => "异常",
            HealthStatus::Unknown => "未知",
            HealthStatus::Starting => "启动中",
            HealthStatus::Stopping => "停止中",
        }
    }

    /// A copy of this status.
    pub fn duplicate(&self) -> (r: Self)
        ensures
            r == *self,
    {
        match self {
            HealthStatus::Healthy => HealthStatus::Healthy,
            HealthStatus::Unhealthy(m) => HealthStatus::Unhealthy(m.clone()),
            HealthStatus::Unknown => HealthStatus::Unknown,
            HealthStatus::Starting => HealthStatus::Starting,
            HealthStatus::Stopping => HealthStatus::Stopping,
        }
    }
}

/// One health check.
pub struct HealthRecord {
    /// Unix milliseconds.
    pub timestamp_ms: i64,
    pub status: HealthStatus,
    pub response_time_ms: Option<u64>,
    pub error_message: Option<String>,
}

impl HealthRecord {
    /// A copy of this record.
    pub fn duplicate(&self) -> (r: Self)
        ensures
            r == *self,
    {
        HealthRecord {
            timestamp_ms: self.timestamp_ms,
            status: self.status.duplicate(),
            response_time_ms: self.response_time_ms,
            error_message: match &self.error_message {
                Some(m) => Some(m.clone()),
                None => None,
            },
        }
    }
}

/// How the router's health is watched.
pub struct HealthMonitorConfig {
    pub check_interval_secs: u64,
    /// How many records the history keeps.
    pub history_limit: usize,
    /// Consecutive failures that raise a warning.
    pub failure_threshold: u8,
    /// Consecutive failures that suggest a restart.
    pub auto_restart_threshold: u8,
}

impl HealthMonitorConfig {
    /// Checks every 30 s, keeps 100 records, warns at 3 failures in a row and
    /// suggests a restart at 5.
    pub fn default_config() -> (r: Self)
        ensures
            r.check_interval_secs == 30,
            r.history_limit == 100,
            r.failure_threshold == 3,
            r.auto_restart_threshold == 5,
    {
        HealthMonitorConfig { check_interval_secs: 30, history_limit: 100, failure_threshold: 3, auto_restart_threshold: 5 }
    }
}

/// Counters over the checks since monitoring (re)started.
#[derive(Clone, Copy)]
pub struct HealthStats {
    pub total_checks: u64,
    pub healthy_checks: u64,
    pub unhealthy_checks: u64,
    pub consecutive_failures: u8,
    /// Sum of the response times of the healthy checks that have one.
    pub response_time_total_ms: u64,
    /// Number of those checks.
    pub timed_checks: u64,
    /// Unix milliseconds.
    pub monitoring_start_ms: i64,
    pub last_check_ms: Option<i64>,
}

/// Zeroed counters, monitoring from `now_ms`.
pub open spec fn fresh_stats(now_ms: i64) -> HealthStats {
    HealthStats {
        total_checks: 0,
        healthy_checks: 0,
        unhealthy_checks: 0,
        consecutive_failures: 0,
        response_time_total_ms: 0,
        timed_checks: 0,
        monitoring_start_ms: now_ms,
        last_check_ms: None,
    }
}

impl HealthStats {
    /// Zeroed counters, monitoring from `now_ms`.
    pub fn starting_at(now_ms: i64) -> (r: Self)
        ensures
            r == fresh_stats(now_ms),
    {
        HealthStats {
            total_checks: 0,
            healthy_checks: 0,
            unhealthy_checks: 0,
            consecutive_failures: 0,
            response_time_total_ms: 0,
            timed_checks: 0,
            monitoring_start_ms: now_ms,
            last_check_ms: None,
        }
    }
}

/// Counters after check `r`: counts saturate rather than wrap.
pub open spec fn stats_after(s: HealthStats, r: HealthRecord) -> HealthStats {
    let base = HealthStats {
        total_checks: sat64(s.total_checks + 1),
        last_check_ms: Some(r.timestamp_ms),
        ..s
    };
    match r.status {
        HealthStatus::Healthy => HealthStats {
            healthy_checks: sat64(s.healthy_checks + 1),
            consecutive_failures: 0,
            response_time_total_ms: match r.response_time_ms {
                Some(t) => sat64(s.response_time_total_ms + t),
                None => s.response_time_total_ms,
            },
            timed_checks: match r.response_time_ms {
                Some(_) => sat64(s.timed_checks + 1),
                None => s.timed_checks,
            },
            ..base
        },
        HealthStatus::Unhealthy(_) => HealthStats {
            unhealthy_checks: sat64(s.unhealthy_checks + 1),
            consecutive_failures: if s.consecutive_failures == u8::MAX { u8::MAX } else { (s.consecutive_failures
                + 1) as u8 },
            ..base
        },
        _ => base,
    }
}

/// `n`, or the largest `u64` when it is larger.
pub open spec fn sat64(n: int) -> u64 {
    if n > u64::MAX { u64::MAX } else if n < 0 { 0 } else { n as u64 }
}

/// The warnings a run of failures raises.
pub struct HealthAlerts {
    /// The failure threshold is reached.
    pub failing: bool,
    /// The restart threshold is reached: a restart is suggested, never done.
    pub restart_suggested: bool,
}

/// Recent checks and counters of the router's health.
pub struct HealthTracker {
    pub config: HealthMonitorConfig,
    pub current: HealthStatus,
    /// Oldest first; at most `config.history_limit` records.
    pub history: Vec<HealthRecord>,
    pub stats: HealthStats,
}

impl HealthTracker {
    pub open spec fn wf(&self) -> bool {
        self.history@.len() <= self.config.history_limit
    }

    /// A tracker with no checks yet; status unknown.
    pub fn new(config: HealthMonitorConfig, now_ms: i64) -> (r: Self)
        ensures
            r.wf(),
            r.config == config,
            r.current is Unknown,
            r.history@.len() == 0,
            r.stats == fresh_stats(now_ms),
    {
        HealthTracker { config, current: HealthStatus::Unknown, history: Vec::new(), stats: HealthStats::starting_at(now_ms) }
    }

    /// Records check `record`: it becomes the current status, joins the
    /// history (the oldest records leave beyond the limit), and counts.
    pub fn record(&mut self, record: HealthRecord)
        requires
            old(self).wf(),
        ensures
            final(self).wf(),
            final(self).current == record.status,
            ({
                let h = old(self).history@.push(record);
                let limit = old(self).config.history_limit;
                final(self).history@ == if h.len() > limit { h.subrange(h.len() - limit, h.len() as int) } else { h }
            }),
            final(self).stats == stats_after(old(self).stats, record),
            final(self).config == old(self).config,
    {
        self.current = record.status.duplicate();
        let mut s = self.stats;
        s.total_checks = s.total_checks.saturating_add(1);
        s.last_check_ms = Some(record.timestamp_ms);
        match record.status {
            HealthStatus::Healthy => {
                s.healthy_checks = s.healthy_checks.saturating_add(1);
                s.consecutive_failures = 0;
                match record.response_time_ms {
                    Some(t) => {
                        s.response_time_total_ms = s.response_time_total_ms.saturating_add(t);
                        s.timed_checks = s.timed_checks.saturating_add(1);
                    },
                    None => {},
                }
            },
            HealthStatus::Unhealthy(_) => {
                s.unhealthy_checks = s.unhealthy_checks.saturating_add(1);
                s.consecutive_failures = s.consecutive_failures.saturating_add(1);
            },
            _ => {},
        }
        self.stats = s;
        self.history.push(record);
        let n = self.history.len();
        if n > self.config.history_limit {
            let tail = self.history.split_off(n - self.config.history_limit);
            self.history = tail;
        }
    }

    /// The last `limit` records (all of them when `limit` is `None` or larger).
    pub fn get_history(&self, limit: Option<usize>) -> (r: Vec<HealthRecord>)
        ensures
            ({
                let n = self.history@.len();
                let k = match limit {
                    Some(l) => if l < n { l as int } else { n as int },
                    None => n as int,
                };
                r@ == self.history@.subrange(n - k, n as int)
            }),
    {
        let n = self.history.len();
        let k = match limit {
            Some(l) => if l < n { l } else { n },
            None => n,
        };
        let mut out: Vec<HealthRecord> = Vec::new();
        let mut i = n - k;
        while i < n
            invariant
                k <= n,
                n - k <= i <= n,
                n == self.history@.len(),
                out@ == self.history@.subrange(n - k, i as int),
            decreases n - i,
        {
            let rec = self.history[i].duplicate();
            assert(rec == self.history@[i as int]);
            let ghost o = out@;
            out.push(rec);
            assert(out@ =~= o.push(self.history@[i as int]));
            assert(self.history@.subrange(n - k, i + 1) =~= self.history@.subrange(n - k, i as int).push(self.history@[i as int]));
            i = i + 1;
        }
        out
    }

    /// Forgets every record.
    pub fn clear_history(&mut self)
        ensures
            final(self).history@.len() == 0,
            final(self).wf(),
            final(self).stats == old(self).stats,
            final(self).config == old(self).config,
            final(self).current == old(self).current,
    {
        self.history.clear();
    }

    /// Restarts the counters at `now_ms`.
    pub fn reset_stats(&mut self, now_ms: i64)
        requires
            old(self).wf(),
        ensures
            final(self).wf(),
            final(self).stats == fresh_stats(now_ms),
            final(self).history == old(self).history,
            final(self).config == old(self).config,
    {
        self.stats = HealthStats::starting_at(now_ms);
    }

    /// The warnings the current run of failures raises.
    pub fn check_auto_actions(&self) -> (r: HealthAlerts)
        ensures
            r.failing == (self.stats.consecutive_failures >= self.config.failure_threshold),
            r.restart_suggested == (self.stats.consecutive_failures >= self.config.auto_restart_threshold),
    {
        HealthAlerts {
            failing: self.stats.consecutive_failures >= self.config.failure_threshold,
            restart_suggested: self.stats.consecutive_failures >= self.config.auto_restart_threshold,
        }
    }
}

/// Whether an HTTP status is a success (2xx).
pub fn status_is_success(status: u16) -> (r: bool)
    ensures
        r == (200 <= status <= 299),
{
    200 <= status && status <= 299
}

/// What to do after a failed attempt of a retried request.
#[derive(PartialEq, Eq, Structural, Clone, Copy, Debug)]
pub enum RetryDecision {
    /// Wait this long, then try again.
    Retry { delay_ms: u64 },
    /// Stop and report the last error.
    GiveUp,
}

/// After attempt `attempt` (counted from 1) of at most `max_retries` failed:
/// retry after `attempt` seconds while attempts remain.
pub fn after_failed_attempt(attempt: u8, max_retries: u8) -> (r: RetryDecision)
    ensures
        attempt < max_retries ==> r == (RetryDecision::Retry { delay_ms: (1000 * attempt) as u64 }),
        attempt >= max_retries ==> r == RetryDecision::GiveUp,
{
    if attempt < max_retries {
        RetryDecision::Retry { delay_ms: 1000 * attempt as u64 }
    } else {
        RetryDecision::GiveUp
    }
}

} // verus!

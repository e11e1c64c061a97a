//! Settings of the log output and the health status of the logging system.
use vstd::prelude::*;
use crate::clock::unix_now;
use crate::errors::text;

verus! {

/// Settings of the log output.
pub struct LoggingConfig {
    /// Log level: trace, debug, info, warn or error.
    pub level: String,
    pub no_log_files: bool,
    pub log_dir: String,
    pub app_log_file: String,
    pub error_log_file: String,
    /// Largest size of a log file, in megabytes.
    pub max_file_size_mb: u64,
    /// Number of log files kept.
    pub max_files: usize,
    pub console_output: bool,
    pub json_format: bool,
    pub include_timestamp: bool,
    pub include_location: bool,
}

impl Default for LoggingConfig {
    fn default() -> (r: LoggingConfig)
        ensures
            r.level@ == "info"@,
            !r.no_log_files,
            r.log_dir@ == "logs"@,
            r.app_log_file@ == "kaseeder.log"@,
            r.error_log_file@ == "kaseeder_error.log"@,
            r.max_file_size_mb == 100,
            r.max_files == 5,
            r.console_output,
            !r.json_format,
            r.include_timestamp,
            r.include_location,
    {
        LoggingConfig {
            level: text("info"),
            no_log_files: false,
            log_dir: text("logs"),
            app_log_file: text("kaseeder.log"),
            error_log_file: text("kaseeder_error.log"),
            max_file_size_mb: 100,
            max_files: 5,
            console_output: true,
            json_format: false,
            include_timestamp: true,
            include_location: true,
        }
    }
}

/// Health of the logging system: healthy exactly when no issue is recorded.
pub struct HealthStatus {
    pub is_healthy: bool,
    pub issues: Vec<String>,
    /// When the status was created, in seconds since the Unix epoch.
    pub last_check: u64,
    pub uptime_seconds: u64,
}

impl HealthStatus {
    /// A healthy status, checked now.
    pub fn new() -> (r: HealthStatus)
        ensures
            r.is_healthy,
            r.issues@.len() == 0,
            r.uptime_seconds == 0,
    {
        HealthStatus { is_healthy: true, issues: Vec::new(), last_check: unix_now(), uptime_seconds: 0 }
    }

    /// Records an issue; the status is no longer healthy.
    pub fn add_issue(&mut self, issue: String)
        ensures
            !final(self).is_healthy,
            final(self).issues@ == old(self).issues@.push(issue),
            final(self).last_check == old(self).last_check,
            final(self).uptime_seconds == old(self).uptime_seconds,
    {
        self.is_healthy = false;
        self.issues.push(issue);
    }

    /// Forgets all issues; the status is healthy again.
    pub fn clear_issues(&mut self)
        ensures
            final(self).is_healthy,
            final(self).issues@.len() == 0,
            final(self).last_check == old(self).last_check,
            final(self).uptime_seconds == old(self).uptime_seconds,
    {
        self.is_healthy = true;
        self.issues.clear();
    }

    /// Sets the uptime to the seconds from `start_time` to `now`; unchanged
    /// when `start_time` lies after `now`.
    pub fn update_uptime(&mut self, start_time: u64, now: u64)
        ensures
            final(self).uptime_seconds == if start_time <= now {
                (now - start_time) as u64
            } else {
                old(self).uptime_seconds
            },
            final(self).is_healthy == old(self).is_healthy,
            final(self).issues@ == old(self).issues@,
            final(self).last_check == old(self).last_check,
    {
        if start_time <= now {
            self.uptime_seconds = now - start_time;
        }
    }
}

} // verus!

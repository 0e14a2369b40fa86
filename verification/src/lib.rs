//! Mount identity checks and named-unit shedding for a host under memory pressure.

pub mod action_laws;
pub mod actions;
pub mod config;
pub mod config_laws;
pub mod daemon;
pub mod daemon_laws;
pub mod evaluation_laws;
pub mod gate;
pub mod gate_laws;
pub mod guardian;
pub mod guardian_laws;
pub mod incident;
pub mod incident_laws;
pub mod input_laws;
pub mod metric_laws;
pub mod metrics;
pub mod mount_laws;
pub mod mounts;
pub mod percent;
pub mod pressure;
pub mod pressure_laws;
pub mod psi;
pub mod psi_laws;
pub mod publish_laws;
pub mod record_laws;
pub mod recording_laws;
pub mod run_laws;
pub mod systemd;
pub mod systemd_laws;
pub mod text;
pub mod text_laws;

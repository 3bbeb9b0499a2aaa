//! Metrics-aggregation sidecar core: discovers which containers to scrape,
//! decides per-container probe success, rewrites each metric sample line to
//! carry the owning container's identity, and merges the results into one
//! payload. All I/O (the container registry, the HTTP layer) lives outside
//! this crate; the functions here work on plain values handed in by the host.
#![verifier::loop_isolation(false)]

pub mod container;
pub mod exporter;
pub mod payload;
pub mod relabel;

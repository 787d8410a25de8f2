//! Finds the vulnerable software that runs on a host.

pub mod api;
pub mod asset;
pub mod asset_laws;
pub mod batch;
pub mod config;
pub mod constraint_laws;
pub mod constraints;
pub mod cpe;
pub mod cpe_laws;
pub mod decimal_laws;
pub mod decimals;
pub mod ending;
pub mod exposure;
pub mod finding_laws;
pub mod gate;
pub mod host;
pub mod host_laws;
pub mod http;
pub mod inventory;
pub mod json;
pub mod list;
pub mod lookup_laws;
pub mod net;
pub mod number;
pub mod order;
pub mod package_laws;
pub mod package_version;
pub mod packages;
pub mod pattern;
pub mod plan;
pub mod probe;
pub mod product_laws;
pub mod purl;
pub mod purl_laws;
pub mod query;
pub mod report;
pub mod report_laws;
pub mod risk;
pub mod run_laws;
pub mod sarif;
pub mod scan;
pub mod scan_laws;
pub mod scanners;
pub mod service_findings;
pub mod service_laws;
pub mod service_lookup;
pub mod service_report;
pub mod service_sarif;
pub mod services;
pub mod severity_laws;
pub mod socket_laws;
pub mod sockets;
pub mod split;
pub mod summary;
pub mod summary_laws;
pub mod table;
pub mod text;
pub mod text_laws;
pub mod threat;
pub mod windows;
pub mod windows_scripts;
pub mod windows_laws;
pub mod windows_services;
pub mod winget;
pub mod winget_laws;

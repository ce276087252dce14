//! Verified decision and text-rendering core of the Arda observability
//! command surface (Aulë CLI and the Prometheus projections).

pub mod text;
pub mod ledger;
pub mod tally;
pub mod queue;
pub mod loop_cmd;
pub mod interactive;
pub mod agents;
pub mod preflight;
pub mod profile;
pub mod hermes_projection;
pub mod package_enablement;
pub mod recovery;
pub mod lines;
pub mod agent_routes;
pub mod agent_field_laws;
pub mod route_matrix;
pub mod output_accounting;
pub mod digest_ids;
pub mod gates;
pub mod scout;
pub mod readiness;
pub mod warden;
pub mod episode;
pub mod ordering;
pub mod council;
pub mod bootstrap;
pub mod dashboard;
pub mod telemetry;
pub mod athena_text;
pub mod system_map;
pub mod escalations;
pub mod patterns;
pub mod missions;
pub mod packet_review;
pub mod mutations;
pub mod presence;
pub mod forge;
pub mod venture;
pub mod mnemosyne;
pub mod crawl_routing;

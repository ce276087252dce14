use arda_aule::agent_routes::{
    extract_agent_block_ranges, get_agent_block_bounds, read_agent_field, update_agent_field,
};
use arda_aule::agents::normalized_agents;
use arda_aule::route_matrix::{current_route_origin, update_route_matrix_origins};

const AGENTS: &str = "[agents.alpha]\nmodel = \"a\"\n\n[agents.beta]\n  model = \"b\"\nrole = \"x\"\n";

#[test]
fn agent_lists_keep_each_name_once_in_order() {
    assert_eq!(
        normalized_agents("alpha, beta gamma,alpha  beta"),
        vec!["alpha".to_string(), "beta".to_string(), "gamma".to_string()]
    );
    assert!(normalized_agents(" , ,, ").is_empty());
}

#[test]
fn agent_blocks_run_to_the_next_header() {
    let blocks = extract_agent_block_ranges(AGENTS);
    assert_eq!(blocks.len(), 2);
    assert_eq!(blocks[0].agent_id, "alpha");
    assert_eq!((blocks[0].start, blocks[0].end), (0, 28));
    assert_eq!(blocks[1].agent_id, "beta");
    assert_eq!((blocks[1].start, blocks[1].end), (28, AGENTS.len()));
    assert_eq!(get_agent_block_bounds(AGENTS, "beta"), Some((28, AGENTS.len())));
    assert_eq!(get_agent_block_bounds(AGENTS, "gamma"), None);
    assert!(extract_agent_block_ranges("[agents. ]\n[agents.x").is_empty());
}

#[test]
fn agent_fields_read_the_first_quoted_assignment() {
    assert_eq!(read_agent_field(AGENTS, "beta", "model").as_deref(), Some("b"));
    assert_eq!(read_agent_field(AGENTS, "alpha", "model").as_deref(), Some("a"));
    assert_eq!(read_agent_field(AGENTS, "alpha", "role"), None);
    assert_eq!(read_agent_field(AGENTS, "gamma", "model"), None);
}

#[test]
fn agent_field_update_rewrites_in_place_or_appends() {
    let replaced = update_agent_field(AGENTS, "beta", "model", "z");
    assert_eq!(
        replaced,
        "[agents.alpha]\nmodel = \"a\"\n\n[agents.beta]\n  model = \"z\"\nrole = \"x\"\n"
    );
    let appended = update_agent_field(AGENTS, "alpha", "role", "y");
    assert_eq!(
        appended,
        "[agents.alpha]\nmodel = \"a\"\nrole = \"y\"\n[agents.beta]\n  model = \"b\"\nrole = \"x\"\n"
    );
    assert_eq!(update_agent_field(AGENTS, "gamma", "model", "q"), AGENTS);
    assert_eq!(read_agent_field(&replaced, "beta", "model").as_deref(), Some("z"));
}

#[test]
fn route_matrix_origin_is_read_and_rewritten() {
    let matrix = "default_inference_origin = \"edge\"\n[tiers.code]\n  primary_origin = \"edge\"\n[tiers.vision]\nprimary_origin = \"edge\"\n";
    assert_eq!(current_route_origin(matrix), "edge");
    assert_eq!(current_route_origin("[x]\n"), "auto");
    let updated = update_route_matrix_origins(matrix, "cloud");
    assert_eq!(
        updated,
        "default_inference_origin = \"cloud\"\n[tiers.code]\n  primary_origin = \"cloud\"\n[tiers.vision]\nprimary_origin = \"edge\"\n"
    );
    assert_eq!(current_route_origin(&updated), "cloud");
    assert_eq!(update_route_matrix_origins("a\nb", "x"), "a\nb");
}

#[test]
fn agent_field_reads_back_what_was_written() {
    let appended = update_agent_field(AGENTS, "alpha", "role", "planner");
    assert_eq!(read_agent_field(&appended, "alpha", "role").as_deref(), Some("planner"));
    assert_eq!(read_agent_field(&appended, "beta", "role").as_deref(), Some("x"));
    let rewritten = update_agent_field(&appended, "alpha", "model", "m \"q\" 2");
    assert_eq!(read_agent_field(&rewritten, "alpha", "model").as_deref(), Some("m \"q\" 2"));
    assert_eq!(read_agent_field(&rewritten, "beta", "model").as_deref(), Some("b"));
}

/// A bare header text left open at the end of a block is closed by a
/// written value holding `]`, and the write then lands outside the block:
/// why the read-back law asks for a block free of other header text.
#[test]
fn agent_field_write_can_close_an_open_header_text() {
    let toml = "[agents.a]\ny = \"1\"\n[agents.\n";
    let written = update_agent_field(toml, "a", "x", "]");
    assert_eq!(written, "[agents.a]\ny = \"1\"\n[agents.\nx = \"]\"\n");
    assert_eq!(read_agent_field(&written, "a", "x"), None);
}

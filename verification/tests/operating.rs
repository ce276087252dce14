use arda_aule::forge::{
    builtin_template_name, choose_script, prompt_not_wired_message, unknown_template_message,
    ScriptChoice,
};
use arda_aule::crawl_routing::{crawl_provider_kind, crawl_step, CrawlProviderKind, CrawlStep};
use arda_aule::mnemosyne::manual_event_tags;
use arda_aule::output_accounting::should_skip_dir;
use arda_aule::venture::{truncate_to_display_limit, venture_next_actions};

#[test]
fn forge_scripts_prefer_files_then_refuse_prompts() {
    assert_eq!(choose_script(true, true), ScriptChoice::ScriptFile);
    assert_eq!(choose_script(false, true), ScriptChoice::PromptNotWired);
    assert_eq!(choose_script(false, false), ScriptChoice::BuiltIn);
    assert_eq!(builtin_template_name("baking"), "prompt_2_baking_prep");
    assert_eq!(builtin_template_name("prompt_3"), "prompt_3_monitor_treatment");
    assert_eq!(builtin_template_name("prompt_1"), "prompt_1_geometry_cleanup");
    assert_eq!(builtin_template_name("anything"), "prompt_1_geometry_cleanup");
    assert_eq!(
        prompt_not_wired_message("p.txt"),
        "--prompt-file p.txt requires Manwe-routed LLM translation, not yet wired in v0. Pass --script for raw Python or --template for a built-in."
    );
    assert_eq!(
        unknown_template_message("x"),
        "unknown --template `x` (try prompt_1, prompt_2, prompt_3)"
    );
}

#[test]
fn venture_recommendations_map_to_next_actions() {
    assert_eq!(
        venture_next_actions("promote_to_review_gated_opportunity_brief")[1],
        "ask ORACLE to challenge assumptions"
    );
    assert_eq!(
        venture_next_actions("continue_research_before_commitment")[0],
        "ingest competitor/customer/problem evidence"
    );
    let other = venture_next_actions("hold");
    assert_eq!(other.len(), 3);
    assert_eq!(other[2], "rerun evaluation after evidence coverage improves");
}

#[test]
fn report_lists_keep_at_least_one_item() {
    let mut v = vec![1, 2, 3];
    truncate_to_display_limit(&mut v, 0);
    assert_eq!(v, vec![1]);
    let mut w = vec![1, 2, 3];
    truncate_to_display_limit(&mut w, 2);
    assert_eq!(w, vec![1, 2]);
    let mut x = vec![1, 2];
    truncate_to_display_limit(&mut x, 10);
    assert_eq!(x, vec![1, 2]);
}

#[test]
fn manual_events_are_tagged_manual_once() {
    assert_eq!(manual_event_tags(vec![]), vec!["manual".to_string()]);
    assert_eq!(
        manual_event_tags(vec!["ops".to_string()]),
        vec!["ops".to_string(), "manual".to_string()]
    );
    assert_eq!(
        manual_event_tags(vec!["manual".to_string(), "ops".to_string()]),
        vec!["manual".to_string(), "ops".to_string()]
    );
}

#[test]
fn mirror_skips_vcs_and_cache_directories() {
    assert!(should_skip_dir(Some(".git")));
    assert!(should_skip_dir(Some("node_modules")));
    assert!(!should_skip_dir(Some("src")));
    assert!(!should_skip_dir(None));
}

#[test]
fn crawl_falls_back_in_order_until_a_provider_succeeds() {
    let order = vec!["scrapling".to_string(), "bogus".to_string(), "crawl4ai".to_string()];
    assert_eq!(crawl_step(&order, None), CrawlStep::Attempt(0, CrawlProviderKind::Scrapling));
    assert_eq!(crawl_step(&order, Some((0, false))), CrawlStep::Attempt(1, CrawlProviderKind::Unsupported));
    assert_eq!(crawl_step(&order, Some((1, false))), CrawlStep::Attempt(2, CrawlProviderKind::Crawl4ai));
    assert_eq!(crawl_step(&order, Some((2, true))), CrawlStep::Finished(2));
    assert_eq!(crawl_step(&order, Some((2, false))), CrawlStep::AllFailed);
    assert_eq!(crawl_step(&Vec::new(), None), CrawlStep::AllFailed);
    assert_eq!(crawl_provider_kind("crawl4ai"), CrawlProviderKind::Crawl4ai);
}

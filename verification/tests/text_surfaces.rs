use arda_aule::athena_text::{
    document_class, markdown_escape_cell, normalize_human_components, pick_wave_candidates,
    preview_text, slugify, title_case, truncate_chars, zip_inventory_text, DocumentClass,
};
use arda_aule::digest_ids::{hex_prefix, sha1_hex, sha1_hex_bytes, short_digest_id};
use arda_aule::interactive::{
    decision_choices, format_decision_prompt_message, is_option_reply, resolve_source_id,
    prompt_id_from, should_offer_decision_prompt, DecisionOption, DigestEntry, HermesService,
};
use arda_aule::output_accounting::{
    build_cache_status, file_disposition, glob_to_regex, is_backup_file_name, matches_any,
    plan_candidate, safe_slug, AccountingAction, AccountingCandidate, FileDisposition, MirrorStats,
};

fn s(v: &str) -> String {
    v.to_string()
}

#[test]
fn sha1_digest_matches_the_known_vector() {
    assert_eq!(sha1_hex("abc"), "a9993e364706816aba3e25717850c26c9cd0d89d");
    assert_eq!(sha1_hex(""), "da39a3ee5e6b4b0d3255bfef95601890afd80709");
    assert_eq!(sha1_hex_bytes(&b"abc".to_vec()), sha1_hex("abc"));
    assert_eq!(short_digest_id("p_", "abc"), "p_a9993e364706");
    assert_eq!(hex_prefix(&vec![0x0f, 0xa0], 3), "0fa");
}

#[test]
fn decision_prompt_ids_are_fresh_v4_uuids() {
    let svc = HermesService;
    let options = vec![DecisionOption { key: s("a"), label: s("Go"), action: s("go") }];
    let p = svc.create_decision_prompt("discord", "op", "chan", "Next?", options);
    assert_eq!(p.question, "Next?");
    assert_eq!(p.prompt_id.len(), 43);
    assert!(p.prompt_id.starts_with("prompt-"));
    let uuid = &p.prompt_id[7..];
    assert_eq!(&uuid[14..15], "4");
    assert!(uuid.chars().enumerate().all(|(i, c)| if [8, 13, 18, 23].contains(&i) {
        c == '-'
    } else {
        c.is_ascii_hexdigit() && !c.is_ascii_uppercase()
    }));
    let q = svc.create_decision_prompt("discord", "op", "chan", "Next?", vec![]);
    assert_ne!(p.prompt_id, q.prompt_id);
    assert_eq!(
        format_decision_prompt_message(&p),
        format!("Decision: Next?\nPrompt ID: {}\n\nA. Go\n\nReply with A, B, or C.", p.prompt_id)
    );
}

#[test]
fn decision_choices_follow_the_queue() {
    let (q, opts) = decision_choices(&vec![]);
    assert_eq!(q, "Queue is empty. Choose next mode.");
    assert_eq!(opts[1].action, "execute hades maintenance sweep");
    let (q2, opts2) = decision_choices(&vec![s("task-1"), s("task-2")]);
    assert_eq!(q2, "Queue has 2 pending tasks. Choose next action.");
    assert_eq!(opts2[0].label, "Execute task-1");
    assert_eq!(opts2[0].action, "execute queued task task-1");
}

#[test]
fn option_replies_are_recognized() {
    assert!(is_option_reply(" B) "));
    assert!(is_option_reply("a."));
    assert!(!is_option_reply("d"));
    assert!(!is_option_reply("abc"));
    assert!(should_offer_decision_prompt(true, "Discord", "Operator", "operator", "what next?"));
    assert!(!should_offer_decision_prompt(true, "discord", "operator", "operator", "c"));
    assert!(!should_offer_decision_prompt(true, "slack", "operator", "operator", "hi"));
}

#[test]
fn source_ids_resolve_to_the_last_matching_digest_entry() {
    let entries = vec![
        DigestEntry { id: Some(s("src_1")), raw_input: Some(s("book")), url: None, book_ref: None },
        DigestEntry { id: Some(s("src_2")), raw_input: None, url: Some(s("book")), book_ref: None },
    ];
    assert_eq!(resolve_source_id(" book ", &entries), "src_2");
    assert_eq!(resolve_source_id("src_9", &entries), "src_9");
    assert_eq!(resolve_source_id("other", &entries), "other");
}

#[test]
fn globs_match_through_the_regex_crate() {
    assert_eq!(glob_to_regex("*.log"), "^.*\\.log$");
    assert_eq!(glob_to_regex("a?b"), "^a.b$");
    let globs = vec![s("*.log"), s("cache/*")];
    assert!(matches_any("x/y.log", &globs));
    assert!(matches_any("cache/file", &globs));
    assert!(!matches_any("x/y.txt", &globs));
    assert!(!matches_any("y.logs", &globs));
}

#[test]
fn file_disposition_prefers_exclusion() {
    let ex = vec![s("*.tmp")];
    let gz = vec![s("*.json"), s("*.tmp")];
    assert_eq!(file_disposition("a\\b.tmp", &ex, &gz), FileDisposition::Skip);
    assert_eq!(file_disposition("a\\b.json", &ex, &gz), FileDisposition::Compress);
    assert_eq!(file_disposition("a/b.txt", &ex, &gz), FileDisposition::Copy);
}

#[test]
fn mirror_accounting_counts_every_file_once() {
    let mut m = MirrorStats::new();
    m.record_copied(10);
    m.record_compressed(100, 30);
    m.record_skipped(5);
    assert_eq!(m.files, 2);
    assert_eq!(m.bytes, 40);
    assert_eq!(m.compressed_files, 1);
    assert_eq!(m.skipped_files, 1);
    assert_eq!(m.skipped_bytes, 5);
    assert_eq!(m.observed_source_bytes, 115);
    assert_eq!(build_cache_status(115, 100), "pressure_remaining");
    assert_eq!(build_cache_status(100, 100), "ok");
}

#[test]
fn accounting_candidates_plan_mirror_or_manifest() {
    let p = plan_candidate(&AccountingCandidate { path: Some(s(" C:\\data/x ")), recommended_action: None });
    assert_eq!(p.source_rel, "C:\\data/x");
    assert_eq!(p.recommended_action, "mirror_tree");
    assert_eq!(p.action, AccountingAction::MirrorTree);
    assert_eq!(p.mirror_slug, safe_slug("C:\\data/x"));
    assert_eq!(safe_slug("C:\\data/x"), "C___data__x");
    let m = plan_candidate(&AccountingCandidate { path: None, recommended_action: Some(s("snapshot_manifest")) });
    assert_eq!(m.action, AccountingAction::SnapshotManifest);
    assert!(is_backup_file_name("a.bak.1"));
    assert!(!is_backup_file_name("a.bak"));
}

#[test]
fn athena_text_helpers() {
    assert_eq!(slugify("Hello, Wörld!  Again"), "hello_w_rld_again");
    assert_eq!(slugify("ÀB"), "b");
    assert_eq!(title_case("ßtraße"), "SStraße");
    assert_eq!(title_case(""), "");
    assert_eq!(markdown_escape_cell("a|b\nc"), "a\\|b c");
    assert_eq!(truncate_chars("héllo", 2), "hé");
    assert_eq!(preview_text("  hello  ", 3), "hel");
    assert_eq!(zip_inventory_text(""), "Archive inventory:\n");
    assert_eq!(zip_inventory_text(" a \nb"), "Archive inventory:\n\n- a\n- b");
    assert_eq!(
        normalize_human_components(vec![s("human"), s("Notes"), s("x")]),
        vec![s("human"), s("notes"), s("x")]
    );
    assert_eq!(document_class(Some("DOCX")), DocumentClass::Document);
    assert_eq!(document_class(Some("zip")).name(), "archive");
    assert_eq!(document_class(None), DocumentClass::Unknown);
    let classes = vec![Some(s("text")), Some(s("document")), None, Some(s("text")), Some(s("archive"))];
    assert_eq!(pick_wave_candidates(&classes, false, 0), vec![0]);
    assert_eq!(pick_wave_candidates(&classes, true, 5), vec![1, 4]);
}

#[test]
fn prompt_ids_prefix_the_uuid() {
    assert_eq!(prompt_id_from("0f8e3a1c-2b4d-4e6f-8a9b-0c1d2e3f4a5b"), "prompt-0f8e3a1c-2b4d-4e6f-8a9b-0c1d2e3f4a5b");
}

#[test]
fn string_characters_round_trip() {
    let chars = arda_aule::text::str_chars("añb€");
    assert_eq!(chars, vec!['a', 'ñ', 'b', '€']);
    assert_eq!(arda_aule::text::chars_to_string(&chars), "añb€");
}

#[test]
fn word_document_text_is_unescaped_and_paragraphed() {
    let xml = "<w:document><w:p><w:r><w:t>Tom &amp; Jerry</w:t></w:r></w:p><w:p><w:t>&lt;b&gt; &quot;x&quot; &apos;y&apos;</w:t></w:p></w:document>";
    assert_eq!(
        arda_aule::athena_text::docx_body_text(xml).as_deref(),
        Some("Tom & Jerry\n\n<b> \"x\" 'y'")
    );
    assert!(!arda_aule::athena_text::extracted_content_usable(" \n\t"));
    assert!(arda_aule::athena_text::extracted_content_usable(" a "));
}

//! Forge script resolution: where the Blender script of an asset upgrade
//! comes from, and which built-in template a template name selects.

use vstd::prelude::*;
use crate::text::{chars_to_string, push_str, str_eq};

verus! {

/// Where the upgrade script comes from.
#[derive(Debug, Clone, Copy, PartialEq, Eq, Structural)]
pub enum ScriptChoice {
    /// The file given with `--script`, read as raw Python; exported by default.
    ScriptFile,
    /// A prompt file needs LLM translation, which is not wired: refused.
    PromptNotWired,
    /// A built-in template.
    BuiltIn,
}

/// Chooses the script source: an explicit script wins, then a prompt file
/// (refused), then the named template.
pub fn choose_script(has_script: bool, has_prompt: bool) -> (c: ScriptChoice)
    ensures
        c == if has_script {
            ScriptChoice::ScriptFile
        } else if has_prompt {
            ScriptChoice::PromptNotWired
        } else {
            ScriptChoice::BuiltIn
        },
{
    if has_script {
        ScriptChoice::ScriptFile
    } else if has_prompt {
        ScriptChoice::PromptNotWired
    } else {
        ScriptChoice::BuiltIn
    }
}

/// The canonical built-in template a template name selects; every name
/// that is not a baking or monitoring alias selects geometry cleanup.
pub open spec fn builtin_name_of(template: Seq<char>) -> Seq<char> {
    if template == "prompt_2"@ || template == "prompt_2_baking_prep"@ || template == "baking"@ {
        "prompt_2_baking_prep"@
    } else if template == "prompt_3"@ || template == "prompt_3_monitor_treatment"@ || template == "monitor"@ {
        "prompt_3_monitor_treatment"@
    } else {
        "prompt_1_geometry_cleanup"@
    }
}

/// Names the built-in template that a template name selects.
pub fn builtin_template_name(template: &str) -> (s: &'static str)
    ensures
        s@ == builtin_name_of(template@),
{
    if str_eq(template, "prompt_2") || str_eq(template, "prompt_2_baking_prep") || str_eq(template, "baking") {
        "prompt_2_baking_prep"
    } else if str_eq(template, "prompt_3") || str_eq(template, "prompt_3_monitor_treatment")
        || str_eq(template, "monitor") {
        "prompt_3_monitor_treatment"
    } else {
        "prompt_1_geometry_cleanup"
    }
}

/// The refusal of a prompt file.
pub fn prompt_not_wired_message(path: &str) -> (s: String)
    ensures
        s@ == "--prompt-file "@ + path@
            + " requires Manwe-routed LLM translation, not yet wired in v0. Pass --script for raw Python or --template for a built-in."@,
{
    let mut out: Vec<char> = Vec::new();
    push_str(&mut out, "--prompt-file ");
    push_str(&mut out, path);
    push_str(
        &mut out,
        " requires Manwe-routed LLM translation, not yet wired in v0. Pass --script for raw Python or --template for a built-in.",
    );
    chars_to_string(out.as_slice())
}

/// The refusal of a template name that names no built-in template.
pub fn unknown_template_message(template: &str) -> (s: String)
    ensures
        s@ == "unknown --template `"@ + template@ + "` (try prompt_1, prompt_2, prompt_3)"@,
{
    let mut out: Vec<char> = Vec::new();
    push_str(&mut out, "unknown --template `");
    push_str(&mut out, template);
    push_str(&mut out, "` (try prompt_1, prompt_2, prompt_3)");
    chars_to_string(out.as_slice())
}

/// Law (built-in templates): every template name selects one of the three
/// canonical templates, and a canonical name selects itself; the baking
/// and monitoring aliases "prompt_2", "baking", "prompt_3" and "monitor"
/// select their templates.
pub proof fn law_builtin_names_are_canonical(template: Seq<char>)
    ensures
        builtin_name_of(template) == "prompt_1_geometry_cleanup"@ || builtin_name_of(template) == "prompt_2_baking_prep"@
            || builtin_name_of(template) == "prompt_3_monitor_treatment"@,
        builtin_name_of(builtin_name_of(template)) == builtin_name_of(template),
        (template == "prompt_2"@ || template == "baking"@) ==> builtin_name_of(template) == "prompt_2_baking_prep"@,
        (template == "prompt_3"@ || template == "monitor"@) ==> builtin_name_of(template) == "prompt_3_monitor_treatment"@,
{
    reveal_strlit("prompt_1_geometry_cleanup");
    reveal_strlit("prompt_2_baking_prep");
    reveal_strlit("prompt_3_monitor_treatment");
    reveal_strlit("prompt_2");
    reveal_strlit("baking");
    reveal_strlit("prompt_3");
    reveal_strlit("monitor");
    let g = "prompt_1_geometry_cleanup"@;
    assert(g.len() == 25 && "prompt_2_baking_prep"@.len() == 20 && "prompt_3_monitor_treatment"@.len() == 26);
    assert(g.len() != "prompt_2"@.len() && g.len() != "baking"@.len() && g.len() != "monitor"@.len());
    assert("prompt_3"@[7] != "prompt_2"@[7]);
    assert("monitor"@.len() != "prompt_2"@.len() && "monitor"@.len() != "baking"@.len());
}

} // verus!

//! The Genie engine's chat template.
use vstd::prelude::*;

use crate::text::{contains_seq, str_contains};

verus! {

/// The Phi-style chat template around a user message.
pub open spec fn phi_template(prompt: Seq<char>) -> Seq<char> {
    "<|user|>\n"@ + prompt + "<|end|>\n<|assistant|>\n"@
}

/// The prompt handed to Genie: a prompt that already holds a user marker is
/// taken as it is, any other is wrapped in the chat template.
pub open spec fn genie_prompt(prompt: Seq<char>) -> Seq<char> {
    if contains_seq(prompt, "<|user|>"@) {
        prompt
    } else {
        phi_template(prompt)
    }
}

/// Formats a prompt for the Genie dialog.
pub fn format_genie_prompt(prompt: &str) -> (r: String)
    ensures
        r@ == genie_prompt(prompt@),
        contains_seq(prompt@, "<|user|>"@) ==> r@ == prompt@,
        !contains_seq(prompt@, "<|user|>"@) ==> r@ == "<|user|>\n"@ + prompt@
            + "<|end|>\n<|assistant|>\n"@,
{
    if str_contains(prompt, "<|user|>") {
        String::from_str(prompt)
    } else {
        let mut r = String::from_str("<|user|>\n");
        r.append(prompt);
        r.append("<|end|>\n<|assistant|>\n");
        r
    }
}

/// The templated prompt holds the user marker.
pub proof fn lemma_template_has_marker(prompt: Seq<char>)
    ensures
        contains_seq(phi_template(prompt), "<|user|>"@),
{
    reveal_strlit("<|user|>\n");
    reveal_strlit("<|user|>");
    let t = phi_template(prompt);
    assert(t.subrange(0, 8) =~= "<|user|>"@);
    assert(crate::text::occurs_at(t, "<|user|>"@, 0));
}

/// Formatting is idempotent: a formatted prompt is handed on unchanged.
pub proof fn lemma_genie_prompt_idempotent(prompt: Seq<char>)
    ensures
        genie_prompt(genie_prompt(prompt)) == genie_prompt(prompt),
        contains_seq(genie_prompt(prompt), "<|user|>"@),
{
    lemma_template_has_marker(prompt);
}

/// A prompt that holds `<|user|>` anywhere is handed to Genie exactly as it
/// is; any other prompt is wrapped once in the Phi template.
pub proof fn lemma_genie_prompt_wraps_only_unmarked(prompt: Seq<char>)
    ensures
        contains_seq(prompt, "<|user|>"@) ==> genie_prompt(prompt) == prompt,
        !contains_seq(prompt, "<|user|>"@) ==> genie_prompt(prompt) == "<|user|>\n"@ + prompt
            + "<|end|>\n<|assistant|>\n"@,
{
}

} // verus!

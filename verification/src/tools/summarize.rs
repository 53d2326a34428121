//! The prompt that asks the local model for a summary.
use vstd::prelude::*;

verus! {

/// The summarization prompt for `topic` over `context`.
pub open spec fn summary_prompt_of(topic: Seq<char>, context: Seq<char>) -> Seq<char> {
    "Summarize research findings about '"@ + topic + "'. Use this context:\n"@ + context
        + "\nProvide concise bullets."@
}

/// Builds the summarization prompt for `topic` over `context`.
pub fn summary_prompt(topic: &str, context: &str) -> (p: String)
    ensures
        p@ == summary_prompt_of(topic@, context@),
{
    let mut p = String::from_str("Summarize research findings about '");
    p.append(topic);
    p.append("'. Use this context:\n");
    p.append(context);
    p.append("\nProvide concise bullets.");
    proof {
        reveal_strlit("Summarize research findings about '");
        reveal_strlit("'. Use this context:\n");
        reveal_strlit("\nProvide concise bullets.");
    }
    p
}

} // verus!

//! Token usage: gemini counts in the responses shape.
use vstd::prelude::*;

use crate::gemini::UsageMetadata;
use crate::responses::{InputTokenDetails, OutputTokenDetails, ResponseUsage};

verus! {

/// A gemini token count: none and negative ones count as zero.
pub open spec fn count_of(value: Option<i32>) -> int {
    match value {
        Some(count) => if count < 0 {
            0
        } else {
            count as int
        },
        None => 0,
    }
}

/// A sum that stops at the largest count.
pub open spec fn saturated(sum: int) -> int {
    if sum > u32::MAX {
        u32::MAX as int
    } else {
        sum
    }
}

/// Gemini token counts in the responses shape: the output counts the thoughts in.
pub open spec fn usage_of(counts: UsageMetadata) -> ResponseUsage {
    ResponseUsage {
        input_tokens: count_of(counts.prompt_token_count) as u32,
        input_tokens_details: InputTokenDetails {
            cached_tokens: count_of(counts.cached_content_token_count) as u32,
        },
        output_tokens: saturated(
            count_of(counts.candidates_token_count) + count_of(counts.thoughts_token_count),
        ) as u32,
        output_tokens_details: OutputTokenDetails {
            reasoning_tokens: count_of(counts.thoughts_token_count) as u32,
        },
        total_tokens: count_of(counts.total_token_count) as u32,
    }
}

/// A gemini token count (`Option<i32>`) as a saturating `u32`.
pub fn token_count(value: Option<i32>) -> (count: u32)
    ensures
        count == count_of(value),
{
    match value {
        Some(count) => if count < 0 {
            0
        } else {
            count as u32
        },
        None => 0,
    }
}

/// Map gemini usage onto codex `ResponseUsage` with `OpenAI` semantics.
///
/// gemini's `candidates_token_count` EXCLUDES thinking tokens (`total = prompt + candidates +
/// thoughts`), but `OpenAI`'s `output_tokens` INCLUDES `reasoning_tokens`; so output is
/// candidates+thoughts, keeping reasoning a subset of output and `input + output == total`.
pub fn map_usage(meta: &UsageMetadata) -> (usage: ResponseUsage)
    ensures
        usage == usage_of(*meta),
{
    let reasoning_tokens = token_count(meta.thoughts_token_count);
    ResponseUsage {
        input_tokens: token_count(meta.prompt_token_count),
        input_tokens_details: InputTokenDetails {
            cached_tokens: token_count(meta.cached_content_token_count),
        },
        output_tokens: token_count(meta.candidates_token_count).saturating_add(reasoning_tokens),
        output_tokens_details: OutputTokenDetails { reasoning_tokens },
        total_tokens: token_count(meta.total_token_count),
    }
}

/// Reasoning tokens are a part of the output tokens.
pub proof fn law_reasoning_is_output(counts: UsageMetadata)
    ensures
        usage_of(counts).output_tokens_details.reasoning_tokens <= usage_of(counts).output_tokens,
{
}

/// Input and output add up to the total whenever gemini's own counts do.
pub proof fn law_usage_adds_up(counts: UsageMetadata)
    requires
        count_of(counts.total_token_count) == count_of(counts.prompt_token_count) + count_of(
            counts.candidates_token_count,
        ) + count_of(counts.thoughts_token_count),
    ensures
        usage_of(counts).input_tokens + usage_of(counts).output_tokens == usage_of(
            counts,
        ).total_tokens,
{
}

} // verus!

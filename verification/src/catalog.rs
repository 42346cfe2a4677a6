//! The model catalog: one typed template and the identity of each tier.
use vstd::prelude::*;

use crate::codex::{effort_named, CodexEffort, CodexReq};
use crate::gemini::ThinkingLevel;
use crate::request::{level_of, requested_effort, thinking_of};

verus! {

/// A reasoning-effort option surfaced for a model.
#[derive(Clone, Copy, Debug)]
pub struct ReasoningLevel {
    /// Effort description.
    pub description: &'static str,
    /// Effort key.
    pub effort: &'static str,
}

/// The byte-truncation policy for tool output.
#[derive(Clone, Copy, Debug)]
pub struct TruncationPolicy {
    /// Byte cap.
    pub limit: u32,
    /// Truncation mode.
    pub mode: &'static str,
}

/// One catalog model entry; fields are alphabetical to match the canonical JSON.
#[derive(Debug)]
pub struct CatalogModel<'text> {
    /// `apply_patch` tool type; null for gemini (edits via shell).
    pub apply_patch_tool_type: Option<&'static str>,
    /// Engine auto-compaction trigger; null (app-layer compaction owns this).
    pub auto_compact_token_limit: Option<u32>,
    /// The shared coding-agent prompt.
    pub base_instructions: &'text str,
    /// Real model context window.
    pub context_window: u32,
    /// Default reasoning effort.
    pub default_reasoning_level: &'static str,
    /// Default reasoning summary mode.
    pub default_reasoning_summary: &'static str,
    /// Default verbosity.
    pub default_verbosity: &'static str,
    /// Per-tier description.
    pub description: &'text str,
    /// Per-tier display name.
    pub display_name: &'text str,
    /// Usable context-window percentage.
    pub effective_context_window_percent: u32,
    /// Experimental tool names.
    pub experimental_supported_tools: Vec<&'static str>,
    /// Max context window.
    pub max_context_window: u32,
    /// Max output tokens.
    pub max_output_tokens: u32,
    /// Multi-agent protocol version; null.
    pub multi_agent_version: Option<&'static str>,
    /// Catalog ordering priority.
    pub priority: u32,
    /// Shell tool type.
    pub shell_type: &'static str,
    /// Model id.
    pub slug: &'text str,
    /// Whether verbosity control is supported.
    pub support_verbosity: bool,
    /// Whether the model is exposed in the API.
    pub supported_in_api: bool,
    /// Reasoning-effort options.
    pub supported_reasoning_levels: Vec<ReasoningLevel>,
    /// Whether image detail `original` is supported.
    pub supports_image_detail_original: bool,
    /// Whether parallel tool calls are supported.
    pub supports_parallel_tool_calls: bool,
    /// Whether reasoning summaries are supported.
    pub supports_reasoning_summaries: bool,
    /// Whether the search tool is supported.
    pub supports_search_tool: bool,
    /// Tool mode.
    pub tool_mode: &'static str,
    /// Byte-truncation policy for tool output.
    pub truncation_policy: TruncationPolicy,
    /// Catalog visibility.
    pub visibility: &'static str,
    /// Web-search tool type.
    pub web_search_tool_type: &'static str,
}

/// The full catalog document.
#[derive(Debug)]
pub struct Catalog<'text> {
    /// The model entries.
    pub models: Vec<CatalogModel<'text>>,
}

/// The model of a `ReasoningLevel`.
pub struct ReasoningLevelView {
    pub description: Seq<char>,
    pub effort: Seq<char>,
}

/// The model of a `TruncationPolicy`.
pub struct TruncationPolicyView {
    pub limit: u32,
    pub mode: Seq<char>,
}

/// The model of a `CatalogModel`.
pub struct CatalogModelView {
    pub apply_patch_tool_type: Option<Seq<char>>,
    pub auto_compact_token_limit: Option<u32>,
    pub base_instructions: Seq<char>,
    pub context_window: u32,
    pub default_reasoning_level: Seq<char>,
    pub default_reasoning_summary: Seq<char>,
    pub default_verbosity: Seq<char>,
    pub description: Seq<char>,
    pub display_name: Seq<char>,
    pub effective_context_window_percent: u32,
    pub experimental_supported_tools: Seq<Seq<char>>,
    pub max_context_window: u32,
    pub max_output_tokens: u32,
    pub multi_agent_version: Option<Seq<char>>,
    pub priority: u32,
    pub shell_type: Seq<char>,
    pub slug: Seq<char>,
    pub support_verbosity: bool,
    pub supported_in_api: bool,
    pub supported_reasoning_levels: Seq<ReasoningLevelView>,
    pub supports_image_detail_original: bool,
    pub supports_parallel_tool_calls: bool,
    pub supports_reasoning_summaries: bool,
    pub supports_search_tool: bool,
    pub tool_mode: Seq<char>,
    pub truncation_policy: TruncationPolicyView,
    pub visibility: Seq<char>,
    pub web_search_tool_type: Seq<char>,
}

impl View for ReasoningLevel {
    type V = ReasoningLevelView;

    open spec fn view(&self) -> ReasoningLevelView {
        ReasoningLevelView { description: self.description@, effort: self.effort@ }
    }
}

impl View for TruncationPolicy {
    type V = TruncationPolicyView;

    open spec fn view(&self) -> TruncationPolicyView {
        TruncationPolicyView { limit: self.limit, mode: self.mode@ }
    }
}

/// The text of an optional name.
pub open spec fn text_opt(name: Option<&str>) -> Option<Seq<char>> {
    match name {
        Some(text) => Some(text@),
        None => None,
    }
}

impl<'text> View for CatalogModel<'text> {
    type V = CatalogModelView;

    open spec fn view(&self) -> CatalogModelView {
        CatalogModelView {
            apply_patch_tool_type: text_opt(self.apply_patch_tool_type),
            auto_compact_token_limit: self.auto_compact_token_limit,
            base_instructions: self.base_instructions@,
            context_window: self.context_window,
            default_reasoning_level: self.default_reasoning_level@,
            default_reasoning_summary: self.default_reasoning_summary@,
            default_verbosity: self.default_verbosity@,
            description: self.description@,
            display_name: self.display_name@,
            effective_context_window_percent: self.effective_context_window_percent,
            experimental_supported_tools: Seq::new(
                self.experimental_supported_tools@.len(),
                |i: int| self.experimental_supported_tools@[i]@,
            ),
            max_context_window: self.max_context_window,
            max_output_tokens: self.max_output_tokens,
            multi_agent_version: text_opt(self.multi_agent_version),
            priority: self.priority,
            shell_type: self.shell_type@,
            slug: self.slug@,
            support_verbosity: self.support_verbosity,
            supported_in_api: self.supported_in_api,
            supported_reasoning_levels: level_views(self.supported_reasoning_levels@),
            supports_image_detail_original: self.supports_image_detail_original,
            supports_parallel_tool_calls: self.supports_parallel_tool_calls,
            supports_reasoning_summaries: self.supports_reasoning_summaries,
            supports_search_tool: self.supports_search_tool,
            tool_mode: self.tool_mode@,
            truncation_policy: self.truncation_policy@,
            visibility: self.visibility@,
            web_search_tool_type: self.web_search_tool_type@,
        }
    }
}

/// The models of reasoning levels.
pub open spec fn level_views(levels: Seq<ReasoningLevel>) -> Seq<ReasoningLevelView> {
    Seq::new(levels.len(), |i: int| levels[i]@)
}

/// The reasoning-effort options every tier shares.
pub open spec fn shared_levels() -> Seq<ReasoningLevelView> {
    seq![
        ReasoningLevelView {
            description: "Fastest, lightest reasoning for simple tasks where depth is unneeded"@,
            effort: "minimal"@,
        },
        ReasoningLevelView {
            description: "Balances speed with some reasoning; useful for straightforward queries and short explanations"@,
            effort: "low"@,
        },
        ReasoningLevelView {
            description: "Provides a solid balance of reasoning depth and latency for general-purpose tasks"@,
            effort: "medium"@,
        },
        ReasoningLevelView {
            description: "Maximizes reasoning depth for complex or ambiguous problems"@,
            effort: "high"@,
        },
        ReasoningLevelView {
            description: "Extra high reasoning for complex problems"@,
            effort: "xhigh"@,
        },
    ]
}

/// The entry of a tier: its identity in the shared template.
pub open spec fn entry_of(
    slug: Seq<char>,
    display_name: Seq<char>,
    description: Seq<char>,
    base_instructions: Seq<char>,
) -> CatalogModelView {
    CatalogModelView {
        apply_patch_tool_type: None,
        auto_compact_token_limit: None,
        base_instructions,
        context_window: 0x10_0000,
        default_reasoning_level: "medium"@,
        default_reasoning_summary: "auto"@,
        default_verbosity: "low"@,
        description,
        display_name,
        effective_context_window_percent: 90,
        experimental_supported_tools: Seq::empty(),
        max_context_window: 0x10_0000,
        max_output_tokens: 0x1_0000,
        multi_agent_version: None,
        priority: 10,
        shell_type: "shell_command"@,
        slug,
        support_verbosity: true,
        supported_in_api: true,
        supported_reasoning_levels: shared_levels(),
        supports_image_detail_original: true,
        supports_parallel_tool_calls: true,
        supports_reasoning_summaries: true,
        supports_search_tool: true,
        tool_mode: "default"@,
        truncation_policy: TruncationPolicyView { limit: 10_000, mode: "bytes"@ },
        visibility: "list"@,
        web_search_tool_type: "text"@,
    }
}

/// The reasoning-effort options every tier shares.
pub fn reasoning_levels() -> (levels: Vec<ReasoningLevel>)
    ensures
        level_views(levels@) == shared_levels(),
{
    let levels: Vec<ReasoningLevel> = vec![
        ReasoningLevel {
            description: "Fastest, lightest reasoning for simple tasks where depth is unneeded",
            effort: "minimal",
        },
        ReasoningLevel {
            description: "Balances speed with some reasoning; useful for straightforward queries and short explanations",
            effort: "low",
        },
        ReasoningLevel {
            description: "Provides a solid balance of reasoning depth and latency for general-purpose tasks",
            effort: "medium",
        },
        ReasoningLevel {
            description: "Maximizes reasoning depth for complex or ambiguous problems",
            effort: "high",
        },
        ReasoningLevel {
            description: "Extra high reasoning for complex problems",
            effort: "xhigh",
        },
    ];
    assert(level_views(levels@) =~= shared_levels());
    levels
}

/// Build one model entry from its per-tier identity; every other field is the shared template.
pub fn model<'text>(
    slug: &'text str,
    display_name: &'text str,
    description: &'text str,
    base_instructions: &'text str,
) -> (entry: CatalogModel<'text>)
    ensures
        entry@ == entry_of(slug@, display_name@, description@, base_instructions@),
{
    let entry = CatalogModel {
        apply_patch_tool_type: None,
        auto_compact_token_limit: None,
        base_instructions,
        context_window: 0x10_0000,
        default_reasoning_level: "medium",
        default_reasoning_summary: "auto",
        default_verbosity: "low",
        description,
        display_name,
        effective_context_window_percent: 90,
        experimental_supported_tools: Vec::new(),
        max_context_window: 0x10_0000,
        max_output_tokens: 0x1_0000,
        multi_agent_version: None,
        priority: 10,
        shell_type: "shell_command",
        slug,
        support_verbosity: true,
        supported_in_api: true,
        supported_reasoning_levels: reasoning_levels(),
        supports_image_detail_original: true,
        supports_parallel_tool_calls: true,
        supports_reasoning_summaries: true,
        supports_search_tool: true,
        tool_mode: "default",
        truncation_policy: TruncationPolicy { limit: 10_000, mode: "bytes" },
        visibility: "list",
        web_search_tool_type: "text",
    };
    assert(entry@.experimental_supported_tools =~= Seq::empty());
    entry
}

/// The entries of the tiers, in order.
pub open spec fn tiers(base_instructions: Seq<char>) -> Seq<CatalogModelView> {
    seq![
        entry_of(
            "gemini-3.1-pro-preview"@,
            "Gemini 3.1 Pro"@,
            "Gemini 3.1 Pro via pure-Rust bridge"@,
            base_instructions,
        ),
        entry_of(
            "gemini-3.5-flash"@,
            "Gemini 3.5 Flash"@,
            "Gemini 3.5 Flash via pure-Rust bridge"@,
            base_instructions,
        ),
        entry_of(
            "gemini-3.1-flash-lite"@,
            "Gemini 3.1 Flash-Lite"@,
            "Gemini 3.1 Flash-Lite via pure-Rust bridge"@,
            base_instructions,
        ),
    ]
}

/// The catalog of all tiers, over the shared coding-agent prompt.
pub fn catalog(base_instructions: &str) -> (catalog: Catalog<'_>)
    ensures
        Seq::new(catalog.models@.len(), |i: int| catalog.models@[i]@) == tiers(
            base_instructions@,
        ),
{
    let models = vec![
        model(
            "gemini-3.1-pro-preview",
            "Gemini 3.1 Pro",
            "Gemini 3.1 Pro via pure-Rust bridge",
            base_instructions,
        ),
        model(
            "gemini-3.5-flash",
            "Gemini 3.5 Flash",
            "Gemini 3.5 Flash via pure-Rust bridge",
            base_instructions,
        ),
        model(
            "gemini-3.1-flash-lite",
            "Gemini 3.1 Flash-Lite",
            "Gemini 3.1 Flash-Lite via pure-Rust bridge",
            base_instructions,
        ),
    ];
    assert(Seq::new(models@.len(), |i: int| models@[i]@) =~= tiers(base_instructions@));
    Catalog { models }
}

/// The names of the efforts are told apart.
proof fn lemma_effort_names()
    ensures
        effort_named("minimal"@) == CodexEffort::Minimal,
        effort_named("low"@) == CodexEffort::Low,
        effort_named("medium"@) == CodexEffort::Medium,
        effort_named("high"@) == CodexEffort::High,
        effort_named("xhigh"@) == CodexEffort::Xhigh,
{
    reveal_strlit("high");
    reveal_strlit("low");
    reveal_strlit("medium");
    reveal_strlit("minimal");
    reveal_strlit("none");
    reveal_strlit("xhigh");
    assert("high"@[0] == 'h');
    assert("none"@[0] == 'n');
    assert("xhigh"@[0] == 'x');
    assert("minimal"@.len() == 7);
    assert("medium"@.len() == 6);
    assert("low"@.len() == 3);
}

/// A request without an effort thinks at the level that the catalog advertises as the default.
pub proof fn law_absent_effort_is_the_advertised_default(req: CodexReq, entry: CatalogModelView)
    requires
        requested_effort(req) is None,
        exists|slug: Seq<char>, display_name: Seq<char>, description: Seq<char>, base: Seq<char>|
            entry == #[trigger] entry_of(slug, display_name, description, base),
    ensures
        thinking_of(req).thinking_level == level_of(effort_named(entry.default_reasoning_level)),
{
    lemma_effort_names();
}

/// Every effort that the catalog offers is known to the bridge, and the offers are in order of
/// their thinking level.
pub proof fn law_offered_efforts_are_known(i: int)
    requires
        0 <= i < shared_levels().len(),
    ensures
        effort_named(shared_levels()[i].effort) != CodexEffort::Custom,
        i == 0 ==> level_of(effort_named(shared_levels()[i].effort)) == ThinkingLevel::Minimal,
        i == 1 ==> level_of(effort_named(shared_levels()[i].effort)) == ThinkingLevel::Low,
        i == 2 ==> level_of(effort_named(shared_levels()[i].effort)) == ThinkingLevel::Medium,
        i >= 3 ==> level_of(effort_named(shared_levels()[i].effort)) == ThinkingLevel::High,
{
    lemma_effort_names();
}

} // verus!

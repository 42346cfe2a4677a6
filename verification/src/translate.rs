//! From a codex conversation to gemini contents.
use serde_json::Value;
use vstd::hash_map::StringHashMap;
use vstd::prelude::*;

use crate::codex::{
    CodexContent, CodexImageDetail, CodexInput, CodexOutput, CodexOutputItem, CodexReq, CodexRole,
};
use crate::gemini::{
    Blob, BlobView, Content, ContentView, FunctionCall, FunctionResponse, MediaResolution,
    MediaResolutionLevel, Part, PartView, Role,
};
use crate::json::{json_null, json_opt, json_parse, json_string, object1, parsed, Json};
use crate::responses::{OutputItemView, StreamEventView};
use crate::stream::{arguments_text, call_step, Emission, PartIds};
use crate::text::{begins_with, join, joined, split_first, split_text, without_prefix};

verus! {

// ---------------------------------------------------------------------------------------------
// Images and text parts
// ---------------------------------------------------------------------------------------------

/// The inline data of a `data:<mime>;base64,<data>` URL; `None` for any other text.
pub open spec fn blob_of(image_url: Seq<char>) -> Option<BlobView> {
    if begins_with(image_url, "data:"@) {
        match split_first(image_url.skip("data:"@.len() as int), ";base64,"@) {
            Some((mime_type, data)) => Some(BlobView { data, mime_type }),
            None => None,
        }
    } else {
        None
    }
}

/// Parse a codex image-content `image_url` (`data:<mime>;base64,<data>`) into a gemini inline-data
/// blob; `None` when it is not a base64 data URL.
pub fn image_blob(image_url: &str) -> (blob: Option<Blob>)
    ensures
        (match blob {
            Some(found) => Some(found@),
            None => None,
        }) == blob_of(image_url@),
{
    let Some(rest) = without_prefix(image_url, "data:") else {
        return None;
    };
    proof {
        let prefix = "data:"@;
        assert(image_url@.subrange(0, prefix.len() as int) =~= prefix);
        assert(image_url@.skip(prefix.len() as int) =~= rest@);
    }
    match split_text(rest, ";base64,") {
        Some((mime, data)) => Some(Blob { data: data.to_owned(), mime_type: mime.to_owned() }),
        None => None,
    }
}

/// The gemini resolution of a requested one.
pub open spec fn resolution_of(detail: Option<CodexImageDetail>) -> Option<MediaResolution> {
    match detail {
        None => None,
        Some(requested) => Some(
            MediaResolution {
                level: match requested {
                    CodexImageDetail::Auto
                    | CodexImageDetail::Unknown => MediaResolutionLevel::MediaResolutionUnspecified,
                    CodexImageDetail::High
                    | CodexImageDetail::Original => MediaResolutionLevel::MediaResolutionHigh,
                    CodexImageDetail::Low => MediaResolutionLevel::MediaResolutionLow,
                },
            },
        ),
    }
}

/// Map codex's image `detail` to a gemini per-part media-resolution; `None` keeps the model
/// default.
pub fn media_resolution(detail: Option<CodexImageDetail>) -> (resolution: Option<MediaResolution>)
    ensures
        resolution == resolution_of(detail),
{
    let Some(requested) = detail else {
        return None;
    };
    let level = match requested {
        CodexImageDetail::Auto | CodexImageDetail::Unknown => {
            MediaResolutionLevel::MediaResolutionUnspecified
        },
        CodexImageDetail::High | CodexImageDetail::Original => {
            MediaResolutionLevel::MediaResolutionHigh
        },
        CodexImageDetail::Low => MediaResolutionLevel::MediaResolutionLow,
    };
    Some(MediaResolution { level })
}

/// The inline-data part of an image URL.
pub open spec fn image_part(
    image_url: Seq<char>,
    media_resolution: Option<MediaResolution>,
) -> Option<PartView> {
    match blob_of(image_url) {
        Some(inline_data) => Some(PartView::InlineData { inline_data, media_resolution }),
        None => None,
    }
}

/// The part that a text contributes: none where it is empty.
pub open spec fn text_part(text: Seq<char>) -> Option<PartView> {
    if text.len() == 0 {
        None
    } else {
        Some(PartView::Text { text })
    }
}

/// The part that a content item contributes.
pub open spec fn part_of(item: CodexContent) -> Option<PartView> {
    match item {
        CodexContent::InputImage { detail, image_url } => image_part(
            image_url@,
            resolution_of(detail),
        ),
        CodexContent::InputText { text } => text_part(text@),
        CodexContent::OutputText { text } => text_part(text@),
        CodexContent::Unknown => None,
    }
}

/// A list with one more element, where there is one.
pub open spec fn push_some<T>(list: Seq<T>, item: Option<T>) -> Seq<T> {
    match item {
        Some(value) => list.push(value),
        None => list,
    }
}

/// The parts that content items contribute, in order.
pub open spec fn parts_of(content: Seq<CodexContent>) -> Seq<PartView>
    decreases content.len(),
{
    if content.len() == 0 {
        Seq::empty()
    } else {
        push_some(parts_of(content.drop_last()), part_of(content.last()))
    }
}

/// Append a part, where there is one.
fn push_part(parts: &mut Vec<Part>, part: Option<Part>)
    ensures
        final(parts).deep_view() == push_some(old(parts).deep_view(), part.deep_view()),
{
    if let Some(found) = part {
        parts.push(found);
        assert(parts.deep_view() =~= old(parts).deep_view().push(found@));
    }
}

/// Wrap a text, unless it is empty.
fn nonempty_text(text: &String) -> (part: Option<Part>)
    ensures
        part.deep_view() == text_part(text@),
{
    if text.as_str().is_empty() {
        None
    } else {
        Some(Part::Text { text: text.clone() })
    }
}

/// The gemini part one codex content item contributes (text, inline image, or nothing).
pub fn content_part(item: &CodexContent) -> (part: Option<Part>)
    ensures
        part.deep_view() == part_of(*item),
{
    match item {
        CodexContent::InputImage { detail, image_url } => match image_blob(image_url.as_str()) {
            Some(inline_data) => Some(
                Part::InlineData { inline_data, media_resolution: media_resolution(*detail) },
            ),
            None => None,
        },
        CodexContent::InputText { text } => nonempty_text(text),
        CodexContent::OutputText { text } => nonempty_text(text),
        CodexContent::Unknown => None,
    }
}

/// Build the gemini parts (text + inline image) one codex message's content contributes.
pub fn message_parts(content: &Vec<CodexContent>) -> (parts: Vec<Part>)
    ensures
        parts.deep_view() == parts_of(content@),
{
    let mut parts: Vec<Part> = Vec::new();
    assert(parts.deep_view() =~= Seq::empty());
    let mut i: usize = 0;
    while i < content.len()
        invariant
            i <= content.len(),
            parts.deep_view() == parts_of(content@.take(i as int)),
        decreases content.len() - i,
    {
        push_part(&mut parts, content_part(&content[i]));
        assert(content@.take(i + 1).drop_last() =~= content@.take(i as int));
        i += 1;
    }
    assert(content@.take(i as int) =~= content@);
    parts
}

// ---------------------------------------------------------------------------------------------
// Messages and calls
// ---------------------------------------------------------------------------------------------

/// The gemini role of a codex role.
pub open spec fn role_of(role: CodexRole) -> Role {
    if role == CodexRole::Assistant {
        Role::Model
    } else {
        Role::User
    }
}

/// Contents with a message behind them; one without parts is left out.
pub open spec fn with_message(
    contents: Seq<ContentView>,
    role: CodexRole,
    content: Seq<CodexContent>,
) -> Seq<ContentView> {
    let parts = parts_of(content);
    if parts.len() == 0 {
        contents
    } else {
        contents.push(ContentView { parts, role: role_of(role) })
    }
}

/// Append a content.
fn push_content(contents: &mut Vec<Content>, content: Content)
    ensures
        final(contents).deep_view() == old(contents).deep_view().push(content@),
{
    contents.push(content);
    assert(contents.deep_view() =~= old(contents).deep_view().push(content@));
}

/// A list of one part.
fn single_part(part: Part) -> (parts: Vec<Part>)
    ensures
        parts.deep_view() == seq![part@],
{
    let parts: Vec<Part> = vec![part];
    assert(parts.deep_view() =~= seq![part@]);
    parts
}

/// Push the gemini content one codex message item contributes (text plus any inline image).
pub fn push_message(contents: &mut Vec<Content>, role: CodexRole, content: &Vec<CodexContent>)
    ensures
        final(contents).deep_view() == with_message(old(contents).deep_view(), role, content@),
{
    let parts = message_parts(content);
    if parts.len() == 0 {
        return ;
    }
    let mapped_role = if role == CodexRole::Assistant {
        Role::Model
    } else {
        Role::User
    };
    push_content(contents, Content { parts, role: mapped_role });
}

/// The arguments of a call: those that were read, null where none could be.
pub open spec fn args_or_null(args: Option<Json>) -> Json {
    match args {
        Some(value) => value,
        None => Json::Null,
    }
}

/// The arguments of a replayed call: what its text parses to, null where it does not parse.
pub open spec fn replayed_args(arguments: Seq<char>) -> Json {
    args_or_null(parsed(arguments))
}

/// The signature of a replayed call: the pending one, else the one that skips validation.
pub open spec fn replayed_signature(pending: Option<Seq<char>>) -> Seq<char> {
    match pending {
        Some(signature) => signature,
        None => "skip_thought_signature_validator"@,
    }
}

/// The content of a call with arguments.
pub open spec fn call_with_args(
    pending: Option<Seq<char>>,
    name: Seq<char>,
    args: Json,
) -> ContentView {
    ContentView {
        parts: seq![
            PartView::FunctionCall {
                name,
                args,
                thought_signature: Some(replayed_signature(pending)),
            },
        ],
        role: Role::Model,
    }
}

/// The content of a replayed call.
pub open spec fn call_content(
    pending: Option<Seq<char>>,
    name: Seq<char>,
    arguments: Seq<char>,
) -> ContentView {
    call_with_args(pending, name, replayed_args(arguments))
}

/// The text of a waiting signature.
pub open spec fn signature_text(pending: Option<&String>) -> Option<Seq<char>> {
    match pending {
        Some(signature) => Some(signature@),
        None => None,
    }
}

/// Whether the arguments of a replayed call can be read.
pub fn args_can_be_read(arguments: &str) -> (ok: bool)
    ensures
        ok == parsed(arguments@) is Some,
{
    match json_parse(arguments) {
        Ok(_) => true,
        Err(_) => false,
    }
}

/// Push a prior function call whose arguments were read, or could not be, onto the contents.
pub fn push_read_call(
    contents: &mut Vec<Content>,
    pending_sig: Option<&String>,
    name: &str,
    args: Option<Value>,
)
    ensures
        final(contents).deep_view() == old(contents).deep_view().push(
            call_with_args(signature_text(pending_sig), name@, args_or_null(json_opt(args))),
        ),
{
    let args = match args {
        Some(value) => value,
        None => json_null(),
    };
    let sig = match pending_sig {
        Some(signature) => signature.clone(),
        None => "skip_thought_signature_validator".to_owned(),
    };
    let part = Part::FunctionCall {
        function_call: FunctionCall { args, name: name.to_owned() },
        thought_signature: Some(sig),
    };
    push_content(contents, Content { parts: single_part(part), role: Role::Model });
}

/// Push a prior function call (with its replayed thought signature) onto the contents.
pub fn push_function_call(
    contents: &mut Vec<Content>,
    pending_sig: Option<&String>,
    name: &str,
    arguments: &str,
)
    ensures
        final(contents).deep_view() == old(contents).deep_view().push(
            call_content(signature_text(pending_sig), name@, arguments@),
        ),
{
    let args = match json_parse(arguments) {
        Ok(value) => Some(value),
        Err(_) => None,
    };
    push_read_call(contents, pending_sig, name, args);
}

// ---------------------------------------------------------------------------------------------
// Function outputs
// ---------------------------------------------------------------------------------------------

/// The text of an output item; `None` for a non-text item.
pub open spec fn item_text(item: CodexOutputItem) -> Option<Seq<char>> {
    match item {
        CodexOutputItem::InputText { text } => Some(text@),
        _ => None,
    }
}

/// The image of an output item; `None` for anything but a base64 data URL.
pub open spec fn item_image(item: CodexOutputItem) -> Option<PartView> {
    match item {
        CodexOutputItem::InputImage { image_url } => image_part(image_url@, None),
        _ => None,
    }
}

/// The texts of output items, in order.
pub open spec fn item_texts(items: Seq<CodexOutputItem>) -> Seq<Seq<char>>
    decreases items.len(),
{
    if items.len() == 0 {
        Seq::empty()
    } else {
        push_some(item_texts(items.drop_last()), item_text(items.last()))
    }
}

/// The images of output items, in order.
pub open spec fn item_images(items: Seq<CodexOutputItem>) -> Seq<PartView>
    decreases items.len(),
{
    if items.len() == 0 {
        Seq::empty()
    } else {
        push_some(item_images(items.drop_last()), item_image(items.last()))
    }
}

/// The text of a function output: as it is, or the texts of its items line by line.
pub open spec fn output_text(output: CodexOutput) -> Seq<char> {
    match output {
        CodexOutput::Text(text) => text@,
        CodexOutput::Items(items) => joined(item_texts(items@), "\n"@),
    }
}

/// The images of a function output.
pub open spec fn output_images(output: CodexOutput) -> Seq<PartView> {
    match output {
        CodexOutput::Text(_) => Seq::empty(),
        CodexOutput::Items(items) => item_images(items@),
    }
}

/// The text a single function-output item contributes; `None` for a non-text item.
pub fn output_item_text(item: &CodexOutputItem) -> (text: Option<String>)
    ensures
        text.deep_view() == item_text(*item),
{
    match item {
        CodexOutputItem::InputText { text } => Some(text.clone()),
        CodexOutputItem::InputImage { .. } | CodexOutputItem::Unknown => None,
    }
}

/// The gemini inline-data part a single function-output item contributes; `None` unless it is a
/// decodable image — so a tool image result becomes a part the model sees, never raw base64 text.
pub fn output_item_image(item: &CodexOutputItem) -> (part: Option<Part>)
    ensures
        part.deep_view() == item_image(*item),
{
    let CodexOutputItem::InputImage { image_url } = item else {
        return None;
    };
    match image_blob(image_url.as_str()) {
        Some(inline_data) => Some(Part::InlineData { inline_data, media_resolution: None }),
        None => None,
    }
}

/// Split a function-call output (string or content items) into the flattened text the gemini
/// `function_response` carries plus any inline-image parts that ride a following user content.
pub fn output_parts(output: &CodexOutput) -> (split: (String, Vec<Part>))
    ensures
        split.0@ == output_text(*output),
        split.1.deep_view() == output_images(*output),
{
    match output {
        CodexOutput::Text(text) => {
            let images: Vec<Part> = Vec::new();
            assert(images.deep_view() =~= Seq::empty());
            (text.clone(), images)
        },
        CodexOutput::Items(items) => {
            let mut texts: Vec<String> = Vec::new();
            let mut images: Vec<Part> = Vec::new();
            assert(texts.deep_view() =~= Seq::empty());
            assert(images.deep_view() =~= Seq::empty());
            let mut i: usize = 0;
            while i < items.len()
                invariant
                    i <= items.len(),
                    texts.deep_view() == item_texts(items@.take(i as int)),
                    images.deep_view() == item_images(items@.take(i as int)),
                decreases items.len() - i,
            {
                let ghost before = texts.deep_view();
                if let Some(text) = output_item_text(&items[i]) {
                    texts.push(text);
                    assert(texts.deep_view() =~= before.push(text@));
                }
                push_part(&mut images, output_item_image(&items[i]));
                assert(items@.take(i + 1).drop_last() =~= items@.take(i as int));
                i += 1;
            }
            assert(items@.take(i as int) =~= items@);
            (join(&texts, "\n"), images)
        },
    }
}

// ---------------------------------------------------------------------------------------------
// Call names
// ---------------------------------------------------------------------------------------------

/// The names of calls by their `call_id`.
pub struct CallNames {
    names: StringHashMap<String>,
}

impl View for CallNames {
    type V = Map<Seq<char>, Seq<char>>;

    closed spec fn view(&self) -> Map<Seq<char>, Seq<char>> {
        self.names@.map_values(|name: String| name@)
    }
}

impl CallNames {
    /// No names.
    pub fn new() -> (names: Self)
        ensures
            names@ == Map::<Seq<char>, Seq<char>>::empty(),
    {
        let names = CallNames { names: StringHashMap::new() };
        assert(names@ =~= Map::empty());
        names
    }

    /// Name a call; a later name replaces an earlier one.
    pub fn insert(&mut self, call_id: String, name: String)
        ensures
            final(self)@ == old(self)@.insert(call_id@, name@),
    {
        self.names.insert(call_id, name);
        assert(self@ =~= old(self)@.insert(call_id@, name@));
    }

    /// The name of a call.
    pub fn get(&self, call_id: &str) -> (name: Option<&String>)
        ensures
            match name {
                Some(found) => self@.contains_key(call_id@) && self@[call_id@] == found@,
                None => !self@.contains_key(call_id@),
            },
    {
        self.names.get(call_id)
    }
}

/// The names of the calls of an input, by their `call_id`.
pub open spec fn call_names(input: Seq<CodexInput>) -> Map<Seq<char>, Seq<char>>
    decreases input.len(),
{
    if input.len() == 0 {
        Map::empty()
    } else {
        let earlier = call_names(input.drop_last());
        match input.last() {
            CodexInput::FunctionCall { call_id, name, .. } => earlier.insert(call_id@, name@),
            _ => earlier,
        }
    }
}

/// Map each function-call `call_id` to its declared name across the input array.
pub fn collect_call_names(req: &CodexReq) -> (names: CallNames)
    ensures
        names@ == call_names(req.input@),
{
    let mut names = CallNames::new();
    let mut i: usize = 0;
    while i < req.input.len()
        invariant
            i <= req.input.len(),
            names@ == call_names(req.input@.take(i as int)),
        decreases req.input.len() - i,
    {
        if let CodexInput::FunctionCall { call_id, name, .. } = &req.input[i] {
            names.insert(call_id.clone(), name.clone());
        }
        assert(req.input@.take(i + 1).drop_last() =~= req.input@.take(i as int));
        i += 1;
    }
    assert(req.input@.take(i as int) =~= req.input@);
    names
}

/// The content of the response to a call.
pub open spec fn response_content(name: Seq<char>, text: Seq<char>) -> ContentView {
    ContentView {
        parts: seq![
            PartView::FunctionResponse {
                name,
                response: Json::Object(Map::empty().insert("output"@, Json::Str(text))),
            },
        ],
        role: Role::User,
    }
}

/// Contents with a function output behind them: the response to the call of its id, then its
/// images. An output without a call is left out.
pub open spec fn with_output(
    contents: Seq<ContentView>,
    names: Map<Seq<char>, Seq<char>>,
    call_id: Seq<char>,
    output: CodexOutput,
) -> Seq<ContentView> {
    if names.contains_key(call_id) {
        let answered = contents.push(response_content(names[call_id], output_text(output)));
        let images = output_images(output);
        if images.len() == 0 {
            answered
        } else {
            answered.push(ContentView { parts: images, role: Role::User })
        }
    } else {
        contents
    }
}

/// Push a prior function-call output, keyed back to the call name, onto the contents.
///
/// An orphan output (no matching call in this request) is skipped, never sent under a placeholder
/// name — gemini rejects a `function_response` whose name pairs with no functionCall. Image items
/// in the output ride a following user content as inline-data parts, never lost to text.
pub fn push_function_output(
    contents: &mut Vec<Content>,
    names: &CallNames,
    call_id: &str,
    output: &CodexOutput,
)
    ensures
        final(contents).deep_view() == with_output(
            old(contents).deep_view(),
            names@,
            call_id@,
            *output,
        ),
{
    let Some(name) = names.get(call_id) else {
        return ;
    };
    let (text, images) = output_parts(output);
    let part = Part::FunctionResponse {
        function_response: FunctionResponse {
            name: name.clone(),
            response: object1("output", json_string(text)),
        },
    };
    push_content(contents, Content { parts: single_part(part), role: Role::User });
    if images.len() > 0 {
        push_content(contents, Content { parts: images, role: Role::User });
    }
}

// ---------------------------------------------------------------------------------------------
// The conversation
// ---------------------------------------------------------------------------------------------

/// A conversation under way: its contents, and the thought signature that waits for a call.
pub struct Translation {
    pub contents: Seq<ContentView>,
    pub pending: Option<Seq<char>>,
}

/// The signature that waits after a reasoning item: its own, unless it is missing or empty.
pub open spec fn captured(
    pending: Option<Seq<char>>,
    encrypted_content: Option<Seq<char>>,
) -> Option<Seq<char>> {
    match encrypted_content {
        Some(signature) => if signature.len() == 0 {
            pending
        } else {
            Some(signature)
        },
        None => pending,
    }
}

/// Take in one input item. A message and a function output drop the waiting signature; a call
/// leaves it to the next one.
pub open spec fn input_step(
    t: Translation,
    names: Map<Seq<char>, Seq<char>>,
    item: CodexInput,
) -> Translation {
    match item {
        CodexInput::Message { role, content } => Translation {
            contents: with_message(t.contents, role, content@),
            pending: None,
        },
        CodexInput::Reasoning { encrypted_content } => Translation {
            pending: captured(t.pending, encrypted_content.deep_view()),
            ..t
        },
        CodexInput::FunctionCall { name, arguments, .. } => Translation {
            contents: t.contents.push(call_content(t.pending, name@, arguments@)),
            ..t
        },
        CodexInput::FunctionCallOutput { call_id, output } => Translation {
            contents: with_output(t.contents, names, call_id@, output),
            pending: None,
        },
        CodexInput::Unknown => t,
    }
}

/// Take in input items in order.
pub open spec fn translated(
    input: Seq<CodexInput>,
    names: Map<Seq<char>, Seq<char>>,
) -> Translation
    decreases input.len(),
{
    if input.len() == 0 {
        Translation { contents: Seq::empty(), pending: None }
    } else {
        input_step(translated(input.drop_last(), names), names, input.last())
    }
}

/// The contents of an input.
pub open spec fn contents_of(input: Seq<CodexInput>) -> Seq<ContentView> {
    translated(input, call_names(input)).contents
}

/// Capture a non-empty replayed reasoning signature as the pending signature.
pub fn capture_pending_sig(pending_sig: &mut Option<String>, encrypted_content: Option<&String>)
    ensures
        final(pending_sig).deep_view() == captured(
            old(pending_sig).deep_view(),
            match encrypted_content {
                Some(signature) => Some(signature@),
                None => None,
            },
        ),
{
    let Some(enc) = encrypted_content else {
        return ;
    };
    if enc.as_str().is_empty() {
        return ;
    }
    *pending_sig = Some(enc.clone());
}

/// The model of contents and a waiting signature.
pub open spec fn translation(contents: Vec<Content>, pending: Option<String>) -> Translation {
    Translation { contents: contents.deep_view(), pending: pending.deep_view() }
}

/// Translate one codex input item into the gemini contents vector.
pub fn push_input_item(
    contents: &mut Vec<Content>,
    names: &CallNames,
    pending_sig: &mut Option<String>,
    item: &CodexInput,
)
    ensures
        translation(*final(contents), *final(pending_sig)) == input_step(
            translation(*old(contents), *old(pending_sig)),
            names@,
            *item,
        ),
{
    match item {
        CodexInput::Message { role, content } => {
            *pending_sig = None;
            push_message(contents, *role, content);
        },
        CodexInput::Reasoning { encrypted_content } => {
            capture_pending_sig(pending_sig, encrypted_content.as_ref());
        },
        CodexInput::FunctionCall { name, arguments, .. } => {
            push_function_call(contents, pending_sig.as_ref(), name.as_str(), arguments.as_str());
        },
        CodexInput::FunctionCallOutput { call_id, output } => {
            *pending_sig = None;
            push_function_output(contents, names, call_id.as_str(), output);
        },
        CodexInput::Unknown => {},
    }
}

/// Reconstruct the gemini contents vector from the codex per-turn input array.
pub fn build_contents(req: &CodexReq) -> (contents: Vec<Content>)
    ensures
        contents.deep_view() == contents_of(req.input@),
{
    let names = collect_call_names(req);
    let mut contents: Vec<Content> = Vec::new();
    let mut pending_sig: Option<String> = None;
    assert(contents.deep_view() =~= Seq::empty());
    let mut i: usize = 0;
    while i < req.input.len()
        invariant
            i <= req.input.len(),
            names@ == call_names(req.input@),
            translation(contents, pending_sig) == translated(
                req.input@.take(i as int),
                names@,
            ),
        decreases req.input.len() - i,
    {
        push_input_item(&mut contents, &names, &mut pending_sig, &req.input[i]);
        assert(req.input@.take(i + 1).drop_last() =~= req.input@.take(i as int));
        i += 1;
    }
    assert(req.input@.take(i as int) =~= req.input@);
    contents
}

// ---------------------------------------------------------------------------------------------
// Laws
// ---------------------------------------------------------------------------------------------

/// The thought signature of a call comes back with it. The call's reasoning goes out as an item
/// that carries the signature; replayed in front of the call, it gives gemini the call under its
/// name, with the arguments that its text stands for and the same signature. Arguments whose text
/// parses to them come back as they were.
pub proof fn law_signatures_round_trip(
    e: Emission,
    name: Seq<char>,
    args: Json,
    signature: Seq<char>,
    ids: PartIds,
    t: Translation,
    names: Map<Seq<char>, Seq<char>>,
    reasoning: CodexInput,
    call: CodexInput,
)
    requires
        signature.len() > 0,
        reasoning matches CodexInput::Reasoning { encrypted_content }
            && encrypted_content.deep_view() == Some(signature),
        call matches CodexInput::FunctionCall { name: replayed, arguments, .. } && replayed@
            == name && arguments@ == arguments_text(args),
    ensures
        call_step(e, name, args, Some(signature), ids).events.last() matches
            StreamEventView::OutputItemDone { item: OutputItemView::Reasoning(item), .. }
            && item.encrypted_content == signature,
        call_step(e, name, args, Some(signature), ids).state.fcs.last() == (
            name,
            arguments_text(args),
        ),
        input_step(input_step(t, names, reasoning), names, call).contents == t.contents.push(
            ContentView {
                parts: seq![
                    PartView::FunctionCall {
                        name,
                        args: replayed_args(arguments_text(args)),
                        thought_signature: Some(signature),
                    },
                ],
                role: Role::Model,
            },
        ),
        parsed(arguments_text(args)) == Some(args) ==> replayed_args(arguments_text(args)) == args,
{
}

/// Later items leave the contents of earlier ones as they are.
pub proof fn law_later_items_only_add(
    input: Seq<CodexInput>,
    names: Map<Seq<char>, Seq<char>>,
    k: int,
)
    requires
        0 <= k <= input.len(),
    ensures
        translated(input.take(k), names).contents.is_prefix_of(translated(input, names).contents),
    decreases input.len(),
{
    if k == input.len() {
        assert(input.take(k) =~= input);
    } else {
        let rest = input.drop_last();
        law_later_items_only_add(rest, names, k);
        assert(rest.take(k) =~= input.take(k));
    }
}

/// Whether a content is the replay of a call.
pub open spec fn replays(content: ContentView, name: Seq<char>, arguments: Seq<char>) -> bool {
    &&& content.role == Role::Model
    &&& content.parts.len() == 1
    &&& content.parts[0] matches PartView::FunctionCall { name: replayed, args, .. } && replayed
        == name && args == replayed_args(arguments)
}

/// No call of the input is lost.
pub proof fn law_every_call_is_replayed(input: Seq<CodexInput>, k: int)
    requires
        0 <= k < input.len(),
        input[k] is FunctionCall,
    ensures
        exists|i: int|
            0 <= i < contents_of(input).len() && #[trigger] replays(
                contents_of(input)[i],
                input[k]->name@,
                input[k]->arguments@,
            ),
{
    let names = call_names(input);
    let upto = input.take(k + 1);
    law_later_items_only_add(input, names, k + 1);
    assert(upto.drop_last() =~= input.take(k));
    let before = translated(input.take(k), names).contents;
    let i = before.len() as int;
    assert(translated(upto, names).contents[i] == contents_of(input)[i]);
    assert(replays(contents_of(input)[i], input[k]->name@, input[k]->arguments@));
}

/// Whether an input calls a function of a name.
pub open spec fn calls(input: Seq<CodexInput>, name: Seq<char>) -> bool {
    exists|k: int|
        0 <= k < input.len() && (#[trigger] input[k] matches CodexInput::FunctionCall {
            name: called,
            ..
        } && called@ == name)
}

/// A name in the map of calls is that of a call.
proof fn lemma_named_calls(input: Seq<CodexInput>, call_id: Seq<char>)
    requires
        call_names(input).contains_key(call_id),
    ensures
        calls(input, call_names(input)[call_id]),
    decreases input.len(),
{
    let rest = input.drop_last();
    let name = call_names(input)[call_id];
    let last = input.len() - 1;
    match input.last() {
        CodexInput::FunctionCall { call_id: id, name: called, .. } if id@ == call_id => {
            assert(input[last] matches CodexInput::FunctionCall { name: called, .. } && called@
                == name);
        },
        _ => {
            lemma_named_calls(rest, call_id);
            let k = choose|k: int|
                0 <= k < rest.len() && (#[trigger] rest[k] matches CodexInput::FunctionCall {
                    name: called,
                    ..
                } && called@ == name);
            assert(input[k] == rest[k]);
        },
    }
}

/// Whether a content is not empty, and every function response in it answers one of the calls.
pub open spec fn content_in_order(
    content: ContentView,
    names: Map<Seq<char>, Seq<char>>,
) -> bool {
    &&& content.parts.len() > 0
    &&& forall|j: int|
        0 <= j < content.parts.len() ==> (#[trigger] content.parts[j] matches
            PartView::FunctionResponse { name, .. } ==> names.contains_value(name))
}

/// Parts of messages are no function responses.
proof fn lemma_parts_of(content: Seq<CodexContent>)
    ensures
        forall|j: int|
            0 <= j < parts_of(content).len() ==> !(#[trigger] parts_of(content)[j]
                is FunctionResponse),
    decreases content.len(),
{
    if content.len() > 0 {
        lemma_parts_of(content.drop_last());
    }
}

/// Images of outputs are no function responses.
proof fn lemma_item_images(items: Seq<CodexOutputItem>)
    ensures
        forall|j: int|
            0 <= j < item_images(items).len() ==> !(#[trigger] item_images(items)[j]
                is FunctionResponse),
    decreases items.len(),
{
    if items.len() > 0 {
        lemma_item_images(items.drop_last());
    }
}

/// Contents are never empty, and their function responses answer calls.
proof fn lemma_contents_in_order(input: Seq<CodexInput>, names: Map<Seq<char>, Seq<char>>)
    ensures
        forall|i: int|
            0 <= i < translated(input, names).contents.len() ==> content_in_order(
                #[trigger] translated(input, names).contents[i],
                names,
            ),
    decreases input.len(),
{
    if input.len() > 0 {
        lemma_contents_in_order(input.drop_last(), names);
        match input.last() {
            CodexInput::Message { content, .. } => {
                lemma_parts_of(content@);
            },
            CodexInput::FunctionCallOutput { call_id, output } => {
                if let CodexOutput::Items(items) = output {
                    lemma_item_images(items@);
                }
                if names.contains_key(call_id@) {
                    assert(names.contains_value(names[call_id@]));
                }
            },
            _ => {},
        }
    }
}

/// No function response goes out without a call of its name in the same
/// input.
pub proof fn law_no_orphan_responses(input: Seq<CodexInput>, i: int, j: int)
    requires
        0 <= i < contents_of(input).len(),
        0 <= j < contents_of(input)[i].parts.len(),
    ensures
        contents_of(input)[i].parts[j] matches PartView::FunctionResponse { name, .. } ==> calls(
            input,
            name,
        ),
{
    let names = call_names(input);
    lemma_contents_in_order(input, names);
    assert(content_in_order(contents_of(input)[i], names));
    if let PartView::FunctionResponse { name, .. } = contents_of(input)[i].parts[j] {
        let call_id = choose|call_id: Seq<char>|
            names.contains_key(call_id) && names[call_id] == name;
        lemma_named_calls(input, call_id);
    }
}

/// No content goes out empty.
pub proof fn law_no_empty_content(input: Seq<CodexInput>, i: int)
    requires
        0 <= i < contents_of(input).len(),
    ensures
        contents_of(input)[i].parts.len() > 0,
{
    lemma_contents_in_order(input, call_names(input));
}

} // verus!

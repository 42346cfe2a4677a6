//! What a codex request becomes, said of the request and the result alone.
use vstd::prelude::*;

use crate::codex::{
    choice_in, effort_in, CodexContent, CodexEffort, CodexImageDetail, CodexInput, CodexOutput,
    CodexOutputItem, CodexReq, CodexRole, CodexTextFormat, CodexTool, CodexToolChoice,
    CodexToolKind,
};
use crate::gemini::{
    ContentView, FunctionCallingMode, GenerateRequestView, MediaResolution, MediaResolutionLevel,
    PartView, Role, ThinkingLevel, ToolView,
};
use crate::json::{json, parsed, Json};
use crate::launch::{api_name, launched, Launch};
use crate::request::{
    declared, first_functions, flattened, has_function, level_of, mode_of, request_of,
};
use crate::responses::{Status, StreamEventView};
use crate::text::{contains, is_first, joined, occurs_at};
use crate::translate::{
    blob_of, call_names, contents_of, item_image, item_images, item_texts,
    law_later_items_only_add, part_of, parts_of, translated,
};

verus! {

// ---------------------------------------------------------------------------------------------
// Images
// ---------------------------------------------------------------------------------------------

/// Whether a text is the data URL of base64 data of a MIME type, cut at its first `;base64,`.
pub open spec fn is_data_url(url: Seq<char>, mime: Seq<char>, data: Seq<char>) -> bool {
    &&& url == "data:"@ + (mime + ";base64,"@ + data)
    &&& forall|at: int|
        occurs_at(mime + ";base64,"@ + data, ";base64,"@, at) ==> mime.len() <= at
}

/// A pattern that stands in a text has a first place there.
proof fn lemma_first_place(text: Seq<char>, pattern: Seq<char>, at: int) -> (first: int)
    requires
        occurs_at(text, pattern, at),
    ensures
        is_first(text, pattern, first),
    decreases at,
{
    if exists|other: int| occurs_at(text, pattern, other) && other < at {
        let other = choose|other: int| occurs_at(text, pattern, other) && other < at;
        lemma_first_place(text, pattern, other)
    } else {
        at
    }
}

/// A text is read as inline data exactly where it is a data URL, and as that data.
pub proof fn law_data_urls_are_inline_data(url: Seq<char>)
    ensures
        blob_of(url) matches Some(blob) ==> is_data_url(url, blob.mime_type, blob.data),
        forall|mime: Seq<char>, data: Seq<char>| #[trigger]
            is_data_url(url, mime, data) ==> (blob_of(url) matches Some(blob) && blob.mime_type
                == mime && blob.data == data),
{
    let prefix = "data:"@;
    let mark = ";base64,"@;
    let rest = url.skip(prefix.len() as int);
    if blob_of(url) is Some {
        let blob = blob_of(url)->0;
        assert(contains(rest, mark));
        let place = choose|at: int| occurs_at(rest, mark, at);
        let first = lemma_first_place(rest, mark, place);
        let at = choose|at: int| is_first(rest, mark, at);
        assert(is_first(rest, mark, at));
        assert(rest =~= blob.mime_type + mark + blob.data);
        assert(url =~= prefix + rest);
    }
    assert forall|mime: Seq<char>, data: Seq<char>| #[trigger]
        is_data_url(url, mime, data) implies (blob_of(url) matches Some(blob) && blob.mime_type
        == mime && blob.data == data) by {
        let body = mime + mark + data;
        assert(url.subrange(0, prefix.len() as int) =~= prefix);
        assert(rest =~= body);
        assert(body.subrange(mime.len() as int, (mime.len() + mark.len()) as int) =~= mark);
        assert(is_first(rest, mark, mime.len() as int));
        let at = choose|at: int| is_first(rest, mark, at);
        assert(at == mime.len());
        assert(rest.take(at) =~= mime);
        assert(rest.skip(at + mark.len()) =~= data);
    }
}

/// Whether an image URL can be sent inline.
pub open spec fn is_inline(url: Seq<char>) -> bool {
    exists|mime: Seq<char>, data: Seq<char>| #[trigger] is_data_url(url, mime, data)
}

/// Whether a part is the inline image of a URL, at a resolution.
pub open spec fn is_image_of(
    part: PartView,
    url: Seq<char>,
    resolution: Option<MediaResolution>,
) -> bool {
    part matches PartView::InlineData { inline_data, media_resolution } && is_data_url(
        url,
        inline_data.mime_type,
        inline_data.data,
    ) && media_resolution == resolution
}

// ---------------------------------------------------------------------------------------------
// Messages
// ---------------------------------------------------------------------------------------------

/// Whether a content item says something that can be sent: a text that is not empty, or an image
/// that can be sent inline.
pub open spec fn says_something(item: CodexContent) -> bool {
    match item {
        CodexContent::InputText { text } => text@.len() > 0,
        CodexContent::OutputText { text } => text@.len() > 0,
        CodexContent::InputImage { image_url, .. } => is_inline(image_url@),
        CodexContent::Unknown => false,
    }
}

/// Whether a part says what a content item says: its text as it is, or its image at the asked-for
/// resolution.
pub open spec fn says_the_same(part: PartView, item: CodexContent) -> bool {
    match item {
        CodexContent::InputText { text } => part == (PartView::Text { text: text@ }),
        CodexContent::OutputText { text } => part == (PartView::Text { text: text@ }),
        CodexContent::InputImage { detail, image_url } => {
            ||| detail is None && is_image_of(part, image_url@, None)
            ||| (detail == Some(CodexImageDetail::High) || detail == Some(
                CodexImageDetail::Original,
            )) && is_image_of(
                part,
                image_url@,
                Some(MediaResolution { level: MediaResolutionLevel::MediaResolutionHigh }),
            )
            ||| detail == Some(CodexImageDetail::Low) && is_image_of(
                part,
                image_url@,
                Some(MediaResolution { level: MediaResolutionLevel::MediaResolutionLow }),
            )
            ||| (detail == Some(CodexImageDetail::Auto) || detail == Some(
                CodexImageDetail::Unknown,
            )) && is_image_of(
                part,
                image_url@,
                Some(MediaResolution { level: MediaResolutionLevel::MediaResolutionUnspecified }),
            )
        },
        CodexContent::Unknown => false,
    }
}

/// How many content items say something.
pub open spec fn saying_count(content: Seq<CodexContent>) -> nat
    decreases content.len(),
{
    if content.len() == 0 {
        0
    } else {
        saying_count(content.drop_last()) + if says_something(content.last()) {
            1nat
        } else {
            0nat
        }
    }
}

/// The parts of a message are those of the items that say something, in order.
proof fn lemma_parts_say_the_same(content: Seq<CodexContent>)
    ensures
        parts_of(content).len() == saying_count(content),
        forall|k: int|
            0 <= k < content.len() && says_something(#[trigger] content[k]) ==> saying_count(
                content.take(k),
            ) < saying_count(content) && says_the_same(
                parts_of(content)[saying_count(content.take(k)) as int],
                content[k],
            ),
    decreases content.len(),
{
    if content.len() > 0 {
        let rest = content.drop_last();
        let item = content.last();
        lemma_parts_say_the_same(rest);
        if let CodexContent::InputImage { image_url, .. } = item {
            law_data_urls_are_inline_data(image_url@);
            if let Some(blob) = blob_of(image_url@) {
                assert(is_data_url(image_url@, blob.mime_type, blob.data));
            }
        }
        assert(part_of(item) is Some <==> says_something(item));
        assert(says_something(item) ==> says_the_same(part_of(item)->0, item));
        assert forall|k: int| 0 <= k < content.len() && says_something(
            #[trigger] content[k],
        ) implies saying_count(content.take(k)) < saying_count(content) && says_the_same(
            parts_of(content)[saying_count(content.take(k)) as int],
            content[k],
        ) by {
            if k < rest.len() {
                assert(rest[k] == content[k]);
                assert(rest.take(k) =~= content.take(k));
            } else {
                assert(content.take(k) =~= rest);
            }
        }
    }
}

/// Where in the contents what an input item adds begins.
pub open spec fn place(input: Seq<CodexInput>, m: int) -> nat {
    translated(input.take(m), call_names(input)).contents.len()
}

/// What stands at the place of an item in the course of the conversation stays there.
proof fn lemma_place(input: Seq<CodexInput>, m: int)
    requires
        0 <= m < input.len(),
    ensures
        input.take(m + 1).drop_last() == input.take(m),
        input.take(m + 1).last() == input[m],
        place(input, m + 1) <= contents_of(input).len(),
        forall|i: int|
            0 <= i < place(input, m + 1) ==> #[trigger] contents_of(input)[i] == translated(
                input.take(m + 1),
                call_names(input),
            ).contents[i],
{
    assert(input.take(m + 1).drop_last() =~= input.take(m));
    law_later_items_only_add(input, call_names(input), m + 1);
    let so_far = translated(input.take(m + 1), call_names(input)).contents;
    assert forall|i: int| 0 <= i < so_far.len() implies #[trigger] contents_of(input)[i]
        == so_far[i] by {
        assert(contents_of(input).take(so_far.len() as int) == so_far);
        assert(contents_of(input).take(so_far.len() as int)[i] == contents_of(input)[i]);
    }
}

/// The places begin at zero and end with the contents.
pub proof fn law_places_fill_the_contents(input: Seq<CodexInput>)
    ensures
        place(input, 0) == 0,
        place(input, input.len() as int) == contents_of(input).len(),
{
    assert(input.take(0) =~= Seq::empty());
    assert(input.take(input.len() as int) =~= input);
}

/// A message adds one content that says all that its items say, in order and on the right side; a
/// message that says nothing adds none.
pub proof fn law_messages_keep_every_part(
    input: Seq<CodexInput>,
    m: int,
    role: CodexRole,
    content: Vec<CodexContent>,
)
    requires
        0 <= m < input.len(),
        input[m] == (CodexInput::Message { content, role }),
    ensures
        saying_count(content@) == 0 ==> place(input, m + 1) == place(input, m),
        saying_count(content@) > 0 ==> {
            &&& place(input, m + 1) == place(input, m) + 1
            &&& place(input, m) < contents_of(input).len()
            &&& contents_of(input)[place(input, m) as int].role == if role is Assistant {
                Role::Model
            } else {
                Role::User
            }
            &&& contents_of(input)[place(input, m) as int].parts.len() == saying_count(content@)
            &&& forall|k: int|
                0 <= k < content@.len() && says_something(#[trigger] content@[k])
                    ==> says_the_same(
                    contents_of(input)[place(input, m) as int].parts[saying_count(
                        content@.take(k),
                    ) as int],
                    content@[k],
                )
        },
{
    lemma_place(input, m);
    lemma_parts_say_the_same(content@);
}

/// Reasoning and unknown items add no content.
pub proof fn law_reasoning_adds_no_content(input: Seq<CodexInput>, m: int)
    requires
        0 <= m < input.len(),
        input[m] is Reasoning || input[m] is Unknown,
    ensures
        place(input, m + 1) == place(input, m),
{
    lemma_place(input, m);
}

// ---------------------------------------------------------------------------------------------
// Calls
// ---------------------------------------------------------------------------------------------

/// Whether a content is the one call of a function, by the model.
pub open spec fn is_call(
    content: ContentView,
    name: Seq<char>,
    args: Json,
    signature: Seq<char>,
) -> bool {
    &&& content.role == Role::Model
    &&& content.parts.len() == 1
    &&& content.parts[0] == (PartView::FunctionCall {
        name,
        args,
        thought_signature: Some(signature),
    })
}

/// Whether an item ends the wait of a signature.
pub open spec fn ends_the_wait(item: CodexInput) -> bool {
    item is Message || item is FunctionCallOutput
}

/// Whether an item is reasoning with a signature.
pub open spec fn is_signed(item: CodexInput) -> bool {
    item matches CodexInput::Reasoning { encrypted_content: Some(signature) } && signature@.len()
        > 0
}

/// The signature that waits is that of the last signed reasoning, unless something ended the wait.
proof fn lemma_waiting(input: Seq<CodexInput>, names: Map<Seq<char>, Seq<char>>, r: int)
    requires
        -1 <= r < input.len(),
        r >= 0 ==> is_signed(input[r]) || ends_the_wait(input[r]),
        forall|j: int|
            r < j < input.len() ==> !is_signed(#[trigger] input[j]) && !ends_the_wait(input[j]),
    ensures
        r >= 0 && is_signed(input[r]) ==> translated(input, names).pending == Some(
            input[r]->encrypted_content->0@,
        ),
        r < 0 || ends_the_wait(input[r]) ==> translated(input, names).pending is None,
    decreases input.len(),
{
    if input.len() > 0 && r < input.len() - 1 {
        let rest = input.drop_last();
        assert forall|j: int| r < j < rest.len() implies !is_signed(#[trigger] rest[j])
            && !ends_the_wait(rest[j]) by {
            assert(rest[j] == input[j]);
        }
        lemma_waiting(rest, names, r);
        let last = input[input.len() - 1];
        assert(!is_signed(last) && !ends_the_wait(last));
    }
}

/// A replayed call goes out as one content of the model: under its name, with what its arguments
/// parse to (null where they do not), and under the signature of the reasoning before it. Behind a
/// message or a function output, or at the start, it goes out under the one that skips
/// validation.
pub proof fn law_calls_keep_everything(
    input: Seq<CodexInput>,
    m: int,
    r: int,
    arguments: String,
    call_id: String,
    name: String,
)
    requires
        0 <= m < input.len(),
        input[m] == (CodexInput::FunctionCall { arguments, call_id, name }),
        -1 <= r < m,
        r >= 0 ==> is_signed(input[r]) || ends_the_wait(input[r]),
        forall|j: int| r < j < m ==> !is_signed(#[trigger] input[j]) && !ends_the_wait(input[j]),
    ensures
        place(input, m + 1) == place(input, m) + 1,
        place(input, m) < contents_of(input).len(),
        r >= 0 && is_signed(input[r]) ==> is_call(
            contents_of(input)[place(input, m) as int],
            name@,
            if parsed(arguments@) is Some {
                parsed(arguments@)->0
            } else {
                Json::Null
            },
            input[r]->encrypted_content->0@,
        ),
        r < 0 || ends_the_wait(input[r]) ==> is_call(
            contents_of(input)[place(input, m) as int],
            name@,
            if parsed(arguments@) is Some {
                parsed(arguments@)->0
            } else {
                Json::Null
            },
            "skip_thought_signature_validator"@,
        ),
{
    lemma_place(input, m);
    let before = input.take(m);
    assert forall|j: int| r < j < before.len() implies !is_signed(#[trigger] before[j])
        && !ends_the_wait(before[j]) by {
        assert(before[j] == input[j]);
    }
    lemma_waiting(before, call_names(input), r);
}

// ---------------------------------------------------------------------------------------------
// Function outputs
// ---------------------------------------------------------------------------------------------

/// The texts among output items, in order.
pub open spec fn texts_among(items: Seq<CodexOutputItem>) -> Seq<Seq<char>>
    decreases items.len(),
{
    if items.len() == 0 {
        Seq::empty()
    } else if let CodexOutputItem::InputText { text } = items[0] {
        seq![text@] + texts_among(items.drop_first())
    } else {
        texts_among(items.drop_first())
    }
}

/// Texts line by line.
pub open spec fn line_by_line(texts: Seq<Seq<char>>) -> Seq<char>
    decreases texts.len(),
{
    if texts.len() == 0 {
        Seq::empty()
    } else if texts.len() == 1 {
        texts[0]
    } else {
        texts[0] + "\n"@ + line_by_line(texts.drop_first())
    }
}

/// What a function output says in words.
pub open spec fn words_of(output: CodexOutput) -> Seq<char> {
    match output {
        CodexOutput::Text(text) => text@,
        CodexOutput::Items(items) => line_by_line(texts_among(items@)),
    }
}

/// Whether an output item shows an image that can be sent inline.
pub open spec fn shows_an_image(item: CodexOutputItem) -> bool {
    item matches CodexOutputItem::InputImage { image_url } && is_inline(image_url@)
}

/// The items of an output.
pub open spec fn items_in(output: CodexOutput) -> Seq<CodexOutputItem> {
    match output {
        CodexOutput::Text(_) => Seq::empty(),
        CodexOutput::Items(items) => items@,
    }
}

/// How many output items show an image.
pub open spec fn image_count(items: Seq<CodexOutputItem>) -> nat
    decreases items.len(),
{
    if items.len() == 0 {
        0
    } else {
        image_count(items.drop_last()) + if shows_an_image(items.last()) {
            1nat
        } else {
            0nat
        }
    }
}

/// One more item at the end of a list of texts.
proof fn lemma_texts_among_push(items: Seq<CodexOutputItem>)
    requires
        items.len() > 0,
    ensures
        texts_among(items) == (match items.last() {
            CodexOutputItem::InputText { text } => texts_among(items.drop_last()).push(text@),
            _ => texts_among(items.drop_last()),
        }),
    decreases items.len(),
{
    let rest = items.drop_first();
    reveal_with_fuel(texts_among, 2);
    if items.len() == 1 {
        assert(items.drop_last() =~= Seq::empty());
        assert(rest =~= Seq::empty());
        assert(texts_among(items) =~= match items.last() {
            CodexOutputItem::InputText { text } => texts_among(items.drop_last()).push(text@),
            _ => texts_among(items.drop_last()),
        });
    } else {
        lemma_texts_among_push(rest);
        assert(rest.drop_last() =~= items.drop_last().drop_first());
        assert(texts_among(items) =~= match items.last() {
            CodexOutputItem::InputText { text } => texts_among(items.drop_last()).push(text@),
            _ => texts_among(items.drop_last()),
        });
    }
}

/// The texts of output items are the texts among them.
proof fn lemma_item_texts(items: Seq<CodexOutputItem>)
    ensures
        item_texts(items) == texts_among(items),
    decreases items.len(),
{
    if items.len() > 0 {
        lemma_item_texts(items.drop_last());
        lemma_texts_among_push(items);
    }
}

/// Joining two lists joins what each joins to.
pub proof fn law_joining_splits(left: Seq<Seq<char>>, right: Seq<Seq<char>>, separator: Seq<char>)
    requires
        left.len() > 0,
        right.len() > 0,
    ensures
        joined(left + right, separator) == joined(left, separator) + separator + joined(
            right,
            separator,
        ),
    decreases right.len(),
{
    let all = left + right;
    assert(all.last() == right.last());
    if right.len() == 1 {
        assert(all.drop_last() =~= left);
    } else {
        law_joining_splits(left, right.drop_last(), separator);
        assert(all.drop_last() =~= left + right.drop_last());
        assert(joined(all, separator) =~= joined(left, separator) + separator + joined(
            right,
            separator,
        ));
    }
}

/// Joining by newlines is putting line by line.
proof fn lemma_line_by_line(texts: Seq<Seq<char>>)
    ensures
        joined(texts, "\n"@) == line_by_line(texts),
    decreases texts.len(),
{
    if texts.len() > 1 {
        let head = seq![texts[0]];
        let rest = texts.drop_first();
        assert(texts =~= head + rest);
        law_joining_splits(head, rest, "\n"@);
        lemma_line_by_line(rest);
    }
}

/// The images of an output are those of the items that show one, in order.
proof fn lemma_item_images(items: Seq<CodexOutputItem>)
    ensures
        item_images(items).len() == image_count(items),
        forall|k: int|
            0 <= k < items.len() && shows_an_image(#[trigger] items[k]) ==> image_count(
                items.take(k),
            ) < image_count(items) && is_image_of(
                item_images(items)[image_count(items.take(k)) as int],
                items[k]->image_url@,
                None,
            ),
    decreases items.len(),
{
    if items.len() > 0 {
        let rest = items.drop_last();
        let item = items.last();
        lemma_item_images(rest);
        if let CodexOutputItem::InputImage { image_url } = item {
            law_data_urls_are_inline_data(image_url@);
            if let Some(blob) = blob_of(image_url@) {
                assert(is_data_url(image_url@, blob.mime_type, blob.data));
            }
        }
        assert(item_image(item) is Some <==> shows_an_image(item));
        assert forall|k: int| 0 <= k < items.len() && shows_an_image(
            #[trigger] items[k],
        ) implies image_count(items.take(k)) < image_count(items) && is_image_of(
            item_images(items)[image_count(items.take(k)) as int],
            items[k]->image_url@,
            None,
        ) by {
            if k < rest.len() {
                assert(rest[k] == items[k]);
                assert(rest.take(k) =~= items.take(k));
            } else {
                assert(items.take(k) =~= rest);
            }
        }
    }
}

/// Whether an item calls a function under an id.
pub open spec fn calls_under(item: CodexInput, id: Seq<char>) -> bool {
    item matches CodexInput::FunctionCall { call_id, .. } && call_id@ == id
}

/// The name under an id is that of the last call under it.
proof fn lemma_last_call_names(input: Seq<CodexInput>, id: Seq<char>, k: int)
    requires
        0 <= k < input.len(),
        calls_under(input[k], id),
        forall|j: int| k < j < input.len() ==> !calls_under(#[trigger] input[j], id),
    ensures
        call_names(input).contains_key(id),
        call_names(input)[id] == input[k]->name@,
    decreases input.len(),
{
    if k < input.len() - 1 {
        let rest = input.drop_last();
        assert forall|j: int| k < j < rest.len() implies !calls_under(#[trigger] rest[j], id) by {
            assert(rest[j] == input[j]);
        }
        lemma_last_call_names(rest, id, k);
        assert(!calls_under(input[input.len() - 1], id));
    }
}

/// An id that no call has is not named.
proof fn lemma_no_call_no_name(input: Seq<CodexInput>, id: Seq<char>)
    requires
        forall|j: int| 0 <= j < input.len() ==> !calls_under(#[trigger] input[j], id),
    ensures
        !call_names(input).contains_key(id),
    decreases input.len(),
{
    if input.len() > 0 {
        let rest = input.drop_last();
        assert forall|j: int| 0 <= j < rest.len() implies !calls_under(#[trigger] rest[j], id) by {
            assert(rest[j] == input[j]);
        }
        lemma_no_call_no_name(rest, id);
        assert(!calls_under(input[input.len() - 1], id));
    }
}

/// Whether a content is the one response of a function in words, from the user's side.
pub open spec fn is_answer(content: ContentView, name: Seq<char>, words: Seq<char>) -> bool {
    &&& content.role == Role::User
    &&& content.parts.len() == 1
    &&& content.parts[0] matches PartView::FunctionResponse {
        name: answered,
        response: Json::Object(members),
    } && answered == name && members == map!["output"@ => Json::Str(words)]
}

/// A function output goes out as the response of the last call under its id, with its words line
/// by line; behind it, in one content more, every image that it shows, in order.
pub proof fn law_outputs_answer_their_calls(
    input: Seq<CodexInput>,
    m: int,
    k: int,
    call_id: String,
    output: CodexOutput,
)
    requires
        0 <= m < input.len(),
        input[m] == (CodexInput::FunctionCallOutput { call_id, output }),
        0 <= k < input.len(),
        calls_under(input[k], call_id@),
        forall|j: int| k < j < input.len() ==> !calls_under(#[trigger] input[j], call_id@),
    ensures
        place(input, m) < contents_of(input).len(),
        is_answer(contents_of(input)[place(input, m) as int], input[k]->name@, words_of(output)),
        image_count(items_in(output)) == 0 ==> place(input, m + 1) == place(input, m) + 1,
        image_count(items_in(output)) > 0 ==> {
            &&& place(input, m + 1) == place(input, m) + 2
            &&& place(input, m) + 1 < contents_of(input).len()
            &&& contents_of(input)[place(input, m) as int + 1].role == Role::User
            &&& contents_of(input)[place(input, m) as int + 1].parts.len() == image_count(
                items_in(output),
            )
            &&& forall|i: int|
                0 <= i < items_in(output).len() && shows_an_image(#[trigger] items_in(output)[i])
                    ==> is_image_of(
                    contents_of(input)[place(input, m) as int + 1].parts[image_count(
                        items_in(output).take(i),
                    ) as int],
                    items_in(output)[i]->image_url@,
                    None,
                )
        },
{
    lemma_place(input, m);
    lemma_last_call_names(input, call_id@, k);
    if let CodexOutput::Items(items) = output {
        lemma_item_texts(items@);
        lemma_line_by_line(texts_among(items@));
        lemma_item_images(items@);
    }
    let words = words_of(output);
    assert(Map::empty().insert("output"@, Json::Str(words))
        =~= map!["output"@ => Json::Str(words)]);
}

/// A function output without a call adds no content.
pub proof fn law_orphans_add_no_content(
    input: Seq<CodexInput>,
    m: int,
    call_id: String,
    output: CodexOutput,
)
    requires
        0 <= m < input.len(),
        input[m] == (CodexInput::FunctionCallOutput { call_id, output }),
        forall|j: int| 0 <= j < input.len() ==> !calls_under(#[trigger] input[j], call_id@),
    ensures
        place(input, m + 1) == place(input, m),
{
    lemma_place(input, m);
    lemma_no_call_no_name(input, call_id@);
}

// ---------------------------------------------------------------------------------------------
// Functions
// ---------------------------------------------------------------------------------------------

/// Every tool of a request, each followed by those of its group.
pub open spec fn tools_and_groups(tools: Seq<CodexTool>) -> Seq<CodexTool>
    decreases tools.len(),
{
    if tools.len() == 0 {
        Seq::empty()
    } else {
        seq![tools[0]] + tools[0].tools@ + tools_and_groups(tools.drop_first())
    }
}

/// One more tool at the end.
proof fn lemma_tools_and_groups_push(tools: Seq<CodexTool>)
    requires
        tools.len() > 0,
    ensures
        tools_and_groups(tools) == tools_and_groups(tools.drop_last()) + seq![tools.last()]
            + tools.last().tools@,
    decreases tools.len(),
{
    reveal_with_fuel(tools_and_groups, 2);
    let rest = tools.drop_first();
    if tools.len() == 1 {
        assert(tools.drop_last() =~= Seq::empty());
        assert(rest =~= Seq::empty());
    } else {
        lemma_tools_and_groups_push(rest);
        assert(rest.drop_last() =~= tools.drop_last().drop_first());
    }
    assert(tools_and_groups(tools) =~= tools_and_groups(tools.drop_last()) + seq![tools.last()]
        + tools.last().tools@);
}

/// The flattened tools are the tools and their groups.
proof fn lemma_flattened(tools: Seq<CodexTool>)
    ensures
        flattened(tools) == tools_and_groups(tools),
    decreases tools.len(),
{
    if tools.len() > 0 {
        lemma_flattened(tools.drop_last());
        lemma_tools_and_groups_push(tools);
        assert(flattened(tools) =~= tools_and_groups(tools));
    }
}

/// Whether a tool is a function, and the first one of its name in a list.
pub open spec fn is_first_of_its_name(list: Seq<CodexTool>, p: int) -> bool {
    &&& list[p].kind is Function
    &&& forall|q: int|
        0 <= q < p ==> !((#[trigger] list[q]).kind is Function && list[q].name@ == list[p].name@)
}

/// How many tools of a list are the first function of their name.
pub open spec fn first_count(list: Seq<CodexTool>) -> nat
    decreases list.len(),
{
    if list.len() == 0 {
        0
    } else {
        first_count(list.drop_last()) + if is_first_of_its_name(list, list.len() - 1) {
            1nat
        } else {
            0nat
        }
    }
}

/// Whether a declaration is that of a tool: its name, its description and its parameters, an empty
/// object where it has none.
pub open spec fn declares(declaration: ToolView, tool: CodexTool) -> bool {
    declaration matches ToolView::Function { name, description, parameters_json_schema } && {
        &&& name == tool.name@
        &&& description == tool.description@
        &&& parameters_json_schema == if tool.parameters is Some {
            json(tool.parameters->0)
        } else {
            Json::Object(
                map![
                    "type"@ => Json::Str("object"@),
                    "properties"@ => Json::Object(Map::empty()),
                ],
            )
        }
    }
}

/// The first functions of a list stand in order.
proof fn lemma_first_in_order(list: Seq<CodexTool>)
    ensures
        first_functions(list).len() == first_count(list),
        forall|p: int|
            0 <= p < list.len() && #[trigger] is_first_of_its_name(list, p) ==> first_count(
                list.take(p),
            ) < first_count(list) && first_functions(list)[first_count(list.take(p)) as int]
                == list[p],
    decreases list.len(),
{
    if list.len() > 0 {
        let rest = list.drop_last();
        let last = list.len() - 1;
        lemma_first_in_order(rest);
        assert(has_function(rest, list.last().name@) <==> exists|q: int|
            0 <= q < last && (#[trigger] list[q]).kind is Function && list[q].name@
                == list.last().name@) by {
            if has_function(rest, list.last().name@) {
                let q = choose|q: int|
                    0 <= q < rest.len() && (#[trigger] rest[q]).kind == CodexToolKind::Function
                        && rest[q].name@ == list.last().name@;
                assert(list[q] == rest[q]);
            }
            if exists|q: int|
                0 <= q < last && (#[trigger] list[q]).kind is Function && list[q].name@
                    == list.last().name@ {
                let q = choose|q: int|
                    0 <= q < last && (#[trigger] list[q]).kind is Function && list[q].name@
                        == list.last().name@;
                assert(rest[q] == list[q]);
            }
        }
        assert forall|p: int| 0 <= p < list.len() && #[trigger] is_first_of_its_name(
            list,
            p,
        ) implies first_count(list.take(p)) < first_count(list) && first_functions(
            list,
        )[first_count(list.take(p)) as int] == list[p] by {
            if p < last {
                assert(rest.take(p) =~= list.take(p));
                assert(is_first_of_its_name(rest, p)) by {
                    assert forall|q: int| 0 <= q < p implies !((#[trigger] rest[q]).kind is Function
                        && rest[q].name@ == rest[p].name@) by {
                        assert(rest[q] == list[q]);
                    }
                }
            } else {
                assert(list.take(p) =~= rest);
            }
        }
    }
}

/// Every function of a request, at the top or in a group, is declared once, in its turn, as the
/// first tool of its name says; nothing else is declared.
pub proof fn law_functions_are_declared_in_their_turn(tools: Seq<CodexTool>, p: int)
    requires
        0 <= p < tools_and_groups(tools).len(),
        is_first_of_its_name(tools_and_groups(tools), p),
    ensures
        declared(tools).len() == first_count(tools_and_groups(tools)),
        first_count(tools_and_groups(tools).take(p)) < declared(tools).len(),
        declares(
            declared(tools)[first_count(tools_and_groups(tools).take(p)) as int],
            tools_and_groups(tools)[p],
        ),
{
    lemma_flattened(tools);
    lemma_first_in_order(tools_and_groups(tools));
    lemma_empty_schema();
}

/// The schema of a function without parameters has two members.
proof fn lemma_empty_schema()
    ensures
        crate::request::empty_schema() == Json::Object(
            map![
                "type"@ => Json::Str("object"@),
                "properties"@ => Json::Object(Map::empty()),
            ],
        ),
{
    assert(Map::empty().insert("type"@, Json::Str("object"@)).insert(
        "properties"@,
        Json::Object(Map::empty()),
    ) =~= map![
        "type"@ => Json::Str("object"@),
        "properties"@ => Json::Object(Map::empty()),
    ]);
}

/// A request without a function declares none.
pub proof fn law_declarations_are_counted(tools: Seq<CodexTool>)
    ensures
        declared(tools).len() == first_count(tools_and_groups(tools)),
{
    lemma_flattened(tools);
    lemma_first_in_order(tools_and_groups(tools));
}

// ---------------------------------------------------------------------------------------------
// The request
// ---------------------------------------------------------------------------------------------

/// Whether a thinking level is the one for an effort: gemini's own level of that name where it has
/// one, the lowest for none, the highest for anything beyond, and medium where none is asked for.
pub open spec fn is_level_for(level: ThinkingLevel, effort: Option<CodexEffort>) -> bool {
    match level {
        ThinkingLevel::Minimal => effort == Some(CodexEffort::Minimal) || effort == Some(
            CodexEffort::Off,
        ),
        ThinkingLevel::Low => effort == Some(CodexEffort::Low),
        ThinkingLevel::Medium => effort == Some(CodexEffort::Medium) || effort is None,
        ThinkingLevel::High => effort == Some(CodexEffort::High) || effort == Some(
            CodexEffort::Xhigh,
        ) || effort == Some(CodexEffort::Custom),
    }
}

/// Whether a function-calling mode is the one for a tool choice.
pub open spec fn is_mode_for(
    mode: Option<FunctionCallingMode>,
    choice: Option<CodexToolChoice>,
) -> bool {
    match mode {
        None => choice is None,
        Some(FunctionCallingMode::Auto) => choice == Some(CodexToolChoice::Auto),
        Some(FunctionCallingMode::Never) => choice == Some(CodexToolChoice::Forbidden),
        Some(FunctionCallingMode::Any) => choice == Some(CodexToolChoice::Named) || choice == Some(
            CodexToolChoice::Required,
        ),
    }
}

/// Whether a gemini request asks for what a codex request asks for, over its contents.
pub open spec fn asks_for(
    request: GenerateRequestView,
    req: CodexReq,
    contents: Seq<ContentView>,
) -> bool {
    &&& request.contents == contents
    &&& request.max_output_tokens == req.max_output_tokens
    &&& req.instructions matches Some(text) ==> request.system_prompt == Some(text@)
    &&& req.instructions is None ==> request.system_prompt is None
    &&& request.thinking_config.include_thoughts
    &&& req.reasoning matches Some(reasoning) ==> is_level_for(
        request.thinking_config.thinking_level,
        reasoning.effort,
    )
    &&& req.reasoning is None ==> is_level_for(request.thinking_config.thinking_level, None)
    &&& is_mode_for(request.tool_config.function_calling_mode, req.tool_choice)
    &&& request.tool_config.include_server_side_tool_invocations
    &&& (req.text matches Some(text) && text.format matches Some(
        CodexTextFormat::JsonSchema { schema },
    ) && request.response_json_schema == Some(json(schema)) && request.response_mime_type == Some(
        "application/json"@,
    )) || ((req.text is None || req.text->0.format is None || req.text->0.format->0 is Text)
        && request.response_json_schema is None && request.response_mime_type is None)
    &&& request.tools.len() == declared(req.tools@).len() + 3
    &&& request.tools.take(declared(req.tools@).len() as int) == declared(req.tools@)
    &&& request.tools[declared(req.tools@).len() as int] is GoogleSearch
    &&& request.tools[declared(req.tools@).len() as int + 1] is UrlContext
    &&& request.tools[declared(req.tools@).len() as int + 2] is CodeExecution
}

/// The gemini request carries every control of the codex request: the contents, the instructions,
/// the token cap, the effort, the tool choice, the output schema, the declared functions and,
/// behind these, the three server-side tools.
pub proof fn law_every_control_is_carried(req: CodexReq, contents: Seq<ContentView>)
    ensures
        asks_for(request_of(req, contents), req, contents),
{
    assert(request_of(req, contents).tools.take(declared(req.tools@).len() as int)
        =~= declared(req.tools@));
}

/// The efforts have their levels by name: `none` and `minimal` the lowest, `low` and `medium` their
/// own, and everything else, a value that is no name too, the highest.
pub proof fn law_efforts_have_levels_by_name(value: Json)
    ensures
        level_of(effort_in(value)) == (if value == Json::Str("none"@) || value == Json::Str(
            "minimal"@,
        ) {
            ThinkingLevel::Minimal
        } else if value == Json::Str("low"@) {
            ThinkingLevel::Low
        } else if value == Json::Str("medium"@) {
            ThinkingLevel::Medium
        } else {
            ThinkingLevel::High
        }),
{
    reveal_strlit("high");
    reveal_strlit("low");
    reveal_strlit("medium");
    reveal_strlit("minimal");
    reveal_strlit("none");
    reveal_strlit("xhigh");
    assert("high"@[0] == 'h' && "none"@[0] == 'n');
    assert("high"@.len() == 4 && "none"@.len() == 4 && "xhigh"@.len() == 5);
    assert("minimal"@.len() == 7 && "medium"@.len() == 6 && "low"@.len() == 3);
}

/// The tool choices have their modes by shape: `none` forbids calls, `required` and an object ask
/// for one, anything else leaves it to the model.
pub proof fn law_tool_choices_have_modes_by_shape(value: Json)
    ensures
        mode_of(Some(choice_in(value))) == Some(
            if value == Json::Str("none"@) {
                FunctionCallingMode::Never
            } else if value == Json::Str("required"@) || value is Object {
                FunctionCallingMode::Any
            } else {
                FunctionCallingMode::Auto
            },
        ),
{
    reveal_strlit("none");
    reveal_strlit("required");
    assert("none"@.len() != "required"@.len());
}

// ---------------------------------------------------------------------------------------------
// The start
// ---------------------------------------------------------------------------------------------

/// A request is launched for the model that it names, under gemini's name of it, with everything
/// it asks for; one that names none is answered with one failure that says so.
pub proof fn law_launches_keep_the_request(
    req: CodexReq,
    launch: Launch,
    created: u64,
    response_id: Seq<char>,
    now: u64,
)
    requires
        launched(req, launch, created, response_id, now),
    ensures
        launch matches Launch::Stream(plan) ==> {
            &&& req.model matches Some(model) && model@.len() > 0 && plan.model@ == model@
            &&& plan.created == created
            &&& plan.response_id@ == response_id
            &&& asks_for(plan.request@, req, contents_of(req.input@))
            &&& plan.api_model@ == plan.model@ || plan.api_model@ == "models/"@ + plan.model@
            &&& plan.api_model@.take("models/"@.len() as int) == "models/"@
        },
        launch matches Launch::Rejected(event) ==> {
            &&& req.model is None || req.model->0@.len() == 0
            &&& event@ matches StreamEventView::ResponseFailed { sequence_number, response } && {
                &&& sequence_number == 1
                &&& response.status == Status::Failed
                &&& response.id == response_id
                &&& response.created_at == created
                &&& response.completed_at == Some(now)
                &&& response.model.len() == 0
                &&& response.output.len() == 0
                &&& response.usage is None
                &&& response.error matches Some(error) && error.code == "upstream_failure"@
                    && error.message == "request rejected before streaming"@
            }
        },
{
    law_every_control_is_carried(req, contents_of(req.input@));
    if let Launch::Stream(plan) = launch {
        assert(("models/"@ + plan.model@).take("models/"@.len() as int) =~= "models/"@);
    }
}

/// Gemini's name of a model is the same for the name itself, and keeps models apart.
pub proof fn law_model_names_are_stable(model: Seq<char>)
    ensures
        api_name(api_name(model)) == api_name(model),
        api_name("models/"@ + model) == "models/"@ + model,
{
    let prefix = "models/"@;
    assert((prefix + model).subrange(0, prefix.len() as int) =~= prefix);
}

} // verus!

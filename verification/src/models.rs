//! Which models of an API hold conversations.

use crate::json::{items, Json, JsonView};
use crate::order::{is_sorted_set, sort_distinct};
use crate::text::{clipped, contained, contains, lower, lowered, texts};
use vstd::prelude::*;
use vstd::string::*;

verus! {

/// The id names a model for something other than conversation: speech, images, embeddings,
/// moderation, or plain completion.
pub open spec fn other_purpose(id: Seq<char>) -> bool {
    contained(id, "whisper"@) || contained(id, "tts"@) || contained(id, "dall-e"@) || contained(
        id,
        "dalle"@,
    ) || contained(id, "embedding"@) || contained(id, "moderation"@) || contained(id, "audio"@)
        || contained(id, "image"@) || contained(id, "davinci"@) || contained(id, "babbage"@)
        || contained(id, "ada-"@)
}

/// The id of a chat model: everything that does not say it is something else, in whatever case.
pub open spec fn chat_model(id: Seq<char>) -> bool {
    !other_purpose(lowered(id))
}

/// Returns false for model IDs that are clearly not conversational (embeddings, TTS, image
/// generation, ASR, moderation). Everything else is assumed to be a chat model.
pub fn is_chat_model_id(id: &str) -> (r: bool)
    ensures
        r == chat_model(id@),
{
    let l = lower(id);
    let s = l.as_str();
    !(contains(s, "whisper") || contains(s, "tts") || contains(s, "dall-e") || contains(s, "dalle")
        || contains(s, "embedding") || contains(s, "moderation") || contains(s, "audio") || contains(
        s,
        "image",
    ) || contains(s, "davinci") || contains(s, "babbage") || contains(s, "ada-"))
}

/// The ids of the chat models in a list of model descriptions, in order.
pub open spec fn chat_ids(list: Seq<JsonView>) -> Seq<Seq<char>>
    decreases list.len(),
{
    if list.len() == 0 {
        Seq::empty()
    } else {
        let front = chat_ids(list.drop_last());
        match list.last().field("id"@).text() {
            Some(id) => if chat_model(id) {
                front.push(id)
            } else {
                front
            },
            None => front,
        }
    }
}

/// The model list that is offered: of the sorted ids of the chat models, each once, the first
/// thirty.
pub open spec fn is_model_list(list: Seq<JsonView>, r: Seq<Seq<char>>) -> bool {
    exists|all: Seq<Seq<char>>| #[trigger]
        is_sorted_set(chat_ids(list), all) && r == clipped(all, 30)
}

/// The model list that a reply to `/models` gives; `None` when the reply has no `data` array.
pub fn chat_models(reply: &Json) -> (r: Option<Vec<String>>)
    ensures
        match r {
            Some(ids) => reply@.field("data"@).array() is Some && is_model_list(
                reply@.field("data"@).array()->0,
                texts(ids@),
            ),
            None => reply@.field("data"@).array() is None,
        },
{
    let data = match reply.field("data").array() {
        Some(list) => list,
        None => {
            return None;
        },
    };
    let ghost views = items(data@);
    let mut ids: Vec<String> = Vec::new();
    let mut i: usize = 0;
    assert(views.take(0).len() == 0);
    assert(texts(ids@) == chat_ids(views.take(0)));
    while i < data.len()
        invariant
            i <= data@.len(),
            views == items(data@),
            texts(ids@) == chat_ids(views.take(i as int)),
        decreases data@.len() - i,
    {
        proof {
            let upto = views.take(i + 1);
            assert(upto.drop_last() == views.take(i as int));
            assert(upto.last() == data@[i as int]@);
        }
        if let Some(id) = data[i].field("id").text() {
            if is_chat_model_id(id) {
                let ghost before = texts(ids@);
                ids.push(id.to_string());
                assert(texts(ids@) == before.push(id@));
            }
        }
        i = i + 1;
    }
    assert(views.take(i as int) == views);
    let mut out = sort_distinct(ids.as_slice());
    let ghost all = texts(out@);
    out.truncate(30);
    assert(texts(out@) == clipped(all, 30));
    assert(is_sorted_set(chat_ids(views), all));
    Some(out)
}

// ---- Laws --------------------------------------------------------------------------------------

/// Whether an id names a chat model does not depend on the case of its ASCII letters.
pub proof fn law_case_does_not_matter(a: Seq<char>, b: Seq<char>)
    requires
        lowered(a) == lowered(b),
    ensures
        chat_model(a) == chat_model(b),
{
}

/// The model list has at most thirty entries, in ascending order and each once, and they are ids
/// of chat models among those described.
pub proof fn law_model_list(list: Seq<JsonView>, r: Seq<Seq<char>>)
    requires
        is_model_list(list, r),
    ensures
        r.len() <= 30,
        crate::order::strictly_ascending(r),
        forall|i: int|
            0 <= i < r.len() ==> chat_ids(list).contains(#[trigger] r[i]) && chat_model(r[i]),
        forall|other: Seq<Seq<char>>| is_model_list(list, other) ==> other == r,
{
    let all = choose|all: Seq<Seq<char>>| #[trigger]
        is_sorted_set(chat_ids(list), all) && r == clipped(all, 30);
    assert forall|i: int| 0 <= i < r.len() implies chat_ids(list).contains(#[trigger] r[i])
        && chat_model(r[i]) by {
        assert(all[i] == r[i]);
        assert(all.contains(all[i]));
        lemma_chat_ids(list);
    }
    assert forall|other: Seq<Seq<char>>| is_model_list(list, other) implies other == r by {
        let full = choose|full: Seq<Seq<char>>| #[trigger]
            is_sorted_set(chat_ids(list), full) && other == clipped(full, 30);
        crate::order::law_sorted_set_unique(chat_ids(list), all, full);
    }
}

proof fn lemma_chat_ids(list: Seq<JsonView>)
    ensures
        forall|t: Seq<char>| #[trigger] chat_ids(list).contains(t) ==> chat_model(t),
    decreases list.len(),
{
    if list.len() > 0 {
        lemma_chat_ids(list.drop_last());
        let front = chat_ids(list.drop_last());
        assert forall|t: Seq<char>| #[trigger] chat_ids(list).contains(t) implies chat_model(t) by {
            let k = choose|k: int| 0 <= k < chat_ids(list).len() && chat_ids(list)[k] == t;
            if k < front.len() {
                assert(front[k] == t);
                assert(front.contains(t));
            }
        }
    }
}

/// An id that holds a word for something other than conversation anywhere, in whatever case, names
/// no chat model, and every other id does.
pub proof fn law_other_models_are_left_out(
    id: Seq<char>,
    a: Seq<char>,
    word: Seq<char>,
    b: Seq<char>,
)
    ensures
        lowered(id) == a + word + b && (word == "whisper"@ || word == "tts"@ || word == "dall-e"@
            || word == "dalle"@ || word == "embedding"@ || word == "moderation"@ || word == "audio"@
            || word == "image"@ || word == "davinci"@ || word == "babbage"@ || word
            == "ada-"@) ==> !chat_model(id),
        !chat_model(id) ==> contained(lowered(id), "whisper"@) || contained(lowered(id), "tts"@)
            || contained(lowered(id), "dall-e"@) || contained(lowered(id), "dalle"@)
            || contained(lowered(id), "embedding"@) || contained(lowered(id), "moderation"@)
            || contained(lowered(id), "audio"@) || contained(lowered(id), "image"@)
            || contained(lowered(id), "davinci"@) || contained(lowered(id), "babbage"@)
            || contained(lowered(id), "ada-"@),
{
    if lowered(id) == a + word + b {
        crate::text::law_contained_in_the_middle(a, word, b, lowered(id));
    }
}

proof fn lemma_chat_ids_are_kept(list: Seq<JsonView>, i: int, id: Seq<char>)
    requires
        0 <= i < list.len(),
        list[i].field("id"@) == JsonView::Text(id),
        chat_model(id),
    ensures
        chat_ids(list).contains(id),
    decreases list.len(),
{
    let front = chat_ids(list.drop_last());
    if i == list.len() - 1 {
        assert(chat_ids(list).last() == id);
    } else {
        lemma_chat_ids_are_kept(list.drop_last(), i, id);
        let k = choose|k: int| 0 <= k < front.len() && front[k] == id;
        assert(chat_ids(list)[k] == id);
    }
}

proof fn lemma_chat_ids_come_of_the_list(list: Seq<JsonView>, id: Seq<char>)
    requires
        chat_ids(list).contains(id),
    ensures
        exists|i: int|
            0 <= i < list.len() && (#[trigger] list[i]).field("id"@) == JsonView::Text(id),
    decreases list.len(),
{
    if list.len() > 0 {
        let front = list.drop_last();
        let k = choose|k: int| 0 <= k < chat_ids(list).len() && chat_ids(list)[k] == id;
        if k < chat_ids(front).len() {
            assert(chat_ids(front)[k] == id);
            lemma_chat_ids_come_of_the_list(front, id);
            let i = choose|i: int|
                0 <= i < front.len() && (#[trigger] front[i]).field("id"@) == JsonView::Text(id);
            assert(list[i].field("id"@) == JsonView::Text(id));
        } else {
            assert(list[list.len() - 1].field("id"@) == JsonView::Text(id));
        }
    }
}

/// Every chat model that is described is in the model list, unless the list is full; and every id
/// in it is that of a description.
pub proof fn law_model_list_is_complete(
    list: Seq<JsonView>,
    r: Seq<Seq<char>>,
    i: int,
    id: Seq<char>,
)
    requires
        is_model_list(list, r),
    ensures
        r.len() < 30 && 0 <= i < list.len() && list[i].field("id"@) == JsonView::Text(id)
            && chat_model(id) ==> r.contains(id),
        r.contains(id) ==> exists|k: int|
            0 <= k < list.len() && (#[trigger] list[k]).field("id"@) == JsonView::Text(id),
{
    let all = choose|all: Seq<Seq<char>>| #[trigger]
        is_sorted_set(chat_ids(list), all) && r == clipped(all, 30);
    crate::text::law_clipping_keeps_the_beginning(all, 30);
    if r.len() < 30 && 0 <= i < list.len() && list[i].field("id"@) == JsonView::Text(id)
        && chat_model(id) {
        lemma_chat_ids_are_kept(list, i, id);
        assert(all.contains(id));
    }
    if r.contains(id) {
        let k = choose|k: int| 0 <= k < r.len() && r[k] == id;
        assert(all[k] == id);
        assert(all.contains(id));
        lemma_chat_ids_come_of_the_list(list, id);
    }
}

} // verus!

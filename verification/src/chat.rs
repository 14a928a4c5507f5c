//! Answering questions from knowledge bases, and keeping conversations.

use crate::access;
use crate::access::AuthContext;
use crate::json;
use crate::json::{Json, JsonView};
use crate::reply;
use crate::reply::{Reply, ReplyView};
use crate::retrieval;
use crate::state::AppState;
use crate::text;
use vstd::prelude::*;

verus! {

// ── The question ────────────────────────────────────────────────

/// A question to knowledge bases.
#[derive(Debug)]
pub struct ChatRequest {
    pub question: String,
    pub kb_ids: Vec<String>,
    pub top_k: u64,
}

/// How many hits a question is answered from: 4 unless told otherwise, 1 at least and
/// 20 at most.
pub open spec fn chat_top_k(wanted: Option<u64>) -> u64 {
    let k = match wanted {
        Some(k) => k,
        None => 4,
    };
    if k < 1 {
        1
    } else if k > 20 {
        20
    } else {
        k
    }
}

/// The knowledge bases that a question names.
pub open spec fn chat_kb_ids(body: JsonView) -> Seq<Seq<char>> {
    match body.items("kb_ids"@) {
        Some(items) => json::string_items(items),
        None => Seq::empty(),
    }
}

/// Why a question is not answered; nothing where it is.
pub open spec fn chat_refusal(s: AppState, auth: AuthContext, body: JsonView) -> Option<ReplyView> {
    if !access::may_read_all(s, chat_kb_ids(body), auth) {
        Some(retrieval::no_kb_of())
    } else if !s.llm {
        Some(reply::error_of(503, "No LLM"@))
    } else {
        None
    }
}

/// The question that a request asks, or the answer to a request that may not ask.
pub fn chat_completion(state: &AppState, auth: &AuthContext, body: &Json) -> (r: Result<
    ChatRequest,
    Reply,
>)
    ensures
        match chat_refusal(*state, *auth, body@) {
            Some(answer) => r matches Err(a) && a@ == answer,
            None => r matches Ok(q) && q.question@ == body@.text_or_empty("question"@)
                && text::views(q.kb_ids@) == chat_kb_ids(body@) && q.top_k == chat_top_k(
                body@.number("top_k"@),
            ),
        },
{
    let kb_ids = match body.items("kb_ids") {
        Some(items) => json::strings_among(items),
        None => {
            let none: Vec<String> = Vec::new();
            assert(text::views(none@) =~= Seq::<Seq<char>>::empty());
            none
        },
    };
    if !access::all_kbs_accessible(state, &kb_ids, auth) {
        return Err(reply::api_error(400, "At least one accessible kb_id is required"));
    }
    if !state.llm {
        return Err(reply::api_error(503, "No LLM"));
    }
    let wanted: u64 = match body.number("top_k") {
        Some(k) => k,
        None => 4,
    };
    let top_k: u64 = if wanted < 1 {
        1
    } else if wanted > 20 {
        20
    } else {
        wanted
    };
    Ok(ChatRequest { question: body.text_or_empty("question").to_owned(), kb_ids, top_k })
}

/// A question that is answered is answered from at least one knowledge base, from none
/// that the user may not read, and from between one and twenty hits.
pub proof fn questions_stay_within_reach(s: AppState, auth: AuthContext, body: JsonView)
    requires
        chat_refusal(s, auth, body) is None,
    ensures
        chat_kb_ids(body).len() > 0,
        forall|i: int|
            0 <= i < chat_kb_ids(body).len() ==> access::may_read(
                s,
                #[trigger] chat_kb_ids(body)[i],
                auth,
            ),
        1 <= chat_top_k(body.number("top_k"@)) <= 20,
{
}

// ── Other languages ─────────────────────────────────────────────

/// The texts with another one at the end, trimmed, unless that is blank or there
/// already.
pub open spec fn with_language(langs: Seq<Seq<char>>, item: Seq<char>) -> Seq<Seq<char>> {
    let lang = text::trimmed(item);
    if lang.len() == 0 || langs.contains(lang) {
        langs
    } else {
        langs.push(lang)
    }
}

/// The texts with others at the end.
pub open spec fn with_languages(langs: Seq<Seq<char>>, items: Seq<Seq<char>>) -> Seq<Seq<char>>
    decreases items.len(),
{
    if items.len() == 0 {
        langs
    } else {
        with_language(with_languages(langs, items.drop_last()), items.last())
    }
}

/// The languages that a knowledge base is also to be searched in.
pub open spec fn kb_languages(s: AppState, id: Seq<char>) -> Seq<Seq<char>> {
    match s.kb(id) {
        Some(kb) => match kb.prompt_config@.items("cross_languages"@) {
            Some(items) => json::string_items(items),
            None => Seq::empty(),
        },
        None => Seq::empty(),
    }
}

/// The languages that the knowledge bases are also to be searched in, each once, in
/// the order in which they are first named.
pub open spec fn cross_languages_of(s: AppState, ids: Seq<Seq<char>>) -> Seq<Seq<char>>
    decreases ids.len(),
{
    if ids.len() == 0 {
        Seq::empty()
    } else {
        with_languages(cross_languages_of(s, ids.drop_last()), kb_languages(s, ids.last()))
    }
}

fn add_languages(langs: &mut Vec<String>, items: &Vec<String>)
    ensures
        text::views(final(langs)@) == with_languages(
            text::views(old(langs)@),
            text::views(items@),
        ),
{
    let ghost start = text::views(langs@);
    let ghost all = text::views(items@);
    let mut i: usize = 0;
    assert(all.take(0) =~= Seq::<Seq<char>>::empty());
    while i < items.len()
        invariant
            i <= items@.len(),
            all == text::views(items@),
            start == text::views(old(langs)@),
            text::views(langs@) == with_languages(start, all.take(i as int)),
        decreases items@.len() - i,
    {
        let ghost before = text::views(langs@);
        proof {
            assert(all.take(i + 1).drop_last() =~= all.take(i as int));
            assert(all.take(i + 1).last() == items@[i as int]@);
        }
        let lang = text::trim(items[i].as_str());
        if !lang.is_empty() && !text::listed(langs, lang) {
            langs.push(lang.to_owned());
            assert(text::views(langs@) =~= before.push(lang@));
        }
        i += 1;
    }
    assert(all.take(i as int) =~= all);
}

/// The languages that the knowledge bases are also to be searched in.
pub fn cross_languages(state: &AppState, kb_ids: &Vec<String>) -> (r: Vec<String>)
    ensures
        text::views(r@) == cross_languages_of(*state, text::views(kb_ids@)),
{
    let ghost ids = text::views(kb_ids@);
    let mut langs: Vec<String> = Vec::new();
    let mut i: usize = 0;
    assert(ids.take(0) =~= Seq::<Seq<char>>::empty());
    assert(text::views(langs@) =~= Seq::<Seq<char>>::empty());
    while i < kb_ids.len()
        invariant
            i <= kb_ids@.len(),
            ids == text::views(kb_ids@),
            text::views(langs@) == cross_languages_of(*state, ids.take(i as int)),
        decreases kb_ids@.len() - i,
    {
        proof {
            assert(ids.take(i + 1).drop_last() =~= ids.take(i as int));
            assert(ids.take(i + 1).last() == kb_ids@[i as int]@);
        }
        let ghost before = text::views(langs@);
        let mut found = false;
        if let Some(kb) = state.find_kb(kb_ids[i].as_str()) {
            if let Some(items) = kb.prompt_config.items("cross_languages") {
                let named = json::strings_among(items);
                add_languages(&mut langs, &named);
                found = true;
            }
        }
        proof {
            if !found {
                assert(kb_languages(*state, ids[i as int]) =~= Seq::<Seq<char>>::empty());
                assert(with_languages(before, Seq::<Seq<char>>::empty()) == before);
            }
        }
        i += 1;
    }
    assert(ids.take(i as int) =~= ids);
    langs
}

/// The parts of a text between the separators; `head` is the part that has begun.
pub open spec fn sections(s: Seq<char>, sep: Seq<char>, head: Seq<char>) -> Seq<Seq<char>>
    decreases s.len(),
{
    if s.len() == 0 {
        seq![head]
    } else if sep.len() > 0 && sep.is_prefix_of(s) {
        seq![head] + sections(s.skip(sep.len() as int), sep, Seq::empty())
    } else {
        sections(s.drop_first(), sep, head.push(s[0]))
    }
}

/// The part is a translation that is worth a search.
pub open spec fn is_translation(part: Seq<char>, question: Seq<char>) -> bool {
    text::trimmed(part).len() > 0 && text::trimmed(part) != question
}

/// The translations of a question, in order.
pub open spec fn chosen_parts(parts: Seq<Seq<char>>, question: Seq<char>) -> Seq<Seq<char>>
    decreases parts.len(),
{
    if parts.len() == 0 {
        Seq::empty()
    } else if is_translation(parts[0], question) {
        seq![text::trimmed(parts[0])] + chosen_parts(parts.drop_first(), question)
    } else {
        chosen_parts(parts.drop_first(), question)
    }
}

/// The translations in a model's answer: its trimmed parts between `###`, without
/// blank ones and without the question itself.
pub open spec fn translations_of(answer: Seq<char>, question: Seq<char>) -> Seq<Seq<char>> {
    chosen_parts(sections(answer, "###"@, Seq::empty()), question)
}

proof fn lemma_chosen_split(a: Seq<Seq<char>>, b: Seq<Seq<char>>, question: Seq<char>)
    ensures
        chosen_parts(a + b, question) == chosen_parts(a, question) + chosen_parts(b, question),
    decreases a.len(),
{
    if a.len() == 0 {
        assert(a + b =~= b);
        assert(chosen_parts(a, question) + chosen_parts(b, question) =~= chosen_parts(b, question));
    } else {
        lemma_chosen_split(a.drop_first(), b, question);
        assert((a + b).drop_first() =~= a.drop_first() + b);
        assert(chosen_parts(a + b, question) =~= chosen_parts(a, question) + chosen_parts(
            b,
            question,
        ));
    }
}

fn keep_part(out: &mut Vec<String>, part: &str, question: &str)
    ensures
        text::views(final(out)@) == text::views(old(out)@) + chosen_parts(
            seq![part@],
            question@,
        ),
{
    let ghost before = text::views(out@);
    let trimmed = text::trim(part);
    proof {
        let one = seq![part@];
        assert(one.drop_first() =~= Seq::<Seq<char>>::empty());
        assert(chosen_parts(one.drop_first(), question@) =~= Seq::<Seq<char>>::empty());
    }
    if !trimmed.is_empty() && !text::same(trimmed, question) {
        out.push(trimmed.to_owned());
        assert(text::views(out@) =~= before + chosen_parts(seq![part@], question@));
    } else {
        assert(chosen_parts(seq![part@], question@) =~= Seq::<Seq<char>>::empty());
        assert(text::views(out@) =~= before + chosen_parts(seq![part@], question@));
    }
}

/// The translations in a model's answer.
pub fn translations(answer: &str, question: &str) -> (r: Vec<String>)
    ensures
        text::views(r@) == translations_of(answer@, question@),
{
    proof {
        reveal_strlit("###");
    }
    let chars = text::chars_of(answer);
    let mut out: Vec<String> = Vec::new();
    let mut from: usize = 0;
    let mut i: usize = 0;
    proof {
        assert(answer@.skip(0) =~= answer@);
        assert(answer@.subrange(0, 0) =~= Seq::<char>::empty());
        assert(text::views(out@) =~= Seq::<Seq<char>>::empty());
        assert(text::views(out@) + translations_of(answer@, question@) =~= translations_of(
            answer@,
            question@,
        ));
    }
    while i < chars.len()
        invariant
            chars@ == answer@,
            from <= i <= chars.len(),
            "###"@ == seq!['#', '#', '#'],
            text::views(out@) + chosen_parts(
                sections(
                    answer@.skip(i as int),
                    "###"@,
                    answer@.subrange(from as int, i as int),
                ),
                question@,
            ) == translations_of(answer@, question@),
        decreases chars.len() - i,
    {
        let ghost rest = answer@.skip(i as int);
        let ghost head = answer@.subrange(from as int, i as int);
        let sep = chars.len() - i >= 3 && chars[i] == '#' && chars[i + 1] == '#' && chars[i + 2]
            == '#';
        proof {
            let s = seq!['#', '#', '#'];
            if s.is_prefix_of(rest) {
                assert(rest.take(3)[0] == s[0] && rest.take(3)[1] == s[1] && rest.take(3)[2]
                    == s[2]);
            }
            if sep {
                assert(rest.take(3) =~= s);
            }
            assert(sep == s.is_prefix_of(rest));
        }
        if sep {
            let part = text::string_of(&chars, from, i);
            let ghost before = text::views(out@);
            keep_part(&mut out, part.as_str(), question);
            proof {
                let tail = sections(rest.skip(3), "###"@, Seq::empty());
                lemma_chosen_split(seq![head], tail, question@);
                assert(rest.skip(3) =~= answer@.skip(i + 3));
                assert(answer@.subrange(i + 3, i + 3) =~= Seq::<char>::empty());
                assert(text::views(out@) + chosen_parts(tail, question@) =~= before + (chosen_parts(
                    seq![head],
                    question@,
                ) + chosen_parts(tail, question@)));
            }
            i += 3;
            from = i;
        } else {
            proof {
                assert(rest.drop_first() =~= answer@.skip(i + 1));
                assert(head.push(rest[0]) =~= answer@.subrange(from as int, i + 1));
            }
            i += 1;
        }
    }
    let part = text::string_of(&chars, from, i);
    proof {
        assert(answer@.skip(i as int) =~= Seq::<char>::empty());
    }
    keep_part(&mut out, part.as_str(), question);
    out
}

// ── Hits ────────────────────────────────────────────────────────

/// A hit that a question is answered from. The score is carried by its bits.
#[derive(Debug)]
pub struct ChatHit {
    pub chunk_id: String,
    pub content: String,
    pub doc_name: String,
    pub score: u64,
}

/// A hit, over mathematical values.
pub struct ChatHitView {
    pub chunk_id: Seq<char>,
    pub content: Seq<char>,
    pub doc_name: Seq<char>,
    pub score: u64,
}

impl View for ChatHit {
    type V = ChatHitView;

    open spec fn view(&self) -> ChatHitView {
        ChatHitView {
            chunk_id: self.chunk_id@,
            content: self.content@,
            doc_name: self.doc_name@,
            score: self.score,
        }
    }
}

/// The views of the hits.
pub open spec fn chat_hit_views(hits: Seq<ChatHit>) -> Seq<ChatHitView> {
    hits.map_values(|h: ChatHit| h@)
}

/// A hit of the chunk is among them.
pub open spec fn has_chunk(hits: Seq<ChatHitView>, chunk_id: Seq<char>) -> bool {
    exists|i: int| 0 <= i < hits.len() && (#[trigger] hits[i]).chunk_id == chunk_id
}

/// The hits with further ones at the end, without those whose chunk was hit before.
pub open spec fn merged(hits: Seq<ChatHitView>, extra: Seq<ChatHitView>) -> Seq<ChatHitView>
    decreases extra.len(),
{
    if extra.len() == 0 {
        hits
    } else {
        let before = merged(hits, extra.drop_last());
        if has_chunk(before, extra.last().chunk_id) {
            before
        } else {
            before.push(extra.last())
        }
    }
}

fn holds_chunk(hits: &Vec<ChatHit>, chunk_id: &str) -> (r: bool)
    ensures
        r == has_chunk(chat_hit_views(hits@), chunk_id@),
{
    let ghost all = chat_hit_views(hits@);
    let mut i: usize = 0;
    while i < hits.len()
        invariant
            i <= hits@.len(),
            all == chat_hit_views(hits@),
            forall|k: int| 0 <= k < i ==> (#[trigger] all[k]).chunk_id != chunk_id@,
        decreases hits@.len() - i,
    {
        assert(all[i as int] == hits@[i as int]@);
        if text::same(hits[i].chunk_id.as_str(), chunk_id) {
            return true;
        }
        i += 1;
    }
    false
}

/// Adds the hits of another search, without those whose chunk was hit before.
pub fn merge_hits(hits: &mut Vec<ChatHit>, extra: &Vec<ChatHit>)
    ensures
        chat_hit_views(final(hits)@) == merged(
            chat_hit_views(old(hits)@),
            chat_hit_views(extra@),
        ),
{
    let ghost start = chat_hit_views(hits@);
    let ghost more = chat_hit_views(extra@);
    let mut i: usize = 0;
    assert(more.take(0) =~= Seq::<ChatHitView>::empty());
    while i < extra.len()
        invariant
            i <= extra@.len(),
            more == chat_hit_views(extra@),
            start == chat_hit_views(old(hits)@),
            chat_hit_views(hits@) == merged(start, more.take(i as int)),
        decreases extra@.len() - i,
    {
        let ghost before = chat_hit_views(hits@);
        proof {
            assert(more.take(i + 1).drop_last() =~= more.take(i as int));
            assert(more.take(i + 1).last() == extra@[i as int]@);
        }
        if !holds_chunk(hits, extra[i].chunk_id.as_str()) {
            hits.push(
                ChatHit {
                    chunk_id: extra[i].chunk_id.clone(),
                    content: extra[i].content.clone(),
                    doc_name: extra[i].doc_name.clone(),
                    score: extra[i].score,
                },
            );
            assert(chat_hit_views(hits@) =~= before.push(extra@[i as int]@));
        }
        i += 1;
    }
    assert(more.take(i as int) =~= more);
}

/// No chunk stands twice.
pub open spec fn distinct_chunks(hits: Seq<ChatHitView>) -> bool {
    forall|i: int, j: int|
        0 <= i < j < hits.len() ==> (#[trigger] hits[i]).chunk_id != (#[trigger] hits[j]).chunk_id
}

/// Merging keeps the hits that were there, in front and in order, brings in every
/// further chunk, and brings in none twice.
pub proof fn merging_keeps_hits_once(hits: Seq<ChatHitView>, extra: Seq<ChatHitView>)
    ensures
        hits.is_prefix_of(merged(hits, extra)),
        forall|i: int|
            0 <= i < extra.len() ==> has_chunk(
                merged(hits, extra),
                (#[trigger] extra[i]).chunk_id,
            ),
        distinct_chunks(hits) ==> distinct_chunks(merged(hits, extra)),
    decreases extra.len(),
{
    if extra.len() == 0 {
        assert(hits.take(hits.len() as int) =~= hits);
    } else {
        merging_keeps_hits_once(hits, extra.drop_last());
        let before = merged(hits, extra.drop_last());
        let all = merged(hits, extra);
        assert(all.take(hits.len() as int) =~= before.take(hits.len() as int));
        assert(before.is_prefix_of(all)) by {
            assert(all.take(before.len() as int) =~= before);
        }
        assert forall|i: int| 0 <= i < extra.len() implies has_chunk(
            all,
            (#[trigger] extra[i]).chunk_id,
        ) by {
            if i < extra.len() - 1 {
                assert(extra.drop_last()[i] == extra[i]);
                let k = choose|k: int|
                    0 <= k < before.len() && (#[trigger] before[k]).chunk_id == extra[i].chunk_id;
                assert(all[k] == before[k]);
            } else if !has_chunk(before, extra.last().chunk_id) {
                assert(all[before.len() as int] == extra.last());
            }
        }
        if distinct_chunks(hits) && !has_chunk(before, extra.last().chunk_id) {
            assert forall|i: int, j: int| 0 <= i < j < all.len() implies (#[trigger] all[i]).chunk_id
                != (#[trigger] all[j]).chunk_id by {
                if j == before.len() {
                    assert(before[i].chunk_id != extra.last().chunk_id);
                }
            }
        }
    }
}

// ── The prompt ──────────────────────────────────────────────────

/// How many hits a prompt quotes.
pub const QUOTED_HITS: usize = 4;

/// The hits as the prompt quotes them, one on a line, with their number in front.
pub open spec fn context_of(hits: Seq<ChatHitView>) -> Seq<char>
    decreases hits.len(),
{
    if hits.len() == 0 {
        Seq::empty()
    } else {
        context_of(hits.drop_last()) + "["@ + text::decimal((hits.len() - 1) as nat) + "] "@
            + hits.last().content + "\n"@
    }
}

/// The first hits.
pub open spec fn quoted(hits: Seq<ChatHitView>) -> Seq<ChatHitView> {
    if hits.len() <= QUOTED_HITS {
        hits
    } else {
        hits.take(QUOTED_HITS as int)
    }
}

/// What the model is asked: the question, and what the knowledge bases hold on it.
pub open spec fn prompt_of(context: Seq<char>, question: Seq<char>) -> Seq<char> {
    if text::trimmed(context).len() == 0 {
        question
    } else {
        "请基于以下知识库内容回答问题。若内容不足以回答，请说明。\n\n知识库内容：\n"@
            + context + "\n问题："@ + question
    }
}

/// What the answer refers to.
pub open spec fn reference_of(hit: ChatHitView) -> JsonView {
    JsonView::Object(
        seq![
            ("chunk_id"@, JsonView::Str(hit.chunk_id)),
            ("doc_name"@, JsonView::Str(hit.doc_name)),
            ("score"@, JsonView::Real(hit.score)),
        ],
    )
}

/// What the answer refers to: the quoted hits.
pub open spec fn references_of(hits: Seq<ChatHitView>) -> Seq<JsonView> {
    quoted(hits).map_values(|h: ChatHitView| reference_of(h))
}

/// What the model is asked and what its answer refers to.
pub fn chat_prompt(hits: &Vec<ChatHit>, question: &str) -> (r: (String, Vec<Json>))
    ensures
        r.0@ == prompt_of(context_of(quoted(chat_hit_views(hits@))), question@),
        json::item_views(r.1@) == references_of(chat_hit_views(hits@)),
{
    let ghost all = quoted(chat_hit_views(hits@));
    let count: usize = if hits.len() <= QUOTED_HITS {
        hits.len()
    } else {
        QUOTED_HITS
    };
    let mut context = String::new();
    let mut references: Vec<Json> = Vec::new();
    let mut i: usize = 0;
    assert(all.take(0) =~= Seq::<ChatHitView>::empty());
    while i < count
        invariant
            i <= count <= hits@.len(),
            count == all.len(),
            forall|k: int| 0 <= k < count ==> #[trigger] all[k] == hits@[k]@,
            context@ == context_of(all.take(i as int)),
            references@.len() == i,
            forall|k: int| 0 <= k < i ==> (#[trigger] references@[k])@ == reference_of(all[k]),
        decreases count - i,
    {
        let hit = &hits[i];
        proof {
            assert(all.take(i + 1).drop_last() =~= all.take(i as int));
            assert(all.take(i + 1).last() == hit@);
        }
        let number = text::concat3("[", text::decimal_of(i as u64).as_str(), "] ");
        let line = text::concat3(number.as_str(), hit.content.as_str(), "\n");
        let ghost before = context@;
        context = text::concat(context.as_str(), line.as_str());
        assert(context@ =~= context_of(all.take(i + 1)));
        let e = json::with(json::fields(), "chunk_id", json::string(hit.chunk_id.as_str()));
        let e = json::with(e, "doc_name", json::string(hit.doc_name.as_str()));
        let e = json::with(e, "score", Json::Real(hit.score));
        assert(json::entry_views(e@) =~= reference_of(hit@)->Object_0);
        references.push(json::object(e));
        i += 1;
    }
    assert(all.take(i as int) =~= all);
    assert(json::item_views(references@) =~= references_of(chat_hit_views(hits@)));
    let prompt = if text::is_blank(context.as_str()) {
        question.to_owned()
    } else {
        let head = text::concat3(
            "请基于以下知识库内容回答问题。若内容不足以回答，请说明。\n\n知识库内容：\n",
            context.as_str(),
            "\n问题：",
        );
        text::concat(head.as_str(), question)
    };
    (prompt, references)
}

/// The answer to a question. A model that fails is told of in the body, under the
/// status of a success.
pub fn chat_reply(answer: Result<String, String>, references: Vec<Json>) -> (r: Reply)
    ensures
        match answer {
            Ok(a) => r@ == reply::ok_of(
                "ok"@,
                JsonView::Object(
                    seq![
                        ("answer"@, JsonView::Str(a@)),
                        ("reference"@, JsonView::Array(json::item_views(references@))),
                    ],
                ),
            ),
            Err(e) => r@ == reply::reply_of(200, 500, e@, None),
        },
{
    match answer {
        Ok(a) => {
            let e = json::with(json::fields(), "answer", json::string(a.as_str()));
            let e = json::with(e, "reference", json::array(references));
            assert(json::entry_views(e@) =~= seq![
                ("answer"@, JsonView::Str(a@)),
                ("reference"@, JsonView::Array(json::item_views(references@))),
            ]);
            reply::ok("ok", json::object(e))
        },
        Err(e) => reply::plain(200, 500, e.as_str()),
    }
}

// ── Conversations ───────────────────────────────────────────────

/// A message of a conversation.
#[derive(Debug)]
pub struct ConversationMessage {
    pub role: String,
    pub content: String,
}

/// A message in Markdown.
pub open spec fn message_markdown(role: Seq<char>, content: Seq<char>) -> Seq<char> {
    (if role == "user"@ {
        "**User**"@
    } else {
        "**Assistant**"@
    }) + ": "@ + content + "\n\n"@
}

/// Messages in Markdown.
pub open spec fn messages_markdown(messages: Seq<ConversationMessage>) -> Seq<char>
    decreases messages.len(),
{
    if messages.len() == 0 {
        Seq::empty()
    } else {
        messages_markdown(messages.drop_last()) + message_markdown(
            messages.last().role@,
            messages.last().content@,
        )
    }
}

/// A conversation in Markdown: its name as a heading, and its messages.
pub fn export_conversation(name: &str, messages: &Vec<ConversationMessage>) -> (r: String)
    ensures
        r@ == "# "@ + name@ + "\n\n"@ + messages_markdown(messages@),
{
    let mut body = String::new();
    let mut i: usize = 0;
    assert(messages@.take(0) =~= Seq::<ConversationMessage>::empty());
    while i < messages.len()
        invariant
            i <= messages@.len(),
            body@ == messages_markdown(messages@.take(i as int)),
        decreases messages@.len() - i,
    {
        proof {
            assert(messages@.take(i + 1).drop_last() =~= messages@.take(i as int));
            assert(messages@.take(i + 1).last() == messages@[i as int]);
        }
        let role = if text::same(messages[i].role.as_str(), "user") {
            "**User**"
        } else {
            "**Assistant**"
        };
        let head = text::concat3(role, ": ", messages[i].content.as_str());
        let line = text::concat(head.as_str(), "\n\n");
        body = text::concat(body.as_str(), line.as_str());
        i += 1;
    }
    assert(messages@.take(i as int) =~= messages@);
    let head = text::concat3("# ", name, "\n\n");
    text::concat(head.as_str(), body.as_str())
}

/// The answer where the user has no such conversation.
pub open spec fn no_conversation_of() -> ReplyView {
    reply::code_message_of(404, "Conversation not found"@)
}

/// The answer where the user has no such conversation.
pub fn no_conversation() -> (r: Reply)
    ensures
        r@ == no_conversation_of(),
{
    reply::ret_code_response(404, "Conversation not found")
}

/// The answer once the messages of a conversation are cleared. A user who does not
/// have the conversation clears nothing.
pub fn clear_conversation(outcome: Option<Result<(), String>>) -> (r: Reply)
    ensures
        match outcome {
            None => r@ == no_conversation_of(),
            Some(Ok(_)) => r@ == reply::code_data_of(JsonView::Bool(true)),
            Some(Err(reason)) => r@ == reply::code_message_of(500, reason@),
        },
{
    match outcome {
        None => no_conversation(),
        Some(Ok(_)) => reply::code_data(Json::Bool(true)),
        Some(Err(reason)) => reply::ret_code_response(500, reason.as_str()),
    }
}

/// The new name of a conversation, or the answer to a request without one.
pub fn conversation_name(body: &Json) -> (r: Result<String, Reply>)
    ensures
        match body@.text("name"@) {
            Some(name) => r matches Ok(n) && n@ == name,
            None => r matches Err(a) && a@ == reply::error_of(400, "name is required"@),
        },
{
    match body.text("name") {
        Some(name) => Ok(name.to_owned()),
        None => Err(reply::api_error(400, "name is required")),
    }
}

/// The answer once a conversation is renamed. The outcome tells whether the user has
/// it.
pub fn rename_conversation(outcome: Result<bool, String>) -> (r: Reply)
    ensures
        match outcome {
            Ok(true) => r@ == reply::reply_of(200, 0, "Renamed"@, None),
            Ok(false) => r@ == reply::error_of(404, "Conversation not found"@),
            Err(reason) => r@ == reply::error_of(400, reason@),
        },
{
    match outcome {
        Ok(true) => reply::plain(200, 0, "Renamed"),
        Ok(false) => reply::api_error(404, "Conversation not found"),
        Err(reason) => reply::api_error(400, reason.as_str()),
    }
}

/// The answer once a conversation is deleted. The outcome tells whether the user had
/// it.
pub fn delete_conversation(outcome: Result<bool, String>) -> (r: Reply)
    ensures
        match outcome {
            Ok(true) => r@ == reply::code_message_of(0, "ok"@),
            Ok(false) => r@ == no_conversation_of(),
            Err(reason) => r@ == reply::code_message_of(500, reason@),
        },
{
    match outcome {
        Ok(true) => reply::ret_code_response(0, "ok"),
        Ok(false) => no_conversation(),
        Err(reason) => reply::ret_code_response(500, reason.as_str()),
    }
}

// ── What a chat is for ──────────────────────────────────────────

/// A question that is answered is the one that the request tells, and it is answered
/// from every knowledge base that the request names: each string under `kb_ids`, in
/// order, with nothing left out. It is answered from as many hits as the request wants,
/// at least one and at most twenty, and from four where it does not say.
pub proof fn questions_are_answered_from_every_named_base(
    state: AppState,
    auth: AuthContext,
    body: Json,
    r: Result<ChatRequest, Reply>,
    items: Seq<JsonView>,
    i: int,
)
    requires
        call_ensures(chat_completion, (&state, &auth, &body), r),
        body@.items("kb_ids"@) == Some(items),
    ensures
        r matches Ok(q) ==> {
            &&& text::views(q.kb_ids@) == items.filter(|v: JsonView| v is Str).map_values(
                |v: JsonView| v->Str_0,
            )
            &&& q.kb_ids@.len() == items.filter(|v: JsonView| v is Str).len()
            &&& 0 <= i < items.len() && items[i] is Str ==> text::views(q.kb_ids@).contains(
                items[i]->Str_0,
            )
            &&& body@.text("question"@) matches Some(told) ==> q.question@ == told
            &&& body@.text("question"@) is None ==> q.question@.len() == 0
            &&& body@.number("top_k"@) is None ==> q.top_k == 4
            &&& body@.number("top_k"@) matches Some(k) ==> q.top_k == (if k == 0 {
                1
            } else if k > 20 {
                20
            } else {
                k as int
            })
        },
{
    json::string_items_are_all_strings(items);
    if let Ok(q) = r {
        assert(text::views(q.kb_ids@).len() == q.kb_ids@.len());
        if 0 <= i < items.len() && items[i] is Str {
            assert(json::string_items(items).contains(items[i]->Str_0));
        }
    }
}

/// A question that names no knowledge base, or a single one that the user may not read,
/// is answered with 400. One that names only readable ones is taken, unless there is no
/// chat model.
pub proof fn questions_need_readable_bases(
    state: AppState,
    auth: AuthContext,
    body: Json,
    r: Result<ChatRequest, Reply>,
    items: Seq<JsonView>,
    i: int,
)
    requires
        call_ensures(chat_completion, (&state, &auth, &body), r),
    ensures
        body@.items("kb_ids"@) is None ==> (r matches Err(a) && reply::tells(
            a@,
            400,
            400,
            "At least one accessible kb_id is required"@,
        )),
        body@.items("kb_ids"@) == Some(items) && 0 <= i < items.len() && items[i] is Str
            && !access::may_read(state, items[i]->Str_0, auth) ==> (r matches Err(a)
            && reply::tells(a@, 400, 400, "At least one accessible kb_id is required"@)),
        body@.items("kb_ids"@) == Some(items) && 0 <= i < items.len() && items[i] is Str && (forall|
            k: int,
        |
            0 <= k < items.len() && (#[trigger] items[k]) is Str ==> access::may_read(
                state,
                items[k]->Str_0,
                auth,
            )) ==> if state.llm {
            r is Ok
        } else {
            r matches Err(a) && reply::tells(a@, 503, 503, "No LLM"@)
        },
{
    reply::answers_tell_what_they_were_given(
        400,
        400,
        "At least one accessible kb_id is required"@,
        JsonView::Null,
    );
    reply::answers_tell_what_they_were_given(503, 503, "No LLM"@, JsonView::Null);
    if body@.items("kb_ids"@) == Some(items) && 0 <= i < items.len() && items[i] is Str {
        json::string_items_are_all_strings(items);
        let ids = json::string_items(items);
        assert(ids.contains(items[i]->Str_0));
        assert(ids.len() > 0);
        if forall|k: int|
            0 <= k < items.len() && (#[trigger] items[k]) is Str ==> access::may_read(
                state,
                items[k]->Str_0,
                auth,
            ) {
            lemma_strings_come_from_items(items);
            assert forall|m: int| 0 <= m < ids.len() implies access::may_read(
                state,
                #[trigger] ids[m],
                auth,
            ) by {
                let k = choose|k: int|
                    0 <= k < items.len() && #[trigger] items[k] == JsonView::Str(ids[m]);
                assert(items[k] is Str);
            }
        }
    }
}

proof fn lemma_strings_come_from_items(items: Seq<JsonView>)
    ensures
        forall|m: int|
            0 <= m < json::string_items(items).len() ==> exists|k: int|
                0 <= k < items.len() && #[trigger] items[k] == JsonView::Str(
                    #[trigger] json::string_items(items)[m],
                ),
    decreases items.len(),
{
    if items.len() > 0 {
        let rest = items.drop_last();
        lemma_strings_come_from_items(rest);
        let all = json::string_items(items);
        assert forall|m: int| 0 <= m < all.len() implies exists|k: int|
            0 <= k < items.len() && #[trigger] items[k] == JsonView::Str(#[trigger] all[m]) by {
            if m < json::string_items(rest).len() {
                assert(json::string_items(rest)[m] == all[m]);
                let k = choose|k: int|
                    0 <= k < rest.len() && #[trigger] rest[k] == JsonView::Str(
                        json::string_items(rest)[m],
                    );
                assert(items[k] == JsonView::Str(all[m]));
            } else {
                assert(items[items.len() - 1] == JsonView::Str(all[m]));
            }
        }
    }
}

proof fn lemma_with_languages(langs: Seq<Seq<char>>, items: Seq<Seq<char>>)
    ensures
        langs.is_prefix_of(with_languages(langs, items)),
        langs.no_duplicates() ==> with_languages(langs, items).no_duplicates(),
        (forall|i: int| 0 <= i < langs.len() ==> text::trimmed(#[trigger] langs[i]) == langs[i]
            && langs[i].len() > 0) ==> (forall|i: int|
            0 <= i < with_languages(langs, items).len() ==> text::trimmed(
                #[trigger] with_languages(langs, items)[i],
            ) == with_languages(langs, items)[i] && with_languages(langs, items)[i].len() > 0),
        forall|i: int|
            0 <= i < items.len() && text::trimmed(#[trigger] items[i]).len() > 0
                ==> with_languages(langs, items).contains(text::trimmed(items[i])),
    decreases items.len(),
{
    if items.len() > 0 {
        let rest = items.drop_last();
        lemma_with_languages(langs, rest);
        let before = with_languages(langs, rest);
        let lang = text::trimmed(items.last());
        let after = with_languages(langs, items);
        text::trimmed_text_is_stable(items.last());
        assert(before.is_prefix_of(after));
        assert forall|i: int| 0 <= i < items.len() && text::trimmed(#[trigger] items[i]).len()
            > 0 implies after.contains(text::trimmed(items[i])) by {
            if i < rest.len() {
                assert(rest[i] == items[i]);
                let k = choose|k: int|
                    0 <= k < before.len() && before[k] == text::trimmed(items[i]);
                assert(after[k] == text::trimmed(items[i]));
            } else if !before.contains(lang) {
                assert(after[before.len() as int] == lang);
            }
        }
    }
}

proof fn lemma_cross_languages(s: AppState, ids: Seq<Seq<char>>)
    ensures
        cross_languages_of(s, ids).no_duplicates(),
        forall|i: int|
            0 <= i < cross_languages_of(s, ids).len() ==> text::trimmed(
                #[trigger] cross_languages_of(s, ids)[i],
            ) == cross_languages_of(s, ids)[i] && cross_languages_of(s, ids)[i].len() > 0,
        forall|k: int, m: int|
            #![trigger kb_languages(s, ids[k])[m]]
            0 <= k < ids.len() && 0 <= m < kb_languages(s, ids[k]).len() && text::trimmed(
                kb_languages(s, ids[k])[m],
            ).len() > 0 ==> cross_languages_of(s, ids).contains(
                text::trimmed(kb_languages(s, ids[k])[m]),
            ),
    decreases ids.len(),
{
    if ids.len() > 0 {
        let rest = ids.drop_last();
        lemma_cross_languages(s, rest);
        let before = cross_languages_of(s, rest);
        let last = kb_languages(s, ids.last());
        lemma_with_languages(before, last);
        let after = cross_languages_of(s, ids);
        assert forall|k: int, m: int|
            #![trigger kb_languages(s, ids[k])[m]]
            0 <= k < ids.len() && 0 <= m < kb_languages(s, ids[k]).len() && text::trimmed(
                kb_languages(s, ids[k])[m],
            ).len() > 0 implies after.contains(text::trimmed(kb_languages(s, ids[k])[m])) by {
            let lang = text::trimmed(kb_languages(s, ids[k])[m]);
            if k < rest.len() {
                assert(rest[k] == ids[k]);
                assert(before.contains(text::trimmed(kb_languages(s, rest[k])[m])));
                let p = choose|p: int| 0 <= p < before.len() && before[p] == lang;
                assert(after[p] == lang);
            } else {
                assert(ids[k] == ids.last());
            }
        }
    }
}

/// A question is also searched in every language that the settings of one of its
/// knowledge bases list, in each once; a language is told without white space around it,
/// and none is blank.
pub proof fn questions_are_searched_in_every_listed_language(
    state: AppState,
    kb_ids: Vec<String>,
    r: Vec<String>,
    k: int,
    kb: crate::state::KnowledgeBase,
    items: Seq<JsonView>,
    m: int,
)
    requires
        call_ensures(cross_languages, (&state, &kb_ids), r),
    ensures
        text::views(r@).no_duplicates(),
        forall|i: int|
            0 <= i < r@.len() ==> text::trimmed((#[trigger] r@[i])@) == r@[i]@ && r@[i]@.len() > 0,
        0 <= k < kb_ids@.len() && state.kb(kb_ids@[k]@) == Some(kb) && kb.prompt_config@.items(
            "cross_languages"@,
        ) == Some(items) && 0 <= m < items.len() && items[m] is Str && text::trimmed(
            items[m]->Str_0,
        ).len() > 0 ==> text::views(r@).contains(text::trimmed(items[m]->Str_0)),
        kb_ids@.len() == 0 ==> r@.len() == 0,
{
    let ids = text::views(kb_ids@);
    let all = text::views(r@);
    lemma_cross_languages(state, ids);
    assert(all.len() == r@.len());
    assert(ids.len() == kb_ids@.len());
    assert forall|i: int| 0 <= i < r@.len() implies text::trimmed((#[trigger] r@[i])@) == r@[i]@
        && r@[i]@.len() > 0 by {
        assert(all[i] == r@[i]@);
    }
    if 0 <= k < kb_ids@.len() && state.kb(kb_ids@[k]@) == Some(kb) && kb.prompt_config@.items(
        "cross_languages"@,
    ) == Some(items) && 0 <= m < items.len() && items[m] is Str && text::trimmed(
        items[m]->Str_0,
    ).len() > 0 {
        assert(ids[k] == kb_ids@[k]@);
        json::string_items_are_all_strings(items);
        let langs = kb_languages(state, ids[k]);
        assert(langs == json::string_items(items));
        assert(langs.contains(items[m]->Str_0));
        let p = choose|p: int| 0 <= p < langs.len() && langs[p] == items[m]->Str_0;
        assert(text::trimmed(kb_languages(state, ids[k])[p]).len() > 0);
    }
}

proof fn lemma_sections_split(a: Seq<char>, b: Seq<char>, head: Seq<char>)
    requires
        !a.contains('#'),
    ensures
        sections(a + "###"@ + b, "###"@, head) == seq![head + a] + sections(
            b,
            "###"@,
            Seq::empty(),
        ),
        sections(a, "###"@, head) == seq![head + a],
    decreases a.len(),
{
    reveal_strlit("###");
    let sep = "###"@;
    let whole = a + sep + b;
    if a.len() == 0 {
        assert(a =~= Seq::<char>::empty());
        assert(whole =~= sep + b);
        assert(sep.is_prefix_of(whole));
        assert(whole.skip(3) =~= b);
        assert(head + a =~= head);
    } else {
        assert(a.contains(a[0]));
        assert(whole[0] == a[0]);
        if sep.is_prefix_of(whole) {
            assert(whole[0] == sep[0]);
        }
        if sep.is_prefix_of(a) {
            assert(a[0] == sep[0]);
        }
        let rest = a.drop_first();
        if rest.contains('#') {
            let k = choose|k: int| 0 <= k < rest.len() && rest[k] == '#';
            assert(a[k + 1] == '#');
        }
        assert(whole.drop_first() =~= rest + sep + b);
        lemma_sections_split(rest, b, head.push(a[0]));
        assert(head.push(a[0]) + rest =~= head + a);
    }
}

/// The translations in an answer are its parts between `###`, one after the other,
/// without white space around them; a blank part and the question itself are no
/// translations.
pub proof fn translations_are_the_parts_of_an_answer(
    part: Seq<char>,
    rest: Seq<char>,
    question: Seq<char>,
)
    requires
        !part.contains('#'),
    ensures
        text::trimmed(part).len() > 0 && text::trimmed(part) != question ==> translations_of(
            part,
            question,
        ) == seq![text::trimmed(part)] && translations_of(part + "###"@ + rest, question)
            == seq![text::trimmed(part)] + translations_of(rest, question),
        text::trimmed(part).len() == 0 || text::trimmed(part) == question ==> translations_of(
            part,
            question,
        ).len() == 0 && translations_of(part + "###"@ + rest, question) == translations_of(
            rest,
            question,
        ),
{
    lemma_sections_split(part, rest, Seq::empty());
    assert(Seq::<char>::empty() + part =~= part);
    let tail = sections(rest, "###"@, Seq::empty());
    lemma_chosen_split(seq![part], tail, question);
    reveal_with_fuel(chosen_parts, 2);
    assert(seq![part].drop_first() =~= Seq::<Seq<char>>::empty());
    assert(seq![text::trimmed(part)] + Seq::<Seq<char>>::empty() =~= seq![text::trimmed(part)]);
    assert(Seq::<Seq<char>>::empty() + chosen_parts(tail, question) =~= chosen_parts(
        tail,
        question,
    ));
}

/// The translations that are searched are those of the answer.
pub proof fn answers_are_read_for_translations(answer: &str, question: &str, r: Vec<String>)
    requires
        call_ensures(translations, (answer, question), r),
    ensures
        text::views(r@) == translations_of(answer@, question@),
        !answer@.contains('#') && text::trimmed(answer@).len() > 0 && text::trimmed(answer@)
            != question@ ==> text::views(r@) == seq![text::trimmed(answer@)],
        text::trimmed(answer@).len() == 0 && !answer@.contains('#') ==> r@.len() == 0,
{
    assert(text::views(r@).len() == r@.len());
    if !answer@.contains('#') {
        translations_are_the_parts_of_an_answer(answer@, Seq::empty(), question@);
    }
}

/// What merging brings in comes from the further hits, and only where the chunk was not
/// hit before.
pub proof fn merging_brings_in_only_further_hits(
    hits: Seq<ChatHitView>,
    extra: Seq<ChatHitView>,
    i: int,
)
    ensures
        hits.len() <= i < merged(hits, extra).len() ==> exists|k: int|
            0 <= k < extra.len() && merged(hits, extra)[i] == #[trigger] extra[k],
        hits.len() <= i < merged(hits, extra).len() ==> !has_chunk(
            hits,
            merged(hits, extra)[i].chunk_id,
        ),
    decreases extra.len(),
{
    if extra.len() > 0 {
        let rest = extra.drop_last();
        let before = merged(hits, rest);
        merging_brings_in_only_further_hits(hits, rest, i);
        merging_keeps_hits_once(hits, rest);
        if hits.len() <= i < before.len() {
            let k = choose|k: int| 0 <= k < rest.len() && merged(hits, rest)[i] == #[trigger] rest[k];
            assert(extra[k] == merged(hits, extra)[i]);
        } else if i == before.len() && i < merged(hits, extra).len() {
            assert(extra[extra.len() - 1] == merged(hits, extra)[i]);
            if has_chunk(hits, extra.last().chunk_id) {
                let p = choose|p: int|
                    0 <= p < hits.len() && (#[trigger] hits[p]).chunk_id == extra.last().chunk_id;
                assert(before[p] == hits[p]);
            }
        }
    }
}

proof fn lemma_occurs_longer(line: Seq<char>, text: Seq<char>, added: Seq<char>)
    requires
        text::occurs_in(line, text),
    ensures
        text::occurs_in(line, text + added),
{
    let i = choose|i: int| text::occurs_at(line, text, i);
    let n = line.len() as int;
    assert((text + added).subrange(i, i + n) =~= text.subrange(i, i + n));
    assert(text::occurs_at(line, text + added, i));
}

/// A hit as the prompt quotes it.
pub open spec fn quote(k: nat, content: Seq<char>) -> Seq<char> {
    "["@ + text::decimal(k) + "] "@ + content + "\n"@
}

proof fn lemma_context_grows(hits: Seq<ChatHitView>)
    requires
        hits.len() > 0,
    ensures
        context_of(hits) == context_of(hits.drop_last()) + quote(
            (hits.len() - 1) as nat,
            hits.last().content,
        ),
{
    let a = context_of(hits.drop_last());
    let n = text::decimal((hits.len() - 1) as nat);
    let c = hits.last().content;
    assert(a + "["@ + n + "] "@ + c + "\n"@ =~= a + ("["@ + n + "] "@ + c + "\n"@));
}

proof fn lemma_context_holds(hits: Seq<ChatHitView>, k: int)
    requires
        0 <= k < hits.len(),
    ensures
        text::occurs_in(quote(k as nat, hits[k].content), context_of(hits)),
    decreases hits.len(),
{
    let line = quote(k as nat, hits[k].content);
    let rest = context_of(hits.drop_last());
    lemma_context_grows(hits);
    if k == hits.len() - 1 {
        text::occurrences_are_runs(line, rest, Seq::empty(), rest);
        assert(rest + line + Seq::<char>::empty() =~= rest + line);
    } else {
        lemma_context_holds(hits.drop_last(), k);
        lemma_occurs_longer(
            line,
            rest,
            quote((hits.len() - 1) as nat, hits.last().content),
        );
    }
}

proof fn lemma_quotes_are_not_blank(context: Seq<char>, k: nat, content: Seq<char>)
    requires
        text::occurs_in(quote(k, content), context),
    ensures
        text::trimmed(context).len() > 0,
{
    reveal_strlit("[");
    let line = quote(k, content);
    let i = choose|i: int| text::occurs_at(line, context, i);
    assert(line[0] == '[');
    assert(context.subrange(i, i + line.len() as int)[0] == context[i]);
    text::trimmed_is_empty_iff_blank(context);
    assert(!text::is_white(context[i]));
}

/// The model is asked the question, after the texts of the first four hits, each with its
/// number; without hits it is asked the question alone. The answer refers to just these
/// hits, in order, by their chunk, their document and their score.
pub proof fn prompts_quote_the_first_hits(
    hits: Vec<ChatHit>,
    question: &str,
    r: (String, Vec<Json>),
    k: int,
)
    requires
        call_ensures(chat_prompt, (&hits, question), r),
    ensures
        hits@.len() == 0 ==> r.0@ == question@ && r.1@.len() == 0,
        r.1@.len() == (if hits@.len() <= 4 {
            hits@.len() as int
        } else {
            4
        }),
        exists|before: Seq<char>| #[trigger] (before + question@) == r.0@,
        0 <= k < hits@.len() && k < 4 ==> {
            &&& text::occurs_in(quote(k as nat, hits@[k].content@), r.0@)
            &&& r.1@[k]@.text("chunk_id"@) == Some(hits@[k].chunk_id@)
            &&& r.1@[k]@.text("doc_name"@) == Some(hits@[k].doc_name@)
            &&& r.1@[k]@.get("score"@) == Some(JsonView::Real(hits@[k].score))
        },
{
    let all = chat_hit_views(hits@);
    let first = quoted(all);
    let context = context_of(first);
    assert(json::item_views(r.1@).len() == r.1@.len());
    assert(references_of(all).len() == first.len());
    if text::trimmed(context).len() == 0 {
        assert(Seq::<char>::empty() + question@ =~= r.0@);
    } else {
        let before =
            "请基于以下知识库内容回答问题。若内容不足以回答，请说明。\n\n知识库内容：\n"@
            + context + "\n问题："@;
        assert(before + question@ == r.0@);
    }
    if hits@.len() == 0 {
        assert(first =~= Seq::<ChatHitView>::empty());
        text::trimmed_is_empty_iff_blank(context);
    }
    if 0 <= k < hits@.len() && k < 4 {
        assert(first[k] == hits@[k]@);
        lemma_context_holds(first, k);
        lemma_quotes_are_not_blank(context, k as nat, hits@[k].content@);
        let line = quote(k as nat, hits@[k].content@);
        let start =
            "请基于以下知识库内容回答问题。若内容不足以回答，请说明。\n\n知识库内容：\n"@;
        text::occurrences_are_runs(line, Seq::empty(), Seq::empty(), context);
        let (a, b) = choose|a: Seq<char>, b: Seq<char>| #[trigger] (a + line + b) == context;
        assert(start + context =~= (start + a) + line + b);
        text::occurrences_are_runs(line, start + a, b, start + context);
        lemma_occurs_longer(line, start + context, "\n问题："@ + question@);
        assert(r.0@ =~= (start + context) + ("\n问题："@ + question@));
        assert(json::item_views(r.1@)[k] == r.1@[k]@);
        assert(references_of(all)[k] == reference_of(first[k]));
        lemma_reference_keys();
        reveal_with_fuel(json::entry, 4);
    }
}

proof fn lemma_reference_keys()
    ensures
        "chunk_id"@ != "doc_name"@,
        "chunk_id"@ != "score"@,
        "doc_name"@ != "score"@,
{
    reveal_strlit("chunk_id");
    reveal_strlit("doc_name");
    reveal_strlit("score");
    assert("chunk_id"@[0] != "doc_name"@[0]);
    assert("chunk_id"@.len() != "score"@.len());
    assert("doc_name"@.len() != "score"@.len());
}

proof fn lemma_answer_keys()
    ensures
        "answer"@ != "reference"@,
{
    reveal_strlit("answer");
    reveal_strlit("reference");
    assert("answer"@.len() != "reference"@.len());
}

/// The answer to a question tells what the model said and what that refers to. A model
/// that fails is told of by the code 500, under the status of a success.
pub proof fn chats_tell_what_the_model_said(
    answer: Result<String, String>,
    references: Vec<Json>,
    r: Reply,
)
    requires
        call_ensures(chat_reply, (answer, references), r),
    ensures
        answer matches Ok(said) ==> reply::tells(r@, 200, 0, "ok"@) && (r@.body.get(
            "data"@,
        ) matches Some(data) && data.text("answer"@) == Some(said@) && data.items("reference"@)
            == Some(json::item_views(references@))),
        answer matches Err(reason) ==> reply::tells(r@, 200, 500, reason@),
{
    lemma_answer_keys();
    reveal_with_fuel(json::entry, 3);
    if let Ok(said) = answer {
        let data = JsonView::Object(
            seq![
                ("answer"@, JsonView::Str(said@)),
                ("reference"@, JsonView::Array(json::item_views(references@))),
            ],
        );
        reply::answers_tell_what_they_were_given(200, 0, "ok"@, data);
    }
    if let Err(reason) = answer {
        reply::answers_tell_what_they_were_given(200, 500, reason@, JsonView::Null);
    }
}

/// An exported conversation starts with its name as a heading; every further message
/// follows what comes before it, with who said it in front.
pub proof fn exports_tell_message_by_message(
    name: &str,
    messages: Vec<ConversationMessage>,
    longer: Vec<ConversationMessage>,
    r: String,
    further: String,
    message: ConversationMessage,
)
    requires
        call_ensures(export_conversation, (name, &messages), r),
        call_ensures(export_conversation, (name, &longer), further),
        longer@ == messages@.push(message),
    ensures
        messages@.len() == 0 ==> r@ == "# "@ + name@ + "\n\n"@,
        message.role@ == "user"@ ==> further@ == r@ + "**User**"@ + ": "@ + message.content@
            + "\n\n"@,
        message.role@ != "user"@ ==> further@ == r@ + "**Assistant**"@ + ": "@ + message.content@
            + "\n\n"@,
{
    assert(longer@.drop_last() =~= messages@);
    assert(longer@.last() == message);
    if messages@.len() == 0 {
        assert(r@ =~= "# "@ + name@ + "\n\n"@);
    }
    if message.role@ == "user"@ {
        assert(further@ =~= r@ + "**User**"@ + ": "@ + message.content@ + "\n\n"@);
    } else {
        assert(further@ =~= r@ + "**Assistant**"@ + ": "@ + message.content@ + "\n\n"@);
    }
}

/// A user who does not have a conversation is told so, whatever they ask of it. What a
/// store reports is passed on.
pub proof fn conversations_answer_for_their_stores(
    missing: Reply,
    clearing: Option<Result<(), String>>,
    cleared: Reply,
    renaming: Result<bool, String>,
    renamed: Reply,
    deleting: Result<bool, String>,
    deleted: Reply,
)
    requires
        call_ensures(no_conversation, (), missing),
        call_ensures(clear_conversation, (clearing,), cleared),
        call_ensures(rename_conversation, (renaming,), renamed),
        call_ensures(delete_conversation, (deleting,), deleted),
    ensures
        reply::tells(missing@, 200, 404, "Conversation not found"@),
        clearing is None ==> reply::tells(cleared@, 200, 404, "Conversation not found"@),
        clearing matches Some(Ok(_)) ==> cleared.status == 200 && cleared@.body.get("code"@) == Some(
            JsonView::UInt(0),
        ) && cleared@.body.get("data"@) == Some(JsonView::Bool(true)),
        clearing matches Some(Err(reason)) ==> reply::tells(cleared@, 200, 500, reason@),
        renaming matches Ok(true) ==> reply::tells(renamed@, 200, 0, "Renamed"@),
        renaming matches Ok(false) ==> reply::tells(renamed@, 404, 404, "Conversation not found"@),
        renaming matches Err(reason) ==> reply::tells(renamed@, 400, 400, reason@),
        deleting matches Ok(true) ==> reply::tells(deleted@, 200, 0, "ok"@),
        deleting matches Ok(false) ==> reply::tells(deleted@, 200, 404, "Conversation not found"@),
        deleting matches Err(reason) ==> reply::tells(deleted@, 200, 500, reason@),
{
    let gone = "Conversation not found"@;
    reply::answers_tell_what_they_were_given(404, 404, gone, JsonView::Bool(true));
    reply::answers_tell_what_they_were_given(200, 0, "Renamed"@, JsonView::Null);
    reply::answers_tell_what_they_were_given(200, 0, "ok"@, JsonView::Null);
    if let Some(Err(reason)) = clearing {
        reply::answers_tell_what_they_were_given(200, 500, reason@, JsonView::Null);
    }
    if let Err(reason) = renaming {
        reply::answers_tell_what_they_were_given(400, 400, reason@, JsonView::Null);
    }
    if let Err(reason) = deleting {
        reply::answers_tell_what_they_were_given(200, 500, reason@, JsonView::Null);
    }
}

/// A conversation is renamed to the name that the request tells; without one the request
/// is answered with 400.
pub proof fn conversations_get_the_name_that_is_told(body: Json, r: Result<String, Reply>)
    requires
        call_ensures(conversation_name, (&body,), r),
    ensures
        body@.text("name"@) matches Some(name) ==> (r matches Ok(n) && n@ == name),
        body@.text("name"@) is None ==> (r matches Err(a) && reply::tells(
            a@,
            400,
            400,
            "name is required"@,
        )),
{
    reply::answers_tell_what_they_were_given(400, 400, "name is required"@, JsonView::Null);
}

/// The hits of another search are added behind those that are there, which stay as they
/// are: none whose chunk was hit before, and none left out whose chunk was not.
pub proof fn further_hits_are_added_behind(
    hits: &mut Vec<ChatHit>,
    extra: Vec<ChatHit>,
    r: (),
    i: int,
)
    requires
        call_ensures(merge_hits, (hits, &extra), r),
    ensures
        ({
            let before = chat_hit_views(old(hits)@);
            let after = chat_hit_views(final(hits)@);
            let more = chat_hit_views(extra@);
            &&& before.is_prefix_of(after)
            &&& before.len() <= i < after.len() ==> !has_chunk(before, after[i].chunk_id)
            &&& before.len() <= i < after.len() ==> exists|k: int|
                0 <= k < more.len() && after[i] == #[trigger] more[k]
            &&& 0 <= i < more.len() ==> has_chunk(after, more[i].chunk_id)
            &&& distinct_chunks(before) ==> distinct_chunks(after)
        }),
{
    let before = chat_hit_views(old(hits)@);
    let more = chat_hit_views(extra@);
    merging_keeps_hits_once(before, more);
    merging_brings_in_only_further_hits(before, more, i);
}

} // verus!

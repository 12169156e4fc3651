//! Prompts as the store keeps them, and drafts of new or edited prompts.

use vstd::prelude::*;
use crate::template::string_views;
use crate::text::{
    is_white_space, lemma_trimmed_core, lemma_trimmed_idempotent, same_text, trim, trimmed, trims_to,
};

verus! {

/// A stored prompt.
#[derive(Clone, Debug)]
pub struct Prompt {
    pub id: i64,
    pub title: String,
    pub content: String,
    pub tags: String,
}

/// The text of a draft for a new or edited prompt.
#[derive(Clone, Debug)]
pub struct PromptDraft {
    pub title: String,
    pub content: String,
    pub tags: String,
}

/// What a prompt holds, as text.
pub struct PromptView {
    pub id: i64,
    pub title: Seq<char>,
    pub content: Seq<char>,
    pub tags: Seq<char>,
}

/// What a draft holds, as text.
pub struct DraftView {
    pub title: Seq<char>,
    pub content: Seq<char>,
    pub tags: Seq<char>,
}

impl View for Prompt {
    type V = PromptView;

    open spec fn view(&self) -> PromptView {
        PromptView { id: self.id, title: self.title@, content: self.content@, tags: self.tags@ }
    }
}

impl View for PromptDraft {
    type V = DraftView;

    open spec fn view(&self) -> DraftView {
        DraftView { title: self.title@, content: self.content@, tags: self.tags@ }
    }
}

/// The view of each prompt of `v`.
pub open spec fn prompt_views(v: Seq<Prompt>) -> Seq<PromptView> {
    v.map_values(|p: Prompt| p@)
}

impl Prompt {
    /// A copy of this prompt.
    pub fn duplicate(&self) -> (p: Prompt)
        ensures
            p@ == self@,
    {
        Prompt {
            id: self.id,
            title: self.title.clone(),
            content: self.content.clone(),
            tags: self.tags.clone(),
        }
    }
}


/// The view of each draft of `v`.
pub open spec fn draft_views(v: Seq<PromptDraft>) -> Seq<DraftView> {
    v.map_values(|d: PromptDraft| d@)
}

/// A draft as the store saves it: title, content and tags trimmed.
pub open spec fn normalized_draft(d: DraftView) -> DraftView {
    DraftView { title: trimmed(d.title), content: trimmed(d.content), tags: trimmed(d.tags) }
}

impl PromptDraft {
    /// The draft with its title, content and tags trimmed, as the store
    /// saves a new or edited prompt.
    pub fn normalized(&self) -> (d: PromptDraft)
        ensures
            d@ == normalized_draft(self@),
    {
        PromptDraft {
            title: trim(self.title.as_str()),
            content: trim(self.content.as_str()),
            tags: trim(self.tags.as_str()),
        }
    }
}

/// Saving a draft removes only whitespace, and only around each field: each
/// saved field is the typed field from its first to its last character that
/// is not whitespace, with every character in between (line breaks
/// included) kept.
pub proof fn lemma_normalized_keeps_inner_text(d: DraftView)
    ensures
        trims_to(d.title, normalized_draft(d).title),
        trims_to(d.content, normalized_draft(d).content),
        trims_to(d.tags, normalized_draft(d).tags),
{
    lemma_trimmed_core(d.title);
    lemma_trimmed_core(d.content);
    lemma_trimmed_core(d.tags);
}

/// Saving a normalized draft again changes nothing.
pub proof fn lemma_normalized_idempotent(d: DraftView)
    ensures
        normalized_draft(normalized_draft(d)) == normalized_draft(d),
{
    lemma_trimmed_idempotent(d.title);
    lemma_trimmed_idempotent(d.content);
    lemma_trimmed_idempotent(d.tags);
}

/// The `LIKE` pattern that a search for `query` uses: `%`, the trimmed query,
/// `%`; none when the trimmed query is empty, and then every prompt is listed.
pub open spec fn search_filter(query: Seq<char>) -> Option<Seq<char>> {
    let q = trimmed(query);
    if q.len() == 0 {
        None
    } else {
        Some(seq!['%'] + q + seq!['%'])
    }
}

/// A search lists every prompt exactly when the query is nothing but
/// whitespace; any other query, however short, searches for `%`, the query
/// without its surrounding whitespace, `%`.
pub proof fn lemma_search_filter(query: Seq<char>)
    ensures
        search_filter(query) is None <==> forall|k: int|
            0 <= k < query.len() ==> is_white_space(#[trigger] query[k]),
        search_filter(query) matches Some(p) ==> exists|t: Seq<char>|
            trims_to(query, t) && t.len() > 0 && p == seq!['%'] + t + seq!['%'],
{
    lemma_trimmed_core(query);
}

/// The `LIKE` pattern for a search, or none to list every prompt.
pub fn search_pattern(query: &str) -> (p: Option<String>)
    ensures
        match p {
            Some(s) => search_filter(query@) == Some(s@),
            None => search_filter(query@) is None,
        },
        p is None <==> forall|k: int| 0 <= k < query@.len() ==> is_white_space(#[trigger] query@[k]),
{
    proof {
        lemma_search_filter(query@);
    }
    let q = trim(query);
    if q.as_str().is_empty() {
        return None;
    }
    let mut pattern = String::new();
    pattern.push('%');
    pattern.append(q.as_str());
    pattern.push('%');
    assert(pattern@ =~= seq!['%'] + q@ + seq!['%']);
    Some(pattern)
}

/// The example prompts written into an empty store.
pub open spec fn sample_drafts() -> Seq<DraftView> {
    seq![
        DraftView {
            title: "改写为更清晰的表达"@,
            content: "请将下面这段文字改写得更清晰、自然、专业，保留原意，不要添加不存在的信息：\n\n[原文]"@,
            tags: "写作, 润色, 中文"@,
        },
        DraftView {
            title: "代码审查"@,
            content: "请作为资深工程师审查以下代码，重点关注 **bug**、边界条件、可维护性和测试缺口。\n\n请按严重程度排序输出：\n\n```rust\n[代码]\n```"@,
            tags: "代码, 审查"@,
        },
        DraftView {
            title: "需求拆解"@,
            content: "请把以下需求拆解成：\n\n- MVP 范围\n- 后续迭代\n- 风险点\n- 验收标准\n\n需求：\n\n[需求]"@,
            tags: "产品, 规划"@,
        },
        DraftView {
            title: "中文邮件"@,
            content: "请写一封简洁、友好、专业的中文邮件。\n\n- 收件人：[收件人|同事]\n- 主题：[主题]\n- 语气：[语气|专业友好]\n\n邮件结尾需要包含明确的下一步行动。"@,
            tags: "邮件, 中文"@,
        },
    ]
}

/// The example prompt that replaces the former English mail example.
pub open spec fn mail_draft() -> DraftView {
    DraftView {
        title: "中文邮件"@,
        content: "请写一封简洁、友好、专业的中文邮件。\n\n- 收件人：[收件人|同事]\n- 主题：[主题]\n- 语气：[语气|专业友好]\n\n邮件结尾需要包含明确的下一步行动。"@,
        tags: "邮件, 中文"@,
    }
}

fn draft_of(title: &str, content: &str, tags: &str) -> (d: PromptDraft)
    ensures
        d@ == (DraftView { title: title@, content: content@, tags: tags@ }),
{
    PromptDraft {
        title: String::from_str(title),
        content: String::from_str(content),
        tags: String::from_str(tags),
    }
}

/// The drafts to insert into a store that holds `count` prompts: the
/// examples when it is empty, nothing otherwise.
pub fn seed_if_empty(count: i64) -> (drafts: Vec<PromptDraft>)
    ensures
        draft_views(drafts@) == if count > 0 {
            Seq::<DraftView>::empty()
        } else {
            sample_drafts()
        },
{
    let mut drafts: Vec<PromptDraft> = Vec::new();
    if count > 0 {
        assert(draft_views(drafts@) =~= Seq::<DraftView>::empty());
        return drafts;
    }
    drafts.push(draft_of("改写为更清晰的表达", "请将下面这段文字改写得更清晰、自然、专业，保留原意，不要添加不存在的信息：\n\n[原文]", "写作, 润色, 中文"));
    drafts.push(draft_of("代码审查", "请作为资深工程师审查以下代码，重点关注 **bug**、边界条件、可维护性和测试缺口。\n\n请按严重程度排序输出：\n\n```rust\n[代码]\n```", "代码, 审查"));
    drafts.push(draft_of("需求拆解", "请把以下需求拆解成：\n\n- MVP 范围\n- 后续迭代\n- 风险点\n- 验收标准\n\n需求：\n\n[需求]", "产品, 规划"));
    drafts.push(draft_of("中文邮件", "请写一封简洁、友好、专业的中文邮件。\n\n- 收件人：[收件人|同事]\n- 主题：[主题]\n- 语气：[语气|专业友好]\n\n邮件结尾需要包含明确的下一步行动。", "邮件, 中文"));
    assert(draft_views(drafts@) =~= sample_drafts());
    drafts
}

/// The update for a store that still holds the former English mail example
/// under `found`: that prompt becomes the Chinese mail example.
pub fn migrate_seed_examples(found: Option<i64>) -> (update: Option<(i64, PromptDraft)>)
    ensures
        match found {
            Some(id) => update matches Some(u) && u.0 == id && u.1@ == mail_draft(),
            None => update is None,
        },
{
    match found {
        Some(id) => Some((id, draft_of("中文邮件", "请写一封简洁、友好、专业的中文邮件。\n\n- 收件人：[收件人|同事]\n- 主题：[主题]\n- 语气：[语气|专业友好]\n\n邮件结尾需要包含明确的下一步行动。", "邮件, 中文"))),
        None => None,
    }
}

/// Whether the table's columns include `name`.
pub fn column_exists(columns: &Vec<String>, name: &str) -> (found: bool)
    ensures
        found == string_views(columns@).contains(name@),
{
    let mut i: usize = 0;
    while i < columns.len()
        invariant
            i <= columns.len(),
            forall|k: int| 0 <= k < i ==> columns@[k]@ != name@,
        decreases columns.len() - i,
    {
        if same_text(columns[i].as_str(), name) {
            assert(string_views(columns@)[i as int] == name@);
            return true;
        }
        i += 1;
    }
    assert forall|k: int| 0 <= k < string_views(columns@).len() implies string_views(columns@)[k]
        != name@ by {
        assert(string_views(columns@)[k] == columns@[k]@);
    }
    false
}

} // verus!

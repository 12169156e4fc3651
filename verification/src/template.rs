//! Template placeholders written `[name]` or `[name|default]`: finding the
//! variables of a prompt, and rendering a prompt with values filled in.

use vstd::prelude::*;
use crate::text::{chars_of, same_text, trim, trimmed};

verus! {

/// The characters that end the name of a placeholder: `[`, `]` and a newline.
pub open spec fn is_name_stop(c: char) -> bool {
    c == '[' || c == ']' || c == '\n'
}

/// How many leading characters of `s` may stand inside a placeholder name.
pub open spec fn name_run(s: Seq<char>) -> nat
    decreases s.len(),
{
    if s.len() > 0 && !is_name_stop(s[0]) {
        1 + name_run(s.drop_first())
    } else {
        0
    }
}

/// Whether `s` begins with a placeholder: `[`, one or more characters other
/// than `[`, `]` and newline, then `]`.
pub open spec fn placeholder_starts(s: Seq<char>) -> bool {
    &&& s.len() > 0
    &&& s[0] == '['
    &&& name_run(s.drop_first()) > 0
    &&& name_run(s.drop_first()) + 1 < s.len()
    &&& s[name_run(s.drop_first()) + 1int] == ']'
}

/// The raw texts between the brackets of the placeholders of `s`, found from
/// left to right without overlap: the leftmost-first matches of the regular
/// expression `\[([^\[\]\n]+)\]`, capture group 1 of each.
pub open spec fn placeholder_names(s: Seq<char>) -> Seq<Seq<char>>
    decreases s.len(),
{
    if s.len() == 0 {
        seq![]
    } else if placeholder_starts(s) {
        let n = name_run(s.drop_first()) as int;
        seq![s.subrange(1, n + 1)] + placeholder_names(s.skip(n + 2))
    } else {
        placeholder_names(s.drop_first())
    }
}

/// How many leading characters of a placeholder's text come before its first `|`.
pub open spec fn bar_run(raw: Seq<char>) -> nat
    decreases raw.len(),
{
    if raw.len() > 0 && raw[0] != '|' {
        1 + bar_run(raw.drop_first())
    } else {
        0
    }
}

/// The variable of a placeholder `[name]` or `[name|default]`: the trimmed
/// text before the first `|`.
pub open spec fn variable_name(raw: Seq<char>) -> Seq<char> {
    trimmed(raw.take(bar_run(raw) as int))
}

/// The variables of the placeholders with texts `raw`, in order of first
/// appearance: empty names dropped, repeats dropped.
pub open spec fn collect_variables(raw: Seq<Seq<char>>) -> Seq<Seq<char>>
    decreases raw.len(),
{
    if raw.len() == 0 {
        seq![]
    } else {
        let prev = collect_variables(raw.drop_last());
        let name = variable_name(raw.last());
        if name.len() == 0 || prev.contains(name) {
            prev
        } else {
            prev.push(name)
        }
    }
}

/// The variables of a template, in order of first appearance.
pub open spec fn template_variables(content: Seq<char>) -> Seq<Seq<char>> {
    collect_variables(placeholder_names(content))
}

/// The text of each string of `v`.
pub open spec fn string_views(v: Seq<String>) -> Seq<Seq<char>> {
    v.map_values(|s: String| s@)
}

/// The text of each (name, value) entry.
pub open spec fn entry_views(v: Seq<(String, String)>) -> Seq<(Seq<char>, Seq<char>)> {
    v.map_values(|e: (String, String)| (e.0@, e.1@))
}

/// Collects, with the `regex` crate, the text between the brackets of each
/// match of `\[([^\[\]\n]+)\]` in `content`, in the order that
/// `Regex::captures_iter` yields them. The crate documents that the iterator
/// yields the successive non-overlapping leftmost-first matches; for this
/// pattern, whose bracketed class excludes `]`, that is the left-to-right scan
/// that `placeholder_names` states. The pattern is valid, so `Regex::new`
/// returns `Ok`.
#[verifier::external_body]
fn regex_placeholder_names(content: &str) -> (names: Vec<String>)
    ensures
        string_views(names@) == placeholder_names(content@),
{
    let re = regex::Regex::new(r"\[([^\[\]\n]+)\]").unwrap();
    re.captures_iter(content).map(|cap| cap[1].to_owned()).collect()
}

/// Whether `v` holds a string equal to `s`.
fn contains_string(v: &Vec<String>, s: &String) -> (b: bool)
    ensures
        b == string_views(v@).contains(s@),
{
    let mut i: usize = 0;
    while i < v.len()
        invariant
            i <= v.len(),
            forall|k: int| 0 <= k < i ==> v@[k]@ != s@,
        decreases v.len() - i,
    {
        if v[i] == *s {
            assert(string_views(v@)[i as int] == s@);
            return true;
        }
        i += 1;
    }
    assert forall|k: int| 0 <= k < string_views(v@).len() implies string_views(v@)[k] != s@ by {
        assert(string_views(v@)[k] == v@[k]@);
    }
    false
}

/// The number of leading characters of `raw` before its first `|`.
fn bar_index(raw: &Vec<char>) -> (k: usize)
    ensures
        k == bar_run(raw@),
        k <= raw@.len(),
{
    let mut k: usize = 0;
    assert(raw@.skip(0) =~= raw@);
    while k < raw.len() && raw[k] != '|'
        invariant
            k <= raw.len(),
            bar_run(raw@) == k + bar_run(raw@.skip(k as int)),
        decreases raw.len() - k,
    {
        assert(raw@.skip(k as int).drop_first() =~= raw@.skip(k + 1));
        k += 1;
    }
    k
}

/// The variable of the placeholder with text `raw`.
fn variable_name_of(raw: &str) -> (name: String)
    ensures
        name@ == variable_name(raw@),
{
    let chars = chars_of(raw);
    let k = bar_index(&chars);
    proof {
        assert(raw@.skip(0) =~= raw@);
    }
    trim(raw.substring_char(0, k))
}

/// The variables of `content`: the trimmed names before `|` of its
/// placeholders, non-empty, each once, in order of first appearance.
#[verifier::spinoff_prover]
pub fn extract_variables(content: &str) -> (vars: Vec<String>)
    ensures
        string_views(vars@) == template_variables(content@),
{
    let raw = regex_placeholder_names(content);
    let ghost raw_view = string_views(raw@);
    let mut vars: Vec<String> = Vec::new();
    let mut k: usize = 0;
    assert(raw_view.take(0) =~= Seq::<Seq<char>>::empty());
    assert(string_views(vars@) =~= Seq::<Seq<char>>::empty());
    while k < raw.len()
        invariant
            k <= raw.len(),
            raw_view == string_views(raw@),
            string_views(vars@) == collect_variables(raw_view.take(k as int)),
        decreases raw.len() - k,
    {
        let name = variable_name_of(raw[k].as_str());
        assert(raw_view.take(k + 1).drop_last() =~= raw_view.take(k as int));
        assert(raw_view.take(k + 1).last() == raw@[k as int]@);
        if !name.as_str().is_empty() && !contains_string(&vars, &name) {
            let ghost before = vars@;
            vars.push(name);
            assert(string_views(vars@) =~= string_views(before).push(vars@.last()@));
        }
        k += 1;
    }
    assert(raw_view.take(raw.len() as int) =~= raw_view);
    vars
}

/// The placeholder written around `raw`: `[raw]`; for a variable `name`,
/// its placeholder `[name]`.
pub open spec fn placeholder(raw: Seq<char>) -> Seq<char> {
    seq!['['] + raw + seq![']']
}

/// Whether the placeholder with text `raw` is `[name|default]` for the
/// variable `name`: it holds a `|`, and its variable is `name`, not empty.
pub open spec fn has_default_for(raw: Seq<char>, name: Seq<char>) -> bool {
    &&& bar_run(raw) < raw.len()
    &&& variable_name(raw).len() > 0
    &&& variable_name(raw) == name
}

/// `s` with every placeholder of the variable `name` replaced by `value`,
/// found from left to right without overlap: each literal `[name]`, and each
/// `[name|default]`. All other text is kept.
pub open spec fn fill_name(s: Seq<char>, name: Seq<char>, value: Seq<char>) -> Seq<char>
    decreases s.len(),
{
    if s.len() == 0 {
        s
    } else if s.len() >= name.len() + 2 && s.take(name.len() + 2int) == placeholder(name) {
        value + fill_name(s.skip(name.len() + 2int), name, value)
    } else if placeholder_starts(s) && has_default_for(
        s.subrange(1, name_run(s.drop_first()) + 1int),
        name,
    ) {
        value + fill_name(s.skip(name_run(s.drop_first()) + 2int), name, value)
    } else {
        seq![s[0]] + fill_name(s.drop_first(), name, value)
    }
}

/// `content` after each (name, value) entry in turn, where the value is not
/// empty, has replaced every placeholder of `name` by the value. Entries with
/// an empty value leave their placeholders as written.
pub open spec fn rendered(content: Seq<char>, values: Seq<(Seq<char>, Seq<char>)>) -> Seq<char>
    decreases values.len(),
{
    if values.len() == 0 {
        content
    } else {
        let prev = rendered(content, values.drop_last());
        if values.last().1.len() == 0 {
            prev
        } else {
            fill_name(prev, values.last().0, values.last().1)
        }
    }
}

/// The run of name characters starting at the front of `t` is `m` long.
pub proof fn lemma_name_run_is(t: Seq<char>, m: int)
    requires
        0 <= m <= t.len(),
        forall|k: int| 0 <= k < m ==> !is_name_stop(#[trigger] t[k]),
        m == t.len() || is_name_stop(t[m]),
    ensures
        name_run(t) == m,
    decreases m,
{
    if m > 0 {
        assert forall|k: int| 0 <= k < m - 1 implies !is_name_stop(#[trigger] t.drop_first()[k]) by {
            assert(t.drop_first()[k] == t[k + 1]);
        }
        if m < t.len() {
            assert(t.drop_first()[m - 1] == t[m]);
        }
        lemma_name_run_is(t.drop_first(), m - 1);
    }
}

/// Whether `pat` occurs in `hay` at position `i`.
fn occurs_at(hay: &Vec<char>, i: usize, pat: &Vec<char>) -> (b: bool)
    requires
        i + pat.len() <= hay.len(),
    ensures
        b == (hay@.subrange(i as int, i + pat.len()) == pat@),
{
    let m = pat.len();
    let mut k: usize = 0;
    while k < m
        invariant
            k <= m,
            m == pat.len(),
            i + m <= hay.len(),
            forall|t: int| 0 <= t < k ==> hay@[i + t] == pat@[t],
        decreases m - k,
    {
        if hay[i + k] != pat[k] {
            assert(hay@.subrange(i as int, i + m)[k as int] != pat@[k as int]);
            return false;
        }
        k += 1;
    }
    assert(hay@.subrange(i as int, i + m) =~= pat@);
    true
}

/// The characters of the placeholder `[name]`.
fn placeholder_chars(name: &str) -> (pat: Vec<char>)
    ensures
        pat@ == placeholder(name@),
{
    let mut pat: Vec<char> = Vec::new();
    pat.push('[');
    let mut inner = chars_of(name);
    pat.append(&mut inner);
    pat.push(']');
    pat
}

/// The text made of `chars[from..to]`.
fn text_of(chars: &Vec<char>, from: usize, to: usize) -> (s: String)
    requires
        from <= to <= chars.len(),
    ensures
        s@ == chars@.subrange(from as int, to as int),
{
    let mut s = String::new();
    let mut k = from;
    while k < to
        invariant
            from <= k <= to,
            to <= chars.len(),
            s@ == chars@.subrange(from as int, k as int),
        decreases to - k,
    {
        s.push(chars[k]);
        assert(s@ =~= chars@.subrange(from as int, k + 1));
        k += 1;
    }
    s
}

/// Whether the placeholder with text `raw` is `[name|default]` for `name`.
fn is_default_placeholder_of(raw: &str, name: &str) -> (b: bool)
    ensures
        b == has_default_for(raw@, name@),
{
    let chars = chars_of(raw);
    let k = bar_index(&chars);
    if k >= chars.len() {
        return false;
    }
    let var = variable_name_of(raw);
    !var.as_str().is_empty() && same_text(var.as_str(), name)
}

/// `hay` with every placeholder of the variable `name` replaced by `value`.
#[verifier::spinoff_prover]
fn fill_name_in(hay: &Vec<char>, name: &str, value: &str) -> (out: String)
    ensures
        out@ == fill_name(hay@, name@, value@),
{
    let pat = placeholder_chars(name);
    let m = pat.len();
    let n = hay.len();
    let mut out = String::new();
    let mut i: usize = 0;
    assert(hay@.skip(0) =~= hay@);
    while i < n
        invariant
            i <= n,
            n == hay@.len(),
            m == pat@.len(),
            pat@ == placeholder(name@),
            fill_name(hay@, name@, value@) == out@ + fill_name(hay@.skip(i as int), name@, value@),
        decreases n - i,
    {
        let ghost rest = hay@.skip(i as int);
        assert(rest.drop_first() =~= hay@.skip(i + 1));
        if n - i >= m && occurs_at(hay, i, &pat) {
            assert(rest.take(m as int) =~= hay@.subrange(i as int, i + m));
            assert(rest.skip(m as int) =~= hay@.skip(i + m));
            out.append(value);
            i += m;
        } else {
            if n - i >= m {
                assert(rest.take(m as int) =~= hay@.subrange(i as int, i + m));
            }
            let mut j: usize = i + 1;
            if hay[i] == '[' {
                while j < n && !(hay[j] == '[' || hay[j] == ']' || hay[j] == '\n')
                    invariant
                        i < j <= n,
                        n == hay@.len(),
                        forall|k: int| i < k < j ==> !is_name_stop(#[trigger] hay@[k]),
                    decreases n - j,
                {
                    j += 1;
                }
                proof {
                    let t = rest.drop_first();
                    assert forall|k: int| 0 <= k < j - i - 1 implies !is_name_stop(#[trigger] t[k]) by {
                        assert(t[k] == hay@[i + 1 + k]);
                    }
                    if j < n {
                        assert(t[j - i - 1] == hay@[j as int]);
                    }
                    lemma_name_run_is(t, j - i - 1);
                }
            }
            let mut filled = false;
            if hay[i] == '[' && j > i + 1 && j < n && hay[j] == ']' {
                assert(rest[j - i] == hay@[j as int]);
                assert(rest.subrange(1, j - i) =~= hay@.subrange(i + 1, j as int));
                assert(rest.skip(j - i + 1) =~= hay@.skip(j + 1));
                let raw = text_of(hay, i + 1, j);
                if is_default_placeholder_of(raw.as_str(), name) {
                    out.append(value);
                    i = j + 1;
                    filled = true;
                }
            } else if hay[i] == '[' && j < n {
                assert(rest[j - i] == hay@[j as int]);
            }
            if !filled {
                out.push(hay[i]);
                i += 1;
            }
        }
    }
    assert(hay@.skip(n as int) =~= Seq::<char>::empty());
    out
}

/// Renders `content` with the given (name, value) entries: in order, each
/// entry whose value is not empty replaces every placeholder of its name,
/// `[name]` or `[name|default]`, by its value. Entries with an empty value
/// leave their placeholders as written.
#[verifier::spinoff_prover]
pub fn render_template(content: &str, values: &[(String, String)]) -> (res: String)
    ensures
        res@ == rendered(content@, entry_views(values@)),
{
    let ghost entries = entry_views(values@);
    let mut out = content.to_owned();
    let mut i: usize = 0;
    while i < values.len()
        invariant
            i <= values.len(),
            entries == entry_views(values@),
            out@ == rendered(content@, entries.take(i as int)),
        decreases values.len() - i,
    {
        assert(entries.take(i + 1).drop_last() =~= entries.take(i as int));
        assert(entries.take(i + 1).last() == (values@[i as int].0@, values@[i as int].1@));
        let name = &values[i].0;
        let value = &values[i].1;
        if !value.as_str().is_empty() {
            let hay = chars_of(out.as_str());
            out = fill_name_in(&hay, name.as_str(), value.as_str());
        }
        i += 1;
    }
    assert(entries.take(values.len() as int) =~= entries);
    out
}

} // verus!

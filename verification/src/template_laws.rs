//! What holds of every template: its variables are distinct, well-formed
//! names; with no value filled in it renders as itself; a placeholder that
//! no value fills stays as written; and filling every variable with
//! bracket-free values leaves no variable behind.

use vstd::prelude::*;
use crate::text::{
    is_white_space, lemma_trimmed_core, lemma_trimmed_ends, trim_end, trim_start, trimmed, trims_to,
};
use crate::template::{
    bar_run, collect_variables, fill_name, has_default_for, is_name_stop, lemma_name_run_is,
    name_run, placeholder, placeholder_names, placeholder_starts, rendered, template_variables,
    variable_name,
};

verus! {

/// No character of `s` ends a placeholder's text.
pub open spec fn free_of_stops(s: Seq<char>) -> bool {
    forall|k: int| 0 <= k < s.len() ==> !is_name_stop(#[trigger] s[k])
}

/// A character that may stand in a variable name: not `[`, `]`, newline or `|`.
pub open spec fn is_name_char(c: char) -> bool {
    !is_name_stop(c) && c != '|'
}

/// Every character of `s` may stand in a variable name.
pub open spec fn all_name_chars(s: Seq<char>) -> bool {
    forall|k: int| 0 <= k < s.len() ==> is_name_char(#[trigger] s[k])
}

/// A well-formed variable name: not empty, no whitespace at either end, and
/// no `[`, `]`, newline or `|`.
pub open spec fn is_variable_name(s: Seq<char>) -> bool {
    &&& s.len() > 0
    &&& !is_white_space(s[0])
    &&& !is_white_space(s.last())
    &&& all_name_chars(s)
}

proof fn lemma_name_run(s: Seq<char>)
    ensures
        name_run(s) <= s.len(),
        forall|k: int| 0 <= k < name_run(s) ==> !is_name_stop(#[trigger] s[k]),
        name_run(s) < s.len() ==> is_name_stop(s[name_run(s) as int]),
    decreases s.len(),
{
    if s.len() > 0 && !is_name_stop(s[0]) {
        lemma_name_run(s.drop_first());
        assert forall|k: int| 0 <= k < name_run(s) implies !is_name_stop(#[trigger] s[k]) by {
            if k > 0 {
                assert(s[k] == s.drop_first()[k - 1]);
            }
        }
    }
}

proof fn lemma_bar_run(s: Seq<char>)
    ensures
        bar_run(s) <= s.len(),
        forall|k: int| 0 <= k < bar_run(s) ==> #[trigger] s[k] != '|',
    decreases s.len(),
{
    if s.len() > 0 && s[0] != '|' {
        lemma_bar_run(s.drop_first());
        assert forall|k: int| 0 <= k < bar_run(s) implies #[trigger] s[k] != '|' by {
            if k > 0 {
                assert(s[k] == s.drop_first()[k - 1]);
            }
        }
    }
}

/// In the placeholder case, the scan's pieces: the text between the
/// brackets, the closing bracket, and the rest.
proof fn lemma_placeholder_parts(s: Seq<char>)
    requires
        placeholder_starts(s),
    ensures
        ({
            let n = name_run(s.drop_first()) as int;
            &&& free_of_stops(s.subrange(1, n + 1))
            &&& s =~= placeholder(s.subrange(1, n + 1)) + s.skip(n + 2)
        }),
{
    let n = name_run(s.drop_first()) as int;
    lemma_name_run(s.drop_first());
    let raw = s.subrange(1, n + 1);
    assert forall|k: int| 0 <= k < raw.len() implies !is_name_stop(#[trigger] raw[k]) by {
        assert(raw[k] == s.drop_first()[k]);
    }
}

proof fn lemma_placeholder_names_free_of_stops(s: Seq<char>)
    ensures
        forall|i: int|
            0 <= i < placeholder_names(s).len() ==> free_of_stops(
                #[trigger] placeholder_names(s)[i],
            ),
    decreases s.len(),
{
    if s.len() == 0 {
        assert(placeholder_names(s).len() == 0);
    } else if placeholder_starts(s) {
        let n = name_run(s.drop_first()) as int;
        lemma_placeholder_parts(s);
        lemma_placeholder_names_free_of_stops(s.skip(n + 2));
        let rest = placeholder_names(s.skip(n + 2));
        assert forall|i: int| 0 <= i < placeholder_names(s).len() implies free_of_stops(
            #[trigger] placeholder_names(s)[i],
        ) by {
            if i > 0 {
                assert(placeholder_names(s)[i] == rest[i - 1]);
            }
        }
    } else {
        lemma_placeholder_names_free_of_stops(s.drop_first());
        assert(placeholder_names(s) == placeholder_names(s.drop_first()));
    }
}

proof fn lemma_trim_keeps_name_chars(s: Seq<char>)
    requires
        all_name_chars(s),
    ensures
        all_name_chars(trim_start(s)),
        all_name_chars(trim_end(s)),
    decreases s.len(),
{
    if s.len() > 0 && is_white_space(s[0]) {
        assert forall|k: int| 0 <= k < s.drop_first().len() implies is_name_char(
            #[trigger] s.drop_first()[k],
        ) by {
            assert(s.drop_first()[k] == s[k + 1]);
        }
        lemma_trim_keeps_name_chars(s.drop_first());
    }
    if s.len() > 0 && is_white_space(s.last()) {
        assert forall|k: int| 0 <= k < s.drop_last().len() implies is_name_char(
            #[trigger] s.drop_last()[k],
        ) by {
            assert(s.drop_last()[k] == s[k]);
        }
        lemma_trim_keeps_name_chars(s.drop_last());
    }
}

/// The variable of a placeholder, when it is not empty, is a well-formed name.
proof fn lemma_variable_name_shape(raw: Seq<char>)
    requires
        free_of_stops(raw),
    ensures
        variable_name(raw).len() > 0 ==> is_variable_name(variable_name(raw)),
{
    lemma_bar_run(raw);
    let head = raw.take(bar_run(raw) as int);
    assert forall|k: int| 0 <= k < head.len() implies is_name_char(#[trigger] head[k]) by {
        assert(head[k] == raw[k]);
    }
    lemma_trim_keeps_name_chars(head);
    lemma_trim_keeps_name_chars(trim_start(head));
    lemma_trimmed_ends(head);
}

proof fn lemma_collect_variables(raw: Seq<Seq<char>>)
    ensures
        forall|i: int, j: int|
            0 <= i < j < collect_variables(raw).len() ==> collect_variables(raw)[i]
                != collect_variables(raw)[j],
        forall|name: Seq<char>|
            #![trigger collect_variables(raw).contains(name)]
            collect_variables(raw).contains(name) <==> (name.len() > 0 && exists|k: int|
                0 <= k < raw.len() && variable_name(#[trigger] raw[k]) == name),
        (forall|k: int| 0 <= k < raw.len() ==> free_of_stops(#[trigger] raw[k])) ==> forall|
            i: int,
        |
            0 <= i < collect_variables(raw).len() ==> is_variable_name(
                #[trigger] collect_variables(raw)[i],
            ),
    decreases raw.len(),
{
    if raw.len() > 0 {
        let init = raw.drop_last();
        lemma_collect_variables(init);
        let prev = collect_variables(init);
        let name = variable_name(raw.last());
        assert forall|n: Seq<char>|
            #![trigger collect_variables(raw).contains(n)]
            collect_variables(raw).contains(n) <==> (n.len() > 0 && exists|k: int|
                0 <= k < raw.len() && variable_name(#[trigger] raw[k]) == n) by {
            if collect_variables(raw).contains(n) {
                if prev.contains(n) {
                    let k = choose|k: int|
                        0 <= k < init.len() && variable_name(#[trigger] init[k]) == n;
                    assert(raw[k] == init[k]);
                } else {
                    assert(n == name);
                    assert(raw[raw.len() - 1] == raw.last());
                }
            }
            if n.len() > 0 && exists|k: int|
                0 <= k < raw.len() && variable_name(#[trigger] raw[k]) == n {
                let k = choose|k: int| 0 <= k < raw.len() && variable_name(#[trigger] raw[k]) == n;
                if k < raw.len() - 1 {
                    assert(init[k] == raw[k]);
                    assert(prev.contains(n));
                    if !(name.len() == 0 || prev.contains(name)) {
                        assert(prev.push(name)[prev.index_of(n)] == n);
                    }
                } else {
                    if !prev.contains(name) {
                        assert(prev.push(name)[prev.len() as int] == name);
                    }
                }
            }
        }
        if forall|k: int| 0 <= k < raw.len() ==> free_of_stops(#[trigger] raw[k]) {
            assert forall|k: int| 0 <= k < init.len() implies free_of_stops(#[trigger] init[k]) by {
                assert(init[k] == raw[k]);
            }
            assert(free_of_stops(raw[raw.len() - 1]));
            lemma_variable_name_shape(raw.last());
        }
    }
}

/// The variables of a template are distinct.
pub proof fn lemma_variables_distinct(content: Seq<char>)
    ensures
        forall|i: int, j: int|
            0 <= i < j < template_variables(content).len() ==> template_variables(content)[i]
                != template_variables(content)[j],
{
    lemma_collect_variables(placeholder_names(content));
}

/// Every variable of a template is a well-formed name: not empty, trimmed,
/// and without `[`, `]`, newline or `|`.
pub proof fn lemma_variables_well_formed(content: Seq<char>)
    ensures
        forall|i: int|
            0 <= i < template_variables(content).len() ==> is_variable_name(
                #[trigger] template_variables(content)[i],
            ),
{
    lemma_placeholder_names_free_of_stops(content);
    lemma_collect_variables(placeholder_names(content));
}

/// A name is a variable of a template exactly when it is the non-empty
/// variable of one of its placeholders.
pub proof fn lemma_variables_complete(content: Seq<char>, name: Seq<char>)
    ensures
        template_variables(content).contains(name) <==> (name.len() > 0 && exists|k: int|
            0 <= k < placeholder_names(content).len() && variable_name(
                #[trigger] placeholder_names(content)[k],
            ) == name),
{
    lemma_collect_variables(placeholder_names(content));
}

/// The scan's placeholders split at any `[`: those of the text before it,
/// then those of the rest.
proof fn lemma_names_split(s: Seq<char>, i: int)
    requires
        0 <= i <= s.len(),
        i == s.len() || s[i] == '[',
    ensures
        placeholder_names(s) == placeholder_names(s.take(i)) + placeholder_names(s.skip(i)),
    decreases s.len(),
{
    if i == 0 {
        assert(s.take(0) =~= Seq::<char>::empty());
        assert(placeholder_names(s.take(0)).len() == 0);
        assert(s.skip(0) =~= s);
        assert(placeholder_names(s.take(0)) + placeholder_names(s) =~= placeholder_names(s));
    } else if placeholder_starts(s) {
        let n = name_run(s.drop_first()) as int;
        lemma_name_run(s.drop_first());
        if i <= n {
            assert(s.drop_first()[i - 1] == s[i]);
        }
        assert(n + 2 <= i);
        let t = s.take(i);
        assert forall|k: int| 0 <= k < n implies !is_name_stop(#[trigger] t.drop_first()[k]) by {
            assert(t.drop_first()[k] == s.drop_first()[k]);
        }
        assert(t.drop_first()[n] == s[n + 1]);
        lemma_name_run_is(t.drop_first(), n);
        assert(t.subrange(1, n + 1) =~= s.subrange(1, n + 1));
        let s2 = s.skip(n + 2);
        if i < s.len() {
            assert(s2[i - n - 2] == s[i]);
        }
        lemma_names_split(s2, i - n - 2);
        assert(t.skip(n + 2) =~= s2.take(i - n - 2));
        assert(s2.skip(i - n - 2) =~= s.skip(i));
        assert(placeholder_names(s) == seq![s.subrange(1, n + 1)] + placeholder_names(s2));
        assert(placeholder_names(t) == seq![s.subrange(1, n + 1)] + placeholder_names(t.skip(n + 2)));
        assert(placeholder_names(s) =~= placeholder_names(t) + placeholder_names(s.skip(i)));
    } else {
        let t = s.take(i);
        let m = name_run(s.drop_first()) as int;
        lemma_name_run(s.drop_first());
        if t[0] == '[' {
            if m < i - 1 {
                assert forall|k: int| 0 <= k < m implies !is_name_stop(#[trigger] t.drop_first()[k]) by {
                    assert(t.drop_first()[k] == s.drop_first()[k]);
                }
                assert(t.drop_first()[m] == s.drop_first()[m]);
                lemma_name_run_is(t.drop_first(), m);
                assert(t[m + 1] == s[m + 1]);
            } else {
                if m > i - 1 {
                    assert(s.drop_first()[i - 1] == s[i]);
                }
                assert forall|k: int| 0 <= k < i - 1 implies !is_name_stop(#[trigger] t.drop_first()[k]) by {
                    assert(t.drop_first()[k] == s.drop_first()[k]);
                }
                lemma_name_run_is(t.drop_first(), i - 1);
            }
        }
        assert(!placeholder_starts(t));
        let s2 = s.drop_first();
        if i < s.len() {
            assert(s2[i - 1] == s[i]);
        }
        lemma_names_split(s2, i - 1);
        assert(t.drop_first() =~= s2.take(i - 1));
        assert(s2.skip(i - 1) =~= s.skip(i));
    }
}

proof fn lemma_bar_run_full(n: Seq<char>)
    requires
        forall|k: int| 0 <= k < n.len() ==> #[trigger] n[k] != '|',
    ensures
        bar_run(n) == n.len(),
    decreases n.len(),
{
    if n.len() > 0 {
        assert forall|k: int| 0 <= k < n.drop_first().len() implies #[trigger] n.drop_first()[k]
            != '|' by {
            assert(n.drop_first()[k] == n[k + 1]);
        }
        lemma_bar_run_full(n.drop_first());
    }
}

/// Every placeholder `[n]` written in a template, whatever its length, names
/// a variable: the text between the brackets without its surrounding
/// whitespace, when that is not empty and holds no `|`.
pub proof fn lemma_placeholder_makes_variable(content: Seq<char>, n: Seq<char>, i: int)
    requires
        0 <= i,
        i + n.len() + 2 <= content.len(),
        content.subrange(i, i + n.len() + 2) == seq!['['] + n + seq![']'],
        forall|k: int| 0 <= k < n.len() ==> is_name_char(#[trigger] n[k]),
        exists|k: int| 0 <= k < n.len() && !is_white_space(#[trigger] n[k]),
    ensures
        template_variables(content).contains(trimmed(n)),
        trims_to(n, trimmed(n)),
        trimmed(n).len() > 0,
{
    let q = n.len() + 2int;
    assert(content[i] == content.subrange(i, i + q)[0]);
    lemma_names_split(content, i);
    let t = content.skip(i);
    let d = t.drop_first();
    assert forall|k: int| 0 <= k < n.len() implies !is_name_stop(#[trigger] d[k]) by {
        assert(d[k] == content.subrange(i, i + q)[1 + k]);
        assert(is_name_char(n[k]));
    }
    assert(d[n.len() as int] == content.subrange(i, i + q)[q - 1]);
    lemma_name_run_is(d, n.len() as int);
    lemma_trimmed_core(n);
    if trimmed(n).len() == 0 {
        let k = choose|k: int| 0 <= k < n.len() && !is_white_space(#[trigger] n[k]);
        assert(is_white_space(n[k]));
    }
    assert(n.len() > 0);
    assert(t[n.len() + 1int] == content.subrange(i, i + q)[q - 1]);
    assert(placeholder_starts(t));
    assert(t.subrange(1, n.len() + 1int) =~= n) by {
        assert forall|k: int| 0 <= k < n.len() implies t.subrange(1, n.len() + 1int)[k] == n[k] by {
            assert(t[1 + k] == content.subrange(i, i + q)[1 + k]);
        }
    }
    assert(placeholder_names(t)[0] == n);
    let before = placeholder_names(content.take(i));
    assert(placeholder_names(content)[before.len() as int] == n);
    lemma_bar_run_full(n);
    assert(n.take(n.len() as int) =~= n);
    assert(variable_name(n) == trimmed(n));
    lemma_variables_complete(content, trimmed(n));
}

/// The entries of `values` whose value is not empty, in order.
pub open spec fn filled_entries(values: Seq<(Seq<char>, Seq<char>)>) -> Seq<(Seq<char>, Seq<char>)>
    decreases values.len(),
{
    if values.len() == 0 {
        values
    } else {
        let prev = filled_entries(values.drop_last());
        if values.last().1.len() == 0 {
            prev
        } else {
            prev.push(values.last())
        }
    }
}

/// Entries whose value is empty have no effect on the rendered text.
pub proof fn lemma_render_ignores_empty_values(
    content: Seq<char>,
    values: Seq<(Seq<char>, Seq<char>)>,
)
    ensures
        rendered(content, values) == rendered(content, filled_entries(values)),
    decreases values.len(),
{
    if values.len() > 0 {
        lemma_render_ignores_empty_values(content, values.drop_last());
        let f = filled_entries(values.drop_last());
        if values.last().1.len() != 0 {
            assert(f.push(values.last()).drop_last() =~= f);
        }
    }
}

/// When no value is filled in (no entries, or only empty values), the
/// rendered text is the template itself: every variable keeps its
/// placeholder as written.
pub proof fn lemma_render_unfilled(content: Seq<char>, values: Seq<(Seq<char>, Seq<char>)>)
    requires
        forall|i: int| 0 <= i < values.len() ==> (#[trigger] values[i]).1.len() == 0,
    ensures
        rendered(content, values) == content,
    decreases values.len(),
{
    if values.len() > 0 {
        assert(values.last() == values[values.len() - 1]);
        assert forall|i: int| 0 <= i < values.drop_last().len() implies (
        #[trigger] values.drop_last()[i]).1.len() == 0 by {
            assert(values.drop_last()[i] == values[i]);
        }
        lemma_render_unfilled(content, values.drop_last());
    }
}

/// No `[` or `]` in `s`.
pub open spec fn bracket_free(s: Seq<char>) -> bool {
    forall|k: int| 0 <= k < s.len() ==> #[trigger] s[k] != '[' && s[k] != ']'
}

/// No `[` in `s`.
pub open spec fn no_open_bracket(s: Seq<char>) -> bool {
    forall|k: int| 0 <= k < s.len() ==> #[trigger] s[k] != '['
}

/// Text without `[` is copied unchanged ahead of what follows it.
proof fn lemma_fill_copies_prefix(a: Seq<char>, t: Seq<char>, m: Seq<char>, v: Seq<char>)
    requires
        no_open_bracket(a),
    ensures
        fill_name(a + t, m, v) == a + fill_name(t, m, v),
    decreases a.len(),
{
    if a.len() > 0 {
        let s = a + t;
        assert(s[0] == a[0]);
        if s.len() >= m.len() + 2 {
            assert(s.take(m.len() + 2int)[0] == s[0]);
            assert(placeholder(m)[0] == '[');
        }
        assert forall|k: int| 0 <= k < a.drop_first().len() implies #[trigger] a.drop_first()[k]
            != '[' by {
            assert(a.drop_first()[k] == a[k + 1]);
        }
        lemma_fill_copies_prefix(a.drop_first(), t, m, v);
        assert(s.drop_first() =~= a.drop_first() + t);
        assert(a =~= seq![a[0]] + a.drop_first());
    }
}

/// A text without `[` holds no placeholder, so rendering leaves it unchanged
/// whatever the values.
pub proof fn lemma_render_plain_text(content: Seq<char>, values: Seq<(Seq<char>, Seq<char>)>)
    requires
        no_open_bracket(content),
    ensures
        rendered(content, values) == content,
    decreases values.len(),
{
    if values.len() > 0 {
        lemma_render_plain_text(content, values.drop_last());
        lemma_fill_copies_prefix(content, Seq::empty(), values.last().0, values.last().1);
        assert(content + Seq::<char>::empty() =~= content);
    }
}

/// Whether the (name, value) entry for `m` fills the placeholder with text
/// `raw`: `raw` is `m`, or `raw` is `m|default`.
pub open spec fn fills(m: Seq<char>, raw: Seq<char>) -> bool {
    m == raw || has_default_for(raw, m)
}

/// A window of `f` is the same window of `v + f`, shifted by `v`'s length.
proof fn lemma_window_after(v: Seq<char>, f: Seq<char>, j: int, q: int)
    requires
        0 <= j,
        0 <= q,
        j + q <= f.len(),
    ensures
        (v + f).subrange(v.len() + j, v.len() + j + q) == f.subrange(j, j + q),
{
    assert forall|k: int| 0 <= k < q implies #[trigger] (v + f).subrange(
        v.len() + j,
        v.len() + j + q,
    )[k] == f.subrange(j, j + q)[k] by {
        assert((v + f)[v.len() + j + k] == f[j + k]);
    }
    assert((v + f).subrange(v.len() + j, v.len() + j + q) =~= f.subrange(j, j + q));
}

/// A placeholder `[n]` at `i` does not overlap a placeholder `[m]` at the
/// front of `s`, unless `m` is `n`.
#[verifier::spinoff_prover]
proof fn lemma_literal_clear(s: Seq<char>, m: Seq<char>, n: Seq<char>, i: int)
    requires
        0 <= i,
        i + n.len() + 2 <= s.len(),
        s.subrange(i, i + n.len() + 2) == placeholder(n),
        s.len() >= m.len() + 2,
        s.take(m.len() + 2int) == placeholder(m),
        bracket_free(n),
        bracket_free(m),
        m != n,
    ensures
        i >= m.len() + 2,
{
    let q = n.len() + 2int;
    let p = m.len() + 2int;
    assert(s[i] == s.subrange(i, i + q)[0]);
    assert(s[i + q - 1] == s.subrange(i, i + q)[q - 1]);
    assert forall|k: int| 0 <= k < n.len() implies s[i + 1 + k] == #[trigger] n[k] by {
        assert(s[i + 1 + k] == s.subrange(i, i + q)[1 + k]);
    }
    assert forall|k: int| 0 <= k < m.len() implies s[1 + k] == #[trigger] m[k] by {
        assert(s[1 + k] == s.take(p)[1 + k]);
    }
    assert(s[p - 1] == s.take(p)[p - 1]);
    if i == 0 {
        if p < q {
            assert(s[p - 1] == n[p - 2]);
        } else if q < p {
            assert(s[q - 1] == m[q - 2]);
        } else {
            assert(m =~= n) by {
                assert forall|k: int| 0 <= k < m.len() implies m[k] == n[k] by {
                    assert(s[1 + k] == m[k]);
                }
            }
        }
    } else if i < p - 1 {
        assert(s[i] == m[i - 1]);
    }
}

/// A placeholder `[n]` at `i` does not overlap a placeholder at the front of
/// `s` whose text is not `n`.
#[verifier::spinoff_prover]
proof fn lemma_scanned_clear(s: Seq<char>, n: Seq<char>, i: int)
    requires
        0 <= i,
        i + n.len() + 2 <= s.len(),
        s.subrange(i, i + n.len() + 2) == placeholder(n),
        bracket_free(n),
        placeholder_starts(s),
        s.subrange(1, name_run(s.drop_first()) + 1int) != n,
    ensures
        i >= name_run(s.drop_first()) + 2,
{
    let q = n.len() + 2int;
    let r = name_run(s.drop_first()) as int;
    assert(s[i] == s.subrange(i, i + q)[0]);
    assert(s[i + q - 1] == s.subrange(i, i + q)[q - 1]);
    assert forall|k: int| 0 <= k < n.len() implies s[i + 1 + k] == #[trigger] n[k] by {
        assert(s[i + 1 + k] == s.subrange(i, i + q)[1 + k]);
    }
    lemma_name_run(s.drop_first());
    if i == 0 {
        assert(s.drop_first()[n.len() as int] == s[q - 1]);
        if r < n.len() {
            assert(s[r + 1] == n[r]);
        }
        assert(s.subrange(1, r + 1) =~= n);
    } else if i <= r {
        assert(s.drop_first()[i - 1] == s[i]);
    }
}

/// The placeholder `[n]` at `i` of `s` is still found in the text after
/// filling `m`, which does not fill it.
#[verifier::spinoff_prover]
proof fn lemma_fill_keeps_placeholder(s: Seq<char>, m: Seq<char>, v: Seq<char>, n: Seq<char>, i: int)
    requires
        0 <= i,
        i + n.len() + 2 <= s.len(),
        s.subrange(i, i + n.len() + 2) == placeholder(n),
        bracket_free(n),
        bracket_free(m),
        !fills(m, n),
    ensures
        exists|j: int|
            0 <= j && j + (n.len() + 2) <= fill_name(s, m, v).len() && (#[trigger] fill_name(
                s,
                m,
                v,
            ).subrange(j, j + (n.len() + 2))) == placeholder(n),
    decreases s.len(),
{
    let q = n.len() + 2int;
    let out = fill_name(s, m, v);
    if s.len() >= m.len() + 2 && s.take(m.len() + 2int) == placeholder(m) {
        let p = m.len() + 2int;
        lemma_literal_clear(s, m, n, i);
        let rest = s.skip(p);
        assert(rest.subrange(i - p, i - p + q) =~= s.subrange(i, i + q));
        lemma_fill_keeps_placeholder(rest, m, v, n, i - p);
        let f = fill_name(rest, m, v);
        let j2 = choose|j: int|
            0 <= j && j + q <= f.len() && (#[trigger] f.subrange(j, j + q)) == placeholder(n);
        assert(out == v + f);
        lemma_window_after(v, f, j2, q);
    } else if placeholder_starts(s) && has_default_for(
        s.subrange(1, name_run(s.drop_first()) + 1int),
        m,
    ) {
        let r = name_run(s.drop_first()) as int;
        lemma_scanned_clear(s, n, i);
        let rest = s.skip(r + 2);
        assert(rest.subrange(i - r - 2, i - r - 2 + q) =~= s.subrange(i, i + q));
        lemma_fill_keeps_placeholder(rest, m, v, n, i - r - 2);
        let f = fill_name(rest, m, v);
        let j2 = choose|j: int|
            0 <= j && j + q <= f.len() && (#[trigger] f.subrange(j, j + q)) == placeholder(n);
        assert(out == v + f);
        lemma_window_after(v, f, j2, q);
    } else {
        let rest = s.drop_first();
        assert(out == seq![s[0]] + fill_name(rest, m, v));
        if i == 0 {
            assert forall|k: int| 0 <= k < n.len() implies s[1 + k] == #[trigger] n[k] by {
                assert(s[1 + k] == s.subrange(0, q)[1 + k]);
            }
            assert(s[0] == s.subrange(0, q)[0]);
            assert(s[q - 1] == s.subrange(0, q)[q - 1]);
            let a = n + seq![']'];
            assert forall|k: int| 0 <= k < a.len() implies #[trigger] a[k] != '[' by {
                if k < n.len() {
                    assert(a[k] == n[k]);
                }
            }
            assert(rest =~= a + s.skip(q));
            lemma_fill_copies_prefix(a, s.skip(q), m, v);
            assert(out.subrange(0, q) =~= placeholder(n));
        } else {
            assert(rest.subrange(i - 1, i - 1 + q) =~= s.subrange(i, i + q));
            lemma_fill_keeps_placeholder(rest, m, v, n, i - 1);
            let f = fill_name(rest, m, v);
            let j2 = choose|j: int|
                0 <= j && j + q <= f.len() && (#[trigger] f.subrange(j, j + q)) == placeholder(n);
            lemma_window_after(seq![s[0]], f, j2, q);
        }
    }
}

/// A placeholder `[n]` of the template that no entry with a non-empty value
/// fills still shows, as written, in the rendered text, whatever the other
/// entries fill in. An entry for `m` fills `[n]` when `n` is `m`, or when `n`
/// is `m|default`.
pub proof fn lemma_unfilled_placeholder_stays(
    content: Seq<char>,
    values: Seq<(Seq<char>, Seq<char>)>,
    n: Seq<char>,
    i: int,
)
    requires
        0 <= i,
        i + n.len() + 2 <= content.len(),
        content.subrange(i, i + n.len() + 2) == placeholder(n),
        bracket_free(n),
        forall|k: int|
            0 <= k < values.len() && (#[trigger] values[k]).1.len() > 0 ==> bracket_free(
                values[k].0,
            ) && !fills(values[k].0, n),
    ensures
        exists|j: int|
            0 <= j && j + (n.len() + 2) <= rendered(content, values).len() && (
            #[trigger] rendered(content, values).subrange(j, j + (n.len() + 2))) == placeholder(n),
    decreases values.len(),
{
    if values.len() == 0 {
        assert(rendered(content, values).subrange(i, i + (n.len() + 2)) == placeholder(n));
    } else {
        let init = values.drop_last();
        assert forall|k: int|
            0 <= k < init.len() && (#[trigger] init[k]).1.len() > 0 implies bracket_free(init[k].0)
            && !fills(init[k].0, n) by {
            assert(init[k] == values[k]);
        }
        lemma_unfilled_placeholder_stays(content, init, n, i);
        let prev = rendered(content, init);
        let j = choose|j: int|
            0 <= j && j + (n.len() + 2) <= prev.len() && (#[trigger] prev.subrange(
                j,
                j + (n.len() + 2),
            )) == placeholder(n);
        let last = values.last();
        assert(last == values[values.len() - 1]);
        if last.1.len() > 0 {
            lemma_fill_keeps_placeholder(prev, last.0, last.1, n, j);
            assert(rendered(content, values) == fill_name(prev, last.0, last.1));
        } else {
            assert(rendered(content, values) == prev);
        }
    }
}

/// Every `[` and `]` of `s` belongs to one of the placeholders that the
/// left-to-right scan finds.
pub open spec fn brackets_only_in_placeholders(s: Seq<char>) -> bool
    decreases s.len(),
{
    if s.len() == 0 {
        true
    } else if placeholder_starts(s) {
        brackets_only_in_placeholders(s.skip(name_run(s.drop_first()) + 2int))
    } else {
        s[0] != '[' && s[0] != ']' && brackets_only_in_placeholders(s.drop_first())
    }
}

/// Bracket-free text in front changes neither where the brackets stand nor
/// which placeholders the scan finds.
proof fn lemma_bracket_free_prefix(a: Seq<char>, t: Seq<char>)
    requires
        bracket_free(a),
    ensures
        brackets_only_in_placeholders(a + t) == brackets_only_in_placeholders(t),
        placeholder_names(a + t) == placeholder_names(t),
    decreases a.len(),
{
    if a.len() > 0 {
        let s = a + t;
        assert(s[0] == a[0]);
        assert forall|k: int| 0 <= k < a.drop_first().len() implies #[trigger] a.drop_first()[k]
            != '[' && a.drop_first()[k] != ']' by {
            assert(a.drop_first()[k] == a[k + 1]);
        }
        assert(s.drop_first() =~= a.drop_first() + t);
        lemma_bracket_free_prefix(a.drop_first(), t);
    } else {
        assert(a + t =~= t);
    }
}

/// A placeholder written in front is found by the scan, and the scan goes on
/// with what follows it.
proof fn lemma_placeholder_prefix(r: Seq<char>, t: Seq<char>)
    requires
        r.len() > 0,
        free_of_stops(r),
    ensures
        brackets_only_in_placeholders(placeholder(r) + t) == brackets_only_in_placeholders(t),
        placeholder_names(placeholder(r) + t) == seq![r] + placeholder_names(t),
{
    let s = placeholder(r) + t;
    let d = s.drop_first();
    assert forall|k: int| 0 <= k < r.len() implies !is_name_stop(#[trigger] d[k]) by {
        assert(d[k] == r[k]);
    }
    assert(d[r.len() as int] == ']');
    lemma_name_run_is(d, r.len() as int);
    assert(s.subrange(1, r.len() + 1int) =~= r);
    assert(s.skip(r.len() + 2int) =~= t);
}

/// Filling one variable, with a value free of brackets, keeps every bracket
/// inside a placeholder, and keeps exactly the placeholders that it does not
/// fill.
#[verifier::spinoff_prover]
proof fn lemma_fill_step(t: Seq<char>, m: Seq<char>, v: Seq<char>)
    requires
        brackets_only_in_placeholders(t),
        all_name_chars(m),
        bracket_free(v),
    ensures
        brackets_only_in_placeholders(fill_name(t, m, v)),
        forall|k: int|
            0 <= k < placeholder_names(fill_name(t, m, v)).len() ==> placeholder_names(t).contains(
                #[trigger] placeholder_names(fill_name(t, m, v))[k],
            ) && !fills(m, placeholder_names(fill_name(t, m, v))[k]),
    decreases t.len(),
{
    if t.len() == 0 {
        assert(placeholder_names(fill_name(t, m, v)).len() == 0);
    } else if placeholder_starts(t) {
        let n = name_run(t.drop_first()) as int;
        lemma_placeholder_parts(t);
        let r = t.subrange(1, n + 1);
        let t2 = t.skip(n + 2);
        lemma_fill_step(t2, m, v);
        let x = fill_name(t2, m, v);
        assert(placeholder_names(t) == seq![r] + placeholder_names(t2));
        assert forall|y: Seq<char>| placeholder_names(t2).contains(y) implies placeholder_names(
            t,
        ).contains(y) by {
            let k = placeholder_names(t2).index_of(y);
            assert(placeholder_names(t)[k + 1] == y);
        }
        let p = m.len() + 2int;
        if t.len() >= p && t.take(p) == placeholder(m) {
            let d = t.drop_first();
            assert forall|k: int| 0 <= k < m.len() implies !is_name_stop(#[trigger] d[k]) by {
                assert(d[k] == t.take(p)[k + 1]);
                assert(placeholder(m)[k + 1] == m[k]);
            }
            assert(d[m.len() as int] == t.take(p)[p - 1]);
            lemma_name_run_is(d, m.len() as int);
            assert(fill_name(t, m, v) == v + fill_name(t.skip(p), m, v));
            lemma_bracket_free_prefix(v, x);
        } else if has_default_for(r, m) {
            assert(fill_name(t, m, v) == v + x);
            lemma_bracket_free_prefix(v, x);
        } else {
            let a = r + seq![']'];
            assert forall|k: int| 0 <= k < a.len() implies #[trigger] a[k] != '[' by {
                if k < r.len() {
                    assert(a[k] == r[k]);
                }
            }
            assert(t.drop_first() =~= a + t2);
            lemma_fill_copies_prefix(a, t2, m, v);
            assert(fill_name(t, m, v) =~= placeholder(r) + x);
            if m == r {
                assert(t.take(p) =~= placeholder(m));
            }
            lemma_placeholder_prefix(r, x);
            let out = fill_name(t, m, v);
            assert forall|k: int| 0 <= k < placeholder_names(out).len() implies placeholder_names(
                t,
            ).contains(#[trigger] placeholder_names(out)[k]) && !fills(
                m,
                placeholder_names(out)[k],
            ) by {
                if k == 0 {
                    assert(placeholder_names(t)[0] == r);
                } else {
                    assert(placeholder_names(out)[k] == placeholder_names(x)[k - 1]);
                }
            }
        }
    } else {
        if t.len() >= m.len() + 2 {
            assert(t.take(m.len() + 2int)[0] == t[0]);
            assert(placeholder(m)[0] == '[');
        }
        let x = fill_name(t.drop_first(), m, v);
        lemma_fill_step(t.drop_first(), m, v);
        assert(placeholder_names(t) == placeholder_names(t.drop_first()));
        assert(fill_name(t, m, v) == seq![t[0]] + x);
        lemma_bracket_free_prefix(seq![t[0]], x);
    }
}

/// After the first `k` entries, every bracket is inside a placeholder, and
/// each placeholder either names no variable or is filled by a later entry.
pub open spec fn filled_up_to(s: Seq<char>, entries: Seq<(Seq<char>, Seq<char>)>, k: int) -> bool {
    let t = rendered(s, entries.take(k));
    &&& brackets_only_in_placeholders(t)
    &&& forall|i: int|
        0 <= i < placeholder_names(t).len() ==> variable_name(#[trigger] placeholder_names(t)[i]).len()
            == 0 || exists|j: int| k <= j < entries.len() && fills(entries[j].0, placeholder_names(t)[i])
}

#[verifier::spinoff_prover]
proof fn lemma_fill_fold(s: Seq<char>, entries: Seq<(Seq<char>, Seq<char>)>, k: int)
    requires
        0 <= k <= entries.len(),
        filled_up_to(s, entries, 0),
        forall|j: int|
            0 <= j < entries.len() ==> all_name_chars((#[trigger] entries[j]).0) && entries[j].1.len()
                > 0 && bracket_free(entries[j].1),
    ensures
        filled_up_to(s, entries, k),
    decreases k,
{
    if k > 0 {
        lemma_fill_fold(s, entries, k - 1);
        let prev = rendered(s, entries.take(k - 1));
        let e = entries[k - 1];
        assert(entries.take(k).drop_last() =~= entries.take(k - 1));
        assert(entries.take(k).last() == e);
        let t = rendered(s, entries.take(k));
        assert(t == fill_name(prev, e.0, e.1));
        lemma_fill_step(prev, e.0, e.1);
        assert forall|i: int| 0 <= i < placeholder_names(t).len() implies variable_name(
            #[trigger] placeholder_names(t)[i],
        ).len() == 0 || exists|j: int|
            k <= j < entries.len() && fills(entries[j].0, placeholder_names(t)[i]) by {
            let r = placeholder_names(t)[i];
            let i2 = placeholder_names(prev).index_of(r);
            assert(placeholder_names(prev)[i2] == r);
            if variable_name(r).len() != 0 {
                let j = choose|j: int| k - 1 <= j < entries.len() && fills(entries[j].0, r);
                assert(j != k - 1);
            }
        }
    }
}

/// Placeholders that all name no variable give a template without variables.
proof fn lemma_no_variable_names(raw: Seq<Seq<char>>)
    requires
        forall|i: int| 0 <= i < raw.len() ==> variable_name(#[trigger] raw[i]).len() == 0,
    ensures
        collect_variables(raw).len() == 0,
    decreases raw.len(),
{
    if raw.len() > 0 {
        assert forall|i: int| 0 <= i < raw.drop_last().len() implies variable_name(
            #[trigger] raw.drop_last()[i],
        ).len() == 0 by {
            assert(raw.drop_last()[i] == raw[i]);
        }
        lemma_no_variable_names(raw.drop_last());
        assert(raw.last() == raw[raw.len() - 1]);
    }
}

/// Each name paired with the value at the same position.
pub open spec fn paired(names: Seq<Seq<char>>, vals: Seq<Seq<char>>) -> Seq<(Seq<char>, Seq<char>)> {
    Seq::new(vals.len(), |i: int| (names[i], vals[i]))
}

/// Filling every variable of a template with a non-empty value free of `[`
/// and `]` leaves no variable behind, when every bracket of the template
/// belongs to a placeholder whose text is trimmed. Placeholders that name no
/// variable, such as `[|x]`, stay as written and still name none.
#[verifier::spinoff_prover]
pub proof fn lemma_filling_every_variable_leaves_no_placeholder(s: Seq<char>, vals: Seq<Seq<char>>)
    requires
        brackets_only_in_placeholders(s),
        forall|k: int|
            0 <= k < placeholder_names(s).len() ==> trimmed(#[trigger] placeholder_names(s)[k])
                == placeholder_names(s)[k],
        vals.len() == template_variables(s).len(),
        forall|i: int| 0 <= i < vals.len() ==> (#[trigger] vals[i]).len() > 0 && bracket_free(vals[i]),
    ensures
        template_variables(rendered(s, paired(template_variables(s), vals))).len() == 0,
{
    let vars = template_variables(s);
    let entries = paired(vars, vals);
    lemma_variables_well_formed(s);
    lemma_placeholder_names_free_of_stops(s);
    assert(entries.take(0) =~= Seq::<(Seq<char>, Seq<char>)>::empty());
    assert forall|i: int| 0 <= i < placeholder_names(s).len() implies variable_name(
        #[trigger] placeholder_names(s)[i],
    ).len() == 0 || exists|j: int| 0 <= j < entries.len() && fills(
        entries[j].0,
        placeholder_names(s)[i],
    ) by {
        let r = placeholder_names(s)[i];
        let name = variable_name(r);
        if name.len() != 0 {
            lemma_variables_complete(s, name);
            let j = vars.index_of(name);
            assert(vars[j] == name);
            assert(entries[j].0 == name);
            if bar_run(r) >= r.len() {
                lemma_bar_run(r);
                assert(r.take(bar_run(r) as int) =~= r);
            }
        }
    }
    assert(filled_up_to(s, entries, 0));
    assert forall|j: int| 0 <= j < entries.len() implies all_name_chars((#[trigger] entries[j]).0)
        && entries[j].1.len() > 0 && bracket_free(entries[j].1) by {
        assert(is_variable_name(vars[j]));
    }
    lemma_fill_fold(s, entries, entries.len() as int);
    assert(entries.take(entries.len() as int) =~= entries);
    let out = rendered(s, entries);
    lemma_no_variable_names(placeholder_names(out));
}

} // verus!

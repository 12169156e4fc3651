use prompt_board::template::{extract_variables, render_template};

fn pairs(items: &[(&str, &str)]) -> Vec<(String, String)> {
    items.iter().map(|(n, v)| (n.to_string(), v.to_string())).collect()
}

#[test]
fn extracts_unique_variables_in_order() {
    let vars = extract_variables("Hi [name], summarize [topic] for [name].");
    assert_eq!(vars, vec!["name", "topic"]);
}

#[test]
fn renders_template_values() {
    let rendered = render_template(
        "Write to [recipient] about [topic].",
        &[
            ("recipient".to_owned(), "Alice".to_owned()),
            ("topic".to_owned(), "launch".to_owned()),
        ],
    );
    assert_eq!(rendered, "Write to Alice about launch.");
}

#[test]
fn keeps_placeholder_for_empty_values() {
    let rendered = render_template(
        "请总结[主题]，风格为[风格]。",
        &[
            ("主题".to_owned(), "Rust".to_owned()),
            ("风格".to_owned(), String::new()),
        ],
    );
    assert_eq!(rendered, "请总结Rust，风格为[风格]。");
}

#[test]
fn extract_trims_names_and_drops_blank_ones() {
    assert_eq!(extract_variables("[ name ] and [\tname] and [  ]"), vec!["name"]);
    assert_eq!(extract_variables("[\u{3000}主题\u{a0}]"), vec!["主题"]);
}

#[test]
fn extract_ignores_brackets_that_do_not_close_a_name() {
    assert!(extract_variables("[]").is_empty());
    assert!(extract_variables("no placeholders at all").is_empty());
    assert!(extract_variables("[a\nb]").is_empty());
    assert!(extract_variables("[unclosed").is_empty());
    assert_eq!(extract_variables("[[a]]"), vec!["a"]);
    assert_eq!(extract_variables("[a]b]"), vec!["a"]);
    assert_eq!(extract_variables("[x][y][x]"), vec!["x", "y"]);
}

#[test]
fn extract_separates_name_from_default() {
    assert_eq!(extract_variables("- 收件人：[收件人|同事]"), vec!["收件人"]);
    let content = "- 收件人：[收件人|同事]\n- 主题：[主题]\n- 语气：[语气|专业友好]";
    assert_eq!(extract_variables(content), vec!["收件人", "主题", "语气"]);
    assert_eq!(extract_variables("[ a | x ] [a] [a|y|z]"), vec!["a"]);
    assert!(extract_variables("[|only default] [ |x]").is_empty());
}

#[test]
fn extract_reads_the_placeholder_text_not_the_whole_input() {
    let vars = extract_variables("before [inner] after");
    assert_eq!(vars, vec!["inner"]);
    assert_ne!(vars, vec!["before [inner] after"]);
}

#[test]
fn render_replaces_every_occurrence() {
    assert_eq!(render_template("[a]-[a]-[a]", &pairs(&[("a", "x")])), "x-x-x");
}

#[test]
fn render_with_no_values_is_identity() {
    assert_eq!(render_template("Hi [name]", &[]), "Hi [name]");
}

#[test]
fn render_with_only_empty_values_is_identity() {
    let content = "Dear [who], see [what].";
    assert_eq!(render_template(content, &pairs(&[("who", ""), ("what", "")])), content);
}

#[test]
fn render_plain_text_is_identity() {
    let content = "no brackets here";
    assert_eq!(render_template(content, &pairs(&[("here", "there"), ("no", "yes")])), content);
}

#[test]
fn render_applies_entries_in_order() {
    assert_eq!(render_template("[a]", &pairs(&[("a", "[b]"), ("b", "x")])), "x");
    assert_eq!(render_template("[a]", &pairs(&[("b", "x"), ("a", "[b]")])), "[b]");
}

#[test]
fn render_matches_only_the_exact_placeholder() {
    assert_eq!(render_template("[ name ] [name]", &pairs(&[("name", "Bo")])), "[ name ] Bo");
}

#[test]
fn render_scans_left_to_right_without_overlap() {
    assert_eq!(render_template("[[a]]", &pairs(&[("a", "x")])), "[x]");
    assert_eq!(render_template("[a][a]", &pairs(&[("a", "[a]")])), "[a][a]");
}

#[test]
fn render_keeps_unfilled_placeholders_with_defaults() {
    assert_eq!(render_template("[a|b]", &[]), "[a|b]");
    assert_eq!(render_template("[a|b]", &pairs(&[("a", "")])), "[a|b]");
}

#[test]
fn render_fills_placeholders_with_defaults() {
    let content = "- 收件人：[收件人|同事]\n- 主题：[主题]\n- 语气：[语气|专业友好]";
    assert_eq!(
        render_template(content, &pairs(&[("收件人", "老王"), ("主题", "周会"), ("语气", "")])),
        "- 收件人：老王\n- 主题：周会\n- 语气：[语气|专业友好]"
    );
    assert_eq!(render_template("[ a |x] [a|y] [a]", &pairs(&[("a", "1")])), "1 1 1");
}

#[test]
fn render_fills_literal_names_as_written() {
    assert_eq!(render_template("[|x] [ ]", &pairs(&[("", "v")])), "[|x] [ ]");
    assert_eq!(render_template("[|x] [ ]", &pairs(&[("|x", "v"), (" ", "w")])), "v w");
    assert_eq!(render_template("[a\nb]", &pairs(&[("a\nb", "v")])), "v");
}

/// The placeholder scan as the library states it: at each position, a
/// placeholder is `[`, one or more characters other than `[`, `]` and
/// newline, then `]`; after a placeholder the scan goes on behind it.
fn reference_names(s: &[char]) -> Vec<String> {
    let stop = |c: char| c == '[' || c == ']' || c == '\n';
    let mut names = Vec::new();
    let mut i = 0;
    while i < s.len() {
        if s[i] == '[' {
            let mut j = i + 1;
            while j < s.len() && !stop(s[j]) {
                j += 1;
            }
            if j > i + 1 && j < s.len() && s[j] == ']' {
                names.push(s[i + 1..j].iter().collect::<String>());
                i = j + 1;
                continue;
            }
        }
        i += 1;
    }
    names
}

fn reference_variables(s: &[char]) -> Vec<String> {
    let mut vars: Vec<String> = Vec::new();
    for raw in reference_names(s) {
        let t = raw.split('|').next().unwrap_or("").trim().to_owned();
        if !t.is_empty() && !vars.contains(&t) {
            vars.push(t);
        }
    }
    vars
}

#[test]
fn extract_agrees_with_the_stated_scan_on_all_short_texts() {
    let alphabet = ['[', ']', '\n', '|', 'a', ' '];
    let mut current: Vec<Vec<char>> = vec![Vec::new()];
    for _ in 0..5 {
        let mut next = Vec::new();
        for s in &current {
            for c in alphabet {
                let mut t = s.clone();
                t.push(c);
                let text: String = t.iter().collect();
                assert_eq!(extract_variables(&text), reference_variables(&t), "text {:?}", text);
                next.push(t);
            }
        }
        current = next;
    }
}

/// Filling one name as the library states it, written out plainly: from
/// left to right, each literal `[name]` and each `[name|default]` becomes the
/// value.
fn reference_fill(s: &[char], name: &str, value: &str) -> Vec<char> {
    let stop = |c: char| c == '[' || c == ']' || c == '\n';
    let pat: Vec<char> = format!("[{}]", name).chars().collect();
    let mut out = Vec::new();
    let mut i = 0;
    while i < s.len() {
        if s[i..].starts_with(&pat) {
            out.extend(value.chars());
            i += pat.len();
            continue;
        }
        if s[i] == '[' {
            let mut j = i + 1;
            while j < s.len() && !stop(s[j]) {
                j += 1;
            }
            if j > i + 1 && j < s.len() && s[j] == ']' {
                let raw: String = s[i + 1..j].iter().collect();
                if let Some(k) = raw.find('|') {
                    let var = raw[..k].trim();
                    if !var.is_empty() && var == name {
                        out.extend(value.chars());
                        i = j + 1;
                        continue;
                    }
                }
            }
        }
        out.push(s[i]);
        i += 1;
    }
    out
}

fn reference_render(s: &[char], values: &[(String, String)]) -> String {
    let mut text = s.to_vec();
    for (name, value) in values {
        if !value.is_empty() {
            text = reference_fill(&text, name, value);
        }
    }
    text.iter().collect()
}

#[test]
fn render_agrees_with_the_stated_rules_on_all_short_texts() {
    let values = pairs(&[("a", ""), ("a", "V"), ("b", "[a]"), ("", "E"), ("a|", "D")]);
    let alphabet = ['[', ']', '|', 'a', 'b', ' '];
    let mut current: Vec<Vec<char>> = vec![Vec::new()];
    for _ in 0..6 {
        let mut next = Vec::new();
        for s in &current {
            for c in alphabet {
                let mut t = s.clone();
                t.push(c);
                let text: String = t.iter().collect();
                assert_eq!(render_template(&text, &values), reference_render(&t, &values), "text {:?}", text);
                next.push(t);
            }
        }
        current = next;
    }
}

#[test]
fn render_without_defaults_agrees_with_std_replace() {
    let contents = ["[a] [b] [a]", "[[a]]", "x[a]y[ab]z", "[a]", "", "中[a]文", "[ a ]"];
    let values = [("a", "1"), ("b", ""), ("ab", "[a]"), ("a", "[b]"), ("b", "2")];
    for content in contents {
        for k in 0..=values.len() {
            let entries = pairs(&values[..k]);
            let mut expected = content.to_owned();
            for (name, value) in &entries {
                if !value.is_empty() {
                    expected = expected.replace(&format!("[{}]", name), value);
                }
            }
            assert_eq!(render_template(content, &entries), expected);
        }
    }
}

#[test]
fn filling_every_variable_leaves_no_placeholder() {
    let content = "Dear [who|you], about [what] and [who]; [|note]";
    let vars = extract_variables(content);
    assert_eq!(vars, vec!["who", "what"]);
    let values: Vec<(String, String)> =
        vars.iter().cloned().zip(["Ann".to_owned(), "tea".to_owned()]).collect();
    let out = render_template(content, &values);
    assert_eq!(out, "Dear Ann, about tea and Ann; [|note]");
    assert!(extract_variables(&out).is_empty());
}

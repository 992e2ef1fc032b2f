use auto_api::utils::casing::{convert_casing_to_pascal, convert_casing_to_snake};

fn word_pattern() -> fancy_regex::Regex {
    fancy_regex::Regex::new(r"(?>[A-Z]?)[a-z0-9]+|[A-Z]+").unwrap()
}

fn words_by_pattern(pattern: &fancy_regex::Regex, text: &str) -> Vec<String> {
    pattern
        .captures_iter(text)
        .filter_map(|it| it.ok())
        .filter_map(|it| it.get(0))
        .map(|it| it.as_str().to_string())
        .collect()
}

fn snake_by_pattern(pattern: &fancy_regex::Regex, text: &str) -> String {
    words_by_pattern(pattern, text).join("_").to_lowercase()
}

fn pascal_by_pattern(pattern: &fancy_regex::Regex, text: &str) -> String {
    words_by_pattern(pattern, text)
        .iter()
        .map(|it| {
            if it.len() > 1 {
                let (head, tail) = it.split_at(1);
                format!("{}{}", head.to_uppercase(), tail.to_lowercase())
            } else {
                it.to_uppercase()
            }
        })
        .collect::<Vec<String>>()
        .join("")
}

fn samples() -> Vec<String> {
    let alphabet = ['a', 'Z', 'Q', '7', '_', '\u{e9}'];
    let mut all = vec![String::new()];
    let mut last = vec![String::new()];
    for _ in 0..4 {
        let mut next = Vec::new();
        for text in &last {
            for c in alphabet {
                let mut longer = text.clone();
                longer.push(c);
                next.push(longer);
            }
        }
        all.extend(next.iter().cloned());
        last = next;
    }
    all
}

#[test]
fn snake_agrees_with_the_word_pattern() {
    let pattern = word_pattern();
    for text in samples() {
        assert_eq!(convert_casing_to_snake(&text), snake_by_pattern(&pattern, &text));
    }
}

#[test]
fn pascal_agrees_with_the_word_pattern() {
    let pattern = word_pattern();
    for text in samples() {
        assert_eq!(convert_casing_to_pascal(&text), pascal_by_pattern(&pattern, &text));
    }
}

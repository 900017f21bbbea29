use min_loc::compress::extract_code_block;
use min_loc::counting::count_loc;
use min_loc::text::{is_white_char, split_words};

#[test]
fn whitespace_is_unicode_white_space() {
    for u in 0u32..=0x10FFFF {
        if let Some(c) = char::from_u32(u) {
            assert_eq!(is_white_char(c), c.is_whitespace(), "{:?}", c);
        }
    }
}

/// A small deterministic generator of texts made of a few interesting pieces.
fn texts() -> Vec<String> {
    let pieces = [
        "a", " ", "\n", "\r", "\r\n", "```", "py", "\t", "\u{a0}", "import x", "é", "`",
    ];
    let mut out = vec![String::new()];
    let mut seed: u64 = 7;
    for _ in 0..400 {
        let mut s = String::new();
        seed = seed.wrapping_mul(6364136223846793005).wrapping_add(1442695040888963407);
        let n = (seed >> 60) as usize;
        for _ in 0..n {
            seed = seed.wrapping_mul(6364136223846793005).wrapping_add(1442695040888963407);
            s.push_str(pieces[(seed >> 59) as usize % pieces.len()]);
        }
        out.push(s);
    }
    out
}

fn fenced_code(s: &str) -> String {
    let text = s.trim();
    if let Some(start) = text.find("```") {
        let after = &text[start + 3..];
        let code_start = after.find('\n').map(|i| i + 1).unwrap_or(0);
        let body = &after[code_start..];
        if let Some(end) = body.find("```") {
            return body[..end].trim().to_string();
        }
        return body.trim().to_string();
    }
    text.to_string()
}

#[test]
fn counts_agree_on_generated_texts() {
    for t in texts() {
        let s = count_loc(&t, "python");
        assert_eq!(s.total as usize, t.lines().count(), "{:?}", t);
        assert_eq!(
            s.non_blank as usize,
            t.lines().filter(|l| !l.trim().is_empty()).count(),
            "{:?}",
            t
        );
        let code = t
            .lines()
            .filter(|l| {
                let l = l.trim();
                !l.is_empty() && !l.starts_with("import ") && !l.starts_with("from ")
            })
            .count();
        assert_eq!(s.non_import as usize, code, "{:?}", t);
    }
}

#[test]
fn fenced_code_agrees_on_generated_texts() {
    for t in texts() {
        assert_eq!(extract_code_block(&t), fenced_code(&t), "{:?}", t);
    }
}

#[test]
fn words_agree_on_generated_texts() {
    for t in texts() {
        let expected: Vec<String> = t.split_whitespace().map(|w| w.to_string()).collect();
        assert_eq!(split_words(&t), expected, "{:?}", t);
    }
}

use kata_backend::models::kata::Kata;
use kata_backend::services::kata_loader::{
    assemble_kata, extract_code_block, extract_section, invalid_frontmatter, sort_katas,
    split_frontmatter, KataFrontmatter,
};

const BODY: &str = "\n# Borrowing\n\n## Description\n\nFix the borrow.\nTwo lines.\n\n## Broken Code\n\n```rust\nfn main() {\n    let s = String::new();\n}\n```\n\n## Correct Code\n\n```rust\nfn main() {}\n```\n\n## Explanation\n\nBecause.\n\n## Compiler Error Interpretation\n\nE0382 means moved.\n";

/// The section as the standard library's `find` and `trim` give it.
fn section_by_std(body: &str, heading: &str) -> String {
    let marker = format!("## {}", heading);
    match body.find(&marker) {
        None => String::new(),
        Some(start) => {
            let rest = &body[start + marker.len()..];
            let end = rest.find("\n## ").unwrap_or(rest.len());
            rest[..end].trim().to_string()
        }
    }
}

/// The code block as the standard library's `find` and `trim` give it.
fn code_by_std(body: &str, heading: &str) -> String {
    let section = section_by_std(body, heading);
    match section.find("```") {
        None => section,
        Some(start) => {
            let after = &section[start + 3..];
            let code_start = after.find('\n').map_or(0, |i| i + 1);
            let code = &after[code_start..];
            let end = code.find("```").unwrap_or(code.len());
            code[..end].trim().to_string()
        }
    }
}

fn kata(id: &str, phase: u32, sequence: u32) -> Kata {
    Kata {
        id: id.to_string(),
        phase,
        phase_title: format!("Phase {}", phase),
        sequence,
        title: format!("Kata {}", id),
        hints: Vec::new(),
        description: String::new(),
        broken_code: String::new(),
        correct_code: String::new(),
        explanation: String::new(),
        compiler_error_interpretation: String::new(),
    }
}

fn ids(katas: &[Kata]) -> Vec<&str> {
    katas.iter().map(|k| k.id.as_str()).collect()
}

#[test]
fn section_is_cut_at_next_heading_and_trimmed() {
    assert_eq!(extract_section(BODY, "Description"), "Fix the borrow.\nTwo lines.");
    assert_eq!(extract_section(BODY, "Explanation"), "Because.");
}

#[test]
fn last_section_runs_to_the_end() {
    assert_eq!(extract_section(BODY, "Compiler Error Interpretation"), "E0382 means moved.");
    assert_eq!(extract_section("## A\ntext", "A"), "text");
}

#[test]
fn missing_section_is_empty() {
    assert_eq!(extract_section(BODY, "Hints"), "");
    assert_eq!(extract_section("", "Description"), "");
    assert_eq!(extract_section("## Descriptio", "Description"), "");
}

#[test]
fn section_marker_matches_anywhere_and_as_prefix() {
    // the marker is not anchored to a line start, and a longer heading
    // that starts with the wanted one matches too
    assert_eq!(extract_section("x ## Code here\n## Next\nn", "Code"), "here");
    assert_eq!(extract_section("### Deep\ninside\n", "Deep"), "inside");
    assert_eq!(extract_section("## Description Extra\nbody\n", "Description"), "Extra\nbody");
}

#[test]
fn first_of_two_equal_headings_wins() {
    assert_eq!(extract_section("## A\none\n## A\ntwo\n", "A"), "one");
}

#[test]
fn empty_heading_takes_first_section() {
    assert_eq!(extract_section("intro\n## First\nbody\n## Second\nmore", ""), "First\nbody");
}

#[test]
fn heading_without_text_gives_empty_section() {
    assert_eq!(extract_section("## A\n## B\nb", "A"), "");
    assert_eq!(extract_section("## A", "A"), "");
    assert_eq!(extract_section("## A \t\n\n  \n## B", "A"), "");
}

#[test]
fn section_keeps_inner_white_space_and_unicode() {
    let body = "## Beschreibung\n\u{a0}\u{3000} Gr\u{fc}\u{df}e  \u{1f980}\n\n  zwei \u{2003}\n## Ende\n";
    assert_eq!(extract_section(body, "Beschreibung"), "Gr\u{fc}\u{df}e  \u{1f980}\n\n  zwei");
    // a zero width space is no white space and stays
    assert_eq!(extract_section("## Z\n\u{200b} z \u{200b}\n", "Z"), "\u{200b} z \u{200b}");
}

#[test]
fn code_block_drops_fences_and_language_tag() {
    assert_eq!(
        extract_code_block(BODY, "Broken Code"),
        "fn main() {\n    let s = String::new();\n}"
    );
    assert_eq!(extract_code_block(BODY, "Correct Code"), "fn main() {}");
}

#[test]
fn code_block_without_fence_is_the_section() {
    assert_eq!(extract_code_block("## Code\n  let x = 1;  \n## Next", "Code"), "let x = 1;");
    assert_eq!(extract_code_block(BODY, "Explanation"), "Because.");
}

#[test]
fn code_block_of_missing_section_is_empty() {
    assert_eq!(extract_code_block(BODY, "Nowhere"), "");
}

#[test]
fn unclosed_code_block_runs_to_section_end() {
    assert_eq!(extract_code_block("## Code\n```rust\nfn f() {}\n", "Code"), "fn f() {}");
}

#[test]
fn fence_without_line_break_keeps_tag() {
    // with no line break after the opening fence nothing is skipped
    assert_eq!(extract_code_block("## Code\n```rust fn f() {}```", "Code"), "rust fn f() {}");
    assert_eq!(extract_code_block("## Code\n```", "Code"), "");
}

#[test]
fn only_first_code_block_is_taken() {
    let body = "## Code\ntext\n```\nfirst\n```\nbetween\n```\nsecond\n```\n";
    assert_eq!(extract_code_block(body, "Code"), "first");
}

#[test]
fn text_before_fence_is_dropped() {
    assert_eq!(extract_code_block("## Code\nSee:\n```rust\n  x  \n```\nafter", "Code"), "x");
}

#[test]
fn extraction_agrees_with_std_search() {
    let bodies = [
        BODY,
        "",
        "## ",
        "## A",
        "## A\n",
        "\n## A\n## A\n",
        "## A```\n```## B\n``` \n## A",
        "a## A\u{85}```x\ny```z\n##  B",
        "## A\n```\n```\n```\n",
        "## A ``` ``` ```",
        "## A\n\n```rust\n\n\n```",
        "\u{1f980}## A\u{1f980}\n## \u{1f980}\n```\u{e9}\n\u{e9}```",
        "## A\r\n```rust\r\ncode\r\n```\r\n## B\r\n",
        "## B\nb\n## A\na",
        "#### A\n## A",
    ];
    let headings = ["A", "B", "", " B", "Description", "Broken Code", "\u{1f980}", "A\n"];
    for body in bodies {
        for heading in headings {
            assert_eq!(extract_section(body, heading), section_by_std(body, heading));
            assert_eq!(extract_code_block(body, heading), code_by_std(body, heading));
        }
    }
}

#[test]
fn frontmatter_is_split_from_body() {
    let content = "---\nid: a\nphase: 1\n---\n\n## Description\nd\n";
    let (front, body) = split_frontmatter(content).unwrap();
    assert_eq!(front, "id: a\nphase: 1");
    assert_eq!(body, "\n\n## Description\nd\n");
}

#[test]
fn frontmatter_needs_two_delimiters() {
    assert_eq!(split_frontmatter(""), None);
    assert_eq!(split_frontmatter("no frontmatter"), None);
    assert_eq!(split_frontmatter("---\nid: a\n"), None);
    assert_eq!(split_frontmatter("--"), None);
    assert_eq!(split_frontmatter("-----"), None);
}

#[test]
fn frontmatter_delimiters_do_not_overlap() {
    assert_eq!(split_frontmatter("------"), Some((String::new(), String::new())));
    assert_eq!(split_frontmatter("-------"), Some((String::new(), "-".to_string())));
    assert_eq!(split_frontmatter("---a----b"), Some(("a".to_string(), "-b".to_string())));
}

#[test]
fn text_before_first_delimiter_is_ignored() {
    let parts = split_frontmatter("junk --- \u{a0}front\u{2028} --- body --- more");
    assert_eq!(parts, Some(("front".to_string(), " body --- more".to_string())));
}

#[test]
fn split_agrees_with_std_splitn() {
    let contents = [
        "",
        "---",
        "------",
        "--- ---",
        "a---b---c---d",
        "\u{e9}---\u{1f980} x \u{1f980}---\u{e9}",
        "---\n\n---\n",
        "- -- ---- - ---",
    ];
    for content in contents {
        let parts: Vec<&str> = content.splitn(3, "---").collect();
        let expected = if parts.len() < 3 {
            None
        } else {
            Some((parts[1].trim().to_string(), parts[2].to_string()))
        };
        assert_eq!(split_frontmatter(content), expected);
    }
}

#[test]
fn invalid_frontmatter_names_the_file() {
    assert_eq!(invalid_frontmatter("katas/01/a.md"), "Invalid frontmatter in katas/01/a.md");
    assert_eq!(invalid_frontmatter(""), "Invalid frontmatter in ");
}

#[test]
fn kata_is_assembled_from_frontmatter_and_sections() {
    let front = KataFrontmatter {
        id: "borrow-1".to_string(),
        phase: 2,
        phase_title: "Borrowing".to_string(),
        sequence: 7,
        title: "First borrow".to_string(),
        hints: vec!["look at s".to_string(), "clone?".to_string()],
    };
    let kata = assemble_kata(front, BODY);
    assert_eq!(kata.id, "borrow-1");
    assert_eq!(kata.phase, 2);
    assert_eq!(kata.phase_title, "Borrowing");
    assert_eq!(kata.sequence, 7);
    assert_eq!(kata.title, "First borrow");
    assert_eq!(kata.hints, vec!["look at s".to_string(), "clone?".to_string()]);
    assert_eq!(kata.description, "Fix the borrow.\nTwo lines.");
    assert_eq!(kata.broken_code, "fn main() {\n    let s = String::new();\n}");
    assert_eq!(kata.correct_code, "fn main() {}");
    assert_eq!(kata.explanation, "Because.");
    assert_eq!(kata.compiler_error_interpretation, "E0382 means moved.");
}

#[test]
fn kata_without_sections_has_empty_texts() {
    let front = KataFrontmatter {
        id: "x".to_string(),
        phase: 0,
        phase_title: String::new(),
        sequence: 0,
        title: String::new(),
        hints: Vec::new(),
    };
    let kata = assemble_kata(front, "nothing here");
    assert_eq!(kata.description, "");
    assert_eq!(kata.broken_code, "");
    assert_eq!(kata.correct_code, "");
    assert_eq!(kata.explanation, "");
    assert_eq!(kata.compiler_error_interpretation, "");
    assert!(kata.hints.is_empty());
}

#[test]
fn katas_are_sorted_by_phase_then_sequence() {
    let mut katas = vec![
        kata("c", 2, 1),
        kata("a", 1, 2),
        kata("e", 3, 0),
        kata("b", 1, 1),
        kata("d", 2, 5),
    ];
    sort_katas(&mut katas);
    assert_eq!(ids(&katas), vec!["b", "a", "c", "d", "e"]);
}

#[test]
fn katas_of_equal_place_keep_their_order() {
    let mut katas = vec![
        kata("x1", 1, 1),
        kata("y", 0, 9),
        kata("x2", 1, 1),
        kata("z", 1, 0),
        kata("x3", 1, 1),
    ];
    sort_katas(&mut katas);
    assert_eq!(ids(&katas), vec!["y", "z", "x1", "x2", "x3"]);
}

#[test]
fn phase_outweighs_any_sequence() {
    let mut katas = vec![kata("late", 1, 0), kata("early", 0, u32::MAX), kata("last", u32::MAX, u32::MAX), kata("first", 0, 0)];
    sort_katas(&mut katas);
    assert_eq!(ids(&katas), vec!["first", "early", "late", "last"]);
}

#[test]
fn sorting_few_katas() {
    let mut none: Vec<Kata> = Vec::new();
    sort_katas(&mut none);
    assert!(none.is_empty());
    let mut one = vec![kata("only", 4, 4)];
    sort_katas(&mut one);
    assert_eq!(ids(&one), vec!["only"]);
}

#[test]
fn sorting_agrees_with_std_stable_sort() {
    let mut seed: u32 = 12345;
    let mut katas: Vec<Kata> = Vec::new();
    for n in 0..60u32 {
        seed = seed.wrapping_mul(1664525).wrapping_add(1013904223);
        katas.push(kata(&format!("k{}", n), (seed >> 28) % 4, (seed >> 20) % 5));
    }
    let mut expected: Vec<(u32, u32, String)> =
        katas.iter().map(|k| (k.phase, k.sequence, k.id.clone())).collect();
    expected.sort_by_key(|k| (k.0, k.1));
    sort_katas(&mut katas);
    let got: Vec<(u32, u32, String)> =
        katas.iter().map(|k| (k.phase, k.sequence, k.id.clone())).collect();
    assert_eq!(got, expected);
}

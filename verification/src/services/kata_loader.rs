//! Reading catalog entries out of their text files.
//!
//! A file starts with a frontmatter block between two `---` lines, followed
//! by a body whose `## ` headings open its sections. This module cuts the
//! file apart and puts the entry together; decoding the frontmatter itself
//! is left to the caller.

use vstd::prelude::*;
use crate::models::kata::{texts, Kata, KataView};
use crate::sorting::{is_stable_sort, own_rank, sort_by_rank};
use crate::text::{
    chars_of, find_in, first_match, lemma_first_match_in_bounds, trim, trim_range,
};

verus! {

/// The text that opens the section called `heading`.
pub open spec fn heading_marker(heading: Seq<char>) -> Seq<char> {
    "## "@ + heading
}

/// The text at which a section ends: the start of the next heading.
pub open spec fn next_heading() -> Seq<char> {
    "\n## "@
}

/// The text that opens and closes a code block.
pub open spec fn fence() -> Seq<char> {
    "```"@
}

/// The text that opens and closes the frontmatter.
pub open spec fn delimiter() -> Seq<char> {
    "---"@
}

/// The section of `body` called `heading`: what stands between the first
/// occurrence of its marker and the next heading (or the end), trimmed.
/// Empty where the marker does not occur.
pub open spec fn section_of(body: Seq<char>, heading: Seq<char>) -> Seq<char> {
    let marker = heading_marker(heading);
    match first_match(body, marker) {
        None => Seq::empty(),
        Some(start) => {
            let rest = body.skip(start + marker.len());
            let end = match first_match(rest, next_heading()) {
                Some(e) => e,
                None => rest.len() as int,
            };
            trim(rest.take(end))
        },
    }
}

/// The first code block of `section`: what stands between the line of the
/// first fence and the next fence (or the end), trimmed. The whole section
/// where it holds no fence.
pub open spec fn code_block_in(section: Seq<char>) -> Seq<char> {
    match first_match(section, fence()) {
        None => section,
        Some(start) => {
            let after = section.skip(start + fence().len());
            let code_start = match first_match(after, "\n"@) {
                Some(i) => i + 1,
                None => 0,
            };
            let code = after.skip(code_start);
            let end = match first_match(code, fence()) {
                Some(e) => e,
                None => code.len() as int,
            };
            trim(code.take(end))
        },
    }
}

/// The first code block of the section of `body` called `heading`.
pub open spec fn code_block_of(body: Seq<char>, heading: Seq<char>) -> Seq<char> {
    code_block_in(section_of(body, heading))
}

/// The frontmatter and the body of `content`: what stands between the
/// first two delimiters, trimmed, and everything after the second one.
/// `None` where `content` holds fewer than two delimiters.
pub open spec fn frontmatter_of(content: Seq<char>) -> Option<(Seq<char>, Seq<char>)> {
    match first_match(content, delimiter()) {
        None => None,
        Some(open) => {
            let rest = content.skip(open + delimiter().len());
            match first_match(rest, delimiter()) {
                None => None,
                Some(close) => Some(
                    (trim(rest.take(close)), rest.skip(close + delimiter().len())),
                ),
            }
        },
    }
}

/// Copies `text[from..to]` out of `source`, whose characters `text` holds.
fn slice_of(source: &str, text: &Vec<char>, from: usize, to: usize) -> (piece: String)
    requires
        text@ == source@,
        from <= to <= text.len(),
    ensures
        piece@ == text@.subrange(from as int, to as int),
{
    String::from_str(source.substring_char(from, to))
}

/// Extracts the section of `body` called `heading`.
pub fn extract_section(body: &str, heading: &str) -> (section: String)
    ensures
        section@ == section_of(body@, heading@),
{
    let text = chars_of(body);
    let mut marker = chars_of("## ");
    let mut name = chars_of(heading);
    marker.append(&mut name);
    assert(marker@ == heading_marker(heading@));
    assert(text@.subrange(0, text.len() as int) == text@);
    let start = match find_in(&text, 0, text.len(), &marker) {
        Some(i) => i,
        None => {
            return String::new();
        },
    };
    proof {
        lemma_first_match_in_bounds(text@, marker@);
    }
    let after = start + marker.len();
    let ghost rest = body@.skip(after as int);
    assert(rest == text@.subrange(after as int, text.len() as int));
    let closing = chars_of("\n## ");
    let stop = match find_in(&text, after, text.len(), &closing) {
        Some(e) => {
            proof {
                lemma_first_match_in_bounds(rest, closing@);
            }
            after + e
        },
        None => text.len(),
    };
    assert(rest.take(stop - after) == text@.subrange(after as int, stop as int));
    let (a, b) = trim_range(&text, after, stop);
    slice_of(body, &text, a, b)
}

/// Extracts the first code block of the section of `body` called
/// `heading`.
pub fn extract_code_block(body: &str, heading: &str) -> (code: String)
    ensures
        code@ == code_block_of(body@, heading@),
{
    let section = extract_section(body, heading);
    let text = chars_of(section.as_str());
    let ticks = chars_of("```");
    assert(text@.subrange(0, text.len() as int) == text@);
    let start = match find_in(&text, 0, text.len(), &ticks) {
        Some(i) => i,
        None => {
            return section;
        },
    };
    proof {
        lemma_first_match_in_bounds(text@, ticks@);
    }
    let after = start + ticks.len();
    let ghost rest = text@.skip(after as int);
    assert(rest == text@.subrange(after as int, text.len() as int));
    let newline = chars_of("\n");
    let code_start = match find_in(&text, after, text.len(), &newline) {
        Some(i) => {
            proof {
                reveal_strlit("\n");
                lemma_first_match_in_bounds(rest, newline@);
            }
            after + i + 1
        },
        None => after,
    };
    let ghost code = rest.skip(code_start - after);
    assert(code == text@.subrange(code_start as int, text.len() as int));
    let stop = match find_in(&text, code_start, text.len(), &ticks) {
        Some(e) => {
            proof {
                lemma_first_match_in_bounds(code, ticks@);
            }
            code_start + e
        },
        None => text.len(),
    };
    assert(code.take(stop - code_start) == text@.subrange(code_start as int, stop as int));
    let (a, b) = trim_range(&text, code_start, stop);
    slice_of(section.as_str(), &text, a, b)
}

/// Splits the text of a catalog file into its frontmatter and its body.
pub fn split_frontmatter(content: &str) -> (parts: Option<(String, String)>)
    ensures
        match parts {
            Some((front, body)) => frontmatter_of(content@) == Some((front@, body@)),
            None => frontmatter_of(content@) is None,
        },
{
    let text = chars_of(content);
    let dashes = chars_of("---");
    assert(text@.subrange(0, text.len() as int) == text@);
    let open = match find_in(&text, 0, text.len(), &dashes) {
        Some(i) => i,
        None => {
            return None;
        },
    };
    proof {
        lemma_first_match_in_bounds(text@, dashes@);
    }
    let after = open + dashes.len();
    let ghost rest = text@.skip(after as int);
    assert(rest == text@.subrange(after as int, text.len() as int));
    let close = match find_in(&text, after, text.len(), &dashes) {
        Some(i) => i,
        None => {
            return None;
        },
    };
    proof {
        lemma_first_match_in_bounds(rest, dashes@);
    }
    let stop = after + close;
    let resume = stop + dashes.len();
    assert(rest.take(close as int) == text@.subrange(after as int, stop as int));
    assert(rest.skip(close + dashes.len()) == text@.subrange(resume as int, text.len() as int));
    let (a, b) = trim_range(&text, after, stop);
    let front = slice_of(content, &text, a, b);
    let body = slice_of(content, &text, resume, text.len());
    Some((front, body))
}

/// The message for a file at `path` that holds no frontmatter.
pub fn invalid_frontmatter(path: &str) -> (msg: String)
    ensures
        msg@ == "Invalid frontmatter in "@ + path@,
{
    let mut msg = String::from_str("Invalid frontmatter in ");
    msg.append(path);
    msg
}

/// What the frontmatter of a catalog file says of its entry.
#[derive(Debug)]
pub struct KataFrontmatter {
    pub id: String,
    pub phase: u32,
    pub phase_title: String,
    pub sequence: u32,
    pub title: String,
    pub hints: Vec<String>,
}

/// The entry that `front` and the sections of `body` describe.
pub open spec fn kata_of(front: KataFrontmatter, body: Seq<char>) -> KataView {
    KataView {
        id: front.id@,
        phase: front.phase,
        phase_title: front.phase_title@,
        sequence: front.sequence,
        title: front.title@,
        hints: texts(front.hints@),
        description: section_of(body, "Description"@),
        broken_code: code_block_of(body, "Broken Code"@),
        correct_code: code_block_of(body, "Correct Code"@),
        explanation: section_of(body, "Explanation"@),
        compiler_error_interpretation: section_of(body, "Compiler Error Interpretation"@),
    }
}

/// Puts a catalog entry together from its decoded frontmatter and the
/// sections of its body.
pub fn assemble_kata(front: KataFrontmatter, body: &str) -> (kata: Kata)
    ensures
        kata@ == kata_of(front, body@),
{
    let description = extract_section(body, "Description");
    let broken_code = extract_code_block(body, "Broken Code");
    let correct_code = extract_code_block(body, "Correct Code");
    let explanation = extract_section(body, "Explanation");
    let compiler_error = extract_section(body, "Compiler Error Interpretation");
    Kata {
        id: front.id,
        phase: front.phase,
        phase_title: front.phase_title,
        sequence: front.sequence,
        title: front.title,
        hints: front.hints,
        description,
        broken_code,
        correct_code,
        explanation,
        compiler_error_interpretation: compiler_error,
    }
}

/// Brings the catalog into its order: by phase, within a phase by
/// sequence, entries that agree in both in the order they were read. Every
/// entry is kept, as often as it occurred.
pub fn sort_katas(katas: &mut Vec<Kata>)
    ensures
        is_stable_sort(old(katas)@, final(katas)@),
        final(katas)@.to_multiset() == old(katas)@.to_multiset(),
        forall|i: int, j: int|
            0 <= i < j < final(katas)@.len() ==> {
                let a = #[trigger] final(katas)@[i];
                let b = #[trigger] final(katas)@[j];
                a.phase < b.phase || (a.phase == b.phase && a.sequence <= b.sequence)
            },
{
    sort_by_rank(katas);
    proof {
        assert forall|i: int, j: int| 0 <= i < j < katas@.len() implies {
            let a = #[trigger] katas@[i];
            let b = #[trigger] katas@[j];
            a.phase < b.phase || (a.phase == b.phase && a.sequence <= b.sequence)
        } by {
            assert(own_rank::<Kata>()(katas@[i]) <= own_rank::<Kata>()(katas@[j]));
        }
    }
}

} // verus!

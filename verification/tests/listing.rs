use kata_backend::models::kata::{Kata, KataListResponse, KataSummary, PhaseGroup};
use kata_backend::routes::katas::{get_kata, list_katas};
use kata_backend::sorting::{sort_by_rank, Ranked};

fn entry(id: &str, phase: u32, phase_title: &str, sequence: u32) -> Kata {
    Kata {
        id: id.to_string(),
        phase,
        phase_title: phase_title.to_string(),
        sequence,
        title: format!("Title of {}", id),
        hints: vec![format!("hint for {}", id)],
        description: format!("about {}", id),
        broken_code: String::new(),
        correct_code: String::new(),
        explanation: String::new(),
        compiler_error_interpretation: String::new(),
    }
}

fn shape(listing: &KataListResponse) -> Vec<(u32, String, Vec<(String, u32, String)>)> {
    listing
        .phases
        .iter()
        .map(|g| {
            (
                g.phase,
                g.title.clone(),
                g.katas.iter().map(|k| (k.id.clone(), k.sequence, k.title.clone())).collect(),
            )
        })
        .collect()
}

fn summary(id: &str, sequence: u32) -> (String, u32, String) {
    (id.to_string(), sequence, format!("Title of {}", id))
}

#[test]
fn listing_groups_by_phase_and_sorts() {
    let katas = vec![
        entry("b2", 2, "Borrowing", 2),
        entry("o1", 1, "Ownership", 1),
        entry("b1", 2, "Borrowing", 1),
        entry("l1", 3, "Lifetimes", 1),
        entry("o0", 1, "Ownership", 0),
    ];
    let listing = list_katas(&katas);
    assert_eq!(
        shape(&listing),
        vec![
            (1, "Ownership".to_string(), vec![summary("o0", 0), summary("o1", 1)]),
            (2, "Borrowing".to_string(), vec![summary("b1", 1), summary("b2", 2)]),
            (3, "Lifetimes".to_string(), vec![summary("l1", 1)]),
        ]
    );
}

#[test]
fn listing_of_empty_catalog_is_empty() {
    let listing = list_katas(&Vec::new());
    assert!(listing.phases.is_empty());
}

#[test]
fn group_title_comes_from_first_entry_of_phase() {
    let katas = vec![
        entry("late", 5, "First title", 9),
        entry("other", 4, "Four", 1),
        entry("early", 5, "Second title", 1),
    ];
    let listing = list_katas(&katas);
    assert_eq!(
        shape(&listing),
        vec![
            (4, "Four".to_string(), vec![summary("other", 1)]),
            (5, "First title".to_string(), vec![summary("early", 1), summary("late", 9)]),
        ]
    );
}

#[test]
fn summaries_of_equal_sequence_keep_catalog_order() {
    let katas = vec![
        entry("a", 1, "P", 3),
        entry("b", 1, "P", 1),
        entry("c", 1, "P", 3),
        entry("d", 1, "P", 1),
        entry("e", 1, "P", 3),
    ];
    let listing = list_katas(&katas);
    assert_eq!(
        shape(&listing),
        vec![(
            1,
            "P".to_string(),
            vec![summary("b", 1), summary("d", 1), summary("a", 3), summary("c", 3), summary("e", 3)]
        )]
    );
}

#[test]
fn listing_leaves_catalog_untouched() {
    let katas = vec![entry("z", 9, "Nine", 9), entry("a", 0, "Zero", 0)];
    let _ = list_katas(&katas);
    assert_eq!(katas[0].id, "z");
    assert_eq!(katas[1].id, "a");
    assert_eq!(katas[0].hints, vec!["hint for z".to_string()]);
}

#[test]
fn listing_agrees_with_std_grouping() {
    let mut seed: u32 = 99;
    let mut katas: Vec<Kata> = Vec::new();
    for n in 0..80u32 {
        seed = seed.wrapping_mul(1103515245).wrapping_add(12345);
        let phase: u32 = (seed >> 16) % 6;
        let sequence: u32 = (seed >> 8) % 4;
        katas.push(entry(&format!("k{}", n), phase, &format!("P{}-{}", phase, n), sequence));
    }
    let mut expected: Vec<(u32, String, Vec<(String, u32, String)>)> = Vec::new();
    for kata in &katas {
        let item = (kata.id.clone(), kata.sequence, kata.title.clone());
        match expected.iter_mut().find(|g| g.0 == kata.phase) {
            Some(group) => group.2.push(item),
            None => expected.push((kata.phase, kata.phase_title.clone(), vec![item])),
        }
    }
    expected.sort_by_key(|g| g.0);
    for group in expected.iter_mut() {
        group.2.sort_by_key(|k| k.1);
    }
    assert_eq!(shape(&list_katas(&katas)), expected);
}

#[test]
fn kata_is_found_by_id() {
    let katas = vec![entry("a", 1, "P", 1), entry("b", 1, "P", 2), entry("c", 2, "Q", 1)];
    let found = get_kata(&katas, "b").unwrap();
    assert_eq!(found.id, "b");
    assert_eq!(found.sequence, 2);
    assert_eq!(found.description, "about b");
    assert!(std::ptr::eq(found, &katas[1]));
}

#[test]
fn unknown_id_is_not_found() {
    let katas = vec![entry("a", 1, "P", 1), entry("b", 1, "P", 2)];
    assert!(get_kata(&katas, "c").is_none());
    assert!(get_kata(&katas, "").is_none());
    assert!(get_kata(&katas, "A").is_none());
    assert!(get_kata(&katas, "a ").is_none());
    assert!(get_kata(&Vec::new(), "a").is_none());
}

#[test]
fn first_of_equal_ids_is_found() {
    let katas = vec![entry("a", 1, "first", 1), entry("dup", 1, "second", 2), entry("dup", 2, "third", 3)];
    let found = get_kata(&katas, "dup").unwrap();
    assert_eq!(found.phase_title, "second");
    assert!(std::ptr::eq(found, &katas[1]));
}

#[test]
fn found_kata_can_be_cloned() {
    let katas = vec![entry("\u{e9}t\u{e9}", 1, "P", 1)];
    let copy: Kata = get_kata(&katas, "\u{e9}t\u{e9}").unwrap().clone();
    assert_eq!(copy.id, "\u{e9}t\u{e9}");
    assert_eq!(copy.hints, katas[0].hints);
}

#[test]
fn ranks_order_by_phase_then_sequence() {
    assert_eq!(entry("a", 0, "", 0).rank_of(), 0);
    assert_eq!(entry("a", 0, "", 7).rank_of(), 7);
    assert_eq!(entry("a", 1, "", 0).rank_of(), 1u64 << 32);
    assert_eq!(entry("a", 3, "", 4).rank_of(), (3u64 << 32) + 4);
    assert_eq!(entry("a", u32::MAX, "", u32::MAX).rank_of(), u64::MAX);
    let s = KataSummary { id: String::new(), sequence: 12, title: String::new() };
    assert_eq!(s.rank_of(), 12);
    let g = PhaseGroup { phase: 5, title: String::new(), katas: Vec::new() };
    assert_eq!(g.rank_of(), 5);
}

#[test]
fn sort_by_rank_is_stable() {
    let mut items: Vec<KataSummary> = [(3, "a"), (1, "b"), (3, "c"), (2, "d"), (1, "e"), (3, "f"), (0, "g")]
        .iter()
        .map(|(sequence, id)| KataSummary { id: id.to_string(), sequence: *sequence, title: String::new() })
        .collect();
    sort_by_rank(&mut items);
    let got: Vec<(u32, &str)> = items.iter().map(|k| (k.sequence, k.id.as_str())).collect();
    assert_eq!(got, vec![(0, "g"), (1, "b"), (1, "e"), (2, "d"), (3, "a"), (3, "c"), (3, "f")]);
}

#[test]
fn sort_by_rank_handles_sorted_and_reversed_input() {
    let make = |sequences: &[u32]| -> Vec<KataSummary> {
        sequences
            .iter()
            .enumerate()
            .map(|(at, s)| KataSummary { id: format!("{}", at), sequence: *s, title: String::new() })
            .collect()
    };
    let mut sorted = make(&[1, 2, 3, 4]);
    sort_by_rank(&mut sorted);
    assert_eq!(sorted.iter().map(|k| k.id.as_str()).collect::<Vec<_>>(), vec!["0", "1", "2", "3"]);
    let mut reversed = make(&[4, 3, 2, 1]);
    sort_by_rank(&mut reversed);
    assert_eq!(reversed.iter().map(|k| k.id.as_str()).collect::<Vec<_>>(), vec!["3", "2", "1", "0"]);
    let mut equal = make(&[7, 7, 7]);
    sort_by_rank(&mut equal);
    assert_eq!(equal.iter().map(|k| k.id.as_str()).collect::<Vec<_>>(), vec!["0", "1", "2"]);
}

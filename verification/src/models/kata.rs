//! The catalog's entries and the shapes in which they are listed.

use vstd::prelude::*;
use crate::sorting::Ranked;

verus! {

/// One exercise of the catalog.
#[derive(Debug, Clone)]
pub struct Kata {
    pub id: String,
    pub phase: u32,
    pub phase_title: String,
    pub sequence: u32,
    pub title: String,
    pub hints: Vec<String>,
    pub description: String,
    pub broken_code: String,
    pub correct_code: String,
    pub explanation: String,
    pub compiler_error_interpretation: String,
}

/// The catalog as it is listed: its phases in ascending order.
#[derive(Debug)]
pub struct KataListResponse {
    pub phases: Vec<PhaseGroup>,
}

/// The exercises of one phase, in ascending sequence.
#[derive(Debug)]
pub struct PhaseGroup {
    pub phase: u32,
    pub title: String,
    pub katas: Vec<KataSummary>,
}

/// What a listing shows of one exercise.
#[derive(Debug)]
pub struct KataSummary {
    pub id: String,
    pub sequence: u32,
    pub title: String,
}

/// The texts of `strings` as sequences of characters.
pub open spec fn texts(strings: Seq<String>) -> Seq<Seq<char>> {
    strings.map_values(|s: String| s@)
}

/// The value of a summary, as a function.
pub open spec fn summary_view() -> spec_fn(KataSummary) -> KataSummaryView {
    |k: KataSummary| k@
}

/// The values of `items`, in order.
pub open spec fn summary_views(items: Seq<KataSummary>) -> Seq<KataSummaryView> {
    items.map_values(summary_view())
}

/// The values of `items`, in order.
pub open spec fn group_views(items: Seq<PhaseGroup>) -> Seq<PhaseGroupView> {
    items.map_values(|g: PhaseGroup| g@)
}

/// The values of `items`, in order.
pub open spec fn kata_views(items: Seq<Kata>) -> Seq<KataView> {
    items.map_values(|k: Kata| k@)
}

/// Mathematical value of a [`Kata`].
pub struct KataView {
    pub id: Seq<char>,
    pub phase: u32,
    pub phase_title: Seq<char>,
    pub sequence: u32,
    pub title: Seq<char>,
    pub hints: Seq<Seq<char>>,
    pub description: Seq<char>,
    pub broken_code: Seq<char>,
    pub correct_code: Seq<char>,
    pub explanation: Seq<char>,
    pub compiler_error_interpretation: Seq<char>,
}

impl View for Kata {
    type V = KataView;

    open spec fn view(&self) -> KataView {
        KataView {
            id: self.id@,
            phase: self.phase,
            phase_title: self.phase_title@,
            sequence: self.sequence,
            title: self.title@,
            hints: texts(self.hints@),
            description: self.description@,
            broken_code: self.broken_code@,
            correct_code: self.correct_code@,
            explanation: self.explanation@,
            compiler_error_interpretation: self.compiler_error_interpretation@,
        }
    }
}

/// Mathematical value of a [`KataSummary`].
pub struct KataSummaryView {
    pub id: Seq<char>,
    pub sequence: u32,
    pub title: Seq<char>,
}

impl View for KataSummary {
    type V = KataSummaryView;

    open spec fn view(&self) -> KataSummaryView {
        KataSummaryView { id: self.id@, sequence: self.sequence, title: self.title@ }
    }
}

/// Mathematical value of a [`PhaseGroup`].
pub struct PhaseGroupView {
    pub phase: u32,
    pub title: Seq<char>,
    pub katas: Seq<KataSummaryView>,
}

impl View for PhaseGroup {
    type V = PhaseGroupView;

    open spec fn view(&self) -> PhaseGroupView {
        PhaseGroupView {
            phase: self.phase,
            title: self.title@,
            katas: summary_views(self.katas@),
        }
    }
}

impl View for KataListResponse {
    type V = Seq<PhaseGroupView>;

    open spec fn view(&self) -> Seq<PhaseGroupView> {
        group_views(self.phases@)
    }
}

impl KataView {
    /// What a listing shows of the exercise.
    pub open spec fn summary(self) -> KataSummaryView {
        KataSummaryView { id: self.id, sequence: self.sequence, title: self.title }
    }
}

/// The rank that orders by `phase` first and by `sequence` within a phase.
pub open spec fn catalog_rank(phase: u32, sequence: u32) -> u64 {
    (phase as u64 * 0x1_0000_0000 + sequence as u64) as u64
}

/// Ranks compare as the pairs of phase and sequence do, phase first.
pub proof fn law_catalog_rank_is_lexicographic(p1: u32, s1: u32, p2: u32, s2: u32)
    ensures
        catalog_rank(p1, s1) < catalog_rank(p2, s2) <==> p1 < p2 || (p1 == p2 && s1 < s2),
        catalog_rank(p1, s1) == catalog_rank(p2, s2) <==> p1 == p2 && s1 == s2,
{
}

/// A catalog entry is ordered by its phase, then by its sequence.
impl Ranked for Kata {
    open spec fn rank(&self) -> u64 {
        catalog_rank(self.phase, self.sequence)
    }

    fn rank_of(&self) -> (r: u64) {
        self.phase as u64 * 0x1_0000_0000 + self.sequence as u64
    }
}

/// A summary is ordered by its sequence.
impl Ranked for KataSummary {
    open spec fn rank(&self) -> u64 {
        self.sequence as u64
    }

    fn rank_of(&self) -> (r: u64) {
        self.sequence as u64
    }
}

/// A group is ordered by its phase.
impl Ranked for PhaseGroup {
    open spec fn rank(&self) -> u64 {
        self.phase as u64
    }

    fn rank_of(&self) -> (r: u64) {
        self.phase as u64
    }
}

} // verus!

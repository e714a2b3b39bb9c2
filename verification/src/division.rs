use vstd::prelude::*;

verus! {

/// Number of tempo-synced note divisions.
pub const DIVISION_COUNT: usize = 14;

/// Sub-beat resolution of the division table: 24 ticks per beat (a quarter
/// note), enough to hold every division, triplets included, exactly.
pub const TICKS_PER_BEAT: u32 = 24;

/// Note lengths in ticks, by division index:
/// 2/1, 3/1, 4/1, 1/1, 1/2, 1/2T, 1/4, 1/4T, 1/8, 1/8T, 1/16, 1/16T, 1/32, 1/32T.
pub open spec fn division_ticks_table() -> Seq<u32> {
    seq![192u32, 288, 384, 96, 48, 32, 24, 16, 12, 8, 6, 4, 3, 2]
}

/// The division index a parameter value selects: values below 0 and above 13
/// are clamped into the table.
pub open spec fn clamp_division(division: int) -> int {
    if division < 0 {
        0
    } else if division > 13 {
        13
    } else {
        division
    }
}

/// Labels of the divisions, by index, in the order of `division_ticks_table`.
pub open spec fn division_labels() -> Seq<Seq<char>> {
    seq![
        "2/1"@, "3/1"@, "4/1"@, "1/1"@, "1/2"@, "1/2T"@, "1/4"@, "1/4T"@, "1/8"@, "1/8T"@,
        "1/16"@, "1/16T"@, "1/32"@, "1/32T"@,
    ]
}

/// The label the host shows for a division parameter value: the table entry
/// for `0..=13`, and the last entry, "1/32T", for any other value.
pub open spec fn division_label_spec(division: int) -> Seq<char> {
    if 0 <= division < 14 {
        division_labels()[division]
    } else {
        division_labels()[13]
    }
}

/// Clamps a division parameter value into the table's index range `0..=13`.
pub fn division_index(division: i32) -> (r: usize)
    ensures
        r == clamp_division(division as int),
        r < DIVISION_COUNT,
{
    if division < 0 {
        0
    } else if division > 13 {
        13
    } else {
        division as usize
    }
}

/// Length of the note division that `division` selects, in ticks of
/// `1/TICKS_PER_BEAT` beat; the value is clamped into the table first.
pub fn division_ticks(division: i32) -> (r: u32)
    ensures
        r == division_ticks_table()[clamp_division(division as int)],
        r > 0,
{
    let i = division_index(division);
    let r: u32 = match i {
        0 => 192,
        1 => 288,
        2 => 384,
        3 => 96,
        4 => 48,
        5 => 32,
        6 => 24,
        7 => 16,
        8 => 12,
        9 => 8,
        10 => 6,
        11 => 4,
        12 => 3,
        _ => 2,
    };
    r
}

/// The text shown for a division parameter value; any value outside `0..=13`
/// is shown as the last entry, "1/32T".
pub fn division_label(division: i32) -> (r: &'static str)
    ensures
        r@ == division_label_spec(division as int),
{
    match division {
        0 => "2/1",
        1 => "3/1",
        2 => "4/1",
        3 => "1/1",
        4 => "1/2",
        5 => "1/2T",
        6 => "1/4",
        7 => "1/4T",
        8 => "1/8",
        9 => "1/8T",
        10 => "1/16",
        11 => "1/16T",
        12 => "1/32",
        _ => "1/32T",
    }
}

/// Each triplet division (odd index from 5 on) lasts two thirds of the
/// straight division just before it, and each straight division from 1/2 down
/// lasts half of the straight division before it.
pub proof fn lemma_division_ratios()
    ensures
        forall|i: int|
            #![trigger division_ticks_table()[i]]
            5 <= i < 14 && i % 2 == 1 ==> 3 * division_ticks_table()[i] == 2
                * division_ticks_table()[i - 1],
        forall|i: int|
            #![trigger division_ticks_table()[i]]
            6 <= i < 14 && i % 2 == 0 ==> 2 * division_ticks_table()[i]
                == division_ticks_table()[i - 2],
{
    assert forall|i: int| 5 <= i < 14 && i % 2 == 1 implies 3 * #[trigger] division_ticks_table()[i]
        == 2 * division_ticks_table()[i - 1] by {
        assert(i == 5 || i == 7 || i == 9 || i == 11 || i == 13);
    }
    assert forall|i: int| 6 <= i < 14 && i % 2 == 0 implies 2 * #[trigger] division_ticks_table()[i]
        == division_ticks_table()[i - 2] by {
        assert(i == 6 || i == 8 || i == 10 || i == 12);
    }
}

/// The divisions labelled `n/1` last `n` whole notes (four beats each).
pub proof fn lemma_whole_note_divisions()
    ensures
        division_label_spec(0) == "2/1"@,
        division_label_spec(1) == "3/1"@,
        division_label_spec(2) == "4/1"@,
        division_label_spec(3) == "1/1"@,
        division_ticks_table()[0] == 2 * 4 * TICKS_PER_BEAT,
        division_ticks_table()[1] == 3 * 4 * TICKS_PER_BEAT,
        division_ticks_table()[2] == 4 * 4 * TICKS_PER_BEAT,
        division_ticks_table()[3] == 1 * 4 * TICKS_PER_BEAT,
{
}

} // verus!

//! Keyframe-aligned split of sources that can be copied without re-encoding.
//!
//! A packet scan gives the byte offset of every video keyframe. Cuts are made
//! at the furthest keyframe that keeps the current part within the byte
//! budget, which needs the fewest parts.

use crate::pipeline::errors::{Error, TranscodeStage};
use crate::pipeline::process::{JsonSubprocessError, JsonSubprocessOutput};
use crate::text::{
    chars_of, decimal, float_text, is_digit, is_float_text, is_white, lemma_decimal_roundtrip,
    lemma_decimal_value, lemma_first_part, lemma_padded_decimal_value, lemma_split_parts,
    padded_decimal, padded_decimal_of, parse_u64, parse_unsigned, same, split, split_once,
    split_str, string_of, trim_end, trim_end_chars, utf8_text, views,
};
use vstd::prelude::*;
use vstd::string::StringExecFns;

verus! {

/// One keyframe behind the first byte: its time as the scan printed it, and
/// the bytes that come before it.
#[derive(Debug)]
pub struct Keyframe {
    pub pts: String,
    pub offset: u64,
}

/// Video keyframe positions of a file, in the order they were read.
#[derive(Debug)]
pub struct PacketScan {
    pub keyframes: Vec<Keyframe>,
    pub total_bytes: u64,
}

/// The offset of the `i`-th place where a part may end: a keyframe, or the end
/// of the file behind the last one.
pub open spec fn point(offsets: Seq<u64>, total: u64, i: int) -> int {
    if 0 <= i < offsets.len() {
        offsets[i] as int
    } else if i < 0 {
        0
    } else {
        total as int
    }
}

/// Offsets never go back and stay within the file.
pub open spec fn ordered(offsets: Seq<u64>, total: u64) -> bool {
    &&& forall|i: int, j: int| 0 <= i <= j < offsets.len() ==> offsets[i] <= offsets[j]
    &&& forall|i: int| 0 <= i < offsets.len() ==> #[trigger] offsets[i] <= total
}

impl PacketScan {
    pub open spec fn offsets(&self) -> Seq<u64> {
        self.keyframes@.map_values(|k: Keyframe| k.offset)
    }

    /// Keyframes come in the order of their offsets.
    pub open spec fn wf(&self) -> bool {
        ordered(self.offsets(), self.total_bytes)
    }
}

// ---------------------------------------------------------------------------
// Cut planning
// ---------------------------------------------------------------------------
/// Where the `k`-th part begins, for cuts at the given keyframes.
pub open spec fn part_begin(offsets: Seq<u64>, cuts: Seq<int>, k: int) -> int {
    if k <= 0 {
        0
    } else {
        point(offsets, 0, cuts[k - 1])
    }
}

/// Where the `k`-th part ends.
pub open spec fn part_end(offsets: Seq<u64>, total: u64, cuts: Seq<int>, k: int) -> int {
    if k < cuts.len() {
        point(offsets, total, cuts[k])
    } else {
        total as int
    }
}

/// Cuts at keyframes, in order, that leave every part within the budget.
pub open spec fn valid_cuts(offsets: Seq<u64>, total: u64, budget: u64, cuts: Seq<int>) -> bool {
    &&& forall|k: int| 0 <= k < cuts.len() ==> 0 <= #[trigger] cuts[k] < offsets.len()
    &&& forall|j: int, k: int| 0 <= j < k < cuts.len() ==> cuts[j] < cuts[k]
    &&& forall|k: int|
        0 <= k <= cuts.len() ==> #[trigger] part_end(offsets, total, cuts, k) - part_begin(
            offsets,
            cuts,
            k,
        ) <= budget
}

/// No keyframe interval alone exceeds the budget.
pub open spec fn intervals_fit(offsets: Seq<u64>, total: u64, budget: u64) -> bool {
    forall|i: int|
        0 <= i <= offsets.len() ==> #[trigger] point(offsets, total, i) - point(
            offsets,
            total,
            i - 1,
        ) <= budget
}

/// Every cut is as late as it can be: the next place would burst the budget.
pub open spec fn tight(offsets: Seq<u64>, total: u64, budget: u64, cuts: Seq<int>) -> bool {
    forall|k: int|
        0 <= k < cuts.len() ==> #[trigger] point(offsets, total, cuts[k] + 1) - part_begin(
            offsets,
            cuts,
            k,
        ) > budget
}

pub open spec fn cut_indices(cuts: Seq<usize>) -> Seq<int> {
    cuts.map_values(|c: usize| c as int)
}

proof fn lemma_point_monotone(offsets: Seq<u64>, total: u64, i: int, j: int)
    requires
        ordered(offsets, total),
        i <= j,
    ensures
        0 <= point(offsets, total, i) <= point(offsets, total, j) <= total,
{
}

/// Tight cuts are never behind the cuts of another plan.
proof fn lemma_tight_is_ahead(
    offsets: Seq<u64>,
    total: u64,
    budget: u64,
    cuts: Seq<int>,
    other: Seq<int>,
    k: int,
)
    requires
        ordered(offsets, total),
        valid_cuts(offsets, total, budget, other),
        forall|i: int| 0 <= i < cuts.len() ==> 0 <= #[trigger] cuts[i] < offsets.len(),
        tight(offsets, total, budget, cuts),
        0 <= k < cuts.len(),
        k < other.len(),
    ensures
        other[k] <= cuts[k],
    decreases k,
{
    if k > 0 {
        lemma_tight_is_ahead(offsets, total, budget, cuts, other, k - 1);
        assert(0 <= other[k - 1] < offsets.len());
        assert(0 <= cuts[k - 1] < offsets.len());
    }
    assert(part_begin(offsets, other, k) <= part_begin(offsets, cuts, k));
    if other[k] > cuts[k] {
        lemma_point_monotone(offsets, total, cuts[k] + 1, other[k]);
        assert(part_end(offsets, total, other, k) - part_begin(offsets, other, k) <= budget);
        assert(point(offsets, total, cuts[k] + 1) - part_begin(offsets, cuts, k) > budget);
    }
}

/// Furthest-fit planning needs the fewest parts: no other valid plan has fewer
/// cuts than a tight one.
proof fn lemma_tight_is_minimal(
    offsets: Seq<u64>,
    total: u64,
    budget: u64,
    cuts: Seq<int>,
    other: Seq<int>,
)
    requires
        ordered(offsets, total),
        valid_cuts(offsets, total, budget, other),
        forall|i: int| 0 <= i < cuts.len() ==> 0 <= #[trigger] cuts[i] < offsets.len(),
        tight(offsets, total, budget, cuts),
    ensures
        cuts.len() <= other.len(),
{
    if other.len() < cuts.len() {
        let k = other.len() as int;
        if k > 0 {
            lemma_tight_is_ahead(offsets, total, budget, cuts, other, k - 1);
            assert(0 <= other[k - 1] < offsets.len());
            assert(0 <= cuts[k - 1] < offsets.len());
        }
        assert(part_begin(offsets, other, k) <= part_begin(offsets, cuts, k));
        assert(part_end(offsets, total, other, k) - part_begin(offsets, other, k) <= budget);
        lemma_point_monotone(offsets, total, cuts[k] + 1, offsets.len() as int);
        assert(point(offsets, total, cuts[k] + 1) - part_begin(offsets, cuts, k) > budget);
    }
}

/// There is only one plan whose cuts are all as late as they can be.
pub proof fn lemma_furthest_plan_is_unique(
    offsets: Seq<u64>,
    total: u64,
    budget: u64,
    a: Seq<int>,
    b: Seq<int>,
)
    requires
        ordered(offsets, total),
        valid_cuts(offsets, total, budget, a),
        tight(offsets, total, budget, a),
        valid_cuts(offsets, total, budget, b),
        tight(offsets, total, budget, b),
    ensures
        a == b,
{
    lemma_tight_is_minimal(offsets, total, budget, a, b);
    lemma_tight_is_minimal(offsets, total, budget, b, a);
    assert forall|k: int| 0 <= k < a.len() implies a[k] == b[k] by {
        lemma_tight_is_ahead(offsets, total, budget, a, b, k);
        lemma_tight_is_ahead(offsets, total, budget, b, a, k);
    }
    assert(a =~= b);
}

/// A plan exists exactly where no keyframe interval exceeds the budget.
pub proof fn lemma_plan_needs_fitting_intervals(
    offsets: Seq<u64>,
    total: u64,
    budget: u64,
    cuts: Seq<int>,
)
    requires
        ordered(offsets, total),
        valid_cuts(offsets, total, budget, cuts),
    ensures
        intervals_fit(offsets, total, budget),
{
    assert forall|i: int| 0 <= i <= offsets.len() implies #[trigger] point(offsets, total, i)
        - point(offsets, total, i - 1) <= budget by {
        let k = lemma_part_of(offsets, total, budget, cuts, i, cuts.len() as int);
        assert(part_end(offsets, total, cuts, k) - part_begin(offsets, cuts, k) <= budget);
        if k < cuts.len() {
            assert(0 <= cuts[k] < offsets.len());
            lemma_point_monotone(offsets, total, i, cuts[k]);
        } else {
            lemma_point_monotone(offsets, total, i, offsets.len() as int);
        }
        if k > 0 {
            assert(0 <= cuts[k - 1] < offsets.len());
            lemma_point_monotone(offsets, total, cuts[k - 1], i - 1);
        } else {
            lemma_point_monotone(offsets, total, -1, i - 1);
        }
    }
}

/// The part that the interval ending at place `i` lies in.
proof fn lemma_part_of(
    offsets: Seq<u64>,
    total: u64,
    budget: u64,
    cuts: Seq<int>,
    i: int,
    upto: int,
) -> (k: int)
    requires
        valid_cuts(offsets, total, budget, cuts),
        0 <= i <= offsets.len(),
        0 <= upto <= cuts.len(),
        upto < cuts.len() ==> i <= cuts[upto],
    ensures
        0 <= k <= cuts.len(),
        k < cuts.len() ==> i <= cuts[k],
        k > 0 ==> cuts[k - 1] < i,
    decreases upto,
{
    if upto == 0 || cuts[upto - 1] < i {
        upto
    } else {
        lemma_part_of(offsets, total, budget, cuts, i, upto - 1)
    }
}

/// The plan for the places before `i`: valid cuts among them, as late as can
/// be, with the rest since the last cut within the budget.
#[verifier::opaque]
spec fn planned(
    offsets: Seq<u64>,
    total: u64,
    budget: u64,
    cuts: Seq<int>,
    i: int,
    part_start: int,
) -> bool {
    &&& 0 <= i <= offsets.len() + 1
    &&& part_start == part_begin(offsets, cuts, cuts.len() as int)
    &&& forall|k: int| 0 <= k < cuts.len() ==> 0 <= (#[trigger] cuts[k]) < i - 1
    &&& forall|j: int, k: int| 0 <= j < k < cuts.len() ==> cuts[j] < cuts[k]
    &&& forall|k: int|
        0 <= k < cuts.len() ==> #[trigger] part_end(offsets, total, cuts, k) - part_begin(
            offsets,
            cuts,
            k,
        ) <= budget
    &&& tight(offsets, total, budget, cuts)
    &&& forall|k: int|
        0 <= k < i ==> #[trigger] point(offsets, total, k) - point(offsets, total, k - 1) <= budget
    &&& 0 <= point(offsets, total, i - 1) - part_start <= budget
}

proof fn lemma_planned_start(offsets: Seq<u64>, total: u64, budget: u64)
    ensures
        planned(offsets, total, budget, Seq::empty(), 0, 0),
{
    reveal(planned);
}

proof fn lemma_planned_fit(
    offsets: Seq<u64>,
    total: u64,
    budget: u64,
    cuts: Seq<int>,
    i: int,
    part_start: int,
)
    requires
        ordered(offsets, total),
        planned(offsets, total, budget, cuts, i, part_start),
        i <= offsets.len(),
        point(offsets, total, i) - part_start <= budget,
    ensures
        planned(offsets, total, budget, cuts, i + 1, part_start),
{
    reveal(planned);
    lemma_point_monotone(offsets, total, i - 1, i);
}

proof fn lemma_planned_cut(
    offsets: Seq<u64>,
    total: u64,
    budget: u64,
    cuts: Seq<int>,
    i: int,
    part_start: int,
)
    requires
        ordered(offsets, total),
        planned(offsets, total, budget, cuts, i, part_start),
        0 < i <= offsets.len(),
        point(offsets, total, i) - part_start > budget,
        point(offsets, total, i) - point(offsets, total, i - 1) <= budget,
    ensures
        planned(offsets, total, budget, cuts.push(i - 1), i + 1, point(offsets, total, i - 1)),
{
    reveal(planned);
    lemma_point_monotone(offsets, total, i - 1, i);
    let after = cuts.push(i - 1);
    assert forall|k: int| 0 <= k < after.len() implies #[trigger] part_end(
        offsets,
        total,
        after,
        k,
    ) - part_begin(offsets, after, k) <= budget by {
        if k < cuts.len() {
            assert(part_end(offsets, total, cuts, k) - part_begin(offsets, cuts, k) <= budget);
            assert(after[k] == cuts[k]);
        }
    }
    assert forall|k: int| 0 <= k < after.len() implies #[trigger] point(
        offsets,
        total,
        after[k] + 1,
    ) - part_begin(offsets, after, k) > budget by {
        if k < cuts.len() {
            assert(after[k] == cuts[k]);
            assert(point(offsets, total, cuts[k] + 1) - part_begin(offsets, cuts, k) > budget);
        }
    }
}

proof fn lemma_planned_end(
    offsets: Seq<u64>,
    total: u64,
    budget: u64,
    cuts: Seq<int>,
    part_start: int,
)
    requires
        ordered(offsets, total),
        planned(offsets, total, budget, cuts, (offsets.len() + 1) as int, part_start),
    ensures
        intervals_fit(offsets, total, budget),
        valid_cuts(offsets, total, budget, cuts),
        tight(offsets, total, budget, cuts),
        forall|other: Seq<int>| #[trigger]
            valid_cuts(offsets, total, budget, other) ==> cuts.len() <= other.len(),
{
    reveal(planned);
    assert forall|k: int| 0 <= k <= cuts.len() implies #[trigger] part_end(offsets, total, cuts, k)
        - part_begin(offsets, cuts, k) <= budget by {
        if k < cuts.len() {
            assert(part_end(offsets, total, cuts, k) - part_begin(offsets, cuts, k) <= budget);
        }
    }
    assert forall|other: Seq<int>| #[trigger]
        valid_cuts(offsets, total, budget, other) implies cuts.len() <= other.len() by {
        lemma_tight_is_minimal(offsets, total, budget, cuts, other);
    }
}

/// Plan the cuts: the keyframes, by place, at which parts end.
///
/// Nothing is planned exactly where some keyframe interval alone exceeds the
/// budget. A plan keeps every part within the budget, each of its cuts is as
/// late as it can be, and no valid plan has fewer cuts.
pub fn plan_cuts(scan: &PacketScan, budget: u64) -> (r: Option<Vec<usize>>)
    requires
        scan.wf(),
    ensures
        r is Some <==> intervals_fit(scan.offsets(), scan.total_bytes, budget),
        r matches Some(cuts) ==> valid_cuts(
            scan.offsets(),
            scan.total_bytes,
            budget,
            cut_indices(cuts@),
        ) && tight(scan.offsets(), scan.total_bytes, budget, cut_indices(cuts@)) && forall|other: Seq<int>| #[trigger]
            valid_cuts(scan.offsets(), scan.total_bytes, budget, other) ==> cuts@.len()
                <= other.len(),
{
    let ghost offsets = scan.offsets();
    let total: u64 = scan.total_bytes;
    let n: usize = scan.keyframes.len();
    let mut cuts: Vec<usize> = Vec::new();
    let mut part_start: u64 = 0;
    let mut i: usize = 0;
    proof {
        lemma_planned_start(offsets, total, budget);
        assert(cut_indices(cuts@) =~= Seq::empty());
    }
    loop
        invariant
            scan.wf(),
            offsets == scan.offsets(),
            total == scan.total_bytes,
            offsets.len() == n,
            n == scan.keyframes@.len(),
            i <= n,
            planned(offsets, total, budget, cut_indices(cuts@), i as int, part_start as int),
        decreases n + 1 - i,
    {
        let offset: u64 = if i < n {
            scan.keyframes[i].offset
        } else {
            total
        };
        assert(offset == point(offsets, total, i as int));
        assert(part_start <= point(offsets, total, i - 1)) by {
            reveal(planned);
        }
        proof {
            lemma_point_monotone(offsets, total, i - 1, i as int);
        }
        if offset - part_start > budget {
            if i == 0 {
                assert(part_start == 0) by {
                    reveal(planned);
                }
                assert(point(offsets, total, 0) - point(offsets, total, -1) > budget);
                return None;
            }
            let cut_offset: u64 = scan.keyframes[i - 1].offset;
            assert(cut_offset == point(offsets, total, i - 1));
            if cut_offset <= part_start || offset - cut_offset > budget {
                assert(point(offsets, total, i as int) - point(offsets, total, i - 1) > budget);
                return None;
            }
            proof {
                lemma_planned_cut(
                    offsets,
                    total,
                    budget,
                    cut_indices(cuts@),
                    i as int,
                    part_start as int,
                );
                assert(cut_indices(cuts@.push((i - 1) as usize)) =~= cut_indices(cuts@).push(
                    i - 1,
                ));
            }
            cuts.push(i - 1);
            part_start = cut_offset;
        } else {
            proof {
                lemma_planned_fit(
                    offsets,
                    total,
                    budget,
                    cut_indices(cuts@),
                    i as int,
                    part_start as int,
                );
            }
        }
        if i == n {
            proof {
                lemma_planned_end(offsets, total, budget, cut_indices(cuts@), part_start as int);
            }
            return Some(cuts);
        }
        i = i + 1;
    }
}

// ---------------------------------------------------------------------------
// Packet lines
// ---------------------------------------------------------------------------
/// What the fields of one packet line say.
pub struct PacketLine {
    pub video: bool,
    pub keyframe: bool,
    pub pts: Option<Seq<char>>,
    pub size: nat,
}

pub open spec fn blank_packet() -> PacketLine {
    PacketLine { video: false, keyframe: false, pts: None, size: 0 }
}

/// Key and value of a field, parted by its first equals sign.
pub open spec fn field_parts(field: Seq<char>) -> Option<(Seq<char>, Seq<char>)> {
    let at = field.index_of_first('=');
    match at {
        Some(i) => Some((field.take(i), field.skip(i + 1))),
        None => None,
    }
}

/// A later field of the same key takes the place of an earlier one.
pub open spec fn with_field(p: PacketLine, field: Seq<char>) -> PacketLine {
    match field_parts(field) {
        Some((key, value)) => if key == "codec_type"@ {
            PacketLine { video: value == "video"@, ..p }
        } else if key == "pts_time"@ {
            PacketLine {
                pts: if is_float_text(value) {
                    Some(value)
                } else {
                    None
                },
                ..p
            }
        } else if key == "size"@ {
            PacketLine {
                size: match parse_unsigned(value, u64::MAX as nat) {
                    Some(n) => n,
                    None => 0,
                },
                ..p
            }
        } else if key == "flags"@ {
            PacketLine { keyframe: value.len() > 0 && value[0] == 'K', ..p }
        } else {
            p
        },
        None => p,
    }
}

pub open spec fn with_fields(fields: Seq<Seq<char>>) -> PacketLine
    decreases fields.len(),
{
    if fields.len() == 0 {
        blank_packet()
    } else {
        with_field(with_fields(fields.drop_last()), fields.last())
    }
}

/// The packet of one line of text.
pub open spec fn packet_of(line: Seq<char>) -> PacketLine {
    with_fields(split(trim_end(line), '|'))
}

/// Keyframes and bytes after a number of lines; a line that is no text is
/// passed over.
pub struct ScanModel {
    pub keyframes: Seq<(Seq<char>, u64)>,
    pub total: u64,
}

pub open spec fn add_capped(a: u64, b: nat) -> u64 {
    if a + b > u64::MAX {
        u64::MAX
    } else {
        (a + b) as u64
    }
}

pub open spec fn with_packet(m: ScanModel, p: PacketLine) -> ScanModel {
    ScanModel {
        keyframes: match p.pts {
            Some(pts) if p.video && p.keyframe && m.total > 0 => m.keyframes.push((pts, m.total)),
            _ => m.keyframes,
        },
        total: add_capped(m.total, p.size),
    }
}

pub open spec fn with_line(m: ScanModel, line: Seq<u8>) -> ScanModel {
    if vstd::utf8::valid_utf8(line) {
        with_packet(m, packet_of(vstd::utf8::decode_utf8(line)))
    } else {
        m
    }
}

pub open spec fn scan_of(lines: Seq<Seq<u8>>) -> ScanModel
    decreases lines.len(),
{
    if lines.len() == 0 {
        ScanModel { keyframes: Seq::empty(), total: 0 }
    } else {
        with_line(scan_of(lines.drop_last()), lines.last())
    }
}

/// The position of the next line feed at or behind `from`, or the length.
pub open spec fn next_feed(s: Seq<u8>, from: int) -> int
    decreases s.len() - from,
{
    if 0 <= from < s.len() && s[from] != 10 {
        next_feed(s, from + 1)
    } else {
        from
    }
}

/// The pieces of `s[from..]` between line feeds.
pub open spec fn byte_lines_from(s: Seq<u8>, from: int) -> Seq<Seq<u8>>
    decreases s.len() - from,
{
    if 0 <= from <= s.len() {
        let at = next_feed(s, from);
        if from <= at < s.len() {
            seq![s.subrange(from, at)] + byte_lines_from(s, at + 1)
        } else {
            seq![s.skip(from)]
        }
    } else {
        Seq::empty()
    }
}

pub open spec fn byte_lines(s: Seq<u8>) -> Seq<Seq<u8>> {
    byte_lines_from(s, 0)
}

impl PacketScan {
    pub open spec fn model(&self) -> ScanModel {
        ScanModel {
            keyframes: self.keyframes@.map_values(|k: Keyframe| (k.pts@, k.offset)),
            total: self.total_bytes,
        }
    }
}

/// Fields of one packet line.
struct PacketFields {
    video: bool,
    keyframe: bool,
    pts: Option<String>,
    size: u64,
}

impl PacketFields {
    spec fn model(&self) -> PacketLine {
        PacketLine {
            video: self.video,
            keyframe: self.keyframe,
            pts: match self.pts {
                Some(p) => Some(p@),
                None => None,
            },
            size: self.size as nat,
        }
    }
}

fn read_fields(line: &str) -> (p: PacketFields)
    ensures
        p.model() == packet_of(line@),
{
    let v = chars_of(line);
    let trimmed = string_of(&trim_end_chars(&v));
    let fields = split_str(trimmed.as_str(), '|');
    let ghost all = views(fields@);
    let mut p = PacketFields { video: false, keyframe: false, pts: None, size: 0 };
    let mut i: usize = 0;
    while i < fields.len()
        invariant
            i <= fields@.len(),
            all == views(fields@),
            p.model() == with_fields(all.take(i as int)),
        decreases fields@.len() - i,
    {
        let field = fields[i].as_str();
        assert(all.take(i + 1).drop_last() =~= all.take(i as int));
        assert(all.take(i + 1).last() == field@);
        match split_once(field, '=') {
            Some((key, value)) => {
                proof {
                    lemma_first_part(field@, '=', key@, value@);
                }
                let k = key.as_str();
                if same(k, "codec_type") {
                    p.video = same(value.as_str(), "video");
                } else if same(k, "pts_time") {
                    p.pts = if float_text(value.as_str()) {
                        Some(value)
                    } else {
                        None
                    };
                } else if same(k, "size") {
                    p.size = match parse_u64(value.as_str()) {
                        Some(n) => n,
                        None => 0,
                    };
                } else if same(k, "flags") {
                    let w = chars_of(value.as_str());
                    p.keyframe = w.len() > 0 && w[0] == 'K';
                }
            },
            None => {
                proof {
                    field@.index_of_first_ensures('=');
                }
            },
        }
        i = i + 1;
    }
    assert(all.take(i as int) =~= all);
    p
}

/// The packet that a line prints; nothing where the line is no text.
pub open spec fn printed_packet(line: Seq<u8>) -> Option<PacketLine> {
    if vstd::utf8::valid_utf8(line) {
        Some(packet_of(vstd::utf8::decode_utf8(line)))
    } else {
        None
    }
}

/// The bytes of the packets of the first `n` lines together.
pub open spec fn bytes_before(lines: Seq<Seq<u8>>, n: int) -> nat
    decreases n,
{
    if n <= 0 {
        0
    } else {
        bytes_before(lines, n - 1) + (match printed_packet(lines[n - 1]) {
            Some(p) => p.size,
            None => 0,
        })
    }
}

/// A counter that stays at its highest value.
pub open spec fn at_most_counted(n: nat) -> u64 {
    if n <= u64::MAX {
        n as u64
    } else {
        u64::MAX
    }
}

/// The line prints a video keyframe with a readable time, behind other bytes.
pub open spec fn is_cut_line(lines: Seq<Seq<u8>>, i: int) -> bool {
    &&& 0 <= i < lines.len()
    &&& bytes_before(lines, i) > 0
    &&& printed_packet(lines[i]) matches Some(p) && p.video && p.keyframe && p.pts is Some
}

/// `places` are the lines of the keyframes that a scan found: all lines that
/// print one, in order. Each keyframe has the time of its line, and as offset
/// the bytes of all lines before it.
pub open spec fn lists_keyframes(m: ScanModel, lines: Seq<Seq<u8>>, places: Seq<int>) -> bool {
    &&& places.len() == m.keyframes.len()
    &&& forall|j: int, k: int| 0 <= j < k < places.len() ==> places[j] < places[k]
    &&& forall|k: int|
        0 <= k < places.len() ==> is_cut_line(lines, #[trigger] places[k]) && m.keyframes[k].0
            == printed_packet(lines[places[k]])->0.pts->0 && m.keyframes[k].1 == at_most_counted(
            bytes_before(lines, places[k]),
        )
    &&& forall|i: int| #[trigger] is_cut_line(lines, i) ==> places.contains(i)
    &&& m.total == at_most_counted(bytes_before(lines, lines.len() as int))
}

proof fn lemma_bytes_of_prefix(lines: Seq<Seq<u8>>, n: int)
    requires
        0 <= n < lines.len(),
    ensures
        bytes_before(lines.drop_last(), n) == bytes_before(lines, n),
    decreases n,
{
    if n > 0 {
        lemma_bytes_of_prefix(lines, n - 1);
        assert(lines.drop_last()[n - 1] == lines[n - 1]);
    }
}

/// A scan misses no keyframe and makes none up: there is one for every line
/// that prints a video keyframe with a readable time behind other bytes, and
/// its offset is what all lines before it add up to.
pub proof fn lemma_every_keyframe_is_found(lines: Seq<Seq<u8>>)
    ensures
        exists|places: Seq<int>| #[trigger] lists_keyframes(scan_of(lines), lines, places),
    decreases lines.len(),
{
    let m = scan_of(lines);
    if lines.len() == 0 {
        assert(lists_keyframes(m, lines, Seq::empty()));
    } else {
        let rest = lines.drop_last();
        let at = lines.len() - 1;
        lemma_every_keyframe_is_found(rest);
        let before = choose|places: Seq<int>| #[trigger]
            lists_keyframes(scan_of(rest), rest, places);
        assert forall|i: int| 0 <= i <= at implies #[trigger] bytes_before(rest, i) == bytes_before(
            lines,
            i,
        ) by {
            lemma_bytes_of_prefix(lines, i);
        }
        assert forall|i: int| i != at implies is_cut_line(rest, i) == #[trigger] is_cut_line(
            lines,
            i,
        ) by {
            if 0 <= i < at {
                assert(rest[i] == lines[i]);
            }
        }
        let places = if is_cut_line(lines, at) {
            before.push(at)
        } else {
            before
        };
        assert forall|k: int| 0 <= k < before.len() implies before[k] < at by {
            assert(is_cut_line(rest, before[k]));
        }
        assert forall|k: int| 0 <= k < places.len() implies is_cut_line(
            lines,
            #[trigger] places[k],
        ) && m.keyframes[k].0 == printed_packet(lines[places[k]])->0.pts->0 && m.keyframes[k].1
            == at_most_counted(bytes_before(lines, places[k])) by {
            if k < before.len() {
                assert(is_cut_line(rest, before[k]));
                assert(rest[before[k]] == lines[before[k]]);
            }
        }
        assert forall|i: int| #[trigger] is_cut_line(lines, i) implies places.contains(i) by {
            if i == at {
                assert(places.last() == at);
            } else {
                assert(is_cut_line(rest, i));
                let k = choose|k: int| 0 <= k < before.len() && before[k] == i;
                assert(places[k] == i);
            }
        }
        assert(lists_keyframes(m, lines, places));
    }
}

/// Parse compact packet lines (`key=value|key=value`).
///
/// A keyframe counts once bytes came before it and its time reads as a number.
pub fn parse_packets(stdout: &[u8]) -> (scan: PacketScan)
    ensures
        scan.wf(),
        scan.model() == scan_of(byte_lines(stdout@)),
        exists|places: Seq<int>| #[trigger]
            lists_keyframes(scan.model(), byte_lines(stdout@), places),
{
    let mut scan = PacketScan { keyframes: Vec::new(), total_bytes: 0 };
    let mut from: usize = 0;
    let ghost mut seen: Seq<Seq<u8>> = Seq::empty();
    assert(scan.model().keyframes =~= Seq::empty());
    assert(seen + byte_lines(stdout@) =~= byte_lines(stdout@));
    loop
        invariant
            from <= stdout@.len(),
            scan.wf(),
            scan.model() == scan_of(seen),
            byte_lines(stdout@) == seen + byte_lines_from(stdout@, from as int),
        decreases stdout@.len() - from,
    {
        let mut at: usize = from;
        let mut line: Vec<u8> = Vec::new();
        while at < stdout.len() && stdout[at] != 10
            invariant
                from <= at <= stdout@.len(),
                line@ == stdout@.subrange(from as int, at as int),
                next_feed(stdout@, from as int) == next_feed(stdout@, at as int),
            decreases stdout@.len() - at,
        {
            line.push(stdout[at]);
            at = at + 1;
        }
        let ghost before = seen;
        proof {
            seen = seen.push(line@);
            assert(seen.drop_last() =~= before);
        }
        if let Some(text) = utf8_text(&line) {
            let p = read_fields(text.as_str());
            let ghost old_model = scan.model();
            let ghost old_offsets = scan.offsets();
            if p.video && p.keyframe && scan.total_bytes > 0 {
                if let Some(pts) = p.pts {
                    let keyframe = Keyframe { pts, offset: scan.total_bytes };
                    scan.keyframes.push(keyframe);
                    assert(scan.model().keyframes =~= old_model.keyframes.push(
                        (pts@, scan.total_bytes),
                    ));
                    assert(scan.offsets() =~= old_offsets.push(scan.total_bytes));
                }
            }
            scan.total_bytes = scan.total_bytes.saturating_add(p.size);
            assert(scan.model() == with_packet(old_model, packet_of(text@)));
        }
        if at < stdout.len() {
            proof {
                let rest = byte_lines_from(stdout@, at + 1);
                assert(before + (seq![line@] + rest) =~= seen + rest);
            }
            from = at + 1;
        } else {
            proof {
                assert(line@ =~= stdout@.skip(from as int));
                assert(before + seq![line@] =~= seen);
                lemma_every_keyframe_is_found(byte_lines(stdout@));
            }
            return scan;
        }
    }
}

// ---------------------------------------------------------------------------
// The scan
// ---------------------------------------------------------------------------
/// The arguments that make ffprobe list the packets of a file.
pub fn packet_scan_args(input: &str) -> (v: Vec<String>)
    ensures
        views(v@) == seq![
            "-v"@,
            "error"@,
            "-show_entries"@,
            "packet=codec_type,pts_time,size,flags"@,
            "-of"@,
            "compact=p=0"@,
            input@,
        ],
{
    let mut v: Vec<String> = Vec::new();
    v.push("-v".to_owned());
    v.push("error".to_owned());
    v.push("-show_entries".to_owned());
    v.push("packet=codec_type,pts_time,size,flags".to_owned());
    v.push("-of".to_owned());
    v.push("compact=p=0".to_owned());
    v.push(input.to_owned());
    assert(views(v@) =~= seq![
        "-v"@,
        "error"@,
        "-show_entries"@,
        "packet=codec_type,pts_time,size,flags"@,
        "-of"@,
        "compact=p=0"@,
        input@,
    ]);
    v
}

/// What a scan that could not be run is answered with.
pub open spec fn scan_failure(failure: JsonSubprocessError, timeout_ms: u64, e: Error) -> bool {
    match failure {
        JsonSubprocessError::Io(error) => e == Error::Io(error),
        JsonSubprocessError::Timeout => e matches Error::Timeout { operation, duration_ms }
            && operation@ == "ffprobe packet scan"@ && duration_ms == timeout_ms,
        JsonSubprocessError::OutputLimit { stderr_tail } => e matches Error::TranscodeFailed {
            stage,
            exit_code: None,
            stderr_tail: text,
        } && stage == TranscodeStage::Split && text@ == "packet scan output exceeded limit: "@
            + stderr_tail@,
    }
}

/// Read what the packet scan brought.
pub fn scan_packets(
    outcome: Result<JsonSubprocessOutput, JsonSubprocessError>,
    timeout_ms: u64,
) -> (r: Result<PacketScan, Error>)
    ensures
        r is Ok <==> outcome is Ok && outcome->Ok_0.success,
        r matches Ok(scan) ==> scan.wf() && scan.model() == scan_of(
            byte_lines(outcome->Ok_0.stdout@),
        ),
        r matches Err(e) ==> match outcome {
            Ok(output) => e == (Error::TranscodeFailed {
                stage: TranscodeStage::Split,
                exit_code: output.exit_code,
                stderr_tail: output.stderr_tail,
            }),
            Err(failure) => scan_failure(failure, timeout_ms, e),
        },
{
    match outcome {
        Ok(output) => {
            if output.success {
                Ok(parse_packets(output.stdout.as_slice()))
            } else {
                Err(
                    Error::TranscodeFailed {
                        stage: TranscodeStage::Split,
                        exit_code: output.exit_code,
                        stderr_tail: output.stderr_tail,
                    },
                )
            }
        },
        Err(JsonSubprocessError::Io(error)) => Err(Error::Io(error)),
        Err(JsonSubprocessError::Timeout) => Err(
            Error::Timeout { operation: "ffprobe packet scan", duration_ms: timeout_ms },
        ),
        Err(JsonSubprocessError::OutputLimit { stderr_tail }) => {
            let mut text = "packet scan output exceeded limit: ".to_owned();
            text.append(stderr_tail.as_str());
            Err(
                Error::TranscodeFailed {
                    stage: TranscodeStage::Split,
                    exit_code: None,
                    stderr_tail: text,
                },
            )
        },
    }
}

// ---------------------------------------------------------------------------
// Output files
// ---------------------------------------------------------------------------
/// The file name of one copied part: the stem, `_copy`, the number with three
/// digits, `.mp4`.
pub open spec fn part_name(stem: Seq<char>, index: nat) -> Seq<char> {
    stem + "_copy"@ + padded_decimal(index, 3) + ".mp4"@
}

pub fn part_file_name(stem: &str, index: usize) -> (s: String)
    ensures
        s@ == part_name(stem@, index as nat),
{
    let mut s = stem.to_owned();
    s.append("_copy");
    s.append(padded_decimal_of(index as u64, 3).as_str());
    s.append(".mp4");
    s
}

/// The pattern that the segment muxer fills in.
pub fn part_pattern(stem: &str) -> (s: String)
    ensures
        s@ == stem@ + "_copy"@ + "%03d.mp4"@,
{
    let mut s = stem.to_owned();
    s.append("_copy");
    s.append("%03d.mp4");
    s
}

/// What to do with a planned stream-copy split.
pub enum SplitChoice {
    /// Some keyframe interval exceeds the budget.
    NoPlan,
    /// The plan has more parts than are allowed.
    TooManyParts,
    /// Cut at these keyframes.
    Cut { cuts: Vec<usize> },
}

/// Decide on a stream-copy split into at most `max_parts` parts.
pub fn choose_split(scan: &PacketScan, budget: u64, max_parts: u32) -> (choice: SplitChoice)
    requires
        scan.wf(),
    ensures
        choice is NoPlan <==> !intervals_fit(scan.offsets(), scan.total_bytes, budget),
        choice matches SplitChoice::Cut { cuts } ==> cuts@.len() < max_parts && valid_cuts(
            scan.offsets(),
            scan.total_bytes,
            budget,
            cut_indices(cuts@),
        ) && tight(scan.offsets(), scan.total_bytes, budget, cut_indices(cuts@)) && forall|
            other: Seq<int>,
        | #[trigger]
            valid_cuts(scan.offsets(), scan.total_bytes, budget, other) ==> cuts@.len()
                <= other.len(),
        choice is TooManyParts ==> forall|other: Seq<int>| #[trigger]
            valid_cuts(scan.offsets(), scan.total_bytes, budget, other) ==> other.len()
                >= max_parts,
{
    match plan_cuts(scan, budget) {
        None => SplitChoice::NoPlan,
        Some(cuts) => {
            if cuts.len() >= max_parts as usize {
                SplitChoice::TooManyParts
            } else {
                SplitChoice::Cut { cuts }
            }
        },
    }
}

/// Whether every copied part can be used: not empty and within the limit.
pub fn parts_usable(sizes: &Vec<u64>, max_upload_bytes: u64) -> (r: bool)
    ensures
        r == forall|i: int| 0 <= i < sizes@.len() ==> 0 < #[trigger] sizes@[i] <= max_upload_bytes,
{
    let mut i: usize = 0;
    while i < sizes.len()
        invariant
            i <= sizes@.len(),
            forall|j: int| 0 <= j < i ==> 0 < #[trigger] sizes@[j] <= max_upload_bytes,
        decreases sizes@.len() - i,
    {
        if sizes[i] == 0 || sizes[i] > max_upload_bytes {
            return false;
        }
        i = i + 1;
    }
    true
}

// ---------------------------------------------------------------------------
// What a scan reads
// ---------------------------------------------------------------------------
/// Pieces with a line feed between each two.
pub open spec fn fed_lines(pieces: Seq<Seq<u8>>) -> Seq<u8>
    decreases pieces.len(),
{
    if pieces.len() == 0 {
        Seq::empty()
    } else if pieces.len() == 1 {
        pieces[0]
    } else {
        pieces[0] + seq![10u8] + fed_lines(pieces.skip(1))
    }
}

proof fn lemma_next_feed(s: Seq<u8>, from: int)
    requires
        0 <= from <= s.len(),
    ensures
        from <= next_feed(s, from) <= s.len(),
        forall|j: int| from <= j < next_feed(s, from) ==> s[j] != 10,
        next_feed(s, from) < s.len() ==> s[next_feed(s, from)] == 10,
    decreases s.len() - from,
{
    if from < s.len() && s[from] != 10 {
        lemma_next_feed(s, from + 1);
    }
}

proof fn lemma_lines_from(s: Seq<u8>, from: int)
    requires
        0 <= from <= s.len(),
    ensures
        byte_lines_from(s, from).len() > 0,
        fed_lines(byte_lines_from(s, from)) == s.skip(from),
        forall|i: int|
            0 <= i < byte_lines_from(s, from).len() ==> !(#[trigger] byte_lines_from(
                s,
                from,
            )[i]).contains(10u8),
    decreases s.len() - from,
{
    lemma_next_feed(s, from);
    let at = next_feed(s, from);
    let all = byte_lines_from(s, from);
    if at < s.len() {
        lemma_lines_from(s, at + 1);
        let rest = byte_lines_from(s, at + 1);
        assert(all.skip(1) =~= rest);
        assert(all[0] == s.subrange(from, at));
        assert(s.skip(from) =~= s.subrange(from, at) + seq![10u8] + s.skip(at + 1));
        assert forall|i: int| 0 <= i < all.len() implies !(#[trigger] all[i]).contains(10u8) by {
            if i > 0 {
                assert(all[i] == rest[i - 1]);
            }
        }
    } else {
        assert(all =~= seq![s.skip(from)]);
    }
}

/// The lines of an output are its stretches between line feeds: none holds a
/// line feed, and together they are the output.
pub proof fn lemma_lines_are_the_output(output: Seq<u8>)
    ensures
        fed_lines(byte_lines(output)) == output,
        forall|i: int|
            0 <= i < byte_lines(output).len() ==> !(#[trigger] byte_lines(output)[i]).contains(
                10u8,
            ),
{
    lemma_lines_from(output, 0);
    assert(output.skip(0) =~= output);
}

/// A field as it is printed.
pub open spec fn printed_field(key: Seq<char>, value: Seq<char>) -> Seq<char> {
    key + seq!['='] + value
}

proof fn lemma_printed_field(key: Seq<char>, value: Seq<char>)
    requires
        !key.contains('='),
    ensures
        field_parts(printed_field(key, value)) == Some((key, value)),
{
    lemma_first_part(printed_field(key, value), '=', key, value);
}

/// A packet that is printed reads back: its kind, its time where that is a
/// number, its size, and whether its flags begin with the mark of a keyframe.
pub proof fn lemma_printed_packet_reads_back(
    kind: Seq<char>,
    time: Seq<char>,
    size: u64,
    flags: Seq<char>,
)
    requires
        !kind.contains('|'),
        !time.contains('|'),
        !flags.contains('|'),
        flags.len() > 0,
        !is_white(flags.last()),
    ensures
        ({
            let line = printed_field("codec_type"@, kind) + seq!['|'] + (printed_field(
                "pts_time"@,
                time,
            ) + seq!['|'] + (printed_field("size"@, decimal(size as nat)) + seq!['|']
                + printed_field("flags"@, flags)));
            let p = packet_of(line);
            &&& p.video == (kind == seq!['v', 'i', 'd', 'e', 'o'])
            &&& p.pts == (if is_float_text(time) {
                Some(time)
            } else {
                None
            })
            &&& p.size == size
            &&& p.keyframe == (flags[0] == 'K')
        }),
{
    reveal_strlit("codec_type");
    reveal_strlit("pts_time");
    reveal_strlit("size");
    reveal_strlit("flags");
    reveal_strlit("video");
    assert("video"@ =~= seq!['v', 'i', 'd', 'e', 'o']);
    assert("codec_type"@.len() == 10 && "pts_time"@.len() == 8 && "size"@.len() == 4
        && "flags"@.len() == 5);
    let digits = decimal(size as nat);
    lemma_decimal_value(size as nat);
    lemma_decimal_roundtrip(size as nat, u64::MAX as nat);
    let f1 = printed_field("codec_type"@, kind);
    let f2 = printed_field("pts_time"@, time);
    let f3 = printed_field("size"@, digits);
    let f4 = printed_field("flags"@, flags);
    let line = f1 + seq!['|'] + (f2 + seq!['|'] + (f3 + seq!['|'] + f4));
    assert forall|i: int| 0 <= i < f1.len() implies f1[i] != '|' by {
        if i > 10 {
            assert(kind[i - 11] == f1[i]);
        }
    }
    assert forall|i: int| 0 <= i < f2.len() implies f2[i] != '|' by {
        if i > 8 {
            assert(time[i - 9] == f2[i]);
        }
    }
    assert forall|i: int| 0 <= i < f3.len() implies f3[i] != '|' by {
        if i > 4 {
            assert(is_digit(digits[i - 5]));
        }
    }
    assert forall|i: int| 0 <= i < f4.len() implies f4[i] != '|' by {
        if i > 5 {
            assert(flags[i - 6] == f4[i]);
        }
    }
    lemma_split_parts(f1, '|', f2 + seq!['|'] + (f3 + seq!['|'] + f4));
    lemma_split_parts(f2, '|', f3 + seq!['|'] + f4);
    lemma_split_parts(f3, '|', f4);
    lemma_split_parts(f4, '|', f4);
    assert(line.last() == flags.last());
    assert(trim_end(line) == line);
    let fields = split(line, '|');
    assert(fields =~= seq![f1, f2, f3, f4]);
    lemma_printed_field("codec_type"@, kind);
    lemma_printed_field("pts_time"@, time);
    lemma_printed_field("size"@, digits);
    lemma_printed_field("flags"@, flags);
    reveal_with_fuel(with_fields, 5);
    assert(fields.drop_last() =~= seq![f1, f2, f3]);
    assert(fields.drop_last().drop_last() =~= seq![f1, f2]);
    assert(fields.drop_last().drop_last().drop_last() =~= seq![f1]);
    assert(fields.drop_last().drop_last().drop_last().drop_last() =~= Seq::empty());
}

// ---------------------------------------------------------------------------
// Cuts in bytes
// ---------------------------------------------------------------------------
/// Cuts leave no part over the budget: from the start to the first cut, from
/// each cut to the next, and from the last to the end.
pub proof fn lemma_cuts_leave_parts_within_budget(
    offsets: Seq<u64>,
    total: u64,
    budget: u64,
    cuts: Seq<int>,
)
    requires
        valid_cuts(offsets, total, budget, cuts),
    ensures
        cuts.len() == 0 ==> total <= budget,
        cuts.len() > 0 ==> offsets[cuts[0]] <= budget && total - offsets[cuts.last()] <= budget,
        forall|k: int|
            0 < k < cuts.len() ==> offsets[#[trigger] cuts[k]] - offsets[cuts[k - 1]] <= budget,
        forall|k: int| 0 < k < cuts.len() ==> #[trigger] cuts[k] > cuts[k - 1],
{
    assert(part_end(offsets, total, cuts, 0) - part_begin(offsets, cuts, 0) <= budget);
    if cuts.len() > 0 {
        assert(0 <= cuts[0] < offsets.len());
        let n = cuts.len() as int;
        assert(0 <= cuts[n - 1] < offsets.len());
        assert(part_end(offsets, total, cuts, n) - part_begin(offsets, cuts, n) <= budget);
    }
    assert forall|k: int| 0 < k < cuts.len() implies offsets[#[trigger] cuts[k]] - offsets[cuts[k
        - 1]] <= budget by {
        assert(0 <= cuts[k] < offsets.len());
        assert(0 <= cuts[k - 1] < offsets.len());
        assert(part_end(offsets, total, cuts, k) - part_begin(offsets, cuts, k) <= budget);
    }
}

/// Each cut is as late as it can be: with the next keyframe, or the end, in the
/// part it would be over the budget.
pub proof fn lemma_cuts_are_as_late_as_they_can_be(
    offsets: Seq<u64>,
    total: u64,
    budget: u64,
    cuts: Seq<int>,
    k: int,
)
    requires
        valid_cuts(offsets, total, budget, cuts),
        tight(offsets, total, budget, cuts),
        0 <= k < cuts.len(),
    ensures
        ({
            let begin = if k == 0 {
                0int
            } else {
                offsets[cuts[k - 1]] as int
            };
            let next = if cuts[k] + 1 < offsets.len() {
                offsets[cuts[k] + 1] as int
            } else {
                total as int
            };
            next - begin > budget
        }),
{
    assert(0 <= cuts[k] < offsets.len());
    if k > 0 {
        assert(0 <= cuts[k - 1] < offsets.len());
    }
    assert(point(offsets, total, cuts[k] + 1) - part_begin(offsets, cuts, k) > budget);
}

/// There is a plan only where the bytes from each keyframe to the next fit, and
/// those before the first and behind the last.
pub proof fn lemma_intervals_in_bytes(offsets: Seq<u64>, total: u64, budget: u64)
    ensures
        intervals_fit(offsets, total, budget) ==> (forall|i: int|
            0 < i < offsets.len() ==> #[trigger] offsets[i] - offsets[i - 1] <= budget),
        intervals_fit(offsets, total, budget) && offsets.len() > 0 ==> offsets[0] <= budget && total
            - offsets.last() <= budget,
        intervals_fit(offsets, total, budget) && offsets.len() == 0 ==> total <= budget,
        offsets.len() == 0 && total <= budget ==> intervals_fit(offsets, total, budget),
{
    if intervals_fit(offsets, total, budget) {
        assert(point(offsets, total, 0) - point(offsets, total, -1) <= budget);
        let n = offsets.len() as int;
        assert(point(offsets, total, n) - point(offsets, total, n - 1) <= budget);
        assert forall|i: int| 0 < i < offsets.len() implies #[trigger] offsets[i] - offsets[i - 1]
            <= budget by {
            assert(point(offsets, total, i) - point(offsets, total, i - 1) <= budget);
        }
    }
}

/// Copied parts of one file have different names, all of MP4 files.
pub proof fn lemma_copied_parts_have_distinct_names(stem: Seq<char>, a: nat, b: nat)
    ensures
        part_name(stem, a) == part_name(stem, b) <==> a == b,
        (stem + "_copy"@).is_prefix_of(part_name(stem, a)),
        ".mp4"@.is_suffix_of(part_name(stem, a)),
        part_name(stem, a).len() >= stem.len() + 12,
{
    reveal_strlit("_copy");
    reveal_strlit(".mp4");
    lemma_padded_decimal_value(a, 3);
    lemma_padded_decimal_value(b, 3);
    let x = part_name(stem, a);
    let y = part_name(stem, b);
    let n = stem.len() as int + 5;
    assert(x.take(n) =~= stem + "_copy"@);
    assert(x.skip(x.len() - 4) =~= ".mp4"@);
    if x == y {
        assert(x.subrange(n, x.len() - 4) =~= padded_decimal(a, 3));
        assert(y.subrange(n, x.len() - 4) =~= padded_decimal(b, 3));
    }
}

/// A scan that ran out of time, and one that printed too much, fail as such.
pub proof fn lemma_failed_scans_tell_why(
    failure: JsonSubprocessError,
    timeout_ms: u64,
    e: Error,
)
    requires
        scan_failure(failure, timeout_ms, e),
    ensures
        failure is Timeout <==> e is Timeout,
        e matches Error::Timeout { operation, duration_ms } ==> operation@
            == "ffprobe packet scan"@ && duration_ms == timeout_ms,
        failure is Io <==> e is Io,
        failure matches JsonSubprocessError::Io(cause) ==> e == Error::Io(cause),
        failure matches JsonSubprocessError::OutputLimit { stderr_tail } ==> (
        e matches Error::TranscodeFailed { stage, exit_code, stderr_tail: text } && stage
            == TranscodeStage::Split && exit_code is None && text@
            == "packet scan output exceeded limit: "@ + stderr_tail@),
{
}

} // verus!

//! The pattern library: a fixed set of named, weighted cell templates, each
//! padded with a one-cell dead border at load time, and the weighted-random
//! pick over them.

use crate::rng::{
    new_weighted_index, sample_weighted_index, weighted_index_len, weights_total, WeightedU32Index,
};
use crate::types::EngineError;
use vstd::prelude::*;

verus! {

/// The rows of a cell matrix, each as a sequence of cell codes.
pub open spec fn rows_view(cells: Vec<Vec<u8>>) -> Seq<Seq<u8>> {
    Seq::new(cells@.len(), |i: int| cells@[i]@)
}

/// A well-formed template matrix: at least one row, all rows of one positive
/// length, and every entry either the Dead or the Alive code. Patterns are
/// authored from Dead and Alive cells only, never from vanishing steps.
pub open spec fn matrix_wf(cells: Seq<Seq<u8>>) -> bool {
    &&& cells.len() >= 1
    &&& cells[0].len() >= 1
    &&& forall|r: int| 0 <= r < cells.len() ==> (#[trigger] cells[r]).len() == cells[0].len()
    &&& forall|r: int, c: int|
        0 <= r < cells.len() && 0 <= c < cells[0].len() ==> #[trigger] cells[r][c] <= 1
}

/// A matrix whose outermost ring is entirely Dead.
pub open spec fn matrix_bordered(cells: Seq<Seq<u8>>) -> bool {
    forall|r: int, c: int|
        0 <= r < cells.len() && 0 <= c < cells[r].len() && (r == 0 || r == cells.len() - 1 || c == 0
            || c == cells[r].len() - 1) ==> #[trigger] cells[r][c] == 0
}

/// An immutable named template: a display name, a positive relative selection
/// weight, and a rectangular matrix of cell codes.
#[derive(Debug)]
pub struct Pattern {
    pub name: String,
    pub weight: u32,
    pub cells: Vec<Vec<u8>>,
}

/// A valid pattern: positive weight and a well-formed matrix.
pub open spec fn pattern_wf(p: Pattern) -> bool {
    &&& p.weight >= 1
    &&& matrix_wf(rows_view(p.cells))
}

impl Pattern {
    /// The number of columns, read off the first row.
    pub fn width(&self) -> (w: usize)
        requires
            self.cells@.len() >= 1,
        ensures
            w == rows_view(self.cells)[0].len(),
    {
        self.cells[0].len()
    }

    /// The number of rows.
    pub fn height(&self) -> (h: usize)
        ensures
            h == rows_view(self.cells).len(),
    {
        self.cells.len()
    }

    /// Builds a pattern from a prototype matrix, rejecting a malformed one —
    /// no rows, empty rows, inconsistent row lengths, an entry beyond the
    /// Alive code — or a zero weight as a configuration error.
    pub fn new(name: &str, weight: u32, pattern_proto: Vec<Vec<u8>>) -> (r: Result<
        Pattern,
        EngineError,
    >)
        ensures
            r is Ok <==> (weight >= 1 && matrix_wf(rows_view(pattern_proto))),
            r matches Ok(p) ==> p.name@ == name@ && p.weight == weight && p.cells@
                == pattern_proto@,
            r matches Err(e) ==> e == EngineError::Configuration,
    {
        if weight == 0 {
            return Err(EngineError::Configuration);
        }
        if pattern_proto.len() == 0 {
            return Err(EngineError::Configuration);
        }
        let width0 = pattern_proto[0].len();
        if width0 == 0 {
            return Err(EngineError::Configuration);
        }
        for r in 0..pattern_proto.len()
            invariant
                width0 == rows_view(pattern_proto)[0].len(),
                forall|i: int|
                    0 <= i < r ==> (#[trigger] rows_view(pattern_proto)[i]).len() == width0,
                forall|i: int, j: int|
                    0 <= i < r && 0 <= j < width0 ==> #[trigger] rows_view(pattern_proto)[i][j]
                        <= 1,
        {
            let row = &pattern_proto[r];
            if row.len() != width0 {
                assert(rows_view(pattern_proto)[r as int].len() != width0);
                return Err(EngineError::Configuration);
            }
            for c in 0..row.len()
                invariant
                    0 <= r < pattern_proto@.len(),
                    row@ == rows_view(pattern_proto)[r as int],
                    row@.len() == width0,
                    width0 == rows_view(pattern_proto)[0].len(),
                    forall|j: int| 0 <= j < c ==> #[trigger] row@[j] <= 1,
            {
                if row[c] > 1 {
                    assert(rows_view(pattern_proto)[r as int][c as int] > 1);
                    return Err(EngineError::Configuration);
                }
            }
            assert forall|j: int| 0 <= j < width0 implies #[trigger] rows_view(
                pattern_proto,
            )[r as int][j] <= 1 by {
                assert(rows_view(pattern_proto)[r as int] == row@);
            }
        }
        Ok(Pattern { name: name.to_string(), weight, cells: pattern_proto })
    }
}

/// Surrounds a pattern's matrix with a one-cell ring of Dead cells, so that a
/// stamped pattern carves a dead moat around itself and two placements in
/// touching lattice cells cannot feed each other's neighbor counts.
pub(crate) fn add_safety_border(pattern: &Pattern) -> (out: Vec<Vec<u8>>)
    requires
        matrix_wf(rows_view(pattern.cells)),
        rows_view(pattern.cells).len() + 2 <= usize::MAX,
        rows_view(pattern.cells)[0].len() + 2 <= usize::MAX,
    ensures
        rows_view(out).len() == rows_view(pattern.cells).len() + 2,
        forall|i: int|
            0 <= i < rows_view(out).len() ==> (#[trigger] rows_view(out)[i]).len() == rows_view(
                pattern.cells,
            )[0].len() + 2,
        forall|i: int, j: int|
            0 <= i < rows_view(out).len() && 0 <= j < rows_view(pattern.cells)[0].len() + 2
                ==> #[trigger] rows_view(out)[i][j] == (if 1 <= i <= rows_view(pattern.cells).len()
                && 1 <= j <= rows_view(pattern.cells)[0].len() {
                rows_view(pattern.cells)[i - 1][j - 1]
            } else {
                0
            }),
{
    let ghost src = rows_view(pattern.cells);
    let height = pattern.height();
    let width = pattern.width();
    let mut out: Vec<Vec<u8>> = Vec::new();
    out.push(zero_row(width + 2));
    for i in 0..height
        invariant
            src == rows_view(pattern.cells),
            matrix_wf(src),
            height == src.len(),
            width == src[0].len(),
            width + 2 <= usize::MAX,
            out@.len() == i + 1,
            forall|k: int| 0 <= k <= i ==> (#[trigger] out@[k]@).len() == width + 2,
            forall|k: int, j: int|
                0 <= k <= i && 0 <= j < width + 2 ==> #[trigger] out@[k]@[j] == (if 1 <= k && 1 <= j
                    <= width {
                    src[k - 1][j - 1]
                } else {
                    0
                }),
    {
        let mut row: Vec<u8> = Vec::new();
        row.push(0);
        let src_row = &pattern.cells[i];
        for j in 0..width
            invariant
                src == rows_view(pattern.cells),
                matrix_wf(src),
                0 <= i < src.len(),
                width == src[0].len(),
                width + 2 <= usize::MAX,
                src_row@ == src[i as int],
                row@.len() == j + 1,
                row@[0] == 0,
                forall|t: int| 1 <= t <= j ==> #[trigger] row@[t] == src[i as int][t - 1],
        {
            row.push(src_row[j]);
        }
        row.push(0);
        out.push(row);
    }
    out.push(zero_row(width + 2));
    proof {
        assert forall|i: int| 0 <= i < rows_view(out).len() implies (#[trigger] rows_view(
            out,
        )[i]).len() == src[0].len() + 2 by {
            assert(rows_view(out)[i] == out@[i]@);
        }
        assert forall|i: int, j: int|
            0 <= i < rows_view(out).len() && 0 <= j < src[0].len() + 2 implies #[trigger] rows_view(
            out,
        )[i][j] == (if 1 <= i <= src.len() && 1 <= j <= src[0].len() {
            src[i - 1][j - 1]
        } else {
            0
        }) by {
            assert(rows_view(out)[i] == out@[i]@);
        }
    }
    out
}

/// A row of Dead cells of the given length.
fn zero_row(n: usize) -> (row: Vec<u8>)
    ensures
        row@.len() == n,
        forall|j: int| 0 <= j < n ==> #[trigger] row@[j] == 0,
{
    let mut row: Vec<u8> = Vec::new();
    for j in 0..n
        invariant
            row@.len() == j,
            forall|t: int| 0 <= t < j ==> #[trigger] row@[t] == 0,
    {
        row.push(0);
    }
    row
}

/// One weights-vector sum step: appending a weight adds it to the total.
pub proof fn lemma_weights_total_push(s: Seq<u32>, w: u32)
    ensures
        weights_total(s.push(w)) == weights_total(s) + w,
{
    assert(s.push(w).drop_last() =~= s);
}

/// What holds of every pattern of a loaded library: each is valid, already
/// carries its one-cell dead ring, and is at least three cells wide and high
/// (an authored cell plus the ring).
pub open spec fn library_patterns_wf(patterns: Seq<Pattern>) -> bool {
    &&& patterns.len() >= 1
    &&& forall|i: int| 0 <= i < patterns.len() ==> pattern_wf(#[trigger] patterns[i])
    &&& forall|i: int|
        0 <= i < patterns.len() ==> matrix_bordered(rows_view((#[trigger] patterns[i]).cells))
    &&& forall|i: int|
        0 <= i < patterns.len() ==> rows_view((#[trigger] patterns[i]).cells).len() >= 3
            && rows_view(patterns[i].cells)[0].len() >= 3
}

/// A matrix surrounded by the one-cell ring of Dead cells.
pub open spec fn spec_padded(m: Seq<Seq<u8>>) -> Seq<Seq<u8>> {
    Seq::new(
        m.len() + 2,
        |i: int|
            Seq::new(
                m[0].len() + 2,
                |j: int|
                    if 1 <= i <= m.len() && 1 <= j <= m[0].len() {
                        m[i - 1][j - 1]
                    } else {
                        0u8
                    },
            ),
    )
}

/// The authored blinker template, as the library defines it before padding.
pub open spec fn authored_blinker() -> Seq<Seq<u8>> {
    seq![
        seq![0u8, 0, 0],
        seq![1u8, 1, 1],
        seq![0u8, 0, 0],
    ]
}

/// The authored octagon template, as the library defines it before padding.
pub open spec fn authored_octagon() -> Seq<Seq<u8>> {
    seq![
        seq![0u8, 0, 0, 1, 1, 0, 0, 0],
        seq![0u8, 0, 1, 0, 0, 1, 0, 0],
        seq![0u8, 1, 0, 0, 0, 0, 1, 0],
        seq![1u8, 0, 0, 0, 0, 0, 0, 1],
        seq![1u8, 0, 0, 0, 0, 0, 0, 1],
        seq![0u8, 1, 0, 0, 0, 0, 1, 0],
        seq![0u8, 0, 1, 0, 0, 1, 0, 0],
        seq![0u8, 0, 0, 1, 1, 0, 0, 0],
    ]
}

/// The authored beacon template, as the library defines it before padding.
pub open spec fn authored_beacon() -> Seq<Seq<u8>> {
    seq![
        seq![1u8, 1, 0, 0],
        seq![1u8, 0, 0, 0],
        seq![0u8, 0, 0, 1],
        seq![0u8, 0, 1, 1],
    ]
}

/// The authored pulsar template, as the library defines it before padding.
pub open spec fn authored_pulsar() -> Seq<Seq<u8>> {
    seq![
        seq![0u8, 0, 1, 1, 1, 0, 0, 0, 1, 1, 1, 0, 0],
        seq![0u8, 0, 0, 0, 0, 0, 0, 0, 0, 0, 0, 0, 0],
        seq![1u8, 0, 0, 0, 0, 1, 0, 1, 0, 0, 0, 0, 1],
        seq![1u8, 0, 0, 0, 0, 1, 0, 1, 0, 0, 0, 0, 1],
        seq![1u8, 0, 0, 0, 0, 1, 0, 1, 0, 0, 0, 0, 1],
        seq![0u8, 0, 1, 1, 1, 0, 0, 0, 1, 1, 1, 0, 0],
        seq![0u8, 0, 0, 0, 0, 0, 0, 0, 0, 0, 0, 0, 0],
        seq![0u8, 0, 1, 1, 1, 0, 0, 0, 1, 1, 1, 0, 0],
        seq![1u8, 0, 0, 0, 0, 1, 0, 1, 0, 0, 0, 0, 1],
        seq![1u8, 0, 0, 0, 0, 1, 0, 1, 0, 0, 0, 0, 1],
        seq![1u8, 0, 0, 0, 0, 1, 0, 1, 0, 0, 0, 0, 1],
        seq![0u8, 0, 0, 0, 0, 0, 0, 0, 0, 0, 0, 0, 0],
        seq![0u8, 0, 1, 1, 1, 0, 0, 0, 1, 1, 1, 0, 0],
    ]
}

/// The authored pentadecathlon template, as the library defines it before padding.
pub open spec fn authored_pentadecathlon() -> Seq<Seq<u8>> {
    seq![
        seq![0u8, 0, 1, 0, 0, 0, 0, 1, 0, 0],
        seq![1u8, 1, 0, 1, 1, 1, 1, 0, 1, 1],
        seq![0u8, 0, 1, 0, 0, 0, 0, 1, 0, 0],
    ]
}

/// The authored unix template, as the library defines it before padding.
pub open spec fn authored_unix() -> Seq<Seq<u8>> {
    seq![
        seq![0u8, 1, 1, 0, 0, 0, 0, 0],
        seq![0u8, 1, 1, 0, 0, 0, 0, 0],
        seq![0u8, 0, 0, 0, 0, 0, 0, 0],
        seq![0u8, 1, 0, 0, 0, 0, 0, 0],
        seq![1u8, 0, 1, 0, 0, 0, 0, 0],
        seq![1u8, 0, 0, 1, 0, 0, 1, 1],
        seq![0u8, 0, 0, 0, 1, 0, 1, 1],
        seq![0u8, 0, 1, 1, 0, 0, 0, 0],
    ]
}

/// The authored clock template, as the library defines it before padding.
pub open spec fn authored_clock() -> Seq<Seq<u8>> {
    seq![
        seq![0u8, 0, 1, 0],
        seq![1u8, 0, 1, 0],
        seq![0u8, 1, 0, 1],
        seq![0u8, 1, 0, 0],
    ]
}

/// The authored bipole template, as the library defines it before padding.
pub open spec fn authored_bipole() -> Seq<Seq<u8>> {
    seq![
        seq![1u8, 1, 0, 0, 0],
        seq![1u8, 0, 1, 0, 0],
        seq![0u8, 0, 0, 0, 0],
        seq![0u8, 0, 1, 0, 1],
        seq![0u8, 0, 0, 1, 1],
    ]
}

/// The authored queen template, as the library defines it before padding.
pub open spec fn authored_queen() -> Seq<Seq<u8>> {
    seq![
        seq![0u8, 0, 0, 0, 0, 0, 0, 0, 0, 1, 0, 0, 0, 0, 0, 0, 0, 0, 0, 0, 0, 0],
        seq![0u8, 0, 0, 0, 0, 0, 0, 1, 0, 1, 0, 0, 0, 0, 0, 0, 0, 0, 0, 0, 0, 0],
        seq![0u8, 0, 0, 0, 0, 0, 1, 0, 1, 0, 0, 0, 0, 0, 0, 0, 0, 0, 0, 0, 0, 0],
        seq![1u8, 1, 0, 0, 0, 1, 0, 0, 1, 0, 0, 0, 0, 0, 0, 0, 0, 0, 0, 0, 1, 1],
        seq![1u8, 1, 0, 0, 0, 0, 1, 0, 1, 0, 0, 0, 0, 0, 0, 0, 0, 0, 0, 0, 1, 1],
        seq![0u8, 0, 0, 0, 0, 0, 0, 1, 0, 1, 0, 0, 0, 0, 0, 0, 0, 0, 0, 0, 0, 0],
        seq![0u8, 0, 0, 0, 0, 0, 0, 0, 0, 1, 0, 0, 0, 0, 0, 0, 0, 0, 0, 0, 0, 0],
    ]
}

/// The authored tumbler template, as the library defines it before padding.
pub open spec fn authored_tumbler() -> Seq<Seq<u8>> {
    seq![
        seq![0u8, 1, 0, 0, 0, 0, 0, 1, 0],
        seq![1u8, 0, 1, 0, 0, 0, 1, 0, 1],
        seq![1u8, 0, 0, 1, 0, 1, 0, 0, 1],
        seq![0u8, 0, 1, 0, 0, 0, 1, 0, 0],
        seq![0u8, 0, 1, 1, 0, 1, 1, 0, 0],
    ]
}

/// The exact contents of a loaded library: the ten authored templates, by
/// name, weight, and matrix, each stored with its added dead ring.
pub open spec fn library_is_loaded(patterns: Seq<Pattern>) -> bool {
    &&& patterns.len() == 10
    &&& patterns[0].name@ == "blinker"@ && patterns[0].weight == 6
        && rows_view(patterns[0].cells) == spec_padded(authored_blinker())
    &&& patterns[1].name@ == "octagon"@ && patterns[1].weight == 8
        && rows_view(patterns[1].cells) == spec_padded(authored_octagon())
    &&& patterns[2].name@ == "beacon"@ && patterns[2].weight == 4
        && rows_view(patterns[2].cells) == spec_padded(authored_beacon())
    &&& patterns[3].name@ == "pulsar"@ && patterns[3].weight == 4
        && rows_view(patterns[3].cells) == spec_padded(authored_pulsar())
    &&& patterns[4].name@ == "pentadecathlon"@ && patterns[4].weight == 4
        && rows_view(patterns[4].cells) == spec_padded(authored_pentadecathlon())
    &&& patterns[5].name@ == "unix"@ && patterns[5].weight == 2
        && rows_view(patterns[5].cells) == spec_padded(authored_unix())
    &&& patterns[6].name@ == "clock"@ && patterns[6].weight == 2
        && rows_view(patterns[6].cells) == spec_padded(authored_clock())
    &&& patterns[7].name@ == "bipole"@ && patterns[7].weight == 4
        && rows_view(patterns[7].cells) == spec_padded(authored_bipole())
    &&& patterns[8].name@ == "queen"@ && patterns[8].weight == 3
        && rows_view(patterns[8].cells) == spec_padded(authored_queen())
    &&& patterns[9].name@ == "tumbler"@ && patterns[9].weight == 2
        && rows_view(patterns[9].cells) == spec_padded(authored_tumbler())
}

/// The finished library: the padded patterns together with the weighted
/// distribution built over their weights, so a pattern's chance of being
/// picked is its weight over the sum of all weights.
pub struct PatternLibrary {
    patterns: Vec<Pattern>,
    dist: WeightedU32Index,
}

impl View for PatternLibrary {
    type V = Seq<Pattern>;

    closed spec fn view(&self) -> Seq<Pattern> {
        self.patterns@
    }
}

impl PatternLibrary {
    /// The patterns are those of a completed load and the distribution was
    /// built from exactly their weights.
    pub closed spec fn wf(&self) -> bool {
        &&& library_patterns_wf(self.patterns@)
        &&& weighted_index_len(self.dist) == self.patterns@.len()
    }

    /// How many patterns the library holds.
    pub fn num_patterns(&self) -> (n: usize)
        ensures
            n == self@.len(),
    {
        self.patterns.len()
    }

    /// The pattern at an index.
    pub fn pattern(&self, i: usize) -> (p: &Pattern)
        requires
            i < self@.len(),
        ensures
            *p == self@[i as int],
    {
        &self.patterns[i]
    }

    /// A valid library's patterns are valid.
    pub proof fn lemma_wf_patterns(&self)
        requires
            self.wf(),
        ensures
            library_patterns_wf(self@),
    {
    }
}

/// Builds one authored pattern and pads it with the dead ring.
fn padded_pattern(name: &str, weight: u32, pattern_proto: Vec<Vec<u8>>) -> (r: Result<
    Pattern,
    EngineError,
>)
    requires
        pattern_proto@.len() + 2 <= usize::MAX,
        pattern_proto@.len() >= 1 ==> pattern_proto@[0]@.len() + 2 <= usize::MAX,
    ensures
        r is Ok <==> (weight >= 1 && matrix_wf(rows_view(pattern_proto))),
        r matches Ok(p) ==> ({
            &&& pattern_wf(p)
            &&& matrix_bordered(rows_view(p.cells))
            &&& p.name@ == name@
            &&& p.weight == weight
            &&& rows_view(p.cells).len() == rows_view(pattern_proto).len() + 2
            &&& rows_view(p.cells)[0].len() == rows_view(pattern_proto)[0].len() + 2
            &&& rows_view(p.cells) == spec_padded(rows_view(pattern_proto))
        }),
{
    let ghost proto_rows = rows_view(pattern_proto);
    let authored = match Pattern::new(name, weight, pattern_proto) {
        Ok(p) => p,
        Err(e) => {
            return Err(e);
        },
    };
    proof {
        assert(rows_view(authored.cells) =~= proto_rows);
    }
    let cells = add_safety_border(&authored);
    let ghost out_rows = rows_view(cells);
    proof {
        assert forall|r: int| 0 <= r < out_rows.len() implies (#[trigger] out_rows[r]).len()
            == out_rows[0].len() by {}
        assert forall|r: int, c: int|
            0 <= r < out_rows.len() && 0 <= c < out_rows[0].len() implies #[trigger] out_rows[r][c]
            <= 1 by {}
        assert(matrix_wf(out_rows));
        assert forall|r: int, c: int|
            0 <= r < out_rows.len() && 0 <= c < out_rows[r].len() && (r == 0 || r == out_rows.len()
                - 1 || c == 0 || c == out_rows[r].len() - 1) implies #[trigger] out_rows[r][c]
            == 0 by {}
        let target = spec_padded(proto_rows);
        assert forall|r: int| 0 <= r < out_rows.len() implies out_rows[r] == target[r] by {
            assert forall|c: int| 0 <= c < out_rows[r].len() implies out_rows[r][c] == target[r][c]
                by {}
            assert(out_rows[r] =~= target[r]);
        }
        assert(out_rows =~= target);
    }
    Ok(Pattern { name: authored.name, weight: authored.weight, cells })
}

/// Defines the full pattern library: the ten authored templates with their
/// hand-picked integer weights, each padded with the one-cell dead ring. The
/// set is built once and never mutated afterwards; a malformed template or a
/// degenerate weight vector would surface here as a configuration error, and
/// the contract states that neither occurs.
pub fn load() -> (r: Result<PatternLibrary, EngineError>)
    ensures
        r is Ok,
        r matches Ok(lib) ==> lib.wf() && library_patterns_wf(lib@) && library_is_loaded(lib@),
{
    let mut patterns: Vec<Pattern> = Vec::new();
    let proto: Vec<Vec<u8>> = vec![vec![0, 0, 0], vec![1, 1, 1], vec![0, 0, 0]];
    proof {
        assert(rows_view(proto) =~~= authored_blinker());
    }
    match padded_pattern("blinker", 6, proto) {
        Ok(p) => patterns.push(p),
        Err(e) => {
            return Err(e);
        },
    }
    let proto: Vec<Vec<u8>> = vec![
        vec![0, 0, 0, 1, 1, 0, 0, 0],
        vec![0, 0, 1, 0, 0, 1, 0, 0],
        vec![0, 1, 0, 0, 0, 0, 1, 0],
        vec![1, 0, 0, 0, 0, 0, 0, 1],
        vec![1, 0, 0, 0, 0, 0, 0, 1],
        vec![0, 1, 0, 0, 0, 0, 1, 0],
        vec![0, 0, 1, 0, 0, 1, 0, 0],
        vec![0, 0, 0, 1, 1, 0, 0, 0],
    ];
    proof {
        assert(rows_view(proto) =~~= authored_octagon());
    }
    match padded_pattern("octagon", 8, proto) {
        Ok(p) => patterns.push(p),
        Err(e) => {
            return Err(e);
        },
    }

    let proto: Vec<Vec<u8>> = vec![
        vec![1, 1, 0, 0],
        vec![1, 0, 0, 0],
        vec![0, 0, 0, 1],
        vec![0, 0, 1, 1],
    ];
    proof {
        assert(rows_view(proto) =~~= authored_beacon());
    }
    match padded_pattern("beacon", 4, proto) {
        Ok(p) => patterns.push(p),
        Err(e) => {
            return Err(e);
        },
    }

    let proto: Vec<Vec<u8>> = vec![
        vec![0, 0, 1, 1, 1, 0, 0, 0, 1, 1, 1, 0, 0],
        vec![0, 0, 0, 0, 0, 0, 0, 0, 0, 0, 0, 0, 0],
        vec![1, 0, 0, 0, 0, 1, 0, 1, 0, 0, 0, 0, 1],
        vec![1, 0, 0, 0, 0, 1, 0, 1, 0, 0, 0, 0, 1],
        vec![1, 0, 0, 0, 0, 1, 0, 1, 0, 0, 0, 0, 1],
        vec![0, 0, 1, 1, 1, 0, 0, 0, 1, 1, 1, 0, 0],
        vec![0, 0, 0, 0, 0, 0, 0, 0, 0, 0, 0, 0, 0],
        vec![0, 0, 1, 1, 1, 0, 0, 0, 1, 1, 1, 0, 0],
        vec![1, 0, 0, 0, 0, 1, 0, 1, 0, 0, 0, 0, 1],
        vec![1, 0, 0, 0, 0, 1, 0, 1, 0, 0, 0, 0, 1],
        vec![1, 0, 0, 0, 0, 1, 0, 1, 0, 0, 0, 0, 1],
        vec![0, 0, 0, 0, 0, 0, 0, 0, 0, 0, 0, 0, 0],
        vec![0, 0, 1, 1, 1, 0, 0, 0, 1, 1, 1, 0, 0],
    ];
    proof {
        assert(rows_view(proto) =~~= authored_pulsar());
    }
    match padded_pattern("pulsar", 4, proto) {
        Ok(p) => patterns.push(p),
        Err(e) => {
            return Err(e);
        },
    }

    let proto: Vec<Vec<u8>> = vec![
        vec![0, 0, 1, 0, 0, 0, 0, 1, 0, 0],
        vec![1, 1, 0, 1, 1, 1, 1, 0, 1, 1],
        vec![0, 0, 1, 0, 0, 0, 0, 1, 0, 0],
    ];
    proof {
        assert(rows_view(proto) =~~= authored_pentadecathlon());
    }
    match padded_pattern("pentadecathlon", 4, proto) {
        Ok(p) => patterns.push(p),
        Err(e) => {
            return Err(e);
        },
    }

    let proto: Vec<Vec<u8>> = vec![
        vec![0, 1, 1, 0, 0, 0, 0, 0],
        vec![0, 1, 1, 0, 0, 0, 0, 0],
        vec![0, 0, 0, 0, 0, 0, 0, 0],
        vec![0, 1, 0, 0, 0, 0, 0, 0],
        vec![1, 0, 1, 0, 0, 0, 0, 0],
        vec![1, 0, 0, 1, 0, 0, 1, 1],
        vec![0, 0, 0, 0, 1, 0, 1, 1],
        vec![0, 0, 1, 1, 0, 0, 0, 0],
    ];
    proof {
        assert(rows_view(proto) =~~= authored_unix());
    }
    match padded_pattern("unix", 2, proto) {
        Ok(p) => patterns.push(p),
        Err(e) => {
            return Err(e);
        },
    }

    let proto: Vec<Vec<u8>> = vec![
        vec![0, 0, 1, 0],
        vec![1, 0, 1, 0],
        vec![0, 1, 0, 1],
        vec![0, 1, 0, 0],
    ];
    proof {
        assert(rows_view(proto) =~~= authored_clock());
    }
    match padded_pattern("clock", 2, proto) {
        Ok(p) => patterns.push(p),
        Err(e) => {
            return Err(e);
        },
    }

    let proto: Vec<Vec<u8>> = vec![
        vec![1, 1, 0, 0, 0],
        vec![1, 0, 1, 0, 0],
        vec![0, 0, 0, 0, 0],
        vec![0, 0, 1, 0, 1],
        vec![0, 0, 0, 1, 1],
    ];
    proof {
        assert(rows_view(proto) =~~= authored_bipole());
    }
    match padded_pattern("bipole", 4, proto) {
        Ok(p) => patterns.push(p),
        Err(e) => {
            return Err(e);
        },
    }

    let proto: Vec<Vec<u8>> = vec![
        vec![0, 0, 0, 0, 0, 0, 0, 0, 0, 1, 0, 0, 0, 0, 0, 0, 0, 0, 0, 0, 0, 0],
        vec![0, 0, 0, 0, 0, 0, 0, 1, 0, 1, 0, 0, 0, 0, 0, 0, 0, 0, 0, 0, 0, 0],
        vec![0, 0, 0, 0, 0, 0, 1, 0, 1, 0, 0, 0, 0, 0, 0, 0, 0, 0, 0, 0, 0, 0],
        vec![1, 1, 0, 0, 0, 1, 0, 0, 1, 0, 0, 0, 0, 0, 0, 0, 0, 0, 0, 0, 1, 1],
        vec![1, 1, 0, 0, 0, 0, 1, 0, 1, 0, 0, 0, 0, 0, 0, 0, 0, 0, 0, 0, 1, 1],
        vec![0, 0, 0, 0, 0, 0, 0, 1, 0, 1, 0, 0, 0, 0, 0, 0, 0, 0, 0, 0, 0, 0],
        vec![0, 0, 0, 0, 0, 0, 0, 0, 0, 1, 0, 0, 0, 0, 0, 0, 0, 0, 0, 0, 0, 0],
    ];
    proof {
        assert(rows_view(proto) =~~= authored_queen());
    }
    match padded_pattern("queen", 3, proto) {
        Ok(p) => patterns.push(p),
        Err(e) => {
            return Err(e);
        },
    }

    let proto: Vec<Vec<u8>> = vec![
        vec![0, 1, 0, 0, 0, 0, 0, 1, 0],
        vec![1, 0, 1, 0, 0, 0, 1, 0, 1],
        vec![1, 0, 0, 1, 0, 1, 0, 0, 1],
        vec![0, 0, 1, 0, 0, 0, 1, 0, 0],
        vec![0, 0, 1, 1, 0, 1, 1, 0, 0],
    ];
    proof {
        assert(rows_view(proto) =~~= authored_tumbler());
    }
    match padded_pattern("tumbler", 2, proto) {
        Ok(p) => patterns.push(p),
        Err(e) => {
            return Err(e);
        },
    }
    proof {
        assert(library_is_loaded(patterns@));
    }
    let mut weights: Vec<u32> = Vec::new();
    let mut total: u32 = 0;
    let n = patterns.len();
    for i in 0..n
        invariant
            n == patterns@.len(),
            library_patterns_wf(patterns@),
            n <= 100,
            forall|k: int| 0 <= k < n ==> (#[trigger] patterns@[k]).weight <= 100,
            weights@.len() == i,
            forall|k: int| 0 <= k < i ==> #[trigger] weights@[k] == patterns@[k].weight,
            total == weights_total(weights@),
            i <= total <= i * 100,
    {
        let w = patterns[i].weight;
        proof {
            lemma_weights_total_push(weights@, w);
        }
        total = total + w;
        weights.push(w);
    }
    let dist = match new_weighted_index(&weights) {
        Some(d) => d,
        None => {
            return Err(EngineError::Configuration);
        },
    };
    Ok(PatternLibrary { patterns, dist })
}

/// Draws a pattern index from the library, each index with probability
/// proportional to its pattern's weight.
pub fn pick_random_weighted_pattern(lib: &PatternLibrary, rng: &mut rand::rngs::ThreadRng) -> (idx:
    usize)
    requires
        lib.wf(),
    ensures
        idx < lib@.len(),
{
    sample_weighted_index(&lib.dist, rng)
}

} // verus!

//! Single-pass text shaping for ligature support.
//!
//! Shapes each line once with user-configured OpenType features. Uses cluster
//! boundaries from the shaper output to determine cell spans:
//! - 1 input char per cluster: texture healing (glyph ID substitution, span=1)
//! - N input chars per cluster: ligature (first cell gets glyph, rest are None)

use std::sync::Arc;

use rustybuzz::ttf_parser::Tag;
use rustybuzz::{Face, Feature, UnicodeBuffer};
use vstd::prelude::*;
use vstd::utf8::encode_utf8;

verus! {

/// A shaped glyph.
#[derive(Clone, Copy, Debug, PartialEq, Eq)]
pub struct ShapedGlyph {
    /// Glyph index in the font face.
    pub glyph_id: u32,
    /// Column span of this glyph (1 for normal, 2+ for ligatures).
    pub cell_span: u8,
    /// True if this glyph is part of a multi-glyph ligature (shared cluster).
    /// False for standalone substitutions like texture healing.
    pub is_ligature: bool,
}

/// Shaped output for a single line.
#[derive(Clone, Debug)]
pub struct ShapedLine {
    /// One entry per cell column. `Some` for the head cell of each glyph,
    /// `None` for continuation cells within a ligature or unshaped cells.
    pub glyphs: Vec<Option<ShapedGlyph>>,
}

/// Largest column span given to a single glyph.
pub const MAX_CELL_SPAN: u8 = 7;

/// Number of UTF-8 bytes that encode `c`.
pub open spec fn utf8_len(c: char) -> nat {
    if (c as u32) < 0x80 {
        1
    } else if (c as u32) < 0x800 {
        2
    } else if (c as u32) < 0x10000 {
        3
    } else {
        4
    }
}

/// For each byte of the UTF-8 encoding of `chars`, the column (char index)
/// that the byte belongs to.
pub open spec fn byte_columns(chars: Seq<char>) -> Seq<usize>
    decreases chars.len(),
{
    if chars.len() == 0 {
        seq![]
    } else {
        byte_columns(chars.drop_last()) + Seq::new(
            utf8_len(chars.last()),
            |k: int| (chars.len() - 1) as usize,
        )
    }
}

/// Glyph id used for a character when the font maps it to nothing.
pub open spec fn default_glyph_id(index: Option<u16>) -> u32 {
    match index {
        Some(g) => g as u32,
        None => 0,
    }
}

/// Whether glyph `i` shares its cluster with a neighbouring glyph.
pub open spec fn shares_cluster(infos: Seq<(u32, u32)>, i: int) -> bool {
    ||| (i + 1 < infos.len() && infos[i].1 == infos[i + 1].1)
    ||| (i > 0 && infos[i - 1].1 == infos[i].1)
}

/// Layout when the shaper produced exactly one glyph per character: only
/// the columns whose glyph differs from the font's plain mapping get a
/// glyph, of span 1, flagged as ligature when it shares its cluster.
pub open spec fn one_to_one_layout(infos: Seq<(u32, u32)>, default_ids: Seq<u32>) -> Seq<
    Option<ShapedGlyph>,
> {
    Seq::new(
        infos.len(),
        |i: int|
            if infos[i].0 != default_ids[i] {
                Some(ShapedGlyph { glyph_id: infos[i].0, cell_span: 1, is_ligature: shares_cluster(infos, i) })
            } else {
                None
            },
    )
}

/// Whether `columns[cluster]` is the column of a cluster of the line.
pub open spec fn cluster_in_line(columns: Seq<usize>, n: nat, cluster: u32) -> bool {
    (cluster as int) < columns.len() && columns[cluster as int] < n
}

/// The columns at which the clusters of the first `m` glyphs begin.
pub open spec fn starts_upto(infos: Seq<(u32, u32)>, columns: Seq<usize>, n: nat, m: int) -> Seq<bool>
    decreases m,
{
    if m <= 0 || m > infos.len() {
        Seq::new(n, |k: int| false)
    } else {
        let s = starts_upto(infos, columns, n, m - 1);
        if cluster_in_line(columns, n, infos[m - 1].1) {
            s.update(columns[infos[m - 1].1 as int] as int, true)
        } else {
            s
        }
    }
}

/// For each column of `chars`, whether some cluster of the shaper output
/// begins there.
pub open spec fn cluster_starts(chars: Seq<char>, infos: Seq<(u32, u32)>) -> Seq<bool> {
    starts_upto(infos, byte_columns(chars), chars.len(), infos.len() as int)
}

/// The first column at or after `k` where a cluster begins, or the length
/// of the line when none does.
pub open spec fn next_start(starts: Seq<bool>, k: int) -> int
    decreases starts.len() - k,
{
    if k >= starts.len() {
        starts.len() as int
    } else if k >= 0 && starts[k] {
        k
    } else {
        next_start(starts, k + 1)
    }
}

/// Column span of a glyph whose cluster begins at column `c`: the columns
/// up to the next cluster in character order (or the line end), at most
/// [`MAX_CELL_SPAN`].
pub open spec fn span_at(starts: Seq<bool>, c: int) -> int {
    let d = next_start(starts, c + 1) - c;
    if d > MAX_CELL_SPAN {
        MAX_CELL_SPAN as int
    } else {
        d
    }
}

/// Layout when the shaper merged characters into fewer (or more) glyphs:
/// walk the glyphs from glyph `i` on. The head glyph of each run of glyphs
/// sharing a cluster lands on the column of the cluster's first byte and
/// spans that cluster's columns; glyphs whose cluster is outside the line
/// are skipped.
pub open spec fn merged_walk(
    infos: Seq<(u32, u32)>,
    columns: Seq<usize>,
    starts: Seq<bool>,
    n: nat,
    i: int,
    glyphs: Seq<Option<ShapedGlyph>>,
) -> Seq<Option<ShapedGlyph>>
    decreases infos.len() - i,
{
    if i >= infos.len() || i < 0 {
        glyphs
    } else if i > 0 && infos[i].1 == infos[i - 1].1 {
        merged_walk(infos, columns, starts, n, i + 1, glyphs)
    } else if !cluster_in_line(columns, n, infos[i].1) {
        merged_walk(infos, columns, starts, n, i + 1, glyphs)
    } else {
        let col = columns[infos[i].1 as int] as int;
        let span = span_at(starts, col);
        let updated = glyphs.update(
            col,
            Some(ShapedGlyph { glyph_id: infos[i].0, cell_span: span as u8, is_ligature: span > 1 }),
        );
        merged_walk(infos, columns, starts, n, i + 1, updated)
    }
}

/// Layout of `chars` from merged shaper output.
pub open spec fn merged_layout(chars: Seq<char>, infos: Seq<(u32, u32)>) -> Seq<Option<ShapedGlyph>> {
    merged_walk(
        infos,
        byte_columns(chars),
        cluster_starts(chars, infos),
        chars.len(),
        0,
        Seq::new(chars.len(), |i: int| None),
    )
}

/// Whether every glyph of `glyphs` spans 1 to [`MAX_CELL_SPAN`] columns,
/// is flagged as ligature exactly when it spans several, and leaves the
/// other columns it spans empty.
pub open spec fn glyphs_cover_own_cells(glyphs: Seq<Option<ShapedGlyph>>) -> bool {
    forall|c: int|
        #![trigger glyphs[c]]
        0 <= c < glyphs.len() && glyphs[c] is Some ==> {
            let g = glyphs[c]->0;
            &&& 1 <= g.cell_span <= MAX_CELL_SPAN
            &&& g.cell_span > 1 ==> g.is_ligature
            &&& forall|k: int|
                c < k < c + g.cell_span && k < glyphs.len() ==> (#[trigger] glyphs[k]) is None
        }
}

/// Number of UTF-8 bytes that encode `c`.
pub fn utf8_width(c: char) -> (r: usize)
    ensures
        r == utf8_len(c),
{
    let v = c as u32;
    if v < 0x80 {
        1
    } else if v < 0x800 {
        2
    } else if v < 0x10000 {
        3
    } else {
        4
    }
}

/// Byte-offset to column mapping for the UTF-8 encoding of `chars`.
pub fn byte_to_column_map(chars: &[char]) -> (r: Vec<usize>)
    ensures
        r@ == byte_columns(chars@),
{
    let mut map: Vec<usize> = Vec::new();
    let mut col: usize = 0;
    while col < chars.len()
        invariant
            col <= chars@.len(),
            map@ == byte_columns(chars@.take(col as int)),
        decreases chars@.len() - col,
    {
        let c = chars[col];
        let w = utf8_width(c);
        let ghost before = map@;
        let mut k: usize = 0;
        while k < w
            invariant
                k <= w,
                w == utf8_len(c),
                col < chars@.len(),
                map@ == before + Seq::new(k as nat, |m: int| col),
            decreases w - k,
        {
            map.push(col);
            k = k + 1;
            proof {
                assert(map@ =~= before + Seq::new(k as nat, |m: int| col));
            }
        }
        proof {
            assert(chars@.take(col + 1).drop_last() =~= chars@.take(col as int));
            assert(chars@.take(col + 1).last() == c);
        }
        col = col + 1;
    }
    proof {
        assert(chars@.take(chars@.len() as int) =~= chars@);
    }
    map
}

/// Layout of a line for which the shaper produced one glyph per character.
///
/// `infos` holds the shaper's `(glyph id, cluster)` pairs and `default_ids`
/// the glyph id the font gives each character on its own. A column keeps a
/// glyph only where shaping changed the glyph id, so unchanged characters
/// fall back to character-based lookup.
pub fn layout_one_to_one(infos: &[(u32, u32)], default_ids: &[u32]) -> (r: ShapedLine)
    requires
        infos@.len() == default_ids@.len(),
    ensures
        r.glyphs@ == one_to_one_layout(infos@, default_ids@),
{
    let num_cols = infos.len();
    let mut changed: Vec<bool> = Vec::new();
    let mut i: usize = 0;
    while i < num_cols
        invariant
            i <= num_cols,
            num_cols == infos@.len(),
            num_cols == default_ids@.len(),
            changed@.len() == i,
            forall|k: int| 0 <= k < i ==> changed@[k] == (infos@[k].0 != default_ids@[k]),
        decreases num_cols - i,
    {
        changed.push(infos[i].0 != default_ids[i]);
        i = i + 1;
    }

    // Detect ligature members: glyphs that share a cluster value with
    // an adjacent glyph. Texture healing has unique clusters per glyph.
    let mut is_lig: Vec<bool> = Vec::new();
    let mut i: usize = 0;
    while i < num_cols
        invariant
            i <= num_cols,
            num_cols == infos@.len(),
            is_lig@.len() == i,
            forall|k: int| 0 <= k < i ==> is_lig@[k] == shares_cluster(infos@, k),
        decreases num_cols - i,
    {
        let with_next = i + 1 < num_cols && infos[i].1 == infos[i + 1].1;
        let with_prev = i > 0 && infos[i - 1].1 == infos[i].1;
        is_lig.push(with_next || with_prev);
        i = i + 1;
    }

    // Expand changed regions: if col N changed, also keep col N-1 and
    // N+1 if they also changed. This preserves full ligature groups.
    let mut emit: Vec<bool> = Vec::new();
    let mut i: usize = 0;
    while i < num_cols
        invariant
            i <= num_cols,
            changed@.len() == num_cols,
            emit@.len() == i,
            forall|k: int| 0 <= k < i ==> emit@[k] == changed@[k],
        decreases num_cols - i,
    {
        emit.push(false);
        if changed[i] {
            emit.set(i, true);
            if i > 0 && changed[i - 1] {
                emit.set(i - 1, true);
            }
        }
        i = i + 1;
    }
    let mut i: usize = 0;
    while i < num_cols
        invariant
            i <= num_cols,
            changed@.len() == num_cols,
            emit@.len() == num_cols,
            forall|k: int| 0 <= k < num_cols ==> emit@[k] == changed@[k],
        decreases num_cols - i,
    {
        if changed[i] && i + 1 < num_cols && changed[i + 1] {
            emit.set(i + 1, true);
        }
        i = i + 1;
    }

    let mut glyphs: Vec<Option<ShapedGlyph>> = Vec::new();
    let mut i: usize = 0;
    while i < num_cols
        invariant
            i <= num_cols,
            num_cols == infos@.len(),
            num_cols == default_ids@.len(),
            emit@.len() == num_cols,
            is_lig@.len() == num_cols,
            forall|k: int| 0 <= k < num_cols ==> emit@[k] == (infos@[k].0 != default_ids@[k]),
            forall|k: int| 0 <= k < num_cols ==> is_lig@[k] == shares_cluster(infos@, k),
            glyphs@.len() == i,
            forall|k: int| 0 <= k < i ==> glyphs@[k] == one_to_one_layout(infos@, default_ids@)[k],
        decreases num_cols - i,
    {
        if emit[i] {
            glyphs.push(Some(ShapedGlyph { glyph_id: infos[i].0, cell_span: 1, is_ligature: is_lig[i] }));
        } else {
            glyphs.push(None);
        }
        i = i + 1;
    }
    proof {
        assert(glyphs@ =~= one_to_one_layout(infos@, default_ids@));
    }
    ShapedLine { glyphs }
}

proof fn lemma_starts_len(infos: Seq<(u32, u32)>, columns: Seq<usize>, n: nat, m: int)
    ensures
        starts_upto(infos, columns, n, m).len() == n,
    decreases m,
{
    if m > 0 && m <= infos.len() {
        lemma_starts_len(infos, columns, n, m - 1);
    }
}

/// The cluster of every glyph before `m` that lies in the line is a start.
proof fn lemma_starts_contains(infos: Seq<(u32, u32)>, columns: Seq<usize>, n: nat, m: int, i: int)
    requires
        0 <= i < m <= infos.len(),
        cluster_in_line(columns, n, infos[i].1),
    ensures
        starts_upto(infos, columns, n, m)[columns[infos[i].1 as int] as int],
    decreases m,
{
    lemma_starts_len(infos, columns, n, m - 1);
    if i < m - 1 {
        lemma_starts_contains(infos, columns, n, m - 1, i);
    }
}

/// No cluster begins between `k` and the next start after it.
proof fn lemma_next_start_gap(starts: Seq<bool>, k: int, j: int)
    requires
        0 <= k <= j < next_start(starts, k),
        j < starts.len(),
    ensures
        !starts[j],
    decreases j - k,
{
    if j > k {
        lemma_next_start_gap(starts, k + 1, j);
    }
}

proof fn lemma_next_start_bounds(starts: Seq<bool>, k: int)
    requires
        0 <= k,
    ensures
        k <= next_start(starts, k) || k > starts.len(),
        next_start(starts, k) <= starts.len(),
    decreases starts.len() - k,
{
    if k < starts.len() && !starts[k] {
        lemma_next_start_bounds(starts, k + 1);
    }
}

/// What the walk keeps true of the glyphs it places: each sits on a start
/// column and spans up to the next start.
pub open spec fn placed_at_starts(glyphs: Seq<Option<ShapedGlyph>>, starts: Seq<bool>) -> bool {
    &&& glyphs.len() == starts.len()
    &&& forall|c: int|
        0 <= c < glyphs.len() && (#[trigger] glyphs[c]) is Some ==> {
            &&& starts[c]
            &&& glyphs[c]->0.cell_span == span_at(starts, c)
            &&& glyphs[c]->0.is_ligature == (span_at(starts, c) > 1)
        }
}

proof fn lemma_walk_keeps_placement(
    infos: Seq<(u32, u32)>,
    columns: Seq<usize>,
    n: nat,
    i: int,
    glyphs: Seq<Option<ShapedGlyph>>,
)
    requires
        0 <= i,
        placed_at_starts(glyphs, starts_upto(infos, columns, n, infos.len() as int)),
    ensures
        placed_at_starts(
            merged_walk(
                infos,
                columns,
                starts_upto(infos, columns, n, infos.len() as int),
                n,
                i,
                glyphs,
            ),
            starts_upto(infos, columns, n, infos.len() as int),
        ),
    decreases infos.len() - i,
{
    let starts = starts_upto(infos, columns, n, infos.len() as int);
    if i >= infos.len() {
    } else if i > 0 && infos[i].1 == infos[i - 1].1 {
        lemma_walk_keeps_placement(infos, columns, n, i + 1, glyphs);
    } else if !cluster_in_line(columns, n, infos[i].1) {
        lemma_walk_keeps_placement(infos, columns, n, i + 1, glyphs);
    } else {
        let col = columns[infos[i].1 as int] as int;
        let span = span_at(starts, col);
        lemma_starts_contains(infos, columns, n, infos.len() as int, i);
        lemma_starts_len(infos, columns, n, infos.len() as int);
        lemma_next_start_bounds(starts, col + 1);
        assert(1 <= span <= MAX_CELL_SPAN);
        let updated = glyphs.update(
            col,
            Some(ShapedGlyph { glyph_id: infos[i].0, cell_span: span as u8, is_ligature: span > 1 }),
        );
        assert(placed_at_starts(updated, starts));
        lemma_walk_keeps_placement(infos, columns, n, i + 1, updated);
    }
}

/// Glyphs placed on start columns, each spanning up to the next start,
/// cover only their own cells.
proof fn lemma_placed_covers_own_cells(glyphs: Seq<Option<ShapedGlyph>>, starts: Seq<bool>)
    requires
        placed_at_starts(glyphs, starts),
    ensures
        glyphs_cover_own_cells(glyphs),
{
    assert forall|c: int|
        #![trigger glyphs[c]]
        0 <= c < glyphs.len() && glyphs[c] is Some implies {
            let g = glyphs[c]->0;
            &&& 1 <= g.cell_span <= MAX_CELL_SPAN
            &&& g.cell_span > 1 ==> g.is_ligature
            &&& forall|k: int|
                c < k < c + g.cell_span && k < glyphs.len() ==> (#[trigger] glyphs[k]) is None
        } by {
        lemma_next_start_bounds(starts, c + 1);
        let g = glyphs[c]->0;
        assert forall|k: int| c < k < c + g.cell_span && k < glyphs.len() implies (
        #[trigger] glyphs[k]) is None by {
            lemma_next_start_gap(starts, c + 1, k);
        }
    }
}

/// Merged layouts have one entry per character, and every glyph in them
/// covers only the cells of its own cluster.
pub proof fn lemma_merged_layout_covers_own_cells(chars: Seq<char>, infos: Seq<(u32, u32)>)
    ensures
        merged_layout(chars, infos).len() == chars.len(),
        glyphs_cover_own_cells(merged_layout(chars, infos)),
{
    let columns = byte_columns(chars);
    let n = chars.len();
    let starts = cluster_starts(chars, infos);
    lemma_starts_len(infos, columns, n, infos.len() as int);
    let initial = Seq::new(n, |i: int| None::<ShapedGlyph>);
    assert(placed_at_starts(initial, starts));
    lemma_walk_keeps_placement(infos, columns, n, 0, initial);
    lemma_placed_covers_own_cells(merged_layout(chars, infos), starts);
}

/// A line shaped one glyph per character keeps a glyph in a cell exactly
/// when shaping changed that character's glyph: a character the font maps
/// to glyph `x` is unshaped while the shaper leaves `x`, and a character the
/// font cannot map is unshaped while the shaper leaves glyph 0 (`.notdef`),
/// so it falls back to character-based lookup. A kept glyph is the
/// shaper's, one cell wide.
pub proof fn lemma_one_to_one_keeps_changed_glyphs(
    font: Seq<u8>,
    features: Seq<u32>,
    chars: Seq<char>,
    i: int,
)
    requires
        0 <= i < chars.len(),
        shaped_glyph_infos(font, features, chars).len() == chars.len(),
    ensures
        ({
            let infos = shaped_glyph_infos(font, features, chars);
            let cell = shaped_layout(font, features, chars)[i];
            &&& font_glyph_index(font, chars[i]) is None ==> (cell is Some <==> infos[i].0 != 0)
            &&& font_glyph_index(font, chars[i]) matches Some(x) ==> (cell is Some <==> infos[i].0
                != x as u32)
            &&& cell matches Some(g) ==> g.glyph_id == infos[i].0 && g.cell_span == 1
        }),
{
}

/// Every shaped line has one entry per character, and every glyph in it
/// spans 1 to [`MAX_CELL_SPAN`] columns, is a ligature when it spans
/// several, and leaves the other columns it spans empty.
pub proof fn lemma_shaped_layout_covers_own_cells(font: Seq<u8>, features: Seq<u32>, chars: Seq<char>)
    ensures
        shaped_layout(font, features, chars).len() == chars.len(),
        glyphs_cover_own_cells(shaped_layout(font, features, chars)),
{
    let infos = shaped_glyph_infos(font, features, chars);
    if chars.len() > 0 && infos.len() != chars.len() {
        lemma_merged_layout_covers_own_cells(chars, infos);
    }
}

/// Layout of a line for which the shaper merged characters into clusters.
///
/// `infos` holds the shaper's `(glyph id, cluster)` pairs, where a cluster
/// is the byte offset of its first character in the UTF-8 encoding of
/// `chars`. Each cluster's head glyph is placed on the column of that
/// character and spans the columns up to the next cluster in character
/// order, so right-to-left output (clusters decreasing) is laid out as well.
pub fn layout_merged(chars: &[char], infos: &[(u32, u32)]) -> (r: ShapedLine)
    ensures
        r.glyphs@ == merged_layout(chars@, infos@),
{
    let byte_to_col = byte_to_column_map(chars);
    let num_cols = chars.len();
    let ghost cols = byte_to_col@;
    let ghost n = num_cols as nat;

    // Columns where a cluster begins.
    let mut starts: Vec<bool> = Vec::new();
    let mut glyphs: Vec<Option<ShapedGlyph>> = Vec::new();
    let mut spans: Vec<u8> = Vec::new();
    let mut k: usize = 0;
    while k < num_cols
        invariant
            k <= num_cols,
            starts@ == Seq::new(k as nat, |m: int| false),
            glyphs@ == Seq::new(k as nat, |m: int| None::<ShapedGlyph>),
            spans@.len() == k,
        decreases num_cols - k,
    {
        starts.push(false);
        glyphs.push(None);
        spans.push(0);
        k = k + 1;
        proof {
            assert(starts@ =~= Seq::new(k as nat, |m: int| false));
            assert(glyphs@ =~= Seq::new(k as nat, |m: int| None::<ShapedGlyph>));
        }
    }
    let mut m: usize = 0;
    while m < infos.len()
        invariant
            m <= infos@.len(),
            num_cols == n,
            cols == byte_to_col@,
            starts@ == starts_upto(infos@, cols, n, m as int),
        decreases infos@.len() - m,
    {
        let cluster = infos[m].1 as usize;
        if cluster < byte_to_col.len() && byte_to_col[cluster] < num_cols {
            proof {
                lemma_starts_len(infos@, cols, n, m as int);
            }
            starts.set(byte_to_col[cluster], true);
        }
        m = m + 1;
    }
    let ghost gstarts = starts@;
    proof {
        lemma_starts_len(infos@, cols, n, infos@.len() as int);
        assert(gstarts == cluster_starts(chars@, infos@));
    }

    // Spans, from the right: each column spans up to the next start.
    let mut next: usize = num_cols;
    let mut c: usize = num_cols;
    while c > 0
        invariant
            c <= num_cols == n == gstarts.len(),
            starts@ == gstarts,
            spans@.len() == n,
            next == next_start(gstarts, c as int),
            forall|j: int| c <= j < n ==> spans@[j] as int == #[trigger] span_at(gstarts, j),
        decreases c,
    {
        c = c - 1;
        proof {
            lemma_next_start_bounds(gstarts, c + 1);
        }
        let d = next - c;
        let span: u8 = if d > 7 {
            7
        } else {
            d as u8
        };
        spans.set(c, span);
        if starts[c] {
            next = c;
        }
    }

    // Place the head glyph of each cluster run.
    let ghost initial = glyphs@;
    let mut i: usize = 0;
    while i < infos.len()
        invariant
            i <= infos@.len(),
            num_cols == n,
            cols == byte_to_col@,
            cols == byte_columns(chars@),
            glyphs@.len() == n,
            spans@.len() == n,
            forall|j: int| 0 <= j < n ==> spans@[j] as int == #[trigger] span_at(gstarts, j),
            merged_walk(infos@, cols, gstarts, n, 0, initial) == merged_walk(
                infos@,
                cols,
                gstarts,
                n,
                i as int,
                glyphs@,
            ),
        decreases infos@.len() - i,
    {
        let cluster = infos[i].1 as usize;
        let same_run = i > 0 && infos[i].1 == infos[i - 1].1;
        if !same_run && cluster < byte_to_col.len() && byte_to_col[cluster] < num_cols {
            let col = byte_to_col[cluster];
            let span = spans[col];
            glyphs.set(col, Some(ShapedGlyph { glyph_id: infos[i].0, cell_span: span, is_ligature: span > 1 }));
        }
        i = i + 1;
    }
    ShapedLine { glyphs }
}

/// Maximum shape cache entries before eviction. Bounded to prevent unbounded
/// growth from scrolling through large files. Typical visible lines < 100,
/// so 512 gives generous headroom for recently scrolled content.
pub const MAX_SHAPE_CACHE_ENTRIES: usize = 512;

/// Whether the font bytes `font` parse as the first face of a font file.
pub uninterp spec fn font_parses(font: Seq<u8>) -> bool;

/// The glyph that the character maps of `font` give `c` on its own.
pub uninterp spec fn font_glyph_index(font: Seq<u8>, c: char) -> Option<u16>;

/// The `(glyph id, cluster)` pairs that shaping `text` with `font` gives,
/// each OpenType feature of `features` enabled (value 1) over the whole text.
pub uninterp spec fn shaped_glyph_infos(font: Seq<u8>, features: Seq<u32>, text: Seq<char>) -> Seq<
    (u32, u32),
>;

/// Checks whether `font` parses as a font face.
///
/// Calls `rustybuzz::Face::from_slice` on face index 0; the contract claims
/// only that the answer is the named property of the bytes.
#[verifier::external_body]
fn face_parses(font: &[u8]) -> (r: bool)
    ensures
        r == font_parses(font@),
{
    Face::from_slice(font, 0).is_some()
}

/// Looks up, for each character, the glyph the font maps it to.
///
/// Calls `ttf_parser::Face::glyph_index` (through the parsed
/// `rustybuzz::Face`) once per character; the contract claims one entry per
/// character, each the named lookup of that character.
#[verifier::external_body]
fn glyph_indices(font: &[u8], chars: &[char]) -> (r: Vec<Option<u16>>)
    requires
        font_parses(font@),
    ensures
        r@.len() == chars@.len(),
        forall|i: int| 0 <= i < chars@.len() ==> r@[i] == font_glyph_index(font@, chars@[i]),
{
    match Face::from_slice(font, 0) {
        Some(face) => chars.iter().map(|&c| face.glyph_index(c).map(|g| g.0)).collect(),
        None => Vec::new(),
    }
}

/// Shapes `chars` with `font` and the given feature tags.
///
/// Calls `rustybuzz::shape` with every feature enabled over the whole text;
/// the contract claims only that the `(glyph_id, cluster)` pairs of the
/// output are the named shaping result of the font, features and text.
#[verifier::external_body]
fn shape_chars(font: &[u8], features: &[u32], chars: &[char]) -> (r: Vec<(u32, u32)>)
    requires
        font_parses(font@),
    ensures
        r@ == shaped_glyph_infos(font@, features@, chars@),
{
    let face = match Face::from_slice(font, 0) {
        Some(face) => face,
        None => return Vec::new(),
    };
    let features: Vec<Feature> = features.iter().map(|&t| Feature::new(Tag(t), 1, ..)).collect();
    let mut buffer = UnicodeBuffer::new();
    buffer.push_str(&chars.iter().collect::<String>());
    let output = rustybuzz::shape(&face, &features, buffer);
    output.glyph_infos().iter().map(|info| (info.glyph_id, info.cluster)).collect()
}

/// Default glyph ids of `chars`: the font's own mapping, 0 where it has none.
pub open spec fn default_glyph_ids(font: Seq<u8>, chars: Seq<char>) -> Seq<u32> {
    Seq::new(chars.len(), |i: int| default_glyph_id(font_glyph_index(font, chars[i])))
}

/// The layout of a line given its shaper output.
pub open spec fn line_layout(chars: Seq<char>, infos: Seq<(u32, u32)>, default_ids: Seq<u32>) -> Seq<
    Option<ShapedGlyph>,
> {
    if chars.len() == 0 {
        seq![]
    } else if infos.len() == chars.len() {
        one_to_one_layout(infos, default_ids)
    } else {
        merged_layout(chars, infos)
    }
}

/// The layout that shaping `chars` with `font` and `features` gives.
pub open spec fn shaped_layout(font: Seq<u8>, features: Seq<u32>, chars: Seq<char>) -> Seq<
    Option<ShapedGlyph>,
> {
    line_layout(chars, shaped_glyph_infos(font, features, chars), default_glyph_ids(font, chars))
}

/// OpenType tag of four bytes, read as a big-endian number.
pub open spec fn tag_value(bytes: Seq<u8>) -> u32 {
    (bytes[0] as int * 0x1000000 + bytes[1] as int * 0x10000 + bytes[2] as int * 0x100
        + bytes[3] as int) as u32
}

/// Feature tags of `tags`, in order: every tag of exactly four UTF-8 bytes;
/// any other tag is ignored.
pub open spec fn parsed_features(tags: Seq<Seq<char>>) -> Seq<u32>
    decreases tags.len(),
{
    if tags.len() == 0 {
        seq![]
    } else {
        let rest = parsed_features(tags.drop_last());
        let bytes = encode_utf8(tags.last());
        if bytes.len() == 4 {
            rest.push(tag_value(bytes))
        } else {
            rest
        }
    }
}

/// The character sequences of `tags`.
pub open spec fn tag_texts(tags: Seq<String>) -> Seq<Seq<char>> {
    tags.map_values(|t: String| t@)
}

/// Whether two character slices hold the same characters.
fn same_chars(a: &[char], b: &[char]) -> (r: bool)
    ensures
        r == (a@ == b@),
{
    if a.len() != b.len() {
        return false;
    }
    let mut i: usize = 0;
    while i < a.len()
        invariant
            i <= a@.len(),
            a@.len() == b@.len(),
            forall|k: int| 0 <= k < i ==> a@[k] == b@[k],
        decreases a@.len() - i,
    {
        if a[i] != b[i] {
            return false;
        }
        i = i + 1;
    }
    proof {
        assert(a@ =~= b@);
    }
    true
}

/// A copy of a slice of characters.
fn copy_chars(chars: &[char]) -> (r: Vec<char>)
    ensures
        r@ == chars@,
{
    let mut out: Vec<char> = Vec::new();
    let mut i: usize = 0;
    while i < chars.len()
        invariant
            i <= chars@.len(),
            out@ == chars@.take(i as int),
        decreases chars@.len() - i,
    {
        out.push(chars[i]);
        i = i + 1;
        proof {
            assert(out@ =~= chars@.take(i as int));
        }
    }
    proof {
        assert(chars@.take(chars@.len() as int) =~= chars@);
    }
    out
}

impl ShapedLine {
    /// A copy of this line.
    pub fn duplicate(&self) -> (r: ShapedLine)
        ensures
            r.glyphs@ == self.glyphs@,
    {
        let mut glyphs: Vec<Option<ShapedGlyph>> = Vec::new();
        let mut i: usize = 0;
        while i < self.glyphs.len()
            invariant
                i <= self.glyphs@.len(),
                glyphs@ == self.glyphs@.take(i as int),
            decreases self.glyphs@.len() - i,
        {
            glyphs.push(self.glyphs[i]);
            i = i + 1;
            proof {
                assert(glyphs@ =~= self.glyphs@.take(i as int));
            }
        }
        proof {
            assert(self.glyphs@.take(self.glyphs@.len() as int) =~= self.glyphs@);
        }
        ShapedLine { glyphs }
    }
}

/// Single-pass text shaper over one font face.
///
/// Note: shaping uses the regular font face only. Shaped glyph IDs are
/// font-face-specific, so bold/italic cells fall back to character-based
/// lookup. This is correct for most ligature fonts (which share glyph tables
/// across weights) but may produce wrong glyphs for fonts with divergent
/// bold glyph tables.
pub struct Shaper {
    face_data: Arc<[u8]>,
    /// OpenType feature tags, each enabled over the whole line.
    features: Vec<u32>,
    /// Recently shaped lines, looked up by their exact content.
    cache: Vec<(Vec<char>, ShapedLine)>,
}

impl Shaper {
    /// The font bytes this shaper shapes with.
    pub closed spec fn font(&self) -> Seq<u8> {
        self.face_data@
    }

    /// The OpenType feature tags this shaper enables.
    pub closed spec fn features(&self) -> Seq<u32> {
        self.features@
    }

    /// Number of lines held in the shape cache.
    pub closed spec fn cache_size(&self) -> nat {
        self.cache@.len()
    }

    /// Whether the shape cache holds the line `chars`.
    pub closed spec fn is_cached(&self, chars: Seq<char>) -> bool {
        exists|i: int| 0 <= i < self.cache@.len() && #[trigger] self.cache@[i].0@ == chars
    }

    #[verifier::type_invariant]
    spec fn wf(self) -> bool {
        &&& font_parses(self.face_data@)
        &&& self.features@.len() > 0
        &&& self.cache@.len() <= MAX_SHAPE_CACHE_ENTRIES
        &&& forall|i: int, j: int|
            0 <= i < j < self.cache@.len() ==> (#[trigger] self.cache@[i]).0@ != (
            #[trigger] self.cache@[j]).0@
        &&& forall|i: int|
            0 <= i < self.cache@.len() ==> (#[trigger] self.cache@[i]).1.glyphs@ == shaped_layout(
                self.face_data@,
                self.features@,
                self.cache@[i].0@,
            )
    }

    /// Parse feature tag strings (e.g. "calt", "liga") into OpenType tags.
    /// Tags that are not exactly four bytes long are ignored.
    pub fn parse_features(tags: &[String]) -> (r: Vec<u32>)
        ensures
            r@ == parsed_features(tag_texts(tags@)),
    {
        let ghost texts = tag_texts(tags@);
        let mut features: Vec<u32> = Vec::new();
        let mut i: usize = 0;
        while i < tags.len()
            invariant
                i <= tags@.len(),
                texts == tag_texts(tags@),
                features@ == parsed_features(texts.take(i as int)),
            decreases tags@.len() - i,
        {
            let bytes = tags[i].as_str().as_bytes();
            proof {
                assert(texts.take(i + 1).drop_last() =~= texts.take(i as int));
                assert(texts.take(i + 1).last() == tags@[i as int]@);
            }
            if bytes.len() == 4 {
                let tag = (bytes[0] as u32) * 0x1000000 + (bytes[1] as u32) * 0x10000 + (bytes[2] as u32)
                    * 0x100 + (bytes[3] as u32);
                features.push(tag);
            }
            i = i + 1;
        }
        proof {
            assert(texts.take(tags@.len() as int) =~= texts);
        }
        features
    }

    /// Create a shaper directly from raw font bytes.
    ///
    /// Returns `None` when the font does not parse or when no feature tag is
    /// usable.
    pub fn from_data(face_data: Arc<[u8]>, feature_tags: &[String]) -> (r: Option<Self>)
        ensures
            r.is_some() == (font_parses(face_data@) && parsed_features(tag_texts(feature_tags@)).len()
                > 0),
            r matches Some(shaper) ==> {
                &&& shaper.font() == face_data@
                &&& shaper.features() == parsed_features(tag_texts(feature_tags@))
                &&& shaper.cache_size() == 0
                &&& forall|chars: Seq<char>| !shaper.is_cached(chars)
            },
    {
        // Validate that the font can be parsed.
        let data: &[u8] = &face_data;
        if !face_parses(data) {
            return None;
        }
        let features = Self::parse_features(feature_tags);
        if features.len() == 0 {
            return None;
        }
        Some(Shaper { face_data, features, cache: Vec::new() })
    }

    /// Clear the shape cache (call on font reload/resize).
    pub fn clear_cache(&mut self)
        ensures
            final(self).font() == old(self).font(),
            final(self).features() == old(self).features(),
            final(self).cache_size() == 0,
            forall|chars: Seq<char>| !final(self).is_cached(chars),
    {
        proof {
            use_type_invariant(&*self);
        }
        self.cache = Vec::new();
    }

    /// Shape a line of characters and return shaped glyph info per column.
    ///
    /// Unshaped cells (no feature effect) get `None` in the output -- the
    /// renderer falls back to character-based lookup for those. A line that
    /// was shaped before comes from the cache, which always agrees with
    /// shaping it afresh.
    pub fn shape_line(&mut self, chars: &[char]) -> (r: Option<ShapedLine>)
        ensures
            r matches Some(line) && line.glyphs@ == shaped_layout(old(self).font(), old(self).features(), chars@),
            r matches Some(line) && line.glyphs@.len() == chars@.len() && glyphs_cover_own_cells(
                line.glyphs@,
            ),
            final(self).font() == old(self).font(),
            final(self).features() == old(self).features(),
            chars@.len() > 0 ==> final(self).is_cached(chars@),
            final(self).cache_size() <= MAX_SHAPE_CACHE_ENTRIES,
            (chars@.len() == 0 || old(self).is_cached(chars@)) ==> final(self).cache_size()
                == old(self).cache_size(),
            (chars@.len() > 0 && !old(self).is_cached(chars@)) ==> final(self).cache_size() == if old(
                self,
            ).cache_size() >= MAX_SHAPE_CACHE_ENTRIES {
                1
            } else {
                old(self).cache_size() + 1
            },
    {
        proof {
            use_type_invariant(&*self);
            lemma_shaped_layout_covers_own_cells(self.face_data@, self.features@, chars@);
        }
        if chars.len() == 0 {
            return Some(ShapedLine { glyphs: Vec::new() });
        }

        // Cache lookup by actual content (no hash collisions).
        let mut k: usize = 0;
        while k < self.cache.len()
            invariant
                k <= self.cache@.len(),
                forall|j: int| 0 <= j < k ==> self.cache@[j].0@ != chars@,
            decreases self.cache@.len() - k,
        {
            if same_chars(self.cache[k].0.as_slice(), chars) {
                proof {
                    use_type_invariant(&*self);
                    assert(self.cache@[k as int].0@ == chars@);
                    lemma_shaped_layout_covers_own_cells(self.face_data@, self.features@, chars@);
                }
                return Some(self.cache[k].1.duplicate());
            }
            k = k + 1;
        }

        let data: &[u8] = &self.face_data;
        let infos = shape_chars(data, self.features.as_slice(), chars);
        let shaped = if infos.len() == chars.len() {
            // 1:1 mapping: glyph count matches char count.
            let indices = glyph_indices(data, chars);
            let mut default_ids: Vec<u32> = Vec::new();
            let mut i: usize = 0;
            while i < indices.len()
                invariant
                    i <= indices@.len(),
                    indices@.len() == chars@.len(),
                    forall|m: int| 0 <= m < chars@.len() ==> indices@[m] == font_glyph_index(data@, chars@[m]),
                    default_ids@ == default_glyph_ids(data@, chars@).take(i as int),
                decreases indices@.len() - i,
            {
                let id: u32 = match indices[i] {
                    Some(g) => g as u32,
                    None => 0,
                };
                default_ids.push(id);
                i = i + 1;
                proof {
                    assert(default_ids@ =~= default_glyph_ids(data@, chars@).take(i as int));
                }
            }
            proof {
                assert(default_ids@ =~= default_glyph_ids(data@, chars@));
            }
            layout_one_to_one(infos.as_slice(), default_ids.as_slice())
        } else {
            // Merged ligatures: walk by cluster.
            layout_merged(chars, infos.as_slice())
        };

        // Evict all entries when cache exceeds size limit to bound memory.
        let mut cache: Vec<(Vec<char>, ShapedLine)> = Vec::new();
        std::mem::swap(&mut cache, &mut self.cache);
        if cache.len() >= MAX_SHAPE_CACHE_ENTRIES {
            cache = Vec::new();
        }
        let ghost before = cache@;
        proof {
            assert(forall|j: int| 0 <= j < before.len() ==> #[trigger] before[j].0@ != chars@);
        }
        cache.push((copy_chars(chars), shaped.duplicate()));
        proof {
            assert(cache@[cache@.len() - 1].0@ == chars@);
            assert forall|i: int, j: int| 0 <= i < j < cache@.len() implies (
            #[trigger] cache@[i]).0@ != (#[trigger] cache@[j]).0@ by {
                assert(cache@[i] == before[i]);
                if j < before.len() {
                    assert(cache@[j] == before[j]);
                }
            }
            assert forall|i: int| 0 <= i < cache@.len() implies (#[trigger] cache@[i]).1.glyphs@
                == shaped_layout(self.face_data@, self.features@, cache@[i].0@) by {
                if i < before.len() {
                    assert(cache@[i] == before[i]);
                }
            }
        }
        self.cache = cache;
        Some(shaped)
    }
}

} // verus!

use vstd::prelude::*;

use crate::EngineError;

verus! {

/// The attribution of one line of a file: the commit that last touched it, the
/// file's path in that commit, and the line's 1-indexed position there.
#[derive(Debug)]
pub struct BlameLine {
    pub original_commit: String,
    pub original_file_path: String,
    pub original_line_number: i32,
}

/// What a `BlameLine` holds, as mathematical values.
pub struct LineView {
    pub commit: Seq<char>,
    pub path: Seq<char>,
    pub line: int,
}

impl View for BlameLine {
    type V = LineView;

    open spec fn view(&self) -> LineView {
        LineView {
            commit: self.original_commit@,
            path: self.original_file_path@,
            line: self.original_line_number as int,
        }
    }
}

impl BlameLine {
    /// A copy of this line.
    pub fn duplicate(&self) -> (r: BlameLine)
        ensures
            r@ == self@,
    {
        BlameLine {
            original_commit: self.original_commit.clone(),
            original_file_path: self.original_file_path.clone(),
            original_line_number: self.original_line_number,
        }
    }
}

/// The views of a sequence of lines.
pub open spec fn lines_view(s: Seq<BlameLine>) -> Seq<LineView> {
    s.map_values(|l: BlameLine| l@)
}

/// A copy of a sequence of lines.
pub fn duplicate_lines(v: &Vec<BlameLine>) -> (r: Vec<BlameLine>)
    ensures
        lines_view(r@) == lines_view(v@),
{
    let mut r: Vec<BlameLine> = Vec::new();
    let mut i: usize = 0;
    while i < v.len()
        invariant
            i <= v.len(),
            lines_view(r@) == lines_view(v@).take(i as int),
        decreases v.len() - i,
    {
        let ghost before = r@;
        let l = v[i].duplicate();
        r.push(l);
        assert(lines_view(r@) =~= lines_view(before).push(l@));
        assert(lines_view(v@).take(i + 1) =~= lines_view(v@).take(i as int).push(v@[i as int]@));
        i = i + 1;
    }
    assert(lines_view(v@).take(v.len() as int) =~= lines_view(v@));
    r
}

/// A run of lines that one commit last touched, as the blame algorithm reports it.
pub struct BlameHunk {
    /// The commit that last touched these lines.
    pub orig_commit_id: String,
    /// The file's path in that commit, where the algorithm could tell it.
    pub path: Option<String>,
    /// The first line's position in the file at that commit (1-indexed).
    pub orig_start_line: usize,
    /// The first line's position in the file at the queried commit (1-indexed).
    pub final_start_line: usize,
    /// How many lines the run has.
    pub lines_in_hunk: usize,
}

pub struct HunkView {
    pub commit: Seq<char>,
    pub path: Option<Seq<char>>,
    pub orig_start: nat,
    pub final_start: nat,
    pub lines: nat,
}

impl View for BlameHunk {
    type V = HunkView;

    open spec fn view(&self) -> HunkView {
        HunkView {
            commit: self.orig_commit_id@,
            path: match self.path {
                Some(p) => Some(p@),
                None => None,
            },
            orig_start: self.orig_start_line as nat,
            final_start: self.final_start_line as nat,
            lines: self.lines_in_hunk as nat,
        }
    }
}

pub open spec fn hunks_view(s: Seq<BlameHunk>) -> Seq<HunkView> {
    s.map_values(|h: BlameHunk| h@)
}

/// The number of newline bytes in `b`.
pub open spec fn newline_count(b: Seq<u8>) -> nat
    decreases b.len(),
{
    if b.len() == 0 {
        0
    } else {
        newline_count(b.drop_last()) + if b.last() == 10u8 { 1nat } else { 0nat }
    }
}

/// The number of lines of a file with content `b`: a last line without a
/// newline counts too.
pub open spec fn line_count(b: Seq<u8>) -> nat {
    if b.len() == 0 || b.last() == 10u8 {
        newline_count(b)
    } else {
        newline_count(b) + 1
    }
}

proof fn lemma_newline_count_bound(b: Seq<u8>)
    ensures
        newline_count(b) <= b.len(),
    decreases b.len(),
{
    if b.len() > 0 {
        lemma_newline_count_bound(b.drop_last());
    }
}

/// Counts the lines of a file's content.
pub fn count_lines(content: &Vec<u8>) -> (r: usize)
    ensures
        r == line_count(content@),
{
    let n = content.len();
    let mut count: usize = 0;
    let mut i: usize = 0;
    while i < n
        invariant
            i <= n,
            n == content@.len(),
            count <= i,
            count == newline_count(content@.take(i as int)),
        decreases n - i,
    {
        proof {
            assert(content@.take(i + 1).drop_last() =~= content@.take(i as int));
            lemma_newline_count_bound(content@.take(i as int));
        }
        if content[i] == 10u8 {
            count = count + 1;
        }
        i = i + 1;
    }
    assert(content@.take(n as int) =~= content@);
    if n > 0 && content[n - 1] != 10u8 {
        proof {
            lemma_newline_count_bound(content@.drop_last());
        }
        count = count + 1;
    }
    count
}

/// How many lines the hunks `hs` cover together.
pub open spec fn covered(hs: Seq<HunkView>) -> nat
    decreases hs.len(),
{
    if hs.len() == 0 {
        0
    } else {
        covered(hs.drop_last()) + hs.last().lines
    }
}

/// A hunk whose path is known and whose line numbers are 1-indexed and fit an
/// `i32`.
pub open spec fn hunk_decodable(h: HunkView) -> bool {
    h.path is Some && h.orig_start >= 1 && h.orig_start + h.lines <= i32::MAX + 1
}

/// The hunks `hs` are decodable, follow one another without gap or overlap from
/// the first line on, and cover exactly `n` lines.
pub open spec fn hunks_fit(hs: Seq<HunkView>, n: nat) -> bool {
    &&& forall|k: int|
        0 <= k < hs.len() ==> #[trigger] hunk_decodable(hs[k]) && hs[k].final_start == covered(
            hs.take(k),
        ) + 1
    &&& covered(hs) == n
}

/// The lines of one hunk.
pub open spec fn hunk_lines(h: HunkView) -> Seq<LineView> {
    Seq::new(
        h.lines,
        |i: int| LineView { commit: h.commit, path: h.path.unwrap(), line: h.orig_start + i },
    )
}

/// The lines of the hunks `hs`, in order.
pub open spec fn expand(hs: Seq<HunkView>) -> Seq<LineView>
    decreases hs.len(),
{
    if hs.len() == 0 {
        Seq::empty()
    } else {
        expand(hs.drop_last()) + hunk_lines(hs.last())
    }
}

pub proof fn lemma_expand_len(hs: Seq<HunkView>)
    ensures
        expand(hs).len() == covered(hs),
    decreases hs.len(),
{
    if hs.len() > 0 {
        lemma_expand_len(hs.drop_last());
    }
}

/// The lines of decodable hunks have original line numbers of at least 1.
pub proof fn lemma_expand_lines_positive(hs: Seq<HunkView>)
    requires
        forall|k: int| 0 <= k < hs.len() ==> #[trigger] hunk_decodable(hs[k]),
    ensures
        forall|i: int| 0 <= i < expand(hs).len() ==> #[trigger] expand(hs)[i].line >= 1,
    decreases hs.len(),
{
    if hs.len() > 0 {
        let init = hs.drop_last();
        assert forall|k: int| 0 <= k < init.len() implies #[trigger] hunk_decodable(init[k]) by {
            assert(init[k] == hs[k]);
            assert(hunk_decodable(hs[k]));
        }
        lemma_expand_lines_positive(init);
        assert(hunk_decodable(hs[hs.len() - 1]));
        let e = expand(hs);
        assert(e == expand(init) + hunk_lines(hs.last()));
        assert forall|i: int| 0 <= i < e.len() implies #[trigger] e[i].line >= 1 by {
            if i < expand(init).len() {
                assert(e[i] == expand(init)[i]);
            } else {
                assert(e[i] == hunk_lines(hs.last())[i - expand(init).len()]);
            }
        }
    }
}

proof fn lemma_covered_take_mono(hs: Seq<HunkView>, k: int)
    requires
        0 <= k <= hs.len(),
    ensures
        covered(hs.take(k)) <= covered(hs),
    decreases hs.len() - k,
{
    if k < hs.len() {
        lemma_covered_take_mono(hs, k + 1);
        assert(hs.take(k + 1).drop_last() =~= hs.take(k));
    } else {
        assert(hs.take(k) =~= hs);
    }
}

/// Expands the hunks of a blame into one line each, in order, after checking
/// that they cover the `line_count` lines of the file exactly: a hunk without a
/// path, a hunk starting at original line 0, a gap, an overlap, or a count that
/// differs fails the whole blame. Every line returned has an original line
/// number of at least 1.
pub fn expand_hunks(hunks: &Vec<BlameHunk>, line_count: usize) -> (r: Result<
    Vec<BlameLine>,
    EngineError,
>)
    ensures
        r is Ok <==> hunks_fit(hunks_view(hunks@), line_count as nat),
        match r {
            Ok(lines) => lines_view(lines@) == expand(hunks_view(hunks@)) && lines@.len()
                == line_count && forall|i: int|
                0 <= i < lines@.len() ==> #[trigger] lines@[i].original_line_number >= 1,
            Err(e) => e == EngineError::BlameFailed,
        },
{
    let ghost hs = hunks_view(hunks@);
    let mut out: Vec<BlameLine> = Vec::new();
    let mut done: usize = 0;
    let mut k: usize = 0;
    while k < hunks.len()
        invariant
            k <= hunks.len(),
            hs == hunks_view(hunks@),
            hs.len() == hunks.len(),
            done == covered(hs.take(k as int)),
            done <= line_count,
            lines_view(out@) == expand(hs.take(k as int)),
            forall|j: int|
                0 <= j < k ==> #[trigger] hunk_decodable(hs[j]) && hs[j].final_start == covered(
                    hs.take(j),
                ) + 1,
        decreases hunks.len() - k,
    {
        let h = &hunks[k];
        assert(hs[k as int] == h@);
        assert(hs.take(k + 1).drop_last() =~= hs.take(k as int));
        let path = match &h.path {
            Some(p) => p,
            None => {
                proof {
                    if hunks_fit(hs, line_count as nat) {
                        assert(hunk_decodable(hs[k as int]));
                    }
                }
                return Err(EngineError::BlameFailed);
            },
        };
        if h.orig_start_line == 0 || h.final_start_line == 0 || h.final_start_line - 1 != done
            || h.lines_in_hunk
            > line_count - done || h.orig_start_line > 2147483648 || h.lines_in_hunk > 2147483648
            - h.orig_start_line {
            proof {
                if hunks_fit(hs, line_count as nat) {
                    assert(hunk_decodable(hs[k as int]));
                    lemma_covered_take_mono(hs, k + 1);
                }
            }
            return Err(EngineError::BlameFailed);
        }
        let start = h.orig_start_line;
        let mut i: usize = 0;
        while i < h.lines_in_hunk
            invariant
                i <= h.lines_in_hunk,
                k < hs.len(),
                hs == hunks_view(hunks@),
                hs.len() == hunks.len(),
                done == covered(hs.take(k as int)),
                done + h.lines_in_hunk <= line_count,
                forall|j: int|
                    0 <= j < k ==> #[trigger] hunk_decodable(hs[j]) && hs[j].final_start
                        == covered(hs.take(j)) + 1,
                h@ == hs[k as int],
                h@.path is Some,
                path@ == h@.path.unwrap(),
                start == h.orig_start_line,
                start + h.lines_in_hunk <= 2147483648,
                lines_view(out@) == expand(hs.take(k as int)) + hunk_lines(h@).take(i as int),
            decreases h.lines_in_hunk - i,
        {
            let line = BlameLine {
                original_commit: h.orig_commit_id.clone(),
                original_file_path: path.clone(),
                original_line_number: (start + i) as i32,
            };
            let ghost before = out@;
            out.push(line);
            assert(lines_view(out@) =~= lines_view(before).push(line@));
            assert(line@ == hunk_lines(h@)[i as int]);
            assert(hunk_lines(h@).take(i + 1) =~= hunk_lines(h@).take(i as int).push(
                hunk_lines(h@)[i as int],
            ));
            assert(lines_view(out@) =~= expand(hs.take(k as int)) + hunk_lines(h@).take(i + 1));
            i = i + 1;
        }
        assert(hunk_lines(h@).take(h.lines_in_hunk as int) =~= hunk_lines(h@));
        assert(expand(hs.take(k + 1)) == expand(hs.take(k as int)) + hunk_lines(h@));
        assert(hunk_decodable(hs[k as int]) && hs[k as int].final_start == covered(
            hs.take(k as int),
        ) + 1);
        done = done + h.lines_in_hunk;
        k = k + 1;
        assert forall|j: int| 0 <= j < k implies #[trigger] hunk_decodable(hs[j]) && hs[j].final_start
            == covered(hs.take(j)) + 1 by {
            if j < k - 1 {
                assert(hunk_decodable(hs[j]));
            }
        }
    }
    assert(hs.take(k as int) =~= hs);
    if done != line_count {
        return Err(EngineError::BlameFailed);
    }
    proof {
        lemma_expand_len(hs);
        assert forall|j: int| 0 <= j < hs.len() implies #[trigger] hunk_decodable(hs[j]) by {
            assert(hunk_decodable(hs[j]));
        }
        lemma_expand_lines_positive(hs);
        assert forall|i: int| 0 <= i < out@.len() implies #[trigger] out@[i].original_line_number
            >= 1 by {
            assert(lines_view(out@)[i].line == out@[i].original_line_number as int);
        }
    }
    Ok(out)
}

} // verus!

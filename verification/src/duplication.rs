//! Finding blocks of lines that are repeated across the files of a code review.
//!
//! Every window of five consecutive lines of a file is a block; blocks shorter
//! than fifty characters or made only of boilerplate lines are not compared.
//! A block found in at least two different files is a finding; the findings
//! are ranked by lines, then by number of occurrences, and at most twenty are
//! kept.

use vstd::prelude::*;
use crate::code_review::{DuplicationFinding, FileInfo, is_common_pattern, is_common_pattern_spec, occurrences_view};
use crate::task_registry::take_at_most;
use crate::text::{chars_of, line_bounds, line_bounds_of, lines_spec, str_eq, string_of};

verus! {

/// Lines in a compared block.
pub const BLOCK_LINES: usize = 5;

/// Fewest characters of a compared block.
pub const MIN_BLOCK_CHARS: usize = 50;

/// Most findings reported.
pub const MAX_FINDINGS: usize = 20;

/// Where a block occurs: file, first line (counted from 1), last line.
pub type Occurrence = (Seq<char>, usize, usize);

/// A block with where it occurs.
pub type BlockView = (Seq<char>, Occurrence);

/// A finding: the block, its occurrences, and its number of lines.
pub type FindingView = (Seq<char>, Seq<Occurrence>, nat);

/// Lines joined by newlines.
pub open spec fn join_lines(ls: Seq<Seq<char>>) -> Seq<char>
    decreases ls.len(),
{
    if ls.len() == 0 {
        Seq::empty()
    } else if ls.len() == 1 {
        ls[0]
    } else {
        join_lines(ls.drop_last()) + "\n"@ + ls.last()
    }
}

/// The number of windows of a file of `n` lines: one per start from the first
/// line to the fifth-last, or a single one for a shorter file.
pub open spec fn window_starts(n: nat) -> nat {
    if n >= BLOCK_LINES { (n - BLOCK_LINES + 1) as nat } else { 1 }
}

/// The end (exclusive, counted from 0) of the window starting at `start`.
pub open spec fn window_end(n: nat, start: int) -> int {
    if start + BLOCK_LINES <= n { start + BLOCK_LINES } else { n as int }
}

/// The text of the window of `lines` starting at `start`.
pub open spec fn window_text(lines: Seq<Seq<char>>, start: int) -> Seq<char> {
    join_lines(lines.subrange(start, window_end(lines.len(), start)))
}

/// Whether a block is compared: at least fifty characters and not only
/// boilerplate lines.
pub open spec fn block_compared(b: Seq<char>) -> bool {
    b.len() >= MIN_BLOCK_CHARS && !is_common_pattern_spec(b)
}

/// The windows of the file `path` with `content`, in order.
pub open spec fn file_windows(path: Seq<char>, content: Seq<char>) -> Seq<BlockView> {
    let lines = lines_spec(content);
    Seq::new(
        window_starts(lines.len()),
        |s: int| (window_text(lines, s), (path, (s + 1) as usize, window_end(lines.len(), s) as usize)),
    )
}

/// Selects the blocks that are compared.
pub open spec fn compared() -> spec_fn(BlockView) -> bool {
    |b: BlockView| block_compared(b.0)
}

/// The compared blocks of the file `path` with `content`, in order.
pub open spec fn file_blocks(path: Seq<char>, content: Seq<char>) -> Seq<BlockView> {
    file_windows(path, content).filter(compared())
}

/// The compared blocks of all files, file after file.
pub open spec fn all_blocks(files: Seq<FileInfo>) -> Seq<BlockView>
    decreases files.len(),
{
    if files.len() == 0 {
        Seq::empty()
    } else {
        all_blocks(files.drop_last()) + file_blocks(files.last().path@, files.last().content@)
    }
}

/// The texts of blocks.
pub open spec fn patterns_of(bs: Seq<BlockView>) -> Seq<Seq<char>> {
    bs.map_values(|b: BlockView| b.0)
}

/// The texts in order of first appearance, each once.
pub open spec fn distinct(ps: Seq<Seq<char>>) -> Seq<Seq<char>>
    decreases ps.len(),
{
    if ps.len() == 0 {
        Seq::empty()
    } else {
        let d = distinct(ps.drop_last());
        if d.contains(ps.last()) { d } else { d.push(ps.last()) }
    }
}

/// Selects the blocks with text `p`.
pub open spec fn with_text(p: Seq<char>) -> spec_fn(BlockView) -> bool {
    |b: BlockView| b.0 == p
}

/// Where the block `p` occurs among `bs`, in order.
pub open spec fn occurrences(bs: Seq<BlockView>, p: Seq<char>) -> Seq<Occurrence> {
    bs.filter(with_text(p)).map_values(|b: BlockView| b.1)
}

/// Whether occurrences lie in at least two different files.
pub open spec fn spans_files(o: Seq<Occurrence>) -> bool {
    exists|i: int, j: int| 0 <= i < o.len() && 0 <= j < o.len() && #[trigger] o[i].0 != #[trigger] o[j].0
}

/// Selects the findings that span files.
pub open spec fn spanning() -> spec_fn(FindingView) -> bool {
    |f: FindingView| spans_files(f.1)
}

/// The finding of the block `p` among `bs`.
pub open spec fn finding_of(bs: Seq<BlockView>, p: Seq<char>) -> FindingView {
    (p, occurrences(bs, p), lines_spec(p).len())
}

/// All blocks, one finding each, in order of first appearance.
pub open spec fn block_findings(bs: Seq<BlockView>) -> Seq<FindingView> {
    distinct(patterns_of(bs)).map_values(|p: Seq<char>| finding_of(bs, p))
}

/// The findings of `files`: the blocks found in at least two different files.
pub open spec fn candidates(files: Seq<FileInfo>) -> Seq<FindingView> {
    block_findings(all_blocks(files)).filter(spanning())
}

/// Whether `a` ranks before `b` or with it: more lines, or as many lines and at
/// least as many occurrences.
pub open spec fn ranks_with_or_before(a: FindingView, b: FindingView) -> bool {
    a.2 > b.2 || (a.2 == b.2 && a.1.len() >= b.1.len())
}

/// Whether findings are ranked.
pub open spec fn ranked(s: Seq<FindingView>) -> bool {
    forall|i: int, j: int| 0 <= i < j < s.len() ==> ranks_with_or_before(#[trigger] s[i], #[trigger] s[j])
}

/// The abstract value of findings.
pub open spec fn findings_view(v: Seq<DuplicationFinding>) -> Seq<FindingView> {
    v.map_values(|f: DuplicationFinding| (f.pattern@, occurrences_view(f.files@), f.line_count as nat))
}

/// A block found while scanning.
struct BlockAt {
    text: String,
    path: String,
    first: usize,
    last: usize,
}

spec fn blocks_view(v: Seq<BlockAt>) -> Seq<BlockView> {
    v.map_values(|b: BlockAt| (b.text@, (b.path@, b.first, b.last)))
}

proof fn lemma_join_push(ls: Seq<Seq<char>>, x: Seq<char>)
    ensures
        join_lines(ls.push(x)) == if ls.len() == 0 { x } else { join_lines(ls) + "\n"@ + x },
{
    assert(ls.push(x).drop_last() =~= ls);
    if ls.len() == 0 {
        assert(ls.push(x)[0] == x);
    }
}

/// The text of the window of lines `start..end` of `cs`, whose line bounds are `b`.
fn window_string(cs: &Vec<char>, b: &Vec<(usize, usize)>, start: usize, end: usize) -> (s: String)
    requires
        line_bounds_of(cs@, b@),
        start <= end <= b@.len(),
    ensures
        s@ == join_lines(lines_spec(cs@).subrange(start as int, end as int)),
{
    let ghost lines = lines_spec(cs@);
    proof { reveal_strlit("\n"); }
    let mut w: Vec<char> = Vec::new();
    let mut j = start;
    assert(lines.subrange(start as int, start as int) =~= Seq::<Seq<char>>::empty());
    while j < end
        invariant
            line_bounds_of(cs@, b@),
            lines == lines_spec(cs@),
            start <= j <= end <= b@.len(),
            w@ == join_lines(lines.subrange(start as int, j as int)),
        decreases end - j,
    {
        let ghost before = w@;
        if j > start {
            w.push('\n');
        }
        let ghost mid = w@;
        let (from, to) = b[j];
        assert(b@[j as int].0 <= b@[j as int].1 <= cs@.len());
        let mut k = from;
        while k < to
            invariant
                from <= k <= to <= cs@.len(),
                w@ == mid + cs@.subrange(from as int, k as int),
            decreases to - k,
        {
            w.push(cs[k]);
            assert(cs@.subrange(from as int, k + 1) =~= cs@.subrange(from as int, k as int).push(cs@[k as int]));
            k += 1;
        }
        proof {
            reveal_strlit("\n");
            let prev = lines.subrange(start as int, j as int);
            assert(lines.subrange(start as int, j + 1) =~= prev.push(lines[j as int]));
            lemma_join_push(prev, lines[j as int]);
            assert(cs@.subrange(from as int, to as int) == lines[j as int]);
            if j > start {
                assert(mid =~= before + "\n"@);
            } else {
                assert(before =~= Seq::<char>::empty());
            }
            assert(w@ =~= join_lines(lines.subrange(start as int, j + 1)));
        }
        j += 1;
    }
    string_of(w.as_slice(), 0, w.len())
}

/// The compared blocks of one file, in order.
fn blocks_of_file(f: &FileInfo) -> (r: Vec<BlockAt>)
    ensures
        blocks_view(r@) == file_blocks(f.path@, f.content@),
{
    let cs = chars_of(f.content.as_str());
    let b = line_bounds(&cs);
    let ghost lines = lines_spec(cs@);
    let n = b.len();
    let count = if n >= BLOCK_LINES { n - BLOCK_LINES + 1 } else { 1 };
    let ghost all = file_windows(f.path@, f.content@);
    let ghost pred = compared();
    let mut out: Vec<BlockAt> = Vec::new();
    let mut start: usize = 0;
    while start < count
        invariant
            cs@ == f.content@,
            line_bounds_of(cs@, b@),
            lines == lines_spec(cs@),
            n == b@.len(),
            n == lines.len(),
            count == window_starts(n as nat),
            all == file_windows(f.path@, f.content@),
            all.len() == count,
            pred == compared(),
            0 <= start <= count,
            blocks_view(out@) == all.take(start as int).filter(pred),
        decreases count - start,
    {
        let end = if start + BLOCK_LINES <= n { start + BLOCK_LINES } else { n };
        let text = window_string(&cs, &b, start, end);
        let ghost item = (text@, (f.path@, (start + 1) as usize, end));
        assert(all[start as int] == item);
        proof {
            assert(all.take(start + 1) =~= all.take(start as int).push(item));
            all.take(start as int).lemma_filter_push(item, pred);
        }
        let keep = text.as_str().unicode_len() >= MIN_BLOCK_CHARS && !is_common_pattern(text.as_str());
        if keep {
            let ghost before = blocks_view(out@);
            out.push(BlockAt { text, path: f.path.clone(), first: start + 1, last: end });
            assert(blocks_view(out@) =~= before.push(item));
        }
        start += 1;
    }
    assert(all.take(count as int) =~= all);
    out
}

/// The compared blocks of all files, file after file.
fn blocks_of_files(files: &Vec<FileInfo>) -> (r: Vec<BlockAt>)
    ensures
        blocks_view(r@) == all_blocks(files@),
{
    let mut out: Vec<BlockAt> = Vec::new();
    let mut i: usize = 0;
    assert(files@.take(0) =~= Seq::<FileInfo>::empty());
    while i < files.len()
        invariant
            0 <= i <= files@.len(),
            blocks_view(out@) == all_blocks(files@.take(i as int)),
        decreases files@.len() - i,
    {
        let mut fb = blocks_of_file(&files[i]);
        let ghost before = out@;
        let ghost added = fb@;
        out.append(&mut fb);
        proof {
            let t = files@.take(i + 1);
            assert(t.drop_last() =~= files@.take(i as int));
            assert(t.last() == files@[i as int]);
            assert(blocks_view(out@) =~= blocks_view(before) + blocks_view(added));
        }
        i += 1;
    }
    assert(files@.take(files@.len() as int) =~= files@);
    out
}

proof fn lemma_distinct_contains(ps: Seq<Seq<char>>, x: Seq<char>)
    ensures
        distinct(ps).contains(x) <==> ps.contains(x),
    decreases ps.len(),
{
    if ps.len() > 0 {
        let q = ps.drop_last();
        let d = distinct(q);
        let last = ps.last();
        lemma_distinct_contains(q, x);
        if x == last {
            assert(ps[ps.len() - 1] == x);
            if !d.contains(last) {
                assert(d.push(last)[d.len() as int] == x);
            }
        } else {
            if q.contains(x) {
                let i = choose|i: int| 0 <= i < q.len() && q[i] == x;
                assert(ps[i] == x);
            }
            if ps.contains(x) {
                let i = choose|i: int| 0 <= i < ps.len() && ps[i] == x;
                assert(i < q.len());
                assert(q[i] == x);
            }
            if d.contains(x) {
                let i = choose|i: int| 0 <= i < d.len() && d[i] == x;
                assert(d.push(last)[i] == x);
            }
            if d.push(last).contains(x) {
                let i = choose|i: int| 0 <= i < d.len() + 1 && d.push(last)[i] == x;
                assert(i < d.len());
                assert(d[i] == x);
            }
        }
    }
}

proof fn lemma_distinct_unique(ps: Seq<Seq<char>>)
    ensures
        forall|i: int, j: int| 0 <= i < j < distinct(ps).len() ==> distinct(ps)[i] != distinct(ps)[j],
    decreases ps.len(),
{
    if ps.len() > 0 {
        let q = ps.drop_last();
        let d = distinct(q);
        let last = ps.last();
        lemma_distinct_unique(q);
        if !d.contains(last) {
            let e = d.push(last);
            assert forall|i: int, j: int| 0 <= i < j < e.len() implies e[i] != e[j] by {
                if j == d.len() {
                    if e[i] == e[j] {
                        assert(d[i] == last);
                        assert(d.contains(last));
                    }
                } else {
                    assert(e[i] == d[i] && e[j] == d[j]);
                }
            }
        }
    }
}

proof fn lemma_no_occurrences(bs: Seq<BlockView>, p: Seq<char>)
    requires
        !patterns_of(bs).contains(p),
    ensures
        occurrences(bs, p) == Seq::<Occurrence>::empty(),
    decreases bs.len(),
{
    if bs.len() > 0 {
        let q = bs.drop_last();
        assert(bs =~= q.push(bs.last()));
        if patterns_of(q).contains(p) {
            let i = choose|i: int| 0 <= i < patterns_of(q).len() && patterns_of(q)[i] == p;
            assert(patterns_of(bs)[i] == p);
        }
        lemma_no_occurrences(q, p);
        q.lemma_filter_push(bs.last(), with_text(p));
        assert(patterns_of(bs)[bs.len() - 1] == bs.last().0);
        assert(bs.filter(with_text(p)) =~= q.filter(with_text(p)));
    }
    assert(occurrences(bs, p) =~= Seq::<Occurrence>::empty()) by {
        if bs.len() == 0 {
            assert(bs.filter(with_text(p)) =~= Seq::<BlockView>::empty()) by {
                broadcast use vstd::seq_lib::group_filter_ensures;
            }
        }
    }
}

proof fn lemma_occurrences_push(bs: Seq<BlockView>, b: BlockView, p: Seq<char>)
    ensures
        occurrences(bs.push(b), p) == if b.0 == p { occurrences(bs, p).push(b.1) } else { occurrences(bs, p) },
{
    bs.lemma_filter_push(b, with_text(p));
    if b.0 == p {
        assert(bs.filter(with_text(p)).push(b).map_values(|x: BlockView| x.1)
            =~= bs.filter(with_text(p)).map_values(|x: BlockView| x.1).push(b.1));
    }
}

/// The views of the groups found so far: each text with its occurrences.
spec fn groups_match(
    pats: Seq<String>,
    occs: Seq<Vec<(String, usize, usize)>>,
    bs: Seq<BlockView>,
) -> bool {
    &&& pats.map_values(|s: String| s@) == distinct(patterns_of(bs))
    &&& occs.len() == pats.len()
    &&& forall|k: int| 0 <= k < occs.len() ==> occurrences_view(#[trigger] occs[k]@) == occurrences(bs, pats[k]@)
}

/// Groups the blocks by text, texts in order of first appearance.
fn group_blocks(blocks: Vec<BlockAt>) -> (r: (Vec<String>, Vec<Vec<(String, usize, usize)>>))
    ensures
        groups_match(r.0@, r.1@, blocks_view(blocks@)),
{
    let ghost bs = blocks_view(blocks@);
    let mut pats: Vec<String> = Vec::new();
    let mut occs: Vec<Vec<(String, usize, usize)>> = Vec::new();
    let mut blocks = blocks;
    let mut taken: Vec<BlockAt> = Vec::new();
    let mut i: usize = 0;
    let n = blocks.len();
    proof {
        assert(bs.take(0) =~= Seq::<BlockView>::empty());
        assert(pats@.map_values(|s: String| s@) =~= distinct(patterns_of(bs.take(0))));
    }
    while i < n
        invariant
            n == bs.len(),
            0 <= i <= n,
            blocks_view(blocks@) == bs.subrange(i as int, n as int),
            blocks_view(blocks@).len() == blocks@.len(),
            groups_match(pats@, occs@, bs.take(i as int)),
        decreases n - i,
    {
        let ghost bb = blocks@;
        let b = blocks.remove(0);
        let ghost bv = (b.text@, (b.path@, b.first, b.last));
        proof {
            assert(blocks_view(bb)[0] == bv);
            assert(bs.subrange(i as int, n as int)[0] == bv);
            assert(blocks@ =~= bb.remove(0));
            assert forall|k: int| 0 <= k < blocks@.len() implies #[trigger] blocks@[k] == bb[k + 1] by {}
            assert forall|k: int| 0 <= k < blocks@.len() implies
                #[trigger] blocks_view(blocks@)[k] == bs.subrange(i + 1, n as int)[k] by {
                assert(blocks_view(bb)[k + 1] == bs.subrange(i as int, n as int)[k + 1]);
            }
            assert(blocks_view(blocks@) =~= bs.subrange(i + 1, n as int));
            assert(bs.take(i + 1) =~= bs.take(i as int).push(bv));
            assert(patterns_of(bs.take(i + 1)) =~= patterns_of(bs.take(i as int)).push(bv.0));
            assert(patterns_of(bs.take(i + 1)).drop_last() =~= patterns_of(bs.take(i as int)));
            lemma_distinct_unique(patterns_of(bs.take(i as int)));
        }
        let ghost prev = bs.take(i as int);
        let ghost d = distinct(patterns_of(prev));
        let mut k: usize = 0;
        let mut found = false;
        while k < pats.len() && !found
            invariant
                0 <= k <= pats@.len(),
                pats@.map_values(|s: String| s@) == d,
                b.text@ == bv.0,
                forall|m: int| 0 <= m < k ==> #[trigger] pats@[m]@ != bv.0,
                found ==> k < pats@.len() && pats@[k as int]@ == bv.0,
            decreases pats@.len() - k + (if found { 0int } else { 1 }),
        {
            if str_eq(pats[k].as_str(), b.text.as_str()) {
                found = true;
            } else {
                k += 1;
            }
        }
        let occ = (b.path, b.first, b.last);
        if found {
            let mut v = occs.remove(k);
            let ghost old_occs = occs@;
            v.push(occ);
            occs.insert(k, v);
            proof {
                assert(d[k as int] == bv.0);
                assert(d.contains(bv.0));
                assert(distinct(patterns_of(bs.take(i + 1))) == d);
                assert forall|m: int| 0 <= m < occs@.len() implies
                    occurrences_view(#[trigger] occs@[m]@) == occurrences(bs.take(i + 1), pats@[m]@) by {
                    lemma_occurrences_push(prev, bv, pats@[m]@);
                    if m == k {
                        assert(occurrences_view(occs@[m]@) =~= occurrences_view(v@));
                    } else {
                        assert(d[m] != d[k as int]);
                        assert(pats@[m]@ == d[m]);
                    }
                }
            }
        } else {
            let ghost old_pats = pats@;
            pats.push(b.text);
            let mut v: Vec<(String, usize, usize)> = Vec::new();
            v.push(occ);
            occs.push(v);
            proof {
                if d.contains(bv.0) {
                    let m = choose|m: int| 0 <= m < d.len() && d[m] == bv.0;
                    assert(old_pats[m]@ == d[m]);
                }
                assert(!d.contains(bv.0));
                assert(distinct(patterns_of(bs.take(i + 1))) == d.push(bv.0));
                assert(pats@.map_values(|s: String| s@) =~= d.push(bv.0));
                lemma_distinct_contains(patterns_of(prev), bv.0);
                lemma_no_occurrences(prev, bv.0);
                assert forall|m: int| 0 <= m < occs@.len() implies
                    occurrences_view(#[trigger] occs@[m]@) == occurrences(bs.take(i + 1), pats@[m]@) by {
                    lemma_occurrences_push(prev, bv, pats@[m]@);
                    if m == old_pats.len() {
                        assert(occurrences_view(occs@[m]@) =~= seq![bv.1]);
                        assert(Seq::<Occurrence>::empty().push(bv.1) =~= seq![bv.1]);
                    } else {
                        assert(old_pats[m]@ == d[m]);
                        assert(d[m] != bv.0);
                    }
                }
            }
        }
        i += 1;
    }
    assert(bs.take(n as int) =~= bs);
    (pats, occs)
}

/// Whether occurrences lie in at least two different files.
fn occurrences_span_files(o: &Vec<(String, usize, usize)>) -> (b: bool)
    ensures
        b == spans_files(occurrences_view(o@)),
{
    let ghost ov = occurrences_view(o@);
    if o.len() == 0 {
        return false;
    }
    let mut i: usize = 1;
    while i < o.len()
        invariant
            1 <= i <= o@.len(),
            ov == occurrences_view(o@),
            forall|m: int| 0 <= m < i ==> #[trigger] ov[m].0 == ov[0].0,
        decreases o@.len() - i,
    {
        if !str_eq(o[i].0.as_str(), o[0].0.as_str()) {
            assert(ov[i as int].0 != ov[0].0);
            return true;
        }
        i += 1;
    }
    assert forall|a: int, c: int| 0 <= a < ov.len() && 0 <= c < ov.len() implies ov[a].0 == ov[c].0 by {
        assert(ov[a].0 == ov[0].0);
        assert(ov[c].0 == ov[0].0);
    }
    false
}

/// The number of lines of a text, as `str::lines` counts them.
fn line_count_of(text: &str) -> (n: usize)
    ensures
        n == lines_spec(text@).len(),
{
    let cs = chars_of(text);
    let b = line_bounds(&cs);
    b.len()
}

/// The groups that span files, as findings, in the order of the groups.
fn spanning_findings(pats: Vec<String>, occs: Vec<Vec<(String, usize, usize)>>, Ghost(bs): Ghost<Seq<BlockView>>) -> (r: Vec<DuplicationFinding>)
    requires
        groups_match(pats@, occs@, bs),
    ensures
        findings_view(r@) == block_findings(bs).filter(spanning()),
{
    let ghost all = block_findings(bs);
    let ghost pred = spanning();
    let ghost pv = pats@;
    let ghost ov = occs@;
    let n = pats.len();
    let mut pats = pats;
    let mut occs = occs;
    let mut out: Vec<DuplicationFinding> = Vec::new();
    let mut k: usize = 0;
    assert(all.len() == n);
    while k < n
        invariant
            n == pv.len(),
            groups_match(pv, ov, bs),
            all == block_findings(bs),
            pred == spanning(),
            0 <= k <= n,
            pats@ == pv.subrange(k as int, n as int),
            occs@ == ov.subrange(k as int, n as int),
            findings_view(out@) == all.take(k as int).filter(pred),
        decreases n - k,
    {
        let p = pats.remove(0);
        let o = occs.remove(0);
        assert(p == pv[k as int]);
        assert(o == ov[k as int]);
        let ghost fv = finding_of(bs, p@);
        proof {
            assert(pv.map_values(|s: String| s@)[k as int] == p@);
            assert(all[k as int] == fv);
            assert(occurrences_view(o@) == occurrences(bs, p@));
            assert(all.take(k + 1) =~= all.take(k as int).push(fv));
            all.take(k as int).lemma_filter_push(fv, pred);
        }
        if occurrences_span_files(&o) {
            let line_count = line_count_of(p.as_str());
            let ghost before = findings_view(out@);
            out.push(DuplicationFinding { pattern: p, files: o, line_count });
            assert(findings_view(out@) =~= before.push(fv));
        }
        assert(pats@ =~= pv.subrange(k + 1, n as int));
        assert(occs@ =~= ov.subrange(k + 1, n as int));
        k += 1;
    }
    assert(all.take(n as int) =~= all);
    out
}

/// Whether finding `a` ranks before `b` or with it.
fn ranks_before_or_with_exec(a: &DuplicationFinding, b: &DuplicationFinding) -> (r: bool)
    ensures
        r == ranks_with_or_before(findings_view(seq![*a])[0], findings_view(seq![*b])[0]),
{
    a.line_count > b.line_count || (a.line_count == b.line_count && a.files.len() >= b.files.len())
}

/// Ranks findings: more lines first, then more occurrences.
fn rank_findings(v: Vec<DuplicationFinding>) -> (r: Vec<DuplicationFinding>)
    ensures
        ranked(findings_view(r@)),
        findings_view(r@).to_multiset() == findings_view(v@).to_multiset(),
{
    broadcast use vstd::seq_lib::group_to_multiset_ensures;
    let ghost total = findings_view(v@).to_multiset();
    let mut v = v;
    let mut r: Vec<DuplicationFinding> = Vec::new();
    while v.len() > 0
        invariant
            ranked(findings_view(r@)),
            findings_view(r@).to_multiset().add(findings_view(v@).to_multiset()) == total,
        decreases v@.len(),
    {
        let ghost vb = v@;
        let x = v.pop().unwrap();
        let ghost xv = findings_view(seq![x])[0];
        proof {
            assert(vb =~= v@.push(x));
            assert(findings_view(vb) =~= findings_view(v@).push(xv));
            vstd::seq_lib::to_multiset_build(findings_view(v@), xv);
        }
        let mut p: usize = 0;
        let mut done = false;
        while !done && p < r.len()
            invariant
                0 <= p <= r@.len(),
                xv == findings_view(seq![x])[0],
                forall|m: int| 0 <= m < p ==> ranks_with_or_before(#[trigger] findings_view(r@)[m], xv),
                done ==> p < r@.len() && !ranks_with_or_before(findings_view(r@)[p as int], xv),
            decreases r@.len() - p + (if done { 0int } else { 1 }),
        {
            assert(findings_view(seq![r@[p as int]])[0] == findings_view(r@)[p as int]);
            if ranks_before_or_with_exec(&r[p], &x) {
                p += 1;
            } else {
                done = true;
            }
        }
        let ghost before = r@;
        let ghost fb = findings_view(before);
        r.insert(p, x);
        proof {
            assert(findings_view(r@) =~= fb.insert(p as int, xv));
            assert forall|i: int, j: int| 0 <= i < j < findings_view(r@).len() implies
                ranks_with_or_before(#[trigger] findings_view(r@)[i], #[trigger] findings_view(r@)[j]) by {
                let s = findings_view(r@);
                if j < p {
                    assert(ranks_with_or_before(fb[i], fb[j]));
                } else if j == p {
                    assert(ranks_with_or_before(fb[i], xv));
                } else if i < p {
                    assert(ranks_with_or_before(fb[i], xv));
                    assert(ranks_with_or_before(fb[p as int], fb[j - 1]));
                } else if i == p {
                    assert(ranks_with_or_before(fb[p as int], fb[j - 1]));
                } else {
                    assert(ranks_with_or_before(fb[i - 1], fb[j - 1]));
                }
            }
            vstd::seq_lib::to_multiset_insert(fb, p as int, xv);
        }
    }
    assert(findings_view(v@).to_multiset() =~= vstd::multiset::Multiset::empty());
    r
}

/// The blocks of five lines repeated across different files, ranked by lines
/// and then by occurrences, at most twenty. Findings that rank equal come in no
/// stated order.
pub fn find_duplications(files: &Vec<FileInfo>) -> (r: Vec<DuplicationFinding>)
    ensures
        exists|s: Seq<FindingView>| {
            &&& ranked(s)
            &&& s.to_multiset() == candidates(files@).to_multiset()
            &&& findings_view(r@) == #[trigger] take_at_most(s, MAX_FINDINGS as int)
        },
{
    let blocks = blocks_of_files(files);
    let ghost bs = blocks_view(blocks@);
    let (pats, occs) = group_blocks(blocks);
    let found = spanning_findings(pats, occs, Ghost(bs));
    let mut ranked_findings = rank_findings(found);
    let ghost s = findings_view(ranked_findings@);
    ranked_findings.truncate(MAX_FINDINGS);
    assert(findings_view(ranked_findings@) =~= take_at_most(s, MAX_FINDINGS as int));
    ranked_findings
}

} // verus!

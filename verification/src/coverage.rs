//! Source-line coverage: the set of distinct source lines reached, one
//! lazily grown hit mask per touched file, and the line-coverage
//! interchange report built from it.

use crate::debuginfo;
use crate::debuginfo::DebugInfo;
use crate::image::ImageParseError;
use crate::tags::dec_chars;
use crate::tags::u64_to_dec;
use std::collections::HashMap;
use vstd::prelude::*;

verus! {

broadcast use vstd::std_specs::hash::group_hash_axioms;

/// The (file name, hit mask) views of the tracked entries.
pub open spec fn entry_views(rs: Seq<(String, Vec<u8>)>) -> Seq<(Seq<char>, Seq<u8>)> {
    rs.map_values(|e: (String, Vec<u8>)| (e.0@, e.1@))
}

/// The file-to-mask map a sequence of entries stands for.
pub open spec fn results_map(rs: Seq<(Seq<char>, Seq<u8>)>) -> Map<Seq<char>, Seq<u8>>
    decreases rs.len(),
{
    if rs.len() == 0 {
        Map::empty()
    } else {
        results_map(rs.drop_last()).insert(rs.last().0, rs.last().1)
    }
}

/// A mask grown, if need be, to cover `line` — one-indexed — with that
/// line's slot set to one.
pub open spec fn grown_mask(mask: Seq<u8>, line: int) -> Seq<u8> {
    let base = if line <= mask.len() {
        mask
    } else {
        mask + Seq::new((line - mask.len()) as nat, |j: int| 0u8)
    };
    base.update(line - 1, 1u8)
}

/// The map after line `line` of `file` is marked hit.
pub open spec fn mark_hit(m: Map<Seq<char>, Seq<u8>>, file: Seq<char>, line: int) -> Map<
    Seq<char>,
    Seq<u8>,
> {
    let mask = if m.contains_key(file) {
        m[file]
    } else {
        Seq::empty()
    };
    m.insert(file, grown_mask(mask, line))
}

/// Whether the mask map records line index `i` — zero-based — of `file` as
/// hit.
pub open spec fn is_hit(m: Map<Seq<char>, Seq<u8>>, file: Seq<char>, i: int) -> bool {
    m.contains_key(file) && 0 <= i < m[file].len() && m[file][i] != 0
}

/// Entries carry pairwise distinct file names.
pub open spec fn unique_files(rs: Seq<(Seq<char>, Seq<u8>)>) -> bool {
    forall|i: int, j: int| 0 <= i < j < rs.len() ==> rs[i].0 != rs[j].0
}

/// With distinct names, the entry at `i` is what the map holds for its
/// name.
proof fn lemma_results_map_lookup(rs: Seq<(Seq<char>, Seq<u8>)>, i: int)
    requires
        unique_files(rs),
        0 <= i < rs.len(),
    ensures
        results_map(rs).contains_key(rs[i].0),
        results_map(rs)[rs[i].0] == rs[i].1,
    decreases rs.len(),
{
    if i < rs.len() - 1 {
        assert(unique_files(rs.drop_last()));
        lemma_results_map_lookup(rs.drop_last(), i);
    }
}

/// A name carried by no entry is absent from the map.
proof fn lemma_results_map_absent(rs: Seq<(Seq<char>, Seq<u8>)>, file: Seq<char>)
    requires
        forall|i: int| 0 <= i < rs.len() ==> rs[i].0 != file,
    ensures
        !results_map(rs).contains_key(file),
    decreases rs.len(),
{
    if rs.len() > 0 {
        lemma_results_map_absent(rs.drop_last(), file);
    }
}

/// Replacing the mask of entry `i` updates exactly that name in the map.
proof fn lemma_results_map_update(rs: Seq<(Seq<char>, Seq<u8>)>, i: int, v: Seq<u8>)
    requires
        unique_files(rs),
        0 <= i < rs.len(),
    ensures
        results_map(rs.update(i, (rs[i].0, v))) == results_map(rs).insert(rs[i].0, v),
    decreases rs.len(),
{
    let rs2 = rs.update(i, (rs[i].0, v));
    if i == rs.len() - 1 {
        assert(rs2.drop_last() =~= rs.drop_last());
        assert(results_map(rs2) =~= results_map(rs).insert(rs[i].0, v));
    } else {
        assert(unique_files(rs.drop_last()));
        lemma_results_map_update(rs.drop_last(), i, v);
        assert(rs2.drop_last() =~= rs.drop_last().update(i, (rs[i].0, v)));
        assert(rs2.last() == rs.last());
        lemma_results_map_lookup(rs, i);
        assert(results_map(rs2) =~= results_map(rs).insert(rs[i].0, v));
    }
}

/// Appending an entry inserts exactly its name.
proof fn lemma_results_map_push(rs: Seq<(Seq<char>, Seq<u8>)>, file: Seq<char>, v: Seq<u8>)
    ensures
        results_map(rs.push((file, v))) == results_map(rs).insert(file, v),
{
    assert(rs.push((file, v)).drop_last() =~= rs);
}

/// The number of lines a mask records as hit.
pub open spec fn count_hits(mask: Seq<u8>) -> int
    decreases mask.len(),
{
    if mask.len() == 0 {
        0
    } else {
        count_hits(mask.drop_last()) + if mask.last() != 0 {
            1int
        } else {
            0int
        }
    }
}

/// One per-line record of the interchange format.
pub open spec fn da_line(line_no: int, hit: int) -> Seq<char> {
    "DA:"@ + dec_chars(line_no as nat) + ","@ + dec_chars(hit as nat) + "\n"@
}

/// How many per-line records a file's block carries: every mask slot, and
/// at least the file's whole line count.
pub open spec fn da_bound(mask: Seq<u8>, total: int) -> int {
    if mask.len() > total {
        mask.len() as int
    } else {
        total
    }
}

/// The per-line records from zero-based index `i` on: the mask's value
/// where it reaches, zero beyond it.
pub open spec fn da_lines(mask: Seq<u8>, total: int, i: int) -> Seq<char>
    decreases da_bound(mask, total) - i,
{
    if i < da_bound(mask, total) {
        da_line(
            i + 1,
            (
                if 0 <= i < mask.len() {
                    mask[i] as int
                } else {
                    0
                }
            ),
        ) + da_lines(mask, total, i + 1)
    } else {
        Seq::empty()
    }
}

/// One file's block of the interchange format: the source-file header, one
/// record per line, the total and hit line summaries, and the end marker —
/// or nothing at all when the file's line count is unknown because the
/// file is gone.
pub open spec fn lcov_block(name: Seq<char>, mask: Seq<u8>, count: Option<usize>) -> Seq<char> {
    match count {
        None => Seq::empty(),
        Some(lf) => "SF:"@ + name + "\n"@ + da_lines(mask, lf as int, 0) + "LH:"@ + dec_chars(
            lf as nat,
        ) + "\n"@ + "LF:"@ + dec_chars(count_hits(mask) as nat) + "\n"@ + "end_of_record\n"@,
    }
}

/// The whole report from entry `k` on.
pub open spec fn lcov_text_from(
    entries: Seq<(Seq<char>, Seq<u8>)>,
    counts: Seq<Option<usize>>,
    k: int,
) -> Seq<char>
    decreases entries.len() - k,
{
    if 0 <= k < entries.len() {
        lcov_block(entries[k].0, entries[k].1, counts[k]) + lcov_text_from(entries, counts, k + 1)
    } else {
        Seq::empty()
    }
}

/// Count the lines a mask records as hit.
fn count_hits_exec(mask: &Vec<u8>) -> (r: usize)
    ensures
        r == count_hits(mask@),
{
    let n = mask.len();
    let mut cnt: usize = 0;
    let mut i: usize = 0;
    proof {
        assert(mask@.subrange(0, 0) =~= Seq::empty());
    }
    while i < n
        invariant
            n == mask@.len(),
            i <= n,
            cnt <= i,
            cnt == count_hits(mask@.subrange(0, i as int)),
        decreases n - i,
    {
        proof {
            assert(mask@.subrange(0, i + 1).drop_last() =~= mask@.subrange(0, i as int));
            assert(mask@.subrange(0, i + 1).last() == mask@[i as int]);
        }
        if mask[i] != 0 {
            cnt = cnt + 1;
        }
        i = i + 1;
    }
    proof {
        assert(mask@.subrange(0, n as int) =~= mask@);
    }
    cnt
}

/// Render one file's block.
fn render_block(name: &String, mask: &Vec<u8>, count: Option<usize>) -> (r: String)
    ensures
        r@ == lcov_block(name@, mask@, count),
{
    let lf = match count {
        Some(lf) => lf,
        None => {
            return String::new();
        },
    };
    let mut s = String::from_str("SF:");
    s.append(name.as_str());
    s.append("\n");
    let ghost header = "SF:"@ + name@ + "\n"@;
    proof {
        assert(s@ =~= header);
    }
    let mask_len = mask.len();
    let bound = if mask_len > lf {
        mask_len
    } else {
        lf
    };
    let mut i: usize = 0;
    while i < bound
        invariant
            mask@.len() == mask_len,
            bound == da_bound(mask@, lf as int),
            i <= bound,
            s@ + da_lines(mask@, lf as int, i as int) == header + da_lines(mask@, lf as int, 0),
        decreases bound - i,
    {
        let hit: u8 = if i < mask_len {
            mask[i]
        } else {
            0
        };
        let ghost before = s@;
        s.append("DA:");
        let line_no = u64_to_dec((i + 1) as u64);
        s.append(line_no.as_str());
        s.append(",");
        let hit_text = u64_to_dec(hit as u64);
        s.append(hit_text.as_str());
        s.append("\n");
        proof {
            assert(s@ =~= before + da_line(i + 1, hit as int));
            assert(before + da_line(i + 1, hit as int) + da_lines(mask@, lf as int, i + 1)
                =~= before + da_lines(mask@, lf as int, i as int));
        }
        i = i + 1;
    }
    let hits_count = count_hits_exec(mask);
    let ghost with_da = s@;
    s.append("LH:");
    let lf_text = u64_to_dec(lf as u64);
    s.append(lf_text.as_str());
    s.append("\n");
    s.append("LF:");
    let lh_text = u64_to_dec(hits_count as u64);
    s.append(lh_text.as_str());
    s.append("\n");
    s.append("end_of_record\n");
    proof {
        assert(with_da =~= header + da_lines(mask@, lf as int, 0));
        assert(s@ =~= lcov_block(name@, mask@, Some(lf)));
    }
    s
}

/// The coverage tracker: the image's debug information, the set of program
/// counters already considered, and the per-file hit masks.
pub struct MachineCoverage {
    pub debug: DebugInfo,
    pub pc_dict: HashMap<u64, u8>,
    pub results: Vec<(String, Vec<u8>)>,
}

impl MachineCoverage {
    /// File names never repeat among the entries.
    pub open spec fn wf(self) -> bool {
        unique_files(entry_views(self.results@))
    }

    /// The file-to-mask map tracked so far.
    pub open spec fn hits(self) -> Map<Seq<char>, Seq<u8>> {
        results_map(entry_views(self.results@))
    }

    /// A fresh tracker over an image's debug information; it is built
    /// exactly when the image's debug sections parse.
    pub fn new(program: &[u8]) -> (r: Result<MachineCoverage, ImageParseError>)
        ensures
            (r is Ok) == debuginfo::debug_parses(program@),
            r matches Ok(c) ==> c.wf() && c.pc_dict@ == Map::<u64, u8>::empty()
                && c.results@.len() == 0,
    {
        let debug = match debuginfo::parse_debug_info(program) {
            Ok(d) => d,
            Err(e) => {
                return Err(e);
            },
        };
        Ok(MachineCoverage { debug, pc_dict: HashMap::new(), results: Vec::new() })
    }

    /// Replace the debug information — on a program-image reload — while
    /// keeping every hit recorded so far; it succeeds exactly when the new
    /// image's debug sections parse, and on a failure nothing changes.
    pub fn reset(&mut self, program: &[u8]) -> (r: Result<(), ImageParseError>)
        ensures
            (r is Ok) == debuginfo::debug_parses(program@),
            final(self).pc_dict@ == old(self).pc_dict@,
            final(self).results@ == old(self).results@,
            r is Err ==> *final(self) == *old(self),
    {
        let debug = match debuginfo::parse_debug_info(program) {
            Ok(d) => d,
            Err(e) => {
                return Err(e);
            },
        };
        self.debug = debug;
        Ok(())
    }

    /// The index of the entry tracking `file`, if one exists.
    fn find_entry(&self, file: &String) -> (r: Option<usize>)
        ensures
            match r {
                Some(i) => i < self.results@.len() && entry_views(self.results@)[i as int].0
                    == file@,
                None => forall|j: int|
                    0 <= j < self.results@.len() ==> entry_views(self.results@)[j].0 != file@,
            },
    {
        let n = self.results.len();
        let mut k: usize = 0;
        while k < n
            invariant
                n == self.results@.len(),
                k <= n,
                forall|j: int| 0 <= j < k ==> entry_views(self.results@)[j].0 != file@,
            decreases n - k,
        {
            if self.results[k].0 == *file {
                return Some(k);
            }
            k = k + 1;
        }
        None
    }

    /// Record that `pc` resolved to `loc`: mark the program counter seen
    /// and, where a file and one-indexed line were given, mark that line
    /// hit, growing the file's mask as needed.  A line once hit is never
    /// unmarked.
    pub fn record(&mut self, pc: u64, loc: Option<(String, u32)>)
        requires
            old(self).wf(),
            loc matches Some((f, l)) ==> l >= 1,
        ensures
            final(self).wf(),
            final(self).debug == old(self).debug,
            final(self).pc_dict@ == old(self).pc_dict@.insert(pc, 1u8),
            loc is None ==> final(self).results@ == old(self).results@,
            loc matches Some((f, l)) ==> final(self).hits() == mark_hit(
                old(self).hits(),
                f@,
                l as int,
            ),
            forall|f2: Seq<char>, i: int|
                is_hit(old(self).hits(), f2, i) ==> #[trigger] is_hit(final(self).hits(), f2, i),
    {
        self.pc_dict.insert(pc, 1);
        let (file, line) = match loc {
            Some(fl) => fl,
            None => {
                return;
            },
        };
        let ghost pre = entry_views(self.results@);
        let needed = line as usize;
        let found = self.find_entry(&file);
        match found {
            Some(idx) => {
                proof {
                    lemma_results_map_lookup(pre, idx as int);
                }
                let ghost old_mask = pre[idx as int].1;
                if self.results[idx].1.len() < needed {
                    self.results[idx].1.resize(needed, 0);
                }
                self.results[idx].1[needed - 1] = 1;
                proof {
                    let nv = entry_views(self.results@);
                    assert(nv =~= pre.update(idx as int, (pre[idx as int].0, nv[idx as int].1)));
                    lemma_results_map_update(pre, idx as int, nv[idx as int].1);
                    assert(nv[idx as int].1 =~= grown_mask(old_mask, line as int));
                    assert(self.hits() =~= mark_hit(results_map(pre), file@, line as int));
                    assert(unique_files(nv));
                    assert forall|f2: Seq<char>, i: int|
                        is_hit(results_map(pre), f2, i) implies #[trigger] is_hit(
                        self.hits(),
                        f2,
                        i,
                    ) by {
                        if f2 == file@ {
                            lemma_results_map_lookup(pre, idx as int);
                        }
                    }
                }
            },
            None => {
                let mut mask: Vec<u8> = Vec::new();
                mask.resize(needed, 0);
                mask[needed - 1] = 1;
                let ghost mview = mask@;
                self.results.push((file, mask));
                proof {
                    let nv = entry_views(self.results@);
                    assert(nv =~= pre.push((nv.last().0, nv.last().1)));
                    lemma_results_map_push(pre, nv.last().0, nv.last().1);
                    lemma_results_map_absent(pre, nv.last().0);
                    assert(nv.last().1 =~= grown_mask(Seq::empty(), line as int));
                    assert(self.hits() =~= mark_hit(results_map(pre), nv.last().0, line as int));
                    assert(unique_files(nv));
                    assert forall|f2: Seq<char>, i: int|
                        is_hit(results_map(pre), f2, i) implies #[trigger] is_hit(
                        self.hits(),
                        f2,
                        i,
                    ) by {
                        assert(!results_map(pre).contains_key(nv.last().0));
                    }
                }
            },
        }
    }

    /// One per-instruction hook: a program counter already considered
    /// changes nothing at all; a new one is looked up in the debug
    /// information and, where it resolves to a file and positive line,
    /// that line is marked hit.  Hits only ever accumulate.
    pub fn step(&mut self, pc: u64)
        requires
            old(self).wf(),
        ensures
            final(self).wf(),
            final(self).debug == old(self).debug,
            old(self).pc_dict@.contains_key(pc) ==> *final(self) == *old(self),
            final(self).pc_dict@.contains_key(pc),
            forall|k: u64| #[trigger]
                old(self).pc_dict@.contains_key(k) ==> final(self).pc_dict@.contains_key(k),
            final(self).results@ == old(self).results@ || exists|f: Seq<char>, l: int|
                l >= 1 && final(self).hits() == #[trigger] mark_hit(old(self).hits(), f, l),
            forall|f2: Seq<char>, i: int|
                is_hit(old(self).hits(), f2, i) ==> #[trigger] is_hit(final(self).hits(), f2, i),
    {
        if self.pc_dict.contains_key(&pc) {
            return;
        }
        let loc = debuginfo::find_location(&self.debug, pc);
        let norm: Option<(String, u32)> = match loc {
            Some((f, l_opt)) => match l_opt {
                Some(l) => if l >= 1 {
                    Some((f, l))
                } else {
                    None
                },
                None => None,
            },
            None => None,
        };
        self.record(pc, norm);
    }

    /// Render the whole coverage report, one block per touched file, in
    /// entry order.  `counts[k]` is the line count of the `k`-th file as
    /// read from disk at render time; a file whose count is absent — it
    /// could not be found — is silently omitted from the report.
    pub fn display_lcov(&self, counts: &Vec<Option<usize>>) -> (r: String)
        requires
            counts@.len() == self.results@.len(),
        ensures
            r@ == lcov_text_from(entry_views(self.results@), counts@, 0),
    {
        let ghost entries = entry_views(self.results@);
        let mut s = String::new();
        let n = self.results.len();
        let mut k: usize = 0;
        while k < n
            invariant
                n == self.results@.len(),
                counts@.len() == n,
                k <= n,
                entries == entry_views(self.results@),
                s@ + lcov_text_from(entries, counts@, k as int) == lcov_text_from(
                    entries,
                    counts@,
                    0,
                ),
            decreases n - k,
        {
            let ghost before = s@;
            let block = render_block(&self.results[k].0, &self.results[k].1, counts[k]);
            s.append(block.as_str());
            proof {
                assert(entries[k as int].0 == self.results@[k as int].0@);
                assert(entries[k as int].1 == self.results@[k as int].1@);
                assert(before + lcov_block(entries[k as int].0, entries[k as int].1, counts@[k as int])
                    + lcov_text_from(entries, counts@, k + 1) =~= before + lcov_text_from(
                    entries,
                    counts@,
                    k as int,
                ));
            }
            k = k + 1;
        }
        proof {
            assert(s@ + lcov_text_from(entries, counts@, n as int) =~= s@);
        }
        s
    }

    /// The files touched so far, in entry order, for the caller to measure
    /// on disk before rendering.
    pub fn file_names(&self) -> (r: Vec<String>)
        ensures
            r@.len() == self.results@.len(),
            forall|i: int| 0 <= i < r@.len() ==> r@[i]@ == entry_views(self.results@)[i].0,
    {
        let mut names: Vec<String> = Vec::new();
        let n = self.results.len();
        let mut i: usize = 0;
        while i < n
            invariant
                n == self.results@.len(),
                i <= n,
                names@.len() == i,
                forall|j: int| 0 <= j < i ==> names@[j]@ == entry_views(self.results@)[j].0,
            decreases n - i,
        {
            names.push(self.results[i].0.clone());
            i = i + 1;
        }
        names
    }
}

} // verus!

//! Tags, record file names and the planning steps of the hunt, refine and
//! submit workflows.

use vstd::prelude::*;
use crate::expr::{
    adjusted_decay_for_band, band_decay, band_decay_fits, first_order_block, first_order_factory,
    group_block, lemma_first_order_windows, second_order_group, TurnoverBand,
};
use crate::text::{
    decimal, has_substring, lemma_split_char_append_free, lemma_split_char_nonempty,
    lemma_split_char_push_sep, lemma_text_lt_total, lemma_text_lt_transitive, lowercase, occurs_at,
    replace_text, replaced, split_char, split_on, strip_start, strs, text_eq, text_less, text_lt,
    to_lower, to_upper, trim, trimmed, uppercase, usize_text,
};

verus! {

/// The hunt tag of a dataset for an already lower-cased region:
/// `{dataset}_{region}_1step`.
pub open spec fn hunt_tag(dataset_id: Seq<char>, region_lower: Seq<char>) -> Seq<char> {
    dataset_id + "_"@ + region_lower + "_1step"@
}

/// The hunt tag of a dataset for a region given in its lower-case form.
pub fn hunt_tag_for_lowered(dataset_id: &str, region_lower: &str) -> (r: String)
    ensures
        r@ == hunt_tag(dataset_id@, region_lower@),
{
    proof {
        reveal_strlit("_");
        reveal_strlit("_1step");
    }
    let mut s = String::from_str(dataset_id);
    s.append("_");
    s.append(region_lower);
    s.append("_1step");
    s
}

/// The hunt tag of a dataset and a region: the region lower-cased, e.g.
/// `fundamental6` and `USA` give `fundamental6_usa_1step`.
pub fn compose_hunt_tag(dataset_id: &str, region: &str) -> (r: String)
    ensures
        r@ == hunt_tag(dataset_id@, lowercase(region@)),
{
    let lower = to_lower(region);
    hunt_tag_for_lowered(dataset_id, lower.as_str())
}

/// The refine tag of a hunt tag: every `_1step` in it becomes `_2step`.
pub open spec fn refine_tag(hunt: Seq<char>) -> Seq<char> {
    replaced(hunt, "_1step"@, "_2step"@)
}

/// The refine tag of a hunt tag, e.g. `fundamental6_usa_1step` gives
/// `fundamental6_usa_2step`.
pub fn compose_refine_tag(hunt_tag: &str) -> (r: String)
    ensures
        r@ == refine_tag(hunt_tag@),
{
    proof {
        reveal_strlit("_1step");
    }
    replace_text(hunt_tag, "_1step", "_2step")
}

/// The region part of a tag: the piece before the last `_`, when the tag
/// holds a `_` at all.
pub open spec fn tag_region(tag: Seq<char>) -> Option<Seq<char>> {
    let parts = split_char(tag, '_');
    if parts.len() >= 2 {
        Some(parts[parts.len() - 2])
    } else {
        None
    }
}

/// The region named in a hunt tag, upper-cased; `USA` when the tag holds no
/// `_`.
pub fn parse_region_from_hunt_tag(hunt_tag: &str) -> (r: String)
    ensures
        r@ == match tag_region(hunt_tag@) {
            Some(part) => uppercase(part),
            None => "USA"@,
        },
{
    let parts = split_on(hunt_tag, '_');
    let n = parts.len();
    if n >= 2 {
        assert(strs(parts@)[n - 2] == parts@[n - 2]@);
        to_upper(parts[n - 2].as_str())
    } else {
        proof {
            reveal_strlit("USA");
        }
        String::from_str("USA")
    }
}

/// At most `max_len` characters of `s`, with `...` after them when `s` is
/// longer.
pub open spec fn truncated(s: Seq<char>, max_len: nat) -> Seq<char> {
    if s.len() > max_len {
        s.take(max_len as int) + "..."@
    } else {
        s
    }
}

/// `s` cut to `max_len` characters, marked with `...` when it was longer.
pub fn truncate_expr(s: &str, max_len: usize) -> (r: String)
    ensures
        r@ == truncated(s@, max_len as nat),
{
    let n = s.unicode_len();
    if n > max_len {
        proof {
            reveal_strlit("...");
        }
        let mut out = String::from_str(s.substring_char(0, max_len));
        out.append("...");
        assert(s@.subrange(0, max_len as int) =~= s@.take(max_len as int));
        out
    } else {
        String::from_str(s)
    }
}

/// The record of the expressions simulated under a tag:
/// `{tag}_simulated_alpha_expression.txt`.
pub open spec fn expression_record_name(tag: Seq<char>) -> Seq<char> {
    tag + "_simulated_alpha_expression.txt"@
}

/// The name of the record of the expressions simulated under `tag`.
pub fn expression_record_file(tag: &str) -> (r: String)
    ensures
        r@ == expression_record_name(tag@),
{
    proof {
        reveal_strlit("_simulated_alpha_expression.txt");
    }
    let mut s = String::from_str(tag);
    s.append("_simulated_alpha_expression.txt");
    s
}

/// The record of the alphas already checked under the first tag of an
/// alpha (the empty tag when it has none): `{tag}_checked_alpha_id.txt`.
pub open spec fn checked_record_name(tags: Seq<Seq<char>>) -> Seq<char> {
    let tag = if tags.len() > 0 {
        tags[0]
    } else {
        Seq::<char>::empty()
    };
    tag + "_checked_alpha_id.txt"@
}

/// The name of the record of the alphas checked under the first of `tags`.
pub fn checked_record_file(tags: &Vec<String>) -> (r: String)
    ensures
        r@ == checked_record_name(strs(tags@)),
{
    proof {
        reveal_strlit("_checked_alpha_id.txt");
    }
    let mut s = if tags.len() > 0 {
        tags[0].clone()
    } else {
        String::new()
    };
    s.append("_checked_alpha_id.txt");
    s
}

/// Whether a text holds at least one character.
pub open spec fn is_filled(t: Seq<char>) -> bool {
    t.len() > 0
}

/// The pieces of `s` between the occurrences of `sep`, trimmed, without
/// the empty ones.
pub open spec fn kept_pieces(s: Seq<char>, sep: char) -> Seq<Seq<char>> {
    split_char(s, sep).map_values(|p: Seq<char>| trimmed(p)).filter(|t: Seq<char>| is_filled(t))
}

/// The trimmed, non-empty pieces of `s` between the occurrences of `sep`.
pub fn nonblank_pieces(s: &str, sep: char) -> (r: Vec<String>)
    ensures
        strs(r@) == kept_pieces(s@, sep),
{
    let parts = split_on(s, sep);
    let ghost cleaned = split_char(s@, sep).map_values(|p: Seq<char>| trimmed(p));
    let mut out: Vec<String> = Vec::new();
    let n = parts.len();
    let mut i: usize = 0;
    proof {
        reveal_with_fuel(Seq::<_>::filter, 1);
        assert(cleaned.take(0) =~= Seq::<Seq<char>>::empty());
    }
    while i < n
        invariant
            n == parts@.len(),
            strs(parts@) == split_char(s@, sep),
            cleaned == split_char(s@, sep).map_values(|p: Seq<char>| trimmed(p)),
            i <= n,
            strs(out@) == cleaned.take(i as int).filter(|t: Seq<char>| is_filled(t)),
        decreases n - i,
    {
        let t = trim(parts[i].as_str());
        let ghost before = strs(out@);
        proof {
            assert(strs(parts@)[i as int] == parts@[i as int]@);
            assert(cleaned.take(i + 1) =~= cleaned.take(i as int).push(t@));
            cleaned.take(i as int).lemma_filter_push(t@, |t: Seq<char>| is_filled(t));
        }
        if t.unicode_len() > 0 {
            out.push(String::from_str(t));
            assert(strs(out@) =~= before.push(t@));
        }
        i = i + 1;
    }
    assert(cleaned.take(n as int) =~= cleaned);
    out
}

/// The regions of a comma-separated list, trimmed, without empty entries.
pub fn parse_regions(list: &str) -> (r: Vec<String>)
    ensures
        strs(r@) == kept_pieces(list@, ','),
{
    nonblank_pieces(list, ',')
}

/// The entries of a record file: its lines trimmed, without blank ones.
/// (A line ends at `\n`; a `\r` before it is white space and goes with the
/// trimming.)
pub fn record_entries(content: &str) -> (r: Vec<String>)
    ensures
        strs(r@) == kept_pieces(content@, '\n'),
{
    nonblank_pieces(content, '\n')
}

/// Whether a text is not a comment line, that is, does not start with `#`.
pub open spec fn not_comment(t: Seq<char>) -> bool {
    !(t.len() > 0 && t[0] == '#')
}

/// The fields of a fields file: its lines trimmed, without blank ones and
/// without those that start with `#`.
pub fn field_lines(content: &str) -> (r: Vec<String>)
    ensures
        strs(r@) == kept_pieces(content@, '\n').filter(|t: Seq<char>| not_comment(t)),
{
    let lines = nonblank_pieces(content, '\n');
    let ghost all = strs(lines@);
    let mut out: Vec<String> = Vec::new();
    let n = lines.len();
    let mut i: usize = 0;
    proof {
        reveal_with_fuel(Seq::<_>::filter, 1);
        assert(all.take(0) =~= Seq::<Seq<char>>::empty());
    }
    while i < n
        invariant
            n == lines@.len(),
            all == strs(lines@),
            i <= n,
            strs(out@) == all.take(i as int).filter(|t: Seq<char>| not_comment(t)),
        decreases n - i,
    {
        let line = lines[i].as_str();
        let ghost before = strs(out@);
        proof {
            assert(all.take(i + 1) =~= all.take(i as int).push(line@));
            all.take(i as int).lemma_filter_push(line@, |t: Seq<char>| not_comment(t));
        }
        let starts_hash = line.unicode_len() > 0 && line.get_char(0) == '#';
        if !starts_hash {
            out.push(lines[i].clone());
            assert(strs(out@) =~= before.push(line@));
        }
        i = i + 1;
    }
    assert(all.take(n as int) =~= all);
    out
}

/// Whether `x` is one of the texts of `list`.
pub fn listed(list: &Vec<String>, x: &str) -> (r: bool)
    ensures
        r == strs(list@).contains(x@),
{
    let n = list.len();
    let mut i: usize = 0;
    while i < n
        invariant
            n == list@.len(),
            i <= n,
            forall|j: int| 0 <= j < i ==> list@[j]@ != x@,
        decreases n - i,
    {
        if text_eq(list[i].as_str(), x) {
            assert(strs(list@)[i as int] == x@);
            return true;
        }
        i = i + 1;
    }
    assert forall|j: int| 0 <= j < strs(list@).len() implies strs(list@)[j] != x@ by {
        assert(strs(list@)[j] == list@[j]@);
    }
    false
}

/// The test "not among `done`".
pub open spec fn not_done(done: Seq<Seq<char>>) -> spec_fn(Seq<char>) -> bool {
    |e: Seq<char>| !done.contains(e)
}

/// The first-order expressions of `fields` that `completed` does not hold,
/// in factory order.
pub open spec fn hunt_plan(fields: Seq<Seq<char>>, completed: Seq<Seq<char>>) -> Seq<Seq<char>> {
    fields.map_values(|f: Seq<char>| first_order_block(f)).flatten().filter(not_done(completed))
}

/// The expressions of `all` that `completed` does not hold, in order.
fn without_completed(all: Vec<String>, completed: &Vec<String>) -> (r: Vec<String>)
    ensures
        strs(r@) == strs(all@).filter(not_done(strs(completed@))),
{
    let ghost whole = strs(all@);
    let mut out: Vec<String> = Vec::new();
    let n = all.len();
    let mut i: usize = 0;
    proof {
        reveal_with_fuel(Seq::<_>::filter, 1);
        assert(whole.take(0) =~= Seq::<Seq<char>>::empty());
    }
    while i < n
        invariant
            n == all@.len(),
            whole == strs(all@),
            i <= n,
            strs(out@) == whole.take(i as int).filter(not_done(strs(completed@))),
        decreases n - i,
    {
        let e = all[i].as_str();
        let ghost before = strs(out@);
        proof {
            assert(whole.take(i + 1) =~= whole.take(i as int).push(e@));
            whole.take(i as int).lemma_filter_push(e@, not_done(strs(completed@)));
        }
        if !listed(completed, e) {
            out.push(all[i].clone());
            assert(strs(out@) =~= before.push(e@));
        }
        i = i + 1;
    }
    assert(whole.take(n as int) =~= whole);
    out
}

/// The hunt's pending expressions: the first-order expressions of the
/// fields, without those already simulated.
pub fn plan_hunt(fields: &Vec<String>, completed: &Vec<String>) -> (r: Vec<String>)
    ensures
        strs(r@) == hunt_plan(strs(fields@), strs(completed@)),
{
    let all = first_order_factory(fields);
    without_completed(all, completed)
}

/// An equal-decay list for `n` expressions.
pub fn uniform_decays(n: usize, decay: i32) -> (r: Vec<i32>)
    ensures
        r@ == Seq::new(n as nat, |i: int| decay),
{
    let mut out: Vec<i32> = Vec::new();
    let mut i: usize = 0;
    while i < n
        invariant
            i <= n,
            out@ == Seq::new(i as nat, |k: int| decay),
        decreases n - i,
    {
        out.push(decay);
        i = i + 1;
        assert(out@ =~= Seq::new(i as nat, |k: int| decay));
    }
    out
}

/// A hunt alpha chosen for refinement, as the refine step reads it: its
/// code, whether its Sharpe ratio is negative, its turnover band and its
/// decay. Candidates are handed over best Sharpe first.
pub struct RefineCandidate {
    pub code: String,
    pub negative_sharpe: bool,
    pub band: TurnoverBand,
    pub decay: i32,
}

/// The base expression of a candidate: its code, negated when its Sharpe
/// ratio is negative.
pub open spec fn candidate_base(code: Seq<char>, negative: bool) -> Seq<char> {
    if negative {
        "-"@ + code
    } else {
        code
    }
}

/// The decay of a candidate's variants: the refined decay of its band, or
/// its own decay when the band refines none.
pub open spec fn candidate_decay(band: TurnoverBand, decay: int) -> int {
    match band_decay(band, decay) {
        Some(d) => d,
        None => decay,
    }
}

impl RefineCandidate {
    /// The variants of this candidate still to simulate, each with its
    /// decay: the group block of its base expression without those in
    /// `completed`.
    pub open spec fn variants(self, completed: Seq<Seq<char>>) -> Seq<(Seq<char>, int)> {
        let d = candidate_decay(self.band, self.decay as int);
        group_block(candidate_base(self.code@, self.negative_sharpe)).filter(not_done(completed)).map_values(
            |g: Seq<char>| (g, d),
        )
    }
}

/// A candidate's variants are built on its code negated exactly when its
/// Sharpe ratio is negative, and simulated with its decay refined by its
/// turnover band: four times it above 0.7, three times plus three above
/// 0.6, three times above 0.5, twice above 0.4, four more above 0.35, two
/// more above 0.3, and unchanged at or below 0.3.
pub proof fn lemma_candidate_base_and_decay(code: Seq<char>, d: int)
    ensures
        candidate_base(code, true) == "-"@ + code,
        candidate_base(code, false) == code,
        candidate_decay(TurnoverBand::Above70, d) == 4 * d,
        candidate_decay(TurnoverBand::Above60, d) == 3 * d + 3,
        candidate_decay(TurnoverBand::Above50, d) == 3 * d,
        candidate_decay(TurnoverBand::Above40, d) == 2 * d,
        candidate_decay(TurnoverBand::Above35, d) == d + 4,
        candidate_decay(TurnoverBand::Above30, d) == d + 2,
        candidate_decay(TurnoverBand::AtMost30, d) == d,
{
}

/// The texts and decays of a list of planned simulations.
pub open spec fn planned(v: Seq<(String, i32)>) -> Seq<(Seq<char>, int)> {
    v.map_values(|p: (String, i32)| (p.0@, p.1 as int))
}

/// The refine plan: each candidate's variants in turn.
pub open spec fn refine_plan(cands: Seq<RefineCandidate>, completed: Seq<Seq<char>>) -> Seq<(Seq<char>, int)> {
    cands.map_values(|c: RefineCandidate| c.variants(completed)).flatten()
}

/// The second-order expressions to simulate for the refine step, with
/// their decays.
pub fn plan_refine(cands: &Vec<RefineCandidate>, completed: &Vec<String>) -> (r: Vec<(String, i32)>)
    requires
        forall|i: int| 0 <= i < cands@.len() ==> band_decay_fits(#[trigger] cands@[i].band, cands@[i].decay as int),
    ensures
        planned(r@) == refine_plan(cands@, strs(completed@)),
{
    let mut out: Vec<(String, i32)> = Vec::new();
    let n = cands.len();
    let mut i: usize = 0;
    let ghost done = strs(completed@);
    assert(cands@.take(0).map_values(|c: RefineCandidate| c.variants(done)) =~= Seq::<Seq<(Seq<char>, int)>>::empty());
    while i < n
        invariant
            n == cands@.len(),
            i <= n,
            done == strs(completed@),
            forall|k: int| 0 <= k < cands@.len() ==> band_decay_fits(#[trigger] cands@[k].band, cands@[k].decay as int),
            planned(out@) == cands@.take(i as int).map_values(|c: RefineCandidate| c.variants(done)).flatten(),
        decreases n - i,
    {
        let c = &cands[i];
        let ghost blocks = cands@.take(i as int).map_values(|c: RefineCandidate| c.variants(done));
        let base = if c.negative_sharpe {
            proof {
                reveal_strlit("-");
            }
            let mut b = String::from_str("-");
            b.append(c.code.as_str());
            b
        } else {
            c.code.clone()
        };
        let decay = match adjusted_decay_for_band(c.band, c.decay) {
            Some(d) => d,
            None => c.decay,
        };
        let mut one: Vec<String> = Vec::new();
        one.push(base);
        assert(strs(one@) =~= seq![candidate_base(c.code@, c.negative_sharpe)]);
        let groups = second_order_group(&one);
        proof {
            let bl = seq![candidate_base(c.code@, c.negative_sharpe)].map_values(|e: Seq<char>| group_block(e));
            assert(bl =~= seq![group_block(candidate_base(c.code@, c.negative_sharpe))]);
            bl.lemma_flatten_one_element();
        }
        let fresh = without_completed(groups, completed);
        let ghost before = planned(out@);
        let m = fresh.len();
        let mut j: usize = 0;
        while j < m
            invariant
                m == fresh@.len(),
                j <= m,
                planned(out@) == before + strs(fresh@).take(j as int).map_values(|g: Seq<char>| (g, decay as int)),
            decreases m - j,
        {
            let g = fresh[j].clone();
            let ghost prev = planned(out@);
            out.push((g, decay));
            assert(planned(out@) =~= prev.push((fresh@[j as int]@, decay as int)));
            assert(strs(fresh@).take(j + 1).map_values(|g: Seq<char>| (g, decay as int)) =~= strs(fresh@).take(
                j as int,
            ).map_values(|g: Seq<char>| (g, decay as int)).push((fresh@[j as int]@, decay as int)));
            j = j + 1;
        }
        proof {
            assert(strs(fresh@).take(m as int) =~= strs(fresh@));
            assert(decay as int == candidate_decay(c.band, c.decay as int));
            assert(strs(fresh@).map_values(|g: Seq<char>| (g, decay as int)) =~= c.variants(done));
            assert(cands@.take(i + 1).map_values(|c: RefineCandidate| c.variants(done)) =~= blocks.push(c.variants(done)));
            blocks.lemma_flatten_push(c.variants(done));
        }
        i = i + 1;
    }
    assert(cands@.take(n as int) =~= cands@);
    out
}


/// Whether a list of texts is in strictly increasing order, so that no text
/// occurs twice.
pub open spec fn strictly_sorted(v: Seq<Seq<char>>) -> bool {
    forall|i: int, j: int| 0 <= i < j < v.len() ==> text_lt(#[trigger] v[i], #[trigger] v[j])
}

/// `x` put into the strictly sorted `v` at its place, unless `v` holds it.
fn insert_sorted(v: &mut Vec<String>, x: String)
    requires
        strictly_sorted(strs(old(v)@)),
    ensures
        strictly_sorted(strs(final(v)@)),
        forall|t: Seq<char>| strs(final(v)@).contains(t) <==> (strs(old(v)@).contains(t) || t == x@),
{
    let ghost s0 = strs(v@);
    let n = v.len();
    let mut p: usize = 0;
    while p < n && text_less(v[p].as_str(), x.as_str())
        invariant
            n == v@.len(),
            s0 == strs(v@),
            p <= n,
            forall|k: int| 0 <= k < p ==> text_lt(#[trigger] s0[k], x@),
        decreases n - p,
    {
        p = p + 1;
    }
    if p < n && text_eq(v[p].as_str(), x.as_str()) {
        assert(s0[p as int] == x@);
        return;
    }
    proof {
        if p < n {
            lemma_text_lt_total(s0[p as int], x@);
            assert(text_lt(x@, s0[p as int]));
            assert forall|k: int| p <= k < n implies text_lt(x@, #[trigger] s0[k]) by {
                if k > p {
                    lemma_text_lt_transitive(x@, s0[p as int], s0[k]);
                }
            }
        }
    }
    let ghost xv = x@;
    v.insert(p, x);
    proof {
        let s1 = strs(v@);
        assert(s1 =~= s0.insert(p as int, xv));
        assert forall|i: int, j: int| 0 <= i < j < s1.len() implies text_lt(#[trigger] s1[i], #[trigger] s1[j]) by {
            if j < p {
                assert(s1[i] == s0[i] && s1[j] == s0[j]);
            } else if j == p {
                assert(s1[i] == s0[i]);
            } else if i < p {
                assert(s1[i] == s0[i] && s1[j] == s0[j - 1]);
                lemma_text_lt_transitive(s0[i], xv, s0[j - 1]);
            } else if i == p {
                assert(s1[j] == s0[j - 1]);
            } else {
                assert(s1[i] == s0[i - 1] && s1[j] == s0[j - 1]);
            }
        }
        assert forall|t: Seq<char>| s1.contains(t) <==> (s0.contains(t) || t == xv) by {
            if s1.contains(t) {
                let k = choose|k: int| 0 <= k < s1.len() && s1[k] == t;
                if k < p {
                    assert(s0[k] == t);
                } else if k > p {
                    assert(s0[k - 1] == t);
                }
            }
            if s0.contains(t) {
                let k = choose|k: int| 0 <= k < s0.len() && s0[k] == t;
                if k < p {
                    assert(s1[k] == t);
                } else {
                    assert(s1[k + 1] == t);
                }
            }
            if t == xv {
                assert(s1[p as int] == t);
            }
        }
    }
}

/// Why a submission has nothing to submit.
#[derive(Debug, Clone, Copy, PartialEq, Eq, Structural)]
pub enum SubmitIdsError {
    /// Neither the command line nor the CSV file named an alpha id.
    NoIds,
}

/// The alpha ids to submit: those given on the command line and those read
/// from a CSV file, sorted and without repeats. Sorted and repeat-free, the
/// list is the only one with exactly these members.
pub fn prepare_submit_ids(ids: &Vec<String>, csv_ids: &Vec<String>) -> (r: Result<Vec<String>, SubmitIdsError>)
    ensures
        match r {
            Ok(v) => {
                &&& ids@.len() + csv_ids@.len() > 0
                &&& strictly_sorted(strs(v@))
                &&& forall|t: Seq<char>| strs(v@).contains(t) <==> strs(ids@ + csv_ids@).contains(t)
            },
            Err(e) => e == SubmitIdsError::NoIds && ids@.len() + csv_ids@.len() == 0,
        },
{
    let mut out: Vec<String> = Vec::new();
    let ghost all = ids@ + csv_ids@;
    let n = ids.len();
    let mut i: usize = 0;
    while i < n
        invariant
            n == ids@.len(),
            i <= n,
            all == ids@ + csv_ids@,
            strictly_sorted(strs(out@)),
            forall|t: Seq<char>| strs(out@).contains(t) <==> strs(all.take(i as int)).contains(t),
        decreases n - i,
    {
        let ghost pre = strs(all.take(i as int));
        let ghost old_out = strs(out@);
        insert_sorted(&mut out, ids[i].clone());
        proof {
            assert(strs(all.take(i + 1)) =~= pre.push(ids@[i as int]@));
            assert forall|t: Seq<char>| strs(all.take(i + 1)).contains(t) <==> (pre.contains(t) || t == ids@[i as int]@) by {
                let q = pre.push(ids@[i as int]@);
                if q.contains(t) {
                    let k = choose|k: int| 0 <= k < q.len() && q[k] == t;
                    if k < pre.len() {
                        assert(pre[k] == t);
                    }
                }
                if pre.contains(t) {
                    let k = choose|k: int| 0 <= k < pre.len() && pre[k] == t;
                    assert(q[k] == t);
                }
                if t == ids@[i as int]@ {
                    assert(q[pre.len() as int] == t);
                }
            }
            assert forall|t: Seq<char>| strs(out@).contains(t) <==> strs(all.take(i + 1)).contains(t) by {
                assert(old_out.contains(t) <==> pre.contains(t));
            }
        }
        i = i + 1;
    }
    let m = csv_ids.len();
    let mut j: usize = 0;
    while j < m
        invariant
            n == ids@.len(),
            m == csv_ids@.len(),
            j <= m,
            all == ids@ + csv_ids@,
            strictly_sorted(strs(out@)),
            forall|t: Seq<char>| strs(out@).contains(t) <==> strs(all.take(n + j)).contains(t),
        decreases m - j,
    {
        let ghost pre = strs(all.take(n + j));
        let ghost old_out = strs(out@);
        insert_sorted(&mut out, csv_ids[j].clone());
        proof {
            assert(all[n + j] == csv_ids@[j as int]);
            assert(strs(all.take(n + j + 1)) =~= pre.push(csv_ids@[j as int]@));
            assert forall|t: Seq<char>| strs(all.take(n + j + 1)).contains(t) <==> (pre.contains(t) || t == csv_ids@[j as int]@) by {
                let q = pre.push(csv_ids@[j as int]@);
                if q.contains(t) {
                    let k = choose|k: int| 0 <= k < q.len() && q[k] == t;
                    if k < pre.len() {
                        assert(pre[k] == t);
                    }
                }
                if pre.contains(t) {
                    let k = choose|k: int| 0 <= k < pre.len() && pre[k] == t;
                    assert(q[k] == t);
                }
                if t == csv_ids@[j as int]@ {
                    assert(q[pre.len() as int] == t);
                }
            }
            assert forall|t: Seq<char>| strs(out@).contains(t) <==> strs(all.take(n + j + 1)).contains(t) by {
                assert(old_out.contains(t) <==> pre.contains(t));
            }
        }
        j = j + 1;
    }
    assert(all.take(n + m) =~= all);
    if out.len() == 0 {
        proof {
            if all.len() > 0 {
                assert(strs(all)[0] == all[0]@);
                assert(strs(all).contains(all[0]@));
                assert(strs(out@).contains(all[0]@));
            }
        }
        return Err(SubmitIdsError::NoIds);
    }
    proof {
        assert(strs(out@).contains(strs(out@)[0]));
        if all.len() == 0 {
            assert(strs(all) =~= Seq::<Seq<char>>::empty());
        }
    }
    Ok(out)
}


/// The progress line of a finished simulation:
/// `Alpha {n}/{total}: {alpha_id} {expression cut to 56 characters}`.
pub open spec fn progress_text(n: nat, total: nat, alpha_id: Seq<char>, expression: Seq<char>) -> Seq<char> {
    "Alpha "@ + decimal(n) + "/"@ + decimal(total) + ": "@ + alpha_id + " "@ + truncated(expression, 56)
}

/// The progress line logged when the `n`-th of `total` simulations has
/// given an alpha.
pub fn progress_message(n: usize, total: usize, alpha_id: &str, expression: &str) -> (r: String)
    ensures
        r@ == progress_text(n as nat, total as nat, alpha_id@, expression@),
{
    proof {
        reveal_strlit("Alpha ");
        reveal_strlit("/");
        reveal_strlit(": ");
        reveal_strlit(" ");
    }
    let mut s = String::from_str("Alpha ");
    let a = usize_text(n);
    s.append(a.as_str());
    s.append("/");
    let b = usize_text(total);
    s.append(b.as_str());
    s.append(": ");
    s.append(alpha_id);
    s.append(" ");
    let p = truncate_expr(expression, 56);
    s.append(p.as_str());
    s
}


/// The region of a hunt tag is the lower-cased region it was made from,
/// when that holds no `_`: the refine step reads the region back from the
/// tag that the hunt step wrote.
pub proof fn lemma_hunt_tag_region(dataset_id: Seq<char>, region_lower: Seq<char>)
    requires
        !region_lower.contains('_'),
    ensures
        tag_region(hunt_tag(dataset_id, region_lower)) == Some(region_lower),
{
    reveal_strlit("_");
    reveal_strlit("_1step");
    let step: Seq<char> = seq!['1', 's', 't', 'e', 'p'];
    assert("_1step"@ =~= seq!['_'] + step);
    assert("_"@ =~= seq!['_']);
    assert(!step.contains('_')) by {
        if step.contains('_') {
            let k = choose|k: int| 0 <= k < step.len() && step[k] == '_';
            assert(step[k] != '_');
        }
    }
    let a = dataset_id.push('_');
    lemma_split_char_push_sep(dataset_id, '_');
    lemma_split_char_append_free(a, region_lower, '_');
    let b = a + region_lower;
    assert(Seq::<char>::empty() + region_lower =~= region_lower);
    let pb = split_char(b, '_');
    assert(pb =~= split_char(dataset_id, '_').push(region_lower));
    lemma_split_char_push_sep(b, '_');
    lemma_split_char_append_free(b.push('_'), step, '_');
    assert(Seq::<char>::empty() + step =~= step);
    let t = b.push('_') + step;
    assert(hunt_tag(dataset_id, region_lower) =~= t);
    let pt = split_char(t, '_');
    assert(pt =~= pb.push(step));
    assert(pt[pt.len() - 2] == region_lower);
}

proof fn lemma_replaced_suffix(p: Seq<char>, rep: Seq<char>)
    requires
        !has_substring(p, "_1step"@),
    ensures
        replaced(p + "_1step"@, "_1step"@, rep) == p + rep,
    decreases p.len(),
{
    reveal_strlit("_1step");
    let pat = "_1step"@;
    let s = p + pat;
    if p.len() == 0 {
        assert(s =~= pat);
        assert(s.take(6) =~= pat);
        assert(s.skip(6) =~= Seq::<char>::empty());
        assert(pat.len() == 6);
        assert(replaced(s.skip(6), pat, rep) == Seq::<char>::empty());
        assert(replaced(s, pat, rep) == rep + replaced(s.skip(6), pat, rep));
        assert(rep + Seq::<char>::empty() =~= rep);
        assert(p + rep =~= rep);
    } else {
        assert(s.take(6) != pat) by {
            if s.take(6) == pat {
                if p.len() >= 6 {
                    assert(p.subrange(0, 6) =~= s.take(6));
                    assert(occurs_at(p, pat, 0));
                    assert(has_substring(p, pat));
                } else {
                    let m = p.len() as int;
                    assert(s[m] == pat[0]);
                    assert(s.take(6)[m] == s[m]);
                    assert(pat[m] != '_');
                }
            }
        }
        let p1 = p.drop_first();
        assert(!has_substring(p1, pat)) by {
            if has_substring(p1, pat) {
                let i = choose|i: int| occurs_at(p1, pat, i);
                assert(p.subrange(i + 1, i + 1 + 6) =~= p1.subrange(i, i + 6));
                assert(occurs_at(p, pat, i + 1));
            }
        }
        lemma_replaced_suffix(p1, rep);
        assert(s.drop_first() =~= p1 + pat);
        assert(pat.len() == 6);
        assert(replaced(s, pat, rep) == seq![s[0]] + replaced(s.drop_first(), pat, rep));
        assert(s[0] == p[0]);
        assert(seq![s[0]] + (p1 + rep) =~= p + rep);
    }
}

/// The refine tag of a hunt tag swaps its `_1step` ending for `_2step`, when
/// no other `_1step` stands in it.
pub proof fn lemma_refine_of_hunt_tag(dataset_id: Seq<char>, region_lower: Seq<char>)
    requires
        !has_substring(dataset_id + "_"@ + region_lower, "_1step"@),
    ensures
        refine_tag(hunt_tag(dataset_id, region_lower)) == dataset_id + "_"@ + region_lower + "_2step"@,
{
    lemma_replaced_suffix(dataset_id + "_"@ + region_lower, "_2step"@);
}

/// Writing an entry to a record, as a line of its own, and reading the
/// record back gives the entries read before, then the new one trimmed
/// (unless it is blank): the hunt and the refine step rely on this to skip
/// what they simulated before.
pub proof fn lemma_record_append_read(content: Seq<char>, line: Seq<char>)
    requires
        content.len() == 0 || content.last() == '\n',
        !line.contains('\n'),
    ensures
        kept_pieces(content + line.push('\n'), '\n') == if trimmed(line).len() > 0 {
            kept_pieces(content, '\n').push(trimmed(line))
        } else {
            kept_pieces(content, '\n')
        },
{
    reveal_with_fuel(strip_start, 1);
    let keep = |t: Seq<char>| is_filled(t);
    let trim_f = |p: Seq<char>| trimmed(p);
    let pc = split_char(content, '\n');
    lemma_split_char_nonempty(content, '\n');
    assert(pc.last() == Seq::<char>::empty()) by {
        if content.len() > 0 {
            lemma_split_char_push_sep(content.drop_last(), '\n');
            assert(content.drop_last().push('\n') =~= content);
        }
    }
    lemma_split_char_append_free(content, line, '\n');
    assert(Seq::<char>::empty() + line =~= line);
    let q = split_char(content + line, '\n');
    assert(q =~= pc.drop_last().push(line));
    lemma_split_char_push_sep(content + line, '\n');
    assert(content + line.push('\n') =~= (content + line).push('\n'));
    let whole = q.push(Seq::<char>::empty());
    let m0 = pc.drop_last().map_values(trim_f);
    assert(trimmed(Seq::<char>::empty()) =~= Seq::<char>::empty());
    assert(whole.map_values(trim_f) =~= m0.push(trimmed(line)).push(Seq::<char>::empty()));
    assert(pc.map_values(trim_f) =~= m0.push(Seq::<char>::empty()));
    m0.lemma_filter_push(Seq::<char>::empty(), keep);
    m0.push(trimmed(line)).lemma_filter_push(Seq::<char>::empty(), keep);
    m0.lemma_filter_push(trimmed(line), keep);
}

/// Each field gives forty-seven first-order expressions.
pub proof fn lemma_first_order_count(fields: Seq<Seq<char>>)
    ensures
        fields.map_values(|f: Seq<char>| first_order_block(f)).flatten().len() == 47 * fields.len(),
    decreases fields.len(),
{
    let blocks = fields.map_values(|f: Seq<char>| first_order_block(f));
    if fields.len() > 0 {
        lemma_first_order_count(fields.drop_first());
        assert(blocks.drop_first() =~= fields.drop_first().map_values(|f: Seq<char>| first_order_block(f)));
        assert(first_order_block(fields[0]).len() == 47);
    }
}

/// The `t`-th expression of the `k`-th field sits at `47 * k + t` of the
/// first-order output: blocks follow the fields' order, each 47 long.
pub proof fn lemma_first_order_position(fields: Seq<Seq<char>>, k: int, t: int)
    requires
        0 <= k < fields.len(),
        0 <= t < 47,
    ensures
        47 * k + t < fields.map_values(|f: Seq<char>| first_order_block(f)).flatten().len(),
        fields.map_values(|f: Seq<char>| first_order_block(f)).flatten()[47 * k + t]
            == first_order_block(fields[k])[t],
    decreases k,
{
    let blocks = fields.map_values(|f: Seq<char>| first_order_block(f));
    let rest = fields.drop_first();
    lemma_first_order_count(fields);
    lemma_first_order_count(rest);
    assert(blocks.drop_first() =~= rest.map_values(|f: Seq<char>| first_order_block(f)));
    assert(blocks.flatten() == blocks[0] + blocks.drop_first().flatten());
    assert(blocks[0].len() == 47);
    if k > 0 {
        lemma_first_order_position(rest, k - 1, t);
        assert(rest[k - 1] == fields[k]);
        assert(47 * k + t == 47 + (47 * (k - 1) + t));
    }
}

/// In the first-order output, the `k`-th field's time-series expression of
/// operator `j` (`ts_rank`, `ts_zscore`, `ts_delta`, `ts_sum`) over window
/// `w` sits at `47 * k + 7 + 5 * j + w`, and its window is the `w`-th of
/// 5, 22, 66, 120 and 240.
pub proof fn lemma_first_order_output_windows(fields: Seq<Seq<char>>, k: int, j: int, w: int)
    requires
        0 <= k < fields.len(),
        0 <= j < 4,
        0 <= w < 5,
    ensures
        fields.map_values(|f: Seq<char>| first_order_block(f)).flatten()[47 * k + 7 + 5 * j + w]
            == seq!["ts_rank"@, "ts_zscore"@, "ts_delta"@, "ts_sum"@][j] + "("@ + fields[k] + ", "@
            + seq!["5"@, "22"@, "66"@, "120"@, "240"@][w] + ")"@,
{
    lemma_first_order_position(fields, k, 7 + 5 * j + w);
    lemma_first_order_windows(fields[k], j, w);
}


/// The hunt never plans an expression it simulated before, and once every
/// expression its fields give has been simulated it plans nothing: a
/// repeated hunt resumes where the last one stopped.
pub proof fn lemma_hunt_resume(fields: Seq<Seq<char>>, completed: Seq<Seq<char>>)
    ensures
        forall|i: int|
            0 <= i < hunt_plan(fields, completed).len() ==> !completed.contains(
                #[trigger] hunt_plan(fields, completed)[i],
            ),
        (forall|e: Seq<char>|
            fields.map_values(|f: Seq<char>| first_order_block(f)).flatten().contains(e) ==> completed.contains(e))
            ==> hunt_plan(fields, completed).len() == 0,
{
    let all = fields.map_values(|f: Seq<char>| first_order_block(f)).flatten();
    let plan = hunt_plan(fields, completed);
    assert forall|i: int| 0 <= i < plan.len() implies !completed.contains(#[trigger] plan[i]) by {
        all.lemma_filter_pred(not_done(completed), i);
    }
    if plan.len() > 0 && (forall|e: Seq<char>| all.contains(e) ==> completed.contains(e)) {
        all.lemma_filter_pred(not_done(completed), 0);
        assert(plan.contains(plan[0]));
        all.lemma_filter_contains_rev(not_done(completed), plan[0]);
        assert(completed.contains(plan[0]));
    }
}


/// The rows of a table keyed by id, as a map from id to row: a later row
/// with the same id replaces an earlier one.
pub open spec fn rows_by_id<T>(rows: Seq<(String, T)>) -> Map<Seq<char>, T>
    decreases rows.len(),
{
    if rows.len() == 0 {
        Map::empty()
    } else {
        rows_by_id(rows.drop_last()).insert(rows.last().0@, rows.last().1)
    }
}

/// Whether no two rows share an id.
pub open spec fn ids_unique<T>(rows: Seq<(String, T)>) -> bool {
    forall|i: int, j: int| 0 <= i < j < rows.len() ==> (#[trigger] rows[i]).0@ != (#[trigger] rows[j]).0@
}

proof fn lemma_rows_by_id_dom<T>(rows: Seq<(String, T)>, id: Seq<char>)
    ensures
        rows_by_id(rows).dom().contains(id) <==> exists|i: int| 0 <= i < rows.len() && (#[trigger] rows[i]).0@ == id,
    decreases rows.len(),
{
    if rows.len() > 0 {
        let pre = rows.drop_last();
        lemma_rows_by_id_dom(pre, id);
        if rows_by_id(rows).dom().contains(id) {
            if rows.last().0@ != id {
                let i = choose|i: int| 0 <= i < pre.len() && (#[trigger] pre[i]).0@ == id;
                assert(rows[i] == pre[i]);
            } else {
                assert(rows[rows.len() - 1].0@ == id);
            }
        }
        if exists|i: int| 0 <= i < rows.len() && (#[trigger] rows[i]).0@ == id {
            let i = choose|i: int| 0 <= i < rows.len() && (#[trigger] rows[i]).0@ == id;
            if i < pre.len() {
                assert(pre[i] == rows[i]);
            }
        }
    }
}

/// Whether one of `rows` has the id `id`.
fn has_id<T>(rows: &Vec<(String, T)>, id: &str) -> (r: bool)
    ensures
        r == exists|i: int| 0 <= i < rows@.len() && (#[trigger] rows@[i]).0@ == id@,
{
    let n = rows.len();
    let mut i: usize = 0;
    while i < n
        invariant
            n == rows@.len(),
            i <= n,
            forall|k: int| 0 <= k < i ==> (#[trigger] rows@[k]).0@ != id@,
        decreases n - i,
    {
        if text_eq(rows[i].0.as_str(), id) {
            return true;
        }
        i = i + 1;
    }
    false
}

/// The rows of a table with the row of `id` inserted, replacing any row of
/// that id; each id once. The order of the rows is not kept.
pub fn upsert_row<T>(rows: Vec<(String, T)>, id: String, row: T) -> (r: Vec<(String, T)>)
    ensures
        ids_unique(r@),
        rows_by_id(r@) == rows_by_id(rows@).insert(id@, row),
{
    let ghost target = rows_by_id(rows@).insert(id@, row);
    let mut rest = rows;
    let mut out: Vec<(String, T)> = Vec::new();
    let ghost id_view = id@;
    out.push((id, row));
    proof {
        let o = out@;
        assert(o.len() == 1);
        assert(o.last().0@ == id_view && o.last().1 == row);
        assert(o.drop_last() =~= Seq::<(String, T)>::empty());
        assert(rows_by_id(o.drop_last()) == Map::<Seq<char>, T>::empty());
        assert(rows_by_id(o) =~= Map::<Seq<char>, T>::empty().insert(id_view, row));
        assert(rows_by_id(rest@).union_prefer_right(rows_by_id(o)) =~= target);
    }
    while rest.len() > 0
        invariant
            ids_unique(out@),
            rows_by_id(rest@).union_prefer_right(rows_by_id(out@)) == target,
        decreases rest@.len(),
    {
        let ghost before_rest = rest@;
        let ghost before_out = out@;
        let (k, v) = rest.pop().unwrap();
        proof {
            assert(before_rest.drop_last() =~= rest@);
            assert(rows_by_id(before_rest) == rows_by_id(rest@).insert(k@, v));
            lemma_rows_by_id_dom(before_out, k@);
        }
        if !has_id(&out, k.as_str()) {
            let ghost kv = k@;
            out.push((k, v));
            proof {
                assert(out@.drop_last() =~= before_out);
                assert(rows_by_id(out@) == rows_by_id(before_out).insert(kv, v));
                assert(rows_by_id(rest@).union_prefer_right(rows_by_id(out@)) =~= rows_by_id(
                    rest@,
                ).insert(kv, v).union_prefer_right(rows_by_id(before_out)));
                assert forall|i: int, j: int| 0 <= i < j < out@.len() implies (#[trigger] out@[i]).0@ != (
                #[trigger] out@[j]).0@ by {
                    if j == out@.len() - 1 {
                        assert(out@[i] == before_out[i]);
                    } else {
                        assert(out@[i] == before_out[i] && out@[j] == before_out[j]);
                    }
                }
            }
        } else {
            proof {
                assert(rows_by_id(rest@).union_prefer_right(rows_by_id(out@)) =~= rows_by_id(
                    rest@,
                ).insert(k@, v).union_prefer_right(rows_by_id(out@)));
            }
        }
    }
    proof {
        assert(rest@ =~= Seq::<(String, T)>::empty());
        assert(rows_by_id(rest@).union_prefer_right(rows_by_id(out@)) =~= rows_by_id(out@));
    }
    out
}

/// Recording an alpha in the submitable table and reading the table back
/// gives its new row, and every other alpha's row as it was.
pub proof fn lemma_upsert_read<T>(rows: Seq<(String, T)>, id: Seq<char>, row: T, other: Seq<char>)
    ensures
        rows_by_id(rows).insert(id, row)[id] == row,
        other != id ==> (rows_by_id(rows).insert(id, row).dom().contains(other) == rows_by_id(rows).dom().contains(
            other,
        ) && rows_by_id(rows).insert(id, row)[other] == rows_by_id(rows)[other]),
{
}

} // verus!

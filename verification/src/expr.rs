//! Alpha expression factories: first-order expressions from data fields and
//! second-order grouped variants of existing expressions.

use vstd::prelude::*;
use crate::text::{strs, text_eq};

verus! {

/// A data field as the data-fields listing describes it: its id and its
/// type, each present only when the listing gives it as a string.
pub struct DataField {
    pub id: Option<String>,
    pub data_type: Option<String>,
}

/// The text of an optional string.
pub open spec fn opt_text(o: Option<String>) -> Option<Seq<char>> {
    match o {
        Some(s) => Some(s@),
        None => None,
    }
}

/// `field` wrapped in a 120-day backfill and winsorized at four standard
/// deviations.
pub open spec fn backfilled(field: Seq<char>) -> Seq<char> {
    "winsorize(ts_backfill("@ + field + ", 120), std=4)"@
}

/// The expressions a data field yields: a matrix field once, a vector field
/// through its average and its sum; a field of another type, or without an
/// id, yields none.
pub open spec fn field_exprs(id: Option<Seq<char>>, data_type: Option<Seq<char>>) -> Seq<Seq<char>> {
    match id {
        None => Seq::empty(),
        Some(i) => {
            let t = match data_type {
                Some(t) => t,
                None => Seq::<char>::empty(),
            };
            if t == "MATRIX"@ {
                seq![backfilled(i)]
            } else if t == "VECTOR"@ {
                seq![backfilled("vec_avg("@ + i + ")"@), backfilled("vec_sum("@ + i + ")"@)]
            } else {
                Seq::empty()
            }
        },
    }
}

impl DataField {
    /// The expressions this field yields.
    pub open spec fn exprs(self) -> Seq<Seq<char>> {
        field_exprs(opt_text(self.id), opt_text(self.data_type))
    }
}

/// The six plain operators, in order.
pub open spec fn basic_op(i: int) -> Seq<char> {
    if i == 0 {
        "log"@
    } else if i == 1 {
        "sqrt"@
    } else if i == 2 {
        "reverse"@
    } else if i == 3 {
        "rank"@
    } else if i == 4 {
        "zscore"@
    } else {
        "normalize"@
    }
}

/// The four time-series operators, in order.
pub open spec fn ts_op(i: int) -> Seq<char> {
    if i == 0 {
        "ts_rank"@
    } else if i == 1 {
        "ts_zscore"@
    } else if i == 2 {
        "ts_delta"@
    } else {
        "ts_sum"@
    }
}

/// The five look-back windows of the time-series operators, in order.
pub open spec fn lookback(i: int) -> Seq<char> {
    if i == 0 {
        "5"@
    } else if i == 1 {
        "22"@
    } else if i == 2 {
        "66"@
    } else if i == 3 {
        "120"@
    } else {
        "240"@
    }
}

/// The five group operators, in order.
pub open spec fn group_op(i: int) -> Seq<char> {
    if i == 0 {
        "group_neutralize"@
    } else if i == 1 {
        "group_rank"@
    } else if i == 2 {
        "group_normalize"@
    } else if i == 3 {
        "group_scale"@
    } else {
        "group_zscore"@
    }
}

/// The four groupings, in order.
pub open spec fn group_name(i: int) -> Seq<char> {
    if i == 0 {
        "market"@
    } else if i == 1 {
        "sector"@
    } else if i == 2 {
        "industry"@
    } else {
        "subindustry"@
    }
}

/// `op(x)`.
pub open spec fn applied(op: Seq<char>, x: Seq<char>) -> Seq<char> {
    op + "("@ + x + ")"@
}

/// `op(x, d)`.
pub open spec fn applied_over(op: Seq<char>, x: Seq<char>, d: Seq<char>) -> Seq<char> {
    op + "("@ + x + ", "@ + d + ")"@
}

/// `op(x,densify(g))`.
pub open spec fn grouped(op: Seq<char>, x: Seq<char>, g: Seq<char>) -> Seq<char> {
    op + "("@ + x + ",densify("@ + g + "))"@
}

/// Every group operator over every grouping applied to `x`: operators in
/// the outer order, groupings in the inner.
pub open spec fn group_block(x: Seq<char>) -> Seq<Seq<char>> {
    Seq::new(20, |i: int| grouped(group_op(i / 4), x, group_name(i % 4)))
}

/// The first-order expressions of one field: the field itself, each plain
/// operator on it, each time-series operator over each window (operators
/// outer, windows inner), then its group block.
pub open spec fn first_order_block(f: Seq<char>) -> Seq<Seq<char>> {
    seq![f] + Seq::new(6, |i: int| applied(basic_op(i), f)) + Seq::new(
        20,
        |i: int| applied_over(ts_op(i / 5), f, lookback(i % 5)),
    ) + group_block(f)
}

fn basic_op_name(i: usize) -> (r: &'static str)
    requires
        i < 6,
    ensures
        r@ == basic_op(i as int),
{
    proof {
        reveal_strlit("log");
        reveal_strlit("sqrt");
        reveal_strlit("reverse");
        reveal_strlit("rank");
        reveal_strlit("zscore");
        reveal_strlit("normalize");
    }
    if i == 0 {
        "log"
    } else if i == 1 {
        "sqrt"
    } else if i == 2 {
        "reverse"
    } else if i == 3 {
        "rank"
    } else if i == 4 {
        "zscore"
    } else {
        "normalize"
    }
}

fn ts_op_name(i: usize) -> (r: &'static str)
    requires
        i < 4,
    ensures
        r@ == ts_op(i as int),
{
    proof {
        reveal_strlit("ts_rank");
        reveal_strlit("ts_zscore");
        reveal_strlit("ts_delta");
        reveal_strlit("ts_sum");
    }
    if i == 0 {
        "ts_rank"
    } else if i == 1 {
        "ts_zscore"
    } else if i == 2 {
        "ts_delta"
    } else {
        "ts_sum"
    }
}

fn lookback_text(i: usize) -> (r: &'static str)
    requires
        i < 5,
    ensures
        r@ == lookback(i as int),
{
    proof {
        reveal_strlit("5");
        reveal_strlit("22");
        reveal_strlit("66");
        reveal_strlit("120");
        reveal_strlit("240");
    }
    if i == 0 {
        "5"
    } else if i == 1 {
        "22"
    } else if i == 2 {
        "66"
    } else if i == 3 {
        "120"
    } else {
        "240"
    }
}

fn group_op_name(i: usize) -> (r: &'static str)
    requires
        i < 5,
    ensures
        r@ == group_op(i as int),
{
    proof {
        reveal_strlit("group_neutralize");
        reveal_strlit("group_rank");
        reveal_strlit("group_normalize");
        reveal_strlit("group_scale");
        reveal_strlit("group_zscore");
    }
    if i == 0 {
        "group_neutralize"
    } else if i == 1 {
        "group_rank"
    } else if i == 2 {
        "group_normalize"
    } else if i == 3 {
        "group_scale"
    } else {
        "group_zscore"
    }
}

fn group_name_text(i: usize) -> (r: &'static str)
    requires
        i < 4,
    ensures
        r@ == group_name(i as int),
{
    proof {
        reveal_strlit("market");
        reveal_strlit("sector");
        reveal_strlit("industry");
        reveal_strlit("subindustry");
    }
    if i == 0 {
        "market"
    } else if i == 1 {
        "sector"
    } else if i == 2 {
        "industry"
    } else {
        "subindustry"
    }
}

/// The text `head` followed by `tail`, as a new string.
fn cat(head: &str, tail: &str) -> (r: String)
    ensures
        r@ == head@ + tail@,
{
    let mut s = String::from_str(head);
    s.append(tail);
    s
}

/// The group block of `x`, added to the end of `out`.
fn push_group_block(out: &mut Vec<String>, x: &str)
    ensures
        strs(final(out)@) == strs(old(out)@) + group_block(x@),
{
    let ghost base = strs(old(out)@);
    proof {
        reveal_strlit("(");
        reveal_strlit(",densify(");
        reveal_strlit("))");
    }
    let mut t: usize = 0;
    assert(strs(out@) =~= base + Seq::new(0, |i: int| grouped(group_op(i / 4), x@, group_name(i % 4))));
    while t < 20
        invariant
            t <= 20,
            strs(out@) == base + Seq::new(t as nat, |i: int| grouped(group_op(i / 4), x@, group_name(i % 4))),
        decreases 20 - t,
    {
        let mut e = cat(group_op_name(t / 4), "(");
        e.append(x);
        e.append(",densify(");
        e.append(group_name_text(t % 4));
        e.append("))");
        let ghost before = strs(out@);
        out.push(e);
        assert(strs(out@) =~= before.push(e@));
        t = t + 1;
        assert(Seq::new(t as nat, |i: int| grouped(group_op(i / 4), x@, group_name(i % 4)))
            =~= Seq::new((t - 1) as nat, |i: int| grouped(group_op(i / 4), x@, group_name(i % 4))).push(e@));
    }
}

/// The first-order block of `f`, added to the end of `out`.
fn push_first_order_block(out: &mut Vec<String>, f: &str)
    ensures
        strs(final(out)@) == strs(old(out)@) + first_order_block(f@),
{
    let ghost base = strs(old(out)@);
    proof {
        reveal_strlit("(");
        reveal_strlit(")");
        reveal_strlit(", ");
    }
    let head = String::from_str(f);
    out.push(head);
    assert(strs(out@) =~= base + seq![f@]);
    let ghost base1 = base + seq![f@];
    let mut t: usize = 0;
    assert(strs(out@) =~= base1 + Seq::new(0, |i: int| applied(basic_op(i), f@)));
    while t < 6
        invariant
            t <= 6,
            strs(out@) == base1 + Seq::new(t as nat, |i: int| applied(basic_op(i), f@)),
        decreases 6 - t,
    {
        let mut e = cat(basic_op_name(t), "(");
        e.append(f);
        e.append(")");
        let ghost before = strs(out@);
        out.push(e);
        assert(strs(out@) =~= before.push(e@));
        t = t + 1;
        assert(Seq::new(t as nat, |i: int| applied(basic_op(i), f@)) =~= Seq::new(
            (t - 1) as nat,
            |i: int| applied(basic_op(i), f@),
        ).push(e@));
    }
    let ghost base2 = base1 + Seq::new(6, |i: int| applied(basic_op(i), f@));
    let mut t: usize = 0;
    assert(strs(out@) =~= base2 + Seq::new(0, |i: int| applied_over(ts_op(i / 5), f@, lookback(i % 5))));
    while t < 20
        invariant
            t <= 20,
            strs(out@) == base2 + Seq::new(t as nat, |i: int| applied_over(ts_op(i / 5), f@, lookback(i % 5))),
        decreases 20 - t,
    {
        let mut e = cat(ts_op_name(t / 5), "(");
        e.append(f);
        e.append(", ");
        e.append(lookback_text(t % 5));
        e.append(")");
        let ghost before = strs(out@);
        out.push(e);
        assert(strs(out@) =~= before.push(e@));
        t = t + 1;
        assert(Seq::new(t as nat, |i: int| applied_over(ts_op(i / 5), f@, lookback(i % 5))) =~= Seq::new(
            (t - 1) as nat,
            |i: int| applied_over(ts_op(i / 5), f@, lookback(i % 5)),
        ).push(e@));
    }
    push_group_block(out, f);
    assert(strs(out@) =~= base + first_order_block(f@));
}

/// Every first-order expression of every field, field by field.
pub fn first_order_factory(fields: &Vec<String>) -> (out: Vec<String>)
    ensures
        strs(out@) == strs(fields@).map_values(|f: Seq<char>| first_order_block(f)).flatten(),
{
    let mut out: Vec<String> = Vec::new();
    let n = fields.len();
    let mut i: usize = 0;
    assert(strs(fields@).take(0).map_values(|f: Seq<char>| first_order_block(f)) =~= Seq::<Seq<Seq<char>>>::empty());
    while i < n
        invariant
            n == fields@.len(),
            i <= n,
            strs(out@) == strs(fields@).take(i as int).map_values(|f: Seq<char>| first_order_block(f)).flatten(),
        decreases n - i,
    {
        let ghost blocks = strs(fields@).take(i as int).map_values(|f: Seq<char>| first_order_block(f));
        push_first_order_block(&mut out, fields[i].as_str());
        proof {
            assert(strs(fields@).take(i + 1).map_values(|f: Seq<char>| first_order_block(f)) =~= blocks.push(
                first_order_block(fields@[i as int]@),
            ));
            blocks.lemma_flatten_push(first_order_block(fields@[i as int]@));
        }
        i = i + 1;
    }
    assert(strs(fields@).take(n as int) =~= strs(fields@));
    out
}

/// Every group operator over every grouping applied to each expression,
/// expression by expression.
pub fn second_order_group(expressions: &Vec<String>) -> (out: Vec<String>)
    ensures
        strs(out@) == strs(expressions@).map_values(|e: Seq<char>| group_block(e)).flatten(),
{
    let mut out: Vec<String> = Vec::new();
    let n = expressions.len();
    let mut i: usize = 0;
    assert(strs(expressions@).take(0).map_values(|e: Seq<char>| group_block(e)) =~= Seq::<Seq<Seq<char>>>::empty());
    while i < n
        invariant
            n == expressions@.len(),
            i <= n,
            strs(out@) == strs(expressions@).take(i as int).map_values(|e: Seq<char>| group_block(e)).flatten(),
        decreases n - i,
    {
        let ghost blocks = strs(expressions@).take(i as int).map_values(|e: Seq<char>| group_block(e));
        push_group_block(&mut out, expressions[i].as_str());
        proof {
            assert(strs(expressions@).take(i + 1).map_values(|e: Seq<char>| group_block(e)) =~= blocks.push(
                group_block(expressions@[i as int]@),
            ));
            blocks.lemma_flatten_push(group_block(expressions@[i as int]@));
        }
        i = i + 1;
    }
    assert(strs(expressions@).take(n as int) =~= strs(expressions@));
    out
}

/// `field` wrapped in a 120-day backfill, winsorized at four standard
/// deviations.
pub fn wrap_backfill(field: &str) -> (r: String)
    ensures
        r@ == backfilled(field@),
{
    proof {
        reveal_strlit("winsorize(ts_backfill(");
        reveal_strlit(", 120), std=4)");
    }
    let mut s = String::from_str("winsorize(ts_backfill(");
    s.append(field);
    s.append(", 120), std=4)");
    assert(s@ =~= backfilled(field@));
    s
}

/// The expressions of every data field, field by field.
pub fn process_datafields(fields: &Vec<DataField>) -> (out: Vec<String>)
    ensures
        strs(out@) == fields@.map_values(|d: DataField| d.exprs()).flatten(),
{
    proof {
        reveal_strlit("MATRIX");
        reveal_strlit("VECTOR");
        reveal_strlit("vec_avg(");
        reveal_strlit("vec_sum(");
        reveal_strlit(")");
    }
    let mut out: Vec<String> = Vec::new();
    let n = fields.len();
    let mut i: usize = 0;
    assert(fields@.take(0).map_values(|d: DataField| d.exprs()) =~= Seq::<Seq<Seq<char>>>::empty());
    while i < n
        invariant
            n == fields@.len(),
            i <= n,
            strs(out@) == fields@.take(i as int).map_values(|d: DataField| d.exprs()).flatten(),
        decreases n - i,
    {
        let ghost blocks = fields@.take(i as int).map_values(|d: DataField| d.exprs());
        let ghost before = strs(out@);
        let item = &fields[i];
        match &item.id {
            None => {
                assert(before + item.exprs() =~= before);
            },
            Some(id) => {
                let ty: &str = match &item.data_type {
                    Some(t) => t.as_str(),
                    None => "",
                };
                proof {
                    reveal_strlit("");
                    let t = match opt_text(item.data_type) {
                        Some(t) => t,
                        None => Seq::<char>::empty(),
                    };
                    assert(ty@ =~= t);
                    assert(opt_text(item.id) == Some(id@));
                }
                if text_eq(ty, "MATRIX") {
                    let e = wrap_backfill(id.as_str());
                    out.push(e);
                    assert(strs(out@) =~= before + item.exprs());
                } else if text_eq(ty, "VECTOR") {
                    let mut avg = String::from_str("vec_avg(");
                    avg.append(id.as_str());
                    avg.append(")");
                    let mut sum = String::from_str("vec_sum(");
                    sum.append(id.as_str());
                    sum.append(")");
                    let e1 = wrap_backfill(avg.as_str());
                    let e2 = wrap_backfill(sum.as_str());
                    out.push(e1);
                    out.push(e2);
                    assert(strs(out@) =~= before + item.exprs());
                } else {
                    assert(before + item.exprs() =~= before);
                }
            },
        }
        proof {
            assert(fields@.take(i + 1).map_values(|d: DataField| d.exprs()) =~= blocks.push(fields@[i as int].exprs()));
            blocks.lemma_flatten_push(fields@[i as int].exprs());
        }
        i = i + 1;
    }
    assert(fields@.take(n as int) =~= fields@);
    out
}

/// How the turnover of an alpha stands against the thresholds that govern
/// its refined decay: above 0.7, 0.6, 0.5, 0.4, 0.35 or 0.3, or not above
/// 0.3.
#[derive(Clone, Copy, Debug, PartialEq, Eq, Structural)]
pub enum TurnoverBand {
    Above70,
    Above60,
    Above50,
    Above40,
    Above35,
    Above30,
    AtMost30,
}

/// The refined decay for a band and a decay: four times it above 0.7,
/// three times it plus three above 0.6, three times it above 0.5, twice it
/// above 0.4, it plus four above 0.35, it plus two above 0.3, and none at
/// or below 0.3.
pub open spec fn band_decay(band: TurnoverBand, decay: int) -> Option<int> {
    match band {
        TurnoverBand::Above70 => Some(decay * 4),
        TurnoverBand::Above60 => Some(decay * 3 + 3),
        TurnoverBand::Above50 => Some(decay * 3),
        TurnoverBand::Above40 => Some(decay * 2),
        TurnoverBand::Above35 => Some(decay + 4),
        TurnoverBand::Above30 => Some(decay + 2),
        TurnoverBand::AtMost30 => None,
    }
}

/// Whether computing the refined decay stays within `i32`, every
/// intermediate value included.
pub open spec fn band_decay_fits(band: TurnoverBand, decay: int) -> bool {
    let fits = |v: int| i32::MIN <= v <= i32::MAX;
    match band {
        TurnoverBand::Above60 => fits(decay * 3) && fits(decay * 3 + 3),
        _ => match band_decay(band, decay) {
            Some(v) => fits(v),
            None => true,
        },
    }
}

/// The refined decay for an alpha of the given turnover band.
pub fn adjusted_decay_for_band(band: TurnoverBand, decay: i32) -> (r: Option<i32>)
    requires
        band_decay_fits(band, decay as int),
    ensures
        match r {
            Some(v) => band_decay(band, decay as int) == Some(v as int),
            None => band_decay(band, decay as int) is None,
        },
        band is Above70 ==> (r matches Some(v) && v == 4 * decay),
        band is Above60 ==> (r matches Some(v) && v == 3 * decay + 3),
        band is Above50 ==> (r matches Some(v) && v == 3 * decay),
        band is Above40 ==> (r matches Some(v) && v == 2 * decay),
        band is Above35 ==> (r matches Some(v) && v == decay + 4),
        band is Above30 ==> (r matches Some(v) && v == decay + 2),
        band is AtMost30 ==> r is None,
{
    match band {
        TurnoverBand::Above70 => Some(decay * 4),
        TurnoverBand::Above60 => Some(decay * 3 + 3),
        TurnoverBand::Above50 => Some(decay * 3),
        TurnoverBand::Above40 => Some(decay * 2),
        TurnoverBand::Above35 => Some(decay + 4),
        TurnoverBand::Above30 => Some(decay + 2),
        TurnoverBand::AtMost30 => None,
    }
}


/// Each field gives, in order: itself; `log`, `sqrt`, `reverse`, `rank`,
/// `zscore` and `normalize` of it; `ts_rank`, `ts_zscore`, `ts_delta` and
/// `ts_sum` of it over the windows 5, 22, 66, 120 and 240 (windows inner);
/// then the group operators over the four groupings.
pub proof fn lemma_first_order_block_texts(f: Seq<char>)
    ensures
        first_order_block(f) == seq![f] + seq![
            "log"@ + "("@ + f + ")"@,
            "sqrt"@ + "("@ + f + ")"@,
            "reverse"@ + "("@ + f + ")"@,
            "rank"@ + "("@ + f + ")"@,
            "zscore"@ + "("@ + f + ")"@,
            "normalize"@ + "("@ + f + ")"@,
        ] + seq![
            "ts_rank"@ + "("@ + f + ", "@ + "5"@ + ")"@,
            "ts_rank"@ + "("@ + f + ", "@ + "22"@ + ")"@,
            "ts_rank"@ + "("@ + f + ", "@ + "66"@ + ")"@,
            "ts_rank"@ + "("@ + f + ", "@ + "120"@ + ")"@,
            "ts_rank"@ + "("@ + f + ", "@ + "240"@ + ")"@,
            "ts_zscore"@ + "("@ + f + ", "@ + "5"@ + ")"@,
            "ts_zscore"@ + "("@ + f + ", "@ + "22"@ + ")"@,
            "ts_zscore"@ + "("@ + f + ", "@ + "66"@ + ")"@,
            "ts_zscore"@ + "("@ + f + ", "@ + "120"@ + ")"@,
            "ts_zscore"@ + "("@ + f + ", "@ + "240"@ + ")"@,
            "ts_delta"@ + "("@ + f + ", "@ + "5"@ + ")"@,
            "ts_delta"@ + "("@ + f + ", "@ + "22"@ + ")"@,
            "ts_delta"@ + "("@ + f + ", "@ + "66"@ + ")"@,
            "ts_delta"@ + "("@ + f + ", "@ + "120"@ + ")"@,
            "ts_delta"@ + "("@ + f + ", "@ + "240"@ + ")"@,
            "ts_sum"@ + "("@ + f + ", "@ + "5"@ + ")"@,
            "ts_sum"@ + "("@ + f + ", "@ + "22"@ + ")"@,
            "ts_sum"@ + "("@ + f + ", "@ + "66"@ + ")"@,
            "ts_sum"@ + "("@ + f + ", "@ + "120"@ + ")"@,
            "ts_sum"@ + "("@ + f + ", "@ + "240"@ + ")"@,
        ] + group_block(f),
        first_order_block(f).len() == 47,
{
    let plain = Seq::new(6, |i: int| applied(basic_op(i), f));
    let series = Seq::new(20, |i: int| applied_over(ts_op(i / 5), f, lookback(i % 5)));
    assert(plain =~= seq![
        "log"@ + "("@ + f + ")"@,
        "sqrt"@ + "("@ + f + ")"@,
        "reverse"@ + "("@ + f + ")"@,
        "rank"@ + "("@ + f + ")"@,
        "zscore"@ + "("@ + f + ")"@,
        "normalize"@ + "("@ + f + ")"@,
    ]);
    assert(series =~= seq![
        "ts_rank"@ + "("@ + f + ", "@ + "5"@ + ")"@,
        "ts_rank"@ + "("@ + f + ", "@ + "22"@ + ")"@,
        "ts_rank"@ + "("@ + f + ", "@ + "66"@ + ")"@,
        "ts_rank"@ + "("@ + f + ", "@ + "120"@ + ")"@,
        "ts_rank"@ + "("@ + f + ", "@ + "240"@ + ")"@,
        "ts_zscore"@ + "("@ + f + ", "@ + "5"@ + ")"@,
        "ts_zscore"@ + "("@ + f + ", "@ + "22"@ + ")"@,
        "ts_zscore"@ + "("@ + f + ", "@ + "66"@ + ")"@,
        "ts_zscore"@ + "("@ + f + ", "@ + "120"@ + ")"@,
        "ts_zscore"@ + "("@ + f + ", "@ + "240"@ + ")"@,
        "ts_delta"@ + "("@ + f + ", "@ + "5"@ + ")"@,
        "ts_delta"@ + "("@ + f + ", "@ + "22"@ + ")"@,
        "ts_delta"@ + "("@ + f + ", "@ + "66"@ + ")"@,
        "ts_delta"@ + "("@ + f + ", "@ + "120"@ + ")"@,
        "ts_delta"@ + "("@ + f + ", "@ + "240"@ + ")"@,
        "ts_sum"@ + "("@ + f + ", "@ + "5"@ + ")"@,
        "ts_sum"@ + "("@ + f + ", "@ + "22"@ + ")"@,
        "ts_sum"@ + "("@ + f + ", "@ + "66"@ + ")"@,
        "ts_sum"@ + "("@ + f + ", "@ + "120"@ + ")"@,
        "ts_sum"@ + "("@ + f + ", "@ + "240"@ + ")"@,
    ]);
}

/// The time-series expression of a field at window position `w` of
/// operator `j` sits at `7 + 5 * j + w` of the field's block, and its
/// window is the `w`-th of 5, 22, 66, 120 and 240: every time-series
/// operator uses exactly these windows, in this order.
pub proof fn lemma_first_order_windows(f: Seq<char>, j: int, w: int)
    requires
        0 <= j < 4,
        0 <= w < 5,
    ensures
        first_order_block(f)[7 + 5 * j + w] == seq!["ts_rank"@, "ts_zscore"@, "ts_delta"@, "ts_sum"@][j]
            + "("@ + f + ", "@ + seq![
            "5"@,
            "22"@,
            "66"@,
            "120"@,
            "240"@,
        ][w] + ")"@,
{
    lemma_first_order_block_texts(f);
}

/// The group variants of an expression, in order: `group_neutralize`,
/// `group_rank`, `group_normalize`, `group_scale` and `group_zscore`, each
/// over `market`, `sector`, `industry` and `subindustry` (groupings inner).
pub proof fn lemma_group_block_texts(x: Seq<char>)
    ensures
        group_block(x) == seq![
            "group_neutralize"@ + "("@ + x + ",densify("@ + "market"@ + "))"@,
            "group_neutralize"@ + "("@ + x + ",densify("@ + "sector"@ + "))"@,
            "group_neutralize"@ + "("@ + x + ",densify("@ + "industry"@ + "))"@,
            "group_neutralize"@ + "("@ + x + ",densify("@ + "subindustry"@ + "))"@,
            "group_rank"@ + "("@ + x + ",densify("@ + "market"@ + "))"@,
            "group_rank"@ + "("@ + x + ",densify("@ + "sector"@ + "))"@,
            "group_rank"@ + "("@ + x + ",densify("@ + "industry"@ + "))"@,
            "group_rank"@ + "("@ + x + ",densify("@ + "subindustry"@ + "))"@,
            "group_normalize"@ + "("@ + x + ",densify("@ + "market"@ + "))"@,
            "group_normalize"@ + "("@ + x + ",densify("@ + "sector"@ + "))"@,
            "group_normalize"@ + "("@ + x + ",densify("@ + "industry"@ + "))"@,
            "group_normalize"@ + "("@ + x + ",densify("@ + "subindustry"@ + "))"@,
            "group_scale"@ + "("@ + x + ",densify("@ + "market"@ + "))"@,
            "group_scale"@ + "("@ + x + ",densify("@ + "sector"@ + "))"@,
            "group_scale"@ + "("@ + x + ",densify("@ + "industry"@ + "))"@,
            "group_scale"@ + "("@ + x + ",densify("@ + "subindustry"@ + "))"@,
            "group_zscore"@ + "("@ + x + ",densify("@ + "market"@ + "))"@,
            "group_zscore"@ + "("@ + x + ",densify("@ + "sector"@ + "))"@,
            "group_zscore"@ + "("@ + x + ",densify("@ + "industry"@ + "))"@,
            "group_zscore"@ + "("@ + x + ",densify("@ + "subindustry"@ + "))"@,
        ],
{
    assert(group_block(x) =~= seq![
        "group_neutralize"@ + "("@ + x + ",densify("@ + "market"@ + "))"@,
        "group_neutralize"@ + "("@ + x + ",densify("@ + "sector"@ + "))"@,
        "group_neutralize"@ + "("@ + x + ",densify("@ + "industry"@ + "))"@,
        "group_neutralize"@ + "("@ + x + ",densify("@ + "subindustry"@ + "))"@,
        "group_rank"@ + "("@ + x + ",densify("@ + "market"@ + "))"@,
        "group_rank"@ + "("@ + x + ",densify("@ + "sector"@ + "))"@,
        "group_rank"@ + "("@ + x + ",densify("@ + "industry"@ + "))"@,
        "group_rank"@ + "("@ + x + ",densify("@ + "subindustry"@ + "))"@,
        "group_normalize"@ + "("@ + x + ",densify("@ + "market"@ + "))"@,
        "group_normalize"@ + "("@ + x + ",densify("@ + "sector"@ + "))"@,
        "group_normalize"@ + "("@ + x + ",densify("@ + "industry"@ + "))"@,
        "group_normalize"@ + "("@ + x + ",densify("@ + "subindustry"@ + "))"@,
        "group_scale"@ + "("@ + x + ",densify("@ + "market"@ + "))"@,
        "group_scale"@ + "("@ + x + ",densify("@ + "sector"@ + "))"@,
        "group_scale"@ + "("@ + x + ",densify("@ + "industry"@ + "))"@,
        "group_scale"@ + "("@ + x + ",densify("@ + "subindustry"@ + "))"@,
        "group_zscore"@ + "("@ + x + ",densify("@ + "market"@ + "))"@,
        "group_zscore"@ + "("@ + x + ",densify("@ + "sector"@ + "))"@,
        "group_zscore"@ + "("@ + x + ",densify("@ + "industry"@ + "))"@,
        "group_zscore"@ + "("@ + x + ",densify("@ + "subindustry"@ + "))"@,
    ]);
}

/// The refined decay is four times the decay above turnover 0.7, three
/// times plus three above 0.6, three times above 0.5, twice above 0.4, four
/// more above 0.35, two more above 0.3, and not refined at or below 0.3.
pub proof fn lemma_refined_decay_formulas(d: int)
    ensures
        band_decay(TurnoverBand::Above70, d) == Some(4 * d),
        band_decay(TurnoverBand::Above60, d) == Some(3 * d + 3),
        band_decay(TurnoverBand::Above50, d) == Some(3 * d),
        band_decay(TurnoverBand::Above40, d) == Some(2 * d),
        band_decay(TurnoverBand::Above35, d) == Some(d + 4),
        band_decay(TurnoverBand::Above30, d) == Some(d + 2),
        band_decay(TurnoverBand::AtMost30, d) == None::<int>,
{
}

/// A matrix field gives its backfilled self; a vector field the backfilled
/// average and sum; any other field, or one without an id, nothing.
pub proof fn lemma_field_expr_texts(id: Seq<char>, t: Seq<char>)
    ensures
        field_exprs(Some(id), Some("MATRIX"@)) == seq!["winsorize(ts_backfill("@ + id + ", 120), std=4)"@],
        field_exprs(Some(id), Some("VECTOR"@)) == seq![
            "winsorize(ts_backfill("@ + ("vec_avg("@ + id + ")"@) + ", 120), std=4)"@,
            "winsorize(ts_backfill("@ + ("vec_sum("@ + id + ")"@) + ", 120), std=4)"@,
        ],
        t != "MATRIX"@ && t != "VECTOR"@ ==> field_exprs(Some(id), Some(t)).len() == 0,
        field_exprs(None, Some(t)).len() == 0,
{
    reveal_strlit("MATRIX");
    reveal_strlit("VECTOR");
    assert("MATRIX"@[0] != "VECTOR"@[0]);
}

} // verus!

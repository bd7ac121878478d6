use alpha_rust::expr::{
    adjusted_decay_for_band, first_order_factory, process_datafields, second_order_group,
    wrap_backfill, DataField, TurnoverBand,
};

fn s(v: &str) -> String {
    v.to_string()
}

#[test]
fn backfill_wrapping() {
    assert_eq!(wrap_backfill("close"), "winsorize(ts_backfill(close, 120), std=4)");
}

#[test]
fn first_order_block_of_one_field() {
    let out = first_order_factory(&vec![s("f")]);
    assert_eq!(out.len(), 47);
    assert_eq!(out[0], "f");
    assert_eq!(out[1], "log(f)");
    assert_eq!(out[6], "normalize(f)");
    assert_eq!(out[7], "ts_rank(f, 5)");
    assert_eq!(out[8], "ts_rank(f, 22)");
    assert_eq!(out[26], "ts_sum(f, 240)");
    assert_eq!(out[27], "group_neutralize(f,densify(market))");
    assert_eq!(out[30], "group_neutralize(f,densify(subindustry))");
    assert_eq!(out[46], "group_zscore(f,densify(subindustry))");
}

#[test]
fn first_order_count_per_field() {
    let out = first_order_factory(&vec![s("a"), s("b"), s("c")]);
    assert_eq!(out.len(), 3 * 47);
    assert_eq!(out[47], "b");
    assert_eq!(out[94], "c");
    assert!(first_order_factory(&Vec::new()).is_empty());
}

#[test]
fn second_order_of_expressions() {
    let out = second_order_group(&vec![s("rank(x)"), s("-y")]);
    assert_eq!(out.len(), 40);
    assert_eq!(out[0], "group_neutralize(rank(x),densify(market))");
    assert_eq!(out[5], "group_rank(rank(x),densify(sector))");
    assert_eq!(out[39], "group_zscore(-y,densify(subindustry))");
}

#[test]
fn datafields_by_type() {
    let fields = vec![
        DataField { id: Some(s("m1")), data_type: Some(s("MATRIX")) },
        DataField { id: Some(s("v1")), data_type: Some(s("VECTOR")) },
        DataField { id: Some(s("g1")), data_type: Some(s("GROUP")) },
        DataField { id: None, data_type: Some(s("MATRIX")) },
        DataField { id: Some(s("n1")), data_type: None },
    ];
    assert_eq!(
        process_datafields(&fields),
        vec![
            s("winsorize(ts_backfill(m1, 120), std=4)"),
            s("winsorize(ts_backfill(vec_avg(v1), 120), std=4)"),
            s("winsorize(ts_backfill(vec_sum(v1), 120), std=4)"),
        ]
    );
}

#[test]
fn decay_by_turnover_band() {
    assert_eq!(adjusted_decay_for_band(TurnoverBand::Above70, 6), Some(24));
    assert_eq!(adjusted_decay_for_band(TurnoverBand::Above60, 6), Some(21));
    assert_eq!(adjusted_decay_for_band(TurnoverBand::Above50, 6), Some(18));
    assert_eq!(adjusted_decay_for_band(TurnoverBand::Above40, 6), Some(12));
    assert_eq!(adjusted_decay_for_band(TurnoverBand::Above35, 6), Some(10));
    assert_eq!(adjusted_decay_for_band(TurnoverBand::Above30, 6), Some(8));
    assert_eq!(adjusted_decay_for_band(TurnoverBand::AtMost30, 6), None);
    assert_eq!(adjusted_decay_for_band(TurnoverBand::Above60, -2), Some(-3));
}

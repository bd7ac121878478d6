use alpha_rust::expr::TurnoverBand;
use alpha_rust::workflow::{
    checked_record_file, compose_hunt_tag, compose_refine_tag, expression_record_file,
    field_lines, hunt_tag_for_lowered, parse_region_from_hunt_tag, parse_regions, plan_hunt,
    plan_refine, prepare_submit_ids, progress_message, record_entries, truncate_expr,
    uniform_decays, upsert_row, RefineCandidate, SubmitIdsError,
};

fn s(v: &str) -> String {
    v.to_string()
}

#[test]
fn hunt_tag_from_dataset_and_region() {
    assert_eq!(compose_hunt_tag("fundamental6", "USA"), "fundamental6_usa_1step");
    assert_eq!(compose_hunt_tag("analyst4", "ÄSIA"), "analyst4_äsia_1step");
    assert_eq!(hunt_tag_for_lowered("fundamental2", "chn"), "fundamental2_chn_1step");
}

#[test]
fn refine_tag_from_hunt_tag() {
    assert_eq!(compose_refine_tag("fundamental6_usa_1step"), "fundamental6_usa_2step");
    assert_eq!(compose_refine_tag("a_1step_b_1step"), "a_2step_b_2step");
    assert_eq!(compose_refine_tag("plain"), "plain");
    assert_eq!(compose_refine_tag("__1step1step"), "__2step1step");
}

#[test]
fn region_read_back_from_tag() {
    assert_eq!(parse_region_from_hunt_tag("fundamental6_usa_1step"), "USA");
    assert_eq!(parse_region_from_hunt_tag(&compose_hunt_tag("model77", "Chn")), "CHN");
    assert_eq!(parse_region_from_hunt_tag("nounderscore"), "USA");
    assert_eq!(parse_region_from_hunt_tag("a_b"), "A");
    assert_eq!(parse_region_from_hunt_tag("_x"), "");
}

#[test]
fn expression_truncation() {
    assert_eq!(truncate_expr("abcdef", 3), "abc...");
    assert_eq!(truncate_expr("abc", 3), "abc");
    assert_eq!(truncate_expr("äöü", 2), "äö...");
    assert_eq!(truncate_expr("", 0), "");
}

#[test]
fn record_file_names() {
    assert_eq!(
        expression_record_file("fundamental6_usa_1step"),
        "fundamental6_usa_1step_simulated_alpha_expression.txt"
    );
    assert_eq!(checked_record_file(&vec![s("t1"), s("t2")]), "t1_checked_alpha_id.txt");
    assert_eq!(checked_record_file(&Vec::new()), "_checked_alpha_id.txt");
}

#[test]
fn region_list_parsing() {
    assert_eq!(parse_regions(" USA, ,CHN ,"), vec![s("USA"), s("CHN")]);
    assert_eq!(parse_regions("USA"), vec![s("USA")]);
    assert!(parse_regions("").is_empty());
}

#[test]
fn record_and_field_lines() {
    assert_eq!(record_entries("a\r\n  b \n\n c"), vec![s("a"), s("b"), s("c")]);
    assert_eq!(field_lines("# comment\nclose\n  #x\n\nopen\n"), vec![s("close"), s("open")]);
}

#[test]
fn record_read_back_after_append() {
    let before = "x\n";
    let after = format!("{}{}\n", before, "  y ");
    let mut expected = record_entries(before);
    expected.push(s("y"));
    assert_eq!(record_entries(&after), expected);
}

#[test]
fn hunt_plan_skips_completed() {
    let plan = plan_hunt(&vec![s("f")], &vec![s("f"), s("log(f)"), s("other")]);
    assert_eq!(plan.len(), 45);
    assert_eq!(plan[0], "sqrt(f)");
    let all = alpha_rust::expr::first_order_factory(&vec![s("f")]);
    assert!(plan_hunt(&vec![s("f")], &all).is_empty());
}

#[test]
fn refine_plan_with_negation_and_decay() {
    let cands = vec![
        RefineCandidate { code: s("rank(x)"), negative_sharpe: true, band: TurnoverBand::Above70, decay: 3 },
        RefineCandidate { code: s("y"), negative_sharpe: false, band: TurnoverBand::AtMost30, decay: 5 },
    ];
    let done = vec![s("group_rank(y,densify(market))")];
    let plan = plan_refine(&cands, &done);
    assert_eq!(plan.len(), 39);
    assert_eq!(plan[0], (s("group_neutralize(-rank(x),densify(market))"), 12));
    assert_eq!(plan[20], (s("group_neutralize(y,densify(market))"), 5));
    assert!(!plan.iter().any(|p| p.0 == done[0]));
}

#[test]
fn submit_ids_sorted_and_unique() {
    let ids = prepare_submit_ids(&vec![s("b"), s("a"), s("b")], &vec![s("c"), s("a")]).unwrap();
    assert_eq!(ids, vec![s("a"), s("b"), s("c")]);
    let ids = prepare_submit_ids(&vec![s("Zz"), s("aa"), s("Z")], &Vec::new()).unwrap();
    assert_eq!(ids, vec![s("Z"), s("Zz"), s("aa")]);
    assert_eq!(prepare_submit_ids(&Vec::new(), &Vec::new()), Err(SubmitIdsError::NoIds));
}

#[test]
fn progress_line() {
    assert_eq!(progress_message(3, 10, "abc", "rank(x)"), "Alpha 3/10: abc rank(x)");
    let long = "x".repeat(60);
    assert_eq!(
        progress_message(1, 1, "id", &long),
        format!("Alpha 1/1: id {}...", "x".repeat(56))
    );
}

#[test]
fn equal_decays() {
    assert_eq!(uniform_decays(3, 6), vec![6, 6, 6]);
    assert!(uniform_decays(0, 6).is_empty());
}

#[test]
fn upsert_replaces_the_row_of_an_id() {
    let rows = vec![(s("a"), 1), (s("b"), 2), (s("a"), 3), (s("c"), 4)];
    let mut out = upsert_row(rows, s("b"), 9);
    out.sort();
    assert_eq!(out, vec![(s("a"), 3), (s("b"), 9), (s("c"), 4)]);
    let out = upsert_row(Vec::new(), s("z"), 7);
    assert_eq!(out, vec![(s("z"), 7)]);
}

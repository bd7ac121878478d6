use alpha_rust::brain::{
    alpha_url, authentication_url, color_properties, correlations_url, datafields_url,
    datasets_url, next_alphas_offset, next_datafields_offset, parse_user_info,
    passes_submit_filter, refine_alphas_url, refine_config, resolve_credentials,
    simulation_post_outcome, simulation_request, submit_alphas_url, submit_url, tag_properties,
    simulations_url, AlphaSettings, CredentialError, SimulationPostError,
};

fn s(v: &str) -> String {
    v.to_string()
}

#[test]
fn simple_urls() {
    assert_eq!(authentication_url("https://x"), "https://x/authentication");
    assert_eq!(simulations_url("https://x"), "https://x/simulations");
    assert_eq!(alpha_url("https://x", "A1"), "https://x/alphas/A1");
    assert_eq!(submit_url("https://x", "A1"), "https://x/alphas/A1/submit");
    assert_eq!(correlations_url("https://x", "A1", "self"), "https://x/alphas/A1/correlations/self");
}

#[test]
fn listing_urls() {
    assert_eq!(
        datasets_url("https://x", "EQUITY", "USA", 1, "TOP3000"),
        "https://x/data-sets?instrumentType=EQUITY&region=USA&delay=1&universe=TOP3000"
    );
    assert_eq!(
        datasets_url("h", "E", "R", -12, "U"),
        "h/data-sets?instrumentType=E&region=R&delay=-12&universe=U"
    );
    assert_eq!(
        datafields_url("h", "EQUITY", "USA", 0, "TOP3000", 150, Some("fundamental6"), None),
        "h/data-fields?instrumentType=EQUITY&region=USA&delay=0&universe=TOP3000&limit=50&offset=150&dataset.id=fundamental6"
    );
    assert_eq!(
        datafields_url("h", "E", "R", 1, "U", 0, None, Some("cap")),
        "h/data-fields?instrumentType=E&region=R&delay=1&universe=U&limit=50&offset=0&search=cap"
    );
}

#[test]
fn alpha_listing_urls() {
    assert_eq!(
        refine_alphas_url("h", 200, "t_usa_1step", "USA", "0.75", "0.5"),
        "h/users/self/alphas?limit=100&offset=200&tag%3D=t_usa_1step&is.longCount%3E=100&is.shortCount%3E=100&settings.region=USA&is.sharpe%3E=0.75&is.fitness%3E=0.5&status=UNSUBMITTED&dateCreated%3E=2000-01-01T00:00:00-04:00&dateCreated%3C2100-12-31T00:00:00-04:00&type=REGULAR&settings.instrumentType=EQUITY&order=-is.sharpe&hidden=false&type!=SUPER"
    );
    assert_eq!(
        submit_alphas_url("h", 0, "USA", "1.25", "2024-10-07", "2024-10-08"),
        "h/users/self/alphas?limit=100&offset=0&is.longCount%3E=10&is.shortCount%3E=10&settings.region=USA&is.sharpe%3E=1.25&is.fitness%3E=1&status=UNSUBMITTED&dateCreated%3E=2024-10-07T00:00:00-04:00&dateCreated%3C2024-10-08T00:00:00-04:00&order=-is.sharpe&hidden=false&type!=SUPER&color!=RED"
    );
}

#[test]
fn paging() {
    assert_eq!(next_datafields_offset(0, 50), Some(50));
    assert_eq!(next_datafields_offset(100, 49), None);
    assert_eq!(next_alphas_offset(0, 250), Some(100));
    assert_eq!(next_alphas_offset(200, 250), None);
    assert_eq!(next_alphas_offset(0, 100), None);
    assert_eq!(next_alphas_offset(0, 0), None);
}

#[test]
fn simulation_answers() {
    assert_eq!(simulation_post_outcome(true, Some(s("u")), ""), Ok(Some(s("u"))));
    assert_eq!(simulation_post_outcome(true, None, "SIMULATION_LIMIT_EXCEEDED"), Ok(None));
    assert_eq!(
        simulation_post_outcome(false, None, "{\"detail\":\"SIMULATION_LIMIT_EXCEEDED\"}"),
        Ok(None)
    );
    assert_eq!(
        simulation_post_outcome(false, Some(s("u")), "bad"),
        Err(SimulationPostError::Rejected)
    );
}

#[test]
fn simulation_settings() {
    let r = simulation_request("rank(x)", "USA", "TOP3000", 1, 6, "SUBINDUSTRY");
    assert_eq!(r.kind, "REGULAR");
    assert_eq!(r.instrument_type, "EQUITY");
    assert_eq!(r.region, "USA");
    assert_eq!(r.universe, "TOP3000");
    assert_eq!((r.delay, r.decay), (1, 6));
    assert_eq!(r.neutralization, "SUBINDUSTRY");
    assert_eq!(r.pasteurization, "ON");
    assert_eq!(r.unit_handling, "VERIFY");
    assert_eq!(r.nan_handling, "ON");
    assert_eq!(r.language, "FASTEXPR");
    assert!(!r.visualization);
    assert_eq!(r.expression, "rank(x)");
}

#[test]
fn alpha_properties() {
    let p = tag_properties("t1");
    assert_eq!(p.name, Some(s("t1")));
    assert_eq!(p.color, None);
    assert_eq!(p.tags, Some(vec![s("t1")]));
    let p = color_properties("RED");
    assert_eq!((p.name, p.color, p.tags), (None, Some(s("RED")), None));
}

#[test]
fn submit_filter() {
    assert!(passes_submit_filter(&vec![s("PASS"), s("WARNING")]));
    assert!(!passes_submit_filter(&vec![s("PASS"), s("FAIL")]));
    assert!(passes_submit_filter(&Vec::new()));
}

#[test]
fn refine_settings() {
    let first = AlphaSettings {
        region: s("CHN"),
        universe: s("TOP2000U"),
        delay: 0,
        decay: 4,
        neutralization: None,
    };
    let c = refine_config(Some(&first), s("USA"));
    assert_eq!((c.region, c.universe, c.delay), (s("CHN"), s("TOP2000U"), 0));
    assert_eq!((c.instrument_type, c.neutralization), (s("EQUITY"), s("SUBINDUSTRY")));
    let c = refine_config(None, s("USA"));
    assert_eq!((c.region, c.universe, c.delay), (s("USA"), s("TOP3000"), 1));
    assert_eq!(c.neutralization, "SUBINDUSTRY");
}

#[test]
fn user_info_file_parsing() {
    let (u, p) = parse_user_info("username: 'me@x.com'\npassword : 'pw:1' \r\nnoise\nusername:later\n");
    assert_eq!(u, Some(s("later")));
    assert_eq!(p, Some(s("pw:1")));
    assert_eq!(parse_user_info(""), (None, None));
}

#[test]
fn credential_resolution() {
    assert_eq!(
        resolve_credentials(Some(s("a")), Some(s("b")), Some(s("c")), Some(s("d")), None),
        Ok((s("a"), s("b")))
    );
    assert_eq!(
        resolve_credentials(Some(s("a")), None, Some(s("c")), Some(s("d")), None),
        Ok((s("c"), s("d")))
    );
    assert_eq!(
        resolve_credentials(None, None, Some(s("")), Some(s("d")), Some(s("username:u\npassword:p"))),
        Ok((s("u"), s("p")))
    );
    assert_eq!(resolve_credentials(None, None, None, None, None), Err(CredentialError::Unreadable));
    assert_eq!(
        resolve_credentials(None, None, None, None, Some(s("password: p"))),
        Err(CredentialError::MissingUsername)
    );
    assert_eq!(
        resolve_credentials(None, None, None, None, Some(s("username: u"))),
        Err(CredentialError::MissingPassword)
    );
}

//! What the Brain API client computes around its requests: the request
//! texts, the paging, the reading of answers and of stored credentials.

use vstd::prelude::*;
use crate::expr::opt_text;
use crate::text::{
    decimal, has_substring, contains_text, i32_text, signed_decimal, split_char, split_on, strs,
    trim, trim_char, trimmed, trimmed_char, usize_text,
};

verus! {

/// The code of an alpha's regular expression.
pub struct AlphaRegular {
    pub code: String,
}

/// The settings an alpha was simulated with.
pub struct AlphaSettings {
    pub region: String,
    pub universe: String,
    pub delay: i32,
    pub decay: i32,
    pub neutralization: Option<String>,
}

/// `{api}/authentication`.
pub fn authentication_url(api_url: &str) -> (r: String)
    ensures
        r@ == api_url@ + "/authentication"@,
{
    proof {
        reveal_strlit("/authentication");
    }
    let mut s = String::from_str(api_url);
    s.append("/authentication");
    s
}

/// `{api}/simulations`.
pub fn simulations_url(api_url: &str) -> (r: String)
    ensures
        r@ == api_url@ + "/simulations"@,
{
    proof {
        reveal_strlit("/simulations");
    }
    let mut s = String::from_str(api_url);
    s.append("/simulations");
    s
}

/// `{api}/alphas/{id}`.
pub fn alpha_url(api_url: &str, alpha_id: &str) -> (r: String)
    ensures
        r@ == api_url@ + "/alphas/"@ + alpha_id@,
{
    proof {
        reveal_strlit("/alphas/");
    }
    let mut s = String::from_str(api_url);
    s.append("/alphas/");
    s.append(alpha_id);
    s
}

/// `{api}/alphas/{id}/submit`.
pub fn submit_url(api_url: &str, alpha_id: &str) -> (r: String)
    ensures
        r@ == api_url@ + "/alphas/"@ + alpha_id@ + "/submit"@,
{
    proof {
        reveal_strlit("/submit");
    }
    let mut s = alpha_url(api_url, alpha_id);
    s.append("/submit");
    s
}

/// `{api}/alphas/{id}/correlations/{kind}`.
pub fn correlations_url(api_url: &str, alpha_id: &str, kind: &str) -> (r: String)
    ensures
        r@ == api_url@ + "/alphas/"@ + alpha_id@ + "/correlations/"@ + kind@,
{
    proof {
        reveal_strlit("/correlations/");
    }
    let mut s = alpha_url(api_url, alpha_id);
    s.append("/correlations/");
    s.append(kind);
    s
}

/// The number of data fields a page of the listing asks for.
pub const DATAFIELDS_PAGE: usize = 50;

/// The query of the data-sets listing.
pub open spec fn datasets_query(api: Seq<char>, instrument_type: Seq<char>, region: Seq<char>, delay: int, universe: Seq<char>) -> Seq<char> {
    api + "/data-sets?instrumentType="@ + instrument_type + "&region="@ + region + "&delay="@
        + signed_decimal(delay) + "&universe="@ + universe
}

/// The URL of the data-sets listing.
pub fn datasets_url(api_url: &str, instrument_type: &str, region: &str, delay: i32, universe: &str) -> (r: String)
    ensures
        r@ == datasets_query(api_url@, instrument_type@, region@, delay as int, universe@),
{
    proof {
        reveal_strlit("/data-sets?instrumentType=");
        reveal_strlit("&region=");
        reveal_strlit("&delay=");
        reveal_strlit("&universe=");
    }
    let mut s = String::from_str(api_url);
    s.append("/data-sets?instrumentType=");
    s.append(instrument_type);
    s.append("&region=");
    s.append(region);
    s.append("&delay=");
    let d = i32_text(delay);
    s.append(d.as_str());
    s.append("&universe=");
    s.append(universe);
    s
}

/// The query of one page of the data-fields listing, with the dataset and
/// the search term when they are given.
pub open spec fn datafields_query(
    api: Seq<char>,
    instrument_type: Seq<char>,
    region: Seq<char>,
    delay: int,
    universe: Seq<char>,
    offset: nat,
    dataset_id: Option<Seq<char>>,
    search: Option<Seq<char>>,
) -> Seq<char> {
    let base = api + "/data-fields?instrumentType="@ + instrument_type + "&region="@ + region
        + "&delay="@ + signed_decimal(delay) + "&universe="@ + universe + "&limit="@
        + decimal(DATAFIELDS_PAGE as nat) + "&offset="@ + decimal(offset);
    let with_dataset = match dataset_id {
        Some(ds) => base + "&dataset.id="@ + ds,
        None => base,
    };
    match search {
        Some(q) => with_dataset + "&search="@ + q,
        None => with_dataset,
    }
}

/// The URL of one page of the data-fields listing.
pub fn datafields_url(
    api_url: &str,
    instrument_type: &str,
    region: &str,
    delay: i32,
    universe: &str,
    offset: usize,
    dataset_id: Option<&str>,
    search: Option<&str>,
) -> (r: String)
    ensures
        r@ == datafields_query(
            api_url@,
            instrument_type@,
            region@,
            delay as int,
            universe@,
            offset as nat,
            match dataset_id {
                Some(d) => Some(d@),
                None => None,
            },
            match search {
                Some(q) => Some(q@),
                None => None,
            },
        ),
{
    proof {
        reveal_strlit("/data-fields?instrumentType=");
        reveal_strlit("&region=");
        reveal_strlit("&delay=");
        reveal_strlit("&universe=");
        reveal_strlit("&limit=");
        reveal_strlit("&offset=");
        reveal_strlit("&dataset.id=");
        reveal_strlit("&search=");
    }
    let mut s = String::from_str(api_url);
    s.append("/data-fields?instrumentType=");
    s.append(instrument_type);
    s.append("&region=");
    s.append(region);
    s.append("&delay=");
    let d = i32_text(delay);
    s.append(d.as_str());
    s.append("&universe=");
    s.append(universe);
    s.append("&limit=");
    let l = usize_text(DATAFIELDS_PAGE);
    s.append(l.as_str());
    s.append("&offset=");
    let o = usize_text(offset);
    s.append(o.as_str());
    if let Some(ds) = dataset_id {
        s.append("&dataset.id=");
        s.append(ds);
    }
    if let Some(q) = search {
        s.append("&search=");
        s.append(q);
    }
    s
}

/// A page of the data-fields listing asks for fifty fields from its offset;
/// a dataset id, when given, always adds `&dataset.id=` and the id, with or
/// without a search term; a search term, when given, then adds `&search=`
/// and the term.
pub proof fn lemma_datafields_query_filters(
    api: Seq<char>,
    instrument_type: Seq<char>,
    region: Seq<char>,
    delay: int,
    universe: Seq<char>,
    offset: nat,
    ds: Seq<char>,
    q: Seq<char>,
)
    ensures
        datafields_query(api, instrument_type, region, delay, universe, offset, None, None) == api
            + "/data-fields?instrumentType="@ + instrument_type + "&region="@ + region + "&delay="@
            + signed_decimal(delay) + "&universe="@ + universe + "&limit="@ + "50"@ + "&offset="@
            + decimal(offset),
        datafields_query(api, instrument_type, region, delay, universe, offset, Some(ds), None)
            == datafields_query(api, instrument_type, region, delay, universe, offset, None, None)
            + "&dataset.id="@ + ds,
        datafields_query(api, instrument_type, region, delay, universe, offset, None, Some(q))
            == datafields_query(api, instrument_type, region, delay, universe, offset, None, None)
            + "&search="@ + q,
        datafields_query(api, instrument_type, region, delay, universe, offset, Some(ds), Some(q))
            == datafields_query(api, instrument_type, region, delay, universe, offset, None, None)
            + "&dataset.id="@ + ds + "&search="@ + q,
{
    reveal_strlit("50");
    assert(decimal(5) == seq!['5']);
    assert(decimal(50) =~= "50"@);
}

/// The offset of the next data-fields page: none once a page came back
/// short of a full page.
pub fn next_datafields_offset(offset: usize, got: usize) -> (r: Option<usize>)
    requires
        got >= DATAFIELDS_PAGE ==> offset + DATAFIELDS_PAGE <= usize::MAX,
    ensures
        r == if got < DATAFIELDS_PAGE {
            None::<usize>
        } else {
            Some((offset + DATAFIELDS_PAGE) as usize)
        },
{
    if got < DATAFIELDS_PAGE {
        None
    } else {
        Some(offset + DATAFIELDS_PAGE)
    }
}

/// The number of alphas a page of the alpha listing asks for.
pub const ALPHAS_PAGE: usize = 100;

/// The offset of the next page of the alpha listing: none once the offset
/// reaches the count the listing reported, or when it reported none.
pub fn next_alphas_offset(offset: usize, count: usize) -> (r: Option<usize>)
    requires
        offset + ALPHAS_PAGE <= usize::MAX,
    ensures
        r == if offset + ALPHAS_PAGE >= count || count == 0 {
            None::<usize>
        } else {
            Some((offset + ALPHAS_PAGE) as usize)
        },
{
    let next = offset + ALPHAS_PAGE;
    if next >= count || count == 0 {
        None
    } else {
        Some(next)
    }
}

/// The query of one page of the hunt alphas of a tag: unsubmitted regular
/// equity alphas of the region, above the two thresholds (given as their
/// decimal texts), best Sharpe first.
pub open spec fn refine_alphas_query(
    api: Seq<char>,
    offset: nat,
    hunt_tag: Seq<char>,
    region: Seq<char>,
    sharpe: Seq<char>,
    fitness: Seq<char>,
) -> Seq<char> {
    api + "/users/self/alphas?limit=100&offset="@ + decimal(offset) + "&tag%3D="@ + hunt_tag
        + "&is.longCount%3E=100&is.shortCount%3E=100&settings.region="@ + region + "&is.sharpe%3E="@
        + sharpe + "&is.fitness%3E="@ + fitness
        + "&status=UNSUBMITTED&dateCreated%3E=2000-01-01T00:00:00-04:00&dateCreated%3C2100-12-31T00:00:00-04:00&type=REGULAR&settings.instrumentType=EQUITY&order=-is.sharpe&hidden=false&type!=SUPER"@
}

/// The URL of one page of the hunt alphas of a tag.
pub fn refine_alphas_url(
    api_url: &str,
    offset: usize,
    hunt_tag: &str,
    region: &str,
    sharpe: &str,
    fitness: &str,
) -> (r: String)
    ensures
        r@ == refine_alphas_query(api_url@, offset as nat, hunt_tag@, region@, sharpe@, fitness@),
{
    proof {
        reveal_strlit("/users/self/alphas?limit=100&offset=");
        reveal_strlit("&tag%3D=");
        reveal_strlit("&is.longCount%3E=100&is.shortCount%3E=100&settings.region=");
        reveal_strlit("&is.sharpe%3E=");
        reveal_strlit("&is.fitness%3E=");
        reveal_strlit("&status=UNSUBMITTED&dateCreated%3E=2000-01-01T00:00:00-04:00&dateCreated%3C2100-12-31T00:00:00-04:00&type=REGULAR&settings.instrumentType=EQUITY&order=-is.sharpe&hidden=false&type!=SUPER");
    }
    let mut s = String::from_str(api_url);
    s.append("/users/self/alphas?limit=100&offset=");
    let o = usize_text(offset);
    s.append(o.as_str());
    s.append("&tag%3D=");
    s.append(hunt_tag);
    s.append("&is.longCount%3E=100&is.shortCount%3E=100&settings.region=");
    s.append(region);
    s.append("&is.sharpe%3E=");
    s.append(sharpe);
    s.append("&is.fitness%3E=");
    s.append(fitness);
    s.append("&status=UNSUBMITTED&dateCreated%3E=2000-01-01T00:00:00-04:00&dateCreated%3C2100-12-31T00:00:00-04:00&type=REGULAR&settings.instrumentType=EQUITY&order=-is.sharpe&hidden=false&type!=SUPER");
    s
}

/// The query of one page of the alphas to check for submission: unsubmitted
/// alphas of the region created between the two dates, above the Sharpe
/// threshold (given as its decimal text), not marked red, best Sharpe first.
pub open spec fn submit_alphas_query(
    api: Seq<char>,
    offset: nat,
    region: Seq<char>,
    sharpe: Seq<char>,
    start_date: Seq<char>,
    end_date: Seq<char>,
) -> Seq<char> {
    api + "/users/self/alphas?limit=100&offset="@ + decimal(offset)
        + "&is.longCount%3E=10&is.shortCount%3E=10&settings.region="@ + region + "&is.sharpe%3E="@ + sharpe
        + "&is.fitness%3E=1&status=UNSUBMITTED&dateCreated%3E="@ + start_date
        + "T00:00:00-04:00&dateCreated%3C"@ + end_date
        + "T00:00:00-04:00&order=-is.sharpe&hidden=false&type!=SUPER&color!=RED"@
}

/// The URL of one page of the alphas to check for submission.
pub fn submit_alphas_url(
    api_url: &str,
    offset: usize,
    region: &str,
    sharpe: &str,
    start_date: &str,
    end_date: &str,
) -> (r: String)
    ensures
        r@ == submit_alphas_query(api_url@, offset as nat, region@, sharpe@, start_date@, end_date@),
{
    proof {
        reveal_strlit("/users/self/alphas?limit=100&offset=");
        reveal_strlit("&is.longCount%3E=10&is.shortCount%3E=10&settings.region=");
        reveal_strlit("&is.sharpe%3E=");
        reveal_strlit("&is.fitness%3E=1&status=UNSUBMITTED&dateCreated%3E=");
        reveal_strlit("T00:00:00-04:00&dateCreated%3C");
        reveal_strlit("T00:00:00-04:00&order=-is.sharpe&hidden=false&type!=SUPER&color!=RED");
    }
    let mut s = String::from_str(api_url);
    s.append("/users/self/alphas?limit=100&offset=");
    let o = usize_text(offset);
    s.append(o.as_str());
    s.append("&is.longCount%3E=10&is.shortCount%3E=10&settings.region=");
    s.append(region);
    s.append("&is.sharpe%3E=");
    s.append(sharpe);
    s.append("&is.fitness%3E=1&status=UNSUBMITTED&dateCreated%3E=");
    s.append(start_date);
    s.append("T00:00:00-04:00&dateCreated%3C");
    s.append(end_date);
    s.append("T00:00:00-04:00&order=-is.sharpe&hidden=false&type!=SUPER&color!=RED");
    s
}

/// Whether none of an alpha's check results is `FAIL`.
pub open spec fn no_failed_check(results: Seq<Seq<char>>) -> bool {
    !results.contains("FAIL"@)
}

/// Whether an alpha with these check results is kept for the submission
/// check: none of them may be `FAIL`.
pub fn passes_submit_filter(results: &Vec<String>) -> (r: bool)
    ensures
        r == no_failed_check(strs(results@)),
{
    proof {
        reveal_strlit("FAIL");
    }
    let n = results.len();
    let mut i: usize = 0;
    while i < n
        invariant
            n == results@.len(),
            i <= n,
            forall|k: int| 0 <= k < i ==> results@[k]@ != "FAIL"@,
        decreases n - i,
    {
        if crate::text::text_eq(results[i].as_str(), "FAIL") {
            assert(strs(results@)[i as int] == "FAIL"@);
            return false;
        }
        i = i + 1;
    }
    assert forall|k: int| 0 <= k < strs(results@).len() implies strs(results@)[k] != "FAIL"@ by {
        assert(strs(results@)[k] == results@[k]@);
    }
    true
}

/// The settings the refine step simulates with.
pub struct RefineConfig {
    pub region: String,
    pub universe: String,
    pub delay: i32,
    pub instrument_type: String,
    pub neutralization: String,
}

/// The refine settings: those of the first hunt alpha listed, its
/// neutralization `SUBINDUSTRY` when it has none; without any alpha,
/// `TOP3000`, the region of the hunt tag, delay 1 and `SUBINDUSTRY`. The
/// instrument type is always `EQUITY`.
pub fn refine_config(first: Option<&AlphaSettings>, tag_region: String) -> (r: RefineConfig)
    ensures
        r.instrument_type@ == "EQUITY"@,
        match first {
            Some(s) => {
                &&& r.region@ == s.region@
                &&& r.universe@ == s.universe@
                &&& r.delay == s.delay
                &&& r.neutralization@ == match s.neutralization {
                    Some(n) => n@,
                    None => "SUBINDUSTRY"@,
                }
            },
            None => {
                &&& r.region@ == tag_region@
                &&& r.universe@ == "TOP3000"@
                &&& r.delay == 1
                &&& r.neutralization@ == "SUBINDUSTRY"@
            },
        },
{
    proof {
        reveal_strlit("EQUITY");
        reveal_strlit("SUBINDUSTRY");
        reveal_strlit("TOP3000");
    }
    match first {
        Some(s) => RefineConfig {
            region: s.region.clone(),
            universe: s.universe.clone(),
            delay: s.delay,
            instrument_type: String::from_str("EQUITY"),
            neutralization: match &s.neutralization {
                Some(n) => n.clone(),
                None => String::from_str("SUBINDUSTRY"),
            },
        },
        None => RefineConfig {
            region: tag_region,
            universe: String::from_str("TOP3000"),
            delay: 1,
            instrument_type: String::from_str("EQUITY"),
            neutralization: String::from_str("SUBINDUSTRY"),
        },
    }
}

/// Why a simulation request was turned down.
#[derive(Debug, Clone, Copy, PartialEq, Eq, Structural)]
pub enum SimulationPostError {
    /// The service refused the request for a reason other than the limit
    /// of running simulations.
    Rejected,
}

/// What the answer to a simulation request means: on success the progress
/// URL of its `Location` header (none when the header is missing or not
/// text); on failure, nothing yet when the body names
/// `SIMULATION_LIMIT_EXCEEDED`, so that the request is tried again later,
/// and an error otherwise. The body is only read on failure.
pub fn simulation_post_outcome(success: bool, location: Option<String>, body: &str) -> (r: Result<
    Option<String>,
    SimulationPostError,
>)
    ensures
        success ==> r == Ok::<Option<String>, SimulationPostError>(location),
        !success && has_substring(body@, "SIMULATION_LIMIT_EXCEEDED"@) ==> r == Ok::<
            Option<String>,
            SimulationPostError,
        >(None),
        !success && !has_substring(body@, "SIMULATION_LIMIT_EXCEEDED"@) ==> r == Err::<
            Option<String>,
            SimulationPostError,
        >(SimulationPostError::Rejected),
{
    if success {
        return Ok(location);
    }
    if contains_text(body, "SIMULATION_LIMIT_EXCEEDED") {
        Ok(None)
    } else {
        Err(SimulationPostError::Rejected)
    }
}

/// The index of the first `c` in `s`.
pub open spec fn index_of_char(s: Seq<char>, c: char) -> Option<int>
    decreases s.len(),
{
    if s.len() == 0 {
        None
    } else if s[0] == c {
        Some(0)
    } else {
        match index_of_char(s.drop_first(), c) {
            Some(i) => Some(i + 1),
            None => None,
        }
    }
}

proof fn lemma_index_of_char(s: Seq<char>, c: char, i: int)
    requires
        0 <= i <= s.len(),
        forall|k: int| 0 <= k < i ==> s[k] != c,
    ensures
        i < s.len() && s[i] == c ==> index_of_char(s, c) == Some(i),
        i == s.len() ==> index_of_char(s, c) is None,
    decreases i,
{
    if i > 0 {
        lemma_index_of_char(s.drop_first(), c, i - 1);
    } else if s.len() > 0 && s[0] != c {
    }
}

/// The key and the value of a `key: value` line: the text before its first
/// `:` and the text after it, both trimmed, the value also without
/// surrounding single quotes; none for a line without `:`.
pub open spec fn key_value(line: Seq<char>) -> Option<(Seq<char>, Seq<char>)> {
    match index_of_char(line, ':') {
        Some(i) => Some((trimmed(line.take(i)), trimmed_char(trimmed(line.skip(i + 1)), '\''))),
        None => None,
    }
}

/// The value of the last line of `lines` whose key is `key`.
pub open spec fn lookup(lines: Seq<Seq<char>>, key: Seq<char>) -> Option<Seq<char>>
    decreases lines.len(),
{
    if lines.len() == 0 {
        None
    } else {
        match key_value(lines.last()) {
            Some(kv) => if kv.0 == key {
                Some(kv.1)
            } else {
                lookup(lines.drop_last(), key)
            },
            None => lookup(lines.drop_last(), key),
        }
    }
}

fn split_key_value(line: &str) -> (r: Option<(String, String)>)
    ensures
        match r {
            Some(kv) => key_value(line@) == Some((kv.0@, kv.1@)),
            None => key_value(line@) is None,
        },
{
    let n = line.unicode_len();
    let mut i: usize = 0;
    while i < n && line.get_char(i) != ':'
        invariant
            n == line@.len(),
            i <= n,
            forall|k: int| 0 <= k < i ==> line@[k] != ':',
        decreases n - i,
    {
        i = i + 1;
    }
    proof {
        lemma_index_of_char(line@, ':', i as int);
    }
    if i == n {
        return None;
    }
    let key = trim(line.substring_char(0, i));
    let value = trim_char(trim(line.substring_char(i + 1, n)), '\'');
    assert(line@.subrange(0, i as int) =~= line@.take(i as int));
    assert(line@.subrange(i + 1, n as int) =~= line@.skip(i + 1));
    Some((String::from_str(key), String::from_str(value)))
}

/// The user name and the password that a credentials file gives: for each,
/// the value of the last `username:` or `password:` line.
pub open spec fn file_credentials(content: Seq<char>) -> (Option<Seq<char>>, Option<Seq<char>>) {
    let lines = split_char(content, '\n');
    (lookup(lines, "username"@), lookup(lines, "password"@))
}

/// The user name and password in the text of a credentials file.
pub fn parse_user_info(content: &str) -> (r: (Option<String>, Option<String>))
    ensures
        file_credentials(content@) == (
            match r.0 {
                Some(u) => Some(u@),
                None => None,
            },
            match r.1 {
                Some(p) => Some(p@),
                None => None,
            },
        ),
{
    proof {
        reveal_strlit("username");
        reveal_strlit("password");
    }
    let lines = split_on(content, '\n');
    let ghost all = strs(lines@);
    let mut user: Option<String> = None;
    let mut pass: Option<String> = None;
    let n = lines.len();
    let mut i: usize = 0;
    assert(all.take(0) =~= Seq::<Seq<char>>::empty());
    while i < n
        invariant
            n == lines@.len(),
            all == strs(lines@),
            i <= n,
            lookup(all.take(i as int), "username"@) == match user {
                Some(u) => Some(u@),
                None => None::<Seq<char>>,
            },
            lookup(all.take(i as int), "password"@) == match pass {
                Some(p) => Some(p@),
                None => None::<Seq<char>>,
            },
        decreases n - i,
    {
        let ghost pre = all.take(i as int);
        let kv = split_key_value(lines[i].as_str());
        proof {
            assert(all.take(i + 1).drop_last() =~= pre);
            assert(all.take(i + 1).last() == lines@[i as int]@);
        }
        if let Some((k, v)) = kv {
            if crate::text::text_eq(k.as_str(), "username") {
                assert(k@ != "password"@) by {
                    reveal_strlit("username");
                    reveal_strlit("password");
                    assert(k@[0] == "username"@[0]);
                }
                user = Some(v);
            } else if crate::text::text_eq(k.as_str(), "password") {
                pass = Some(v);
            }
        }
        i = i + 1;
    }
    assert(all.take(n as int) =~= all);
    (user, pass)
}

/// Why no credentials could be found.
#[derive(Debug, Clone, Copy, PartialEq, Eq, Structural)]
pub enum CredentialError {
    /// The credentials file could not be read.
    Unreadable,
    /// The credentials file gives no user name.
    MissingUsername,
    /// The credentials file gives no password.
    MissingPassword,
}

/// The credentials to log in with, first found first used: both from the
/// command line; else both from the environment, when neither is empty;
/// else both from the credentials file, whose text is given when it could be
/// read.
pub open spec fn credentials(
    cli_user: Option<Seq<char>>,
    cli_pass: Option<Seq<char>>,
    env_user: Option<Seq<char>>,
    env_pass: Option<Seq<char>>,
    file: Option<Seq<char>>,
) -> Result<(Seq<char>, Seq<char>), CredentialError> {
    if cli_user is Some && cli_pass is Some {
        Ok((cli_user->0, cli_pass->0))
    } else if env_user is Some && env_pass is Some && env_user->0.len() > 0 && env_pass->0.len() > 0 {
        Ok((env_user->0, env_pass->0))
    } else {
        match file {
            None => Err(CredentialError::Unreadable),
            Some(text) => {
                let found = file_credentials(text);
                if found.0 is None {
                    Err(CredentialError::MissingUsername)
                } else if found.1 is None {
                    Err(CredentialError::MissingPassword)
                } else {
                    Ok((found.0->0, found.1->0))
                }
            },
        }
    }
}

/// Credentials given on the command line win over all others; else
/// credentials of the environment win over the file when neither is empty;
/// else the file alone decides, and without a readable file there are none.
pub proof fn lemma_credentials_priority(
    cli_user: Option<Seq<char>>,
    cli_pass: Option<Seq<char>>,
    env_user: Option<Seq<char>>,
    env_pass: Option<Seq<char>>,
    file: Option<Seq<char>>,
    u: Seq<char>,
    p: Seq<char>,
)
    ensures
        credentials(Some(u), Some(p), env_user, env_pass, file) == Ok::<
            (Seq<char>, Seq<char>),
            CredentialError,
        >((u, p)),
        (cli_user is None || cli_pass is None) && u.len() > 0 && p.len() > 0 ==> credentials(
            cli_user,
            cli_pass,
            Some(u),
            Some(p),
            file,
        ) == Ok::<(Seq<char>, Seq<char>), CredentialError>((u, p)),
        (cli_user is None || cli_pass is None) && (u.len() == 0 || p.len() == 0) ==> credentials(
            cli_user,
            cli_pass,
            Some(u),
            Some(p),
            file,
        ) == credentials(None, None, None, None, file),
        (cli_user is None || cli_pass is None) && (env_user is None || env_pass is None) ==> credentials(
            cli_user,
            cli_pass,
            env_user,
            env_pass,
            file,
        ) == credentials(None, None, None, None, file),
        credentials(None, None, None, None, None) == Err::<(Seq<char>, Seq<char>), CredentialError>(
            CredentialError::Unreadable,
        ),
{
}

/// The credentials to log in with.
pub fn resolve_credentials(
    cli_user: Option<String>,
    cli_pass: Option<String>,
    env_user: Option<String>,
    env_pass: Option<String>,
    file: Option<String>,
) -> (r: Result<(String, String), CredentialError>)
    ensures
        match r {
            Ok(c) => credentials(
                opt_text(cli_user),
                opt_text(cli_pass),
                opt_text(env_user),
                opt_text(env_pass),
                opt_text(file),
            ) == Ok::<(Seq<char>, Seq<char>), CredentialError>((c.0@, c.1@)),
            Err(e) => credentials(
                opt_text(cli_user),
                opt_text(cli_pass),
                opt_text(env_user),
                opt_text(env_pass),
                opt_text(file),
            ) == Err::<(Seq<char>, Seq<char>), CredentialError>(e),
        },
{
    if let (Some(u), Some(p)) = (cli_user, cli_pass) {
        return Ok((u, p));
    }
    if let (Some(u), Some(p)) = (env_user, env_pass) {
        if u.as_str().unicode_len() > 0 && p.as_str().unicode_len() > 0 {
            return Ok((u, p));
        }
    }
    match file {
        None => Err(CredentialError::Unreadable),
        Some(text) => {
            let (user, pass) = parse_user_info(text.as_str());
            match (user, pass) {
                (None, _) => Err(CredentialError::MissingUsername),
                (Some(_), None) => Err(CredentialError::MissingPassword),
                (Some(u), Some(p)) => Ok((u, p)),
            }
        },
    }
}


/// A simulation to request: the expression and the settings it runs with.
/// The settings not held here are fixed: a regular alpha on equities,
/// pasteurization on, unit handling `VERIFY`, NaN handling on, the
/// `FASTEXPR` language, no visualization, truncation 0.08.
pub struct SimulationRequest {
    pub kind: String,
    pub instrument_type: String,
    pub region: String,
    pub universe: String,
    pub delay: i32,
    pub decay: i32,
    pub neutralization: String,
    pub pasteurization: String,
    pub unit_handling: String,
    pub nan_handling: String,
    pub language: String,
    pub visualization: bool,
    pub expression: String,
}

/// The simulation request for an expression with the given settings.
pub fn simulation_request(
    expression: &str,
    region: &str,
    universe: &str,
    delay: i32,
    decay: i32,
    neutralization: &str,
) -> (r: SimulationRequest)
    ensures
        r.kind@ == "REGULAR"@,
        r.instrument_type@ == "EQUITY"@,
        r.region@ == region@,
        r.universe@ == universe@,
        r.delay == delay,
        r.decay == decay,
        r.neutralization@ == neutralization@,
        r.pasteurization@ == "ON"@,
        r.unit_handling@ == "VERIFY"@,
        r.nan_handling@ == "ON"@,
        r.language@ == "FASTEXPR"@,
        !r.visualization,
        r.expression@ == expression@,
{
    SimulationRequest {
        kind: String::from_str("REGULAR"),
        instrument_type: String::from_str("EQUITY"),
        region: String::from_str(region),
        universe: String::from_str(universe),
        delay,
        decay,
        neutralization: String::from_str(neutralization),
        pasteurization: String::from_str("ON"),
        unit_handling: String::from_str("VERIFY"),
        nan_handling: String::from_str("ON"),
        language: String::from_str("FASTEXPR"),
        visualization: false,
        expression: String::from_str(expression),
    }
}

/// The properties to set on an alpha; those absent are left as they are.
pub struct AlphaProperties {
    pub name: Option<String>,
    pub color: Option<String>,
    pub tags: Option<Vec<String>>,
}

/// The properties of a freshly simulated alpha: named and tagged with the
/// workflow's tag.
pub fn tag_properties(tag: &str) -> (r: AlphaProperties)
    ensures
        r.name matches Some(n) && n@ == tag@,
        r.color is None,
        r.tags matches Some(t) && strs(t@) == seq![tag@],
{
    let mut tags: Vec<String> = Vec::new();
    tags.push(String::from_str(tag));
    assert(strs(tags@) =~= seq![tag@]);
    AlphaProperties { name: Some(String::from_str(tag)), color: None, tags: Some(tags) }
}

/// The properties of a checked alpha: only its color.
pub fn color_properties(color: &str) -> (r: AlphaProperties)
    ensures
        r.name is None,
        r.color matches Some(c) && c@ == color@,
        r.tags is None,
{
    AlphaProperties { name: None, color: Some(String::from_str(color)), tags: None }
}

} // verus!

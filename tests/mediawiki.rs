use snpedia::json::Json;
use snpedia::mediawiki::{decode_response, join_titles, MWRequest, MWSource, TransportError};

fn s(t: &str) -> Json {
    Json::Str(t.to_string())
}

fn obj(members: Vec<(&str, Json)>) -> Json {
    Json::Object(members.into_iter().map(|(k, v)| (k.to_string(), v)).collect())
}

fn page_of_titles(titles: &[&str]) -> Json {
    obj(vec![(
        "categorymembers",
        Json::Array(titles.iter().map(|t| obj(vec![("title", s(t))])).collect()),
    )])
}

fn body(cont: Option<(&str, &str)>, query: Json) -> Json {
    let mut members = Vec::new();
    if let Some((cm, c)) = cont {
        members.push(("continue", obj(vec![("cmcontinue", s(cm)), ("continue", s(c))])));
    }
    members.push(("batchcomplete", s("")));
    members.push(("query", query));
    obj(members)
}

fn pairs(p: &[(String, String)]) -> Vec<(&str, &str)> {
    p.iter().map(|(k, v)| (k.as_str(), v.as_str())).collect()
}

fn category_request() -> MWRequest {
    MWRequest::query_json(vec![
        ("list".to_string(), "categorymembers".to_string()),
        ("cmtitle".to_string(), "Category:Is_a_snp".to_string()),
    ])
}

#[test]
fn titles_joined_with_bar() {
    let r = MWRequest::get_titles(vec!["A".to_string(), "B".to_string()]);
    assert_eq!(r.params[3], ("titles".to_string(), "A|B".to_string()));
    let r = MWRequest::get_titles(vec!["A".to_string()]);
    assert_eq!(r.params[3], ("titles".to_string(), "A".to_string()));
}

#[test]
fn join_of_nothing_is_empty() {
    assert_eq!(join_titles(&vec![]), "");
    assert_eq!(join_titles(&vec!["a|b".to_string(), "c".to_string()]), "a|b|c");
}

#[test]
fn get_titles_parameters_in_order() {
    let r = MWRequest::get_titles(vec!["rs1".to_string(), "rs2".to_string()]);
    assert!(r.cont.is_none());
    assert_eq!(
        pairs(&r.params),
        vec![
            ("prop", "revisions"),
            ("rvprop", "content|timestamp"),
            ("rvslots", "main"),
            ("titles", "rs1|rs2"),
            ("action", "query"),
            ("format", "json"),
        ]
    );
}

#[test]
fn query_json_appends_action_and_format() {
    let r = category_request();
    assert_eq!(
        pairs(&r.query_params()),
        vec![
            ("list", "categorymembers"),
            ("cmtitle", "Category:Is_a_snp"),
            ("action", "query"),
            ("format", "json"),
        ]
    );
    let n = MWRequest::new(vec![]);
    assert!(n.params.is_empty() && n.cont.is_none());
}

#[test]
fn two_category_pages_then_stop() {
    let mut src = MWSource::new(category_request());
    let first = src.pending().unwrap();
    assert_eq!(first.len(), 4);
    let item = src.next(Ok(body(Some(("x", "-||")), page_of_titles(&["rs123"])))).unwrap().unwrap();
    let mut titles = snpedia::scraper::list_titles(&item).unwrap();
    assert!(!src.is_exhausted());
    let second = src.pending().unwrap();
    assert_eq!(
        pairs(&second[4..]),
        vec![("cmcontinue", "x"), ("continue", "-||")]
    );
    let item = src.next(Ok(body(None, page_of_titles(&["rs456"])))).unwrap().unwrap();
    titles.extend(snpedia::scraper::list_titles(&item).unwrap());
    assert!(src.is_exhausted());
    assert!(src.pending().is_none());
    assert!(src.next(Ok(body(None, page_of_titles(&["rs789"])))).is_none());
    assert_eq!(titles, vec!["rs123".to_string(), "rs456".to_string()]);
}

#[test]
fn calls_equal_tokens_plus_one() {
    let mut src = MWSource::new(category_request());
    let mut calls = 0;
    let mut tokens = 0;
    let replies = vec![
        body(Some(("a", "-||")), page_of_titles(&["r1"])),
        body(Some(("b", "-||")), page_of_titles(&["r2"])),
        body(None, page_of_titles(&["r3"])),
    ];
    for reply in replies {
        if src.pending().is_none() {
            break;
        }
        calls += 1;
        if src.next(Ok(reply)).unwrap().is_ok() && !src.is_exhausted() {
            tokens += 1;
        }
    }
    assert_eq!(calls, 3);
    assert_eq!(calls, tokens + 1);
}

#[test]
fn network_failure_ends_sequence() {
    let mut src = MWSource::new(category_request());
    let a = src.next(Ok(body(Some(("a", "-||")), page_of_titles(&["r1"])))).unwrap();
    assert!(a.is_ok());
    let b = src.next(Err(TransportError::Network("connection refused".to_string()))).unwrap();
    assert!(matches!(b, Err(TransportError::Network(ref m)) if m == "connection refused"));
    assert!(src.is_exhausted());
    assert!(src.next(Ok(body(None, page_of_titles(&["r2"])))).is_none());
}

#[test]
fn malformed_envelope_is_decode_error() {
    let mut src = MWSource::new(category_request());
    let r = src.next(Ok(obj(vec![("batchcomplete", s(""))]))).unwrap();
    assert!(matches!(r, Err(TransportError::Decode)));
    assert!(src.is_exhausted());
}

#[test]
fn envelope_fields_decoded() {
    let rsp = decode_response(body(Some(("x", "-||")), Json::Null)).unwrap();
    let c = rsp.cont.unwrap();
    assert_eq!(c.cmcontinue, "x");
    assert_eq!(c.continue_marker, "-||");
    assert_eq!(c.to_params(), vec![("cmcontinue", "x"), ("continue", "-||")]);
    assert_eq!(rsp.batchcomplete, "");
    assert!(matches!(rsp.query, Json::Null));
    let null_cont = obj(vec![("continue", Json::Null), ("batchcomplete", s("")), ("query", Json::Null)]);
    assert!(decode_response(null_cont).unwrap().cont.is_none());
    let bad_cont = obj(vec![
        ("continue", obj(vec![("cmcontinue", s("x"))])),
        ("batchcomplete", s("")),
        ("query", Json::Null),
    ]);
    assert!(matches!(decode_response(bad_cont), Err(TransportError::Decode)));
    assert!(matches!(decode_response(Json::Array(vec![])), Err(TransportError::Decode)));
    let no_marker = obj(vec![("query", Json::Null)]);
    assert!(matches!(decode_response(no_marker), Err(TransportError::Decode)));
}

use snpedia::json::Json;
use snpedia::mediawiki::TransportError;
use snpedia::scraper::{batch_request, data_path, list_titles, store_outcome, to_snp_data, SNPData, SNPError};

fn s(t: &str) -> Json {
    Json::Str(t.to_string())
}

fn obj(members: Vec<(&str, Json)>) -> Json {
    Json::Object(members.into_iter().map(|(k, v)| (k.to_string(), v)).collect())
}

fn page_with(content: &str) -> Json {
    obj(vec![(
        "revisions",
        Json::Array(vec![obj(vec![("slots", obj(vec![("main", obj(vec![("*", s(content))]))]))])]),
    )])
}

#[test]
fn content_extracted_from_page() {
    let query = obj(vec![("pages", obj(vec![("rs123", page_with("SNP content"))]))]);
    let records = to_snp_data(&query).unwrap();
    assert_eq!(records.len(), 1);
    assert_eq!(records[0].name, "rs123");
    assert_eq!(records[0].content, "SNP content");
    let one = SNPData::parse("rs123".to_string(), &page_with("SNP content")).unwrap();
    assert_eq!(one.name, "rs123");
    assert_eq!(one.content, "SNP content");
}

#[test]
fn page_without_revisions_is_missing_field() {
    let page = obj(vec![("title", s("rs123"))]);
    assert!(matches!(SNPData::parse("rs123".to_string(), &page), Err(SNPError::ParseError)));
    let query = obj(vec![("pages", obj(vec![("rs123", page)]))]);
    assert!(matches!(to_snp_data(&query), Err(SNPError::ParseError)));
}

#[test]
fn batch_fails_on_any_bad_page() {
    let query = obj(vec![(
        "pages",
        obj(vec![("rs1", page_with("one")), ("rs2", obj(vec![("revisions", Json::Array(vec![]))]))]),
    )]);
    assert!(matches!(to_snp_data(&query), Err(SNPError::ParseError)));
}

#[test]
fn content_must_be_a_string() {
    let page = obj(vec![(
        "revisions",
        Json::Array(vec![obj(vec![("slots", obj(vec![("main", obj(vec![("*", Json::Number("7".to_string()))]))]))])]),
    )]);
    assert!(matches!(SNPData::parse("rs9".to_string(), &page), Err(SNPError::ParseError)));
}

#[test]
fn extraction_is_repeatable() {
    let a = SNPData::parse("rs1".to_string(), &page_with("x")).unwrap();
    let b = SNPData::parse("rs1".to_string(), &page_with("x")).unwrap();
    assert_eq!((a.name, a.content), (b.name, b.content));
}

#[test]
fn batch_records_in_page_order() {
    let query = obj(vec![("pages", obj(vec![("rs2", page_with("two")), ("rs1", page_with("one"))]))]);
    let records = to_snp_data(&query).unwrap();
    let got: Vec<(&str, &str)> = records.iter().map(|d| (d.name.as_str(), d.content.as_str())).collect();
    assert_eq!(got, vec![("rs2", "two"), ("rs1", "one")]);
}

#[test]
fn batch_without_pages_is_decode_error() {
    assert!(matches!(to_snp_data(&obj(vec![])), Err(SNPError::Net(TransportError::Decode))));
    assert_eq!(to_snp_data(&obj(vec![("pages", obj(vec![]))])).unwrap().len(), 0);
}

#[test]
fn listing_titles_and_batch_request() {
    let query = obj(vec![(
        "categorymembers",
        Json::Array(vec![obj(vec![("title", s("rs123"))]), obj(vec![("title", s("rs456"))])]),
    )]);
    assert_eq!(list_titles(&query).unwrap(), vec!["rs123".to_string(), "rs456".to_string()]);
    let req = batch_request(&query).unwrap();
    assert_eq!(req.params[3], ("titles".to_string(), "rs123|rs456".to_string()));
    let bad = obj(vec![("categorymembers", Json::Array(vec![obj(vec![])]))]);
    assert!(matches!(list_titles(&bad), Err(TransportError::Decode)));
    assert!(matches!(batch_request(&bad), Err(SNPError::Net(TransportError::Decode))));
}

#[test]
fn store_outcomes() {
    assert!(store_outcome("rs1".to_string(), Ok(())).is_ok());
    match store_outcome("rs1".to_string(), Err("denied".to_string())) {
        Err(SNPError::WriteError { name, error }) => {
            assert_eq!(name, "rs1");
            assert_eq!(error, "denied");
        }
        _ => panic!("expected a write error"),
    }
    assert_eq!(data_path("data", &"rs123".to_string()), "data/rs123");
}

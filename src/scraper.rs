use vstd::prelude::*;
use crate::json::{Json, member, element, text, get_member, get_element, get_text};
use crate::mediawiki::{MWRequest, TransportError, params_view, titles_params};

verus! {

/// Why a page of the category could not be turned into stored files.
#[derive(Debug)]
pub enum SNPError {
    /// A page's payload lacks the content path, or it is not a string.
    ParseError,
    /// Writing the named record failed; the text describes the failure.
    WriteError { name: String, error: String },
    /// The request failed or its answer could not be decoded.
    Net(TransportError),
}

/// A page's name and its current content.
#[derive(Debug)]
pub struct SNPData {
    pub name: String,
    pub content: String,
}

/// The content of a page's payload, at `revisions[0].slots.main["*"]`.
pub open spec fn content_of(page: Json) -> Option<Seq<char>> {
    match member(page, "revisions"@) {
        Some(revs) => match element(revs, 0) {
            Some(rev) => match member(rev, "slots"@) {
                Some(slots) => match member(slots, "main"@) {
                    Some(main) => text(member(main, "*"@)),
                    None => None,
                },
                None => None,
            },
            None => None,
        },
        None => None,
    }
}

/// The title of one member of a category listing.
pub open spec fn title_of(item: Json) -> Option<Seq<char>> {
    text(member(item, "title"@))
}

/// The titles of a category listing `{"categorymembers": [{"title": ..}, ..]}`,
/// or `None` where the payload does not have that shape.
pub open spec fn category_titles(query: Json) -> Option<Seq<Seq<char>>> {
    match member(query, "categorymembers"@) {
        Some(Json::Array(items)) => if forall|i: int|
            0 <= i < items@.len() ==> (#[trigger] title_of(items@[i])).is_some() {
            Some(items@.map_values(|it: Json| title_of(it).unwrap()))
        } else {
            None
        },
        _ => None,
    }
}

/// The pages of a batch content payload `{"pages": {..}}`.
pub open spec fn pages_of(query: Json) -> Option<Seq<(String, Json)>> {
    match member(query, "pages"@) {
        Some(Json::Object(fs)) => Some(fs@),
        _ => None,
    }
}

/// Whether every page of a batch has content.
pub open spec fn all_have_content(pages: Seq<(String, Json)>) -> bool {
    forall|i: int| 0 <= i < pages.len() ==> (#[trigger] content_of(pages[i].1)).is_some()
}

/// What extracting the record of page `name` gives.
pub open spec fn extracted(name: Seq<char>, page: Json) -> Option<(Seq<char>, Seq<char>)> {
    match content_of(page) {
        Some(c) => Some((name, c)),
        None => None,
    }
}

impl SNPData {
    /// Extracts the record of one page: its name and the text of its current revision.
    pub fn parse(name: String, json: &Json) -> (r: Result<SNPData, SNPError>)
        ensures
            match extracted(name@, *json) {
                Some((n, c)) => r matches Ok(d) && d.name@ == n && d.content@ == c,
                None => r matches Err(SNPError::ParseError),
            },
    {
        let revs = match get_member(json, "revisions") {
            Some(v) => v,
            None => {
                return Err(SNPError::ParseError);
            },
        };
        let rev = match get_element(revs, 0) {
            Some(v) => v,
            None => {
                return Err(SNPError::ParseError);
            },
        };
        let slots = match get_member(rev, "slots") {
            Some(v) => v,
            None => {
                return Err(SNPError::ParseError);
            },
        };
        let main = match get_member(slots, "main") {
            Some(v) => v,
            None => {
                return Err(SNPError::ParseError);
            },
        };
        match get_text(get_member(main, "*")) {
            Some(content) => Ok(SNPData { name, content }),
            None => Err(SNPError::ParseError),
        }
    }
}

/// The titles of a category listing payload.
pub fn list_titles(query: &Json) -> (r: Result<Vec<String>, TransportError>)
    ensures
        match category_titles(*query) {
            Some(ts) => r matches Ok(v) && v@.map_values(|s: String| s@) == ts,
            None => r matches Err(TransportError::Decode),
        },
{
    let items = match get_member(query, "categorymembers") {
        Some(Json::Array(items)) => items,
        _ => {
            return Err(TransportError::Decode);
        },
    };
    let mut out: Vec<String> = Vec::new();
    let mut i: usize = 0;
    while i < items.len()
        invariant
            member(*query, "categorymembers"@) == Some(Json::Array(*items)),
            i <= items@.len(),
            out@.len() == i,
            forall|j: int| 0 <= j < i ==> (#[trigger] title_of(items@[j])) == Some(out@[j]@),
        decreases items@.len() - i,
    {
        match get_text(get_member(&items[i], "title")) {
            Some(t) => {
                out.push(t);
            },
            None => {
                assert(title_of(items@[i as int]).is_none());
                return Err(TransportError::Decode);
            },
        }
        i = i + 1;
    }
    assert(out@.map_values(|s: String| s@) =~= items@.map_values(|it: Json| title_of(it).unwrap()));
    Ok(out)
}

/// The records of a batch content payload, in the order of its pages. The
/// batch fails as a whole on the first page without content.
pub fn to_snp_data(query: &Json) -> (r: Result<Vec<SNPData>, SNPError>)
    ensures
        match pages_of(*query) {
            None => r matches Err(SNPError::Net(TransportError::Decode)),
            Some(ps) => if all_have_content(ps) {
                r matches Ok(v) && v@.len() == ps.len() && forall|i: int|
                    0 <= i < ps.len() ==> (#[trigger] v@[i]).name@ == ps[i].0@
                        && Some(v@[i].content@) == content_of(ps[i].1)
            } else {
                r matches Err(SNPError::ParseError)
            },
        },
{
    let pages = match get_member(query, "pages") {
        Some(Json::Object(fs)) => fs,
        _ => {
            return Err(SNPError::Net(TransportError::Decode));
        },
    };
    let mut out: Vec<SNPData> = Vec::new();
    let mut i: usize = 0;
    while i < pages.len()
        invariant
            pages_of(*query) == Some(pages@),
            i <= pages@.len(),
            out@.len() == i,
            forall|j: int|
                0 <= j < i ==> (#[trigger] out@[j]).name@ == pages@[j].0@ && Some(out@[j].content@)
                    == content_of(pages@[j].1),
        decreases pages@.len() - i,
    {
        match SNPData::parse(pages[i].0.clone(), &pages[i].1) {
            Ok(d) => {
                out.push(d);
            },
            Err(e) => {
                assert(content_of(pages@[i as int].1).is_none());
                return Err(e);
            },
        }
        i = i + 1;
    }
    assert forall|j: int| 0 <= j < pages@.len() implies (#[trigger] content_of(
        pages@[j].1,
    )).is_some() by {
        assert(Some(out@[j].content@) == content_of(pages@[j].1));
    }
    Ok(out)
}

/// The request for the content of every page a category listing names.
pub fn batch_request(query: &Json) -> (r: Result<MWRequest, SNPError>)
    ensures
        match category_titles(*query) {
            Some(ts) => r matches Ok(req) && req.cont.is_none() && params_view(req.params@)
                == titles_params(ts),
            None => r matches Err(SNPError::Net(TransportError::Decode)),
        },
{
    match list_titles(query) {
        Ok(titles) => Ok(MWRequest::get_titles(titles)),
        Err(e) => Err(SNPError::Net(e)),
    }
}

/// The outcome of storing the record `name`, given how writing its file went.
pub fn store_outcome(name: String, written: Result<(), String>) -> (r: Result<(), SNPError>)
    ensures
        match written {
            Ok(()) => r matches Ok(()),
            Err(e) => r matches Err(SNPError::WriteError { name: n, error: m }) && n == name && m
                == e,
        },
{
    match written {
        Ok(()) => Ok(()),
        Err(error) => Err(SNPError::WriteError { name, error }),
    }
}

/// The path of the file that holds record `name` under directory `dir`.
pub fn data_path(dir: &str, name: &String) -> (r: String)
    ensures
        r@ == dir@ + seq!['/'] + name@,
{
    let mut path = String::from_str(dir);
    path.append("/");
    path.append(name.as_str());
    proof {
        reveal_strlit("/");
        assert("/"@ =~= seq!['/']);
    }
    path
}

/// Extraction depends on the name and payload alone: the same inputs give
/// the same record, or fail alike.
pub proof fn lemma_extraction_is_deterministic(n1: String, p1: Json, n2: String, p2: Json)
    requires
        n1@ == n2@,
        p1 == p2,
    ensures
        extracted(n1@, p1) == extracted(n2@, p2),
{
}

} // verus!

use vstd::prelude::*;
use crate::json::{Json, member, find_member};

verus! {

/// Query parameters, in the order they are sent.
pub type Params = Vec<(String, String)>;

/// Query parameters as character sequences.
pub open spec fn params_view(p: Seq<(String, String)>) -> Seq<(Seq<char>, Seq<char>)> {
    p.map_values(|kv: (String, String)| (kv.0@, kv.1@))
}

/// The continuation token the server hands back while more pages remain.
#[derive(Debug)]
pub struct MWContinue {
    pub cmcontinue: String,
    pub continue_marker: String,
}

impl MWContinue {
    /// The token as the two query parameters that carry it.
    pub fn to_params(&self) -> (r: Vec<(&str, &str)>)
        ensures
            r@.len() == 2,
            r@[0].0@ == "cmcontinue"@,
            r@[0].1@ == self.cmcontinue@,
            r@[1].0@ == "continue"@,
            r@[1].1@ == self.continue_marker@,
    {
        vec![("cmcontinue", self.cmcontinue.as_str()), ("continue", self.continue_marker.as_str())]
    }
}

/// A decoded response: the continuation token, the completion marker and the payload.
#[derive(Debug)]
pub struct MWResponse<T> {
    pub cont: Option<MWContinue>,
    pub batchcomplete: String,
    pub query: T,
}

/// Why a request yielded no payload.
#[derive(Debug)]
pub enum TransportError {
    /// The request could not be carried out; the text describes the failure.
    Network(String),
    /// The body was not JSON of the expected shape.
    Decode,
}

/// A query to the wiki's API, with the continuation token merged in once there is one.
#[derive(Debug)]
pub struct MWRequest {
    pub cont: Option<MWContinue>,
    pub params: Params,
}

/// The parameters every query carries.
pub open spec fn query_json_params() -> Seq<(Seq<char>, Seq<char>)> {
    seq![("action"@, "query"@), ("format"@, "json"@)]
}

/// Titles joined with `|`, in order.
pub open spec fn joined(titles: Seq<Seq<char>>) -> Seq<char>
    decreases titles.len(),
{
    if titles.len() == 0 {
        Seq::empty()
    } else if titles.len() == 1 {
        titles[0]
    } else {
        joined(titles.drop_last()) + seq!['|'] + titles.last()
    }
}

/// The views of a list of strings.
pub open spec fn texts(v: Seq<String>) -> Seq<Seq<char>> {
    v.map_values(|s: String| s@)
}

/// The parameters of a request for the content of the given pages.
pub open spec fn titles_params(titles: Seq<Seq<char>>) -> Seq<(Seq<char>, Seq<char>)> {
    seq![
        ("prop"@, "revisions"@),
        ("rvprop"@, "content|timestamp"@),
        ("rvslots"@, "main"@),
        ("titles"@, joined(titles)),
    ] + query_json_params()
}

/// All the parameters a request sends: its own, then the continuation token's.
pub open spec fn sent_params(req: MWRequest) -> Seq<(Seq<char>, Seq<char>)> {
    params_view(req.params@) + match req.cont {
        Some(c) => seq![("cmcontinue"@, c.cmcontinue@), ("continue"@, c.continue_marker@)],
        None => Seq::empty(),
    }
}

/// Copies a string slice into an owned string.
fn owned(s: &str) -> (r: String)
    ensures
        r@ == s@,
{
    String::from_str(s)
}

impl MWRequest {
    pub fn new(params: Params) -> (r: MWRequest)
        ensures
            r.cont.is_none(),
            r.params == params,
    {
        MWRequest { cont: None, params }
    }

    /// A query that asks for a JSON answer.
    pub fn query_json(params: Params) -> (r: MWRequest)
        ensures
            r.cont.is_none(),
            params_view(r.params@) == params_view(params@) + query_json_params(),
    {
        let mut params = params;
        let ghost p0 = params@;
        params.push((owned("action"), owned("query")));
        params.push((owned("format"), owned("json")));
        assert(params_view(params@) =~= params_view(p0) + query_json_params());
        MWRequest::new(params)
    }

    /// A query for the current content of the given pages, in one request.
    pub fn get_titles(titles: Vec<String>) -> (r: MWRequest)
        ensures
            r.cont.is_none(),
            params_view(r.params@) == titles_params(texts(titles@)),
    {
        let all = join_titles(&titles);
        let params = vec![
            (owned("prop"), owned("revisions")),
            (owned("rvprop"), owned("content|timestamp")),
            (owned("rvslots"), owned("main")),
            (owned("titles"), all),
        ];
        let ghost p0 = params@;
        let r = MWRequest::query_json(params);
        assert(params_view(p0) =~= seq![
            ("prop"@, "revisions"@),
            ("rvprop"@, "content|timestamp"@),
            ("rvslots"@, "main"@),
            ("titles"@, joined(texts(titles@))),
        ]);
        r
    }

    /// Every parameter to send, the continuation token's last.
    pub fn query_params(&self) -> (r: Params)
        ensures
            params_view(r@) == sent_params(*self),
    {
        let mut out: Params = Vec::new();
        let mut i: usize = 0;
        while i < self.params.len()
            invariant
                i <= self.params@.len(),
                out@ == self.params@.take(i as int),
            decreases self.params@.len() - i,
        {
            let k = self.params[i].0.clone();
            let v = self.params[i].1.clone();
            out.push((k, v));
            assert(out@ =~= self.params@.take(i + 1));
            i = i + 1;
        }
        assert(self.params@.take(i as int) == self.params@);
        match &self.cont {
            None => {
                assert(params_view(out@) =~= sent_params(*self));
            },
            Some(c) => {
                let ps = c.to_params();
                out.push((owned(ps[0].0), owned(ps[0].1)));
                out.push((owned(ps[1].0), owned(ps[1].1)));
                assert(params_view(out@) =~= sent_params(*self));
            },
        }
        out
    }
}

/// Titles joined with `|`, with no escaping.
pub fn join_titles(titles: &Vec<String>) -> (r: String)
    ensures
        r@ == joined(texts(titles@)),
{
    let mut out = String::new();
    let mut i: usize = 0;
    while i < titles.len()
        invariant
            i <= titles@.len(),
            out@ == joined(texts(titles@.take(i as int))),
        decreases titles@.len() - i,
    {
        let ghost prev = texts(titles@.take(i as int));
        let ghost next = texts(titles@.take(i + 1));
        assert(next.drop_last() =~= prev);
        assert(next.last() == titles@[i as int]@);
        if i > 0 {
            out.append("|");
            proof {
                reveal_strlit("|");
                assert("|"@ =~= seq!['|']);
            }
            out.append(titles[i].as_str());
            assert(out@ =~= joined(prev) + seq!['|'] + titles@[i as int]@);
        } else {
            out.append(titles[i].as_str());
            assert(out@ =~= titles@[i as int]@);
        }
        i = i + 1;
    }
    assert(titles@.take(i as int) == titles@);
    out
}

/// The continuation token of a response: `Some(None)` where there is none (the
/// member is absent or null), `None` where the member has the wrong shape.
pub open spec fn continue_of(c: Option<Json>) -> Option<Option<MWContinue>> {
    match c {
        None => Some(None),
        Some(Json::Null) => Some(None),
        Some(v) => match (member(v, "cmcontinue"@), member(v, "continue"@)) {
            (Some(Json::Str(a)), Some(Json::Str(b))) => Some(
                Some(MWContinue { cmcontinue: a, continue_marker: b }),
            ),
            _ => None,
        },
    }
}

/// The response a body decodes to, or `None` where it does not have the
/// envelope's shape: an object with a string `batchcomplete`, a `query`, and
/// an optional `continue` token.
pub open spec fn response_of(body: Json) -> Option<MWResponse<Json>> {
    match body {
        Json::Object(fs) => match (
            continue_of(member(body, "continue"@)),
            member(body, "batchcomplete"@),
            member(body, "query"@),
        ) {
            (Some(cont), Some(Json::Str(b)), Some(q)) => Some(
                MWResponse { cont, batchcomplete: b, query: q },
            ),
            _ => None,
        },
        _ => None,
    }
}

/// Decodes the envelope of a response body.
pub fn decode_response(body: Json) -> (r: Result<MWResponse<Json>, TransportError>)
    ensures
        match response_of(body) {
            Some(rsp) => r == Ok::<MWResponse<Json>, TransportError>(rsp),
            None => r matches Err(TransportError::Decode),
        },
{
    match body {
        Json::Object(mut fs) => {
            let ghost whole = fs@;
            let cont = match find_member(&fs, "continue") {
                None => None,
                Some(i) => match &fs[i].1 {
                    Json::Null => None,
                    Json::Object(cfs) => {
                        let a = find_member(cfs, "cmcontinue");
                        let b = find_member(cfs, "continue");
                        match (a, b) {
                            (Some(a), Some(b)) => match (&cfs[a].1, &cfs[b].1) {
                                (Json::Str(x), Json::Str(y)) => Some(
                                    MWContinue { cmcontinue: x.clone(), continue_marker: y.clone() },
                                ),
                                _ => {
                                    return Err(TransportError::Decode);
                                },
                            },
                            _ => {
                                return Err(TransportError::Decode);
                            },
                        }
                    },
                    _ => {
                        return Err(TransportError::Decode);
                    },
                },
            };
            let batchcomplete = match find_member(&fs, "batchcomplete") {
                Some(i) => match &fs[i].1 {
                    Json::Str(b) => b.clone(),
                    _ => {
                        return Err(TransportError::Decode);
                    },
                },
                None => {
                    return Err(TransportError::Decode);
                },
            };
            match find_member(&fs, "query") {
                Some(i) => {
                    let (_, query) = fs.swap_remove(i);
                    Ok(MWResponse { cont, batchcomplete, query })
                },
                None => Err(TransportError::Decode),
            }
        },
        _ => Err(TransportError::Decode),
    }
}

/// What one call to the API handed back: a JSON body, or the failure that
/// kept it from arriving.
pub type Reply = Result<Json, TransportError>;

/// A sequence of pages: it holds the next request to send until the server
/// says there is no more, or a call fails.
#[derive(Debug)]
pub struct MWSource {
    pub request: Option<MWRequest>,
}

/// What a reply yields: its payload, or the error that ends the sequence.
pub open spec fn item_of(reply: Reply) -> Result<Json, TransportError> {
    match reply {
        Ok(body) => match response_of(body) {
            Some(rsp) => Ok(rsp.query),
            None => Err(TransportError::Decode),
        },
        Err(e) => Err(e),
    }
}

/// Whether a reply decodes and carries a continuation token.
pub open spec fn with_token(reply: Reply) -> bool {
    match reply {
        Ok(body) => match response_of(body) {
            Some(rsp) => rsp.cont.is_some(),
            None => false,
        },
        Err(_) => false,
    }
}

/// One pull on a source that was handed `reply` for the request it held:
/// the next state, and the item produced (none once exhausted).
pub open spec fn source_step(s: MWSource, reply: Reply) -> (MWSource, Option<Result<Json, TransportError>>) {
    match s.request {
        None => (s, None),
        Some(req) => match reply {
            Ok(body) => match response_of(body) {
                Some(rsp) => match rsp.cont {
                    Some(c) => (
                        MWSource { request: Some(MWRequest { cont: Some(c), params: req.params }) },
                        Some(Ok(rsp.query)),
                    ),
                    None => (MWSource { request: None }, Some(Ok(rsp.query))),
                },
                None => (MWSource { request: None }, Some(Err(TransportError::Decode))),
            },
            Err(e) => (MWSource { request: None }, Some(Err(e))),
        },
    }
}

/// The state reached and the items produced when the replies are handed to
/// the source one per pull; a reply is consumed only while a request is held.
pub open spec fn run(s: MWSource, replies: Seq<Reply>) -> (MWSource, Seq<Result<Json, TransportError>>)
    decreases replies.len(),
{
    if replies.len() == 0 {
        (s, Seq::empty())
    } else {
        let (s1, out) = source_step(s, replies[0]);
        match out {
            None => (s1, Seq::empty()),
            Some(item) => {
                let (s2, rest) = run(s1, replies.drop_first());
                (s2, seq![item] + rest)
            },
        }
    }
}

/// How many of the replies carry a continuation token.
pub open spec fn tokens_in(replies: Seq<Reply>) -> nat
    decreases replies.len(),
{
    if replies.len() == 0 {
        0
    } else {
        (if with_token(replies[0]) {
            1nat
        } else {
            0nat
        }) + tokens_in(replies.drop_first())
    }
}

impl MWSource {
    /// A source that will send `request` first.
    pub fn new(request: MWRequest) -> (r: MWSource)
        ensures
            r.request == Some(request),
    {
        MWSource { request: Some(request) }
    }

    /// Whether the sequence has ended.
    pub fn is_exhausted(&self) -> (r: bool)
        ensures
            r == self.request.is_none(),
    {
        self.request.is_none()
    }

    /// The parameters of the next call to make, or `None` once the sequence has ended.
    pub fn pending(&self) -> (r: Option<Params>)
        ensures
            match (r, self.request) {
                (Some(p), Some(req)) => params_view(p@) == sent_params(req),
                (None, None) => true,
                _ => false,
            },
    {
        match &self.request {
            Some(req) => Some(req.query_params()),
            None => None,
        }
    }

    /// Hands the source what the call for its pending request returned, and
    /// takes the item that call produced. On an exhausted source no call was
    /// due: the reply is dropped and nothing comes out.
    pub fn next(&mut self, reply: Reply) -> (r: Option<Result<Json, TransportError>>)
        ensures
            (*final(self), r) == source_step(*old(self), reply),
    {
        if self.request.is_none() {
            return None;
        }
        match reply {
            Ok(body) => match decode_response(body) {
                Ok(rsp) => {
                    match rsp.cont {
                        Some(c) => {
                            let req = self.request.take();
                            match req {
                                Some(req) => {
                                    self.request = Some(MWRequest { cont: Some(c), params: req.params });
                                },
                                None => {},
                            }
                        },
                        None => {
                            self.request = None;
                        },
                    }
                    Some(Ok(rsp.query))
                },
                Err(e) => {
                    self.request = None;
                    Some(Err(e))
                },
            },
            Err(e) => {
                self.request = None;
                Some(Err(e))
            },
        }
    }
}

/// An exhausted source consumes no reply and produces nothing.
pub proof fn lemma_exhausted_is_silent(s: MWSource, replies: Seq<Reply>)
    requires
        s.request.is_none(),
    ensures
        run(s, replies) == (s, Seq::<Result<Json, TransportError>>::empty()),
{
}

/// Each item comes from a reply of its own.
pub proof fn lemma_one_reply_per_item(s: MWSource, replies: Seq<Reply>)
    ensures
        run(s, replies).1.len() <= replies.len(),
    decreases replies.len(),
{
    if replies.len() > 0 {
        let (s1, out) = source_step(s, replies[0]);
        lemma_one_reply_per_item(s1, replies.drop_first());
    }
}

/// Once a sequence has ended, the calls it made number the continuation
/// tokens it received plus one: every call but the last brought a token.
pub proof fn lemma_calls_are_tokens_plus_one(s: MWSource, replies: Seq<Reply>)
    requires
        s.request.is_some(),
        run(s, replies).0.request.is_none(),
    ensures
        run(s, replies).1.len() == tokens_in(replies.take(run(s, replies).1.len() as int)) + 1,
    decreases replies.len(),
{
    let rest = replies.drop_first();
    let (s1, out) = source_step(s, replies[0]);
    if with_token(replies[0]) {
        lemma_calls_are_tokens_plus_one(s1, rest);
        lemma_one_reply_per_item(s, replies);
        let n = run(s, replies).1.len() as int;
        assert(replies.take(n).drop_first() =~= rest.take(n - 1));
        assert(replies.take(n)[0] == replies[0]);
        assert(tokens_in(replies.take(n)) == 1 + tokens_in(rest.take(n - 1)));
    } else {
        lemma_exhausted_is_silent(s1, rest);
        assert(replies.take(1).drop_first() =~= Seq::<Reply>::empty());
        assert(replies.take(1)[0] == replies[0]);
        assert(tokens_in(replies.take(1).drop_first()) == 0);
        assert(tokens_in(replies.take(1)) == 0);
    }
}

/// After a reply without a continuation token, the sequence yields nothing more:
/// the item of that reply is the last one, and the source is exhausted.
pub proof fn lemma_no_items_after_last_page(s: MWSource, replies: Seq<Reply>, k: int)
    requires
        s.request.is_some(),
        0 <= k < run(s, replies).1.len(),
        !with_token(replies[k]),
    ensures
        run(s, replies).1.len() == k + 1,
        run(s, replies).0.request.is_none(),
    decreases k,
{
    let rest = replies.drop_first();
    let (s1, out) = source_step(s, replies[0]);
    lemma_one_reply_per_item(s, replies);
    if with_token(replies[0]) {
        assert(rest[k - 1] == replies[k]);
        lemma_no_items_after_last_page(s1, rest, k - 1);
    } else {
        lemma_exhausted_is_silent(s1, rest);
    }
}

/// A network failure at call `n`, after calls that all brought a continuation
/// token, gives `n - 1` successful items, then that failure, then nothing.
pub proof fn lemma_failure_ends_sequence(s: MWSource, replies: Seq<Reply>, n: int, e: String)
    requires
        s.request.is_some(),
        1 <= n <= replies.len(),
        replies[n - 1] == Err::<Json, TransportError>(TransportError::Network(e)),
        forall|j: int| 0 <= j < n - 1 ==> with_token(#[trigger] replies[j]),
    ensures
        run(s, replies).1.len() == n,
        forall|j: int| 0 <= j < n - 1 ==> (#[trigger] run(s, replies).1[j]) is Ok,
        run(s, replies).1[n - 1] == Err::<Json, TransportError>(TransportError::Network(e)),
        run(s, replies).0.request.is_none(),
    decreases n,
{
    let rest = replies.drop_first();
    let (s1, out) = source_step(s, replies[0]);
    if n == 1 {
        lemma_exhausted_is_silent(s1, rest);
    } else {
        assert(with_token(replies[0]));
        assert forall|j: int| 0 <= j < n - 2 implies with_token(#[trigger] rest[j]) by {
            assert(rest[j] == replies[j + 1]);
        }
        lemma_failure_ends_sequence(s1, rest, n - 1, e);
        let items = run(s, replies).1;
        let tail = run(s1, rest).1;
        assert forall|j: int| 0 <= j < n - 1 implies (#[trigger] items[j]) is Ok by {
            if j > 0 {
                assert(items[j] == tail[j - 1]);
            }
        }
    }
}

} // verus!

use vstd::prelude::*;

use crate::json::{compact, compact_of, decode, json_of, pretty, pretty_of, Json, JsonView};

verus! {

/// Failures of a call to the remote API.
#[derive(PartialEq, Eq, Structural, Clone, Copy, Debug)]
pub enum ApiError {
    /// The request did not get through.
    RequestError,
    /// The remote refused the credentials.
    AuthError,
    /// The answer is not JSON.
    DecodeError,
}

pub open spec fn sites_path() -> Seq<char> {
    seq!['/', 's', 'i', 't', 'e', 's']
}

/// The address of the list of all sites.
pub open spec fn sites_url_of(base: Seq<char>) -> Seq<char> {
    base + sites_path()
}

/// The address of one site.
pub open spec fn site_url_of(base: Seq<char>, id: Seq<char>) -> Seq<char> {
    base + sites_path() + seq!['/'] + id
}

/// The remote refused the credentials.
pub open spec fn auth_rejected(status: u16) -> bool {
    status == 401 || status == 403
}

/// The value of the first member named `key`.
pub open spec fn lookup(fields: Seq<(Seq<char>, JsonView)>, key: Seq<char>) -> Option<JsonView>
    decreases fields.len(),
{
    if fields.len() == 0 {
        None
    } else if fields[0].0 == key {
        Some(fields[0].1)
    } else {
        lookup(fields.drop_first(), key)
    }
}

/// The member `key` of an object; `None` where the document is no object or has
/// no such member.
pub open spec fn member(doc: JsonView, key: Seq<char>) -> Option<JsonView> {
    match doc {
        JsonView::Object(fields) => lookup(fields, key),
        _ => None,
    }
}

/// How a value is written in a listing: a string without its quotes, `null`,
/// `true`, `false` and a number as in JSON, an array or an object as its compact
/// JSON text.
pub open spec fn value_text(v: JsonView) -> Seq<char> {
    match v {
        JsonView::Null => seq!['n', 'u', 'l', 'l'],
        JsonView::Bool(b) => if b {
            seq!['t', 'r', 'u', 'e']
        } else {
            seq!['f', 'a', 'l', 's', 'e']
        },
        JsonView::Number(n) => n,
        JsonView::Str(s) => s,
        _ => compact_of(v),
    }
}

/// A member's value, with a missing member, or any member of what is no object,
/// read as `null`.
pub open spec fn member_or_null(doc: JsonView, key: Seq<char>) -> JsonView {
    match member(doc, key) {
        Some(v) => v,
        None => JsonView::Null,
    }
}

pub open spec fn name_key() -> Seq<char> {
    seq!['n', 'a', 'm', 'e']
}

pub open spec fn id_key() -> Seq<char> {
    seq!['i', 'd']
}

pub open spec fn results_key() -> Seq<char> {
    seq!['r', 'e', 's', 'u', 'l', 't', 's']
}

/// The line `name = id` of one site.
pub open spec fn site_line_of(site: JsonView) -> Seq<char> {
    value_text(member_or_null(site, name_key())) + seq![' ', '=', ' '] + value_text(
        member_or_null(site, id_key()),
    )
}

/// The lines of a list of sites, in the order of the list.
pub open spec fn lines_of(sites: Seq<JsonView>) -> Seq<Seq<char>> {
    Seq::new(sites.len(), |i: int| site_line_of(sites[i]))
}

/// The listing of a document `{"results": [...]}`; `None` where the document has
/// no `results` array.
pub open spec fn listing(doc: JsonView) -> Option<Seq<Seq<char>>> {
    match member(doc, results_key()) {
        Some(JsonView::Array(sites)) => Some(lines_of(sites)),
        _ => None,
    }
}

pub open spec fn texts(v: Seq<String>) -> Seq<Seq<char>> {
    v.map_values(|s: String| s@)
}

/// The address of the list of all sites: `{base}/sites`.
pub fn sites_url(base: &str) -> (r: String)
    ensures
        r@ == sites_url_of(base@),
{
    let mut r = String::from_str(base);
    r.append("/sites");
    proof {
        reveal_strlit("/sites");
        assert(r@ =~= sites_url_of(base@));
    }
    r
}

/// The address of one site: `{base}/sites/{id}`.
pub fn site_url(base: &str, id: &str) -> (r: String)
    ensures
        r@ == site_url_of(base@, id@),
{
    let mut r = String::from_str(base);
    r.append("/sites/");
    r.append(id);
    proof {
        reveal_strlit("/sites/");
        assert(r@ =~= site_url_of(base@, id@));
    }
    r
}

/// `AuthError` where the remote refused the credentials (401 or 403); any other
/// status is passed on with its body as the remote gave it.
pub fn check_status(status: u16) -> (r: Result<(), ApiError>)
    ensures
        r is Err <==> auth_rejected(status),
        r is Err ==> r == Err::<(), ApiError>(ApiError::AuthError),
{
    if status == 401 || status == 403 {
        Err(ApiError::AuthError)
    } else {
        Ok(())
    }
}

/// The member `key` of an object.
pub fn member_of<'a>(doc: &'a Json, key: &str) -> (r: Option<&'a Json>)
    ensures
        match r {
            Some(v) => member(doc@, key@) == Some(v@),
            None => member(doc@, key@) is None,
        },
{
    match doc {
        Json::Object(fields) => {
            let k = String::from_str(key);
            let ghost fv = match doc@ {
                JsonView::Object(f) => f,
                _ => Seq::empty(),
            };
            let n = fields.len();
            let mut i: usize = 0;
            assert(fv.subrange(0, n as int) =~= fv);
            while i < n
                invariant
                    n == fields.len(),
                    i <= n,
                    k@ == key@,
                    doc@ == JsonView::Object(fv),
                    fv.len() == n,
                    forall|j: int|
                        0 <= j < n ==> #[trigger] fv[j] == (fields[j].0@, fields[j].1@),
                    lookup(fv, key@) == lookup(fv.subrange(i as int, n as int), key@),
                decreases n - i,
            {
                assert(fv.subrange(i as int, n as int).drop_first() =~= fv.subrange(
                    i + 1,
                    n as int,
                ));
                if fields[i].0 == k {
                    return Some(&fields[i].1);
                }
                i = i + 1;
            }
            None
        },
        _ => None,
    }
}

/// How a value is written in a listing.
fn value_string(v: &Json) -> (r: String)
    ensures
        r@ == value_text(v@),
{
    proof {
        reveal_strlit("null");
        reveal_strlit("true");
        reveal_strlit("false");
    }
    match v {
        Json::Null => String::from_str("null"),
        Json::Bool(b) => {
            if *b {
                String::from_str("true")
            } else {
                String::from_str("false")
            }
        },
        Json::Number(n) => n.clone(),
        Json::Str(s) => s.clone(),
        _ => compact(v),
    }
}

/// How a member is written in a listing, with a missing member written as `null`.
fn member_string(site: &Json, key: &str) -> (r: String)
    ensures
        r@ == value_text(member_or_null(site@, key@)),
{
    match member_of(site, key) {
        Some(v) => value_string(v),
        None => {
            proof {
                reveal_strlit("null");
            }
            String::from_str("null")
        },
    }
}

/// The line `name = id` of one site.
pub fn site_line(site: &Json) -> (r: String)
    ensures
        r@ == site_line_of(site@),
{
    proof {
        reveal_strlit("name");
        reveal_strlit("id");
        reveal_strlit(" = ");
        assert("name"@ =~= name_key());
        assert("id"@ =~= id_key());
    }
    let mut line = member_string(site, "name");
    let id = member_string(site, "id");
    line.append(" = ");
    line.append(id.as_str());
    proof {
        assert(line@ =~= site_line_of(site@));
    }
    line
}

/// The listing of a decoded answer of the list endpoint: one line `name = id` for
/// each entry of its `results` array, in the order of the array; `None` where the
/// document has no such array.
pub fn listing_lines(doc: &Json) -> (r: Option<Vec<String>>)
    ensures
        match r {
            Some(v) => listing(doc@) == Some(texts(v@)),
            None => listing(doc@) is None,
        },
{
    proof {
        reveal_strlit("results");
        assert("results"@ =~= results_key());
    }
    let sites = match member_of(doc, "results") {
        Some(Json::Array(a)) => a,
        _ => {
            return None;
        },
    };
    let ghost sv = match member(doc@, results_key()) {
        Some(JsonView::Array(s)) => s,
        _ => Seq::empty(),
    };
    assert(member(doc@, results_key()) == Some(JsonView::Array(sv)));
    assert(forall|j: int| 0 <= j < sites.len() ==> #[trigger] sv[j] == sites[j]@);
    let n = sites.len();
    let mut out: Vec<String> = Vec::new();
    let mut i: usize = 0;
    while i < n
        invariant
            n == sites.len(),
            sv.len() == n,
            forall|j: int| 0 <= j < n ==> #[trigger] sv[j] == sites[j]@,
            i <= n,
            out@.len() == i,
            forall|j: int| 0 <= j < i ==> site_line_of(sv[j]) == (#[trigger] out@[j])@,
        decreases n - i,
    {
        out.push(site_line(&sites[i]));
        i = i + 1;
    }
    assert(lines_of(sv) =~= texts(out@));
    Some(out)
}

/// The outcome of the list endpoint: the decoded answer, or `AuthError` on a
/// refusal, `DecodeError` where the body is not JSON.
pub fn list_sites(status: u16, body: &str) -> (r: Result<Json, ApiError>)
    ensures
        auth_rejected(status) ==> r == Err::<Json, ApiError>(ApiError::AuthError),
        match r {
            Ok(d) => !auth_rejected(status) && json_of(body@) == Some(d@),
            Err(ApiError::AuthError) => auth_rejected(status),
            Err(ApiError::DecodeError) => !auth_rejected(status) && json_of(body@) is None,
            Err(ApiError::RequestError) => false,
        },
{
    check_status(status)?;
    match decode(body) {
        Some(d) => Ok(d),
        None => Err(ApiError::DecodeError),
    }
}

/// The outcome of the endpoint of one site: the answer pretty-printed, or
/// `AuthError` on a refusal, `DecodeError` where the body is not JSON.
pub fn show_site(status: u16, body: &str) -> (r: Result<String, ApiError>)
    ensures
        auth_rejected(status) ==> r == Err::<String, ApiError>(ApiError::AuthError),
        match r {
            Ok(t) => !auth_rejected(status) && json_of(body@) is Some && t@ == pretty_of(
                json_of(body@)->0,
            ),
            Err(ApiError::AuthError) => auth_rejected(status),
            Err(ApiError::DecodeError) => !auth_rejected(status) && json_of(body@) is None,
            Err(_) => false,
        },
{
    check_status(status)?;
    match decode(body) {
        Some(d) => Ok(pretty(&d)),
        None => Err(ApiError::DecodeError),
    }
}

} // verus!

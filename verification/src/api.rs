//! The request/response surface: validated query parameters, place
//! annotation of listing rows, response decoration with the cross-origin
//! headers, and the four request handlers over the store model.

use vstd::prelude::*;
use crate::params::{parse_u32, parseable_u32, dec_value};
use crate::store::{Leaderboard, Row, has_entry, entry_details, page_len, submitted};
use crate::json::{leaders_body, details_body, leaders_json_spec, details_json_spec, LeaderView};
use crate::text::dec_chars;

verus! {

/// One listing element: a stored row annotated with its absolute rank.
pub struct Leader {
    /// Zero-based absolute rank within the full ordered leaderboard.
    pub place: u32,
    pub id: u32,
    pub score: i32,
    pub summary: String,
    /// String form of the creation time.
    pub created_at: String,
}

impl View for Leader {
    type V = LeaderView;

    open spec fn view(&self) -> LeaderView {
        LeaderView {
            place: self.place as nat,
            id: self.id as nat,
            score: self.score as int,
            summary: self.summary@,
            created_at: self.created_at@,
        }
    }
}

/// The views of a listing page, element by element.
pub open spec fn page_view(s: Seq<Leader>) -> Seq<LeaderView> {
    Seq::new(s.len(), |i: int| s[i]@)
}

/// Annotates each row with its absolute rank: the i-th row of a page that
/// starts at `offset` stands at place `offset + i`.
pub fn annotate(offset: u32, rows: Vec<Row>) -> (page: Vec<Leader>)
    requires
        offset as int + rows@.len() <= u32::MAX,
    ensures
        page@.len() == rows@.len(),
        forall|i: int|
            0 <= i < page@.len() ==> {
                &&& (#[trigger] page@[i]).place == offset + i
                &&& page@[i].id == rows@[i].id
                &&& page@[i].score == rows@[i].score
                &&& page@[i].summary@ == rows@[i].summary@
                &&& page@[i].created_at@ == rows@[i].created_at@
            },
{
    let n = rows.len();
    let mut page: Vec<Leader> = Vec::new();
    let mut i: usize = 0;
    while i < n
        invariant
            n == rows@.len(),
            offset as int + rows@.len() <= u32::MAX,
            0 <= i <= n,
            page@.len() == i,
            forall|k: int|
                0 <= k < i ==> {
                    &&& (#[trigger] page@[k]).place == offset + k
                    &&& page@[k].id == rows@[k].id
                    &&& page@[k].score == rows@[k].score
                    &&& page@[k].summary@ == rows@[k].summary@
                    &&& page@[k].created_at@ == rows@[k].created_at@
                },
        decreases n - i,
    {
        let row = &rows[i];
        page.push(
            Leader {
                place: offset + (i as u32),
                id: row.id,
                score: row.score,
                summary: row.summary.clone(),
                created_at: row.created_at.clone(),
            },
        );
        i = i + 1;
    }
    page
}

/// One HTTP response: a status code, the response headers, and the body
/// bytes (empty on failure).
pub struct Response {
    pub status: u16,
    pub headers: Vec<(&'static str, &'static str)>,
    pub body: Vec<u8>,
}

/// The response carries a header with this name and value.
pub open spec fn has_header(r: Response, name: Seq<char>, value: Seq<char>) -> bool {
    exists|i: int|
        0 <= i < r.headers@.len() && (#[trigger] r.headers@[i]).0@ == name && r.headers@[i].1@
            == value
}

/// The fixed cross-origin decoration: the configured allowed origin (a
/// wildcard), the methods of the endpoint, and the allowed request header.
pub open spec fn cors_ok(r: Response, methods: Seq<char>) -> bool {
    &&& has_header(r, ("Access-Control-Allow-Origin")@, ("*")@)
    &&& has_header(r, ("Access-Control-Allow-Methods")@, methods)
    &&& has_header(r, ("Access-Control-Allow-Headers")@, ("Content-Type")@)
}

/// A response without a body, carrying the cross-origin headers.
pub fn respond_empty(status: u16, methods: &'static str) -> (r: Response)
    ensures
        r.status == status,
        r.body@.len() == 0,
        cors_ok(r, methods@),
{
    let mut headers: Vec<(&'static str, &'static str)> = Vec::new();
    headers.push(("Access-Control-Allow-Origin", "*"));
    headers.push(("Access-Control-Allow-Methods", methods));
    headers.push(("Access-Control-Allow-Headers", "Content-Type"));
    let r = Response { status, headers, body: Vec::new() };
    proof {
        assert((r.headers@[0]).0@ == ("Access-Control-Allow-Origin")@ && (r.headers@[0]).1@ == (
        "*")@);
        assert((r.headers@[1]).0@ == ("Access-Control-Allow-Methods")@ && (r.headers@[1]).1@
            == methods@);
        assert((r.headers@[2]).0@ == ("Access-Control-Allow-Headers")@ && (r.headers@[2]).1@ == (
        "Content-Type")@);
    }
    r
}

/// A successful JSON response, carrying the cross-origin headers and the
/// JSON content type.
pub fn respond_json(methods: &'static str, body: Vec<u8>) -> (r: Response)
    ensures
        r.status == 200,
        r.body@ == body@,
        cors_ok(r, methods@),
        has_header(r, ("Content-Type")@, ("application/json")@),
{
    let mut headers: Vec<(&'static str, &'static str)> = Vec::new();
    headers.push(("Access-Control-Allow-Origin", "*"));
    headers.push(("Access-Control-Allow-Methods", methods));
    headers.push(("Access-Control-Allow-Headers", "Content-Type"));
    headers.push(("Content-Type", "application/json"));
    let r = Response { status: 200, headers, body };
    proof {
        assert((r.headers@[0]).0@ == ("Access-Control-Allow-Origin")@ && (r.headers@[0]).1@ == (
        "*")@);
        assert((r.headers@[1]).0@ == ("Access-Control-Allow-Methods")@ && (r.headers@[1]).1@
            == methods@);
        assert((r.headers@[2]).0@ == ("Access-Control-Allow-Headers")@ && (r.headers@[2]).1@ == (
        "Content-Type")@);
        assert((r.headers@[3]).0@ == ("Content-Type")@ && (r.headers@[3]).1@ == (
        "application/json")@);
    }
    r
}

/// An optional query parameter is well-formed: absent, or a decimal `u32`.
pub open spec fn param_ok(p: Option<&str>) -> bool {
    match p {
        None => true,
        Some(s) => parseable_u32(s@),
    }
}

/// The offset a listing uses: the parsed parameter, or zero when absent.
pub open spec fn offset_val(p: Option<&str>) -> int {
    match p {
        None => 0,
        Some(s) => dec_value(s@) as int,
    }
}

/// The limit a listing uses: the parsed parameter, or none when absent.
pub open spec fn limit_val(p: Option<&str>) -> Option<int> {
    match p {
        None => None,
        Some(s) => Some(dec_value(s@) as int),
    }
}

/// The listing page of a store: the ranked entries from `offset`, at most
/// `limit` of them, each annotated with its place and its creation time
/// rendered as a decimal string.
pub open spec fn board_page(b: Leaderboard, offset: int, limit: Option<int>) -> Seq<LeaderView> {
    Seq::new(
        page_len(b.entries@.len() as int, offset, limit) as nat,
        |i: int|
            LeaderView {
                place: (offset + i) as nat,
                id: b.entries@[offset + i].id as nat,
                score: b.entries@[offset + i].score as int,
                summary: b.entries@[offset + i].summary@,
                created_at: dec_chars(b.entries@[offset + i].created_at as nat),
            },
    )
}

/// The listing operation: validates `offset` and `limit`, fetches the
/// ranked page, and answers it as a JSON array; malformed parameters fail
/// with a client error before the store is read.
pub fn leaders(board: &Leaderboard, offset_raw: Option<&str>, limit_raw: Option<&str>) -> (r:
    Response)
    requires
        board.wf(),
    ensures
        cors_ok(r, ("GET")@),
        param_ok(offset_raw) && param_ok(limit_raw) ==> r.status == 200 && r.body@
            == leaders_json_spec(board_page(*board, offset_val(offset_raw), limit_val(limit_raw))),
        !(param_ok(offset_raw) && param_ok(limit_raw)) ==> r.status == 400 && r.body@.len() == 0,
{
    let offset: u32 = match offset_raw {
        None => 0,
        Some(s) => match parse_u32(s) {
            Some(n) => n,
            None => {
                return respond_empty(400, "GET");
            },
        },
    };
    let limit: Option<u32> = match limit_raw {
        None => None,
        Some(s) => match parse_u32(s) {
            Some(n) => Some(n),
            None => {
                return respond_empty(400, "GET");
            },
        },
    };
    let rows = board.slice_rows(offset, limit);
    let page = annotate(offset, rows);
    let body = leaders_body(&page);
    proof {
        let lim = match limit {
            Some(l) => Some(l as int),
            None => None,
        };
        assert(offset as int == offset_val(offset_raw));
        assert(lim == limit_val(limit_raw));
        assert(page_view(page@) =~= board_page(*board, offset as int, lim));
    }
    respond_json("GET", body)
}

/// The detail lookup operation: validates the required `id`, and answers
/// the stored detail text as a JSON object, a not-found status when no
/// entry carries the id, or a client error on a malformed or missing
/// parameter.
pub fn details(board: &Leaderboard, id_raw: Option<&str>) -> (r: Response)
    requires
        board.wf(),
    ensures
        cors_ok(r, ("GET")@),
        match id_raw {
            None => r.status == 400 && r.body@.len() == 0,
            Some(s) => if !parseable_u32(s@) {
                r.status == 400 && r.body@.len() == 0
            } else if has_entry(board.entries@, dec_value(s@) as int) {
                r.status == 200 && r.body@ == details_json_spec(
                    entry_details(board.entries@, dec_value(s@) as int),
                )
            } else {
                r.status == 404 && r.body@.len() == 0
            },
        },
{
    let s = match id_raw {
        None => {
            return respond_empty(400, "GET");
        },
        Some(s) => s,
    };
    let id = match parse_u32(s) {
        None => {
            return respond_empty(400, "GET");
        },
        Some(id) => id,
    };
    match board.lookup(id) {
        Some(d) => respond_json("GET", details_body(d.as_str())),
        None => respond_empty(404, "GET"),
    }
}

/// A submission body, as the client supplies it.
pub struct RecordBody {
    pub score: i32,
    pub summary: String,
    pub details: String,
}

/// The submission operation: a well-formed body appends one entry with a
/// fresh id and the current server time and answers success with an empty
/// body; a malformed body fails with a client error and leaves the store
/// untouched.
pub fn record(board: &mut Leaderboard, body: Option<RecordBody>) -> (r: Response)
    requires
        old(board).wf(),
        old(board).next_id < u32::MAX,
        old(board).clock < u64::MAX,
    ensures
        cors_ok(r, ("OPTIONS, POST")@),
        final(board).wf(),
        r.body@.len() == 0,
        match body {
            None => r.status == 400 && *final(board) == *old(board),
            Some(b) => r.status == 200 && submitted(
                *old(board),
                *final(board),
                b.score as int,
                b.summary@,
                b.details@,
                old(board).next_id,
            ),
        },
{
    match body {
        None => respond_empty(400, "OPTIONS, POST"),
        Some(b) => {
            board.submit(b.score, b.summary, b.details);
            respond_empty(200, "OPTIONS, POST")
        },
    }
}

/// The preflight responder for the submission endpoint: success with an
/// empty body and the cross-origin headers, nothing else.
pub fn record_options() -> (r: Response)
    ensures
        r.status == 200,
        r.body@.len() == 0,
        cors_ok(r, ("OPTIONS, POST")@),
{
    respond_empty(200, "OPTIONS, POST")
}

} // verus!

//! The intraday estimate service: where a fund's estimate lives, and the JSON
//! document inside the `jsonpgz(...)` wrapper that the service answers with.
use vstd::prelude::*;
use crate::text::{lemma_rfind_from, chars_of, copy_range, find, find_in, push_all, rfind, rfind_in, string_of, trim, trim_ws};

verus! {

broadcast use {vstd::string::group_string_axioms, vstd::slice::group_slice_axioms};

/// Why no estimate could be read.
#[derive(Debug, Clone, Copy, PartialEq, Eq, Structural)]
pub enum EstimateError {
    /// The fund code was empty or blank.
    EmptyCode,
    /// The reply held no document: an unknown code, a money-market fund, or
    /// a market that has not opened yet.
    NoData,
}

pub open spec fn estimate_error_text(e: EstimateError) -> Seq<char> {
    match e {
        EstimateError::EmptyCode => "fund code must not be empty"@,
        EstimateError::NoData => "无实时估值数据（代码无效 / 货币基金 / 暂未开盘）"@,
    }
}

impl EstimateError {
    /// The error message.
    pub fn message(&self) -> (m: String)
        ensures
            m@ == estimate_error_text(*self),
    {
        match self {
            EstimateError::EmptyCode => String::from_str("fund code must not be empty"),
            EstimateError::NoData => String::from_str("无实时估值数据（代码无效 / 货币基金 / 暂未开盘）"),
        }
    }
}

/// Where the estimates are served.
pub open spec fn estimate_base() -> Seq<char> {
    "https://fundgz.1234567.com.cn/js/"@
}

/// The address of the estimate of fund `code`.
pub open spec fn estimate_address(code: Seq<char>) -> Seq<char> {
    estimate_base() + code + ".js"@
}

/// The address of the estimate of fund `code`; a blank code is refused.
pub fn estimate_url(code: &str) -> (r: Result<String, EstimateError>)
    ensures
        trim(code@).len() == 0 <==> r == Err::<String, EstimateError>(EstimateError::EmptyCode),
        trim(code@).len() != 0 ==> (r matches Ok(u) && u@ == estimate_address(code@)),
{
    let c = chars_of(code);
    let t = trim_ws(&c);
    if t.len() == 0 {
        return Err(EstimateError::EmptyCode);
    }
    let mut v = chars_of("https://fundgz.1234567.com.cn/js/");
    push_all(&mut v, &c);
    push_all(&mut v, &chars_of(".js"));
    Ok(string_of(&v))
}

/// What lies between the first `(` and the last `)` of the trimmed reply,
/// trimmed; empty when there is no such pair.
pub open spec fn payload_of(body: Seq<char>) -> Seq<char> {
    let b = trim(body);
    match (find(b, seq!['(']), rfind(b, seq![')'])) {
        (Some(open), Some(close)) => if close > open {
            trim(b.subrange(open + 1, close))
        } else {
            seq![]
        },
        _ => seq![],
    }
}

/// The JSON document of a `jsonpgz(...);` reply. Any wrapper name and a
/// missing semicolon are tolerated; an empty wrapper or a reply that is not
/// JSONP at all gives `NoData`.
pub fn jsonpgz_payload(body: &str) -> (r: Result<String, EstimateError>)
    ensures
        payload_of(body@).len() == 0 <==> r == Err::<String, EstimateError>(EstimateError::NoData),
        payload_of(body@).len() != 0 ==> (r matches Ok(j) && j@ == payload_of(body@)),
{
    let all = chars_of(body);
    let b = trim_ws(&all);
    let open_pat = ['('];
    let close_pat = [')'];
    assert(open_pat@ =~= seq!['(']);
    assert(close_pat@ =~= seq![')']);
    let json: Vec<char> = match (find_in(&b, &open_pat), rfind_in(&b, &close_pat)) {
        (Some(open), Some(close)) => {
            if close > open {
                proof {
                    lemma_rfind_from(b@, close_pat@, b@.len() - close_pat@.len());
                }
                let inner = copy_range(&b, open + 1, close);
                trim_ws(&inner)
            } else {
                Vec::new()
            }
        },
        _ => Vec::new(),
    };
    assert(json@ =~= payload_of(body@));
    if json.len() == 0 {
        return Err(EstimateError::NoData);
    }
    Ok(string_of(&json))
}

} // verus!

//! The readiness oracle client's decision half: building the metric query for
//! a workload, and interpreting the metrics backend's reply.  The HTTP round
//! trip itself is the runtime's job; it hands the status and body back here.

use vstd::prelude::*;
use vstd::string::*;
use crate::config::ServiceType;
use crate::text::{dec_str, u16_to_string};

verus! {

/// One failure reaching or interpreting the readiness backend.
#[derive(Debug)]
pub enum Error {
    /// The backend answered, but not with status 200.
    HTTPError { code: u16, msg: String },
    /// The backend could not be reached (connection, name resolution, or
    /// request timeout).
    QueryError { msg: String },
    /// The backend answered 200 but the body did not carry a readable
    /// ready-replica count.
    MetricInvalid,
}

/// The mathematical value of an oracle failure.
pub enum ErrorView {
    HTTPError { code: u16, msg: Seq<char> },
    QueryError { msg: Seq<char> },
    MetricInvalid,
}

impl View for Error {
    type V = ErrorView;

    open spec fn view(&self) -> ErrorView {
        match self {
            Error::HTTPError { code, msg } => ErrorView::HTTPError { code: *code, msg: msg@ },
            Error::QueryError { msg } => ErrorView::QueryError { msg: msg@ },
            Error::MetricInvalid => ErrorView::MetricInvalid,
        }
    }
}

/// An oracle failure as text.
pub open spec fn error_text(e: ErrorView) -> Seq<char> {
    match e {
        ErrorView::HTTPError { code, msg } => "Query fail: "@ + dec_str(code as nat) + " "@ + msg,
        ErrorView::QueryError { msg } => "Query fail: "@ + msg,
        ErrorView::MetricInvalid => "Metric invalid"@,
    }
}

impl Error {
    /// The failure as text, for logs and client-facing explanations.
    pub fn describe(&self) -> (r: String)
        ensures
            r@ == error_text(self@),
    {
        match self {
            Error::HTTPError { code, msg } => {
                let mut s = String::from_str("Query fail: ");
                let c = u16_to_string(*code);
                s.append(c.as_str());
                s.append(" ");
                s.append(msg.as_str());
                proof {
                    assert(s@ =~= error_text(self@));
                }
                s
            },
            Error::QueryError { msg } => {
                let mut s = String::from_str("Query fail: ");
                s.append(msg.as_str());
                s
            },
            Error::MetricInvalid => String::from_str("Metric invalid"),
        }
    }
}

/// The readiness metric consulted for each workload type.
pub open spec fn metric_name_spec(ty: ServiceType) -> Seq<char> {
    match ty {
        ServiceType::Deployment => "kube_deployment_status_replicas_ready"@,
        ServiceType::Statefulset => "kube_statefulset_status_replicas_ready"@,
    }
}

/// The label that selects the workload by name, per workload type.
pub open spec fn type_label_spec(ty: ServiceType) -> Seq<char> {
    match ty {
        ServiceType::Deployment => "deployment"@,
        ServiceType::Statefulset => "statefulset"@,
    }
}

/// The full query text sent to the metrics backend:
/// `<metric>{namespace="<ns>",<label>="<name>"}`.
pub open spec fn query_of(ty: ServiceType, namespace: Seq<char>, name: Seq<char>) -> Seq<char> {
    metric_name_spec(ty) + "{namespace=\""@ + namespace + "\","@ + type_label_spec(ty) + "=\""@
        + name + "\"}"@
}

pub fn metric_name(ty: &ServiceType) -> (r: &'static str)
    ensures
        r@ == metric_name_spec(*ty),
{
    match ty {
        ServiceType::Deployment => "kube_deployment_status_replicas_ready",
        ServiceType::Statefulset => "kube_statefulset_status_replicas_ready",
    }
}

pub fn type_label(ty: &ServiceType) -> (r: &'static str)
    ensures
        r@ == type_label_spec(*ty),
{
    match ty {
        ServiceType::Deployment => "deployment",
        ServiceType::Statefulset => "statefulset",
    }
}

/// Builds the query selecting the ready-replica count of one workload.
pub fn build_query(ty: &ServiceType, namespace: &str, name: &str) -> (r: String)
    ensures
        r@ == query_of(*ty, namespace@, name@),
{
    let mut q = String::from_str(metric_name(ty));
    q.append("{namespace=\"");
    q.append(namespace);
    q.append("\",");
    q.append(type_label(ty));
    q.append("=\"");
    q.append(name);
    q.append("\"}");
    proof {
        assert(q@ =~= query_of(*ty, namespace@, name@));
    }
    q
}

/// A decimal digit.
pub open spec fn is_digit(c: char) -> bool {
    48 <= c as int && c as int <= 57
}

pub open spec fn all_digits(s: Seq<char>) -> bool {
    forall|i: int| 0 <= i < s.len() ==> is_digit(s[i])
}

/// The number a digit string denotes, most significant digit first.
pub open spec fn dec_val(s: Seq<char>) -> int
    decreases s.len(),
{
    if s.len() == 0 {
        0
    } else {
        dec_val(s.drop_last()) * 10 + (s.last() as int - 48)
    }
}

/// Text that reads as a non-negative integer within the 64-bit range: at
/// least one character, digits only.
pub open spec fn is_count_text(s: Seq<char>) -> bool {
    s.len() > 0 && all_digits(s) && dec_val(s) <= u64::MAX
}

proof fn lemma_dec_val_nonneg(s: Seq<char>)
    requires
        all_digits(s),
    ensures
        dec_val(s) >= 0,
    decreases s.len(),
{
    if s.len() > 0 {
        assert(forall|j: int| 0 <= j < s.drop_last().len() ==> s.drop_last()[j] == s[j]);
        lemma_dec_val_nonneg(s.drop_last());
    }
}

proof fn lemma_dec_val_grows(s: Seq<char>, k: int)
    requires
        0 <= k <= s.len(),
        all_digits(s),
    ensures
        dec_val(s) >= dec_val(s.take(k)),
    decreases s.len() - k,
{
    if k == s.len() {
        assert(s.take(k) =~= s);
    } else {
        lemma_dec_val_grows(s, k + 1);
        assert(s.take(k + 1).drop_last() =~= s.take(k));
        assert(s.take(k + 1).last() == s[k]);
        assert(forall|j: int| 0 <= j < k ==> s.take(k)[j] == s[j]);
        lemma_dec_val_nonneg(s.take(k));
        assert(dec_val(s.take(k + 1)) == dec_val(s.take(k)) * 10 + (s[k] as int - 48));
    }
}

/// Reads sample text as a non-negative integer: digits only, no sign, no
/// fraction; rejected when empty, when any character is not a digit, or when
/// the value does not fit in 64 bits.
pub fn parse_ready_count(s: &str) -> (r: Option<u64>)
    ensures
        match r {
            Some(v) => is_count_text(s@) && v == dec_val(s@),
            None => !is_count_text(s@),
        },
{
    let n = s.unicode_len();
    if n == 0 {
        return None;
    }
    let limit: u64 = u64::MAX / 10;
    let mut acc: u64 = 0;
    let mut i: usize = 0;
    while i < n
        invariant
            n == s@.len(),
            0 < n,
            i <= n,
            limit == u64::MAX / 10,
            all_digits(s@.take(i as int)),
            acc == dec_val(s@.take(i as int)),
        decreases n - i,
    {
        let c = s.get_char(i);
        let cv = c as u32;
        if cv < 48 || cv > 57 {
            proof {
                assert(!is_digit(s@[i as int]));
            }
            return None;
        }
        let d = (cv - 48) as u64;
        proof {
            assert(s@.take(i + 1).drop_last() =~= s@.take(i as int));
            assert(s@.take(i + 1).last() == s@[i as int]);
            assert(forall|j: int| 0 <= j < i ==> s@.take(i + 1)[j] == s@.take(i as int)[j]);
            assert(dec_val(s@.take(i + 1)) == acc * 10 + d);
        }
        if acc > limit || (acc == limit && d > 5) {
            proof {
                if all_digits(s@) {
                    lemma_dec_val_grows(s@, i + 1);
                    assert(forall|j: int| 0 <= j < i + 1 ==> s@.take(i + 1)[j] == s@[j]);
                    assert(dec_val(s@) > u64::MAX);
                }
            }
            return None;
        }
        acc = acc * 10 + d;
        i += 1;
    }
    proof {
        assert(s@.take(i as int) =~= s@);
    }
    Some(acc)
}

/// Names the result of serde_json's parse of an oracle reply: the string at
/// path `data.result[0].value[1]` of the JSON document, when the document
/// parses and that path holds a string; None otherwise.  A function of the
/// document text alone.
pub uninterp spec fn sample_text_of(body: Seq<char>) -> Option<Seq<char>>;

/// Relies on serde_json::from_str and serde_json::Value::{get, as_str} to
/// read the first result's sample string out of a query reply.
#[verifier::external_body]
fn extract_sample(body: &str) -> (r: Option<String>)
    ensures
        r matches Some(s) ==> sample_text_of(body@) == Some(s@),
        r is None ==> sample_text_of(body@) is None,
{
    let root: serde_json::Value = match serde_json::from_str(body) {
        Ok(v) => v,
        Err(_) => return None,
    };
    let v = root.get("data")?.get("result")?.get(0)?.get("value")?.get(1)?;
    v.as_str().map(|s| s.to_owned())
}

/// Classifies one oracle reply.  Success demands status 200 and a body whose
/// first result carries sample text reading as a non-negative integer; a
/// non-200 status is an HTTP failure carrying the body, and a 200 body
/// without such text is an invalid metric.
pub fn interpret_response(status: u16, body: String) -> (r: Result<u64, Error>)
    ensures
        status != 200 ==> (r matches Err(e) && e@ == (ErrorView::HTTPError {
            code: status,
            msg: body@,
        })),
        status == 200 ==> match sample_text_of(body@) {
            Some(t) => {
                if is_count_text(t) {
                    r matches Ok(v) && v == dec_val(t)
                } else {
                    r matches Err(e) && e@ == ErrorView::MetricInvalid
                }
            },
            None => r matches Err(e) && e@ == ErrorView::MetricInvalid,
        },
{
    if status != 200 {
        return Err(Error::HTTPError { code: status, msg: body });
    }
    match extract_sample(body.as_str()) {
        Some(t) => match parse_ready_count(t.as_str()) {
            Some(v) => Ok(v),
            None => Err(Error::MetricInvalid),
        },
        None => Err(Error::MetricInvalid),
    }
}

} // verus!

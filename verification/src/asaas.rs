//! The Asaas API: the records the program reads from it and the requests it
//! makes.

use vstd::prelude::*;
use crate::http::{HttpGet, error_status, is_error_status};
use crate::text::push_char;

verus! {

/// A customer as Asaas describes it.
pub struct Client {
    pub id: String,
}

/// A charge as Asaas describes it.
#[allow(non_snake_case)]
pub struct Cobranca {
    pub invoiceUrl: String,
}

/// The requests made to Asaas.
pub enum AsaasRequest {
    /// The customer that a contract number belongs to.
    CustomerByContract(String),
    /// The charges of a customer, by customer id.
    ChargesOfCustomer(String),
}

/// The address of the Asaas API.
pub open spec fn asaas_base() -> Seq<char> {
    "https://apitdnomieasaas.squareweb.app/asaas/"@
}

/// A contract number as it stands in a path: each '/' written as "%2f".
pub open spec fn escape_slashes(s: Seq<char>) -> Seq<char>
    decreases s.len(),
{
    if s.len() == 0 {
        s
    } else if s.last() == '/' {
        escape_slashes(s.drop_last()) + seq!['%', '2', 'f']
    } else {
        escape_slashes(s.drop_last()).push(s.last())
    }
}

/// The URL of a request.
pub open spec fn asaas_url(req: AsaasRequest) -> Seq<char> {
    match req {
        AsaasRequest::CustomerByContract(c) => asaas_base() + "customers/cNumCtr/"@ + escape_slashes(c@),
        AsaasRequest::ChargesOfCustomer(id) => asaas_base() + "charges/"@ + id@,
    }
}

/// Appends `s` to `out` with each '/' written as "%2f".
fn push_escaped(out: &mut String, s: &str)
    ensures
        final(out)@ == old(out)@ + escape_slashes(s@),
{
    let n = s.unicode_len();
    let mut i: usize = 0;
    while i < n
        invariant
            n == s@.len(),
            i <= n,
            out@ == old(out)@ + escape_slashes(s@.take(i as int)),
        decreases n - i,
    {
        let c = s.get_char(i);
        let ghost t = s@.take(i + 1);
        assert(t.drop_last() =~= s@.take(i as int));
        assert(t.last() == c);
        if c == '/' {
            push_char(out, '%');
            push_char(out, '2');
            push_char(out, 'f');
        } else {
            push_char(out, c);
        }
        assert(out@ =~= old(out)@ + escape_slashes(t));
        i = i + 1;
    }
    assert(s@.take(n as int) =~= s@);
}

/// The URL of an Asaas request (these requests have no query).
pub fn asaas_request(req: &AsaasRequest) -> (r: HttpGet)
    ensures
        r.url@ == asaas_url(*req),
        r.query@.len() == 0,
{
    let mut url = String::from_str("https://apitdnomieasaas.squareweb.app/asaas/");
    match req {
        AsaasRequest::CustomerByContract(c) => {
            url.append("customers/cNumCtr/");
            push_escaped(&mut url, c.as_str());
        },
        AsaasRequest::ChargesOfCustomer(id) => {
            url.append("charges/");
            url.append(id.as_str());
        },
    }
    HttpGet { url, query: Vec::new() }
}

/// How an Asaas answer is read.
#[derive(Debug, Clone, Copy, PartialEq, Eq, Structural)]
pub enum AsaasStatus {
    /// 404: the record does not exist.
    NotFound,
    /// Another client or server error.
    Failed,
    /// Anything else: the body holds the record.
    Found,
}

/// How an Asaas answer with this status is read: 404 means "no such record",
/// another 4xx or 5xx status is an error, and anything else carries a body.
pub fn asaas_status(status: u16) -> (s: AsaasStatus)
    ensures
        status == 404 ==> s == AsaasStatus::NotFound,
        status != 404 && is_error_status(status) ==> s == AsaasStatus::Failed,
        !is_error_status(status) ==> s == AsaasStatus::Found,
{
    if status == 404 {
        AsaasStatus::NotFound
    } else if error_status(status) {
        AsaasStatus::Failed
    } else {
        AsaasStatus::Found
    }
}

} // verus!

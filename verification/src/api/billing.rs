//! Billing: payers and the request targets of the billing endpoints.
use vstd::prelude::*;

use crate::api::urls::{self, form_encode};
use crate::error::AppError;
use crate::text::{self, signed_decimal_seq};
use vstd::utf8::encode_utf8;

verus! {

/// Someone hosts are billed to.
#[derive(Debug)]
pub struct BillingPayer {
    pub id: String,
    pub name: String,
    pub notes: Option<String>,
    pub host_count: i64,
    pub created_at: String,
    pub updated_at: String,
}

/// A host billed to a payer.
#[derive(Debug)]
pub struct BillingPayerHostBrief {
    pub id: String,
    pub name: String,
    pub billing_enabled: bool,
    pub billing_amount: Option<String>,
    pub billing_currency: Option<String>,
    pub billing_renewal_at: Option<String>,
    pub billing_cycle: Option<String>,
    pub billing_auto_renew: bool,
    pub country_code: Option<String>,
}

/// A payer with the hosts billed to it.
#[derive(Debug)]
pub struct BillingPayerDetail {
    pub id: String,
    pub name: String,
    pub notes: Option<String>,
    pub host_count: i64,
    pub hosts: Vec<BillingPayerHostBrief>,
}

/// The form encoding of a query value.
pub open spec fn enc(s: Seq<char>) -> Seq<char> {
    form_encode(encode_utf8(s))
}

fn encode_query(s: &str) -> (r: String)
    ensures
        r@ == enc(s@),
{
    urls::form_urlencode(s.as_bytes())
}

/// The `&payer_id=` filter, present only for a non-empty payer id.
pub open spec fn payer_filter(payer_id: Option<Seq<char>>) -> Seq<char> {
    match payer_id {
        Some(id) => if id.len() > 0 {
            "&payer_id="@ + enc(id)
        } else {
            Seq::empty()
        },
        None => Seq::empty(),
    }
}

fn append_payer_filter(path: &mut String, payer_id: Option<&str>)
    ensures
        final(path)@ == old(path)@ + payer_filter(
            match payer_id {
                Some(s) => Some(s@),
                None => None,
            },
        ),
{
    if let Some(id) = payer_id {
        if id.unicode_len() > 0 {
            path.append("&payer_id=");
            let e = encode_query(id);
            path.append(e.as_str());
        }
    }
}

/// The billing summary between two dates, optionally for one payer.
pub fn billing_summary_path(from: &str, to: &str, payer_id: Option<&str>) -> (r: String)
    ensures
        r@ == "/api/v1/billing/summary?from="@ + enc(from@) + "&to="@ + enc(to@) + payer_filter(
            match payer_id {
                Some(s) => Some(s@),
                None => None,
            },
        ),
{
    let mut p = String::from_str("/api/v1/billing/summary?from=");
    let f = encode_query(from);
    p.append(f.as_str());
    p.append("&to=");
    let t = encode_query(to);
    p.append(t.as_str());
    append_payer_filter(&mut p, payer_id);
    p
}

/// The billing calendar of a month, optionally for one payer.
pub fn billing_calendar_path(year: i32, month: i32, payer_id: Option<&str>) -> (r: String)
    ensures
        r@ == "/api/v1/billing/calendar?year="@ + signed_decimal_seq(year as int) + "&month="@
            + signed_decimal_seq(month as int) + payer_filter(
            match payer_id {
                Some(s) => Some(s@),
                None => None,
            },
        ),
{
    let mut p = String::from_str("/api/v1/billing/calendar?year=");
    let y = text::i64_to_decimal(year as i64);
    p.append(y.as_str());
    p.append("&month=");
    let m = text::i64_to_decimal(month as i64);
    p.append(m.as_str());
    append_payer_filter(&mut p, payer_id);
    p
}

/// One payer.
pub fn payer_path(id: &str) -> (r: String)
    ensures
        r@ == "/api/v1/billing/payers/"@ + enc(id@),
{
    let mut p = String::from_str("/api/v1/billing/payers/");
    let e = encode_query(id);
    p.append(e.as_str());
    p
}

/// Advancing a host's billing to its next period.
pub fn billing_advance_path(host_id: &str) -> (r: String)
    ensures
        r@ == "/api/v1/hosts/"@ + enc(host_id@) + "/billing/advance"@,
{
    let mut p = String::from_str("/api/v1/hosts/");
    let e = encode_query(host_id);
    p.append(e.as_str());
    p.append("/billing/advance");
    p
}

/// A billing error as the UI sees it: Core's 2FA demand becomes the 2FA error
/// linking to the Web cabinet, with Core's message; other errors stand.
pub fn billing_err(e: AppError, web: &str) -> (r: AppError)
    ensures
        (e.code_seq() == "2fa_required"@ || e.code_seq() == "totp_required"@) ==> r.is_two_fa_for(
            e.message_seq(),
            web@,
        ),
        !(e.code_seq() == "2fa_required"@ || e.code_seq() == "totp_required"@) ==> r == e,
{
    if e.is_two_fa() {
        let m = e.message();
        AppError::two_fa(m.as_str(), web)
    } else {
        e
    }
}

} // verus!

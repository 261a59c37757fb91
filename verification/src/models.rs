//! What the service answers with.
use vstd::prelude::*;

use crate::text;

verus! {

/// The answer to a saved result.
#[derive(Debug)]
pub struct SaveResultResponse {
    pub id: i64,
    pub update_token: String,
}

impl Clone for SaveResultResponse {
    fn clone(&self) -> (r: SaveResultResponse)
        ensures
            r == *self,
    {
        SaveResultResponse {
            id: self.id,
            update_token: self.update_token.clone(),
        }
    }
}

/// The mathematical model of the answer to a saved result.
#[verifier::ext_equal]
pub ghost struct ResponseModel {
    pub id: i64,
    pub update_token: Seq<char>,
}

impl View for SaveResultResponse {
    type V = ResponseModel;

    open spec fn view(&self) -> ResponseModel {
        ResponseModel { id: self.id, update_token: self.update_token@ }
    }
}

/// A saved result as anyone may see it. The type of the measurements is `N`.
#[derive(Debug)]
pub struct PublicSpeedRecord<N> {
    pub id: i64,
    pub domain: String,
    pub https_latency_ms: Option<N>,
    pub https_jitter_ms: Option<N>,
    pub download_mbps: Option<N>,
    pub client_ip: String,
    pub ip_country: Option<String>,
    pub ip_region: Option<String>,
    pub ip_city: Option<String>,
    pub ip_isp: Option<String>,
    pub colo: Option<String>,
    pub created_at: String,
}

impl<N: Copy> Clone for PublicSpeedRecord<N> {
    fn clone(&self) -> (r: PublicSpeedRecord<N>)
        ensures
            r == *self,
    {
        PublicSpeedRecord {
            id: self.id,
            domain: self.domain.clone(),
            https_latency_ms: self.https_latency_ms,
            https_jitter_ms: self.https_jitter_ms,
            download_mbps: self.download_mbps,
            client_ip: self.client_ip.clone(),
            ip_country: self.ip_country.clone(),
            ip_region: self.ip_region.clone(),
            ip_city: self.ip_city.clone(),
            ip_isp: self.ip_isp.clone(),
            colo: self.colo.clone(),
            created_at: self.created_at.clone(),
        }
    }
}

/// The mathematical model of a public record.
#[verifier::ext_equal]
pub ghost struct PublicModel<N> {
    pub id: i64,
    pub domain: Seq<char>,
    pub https_latency_ms: Option<N>,
    pub https_jitter_ms: Option<N>,
    pub download_mbps: Option<N>,
    pub client_ip: Seq<char>,
    pub ip_country: Option<Seq<char>>,
    pub ip_region: Option<Seq<char>>,
    pub ip_city: Option<Seq<char>>,
    pub ip_isp: Option<Seq<char>>,
    pub colo: Option<Seq<char>>,
    pub created_at: Seq<char>,
}

impl<N> View for PublicSpeedRecord<N> {
    type V = PublicModel<N>;

    open spec fn view(&self) -> PublicModel<N> {
        PublicModel {
            id: self.id,
            domain: self.domain@,
            https_latency_ms: self.https_latency_ms,
            https_jitter_ms: self.https_jitter_ms,
            download_mbps: self.download_mbps,
            client_ip: self.client_ip@,
            ip_country: text::optional_view(self.ip_country),
            ip_region: text::optional_view(self.ip_region),
            ip_city: text::optional_view(self.ip_city),
            ip_isp: text::optional_view(self.ip_isp),
            colo: text::optional_view(self.colo),
            created_at: self.created_at@,
        }
    }
}

} // verus!

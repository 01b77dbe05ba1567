//! The fixed REST surface: the health route and the route table that all
//! other endpoints share, every one handled by the proxy.  The server
//! layer wires each entry to the proxy handler; the templates use
//! brace-delimited path parameters.

use crate::types::HttpMethod;
use vstd::prelude::*;

verus! {

/// One route: its method and its path template.
pub struct Route {
    pub method: HttpMethod,
    pub template: &'static str,
}

/// The health-check route, answered locally without touching the bus.
pub fn health_route() -> (r: Route)
    ensures
        r.method == HttpMethod::Get,
        r.template@ == "/api/v1/statuses"@,
{
    Route { method: HttpMethod::Get, template: "/api/v1/statuses" }
}

/// Every proxied route, in registration order.
#[verifier::rlimit(100)]
pub fn route_table() -> (r: Vec<Route>)
    ensures
        r@.len() == 48,
        r@[0].method == HttpMethod::Post && r@[0].template@ == "/api/v1/users"@,
        r@[1].method == HttpMethod::Get && r@[1].template@ == "/api/v1/users/{uid}/news"@,
        r@[2].method == HttpMethod::Get && r@[2].template@ == "/api/v1/users/{uid}/earnings"@,
        r@[3].method == HttpMethod::Get && r@[3].template@ == "/api/v1/users/{uid}/dividends"@,
        r@[4].method == HttpMethod::Get && r@[4].template@ == "/api/v1/users/{uid}"@,
        r@[5].method == HttpMethod::Get && r@[5].template@ == "/api/v1/users/{uid}/day-prices"@,
        r@[6].method == HttpMethod::Get && r@[6].template@ == "/api/v1/users/{uid}/day-price-periods"@,
        r@[7].method == HttpMethod::Get && r@[7].template@ == "/api/v1/users/{uid}/view-history"@,
        r@[8].method == HttpMethod::Post && r@[8].template@ == "/api/v1/refresh-tokens"@,
        r@[9].method == HttpMethod::Delete && r@[9].template@ == "/api/v1/refresh-tokens/{refresh-token}"@,
        r@[10].method == HttpMethod::Post && r@[10].template@ == "/api/v1/sessions"@,
        r@[11].method == HttpMethod::Get && r@[11].template@ == "/api/v1/confirmation-codes"@,
        r@[12].method == HttpMethod::Post && r@[12].template@ == "/api/v1/confirmation-codes/{id}"@,
        r@[13].method == HttpMethod::Post && r@[13].template@ == "/api/v1/password-confirmation-codes"@,
        r@[14].method == HttpMethod::Post && r@[14].template@ == "/api/v1/password-confirmation-codes/{id}"@,
        r@[15].method == HttpMethod::Get && r@[15].template@ == "/api/v1/plans"@,
        r@[16].method == HttpMethod::Get && r@[16].template@ == "/api/v1/portfolios"@,
        r@[17].method == HttpMethod::Post && r@[17].template@ == "/api/v1/portfolios"@,
        r@[18].method == HttpMethod::Get && r@[18].template@ == "/api/v1/portfolios/{pid}"@,
        r@[19].method == HttpMethod::Patch && r@[19].template@ == "/api/v1/portfolios/{pid}"@,
        r@[20].method == HttpMethod::Delete && r@[20].template@ == "/api/v1/portfolios/{pid}"@,
        r@[21].method == HttpMethod::Post && r@[21].template@ == "/api/v1/portfolios/{pid}/relationships/securities"@,
        r@[22].method == HttpMethod::Delete && r@[22].template@ == "/api/v1/portfolios/{pid}/relationships/securities"@,
        r@[23].method == HttpMethod::Get && r@[23].template@ == "/api/v1/portfolios/{pid}/securities/{sid}/transactions"@,
        r@[24].method == HttpMethod::Post && r@[24].template@ == "/api/v1/portfolios/{pid}/securities/{sid}/transactions"@,
        r@[25].method == HttpMethod::Get && r@[25].template@ == "/api/v1/portfolios/{pid}/securities/{sid}/transactions/{tid}"@,
        r@[26].method == HttpMethod::Patch && r@[26].template@ == "/api/v1/portfolios/{pid}/securities/{sid}/transactions/{tid}"@,
        r@[27].method == HttpMethod::Delete && r@[27].template@ == "/api/v1/portfolios/{pid}/securities/{sid}/transactions/{tid}"@,
        r@[28].method == HttpMethod::Get && r@[28].template@ == "/api/v1/portfolios/{pid}/securities"@,
        r@[29].method == HttpMethod::Get && r@[29].template@ == "/api/v1/portfolios/{pid}/news"@,
        r@[30].method == HttpMethod::Get && r@[30].template@ == "/api/v1/portfolios/{pid}/earnings"@,
        r@[31].method == HttpMethod::Get && r@[31].template@ == "/api/v1/portfolios/{pid}/dividends"@,
        r@[32].method == HttpMethod::Get && r@[32].template@ == "/api/v1/portfolios/{pid}/day-prices"@,
        r@[33].method == HttpMethod::Get && r@[33].template@ == "/api/v1/portfolios/{pid}/day-price-periods"@,
        r@[34].method == HttpMethod::Get && r@[34].template@ == "/api/v1/securities"@,
        r@[35].method == HttpMethod::Get && r@[35].template@ == "/api/v1/securities/{sid}/news"@,
        r@[36].method == HttpMethod::Get && r@[36].template@ == "/api/v1/securities/{sid}/day-prices"@,
        r@[37].method == HttpMethod::Get && r@[37].template@ == "/api/v1/securities/{sid}/day-price-periods"@,
        r@[38].method == HttpMethod::Get && r@[38].template@ == "/api/v1/securities/{sid}/quarterly-balance-sheet"@,
        r@[39].method == HttpMethod::Get && r@[39].template@ == "/api/v1/securities/{sid}/annual-balance-sheet"@,
        r@[40].method == HttpMethod::Get && r@[40].template@ == "/api/v1/securities/{sid}/quarterly-income-statements"@,
        r@[41].method == HttpMethod::Get && r@[41].template@ == "/api/v1/securities/{sid}/annual-income-statements"@,
        r@[42].method == HttpMethod::Get && r@[42].template@ == "/api/v1/securities/{sid}"@,
        r@[43].method == HttpMethod::Get && r@[43].template@ == "/api/v1/countries"@,
        r@[44].method == HttpMethod::Get && r@[44].template@ == "/api/v1/currencies"@,
        r@[45].method == HttpMethod::Get && r@[45].template@ == "/api/v1/sectors"@,
        r@[46].method == HttpMethod::Get && r@[46].template@ == "/api/v1/industries"@,
        r@[47].method == HttpMethod::Get && r@[47].template@ == "/api/v1/exchanges"@,
{
    let mut t: Vec<Route> = Vec::new();
    t.push(Route { method: HttpMethod::Post, template: "/api/v1/users" });
    t.push(Route { method: HttpMethod::Get, template: "/api/v1/users/{uid}/news" });
    t.push(Route { method: HttpMethod::Get, template: "/api/v1/users/{uid}/earnings" });
    t.push(Route { method: HttpMethod::Get, template: "/api/v1/users/{uid}/dividends" });
    t.push(Route { method: HttpMethod::Get, template: "/api/v1/users/{uid}" });
    t.push(Route { method: HttpMethod::Get, template: "/api/v1/users/{uid}/day-prices" });
    t.push(Route { method: HttpMethod::Get, template: "/api/v1/users/{uid}/day-price-periods" });
    t.push(Route { method: HttpMethod::Get, template: "/api/v1/users/{uid}/view-history" });
    t.push(Route { method: HttpMethod::Post, template: "/api/v1/refresh-tokens" });
    t.push(Route { method: HttpMethod::Delete, template: "/api/v1/refresh-tokens/{refresh-token}" });
    t.push(Route { method: HttpMethod::Post, template: "/api/v1/sessions" });
    t.push(Route { method: HttpMethod::Get, template: "/api/v1/confirmation-codes" });
    t.push(Route { method: HttpMethod::Post, template: "/api/v1/confirmation-codes/{id}" });
    t.push(Route { method: HttpMethod::Post, template: "/api/v1/password-confirmation-codes" });
    t.push(Route { method: HttpMethod::Post, template: "/api/v1/password-confirmation-codes/{id}" });
    t.push(Route { method: HttpMethod::Get, template: "/api/v1/plans" });
    t.push(Route { method: HttpMethod::Get, template: "/api/v1/portfolios" });
    t.push(Route { method: HttpMethod::Post, template: "/api/v1/portfolios" });
    t.push(Route { method: HttpMethod::Get, template: "/api/v1/portfolios/{pid}" });
    t.push(Route { method: HttpMethod::Patch, template: "/api/v1/portfolios/{pid}" });
    t.push(Route { method: HttpMethod::Delete, template: "/api/v1/portfolios/{pid}" });
    t.push(Route { method: HttpMethod::Post, template: "/api/v1/portfolios/{pid}/relationships/securities" });
    t.push(Route { method: HttpMethod::Delete, template: "/api/v1/portfolios/{pid}/relationships/securities" });
    t.push(Route { method: HttpMethod::Get, template: "/api/v1/portfolios/{pid}/securities/{sid}/transactions" });
    t.push(Route { method: HttpMethod::Post, template: "/api/v1/portfolios/{pid}/securities/{sid}/transactions" });
    t.push(Route { method: HttpMethod::Get, template: "/api/v1/portfolios/{pid}/securities/{sid}/transactions/{tid}" });
    t.push(Route { method: HttpMethod::Patch, template: "/api/v1/portfolios/{pid}/securities/{sid}/transactions/{tid}" });
    t.push(Route { method: HttpMethod::Delete, template: "/api/v1/portfolios/{pid}/securities/{sid}/transactions/{tid}" });
    t.push(Route { method: HttpMethod::Get, template: "/api/v1/portfolios/{pid}/securities" });
    t.push(Route { method: HttpMethod::Get, template: "/api/v1/portfolios/{pid}/news" });
    t.push(Route { method: HttpMethod::Get, template: "/api/v1/portfolios/{pid}/earnings" });
    t.push(Route { method: HttpMethod::Get, template: "/api/v1/portfolios/{pid}/dividends" });
    t.push(Route { method: HttpMethod::Get, template: "/api/v1/portfolios/{pid}/day-prices" });
    t.push(Route { method: HttpMethod::Get, template: "/api/v1/portfolios/{pid}/day-price-periods" });
    t.push(Route { method: HttpMethod::Get, template: "/api/v1/securities" });
    t.push(Route { method: HttpMethod::Get, template: "/api/v1/securities/{sid}/news" });
    t.push(Route { method: HttpMethod::Get, template: "/api/v1/securities/{sid}/day-prices" });
    t.push(Route { method: HttpMethod::Get, template: "/api/v1/securities/{sid}/day-price-periods" });
    t.push(Route { method: HttpMethod::Get, template: "/api/v1/securities/{sid}/quarterly-balance-sheet" });
    t.push(Route { method: HttpMethod::Get, template: "/api/v1/securities/{sid}/annual-balance-sheet" });
    t.push(Route { method: HttpMethod::Get, template: "/api/v1/securities/{sid}/quarterly-income-statements" });
    t.push(Route { method: HttpMethod::Get, template: "/api/v1/securities/{sid}/annual-income-statements" });
    t.push(Route { method: HttpMethod::Get, template: "/api/v1/securities/{sid}" });
    t.push(Route { method: HttpMethod::Get, template: "/api/v1/countries" });
    t.push(Route { method: HttpMethod::Get, template: "/api/v1/currencies" });
    t.push(Route { method: HttpMethod::Get, template: "/api/v1/sectors" });
    t.push(Route { method: HttpMethod::Get, template: "/api/v1/industries" });
    t.push(Route { method: HttpMethod::Get, template: "/api/v1/exchanges" });
    t
}

} // verus!

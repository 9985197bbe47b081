use kraken_trades::credentials::Credentials;
use kraken_trades::error::Error;
use kraken_trades::kraken_futures::{retry_decision, FetchDecision, KrakenFutures};
use kraken_trades::requests::ReqError;

fn creds(secret: &str) -> Credentials {
    Credentials { key: "api-key".to_string(), secret: secret.to_string() }
}

#[test]
fn venue_gate_rejects_after_budget_is_spent() {
    // The venue window admits 500 cost units; each fills request costs 25,
    // and a request landing exactly on the limit is rejected: 19 requests
    // pass, the 20th is turned away.
    let mut venue = KrakenFutures::new(creds("c2VjcmV0IGtleQ=="), 0);
    for _ in 0..19 {
        assert!(venue.prepare_fills_request(None, 0).is_ok());
    }
    let r = venue.prepare_fills_request(None, 0);
    assert_eq!(r.unwrap_err(), Error::Request(ReqError::OverTheReqLimit));

    // Once the window expires, requests are admitted again.
    assert!(venue.prepare_fills_request(None, 11_000).is_ok());
}

#[test]
fn venue_reports_invalid_secret() {
    let mut venue = KrakenFutures::new(creds("*** not base64 ***"), 0);
    let r = venue.prepare_fills_request(None, 0);
    assert_eq!(r.unwrap_err(), Error::Request(ReqError::SigningError));
}

#[test]
fn only_rate_limit_rejection_is_retried() {
    assert_eq!(
        retry_decision(&Error::Request(ReqError::OverTheReqLimit)),
        FetchDecision::PauseAndRetry
    );
    assert_eq!(
        retry_decision(&Error::Request(ReqError::SigningError)),
        FetchDecision::Abort
    );
    assert_eq!(
        retry_decision(&Error::Request(ReqError::Reqwest)),
        FetchDecision::Abort
    );
    assert_eq!(retry_decision(&Error::NoCredentials), FetchDecision::Abort);
    assert_eq!(retry_decision(&Error::ChronoParse), FetchDecision::Abort);
}

use hunter::driver::{get_api_key, process_response, render_rows};
use hunter::model::{EmailEntry, LookupResult, PipelineError, Source};
use hunter::output::header_line;

fn entry(value: &str, kind: &str, confidence: usize) -> EmailEntry {
    EmailEntry {
        value: value.to_string(),
        kind: kind.to_string(),
        confidence,
        sources: Vec::new(),
        first_name: None,
        last_name: None,
        position: None,
        seniority: None,
        department: None,
        linkedin: None,
        twitter: None,
        phone_number: None,
    }
}

fn acme_result(emails: Vec<EmailEntry>) -> LookupResult {
    LookupResult {
        domain: "acme.com".to_string(),
        disposable: false,
        webmail: false,
        accept_all: true,
        pattern: None,
        organization: Some("Acme Inc".to_string()),
        country: Some("US".to_string()),
        state: Some("CA".to_string()),
        emails,
    }
}

#[test]
fn header_has_the_fixed_nineteen_columns() {
    let h = header_line();
    assert_eq!(
        h,
        "domain,disposable,webmail,accept_all,pattern,organization,country,state,value,type,confidence,first_name,last_name,position,seniority,department,linkedin,twitter,phone_number\n"
    );
}

#[test]
fn one_record_acme_scenario() {
    let body = "{ \"data\": { \"domain\": \"acme.com\", \"disposable\": false, \"webmail\": false, \"accept_all\": true, \"pattern\": null, \"organization\": \"Acme Inc\", \"country\": \"US\", \"state\": \"CA\", \"emails\": [ {\"value\": \"jane@acme.com\", \"type\": \"personal\", \"confidence\": 90, \"sources\": [], \"first_name\": \"Jane\", \"last_name\": \"Doe\"} ] }, \"meta\": {\"results\": 1, \"limit\": 100, \"offset\": 0} }";
    let out = process_response(Ok(body.to_string()));
    let (data, meta) = out.expect("the mocked body matches the schema");
    assert_eq!(meta.describe(), "results: 1, limit: 100, offset: 0");
    let lines = render_rows(&data);
    assert_eq!(lines.len(), 1);
    assert_eq!(
        lines[0],
        "acme.com,false,false,true,,Acme Inc,US,CA,jane@acme.com,personal,90,Jane,Doe,,,,,,\n"
    );
}

#[test]
fn empty_emails_give_zero_rows() {
    let data = acme_result(Vec::new());
    let lines = render_rows(&data);
    assert_eq!(lines.len(), 0);
}

#[test]
fn flatten_keeps_cardinality_and_order() {
    let data = acme_result(vec![
        entry("a@acme.com", "personal", 80),
        entry("b@acme.com", "generic", 60),
        entry("c@acme.com", "personal", 40),
    ]);
    let rows = hunter::flatten::flatten(&data);
    assert_eq!(rows.len(), 3);
    assert_eq!(rows[0].value, "a@acme.com");
    assert_eq!(rows[1].value, "b@acme.com");
    assert_eq!(rows[2].value, "c@acme.com");
}

#[test]
fn flatten_broadcasts_domain_fields() {
    let data = acme_result(vec![entry("a@acme.com", "personal", 80), entry("b@acme.com", "generic", 60)]);
    let rows = hunter::flatten::flatten(&data);
    for row in &rows {
        assert_eq!(row.domain, "acme.com");
        assert!(!row.disposable);
        assert!(!row.webmail);
        assert!(row.accept_all);
        assert_eq!(row.pattern, None);
        assert_eq!(row.organization, Some("Acme Inc".to_string()));
        assert_eq!(row.country, Some("US".to_string()));
        assert_eq!(row.state, Some("CA".to_string()));
    }
}

#[test]
fn sources_never_reach_the_output() {
    let mut with_sources = acme_result(vec![entry("a@acme.com", "personal", 80)]);
    with_sources.emails[0].sources.push(Source {
        domain: "acme.com".to_string(),
        uri: "http://acme.com/about".to_string(),
        extracted_on: "2020-01-01".to_string(),
        last_seen_on: "2020-06-01".to_string(),
        still_on_page: true,
    });
    let without_sources = acme_result(vec![entry("a@acme.com", "personal", 80)]);
    let lines_a: Vec<String> = render_rows(&with_sources);
    let lines_b: Vec<String> = render_rows(&without_sources);
    assert_eq!(lines_a, lines_b);
}

#[test]
fn transport_failure_is_fatal_with_its_text() {
    let out = process_response(Err("connection refused".to_string()));
    assert_eq!(out, Err(PipelineError::Transport("connection refused".to_string())));
    let e = out.unwrap_err();
    assert_eq!(e.message(), "transport error: connection refused");
}

#[test]
fn rate_limit_body_fails_schema_decode() {
    let out = process_response(Ok("Rate limit exceeded".to_string()));
    assert_eq!(out, Err(PipelineError::Schema));
}

#[test]
fn error_envelope_fails_schema_decode() {
    let body = "{ \"errors\": [ { \"id\": \"too_many_requests\", \"code\": 429 } ] }";
    let out = process_response(Ok(body.to_string()));
    assert_eq!(out, Err(PipelineError::Schema));
}

#[test]
fn missing_credential_stops_the_run() {
    let out = get_api_key(None);
    assert_eq!(out, Err(PipelineError::CredentialMissing));
    assert_eq!(out.unwrap_err().message(), "Please set KEY (your hunter.io api key).");
}

#[test]
fn supplied_credential_is_kept() {
    let out = get_api_key(Some("testkey01".to_string()));
    assert_eq!(out, Ok("testkey01".to_string()));
}

#[test]
fn optional_absent_and_null_both_render_empty() {
    let absent = "{\"data\":{\"domain\":\"x.io\",\"disposable\":false,\"webmail\":false,\"accept_all\":false,\"emails\":[{\"value\":\"a@x.io\",\"type\":\"generic\",\"confidence\":7,\"sources\":[]}]},\"meta\":{\"results\":1,\"limit\":10,\"offset\":0}}";
    let nulled = "{\"data\":{\"domain\":\"x.io\",\"disposable\":false,\"webmail\":false,\"accept_all\":false,\"pattern\":null,\"organization\":null,\"country\":null,\"state\":null,\"emails\":[{\"value\":\"a@x.io\",\"type\":\"generic\",\"confidence\":7,\"sources\":[],\"first_name\":null,\"phone_number\":null}]},\"meta\":{\"results\":1,\"limit\":10,\"offset\":0}}";
    let (data_a, _) = process_response(Ok(absent.to_string())).unwrap();
    let (data_b, _) = process_response(Ok(nulled.to_string())).unwrap();
    assert_eq!(data_a.pattern, None);
    assert_eq!(data_b.pattern, None);
    assert_eq!(data_a.emails[0].first_name, None);
    assert_eq!(data_b.emails[0].first_name, None);
    let lines_a = render_rows(&data_a);
    let lines_b = render_rows(&data_b);
    assert_eq!(lines_a[0], "x.io,false,false,false,,,,,a@x.io,generic,7,,,,,,,,\n");
    assert_eq!(lines_a, lines_b);
}

#[test]
fn confidence_and_meta_numbers_render_in_decimal() {
    assert_eq!(hunter::numfmt::dec_string(0), "0");
    assert_eq!(hunter::numfmt::dec_string(7), "7");
    assert_eq!(hunter::numfmt::dec_string(90), "90");
    assert_eq!(hunter::numfmt::dec_string(12345), "12345");
}

use hunter::input::parse_input;
use hunter::model::PipelineError;
use hunter::query::lookup_url;

#[test]
fn input_with_one_row_parses() {
    let out = parse_input("name,domain\nAcme,acme.com\n").unwrap();
    assert_eq!(out.len(), 1);
    assert_eq!(out[0].name, "Acme");
    assert_eq!(out[0].domain, "acme.com");
}

#[test]
fn input_columns_may_come_in_any_order() {
    let out = parse_input("domain,name\nacme.com,Acme\nx.io,X Corp\n").unwrap();
    assert_eq!(out.len(), 2);
    assert_eq!(out[0].name, "Acme");
    assert_eq!(out[0].domain, "acme.com");
    assert_eq!(out[1].name, "X Corp");
    assert_eq!(out[1].domain, "x.io");
}

#[test]
fn input_extra_columns_are_ignored() {
    let out = parse_input("id,name,domain\n1,Acme,acme.com\n").unwrap();
    assert_eq!(out.len(), 1);
    assert_eq!(out[0].name, "Acme");
    assert_eq!(out[0].domain, "acme.com");
}

#[test]
fn input_quoted_fields_are_unescaped() {
    let out = parse_input("name,domain\n\"Acme, Inc \"\"HQ\"\"\",acme.com\n").unwrap();
    assert_eq!(out.len(), 1);
    assert_eq!(out[0].name, "Acme, Inc \"HQ\"");
    assert_eq!(out[0].domain, "acme.com");
}

#[test]
fn input_without_final_line_break_parses() {
    let out = parse_input("name,domain\r\nAcme,acme.com").unwrap();
    assert_eq!(out.len(), 1);
    assert_eq!(out[0].domain, "acme.com");
}

#[test]
fn input_header_only_gives_no_records() {
    let out = parse_input("name,domain\n").unwrap();
    assert_eq!(out.len(), 0);
}

#[test]
fn input_missing_domain_column_fails_at_first_row() {
    let out = parse_input("name,website\nAcme,acme.com\n");
    assert_eq!(out, Err(PipelineError::MalformedInput(1)));
    assert_eq!(out.unwrap_err().message(), "malformed input row 1");
}

#[test]
fn input_short_row_fails_with_its_index() {
    let out = parse_input("name,domain\nAcme,acme.com\nlonely\nX,x.io\n");
    assert_eq!(out, Err(PipelineError::MalformedInput(2)));
    assert_eq!(out.unwrap_err().message(), "malformed input row 2");
}

#[test]
fn input_unclosed_quote_is_malformed() {
    let out = parse_input("name,domain\n\"Acme,acme.com\n");
    assert_eq!(out, Err(PipelineError::MalformedInput(0)));
}

#[test]
fn lookup_url_carries_the_three_parameters() {
    let url = lookup_url("acme.com", "testkey01", 100);
    assert_eq!(
        url,
        "https://api.hunter.io/v2/domain-search?domain=acme.com&api_key=testkey01&limit=100"
    );
}

#[test]
fn lookup_url_encodes_the_form_way() {
    let url = lookup_url("ex ample.com/\u{00FC}?", "k&=", 10);
    assert_eq!(
        url,
        "https://api.hunter.io/v2/domain-search?domain=ex+ample.com%2F%C3%BC%3F&api_key=k%26%3D&limit=10"
    );
}

#[test]
fn quoted_cells_appear_when_a_field_needs_them() {
    let row = hunter::model::FlatRow {
        domain: "acme.com".to_string(),
        disposable: false,
        webmail: true,
        accept_all: false,
        pattern: Some("{first}.{last}".to_string()),
        organization: Some("Acme, Inc \"HQ\"".to_string()),
        country: None,
        state: None,
        value: "a@acme.com".to_string(),
        kind: "personal".to_string(),
        confidence: 100,
        first_name: Some("Ann\nB".to_string()),
        last_name: None,
        position: None,
        seniority: None,
        department: None,
        linkedin: None,
        twitter: None,
        phone_number: None,
    };
    let line = hunter::output::render_row(&row);
    assert_eq!(
        line,
        "acme.com,false,true,false,{first}.{last},\"Acme, Inc \"\"HQ\"\"\",,,a@acme.com,personal,100,\"Ann\nB\",,,,,,,\n"
    );
}

#[test]
fn json_escapes_decode_into_characters() {
    let body = "{\"data\":{\"domain\":\"x.io\",\"disposable\":false,\"webmail\":false,\"accept_all\":false,\"organization\":\"\\u0041B\\n\\\"q\\\" \\uD83D\\uDE00\",\"emails\":[]},\"meta\":{\"results\":0,\"limit\":10,\"offset\":0}}";
    let (data, meta) = hunter::driver::process_response(Ok(body.to_string())).unwrap();
    assert_eq!(data.organization, Some("AB\n\"q\" \u{1F600}".to_string()));
    assert_eq!(meta.results, 0);
}

#[test]
fn json_numbers_for_counts_must_be_plain_integers() {
    let fractional = "{\"data\":{\"domain\":\"x.io\",\"disposable\":false,\"webmail\":false,\"accept_all\":false,\"emails\":[]},\"meta\":{\"results\":1.5,\"limit\":10,\"offset\":0}}";
    let out = hunter::driver::process_response(Ok(fractional.to_string()));
    assert_eq!(out, Err(PipelineError::Schema));
}

#[test]
fn json_duplicate_member_takes_the_later_value() {
    let body = "{\"data\":{\"domain\":\"first.io\",\"domain\":\"second.io\",\"disposable\":false,\"webmail\":false,\"accept_all\":false,\"emails\":[]},\"meta\":{\"results\":0,\"limit\":10,\"offset\":0}}";
    let (data, _) = hunter::driver::process_response(Ok(body.to_string())).unwrap();
    assert_eq!(data.domain, "second.io");
}

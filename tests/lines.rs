use event_log_tsv::{
    parse_envelope, transform_line, transform_lines, unescape_body, EventTypes,
};

const E: &str = "941a496e-79a1-4f53-908e-d31cf1fc0c6e";
const T1: &str = "292d83cb-f5f3-4fe3-8a5a-e7569f892369";
const T2: &str = "3f1c2d4e-5a6b-4c7d-8e9f-0a1b2c3d4e5f";
const I1: &str = "11111111-2222-4333-8444-555555555555";
const I2: &str = "66666666-7777-4888-9999-aaaaaaaaaaaa";
const W: &str = "aaaaaaaa-bbbb-4ccc-8ddd-eeeeeeeeeeee";
const U: &str = "bbbbbbbb-cccc-4ddd-8eee-ffffffffffff";
const S: &str = "cccccccc-dddd-4eee-8fff-000000000000";

fn log_line(payload: &str) -> String {
    format!(
        "req-1 2019-02-21T14:22:03+00:00 \"/events\" \"10.0.0.1\" \"10.0.0.2\" \"-\" \"Mozilla/5.0 (X11)\" \"en-US\" \"{}\"",
        payload.replace('"', "\\\"")
    )
}

fn click_payload() -> String {
    format!(
        "{{\"type\":\"click\",\"eventId\":\"{}\",\"trackId\":\"{}\",\"timestamp\":1550758923}}",
        E, T1
    )
}

fn visit_payload(extra: &str) -> String {
    format!(
        "{{\"type\":\"click\",\"eventId\":\"{}\",\"trackId\":\"{}\",\"timestamp\":1550758923,\"timeElapsed\":132{}}}",
        E, T1, extra
    )
}

fn search_payload(results: &str, extra: &str) -> String {
    format!(
        "{{\"widgetId\":\"{}\",\"sessionId\":\"{}\",\"userId\":\"{}\",\"total\":2,\"eventId\":\"{}\",\"type\":\"search\",\"query\":\"shoes\",\"filter\":\"red\",\"timestamp\":1000,\"from\":0,\"size\":10,\"result\":[{}]{}}}",
        W, S, U, E, results, extra
    )
}

fn two_results() -> String {
    format!(
        "{{\"itemId\":\"{}\",\"position\":0,\"itemType\":\"a\",\"trackId\":\"{}\"}},{{\"itemId\":\"{}\",\"position\":1,\"itemType\":\"b\",\"trackId\":\"{}\"}}",
        I1, T1, I2, T2
    )
}

#[test]
fn click_line_gives_one_row() {
    let line = log_line(&click_payload());
    assert_eq!(
        transform_line(EventTypes::Click, &line),
        "1550758923\t941a496e-79a1-4f53-908e-d31cf1fc0c6e\t292d83cb-f5f3-4fe3-8a5a-e7569f892369\n"
    );
}

#[test]
fn visit_line_gives_one_row() {
    let line = log_line(&visit_payload(""));
    assert_eq!(
        transform_line(EventTypes::Visit, &line),
        "1550758923\t941a496e-79a1-4f53-908e-d31cf1fc0c6e\t292d83cb-f5f3-4fe3-8a5a-e7569f892369\t132\n"
    );
}

#[test]
fn visit_line_with_extra_key_gives_nothing() {
    let line = log_line(&visit_payload(",\"foo\":1"));
    assert_eq!(transform_line(EventTypes::Visit, &line), "");
}

#[test]
fn click_line_with_visit_key_gives_nothing() {
    let line = log_line(&visit_payload(""));
    assert_eq!(transform_line(EventTypes::Click, &line), "");
}

#[test]
fn result_line_fans_out_per_hit() {
    let line = log_line(&search_payload(&two_results(), ""));
    let expected = format!(
        "1000\t{E}\t{T1}\t{I1}\ta\t0\n1000\t{E}\t{T2}\t{I2}\tb\t1\n",
        E = E,
        T1 = T1,
        I1 = I1,
        T2 = T2,
        I2 = I2
    );
    assert_eq!(transform_line(EventTypes::Result, &line), expected);
}

#[test]
fn result_line_without_hits_gives_nothing() {
    let line = log_line(&search_payload("", ""));
    assert_eq!(transform_line(EventTypes::Result, &line), "");
}

#[test]
fn search_line_gives_ten_fields() {
    let line = log_line(&search_payload(&two_results(), ""));
    let expected = format!("1000\t{}\t{}\t{}\t{}\tshoes\tred\t0\t10\t2\n", E, W, U, S);
    let out = transform_line(EventTypes::Search, &line);
    assert_eq!(out, expected);
    assert_eq!(out.trim_end_matches('\n').split('\t').count(), 10);
}

#[test]
fn search_line_tolerates_extra_keys() {
    let line = log_line(&search_payload(&two_results(), ",\"extra\":{\"deep\":[1,2.5,null]}"));
    let expected = format!("1000\t{}\t{}\t{}\t{}\tshoes\tred\t0\t10\t2\n", E, W, U, S);
    assert_eq!(transform_line(EventTypes::Search, &line), expected);
    let rows = transform_line(EventTypes::Result, &line);
    assert_eq!(rows.lines().count(), 2);
}

#[test]
fn negative_total_is_written_with_sign() {
    let payload = search_payload("", "").replace("\"total\":2", "\"total\":-7");
    let line = log_line(&payload);
    let expected = format!("1000\t{}\t{}\t{}\t{}\tshoes\tred\t0\t10\t-7\n", E, W, U, S);
    assert_eq!(transform_line(EventTypes::Search, &line), expected);
}

#[test]
fn upper_case_uuid_is_written_lower_case() {
    let payload = click_payload().replace(E, &E.to_uppercase());
    let line = log_line(&payload);
    assert_eq!(
        transform_line(EventTypes::Click, &line),
        format!("1550758923\t{}\t{}\n", E, T1)
    );
}

#[test]
fn simple_form_uuid_does_not_decode() {
    let payload = click_payload().replace(E, &E.replace('-', ""));
    assert_eq!(transform_line(EventTypes::Click, &log_line(&payload)), "");
}

#[test]
fn lines_without_the_envelope_give_nothing() {
    assert_eq!(transform_line(EventTypes::Click, ""), "");
    assert_eq!(transform_line(EventTypes::Click, "garbage"), "");
    let line = log_line(&click_payload());
    assert_eq!(transform_line(EventTypes::Click, &format!("{} trailing", line)), "");
    let missing_field = line.replacen(" \"en-US\"", "", 1);
    assert_eq!(transform_line(EventTypes::Click, &missing_field), "");
    assert!(parse_envelope(&missing_field).is_none());
}

#[test]
fn unparsable_payload_gives_nothing() {
    let line = log_line("{\"type\":\"click\",");
    assert!(parse_envelope(&line).is_some());
    assert_eq!(transform_line(EventTypes::Click, &line), "");
}

#[test]
fn envelope_fields_are_split() {
    let line = "id-7 2020-01-01 \"/a b\" \"1.1.1.1\" \"2.2.2.2\" \"ref \\\"q\\\"\" \"UA\" \"fr\" \"{}\"";
    let l = parse_envelope(line).unwrap();
    assert_eq!(l.request_id, "id-7");
    assert_eq!(l.request_date, "2020-01-01");
    assert_eq!(l.request_uri, "/a b");
    assert_eq!(l.x_real_ip, "1.1.1.1");
    assert_eq!(l.remote_addr, "2.2.2.2");
    assert_eq!(l.referrer, "ref \\\"q\\\"");
    assert_eq!(l.user_agent, "UA");
    assert_eq!(l.accept_language, "fr");
    assert_eq!(l.request_body, "{}");
}

#[test]
fn unescape_replaces_only_escaped_quotes() {
    assert_eq!(unescape_body("{\\\"a\\\":\\\"x\\\\y\\\"}"), "{\"a\":\"x\\\\y\"}");
    assert_eq!(unescape_body("a\\\\b"), "a\\\\b");
    assert_eq!(unescape_body(""), "");
}

#[test]
fn escaped_payload_strings_come_back() {
    let payload = click_payload().replace("\"click\"", "\"say \\\"hi\\\" \\\\ ok\"");
    let line = log_line(&payload);
    let l = parse_envelope(&line).unwrap();
    assert_eq!(unescape_body(&l.request_body), payload);
    assert_eq!(transform_line(EventTypes::Click, &line), format!("1550758923\t{}\t{}\n", E, T1));
}

#[test]
fn lines_keep_their_order() {
    let a = log_line(&click_payload());
    let b = "noise".to_string();
    let c = log_line(&click_payload().replace("1550758923", "7"));
    let out = transform_lines(EventTypes::Click, &vec![a, b, c]);
    assert_eq!(out, format!("1550758923\t{E}\t{T1}\n7\t{E}\t{T1}\n", E = E, T1 = T1));
    assert_eq!(transform_lines(EventTypes::Click, &vec![]), "");
}

#[test]
fn any_whitespace_character_separates_fields() {
    let line = log_line(&click_payload()).replacen(' ', "\t", 3);
    assert_eq!(
        transform_line(EventTypes::Click, &line),
        format!("1550758923\t{}\t{}\n", E, T1)
    );
}

#[test]
fn hits_tolerate_extra_keys_but_not_bad_values() {
    let extra = two_results().replace("\"position\":0", "\"position\":0,\"score\":0.5");
    let line = log_line(&search_payload(&extra, ""));
    assert_eq!(transform_line(EventTypes::Result, &line).lines().count(), 2);
    let bad = two_results().replace("\"position\":1", "\"position\":-1");
    let line = log_line(&search_payload(&bad, ""));
    assert_eq!(transform_line(EventTypes::Result, &line), "");
    assert_eq!(transform_line(EventTypes::Search, &line), "");
}

#[test]
fn payload_that_is_not_an_object_gives_nothing() {
    let line = log_line("[1,2,3]");
    assert_eq!(transform_line(EventTypes::Click, &line), "");
    assert_eq!(transform_line(EventTypes::Search, &line), "");
}

#[test]
fn missing_member_gives_nothing() {
    let payload = click_payload().replace(",\"timestamp\":1550758923", "");
    assert_eq!(transform_line(EventTypes::Click, &log_line(&payload)), "");
}

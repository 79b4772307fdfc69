use anubis_solver::{parse_challenge_from_html, Algorithm, Extraction};

fn page(challenge_json: &str) -> String {
    format!(
        "<html><body><script id=\"anubis_challenge\" type=\"application/json\">{}</script></body></html>",
        challenge_json
    )
}

fn found(html: &str) -> anubis_solver::ParsedChallenge {
    match parse_challenge_from_html(html) {
        Extraction::Found(pc) => pc,
        other => panic!("expected a challenge, got {:?}", other),
    }
}

#[test]
fn bare_string_shape_is_accepted() {
    let html = page("{\"challenge\":\"abc\",\"rules\":{\"difficulty\":0}}");
    let pc = found(&html);
    assert_eq!(pc.challenge.challenge, "abc");
    assert_eq!(pc.challenge.id, None);
    assert_eq!(pc.challenge.rules.difficulty, 0);
    assert!(matches!(pc.challenge.rules.algorithm, Algorithm::Fast));
    assert_eq!(pc.version, "unknown");
}

#[test]
fn object_shape_is_equivalent_but_carries_the_id() {
    let bare = page("{\"challenge\":\"abc\",\"rules\":{\"difficulty\":2}}");
    let obj = page(
        "{\"challenge\":{\"id\":\"x\",\"randomData\":\"abc\"},\"rules\":{\"difficulty\":2}}",
    );
    let a = found(&bare);
    let b = found(&obj);
    assert_eq!(a.challenge.challenge, b.challenge.challenge);
    assert_eq!(a.challenge.rules.difficulty, b.challenge.rules.difficulty);
    assert_eq!(a.challenge.id, None);
    assert_eq!(b.challenge.id, Some("x".to_string()));
}

#[test]
fn missing_marker_yields_no_challenge() {
    assert!(matches!(
        parse_challenge_from_html("<html><body>plain page</body></html>"),
        Extraction::Absent
    ));
}

#[test]
fn empty_element_yields_no_challenge() {
    let html = "<script id=\"anubis_challenge\" type=\"application/json\"></script>";
    assert!(matches!(parse_challenge_from_html(html), Extraction::Absent));
}

#[test]
fn whitespace_only_element_yields_no_challenge() {
    let html = "<script id=\"anubis_challenge\">  \n\t </script>";
    assert!(matches!(parse_challenge_from_html(html), Extraction::Absent));
}

#[test]
fn literal_null_yields_no_challenge() {
    let html = "<script id=\"anubis_challenge\">null</script>";
    assert!(matches!(parse_challenge_from_html(html), Extraction::Absent));
}

#[test]
fn malformed_json_is_a_decode_failure() {
    let html = page("{\"challenge\":\"abc\",\"rules\":");
    assert!(matches!(parse_challenge_from_html(&html), Extraction::Malformed));
}

#[test]
fn missing_random_data_in_object_shape_is_a_decode_failure() {
    let html = page("{\"challenge\":{\"id\":\"x\"},\"rules\":{\"difficulty\":1}}");
    assert!(matches!(parse_challenge_from_html(&html), Extraction::Malformed));
}

#[test]
fn missing_rules_is_a_decode_failure() {
    let html = page("{\"challenge\":\"abc\"}");
    assert!(matches!(parse_challenge_from_html(&html), Extraction::Malformed));
}

#[test]
fn missing_difficulty_is_a_decode_failure() {
    let html = page("{\"challenge\":\"abc\",\"rules\":{\"algorithm\":\"fast\"}}");
    assert!(matches!(parse_challenge_from_html(&html), Extraction::Malformed));
}

#[test]
fn oversized_difficulty_is_a_decode_failure() {
    let html = page(
        "{\"challenge\":\"abc\",\"rules\":{\"difficulty\":99999999999999999999999999}}",
    );
    assert!(matches!(parse_challenge_from_html(&html), Extraction::Malformed));
}

#[test]
fn unknown_fields_are_ignored() {
    let html = page(
        "{\"challenge\":\"abc\",\"extra\":[1,2,{\"a\":true}],\"report_as\":null,\"rules\":{\"difficulty\":3,\"report_as\":4.5e2,\"other\":\"x\"}}",
    );
    let pc = found(&html);
    assert_eq!(pc.challenge.challenge, "abc");
    assert_eq!(pc.challenge.rules.difficulty, 3);
}

#[test]
fn algorithm_labels_resolve_to_their_variants() {
    let cases = [
        ("fast", Algorithm::Fast),
        ("slow", Algorithm::Slow),
        ("preact", Algorithm::Preact),
        ("metarefresh", Algorithm::Metarefresh),
        ("spin", Algorithm::Unknown),
    ];
    for (label, expected) in cases {
        let html = page(&format!(
            "{{\"challenge\":\"abc\",\"rules\":{{\"difficulty\":1,\"algorithm\":\"{}\"}}}}",
            label
        ));
        let pc = found(&html);
        assert_eq!(pc.challenge.rules.algorithm, expected, "label {}", label);
    }
}

#[test]
fn empty_algorithm_label_normalizes_to_fast() {
    let html = page("{\"challenge\":\"abc\",\"rules\":{\"difficulty\":1,\"algorithm\":\"\"}}");
    assert!(matches!(found(&html).challenge.rules.algorithm, Algorithm::Fast));
}

#[test]
fn string_escapes_are_decoded() {
    let html = page("{\"challenge\":\"a\\\"b\\\\c\\n\",\"rules\":{\"difficulty\":0}}");
    assert_eq!(found(&html).challenge.challenge, "a\"b\\c\n");
}

#[test]
fn unicode_escapes_are_decoded() {
    let html = page("{\"challenge\":\"\\u0041\\u00e9\\u20ac\",\"rules\":{\"difficulty\":0}}");
    assert_eq!(found(&html).challenge.challenge, "A\u{e9}\u{20ac}");
}

#[test]
fn surrogate_pairs_decode_to_astral_scalars() {
    let html = page("{\"challenge\":\"\\ud83d\\ude00!\",\"rules\":{\"difficulty\":0}}");
    assert_eq!(found(&html).challenge.challenge, "\u{1f600}!");
}

#[test]
fn a_lone_high_surrogate_escape_is_a_decode_failure() {
    let html = page("{\"challenge\":\"\\ud800\",\"rules\":{\"difficulty\":0}}");
    assert!(matches!(parse_challenge_from_html(&html), Extraction::Malformed));
}

#[test]
fn a_lone_low_surrogate_escape_is_a_decode_failure() {
    let html = page("{\"challenge\":\"\\udc00x\",\"rules\":{\"difficulty\":0}}");
    assert!(matches!(parse_challenge_from_html(&html), Extraction::Malformed));
}

#[test]
fn surrounding_whitespace_in_the_document_is_tolerated() {
    let html = page(" \n { \"challenge\" : \"abc\" , \"rules\" : { \"difficulty\" : 2 } } \n ");
    let pc = found(&html);
    assert_eq!(pc.challenge.challenge, "abc");
    assert_eq!(pc.challenge.rules.difficulty, 2);
}

#[test]
fn trailing_garbage_after_the_document_is_a_decode_failure() {
    let html = page("{\"challenge\":\"abc\",\"rules\":{\"difficulty\":0}} tail");
    assert!(matches!(parse_challenge_from_html(&html), Extraction::Malformed));
}

#[test]
fn version_element_is_read_best_effort() {
    let html = format!(
        "{}<script id=\"anubis_version\">\"1.21.3\"</script>",
        page("{\"challenge\":\"abc\",\"rules\":{\"difficulty\":0}}")
    );
    assert_eq!(found(&html).version, "1.21.3");
}

#[test]
fn unquoted_version_content_is_taken_as_it_stands() {
    let html = format!(
        "{}<script id=\"anubis_version\">1.20</script>",
        page("{\"challenge\":\"abc\",\"rules\":{\"difficulty\":0}}")
    );
    assert_eq!(found(&html).version, "1.20");
}

#[test]
fn duplicate_members_keep_the_last_value() {
    let html = page(
        "{\"challenge\":\"first\",\"challenge\":\"second\",\"rules\":{\"difficulty\":1,\"difficulty\":2}}",
    );
    let pc = found(&html);
    assert_eq!(pc.challenge.challenge, "second");
    assert_eq!(pc.challenge.rules.difficulty, 2);
}

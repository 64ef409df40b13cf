use fritz_log_parser::{Challenge, ChallengeParseError, Pbkdf2Params, Response};

#[test]
fn challenge_parse() {
    const CHALLENGE: &str =
        "2$60000$d4949767019d1e6eed27c27f404c7aa7$6000$4f3415a3b5396a9675d08906ee6a6933";
    const RESPONSE: &str = "4f3415a3b5396a9675d08906ee6a6933$16a4a11987d802c6f3e67d91d1425b5a0eade78561a5810ef905372ab1da53ca";

    let ch = Challenge::from_str(CHALLENGE).unwrap();

    assert_eq!(ch.statick.iterations, 60000);
    assert_eq!(ch.dynamic.iterations, 6000);

    assert_eq!(
        ch.statick.salt,
        [212, 148, 151, 103, 1, 157, 30, 110, 237, 39, 194, 127, 64, 76, 122, 167]
    );
    assert_eq!(
        ch.dynamic.salt,
        [79, 52, 21, 163, 181, 57, 106, 150, 117, 208, 137, 6, 238, 106, 105, 51]
    );

    let first_hash = ch.statick.hash(b"vorab9049");
    assert_eq!(
        first_hash,
        [
            173, 73, 26, 0, 69, 3, 2, 226, 26, 14, 168, 166, 149, 148, 120, 114, 4, 167, 182, 35,
            234, 201, 114, 174, 21, 114, 197, 66, 252, 236, 254, 29
        ]
    );

    let second_hash = ch.dynamic.hash(&first_hash);
    assert_eq!(
        second_hash,
        [
            22, 164, 161, 25, 135, 216, 2, 198, 243, 230, 125, 145, 209, 66, 91, 90, 14, 173, 231,
            133, 97, 165, 129, 14, 249, 5, 55, 42, 177, 218, 83, 202
        ]
    );

    let response = ch.response(b"vorab9049");
    assert_eq!(response.to_string(), RESPONSE);

    let response = ch.make_response("vorab9049");
    assert_eq!(response.to_string(), RESPONSE);
}

#[test]
fn get_response() {
    const CHALLENGE: &str =
        "2$60000$d4949767019d1e6eed27c27f404c7aa7$6000$662dc618ec19bc5012b272f53b805c01";
    const PASSWORD: &[u8] = b"vorab9049";

    println!(
        "{:#?}",
        Challenge::from_str(CHALLENGE).unwrap().response(PASSWORD)
    );
}

#[test]
fn challenge_with_too_few_fields_is_refused() {
    assert_eq!(
        Challenge::from_str("2$60000$d4949767019d1e6eed27c27f404c7aa7$6000"),
        Err(ChallengeParseError::Format)
    );
    assert_eq!(Challenge::from_str(""), Err(ChallengeParseError::Format));
}

#[test]
fn challenge_with_too_many_fields_is_refused() {
    assert_eq!(
        Challenge::from_str(
            "2$60000$d4949767019d1e6eed27c27f404c7aa7$6000$4f3415a3b5396a9675d08906ee6a6933$"
        ),
        Err(ChallengeParseError::Format)
    );
}

#[test]
fn challenge_of_another_version_is_refused() {
    assert_eq!(
        Challenge::from_str(
            "1$60000$d4949767019d1e6eed27c27f404c7aa7$6000$4f3415a3b5396a9675d08906ee6a6933"
        ),
        Err(ChallengeParseError::Version)
    );
    assert_eq!(
        Challenge::from_str(
            "22$60000$d4949767019d1e6eed27c27f404c7aa7$6000$4f3415a3b5396a9675d08906ee6a6933"
        ),
        Err(ChallengeParseError::Version)
    );
}

#[test]
fn challenge_with_a_bad_salt_is_refused() {
    // one digit short
    assert_eq!(
        Challenge::from_str(
            "2$60000$d4949767019d1e6eed27c27f404c7aa$6000$4f3415a3b5396a9675d08906ee6a6933"
        ),
        Err(ChallengeParseError::Salt)
    );
    // no hexadecimal digit
    assert_eq!(
        Challenge::from_str(
            "2$60000$d4949767019d1e6eed27c27f404c7aa7$6000$4f3415a3b5396a9675d08906ee6a693g"
        ),
        Err(ChallengeParseError::Salt)
    );
    // the salt is looked at before the rounds
    assert_eq!(
        Challenge::from_str("2$x$zz$6000$4f3415a3b5396a9675d08906ee6a6933"),
        Err(ChallengeParseError::Salt)
    );
}

#[test]
fn challenge_with_bad_rounds_is_refused() {
    assert_eq!(
        Challenge::from_str(
            "2$-1$d4949767019d1e6eed27c27f404c7aa7$6000$4f3415a3b5396a9675d08906ee6a6933"
        ),
        Err(ChallengeParseError::Iterations)
    );
    assert_eq!(
        Challenge::from_str(
            "2$60000$d4949767019d1e6eed27c27f404c7aa7$4294967296$4f3415a3b5396a9675d08906ee6a6933"
        ),
        Err(ChallengeParseError::Iterations)
    );
    assert_eq!(
        Challenge::from_str(
            "2$60000$d4949767019d1e6eed27c27f404c7aa7$$4f3415a3b5396a9675d08906ee6a6933"
        ),
        Err(ChallengeParseError::Iterations)
    );
}

#[test]
fn challenge_accepts_upper_case_salts_and_signed_rounds() {
    let ch = Challenge::from_str(
        "2$+7$D4949767019D1E6EED27C27F404C7AA7$4294967295$4F3415A3B5396A9675D08906EE6A6933",
    )
    .unwrap();
    assert_eq!(ch.statick.iterations, 7);
    assert_eq!(ch.dynamic.iterations, u32::MAX);
    assert_eq!(
        ch.statick.salt,
        [212, 148, 151, 103, 1, 157, 30, 110, 237, 39, 194, 127, 64, 76, 122, 167]
    );
}

#[test]
fn response_is_salt_and_hash_in_lower_case_hex() {
    let response = Response {
        salt: [0, 1, 2, 3, 4, 5, 6, 7, 8, 9, 10, 11, 12, 13, 14, 255],
        hash: [0xab; 32],
    };
    assert_eq!(
        response.to_string(),
        "000102030405060708090a0b0c0d0eff$abababababababababababababababababababababababababababababababab"
    );
}

#[test]
fn hash_depends_on_every_parameter() {
    let params = Pbkdf2Params { iterations: 2, salt: [7; 16] };
    let hash = params.hash(b"password");
    assert_ne!(hash, [0u8; 32]);
    assert_ne!(hash, Pbkdf2Params { iterations: 3, salt: [7; 16] }.hash(b"password"));
    assert_ne!(hash, Pbkdf2Params { iterations: 2, salt: [8; 16] }.hash(b"password"));
    assert_ne!(hash, params.hash(b"passwore"));
    assert_eq!(hash, params.hash(b"password"));
}

#[test]
fn response_carries_the_dynamic_salt() {
    let ch = Challenge {
        statick: Pbkdf2Params { iterations: 1, salt: [1; 16] },
        dynamic: Pbkdf2Params { iterations: 1, salt: [2; 16] },
    };
    let response = ch.response(b"secret");
    assert_eq!(response.salt, [2; 16]);
    assert_eq!(response.hash, ch.dynamic.hash(&ch.statick.hash(b"secret")));
}

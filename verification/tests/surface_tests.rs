use ict_server::ict_args::{load_args, parse_decimal, Args, Operation};
use ict_server::ict_config::{algorithm_of, Algorithm, Database, Logs, Pi, Settings, Totp};
use ict_server::ict_errors::ICTError;
use ict_server::ict_web::{
    invalid_json_reply, operate_reply, register_reply, route, stats_reply, unknown_reply, Reply,
    Route,
};

fn argv(words: &[&str]) -> Vec<String> {
    words.iter().map(|w| w.to_string()).collect()
}

fn every_error() -> Vec<ICTError> {
    vec![
        ICTError::InvalidIdentifier,
        ICTError::InvalidKey,
        ICTError::InvalidSignatureEncoding,
        ICTError::NotFound,
        ICTError::Conflict,
        ICTError::NotAuthorized,
        ICTError::SignatureInvalid,
        ICTError::MalformedMessage,
        ICTError::TotpInvalid,
        ICTError::RSA,
        ICTError::TOTP,
        ICTError::SystemTimeError,
        ICTError::Storage("disk full".to_string()),
    ]
}

#[test]
fn the_configuration_file_has_a_default() {
    assert_eq!(
        load_args(&argv(&["ict_server"])),
        Ok(Args {
            config: "configs/ict_server.toml".to_string(),
            operation: None,
        })
    );
}

#[test]
fn the_configuration_file_can_be_named() {
    for line in [
        vec!["ict_server", "-c", "other.toml"],
        vec!["ict_server", "--config", "other.toml"],
        vec!["ict_server", "--config=other.toml"],
        vec!["ict_server", "-cother.toml"],
    ] {
        assert_eq!(
            load_args(&argv(&line)),
            Ok(Args {
                config: "other.toml".to_string(),
                operation: None,
            }),
            "{:?}",
            line
        );
    }
}

#[test]
fn a_command_line_names_one_operation() {
    let uuid = "a1a2a3a4-b1b2-c1c2-d1d2-d3d4d5d6d7d8";
    let cases = vec![
        (
            vec!["register", uuid, "-----BEGIN PUBLIC KEY-----"],
            Operation::Register {
                uuid: uuid.to_string(),
                public_key: "-----BEGIN PUBLIC KEY-----".to_string(),
            },
        ),
        (
            vec!["authorize", uuid],
            Operation::Authorize {
                uuid: uuid.to_string(),
            },
        ),
        (
            vec!["unauthorize", uuid],
            Operation::Unauthorize {
                uuid: uuid.to_string(),
            },
        ),
        (
            vec!["delete", uuid],
            Operation::Delete {
                uuid: uuid.to_string(),
            },
        ),
        (
            vec!["operate", uuid, "{\"token\":\"1\"}", "c2ln"],
            Operation::Operate {
                uuid: uuid.to_string(),
                message: "{\"token\":\"1\"}".to_string(),
                signature: "c2ln".to_string(),
            },
        ),
        (vec!["list-clients"], Operation::ListClients),
        (
            vec!["describe-client", uuid],
            Operation::DescribeClient {
                uuid: uuid.to_string(),
            },
        ),
        (
            vec!["associate-relay", uuid, "255"],
            Operation::AssociateRelay {
                uuid: uuid.to_string(),
                relay: 255,
            },
        ),
        (
            vec!["clear-relays", uuid],
            Operation::ClearRelays {
                uuid: uuid.to_string(),
            },
        ),
        (vec!["serve", "8080"], Operation::Serve { port: 8080 }),
    ];
    for (words, operation) in cases {
        assert_eq!(
            Operation::from_words(&argv(&words)),
            Some(operation.clone()),
            "{:?}",
            words
        );
        let mut line = vec!["ict_server", "-c", "x.toml"];
        line.extend(words.iter());
        assert_eq!(
            load_args(&argv(&line)),
            Ok(Args {
                config: "x.toml".to_string(),
                operation: Some(operation),
            }),
            "{:?}",
            line
        );
    }
}

#[test]
fn words_that_name_no_operation_are_refused() {
    let uuid = "a1a2a3a4-b1b2-c1c2-d1d2-d3d4d5d6d7d8";
    for words in [
        vec![],
        vec!["launch"],
        vec!["Register", uuid, "key"],
        vec!["register", uuid],
        vec!["register", uuid, "key", "more"],
        vec!["authorize"],
        vec!["list-clients", uuid],
        vec!["operate", uuid, "message"],
        vec!["associate-relay", uuid, "256"],
        vec!["associate-relay", uuid, "-1"],
        vec!["associate-relay", uuid, "+1"],
        vec!["associate-relay", uuid, "1 "],
        vec!["associate-relay", uuid, ""],
        vec!["associate-relay", uuid, "x"],
        vec!["serve", "4294967296"],
        vec!["serve"],
    ] {
        assert_eq!(Operation::from_words(&argv(&words)), None, "{:?}", words);
    }
    let refused = load_args(&argv(&["ict_server", "launch"])).unwrap_err();
    assert_eq!(refused.code, 2);
    assert!(!refused.text.is_empty());
}

#[test]
fn a_command_line_that_clap_refuses_is_refused() {
    let unknown = load_args(&argv(&["ict_server", "--verbose"])).unwrap_err();
    assert_eq!(unknown.code, 2);
    assert!(unknown.text.contains("--verbose"));

    let missing = load_args(&argv(&["ict_server", "--config"])).unwrap_err();
    assert_eq!(missing.code, 2);

    let help = load_args(&argv(&["ict_server", "--help"])).unwrap_err();
    assert_eq!(help.code, 0);
    assert!(help.text.contains("Runs the ICT server"));
    assert!(help.text.contains("PATH-TO-FILE"));
    assert!(help.text.contains("configs/ict_server.toml"));
}

#[test]
fn numbers_are_read_in_decimal_digits() {
    assert_eq!(parse_decimal("0", 255), Some(0));
    assert_eq!(parse_decimal("7", 255), Some(7));
    assert_eq!(parse_decimal("007", 255), Some(7));
    assert_eq!(parse_decimal("255", 255), Some(255));
    assert_eq!(parse_decimal("256", 255), None);
    assert_eq!(parse_decimal("4294967295", u32::MAX), Some(u32::MAX));
    assert_eq!(parse_decimal("4294967296", u32::MAX), None);
    assert_eq!(parse_decimal("99999999999999999999999", u32::MAX), None);
    assert_eq!(parse_decimal("", 255), None);
    assert_eq!(parse_decimal("12a", 255), None);
    assert_eq!(parse_decimal("a12", 255), None);
    assert_eq!(parse_decimal("1.5", 255), None);
    assert_eq!(parse_decimal("\u{0663}", 255), None);
    assert_eq!(parse_decimal("9999x", 255), None);
}

#[test]
fn the_hash_is_selected_by_name() {
    assert_eq!(algorithm_of(&"sha1".to_string()), Algorithm::SHA1);
    assert_eq!(algorithm_of(&"sha512".to_string()), Algorithm::SHA512);
    assert_eq!(algorithm_of(&"sha256".to_string()), Algorithm::SHA256);
    assert_eq!(algorithm_of(&"".to_string()), Algorithm::SHA256);
    assert_eq!(algorithm_of(&"SHA1".to_string()), Algorithm::SHA256);
    assert_eq!(algorithm_of(&"sha-512".to_string()), Algorithm::SHA256);

    let settings = Settings {
        database: Database {
            path: "devices.db".to_string(),
        },
        totp: Totp {
            sha: "sha512".to_string(),
        },
        logs: Logs {
            level: "info".to_string(),
        },
        pi: Pi { close_duration: 5 },
    };
    assert_eq!(settings.totp.algorithm(), Algorithm::SHA512);
    assert_eq!(settings.clone().pi.close_duration, 5);
}

#[test]
fn every_failure_has_a_message_and_a_status() {
    let expected = [
        ("Invalid UUID", 400),
        ("Invalid public key", 400),
        ("Failed to decode base64 signature", 400),
        ("No device with that uuid found", 400),
        ("A device with that uuid is already registered", 400),
        (
            "Will not operate a device/client that is not authorized",
            400,
        ),
        ("Message signature verification failed", 400),
        ("Failed to parse JSON message", 400),
        ("TOTP token is not valid", 400),
        ("RSA issue", 400),
        ("TOTP error", 400),
        ("System Time error", 500),
        ("Storage error: disk full", 500),
    ];
    for (e, (message, status)) in every_error().iter().zip(expected) {
        assert_eq!(e.message(), message);
        assert_eq!(e.status(), status);
    }
}

#[test]
fn requests_are_routed_by_method_and_path() {
    assert_eq!(route("POST", "/register"), Route::Register);
    assert_eq!(route("POST", "/operate"), Route::Operate);
    assert_eq!(route("GET", "/stats"), Route::Stats);
    assert_eq!(route("GET", "/register"), Route::Unknown);
    assert_eq!(route("GET", "/operate"), Route::Unknown);
    assert_eq!(route("POST", "/stats"), Route::Unknown);
    assert_eq!(route("post", "/register"), Route::Unknown);
    assert_eq!(route("POST", "/register/"), Route::Unknown);
    assert_eq!(route("GET", "/"), Route::Unknown);
    assert_eq!(route("", ""), Route::Unknown);
}

#[test]
fn a_refused_operate_request_does_not_tell_why() {
    assert_eq!(
        operate_reply(&Ok(true)),
        Reply::Text(200, "Operate successful".to_string())
    );
    assert_eq!(
        operate_reply(&Ok(false)),
        Reply::Text(400, "Operate Failed".to_string())
    );
    for e in every_error() {
        let reply = operate_reply(&Err(e.clone()));
        if e.status() == 400 {
            assert_eq!(reply, Reply::Text(400, "Operate Failed".to_string()));
        } else {
            assert_eq!(reply, Reply::Text(500, "Server Failure".to_string()));
        }
    }
}

#[test]
fn a_registration_is_answered_with_the_wrapped_secret() {
    assert_eq!(
        register_reply(&Ok("c2VjcmV0".to_string())),
        Reply::Secret("c2VjcmV0".to_string())
    );
    assert_eq!(
        register_reply(&Err(ICTError::Conflict)),
        Reply::Text(400, "Registration Failed".to_string())
    );
    assert_eq!(
        register_reply(&Err(ICTError::InvalidKey)),
        Reply::Text(400, "Registration Failed".to_string())
    );
    assert_eq!(
        register_reply(&Err(ICTError::Storage("locked".to_string()))),
        Reply::Text(500, "Server Failure".to_string())
    );
}

#[test]
fn the_other_replies_are_fixed() {
    assert_eq!(
        invalid_json_reply(),
        Reply::Text(400, "Invalid JSON".to_string())
    );
    assert_eq!(
        stats_reply(),
        Reply::Text(200, "Server up and running".to_string())
    );
    assert_eq!(unknown_reply(), Reply::Text(404, "".to_string()));
}

use rdkafka::config::{ClientConfig, RDKafkaLogLevel};
use slatedb_wal_bench::config::{EnvVar, KafkaBenchmarkConfig, KafkaInputs};
use slatedb_wal_bench::kafka::{
    check_admin_oauth_token, create_topic, generate_oauth_token, installed_admin_oauth_token,
    topic_request, AdminTokenError, OAuthGrant, TokenError, TokenGeneration, TopicCreation,
    TopicError, TopicOutcome, TopicReply, NO_ERROR,
};

fn kafka(contents: &str) -> KafkaBenchmarkConfig {
    let inputs = KafkaInputs {
        properties_path: "client.properties".to_string(),
        properties: Ok(contents.to_string()),
        bootstrap_servers: EnvVar::Value("broker:9098".to_string()),
        commit_interval_ms: EnvVar::Unset,
        topic_prefix: EnvVar::Unset,
    };
    KafkaBenchmarkConfig::from_env("run", inputs).unwrap()
}

#[test]
fn java_settings_become_oauth() {
    let config = kafka(
        "security.protocol=PLAINTEXT\n\
         sasl.mechanism=AWS_MSK_IAM\n\
         sasl.jaas.config=software.amazon.msk.auth.iam.IAMLoginModule required;\n\
         sasl.client.callback.handler.class=software.amazon.msk.auth.iam.IAMClientCallbackHandler\n\
         sasl.login.callback.handler.class=Handler\n\
         bootstrap.servers=file:1\n\
         fetch.wait.max.ms=10\n",
    );
    let client = config.client_config(&EnvVar::Unset);
    assert_eq!(client.get("bootstrap.servers"), Some("broker:9098"));
    assert_eq!(client.get("security.protocol"), Some("SASL_SSL"));
    assert_eq!(client.get("sasl.mechanism"), Some("OAUTHBEARER"));
    assert_eq!(client.get("fetch.wait.max.ms"), Some("10"));
    assert_eq!(client.get("sasl.jaas.config"), None);
    assert_eq!(client.get("sasl.client.callback.handler.class"), None);
    assert_eq!(client.get("sasl.login.callback.handler.class"), None);
    assert_eq!(client.get("debug"), None);
    assert_eq!(client.config_map().len(), 4);
    assert_eq!(client.log_level as i32, ClientConfig::new().log_level as i32);
}

#[test]
fn debugging_reaches_the_client() {
    let config = kafka("debug=file\nretries=3");
    let client = config.client_config(&EnvVar::Value("security,broker".to_string()));
    assert_eq!(client.get("debug"), Some("security,broker"));
    assert_eq!(client.get("retries"), Some("3"));
    assert_eq!(client.log_level as i32, RDKafkaLogLevel::Debug as i32);
    assert_eq!(client.config_map().len(), 5);

    let client = config.client_config(&EnvVar::NotUnicode);
    assert_eq!(client.get("debug"), Some("file"));
    assert_eq!(client.log_level as i32, ClientConfig::new().log_level as i32);
}

#[test]
fn tokens_become_grants() {
    let grant = generate_oauth_token(TokenGeneration::Generated {
        token: "t".to_string(),
        lifetime_ms: 900_000,
    })
    .unwrap();
    assert_eq!(grant.token, "t");
    assert_eq!(grant.principal_name, "");
    assert_eq!(grant.lifetime_ms, 900_000);
}

#[test]
fn failed_tokens_are_reported() {
    let panicked = generate_oauth_token(TokenGeneration::ThreadPanicked).unwrap_err();
    assert!(matches!(panicked, TokenError::ThreadPanicked));
    assert_eq!(panicked.message(), "MSK OAuth token thread panicked");
    let late = generate_oauth_token(TokenGeneration::TimedOut {
        cause: "deadline has elapsed".to_string(),
    })
    .unwrap_err();
    assert_eq!(
        late.message(),
        "MSK OAuth token generation timed out: deadline has elapsed"
    );
    let failed = generate_oauth_token(TokenGeneration::Failed {
        cause: "no credentials".to_string(),
    })
    .unwrap_err();
    assert_eq!(failed.message(), "no credentials");
}

#[test]
fn null_characters_stop_a_token() {
    let grant = |token: &str, principal_name: &str| OAuthGrant {
        token: token.to_string(),
        principal_name: principal_name.to_string(),
        lifetime_ms: 1,
    };
    assert!(check_admin_oauth_token(&grant("t", "p")).is_ok());
    let error = check_admin_oauth_token(&grant("t\0", "\0")).unwrap_err();
    assert!(matches!(error, AdminTokenError::NullInToken));
    assert_eq!(error.message(), "MSK token contains a null byte");
    let error = check_admin_oauth_token(&grant("t", "p\0")).unwrap_err();
    assert!(matches!(error, AdminTokenError::NullInPrincipal));
    assert_eq!(error.message(), "MSK principal contains a null byte");
}

#[test]
fn refused_tokens_are_reported() {
    let code = rdkafka::types::RDKafkaRespErr::RD_KAFKA_RESP_ERR_NO_ERROR as i32;
    assert_eq!(code, NO_ERROR);
    assert!(installed_admin_oauth_token(code, "n".to_string(), "m".to_string()).is_ok());
    let error =
        installed_admin_oauth_token(-186, "INVALID_ARG".to_string(), "bad".to_string()).unwrap_err();
    assert_eq!(
        error.message(),
        "failed to install MSK OAuth token on admin client (INVALID_ARG): bad"
    );
}

#[test]
fn one_reply_decides_on_a_topic() {
    assert_eq!(
        create_topic("t", TopicOutcome::Replied(vec![TopicReply::Created])).unwrap(),
        "Created one-partition Kafka topic: t"
    );
    for replies in [vec![], vec![TopicReply::Created, TopicReply::Created]] {
        let error = create_topic("t", TopicOutcome::Replied(replies)).unwrap_err();
        assert!(matches!(error, TopicError::NoReply));
        assert_eq!(error.message(), "Kafka returned no topic creation result");
    }
    let refused = TopicReply::Refused {
        name: "t".to_string(),
        error: "TopicAlreadyExists".to_string(),
    };
    assert_eq!(
        create_topic("t", TopicOutcome::Replied(vec![refused])).unwrap_err().message(),
        "failed to create Kafka topic t: TopicAlreadyExists"
    );
}

#[test]
fn failed_topic_requests_are_reported() {
    let cause = || "cause".to_string();
    for (outcome, expected) in [
        (TopicOutcome::TimedOut { cause: cause() }, "timed out creating the Kafka topic"),
        (TopicOutcome::Failed { cause: cause() }, "Kafka topic creation request failed"),
    ] {
        let error = create_topic("t", outcome).unwrap_err();
        assert_eq!(error.message(), expected);
        assert!(matches!(
            error,
            TopicError::TimedOut { cause } | TopicError::Failed { cause } if cause == "cause"
        ));
    }
}

fn creation(token: &str) -> TopicCreation {
    let grant = OAuthGrant {
        token: token.to_string(),
        principal_name: String::new(),
        lifetime_ms: 5,
    };
    TopicCreation::new("t", grant)
}

#[test]
fn one_partition_is_asked_for() {
    let request = topic_request("bench-run");
    assert_eq!(request.name, "bench-run");
    assert_eq!(request.partitions, 1);
    assert_eq!(request.replication, -1);
    assert_eq!(request.operation_timeout_seconds, 30);
    assert_eq!(request.request_timeout_seconds, 30);
}

#[test]
fn topics_are_asked_for_with_an_accepted_token() {
    let installation = creation("secret").client(Ok(())).unwrap();
    assert_eq!(installation.grant().token, "secret");
    assert_eq!(installation.grant().lifetime_ms, 5);
    let submission = installation.installed(NO_ERROR, String::new(), String::new()).unwrap();
    assert_eq!(submission.request().name, "t");
    assert_eq!(
        submission.ended(TopicOutcome::Replied(vec![TopicReply::Created])).unwrap(),
        "Created one-partition Kafka topic: t"
    );
}

#[test]
fn nothing_is_asked_for_without_a_client_or_a_token() {
    let error = creation("t").client(Err("no broker".to_string())).unwrap_err();
    assert_eq!(error.message(), "failed to create the Kafka admin client");
    assert!(matches!(error, TopicError::NoClient { cause } if cause == "no broker"));

    let error = creation("a\0b").client(Ok(())).unwrap_err();
    assert_eq!(error.message(), "MSK token contains a null byte");
    assert!(matches!(error, TopicError::Token(AdminTokenError::NullInToken)));

    let refused = creation("t").client(Ok(())).unwrap().installed(
        -186,
        "INVALID_ARG".to_string(),
        "bad".to_string(),
    );
    assert_eq!(
        refused.unwrap_err().message(),
        "failed to install MSK OAuth token on admin client (INVALID_ARG): bad"
    );
}

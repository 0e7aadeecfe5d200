//! Settings and replies of the Kafka client.

use rdkafka::config::{ClientConfig, RDKafkaLogLevel};
use vstd::prelude::*;

use crate::config::{EnvVar, EnvView, KafkaBenchmarkConfig, KafkaConfigView};
use crate::text::{contains_char, same_text};

verus! {

// ---------------------------------------------------------------------------
// Client settings
// ---------------------------------------------------------------------------

/// The settings of a Kafka client.
#[verifier::external_type_specification]
#[verifier::external_body]
pub struct ExClientConfig(ClientConfig);

/// The settings that were given to a client configuration, by key.
pub uninterp spec fn client_entries(config: ClientConfig) -> Map<Seq<char>, Seq<char>>;

/// The log level of a client configuration, as a number from 0 to 7.
pub uninterp spec fn client_log_level(config: ClientConfig) -> int;

/// The log levels of librdkafka.
#[derive(Clone, Copy, Debug, PartialEq, Eq, Structural)]
pub enum KafkaLogLevel {
    Emerg,
    Alert,
    Critical,
    Error,
    Warning,
    Notice,
    Info,
    Debug,
}

/// A log level as a number.
pub open spec fn level_number(level: KafkaLogLevel) -> int {
    match level {
        KafkaLogLevel::Emerg => 0,
        KafkaLogLevel::Alert => 1,
        KafkaLogLevel::Critical => 2,
        KafkaLogLevel::Error => 3,
        KafkaLogLevel::Warning => 4,
        KafkaLogLevel::Notice => 5,
        KafkaLogLevel::Info => 6,
        KafkaLogLevel::Debug => 7,
    }
}

/// Calls `rdkafka::config::ClientConfig::new`, which makes an empty configuration.
///
/// Claimed: it holds no settings. Its log level follows the logger of the process and is left
/// unsaid.
#[verifier::external_body]
fn new_client_config() -> (res: ClientConfig)
    ensures
        forall|key: Seq<char>| !#[trigger] client_entries(res).contains_key(key),
{
    ClientConfig::new()
}

/// Calls `rdkafka::config::ClientConfig::set`, which gives one setting a value.
///
/// Claimed: the value takes the place of the one that the key had, and nothing else changes.
#[verifier::external_body]
fn set_entry(config: &mut ClientConfig, key: &str, value: &str)
    ensures
        client_entries(*final(config)) == client_entries(*old(config)).insert(key@, value@),
        client_log_level(*final(config)) == client_log_level(*old(config)),
{
    config.set(key, value);
}

/// Calls `rdkafka::config::ClientConfig::set_log_level`, which sets the log level.
///
/// Claimed: the configuration has that log level afterwards, and its settings do not change.
#[verifier::external_body]
fn set_log_level(config: &mut ClientConfig, level: KafkaLogLevel)
    ensures
        client_entries(*final(config)) == client_entries(*old(config)),
        client_log_level(*final(config)) == level_number(level),
{
    config.set_log_level(match level {
        KafkaLogLevel::Emerg => RDKafkaLogLevel::Emerg,
        KafkaLogLevel::Alert => RDKafkaLogLevel::Alert,
        KafkaLogLevel::Critical => RDKafkaLogLevel::Critical,
        KafkaLogLevel::Error => RDKafkaLogLevel::Error,
        KafkaLogLevel::Warning => RDKafkaLogLevel::Warning,
        KafkaLogLevel::Notice => RDKafkaLogLevel::Notice,
        KafkaLogLevel::Info => RDKafkaLogLevel::Info,
        KafkaLogLevel::Debug => RDKafkaLogLevel::Debug,
    });
}

/// Whether a setting names Java classes, or the mechanism that goes with them; librdkafka cannot
/// use it.
pub open spec fn java_setting(key: Seq<char>) -> bool {
    ||| key == "sasl.jaas.config"@
    ||| key == "sasl.client.callback.handler.class"@
    ||| key == "sasl.login.callback.handler.class"@
    ||| key == "sasl.mechanism"@
}

fn is_java_setting(key: &str) -> (res: bool)
    ensures
        res == java_setting(key@),
{
    same_text(key, "sasl.jaas.config") || same_text(key, "sasl.client.callback.handler.class")
        || same_text(key, "sasl.login.callback.handler.class") || same_text(key, "sasl.mechanism")
}

/// The properties that are handed on to the client.
pub open spec fn usable(properties: Map<Seq<char>, Seq<char>>) -> Map<Seq<char>, Seq<char>> {
    Map::new(
        |key: Seq<char>| properties.contains_key(key) && !java_setting(key),
        |key: Seq<char>| properties[key],
    )
}

/// The settings of the client: the usable properties, then the brokers and how to log on to
/// them, then what `KAFKA_DEBUG` asks for.
pub open spec fn client_settings(config: KafkaConfigView, debug: EnvView) -> Map<
    Seq<char>,
    Seq<char>,
> {
    let settings = usable(config.client_properties).insert(
        "bootstrap.servers"@,
        config.bootstrap_servers,
    ).insert("security.protocol"@, "SASL_SSL"@).insert("sasl.mechanism"@, "OAUTHBEARER"@);
    match debug {
        EnvView::Value(facilities) => settings.insert("debug"@, facilities),
        _ => settings,
    }
}

impl KafkaBenchmarkConfig {
    /// The configuration of the Kafka client, where `debug` is the variable `KAFKA_DEBUG`.
    pub fn client_config(&self, debug: &EnvVar) -> (config: ClientConfig)
        ensures
            client_entries(config) == client_settings(self@, debug@),
            debug@ is Value ==> client_log_level(config) == level_number(KafkaLogLevel::Debug),
            debug@ is Value ==> client_log_level(config) == 7,
    {
        let mut config = new_client_config();
        let len = self.client_properties.len();
        let ghost entries = self.client_properties.entries();
        let mut i: usize = 0;
        assert(client_entries(config) =~= usable(crate::properties::entries_map(entries.take(0))));
        while i < len
            invariant
                i <= len == entries.len(),
                entries == self.client_properties.entries(),
                client_entries(config) == usable(
                    crate::properties::entries_map(entries.take(i as int)),
                ),
            decreases len - i,
        {
            let (key, value) = self.client_properties.entry(i);
            let ghost before = crate::properties::entries_map(entries.take(i as int));
            let ghost after = crate::properties::entries_map(entries.take(i + 1));
            assert(entries.take(i + 1).drop_last() == entries.take(i as int));
            assert(after == before.insert(key@, value@));
            if !is_java_setting(key) {
                set_entry(&mut config, key, value);
                assert(usable(before).insert(key@, value@) =~= usable(after));
            } else {
                assert(usable(before) =~= usable(after));
            }
            i += 1;
        }
        assert(entries.take(i as int) == entries);
        set_entry(&mut config, "bootstrap.servers", self.bootstrap_servers.as_str());
        set_entry(&mut config, "security.protocol", "SASL_SSL");
        set_entry(&mut config, "sasl.mechanism", "OAUTHBEARER");
        match debug {
            EnvVar::Value(facilities) => {
                set_entry(&mut config, "debug", facilities.as_str());
                set_log_level(&mut config, KafkaLogLevel::Debug);
            },
            _ => {},
        }
        config
    }
}

/// Whatever the properties file says, the client talks to the configured brokers, with OAuth
/// tokens over TLS, and is given no Java setting.
pub proof fn client_logs_on_with_oauth(config: KafkaConfigView, debug: EnvView)
    ensures
        client_settings(config, debug).contains_key("bootstrap.servers"@),
        client_settings(config, debug)["bootstrap.servers"@] == config.bootstrap_servers,
        client_settings(config, debug).contains_key("security.protocol"@),
        client_settings(config, debug)["security.protocol"@] == "SASL_SSL"@,
        client_settings(config, debug).contains_key("sasl.mechanism"@),
        client_settings(config, debug)["sasl.mechanism"@] == "OAUTHBEARER"@,
        !client_settings(config, debug).contains_key("sasl.jaas.config"@),
        !client_settings(config, debug).contains_key("sasl.client.callback.handler.class"@),
        !client_settings(config, debug).contains_key("sasl.login.callback.handler.class"@),
{
    reveal_strlit("bootstrap.servers");
    reveal_strlit("security.protocol");
    reveal_strlit("sasl.mechanism");
    reveal_strlit("debug");
    reveal_strlit("sasl.jaas.config");
    reveal_strlit("sasl.client.callback.handler.class");
    reveal_strlit("sasl.login.callback.handler.class");
    let brokers = "bootstrap.servers"@;
    let protocol = "security.protocol"@;
    assert(brokers[0] != protocol[0]);
    assert("sasl.mechanism"@.len() == 14);
    assert("debug"@.len() == 5);
    assert("sasl.jaas.config"@.len() == 16);
    assert("sasl.client.callback.handler.class"@.len() == 34);
    assert("sasl.login.callback.handler.class"@.len() == 33);
    assert(brokers.len() == 17);
    assert(protocol.len() == 17);
}

/// Every property but the four that name Java classes or their mechanism, and those that the run sets
/// itself, reaches the client as it stands in the file, and nothing else does.
pub proof fn other_properties_reach_the_client(
    config: KafkaConfigView,
    debug: EnvView,
    key: Seq<char>,
)
    requires
        key != "sasl.jaas.config"@,
        key != "sasl.client.callback.handler.class"@,
        key != "sasl.login.callback.handler.class"@,
        key != "sasl.mechanism"@,
        key != "bootstrap.servers"@,
        key != "security.protocol"@,
        key != "debug"@ || !(debug is Value),
    ensures
        client_settings(config, debug).contains_key(key) == config.client_properties.contains_key(
            key,
        ),
        config.client_properties.contains_key(key) ==> client_settings(config, debug)[key]
            == config.client_properties[key],
{
}

/// Where `KAFKA_DEBUG` names facilities, the client is given them, whatever the file says.
pub proof fn debugging_is_handed_on(config: KafkaConfigView, facilities: Seq<char>)
    ensures
        client_settings(config, EnvView::Value(facilities)).contains_key("debug"@),
        client_settings(config, EnvView::Value(facilities))["debug"@] == facilities,
{
}

// ---------------------------------------------------------------------------
// Tokens
// ---------------------------------------------------------------------------

/// How long the generation of an OAuth token may take.
pub const OAUTH_TOKEN_TIMEOUT_SECONDS: u64 = 10;

/// How the generation of an OAuth token ended.
#[derive(Debug)]
pub enum TokenGeneration {
    /// The thread that generated it panicked.
    ThreadPanicked,
    /// It took too long.
    TimedOut { cause: String },
    /// It failed.
    Failed { cause: String },
    /// There is a token.
    Generated { token: String, lifetime_ms: i64 },
}

/// What a client logs on with.
#[derive(Debug)]
pub struct OAuthGrant {
    pub token: String,
    pub principal_name: String,
    pub lifetime_ms: i64,
}

/// Why there is no OAuth token.
#[derive(Debug)]
pub enum TokenError {
    ThreadPanicked,
    TimedOut { cause: String },
    Failed { cause: String },
}

impl TokenError {
    /// The error in words.
    pub open spec fn text(self) -> Seq<char> {
        match self {
            TokenError::ThreadPanicked => "MSK OAuth token thread panicked"@,
            TokenError::TimedOut { cause } => "MSK OAuth token generation timed out: "@ + cause@,
            TokenError::Failed { cause } => cause@,
        }
    }

    /// The error in words.
    pub fn message(&self) -> (text: String)
        ensures
            text@ == self.text(),
    {
        match self {
            TokenError::ThreadPanicked => "MSK OAuth token thread panicked".to_owned(),
            TokenError::TimedOut { cause } => {
                let mut text = "MSK OAuth token generation timed out: ".to_owned();
                text.append(cause.as_str());
                text
            },
            TokenError::Failed { cause } => cause.clone(),
        }
    }
}

/// What a client logs on with, by how the generation of its token ended. The brokers take the
/// principal from the token, so none is named.
pub fn generate_oauth_token(generation: TokenGeneration) -> (res: Result<OAuthGrant, TokenError>)
    ensures
        match generation {
            TokenGeneration::ThreadPanicked => res == Err::<OAuthGrant, TokenError>(
                TokenError::ThreadPanicked,
            ),
            TokenGeneration::TimedOut { cause } => res == Err::<OAuthGrant, TokenError>(
                TokenError::TimedOut { cause },
            ),
            TokenGeneration::Failed { cause } => res == Err::<OAuthGrant, TokenError>(
                TokenError::Failed { cause },
            ),
            TokenGeneration::Generated { token, lifetime_ms } => {
                &&& res matches Ok(grant)
                &&& grant.token == token
                &&& grant.principal_name@.len() == 0
                &&& grant.lifetime_ms == lifetime_ms
            },
        },
{
    match generation {
        TokenGeneration::ThreadPanicked => Err(TokenError::ThreadPanicked),
        TokenGeneration::TimedOut { cause } => Err(TokenError::TimedOut { cause }),
        TokenGeneration::Failed { cause } => Err(TokenError::Failed { cause }),
        TokenGeneration::Generated { token, lifetime_ms } => Ok(
            OAuthGrant { token, principal_name: String::new(), lifetime_ms },
        ),
    }
}

/// The reply of librdkafka that says that nothing went wrong.
pub const NO_ERROR: i32 = 0;

/// Why a token could not be given to the admin client.
#[derive(Debug)]
pub enum AdminTokenError {
    /// The token holds a null character, which ends a string for librdkafka.
    NullInToken,
    /// So does the name of the principal.
    NullInPrincipal,
    /// librdkafka refused the token.
    Refused { code: String, message: String },
}

impl AdminTokenError {
    /// The error in words.
    pub open spec fn text(self) -> Seq<char> {
        match self {
            AdminTokenError::NullInToken => "MSK token contains a null byte"@,
            AdminTokenError::NullInPrincipal => "MSK principal contains a null byte"@,
            AdminTokenError::Refused { code, message } =>
                "failed to install MSK OAuth token on admin client ("@ + code@ + "): "@ + message@,
        }
    }

    /// The error in words.
    pub fn message(&self) -> (text: String)
        ensures
            text@ == self.text(),
    {
        match self {
            AdminTokenError::NullInToken => "MSK token contains a null byte".to_owned(),
            AdminTokenError::NullInPrincipal => "MSK principal contains a null byte".to_owned(),
            AdminTokenError::Refused { code, message } => {
                let mut text = "failed to install MSK OAuth token on admin client (".to_owned();
                text.append(code.as_str());
                text.append("): ");
                text.append(message.as_str());
                text
            },
        }
    }
}

/// Whether a token can be given to the admin client.
pub fn check_admin_oauth_token(grant: &OAuthGrant) -> (res: Result<(), AdminTokenError>)
    ensures
        res == (if grant.token@.contains('\0') {
            Err(AdminTokenError::NullInToken)
        } else if grant.principal_name@.contains('\0') {
            Err(AdminTokenError::NullInPrincipal)
        } else {
            Ok::<(), AdminTokenError>(())
        }),
{
    if contains_char(grant.token.as_str(), '\0') {
        Err(AdminTokenError::NullInToken)
    } else if contains_char(grant.principal_name.as_str(), '\0') {
        Err(AdminTokenError::NullInPrincipal)
    } else {
        Ok(())
    }
}

/// What the reply of librdkafka to a token comes to; `name` is what the code is called, and
/// `message` what librdkafka says of it.
pub fn installed_admin_oauth_token(code: i32, name: String, message: String) -> (res: Result<
    (),
    AdminTokenError,
>)
    ensures
        res == (if code == NO_ERROR {
            Ok::<(), AdminTokenError>(())
        } else {
            Err(AdminTokenError::Refused { code: name, message })
        }),
{
    if code == NO_ERROR {
        Ok(())
    } else {
        Err(AdminTokenError::Refused { code: name, message })
    }
}

// ---------------------------------------------------------------------------
// Topics
// ---------------------------------------------------------------------------

/// How long the creation of a topic may take.
pub const ADMIN_TIMEOUT_SECONDS: u64 = 30;

/// How many partitions a topic has: the log of a run is one sequence.
pub const TOPIC_PARTITIONS: i32 = 1;

/// How many copies of a topic are kept: as many as the brokers do where nothing is asked for.
pub const TOPIC_REPLICATION: i32 = -1;

/// What the brokers say of one topic that they were asked to create.
#[derive(Debug)]
pub enum TopicReply {
    Created,
    Refused { name: String, error: String },
}

/// How the request to create a topic ended.
#[derive(Debug)]
pub enum TopicOutcome {
    /// It took too long.
    TimedOut { cause: String },
    /// It failed.
    Failed { cause: String },
    /// The brokers replied.
    Replied(Vec<TopicReply>),
}

/// Why there is no topic.
#[derive(Debug)]
pub enum TopicError {
    /// There was no client to ask with.
    NoClient { cause: String },
    /// The client was not given a token.
    Token(AdminTokenError),
    TimedOut { cause: String },
    Failed { cause: String },
    /// The brokers did not answer for one topic.
    NoReply,
    /// They refused to create it.
    Refused { name: String, error: String },
}

impl TopicError {
    /// The error in words.
    pub open spec fn text(self) -> Seq<char> {
        match self {
            TopicError::NoClient { .. } => "failed to create the Kafka admin client"@,
            TopicError::Token(error) => error.text(),
            TopicError::TimedOut { .. } => "timed out creating the Kafka topic"@,
            TopicError::Failed { .. } => "Kafka topic creation request failed"@,
            TopicError::NoReply => "Kafka returned no topic creation result"@,
            TopicError::Refused { name, error } => "failed to create Kafka topic "@ + name@ + ": "@
                + error@,
        }
    }

    /// The error in words.
    pub fn message(&self) -> (text: String)
        ensures
            text@ == self.text(),
    {
        match self {
            TopicError::NoClient { .. } => "failed to create the Kafka admin client".to_owned(),
            TopicError::Token(error) => error.message(),
            TopicError::TimedOut { .. } => "timed out creating the Kafka topic".to_owned(),
            TopicError::Failed { .. } => "Kafka topic creation request failed".to_owned(),
            TopicError::NoReply => "Kafka returned no topic creation result".to_owned(),
            TopicError::Refused { name, error } => {
                let mut text = "failed to create Kafka topic ".to_owned();
                text.append(name.as_str());
                text.append(": ");
                text.append(error.as_str());
                text
            },
        }
    }
}

/// What the request to create a topic comes to.
pub open spec fn created(
    topic: Seq<char>,
    outcome: TopicOutcome,
    res: Result<String, TopicError>,
) -> bool {
    match outcome {
        TopicOutcome::TimedOut { cause } => res == Err::<String, TopicError>(
            TopicError::TimedOut { cause },
        ),
        TopicOutcome::Failed { cause } => res == Err::<String, TopicError>(
            TopicError::Failed { cause },
        ),
        TopicOutcome::Replied(replies) => if replies@.len() != 1 {
            res == Err::<String, TopicError>(TopicError::NoReply)
        } else {
            match replies@[0] {
                TopicReply::Created => res matches Ok(line) && line@
                    == "Created one-partition Kafka topic: "@ + topic,
                TopicReply::Refused { name, error } => res == Err::<String, TopicError>(
                    TopicError::Refused { name, error },
                ),
            }
        },
    }
}

/// What the request to create a topic comes to: a line that says that it was created, where the
/// brokers gave one reply and that reply says so.
pub fn create_topic(topic: &str, outcome: TopicOutcome) -> (res: Result<String, TopicError>)
    ensures
        created(topic@, outcome, res),
{
    let mut replies = match outcome {
        TopicOutcome::TimedOut { cause } => return Err(TopicError::TimedOut { cause }),
        TopicOutcome::Failed { cause } => return Err(TopicError::Failed { cause }),
        TopicOutcome::Replied(replies) => replies,
    };
    if replies.len() != 1 {
        return Err(TopicError::NoReply);
    }
    match replies.pop() {
        Some(TopicReply::Created) => {
            let mut line = "Created one-partition Kafka topic: ".to_owned();
            line.append(topic);
            Ok(line)
        },
        Some(TopicReply::Refused { name, error }) => Err(TopicError::Refused { name, error }),
        None => Err(TopicError::NoReply),
    }
}

/// The creation of one topic that the brokers are asked for.
#[derive(Debug)]
pub struct TopicRequest {
    pub name: String,
    pub partitions: i32,
    /// How many copies are kept, or -1 to leave that to the brokers.
    pub replication: i32,
    /// How long the brokers may take for it.
    pub operation_timeout_seconds: u64,
    /// How long the reply may take.
    pub request_timeout_seconds: u64,
}

/// Whether `request` asks for the topic of a run: one of that name, with one partition, with as
/// many copies as the brokers keep by themselves, within half a minute.
pub open spec fn asks_for(request: TopicRequest, topic: Seq<char>) -> bool {
    &&& request.name@ == topic
    &&& request.partitions == 1
    &&& request.replication == -1
    &&& request.operation_timeout_seconds == 30
    &&& request.request_timeout_seconds == 30
}

/// What the brokers are asked for to create the topic of a run.
pub fn topic_request(topic: &str) -> (request: TopicRequest)
    ensures
        asks_for(request, topic@),
        request.name@ == topic@,
        request.partitions == 1,
        request.replication == -1,
        request.operation_timeout_seconds == 30,
        request.request_timeout_seconds == 30,
{
    TopicRequest {
        name: topic.to_owned(),
        partitions: TOPIC_PARTITIONS,
        replication: TOPIC_REPLICATION,
        operation_timeout_seconds: ADMIN_TIMEOUT_SECONDS,
        request_timeout_seconds: ADMIN_TIMEOUT_SECONDS,
    }
}

/// The creation of a topic that waits for a client.
#[derive(Debug)]
pub struct TopicCreation {
    topic: String,
    grant: OAuthGrant,
}

/// The creation of a topic that waits until its client has a token.
#[derive(Debug)]
pub struct TokenInstallation {
    topic: String,
    grant: OAuthGrant,
}

/// The creation of a topic whose client has a token: one request is to be sent.
#[derive(Debug)]
pub struct TopicSubmission {
    topic: String,
}

/// What becomes of the creation of a topic when there is a client for it, or none.
pub open spec fn client_outcome(
    creation: TopicCreation,
    client: Result<(), String>,
    res: Result<TokenInstallation, TopicError>,
) -> bool {
    match client {
        Err(cause) => res == Err::<TokenInstallation, TopicError>(TopicError::NoClient { cause }),
        Ok(_) => if creation.to_install().token@.contains('\0') {
            res == Err::<TokenInstallation, TopicError>(
                TopicError::Token(AdminTokenError::NullInToken),
            )
        } else if creation.to_install().principal_name@.contains('\0') {
            res == Err::<TokenInstallation, TopicError>(
                TopicError::Token(AdminTokenError::NullInPrincipal),
            )
        } else {
            &&& res matches Ok(next)
            &&& next.name() == creation.name()
            &&& next.to_install() == creation.to_install()
        },
    }
}

/// What becomes of the creation of a topic when librdkafka has replied to the token.
pub open spec fn token_outcome(
    installation: TokenInstallation,
    code: i32,
    name: String,
    message: String,
    res: Result<TopicSubmission, TopicError>,
) -> bool {
    if code == NO_ERROR {
        res matches Ok(next) && next.name() == installation.name()
    } else {
        res == Err::<TopicSubmission, TopicError>(
            TopicError::Token(AdminTokenError::Refused { code: name, message }),
        )
    }
}

impl TopicCreation {
    /// Name of the topic.
    pub closed spec fn name(&self) -> Seq<char> {
        self.topic@
    }

    /// The token that the client is to log on with.
    pub closed spec fn to_install(&self) -> OAuthGrant {
        self.grant
    }

    /// Starts to create a topic, with a client that logs on with `grant`.
    pub fn new(topic: &str, grant: OAuthGrant) -> (res: TopicCreation)
        ensures
            res.name() == topic@,
            res.to_install() == grant,
    {
        TopicCreation { topic: topic.to_owned(), grant }
    }

    /// Takes whether there is a client.
    pub fn client(self, client: Result<(), String>) -> (res: Result<TokenInstallation, TopicError>)
        ensures
            client_outcome(self, client, res),
    {
        match client {
            Ok(_) => {},
            Err(cause) => return Err(TopicError::NoClient { cause }),
        }
        match check_admin_oauth_token(&self.grant) {
            Ok(_) => Ok(TokenInstallation { topic: self.topic, grant: self.grant }),
            Err(error) => Err(TopicError::Token(error)),
        }
    }
}

impl TokenInstallation {
    /// Name of the topic.
    pub closed spec fn name(&self) -> Seq<char> {
        self.topic@
    }

    /// The token that the client is to log on with.
    pub closed spec fn to_install(&self) -> OAuthGrant {
        self.grant
    }

    /// The token that is to be given to the client.
    pub fn grant(&self) -> (grant: &OAuthGrant)
        ensures
            *grant == self.to_install(),
    {
        &self.grant
    }

    /// Takes the reply of librdkafka to the token; `name` is what the code is called, and `message`
    /// what librdkafka says of it.
    pub fn installed(self, code: i32, name: String, message: String) -> (res: Result<
        TopicSubmission,
        TopicError,
    >)
        ensures
            token_outcome(self, code, name, message, res),
    {
        match installed_admin_oauth_token(code, name, message) {
            Ok(_) => Ok(TopicSubmission { topic: self.topic }),
            Err(error) => Err(TopicError::Token(error)),
        }
    }
}

impl TopicSubmission {
    /// Name of the topic.
    pub closed spec fn name(&self) -> Seq<char> {
        self.topic@
    }

    /// The one request that is to be sent.
    pub fn request(&self) -> (request: TopicRequest)
        ensures
            asks_for(request, self.name()),
            request.name@ == self.name(),
            request.partitions == 1,
            request.replication == -1,
            request.operation_timeout_seconds == 30,
            request.request_timeout_seconds == 30,
    {
        topic_request(self.topic.as_str())
    }

    /// Takes how the request ended.
    pub fn ended(self, outcome: TopicOutcome) -> (res: Result<String, TopicError>)
        ensures
            created(self.name(), outcome, res),
    {
        create_topic(self.topic.as_str(), outcome)
    }
}

/// A topic is asked for exactly when there is a client, its token can be given to it and librdkafka
/// accepts the token; and it is the topic of the run that is asked for.
pub proof fn request_follows_an_accepted_token(
    creation: TopicCreation,
    client: Result<(), String>,
    found: Result<TokenInstallation, TopicError>,
    code: i32,
    name: String,
    message: String,
    submitted: Result<TopicSubmission, TopicError>,
)
    requires
        client_outcome(creation, client, found),
        found matches Ok(installation) ==> token_outcome(
            installation,
            code,
            name,
            message,
            submitted,
        ),
    ensures
        (found is Ok && submitted is Ok) <==> {
            &&& client is Ok
            &&& !creation.to_install().token@.contains('\0')
            &&& !creation.to_install().principal_name@.contains('\0')
            &&& code == NO_ERROR
        },
        found is Ok && submitted is Ok ==> submitted->Ok_0.name() == creation.name(),
{
}

/// Each thing that stops the creation of a topic before the request is reported as what it is, the
/// client before the token.
pub proof fn what_stops_a_request_is_reported(
    creation: TopicCreation,
    client: Result<(), String>,
    found: Result<TokenInstallation, TopicError>,
    installation: TokenInstallation,
    code: i32,
    name: String,
    message: String,
    submitted: Result<TopicSubmission, TopicError>,
)
    requires
        client_outcome(creation, client, found),
        token_outcome(installation, code, name, message, submitted),
    ensures
        client matches Err(cause) ==> found == Err::<TokenInstallation, TopicError>(
            TopicError::NoClient { cause },
        ),
        client is Ok && creation.to_install().token@.contains('\0') ==> found == Err::<
            TokenInstallation,
            TopicError,
        >(TopicError::Token(AdminTokenError::NullInToken)),
        client is Ok && !creation.to_install().token@.contains('\0')
            && creation.to_install().principal_name@.contains('\0') ==> found == Err::<
            TokenInstallation,
            TopicError,
        >(TopicError::Token(AdminTokenError::NullInPrincipal)),
        found matches Ok(next) ==> next.name() == creation.name() && next.to_install()
            == creation.to_install(),
        code == 0 ==> (submitted matches Ok(next) && next.name() == installation.name()),
        code != 0 ==> submitted == Err::<TopicSubmission, TopicError>(
            TopicError::Token(AdminTokenError::Refused { code: name, message }),
        ),
{
}

/// One reply that says so makes a topic; a reply that refuses it, any other number of replies, a
/// request that failed and one that took too long are each reported as what they are.
pub proof fn one_reply_makes_a_topic(
    topic: Seq<char>,
    outcome: TopicOutcome,
    res: Result<String, TopicError>,
    cause: String,
)
    requires
        created(topic, outcome, res),
    ensures
        res is Ok <==> (outcome matches TopicOutcome::Replied(replies) && replies@.len() == 1
            && replies@[0] is Created),
        res matches Ok(line) ==> line@ == "Created one-partition Kafka topic: "@ + topic,
        outcome == (TopicOutcome::TimedOut { cause }) ==> res == Err::<String, TopicError>(
            TopicError::TimedOut { cause },
        ),
        outcome == (TopicOutcome::Failed { cause }) ==> res == Err::<String, TopicError>(
            TopicError::Failed { cause },
        ),
        outcome matches TopicOutcome::Replied(replies) && replies@.len() != 1 ==> res == Err::<
            String,
            TopicError,
        >(TopicError::NoReply),
        outcome matches TopicOutcome::Replied(replies) && replies@.len() == 1 && replies@[0]
            is Refused ==> res == Err::<String, TopicError>(
            TopicError::Refused {
                name: outcome->Replied_0@[0]->name,
                error: outcome->Replied_0@[0]->error,
            },
        ),
{
}

} // verus!

use vstd::prelude::*;
use vstd::string::StringExecFns;

verus! {

/// Resolved service configuration: endpoints and keys, with defaults
/// applied where the environment may omit a value.
#[derive(Debug)]
pub struct Config {
    pub discord_token: String,
    pub cohere_key: String,
    pub pinecone_key: String,
    pub pinecone_host: String,
    pub pinecone_index: String,
    pub namespace: String,
    pub kafka_brokers: String,
    pub kafka_group_id: String,
    pub elasticsearch_url: String,
    pub elasticsearch_index: String,
}

/// A required configuration value that was absent.
#[derive(Debug, Clone, Copy, PartialEq, Eq, Structural)]
pub enum ConfigError {
    MissingDiscordToken,
    MissingCohereApiKey,
    MissingPineconeApiKey,
    MissingPineconeHost,
    MissingPineconeIndex,
    MissingElasticsearchUrl,
    MissingElasticsearchIndex,
}

impl ConfigError {
    /// The message the process dies with when this value is absent.
    pub fn message(&self) -> (r: String)
        ensures
            r@ == (match self {
                ConfigError::MissingDiscordToken => "Expected DISCORD_TOKEN in env"@,
                ConfigError::MissingCohereApiKey => "Expected COHERE_API_KEY in env"@,
                ConfigError::MissingPineconeApiKey => "Expected PINECONE_API_KEY in env"@,
                ConfigError::MissingPineconeHost => "Expected PINECONE_HOST in env"@,
                ConfigError::MissingPineconeIndex => "Expected PINECONE_INDEX in env"@,
                ConfigError::MissingElasticsearchUrl => "Expected ELASTICSEARCH_URL in env"@,
                ConfigError::MissingElasticsearchIndex => "Expected ELASTICSEARCH_INDEX in env"@,
            }),
    {
        match self {
            ConfigError::MissingDiscordToken => String::from_str("Expected DISCORD_TOKEN in env"),
            ConfigError::MissingCohereApiKey => String::from_str("Expected COHERE_API_KEY in env"),
            ConfigError::MissingPineconeApiKey => String::from_str(
                "Expected PINECONE_API_KEY in env",
            ),
            ConfigError::MissingPineconeHost => String::from_str("Expected PINECONE_HOST in env"),
            ConfigError::MissingPineconeIndex => String::from_str("Expected PINECONE_INDEX in env"),
            ConfigError::MissingElasticsearchUrl => String::from_str(
                "Expected ELASTICSEARCH_URL in env",
            ),
            ConfigError::MissingElasticsearchIndex => String::from_str(
                "Expected ELASTICSEARCH_INDEX in env",
            ),
        }
    }
}

impl Config {
    /// Validates the values read from the environment. Success needs every
    /// required value; the optional ones fall back to their defaults. On a
    /// missing required value the first absent one, in the order listed, is
    /// reported.
    pub fn from_values(
        discord_token: Option<String>,
        cohere_key: Option<String>,
        pinecone_key: Option<String>,
        pinecone_host: Option<String>,
        pinecone_index: Option<String>,
        namespace: Option<String>,
        kafka_brokers: Option<String>,
        kafka_group_id: Option<String>,
        elasticsearch_url: Option<String>,
        elasticsearch_index: Option<String>,
    ) -> (r: Result<Config, ConfigError>)
        ensures
            (r is Ok) == (discord_token is Some && cohere_key is Some && pinecone_key is Some
                && pinecone_host is Some && pinecone_index is Some && elasticsearch_url is Some
                && elasticsearch_index is Some),
            r matches Err(e) ==> e == (if discord_token is None {
                ConfigError::MissingDiscordToken
            } else if cohere_key is None {
                ConfigError::MissingCohereApiKey
            } else if pinecone_key is None {
                ConfigError::MissingPineconeApiKey
            } else if pinecone_host is None {
                ConfigError::MissingPineconeHost
            } else if pinecone_index is None {
                ConfigError::MissingPineconeIndex
            } else if elasticsearch_url is None {
                ConfigError::MissingElasticsearchUrl
            } else {
                ConfigError::MissingElasticsearchIndex
            }),
            r matches Ok(c) ==> {
                &&& c.discord_token@ == discord_token->0@
                &&& c.cohere_key@ == cohere_key->0@
                &&& c.pinecone_key@ == pinecone_key->0@
                &&& c.pinecone_host@ == pinecone_host->0@
                &&& c.pinecone_index@ == pinecone_index->0@
                &&& c.namespace@ == (match namespace {
                    Some(n) => n@,
                    None => "default"@,
                })
                &&& c.kafka_brokers@ == (match kafka_brokers {
                    Some(b) => b@,
                    None => "localhost:9092"@,
                })
                &&& c.kafka_group_id@ == (match kafka_group_id {
                    Some(g) => g@,
                    None => "quiry-bot"@,
                })
                &&& c.elasticsearch_url@ == elasticsearch_url->0@
                &&& c.elasticsearch_index@ == elasticsearch_index->0@
            },
    {
        let discord_token = match discord_token {
            Some(v) => v,
            None => {
                return Err(ConfigError::MissingDiscordToken);
            },
        };
        let cohere_key = match cohere_key {
            Some(v) => v,
            None => {
                return Err(ConfigError::MissingCohereApiKey);
            },
        };
        let pinecone_key = match pinecone_key {
            Some(v) => v,
            None => {
                return Err(ConfigError::MissingPineconeApiKey);
            },
        };
        let pinecone_host = match pinecone_host {
            Some(v) => v,
            None => {
                return Err(ConfigError::MissingPineconeHost);
            },
        };
        let pinecone_index = match pinecone_index {
            Some(v) => v,
            None => {
                return Err(ConfigError::MissingPineconeIndex);
            },
        };
        let elasticsearch_url = match elasticsearch_url {
            Some(v) => v,
            None => {
                return Err(ConfigError::MissingElasticsearchUrl);
            },
        };
        let elasticsearch_index = match elasticsearch_index {
            Some(v) => v,
            None => {
                return Err(ConfigError::MissingElasticsearchIndex);
            },
        };
        let namespace = match namespace {
            Some(v) => v,
            None => String::from_str("default"),
        };
        let kafka_brokers = match kafka_brokers {
            Some(v) => v,
            None => String::from_str("localhost:9092"),
        };
        let kafka_group_id = match kafka_group_id {
            Some(v) => v,
            None => String::from_str("quiry-bot"),
        };
        Ok(
            Config {
                discord_token,
                cohere_key,
                pinecone_key,
                pinecone_host,
                pinecone_index,
                namespace,
                kafka_brokers,
                kafka_group_id,
                elasticsearch_url,
                elasticsearch_index,
            },
        )
    }
}

} // verus!

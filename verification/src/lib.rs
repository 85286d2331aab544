pub mod chunking;
pub mod cohere;
pub mod config;
pub mod elasticsearch;
pub mod health;
pub mod ids;
pub mod kafka_types;
pub mod pinecone;
pub mod retrieval;
pub mod schema;
pub mod text;
pub mod time;

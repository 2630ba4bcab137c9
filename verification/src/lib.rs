//! Verified core of a lightweight wandb client: netrc parsing, artifact
//! bookkeeping and manifests, media records, metric rows, and the decisions
//! taken on the backend's GraphQL replies.

pub mod text;
pub mod error;
pub mod netrc;
pub mod artifact;
pub mod digest;
pub mod manifest;
pub mod data_value;
pub mod media;
pub mod video;
pub mod gql;
pub mod run;
pub mod backend;
pub mod flow;

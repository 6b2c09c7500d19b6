pub mod cache;
pub mod codec;
pub mod config;
pub mod coordination;
pub mod error;
pub mod models;
pub mod sparql;
pub mod text;
pub mod transaction_log;
pub mod traverse;
pub mod undo;
pub mod validation;

pub use error::RdfEditorError;
pub use validation::sanitize_literal_value;
pub use validation::validate_blank_node_id;
pub use validation::validate_language_tag;
pub use validation::validate_uri;

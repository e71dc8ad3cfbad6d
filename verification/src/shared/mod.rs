pub mod chunk;
pub mod error;
pub mod host;
pub mod number;
pub mod text;
pub mod value;

pub use chunk::Chunk;
pub use chunk::ChunkView;
pub use error::LumaError;
pub use error::LumaErrorView;
pub use value::Value;
pub use value::ValueView;

//! The tokenizer: source text in, a stream of tokens out.

pub mod location;
pub mod token;
pub mod token_stream;

pub use location::Location;
pub use location::LocationTrack;
pub use token::Token;
pub use token::TokenData;
pub use token_stream::TokenStream;

pub mod chunked;
pub mod streamed;

//! Text integrity and confidentiality behind one small facade: keyed
//! digests, signatures and authenticated encryption of buffered input, with
//! keys of fixed size and an envelope that travels as text.
//!
//! The cryptography itself is that of the crates `blake3`, `ed25519-dalek`
//! and `chacha20poly1305`. What they compute is named in [`primitives`] and
//! taken on trust; everything built on top is verified: which key a key
//! file holds, which error an input earns, how an envelope is written and
//! read back, and that what was encrypted decrypts to itself.
//!
//! Nothing in this library reads a file or the clock. A caller reads its
//! inputs and hands over their content.

pub mod bytes;
pub mod cli;
pub mod codec;
pub mod error;
pub mod primitives;
pub mod process;
pub mod random;
pub mod record;
pub mod utils;

pub use cli::base64::{
    Base64DecodeOpts, Base64EncodeOpts, Base64Format, Base64Output, Base64SubCommand,
};
pub use cli::csv::OutputFormat;
pub use cli::text::{
    DecryptOpts, EncryptOpts, GenerateOpts, TextEncryptFormat, TextOutput, TextSignFormat,
    TextSignOpts, TextSubCommand, TextVerifyOpts,
};
pub use cli::{verify_file, verify_input_file, verify_path};
pub use error::TextError;
pub use process::b64::{process_decode, process_encode};
pub use process::gen_pass::process_genpass;
pub use process::text::{
    process_key_generate, process_text_decrypt, process_text_encrypt, process_text_sign,
    process_text_verify, Blake3, ChaCha20, ChaCha20EncryptedData, Ed25519Signer, Ed25519Verifier,
    KeyGenerator, KeyLoader, TextEncryptDecrypt, TextSign, TextVerify,
};
pub use utils::{resolve_input, InputSource};

//! Construction, serialization and signing of legacy pay-to-public-key-hash
//! Bitcoin transactions.
pub mod codec;
pub mod error;
pub mod hashing;
pub mod keys;
pub mod script;
pub mod tx;

pub use codec::{int_to_little_endian_hex, reverse_hex, var_int_to_hex};
pub use error::{ErrorKind, TransactionError};
pub use hashing::double_sha256;
pub use keys::derive_address_from_private_key_hex;
pub use script::{create_script_pub_key, create_script_sig};
pub use tx::{
    calculate_fee, create_transaction, generate_signature, serialize_transaction, Transaction,
    TransactionInput, TransactionOutput, UTXO,
};

//! Decoders for the Soulframe content-delivery formats: the two-part
//! compressed container, the grouped file manifest and the localized
//! string table, together with the content hash that ties them together.

pub mod b64m;
pub mod chunk;
pub mod codec;
pub mod container;
pub mod error;
pub mod languages;
pub mod manifest;
pub mod reader;
pub mod request;
pub mod table;
pub mod text;
pub mod transfer;
pub mod varint;

pub use b64m::{b64m_decode, b64m_encode};
pub use chunk::{shcc_decompress_chunk, shcc_decompress_chunk_oodle};
pub use container::{shcc_hash, shcc_unpack, ShccData};
pub use error::FormatError;
pub use languages::languages_unpack;
pub use manifest::SoulframeManifest;
pub use request::{candidate_urls, download_urls, normalize_path, relative_name, request_path};
pub use table::LanguageTable;
pub use reader::{read_s4, read_u16_le, read_u32_le};
pub use transfer::{check_download, is_plain_container, needs_download, HashCheck, TYPE_BIN, TYPE_MANIFEST};
pub use varint::unpack_u32_dyn_le;

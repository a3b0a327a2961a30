pub mod arrays;
pub mod digits;
pub mod features;
pub mod files;
pub mod hasher;
pub mod registry;
pub mod scan;

pub use arrays::hash_array_harmonized;
pub use files::hash_file_harmonized;
pub use hasher::auto_hash;
pub use hasher::dual_hash_content;
pub use hasher::hash;
pub use hasher::protein_hash;
pub use hasher::text_hash;
pub use hasher::DualHash;
pub use hasher::DualHashResult;
pub use hasher::HashMode;
pub use registry::find_soul_siblings;
pub use registry::SoulRegistry;

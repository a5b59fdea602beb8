pub mod bundler;
pub mod cipher;
pub mod options;
pub mod path;
pub mod walk;

pub use bundler::{AssetBundler, BuildEnv, BuildPlan, BundleError};
pub use options::BundledAssetIoOptions;
pub use path::{exe_dir, AssetPath};
pub use walk::{ArchiveWalk, DirEntryInfo, WalkStep};

use vstd::prelude::*;

use crate::options::BundledAssetIoOptions;
use crate::path::{exe_dir, exe_dir_of, AssetPath};

verus! {

/// Default name of the asset root.
pub open spec fn default_asset_folder() -> Seq<char> {
    seq!['a', 's', 's', 'e', 't', 's']
}

/// The build profile under which bundling is skipped unless asked for.
pub open spec fn debug_profile() -> Seq<char> {
    seq!['d', 'e', 'b', 'u', 'g']
}

/// Packs an asset directory into one bundle file next to the executable.
pub struct AssetBundler {
    pub options: BundledAssetIoOptions,
    pub asset_folder: String,
}

/// Why a build failed.
pub enum BundleError {
    /// Encryption is on but no key was given.
    MissingEncryptionKey,
    /// The asset root is missing or no directory; `cwd` is the working
    /// directory at the time, or why it could not be read, for diagnostics.
    AssetFolderNotFound { asset_folder: String, cwd: String },
    /// A filesystem or process query failed, with its message.
    Io(String),
}

/// What the process environment says, gathered once before a build.
pub struct BuildEnv {
    /// The build profile signal, if set.
    pub profile: Option<String>,
    /// The build tool's output-directory signal, if set.
    pub out_dir: Option<String>,
    /// Whether the asset root exists and is a directory.
    pub asset_folder_is_dir: bool,
    /// Path of the running executable, or why it could not be found.
    pub exe_path: Result<AssetPath, String>,
    /// The working directory, or why it could not be found.
    pub cwd: Result<String, String>,
}

/// What a build is to do.
pub enum BuildPlan {
    /// Nothing: bundling is off for debug builds.
    Skip,
    /// Archive the asset root into a new file at `bundle_path`.
    Write { bundle_path: AssetPath },
}

impl BuildEnv {
    pub open spec fn is_debug(&self) -> bool {
        self.profile.is_some() && self.profile.unwrap()@ == debug_profile()
    }

    /// The working directory, or the reason it could not be read.
    pub open spec fn cwd_text(&self) -> String {
        match self.cwd {
            Ok(c) => c,
            Err(e) => e,
        }
    }

    pub open spec fn out_dir_signal(&self) -> Seq<char> {
        if self.out_dir.is_some() {
            self.out_dir.unwrap()@
        } else {
            Seq::empty()
        }
    }
}

impl Default for AssetBundler {
    fn default() -> (r: Self)
        ensures
            r.asset_folder@ == default_asset_folder(),
            r.options.asset_bundle_name@ == crate::options::default_bundle_name(),
            !r.options.enabled_on_debug_build,
            !r.options.encryption_on,
            r.options.encryption_key.is_none(),
    {
        proof {
            reveal_strlit("assets");
        }
        AssetBundler { options: BundledAssetIoOptions::default(), asset_folder: "assets".to_owned() }
    }
}

impl From<BundledAssetIoOptions> for AssetBundler {
    fn from(options: BundledAssetIoOptions) -> (r: Self)
        ensures
            r.options == options,
            r.asset_folder@ == default_asset_folder(),
    {
        proof {
            reveal_strlit("assets");
        }
        AssetBundler { options, asset_folder: "assets".to_owned() }
    }
}

impl vstd::std_specs::convert::FromSpecImpl<BundledAssetIoOptions> for AssetBundler {
    open spec fn obeys_from_spec() -> bool {
        false
    }

    open spec fn from_spec(options: BundledAssetIoOptions) -> Self {
        arbitrary()
    }
}

impl AssetBundler {
    /// Bundling is switched off for this debug build.
    pub open spec fn gated(&self, env: &BuildEnv) -> bool {
        !self.options.enabled_on_debug_build && env.is_debug()
    }

    /// Encryption is asked for without a key.
    pub open spec fn missing_key(&self) -> bool {
        self.options.encryption_on && self.options.encryption_key.is_none()
    }

    /// Where the bundle goes for an executable at `exe`.
    pub open spec fn bundle_path_of(&self, exe: (bool, Seq<Seq<char>>), env: &BuildEnv) -> (
        bool,
        Seq<Seq<char>>,
    ) {
        let dir = exe_dir_of(exe, env.out_dir_signal());
        (dir.0, dir.1.push(self.options.asset_bundle_name@))
    }

    /// The decisions of a build on `env`, in order: the debug gate, the key
    /// check, the asset root, the executable's directory. No file is touched
    /// before the result says `Write`.
    pub fn plan(&self, env: &BuildEnv) -> (r: Result<BuildPlan, BundleError>)
        ensures
            self.gated(env) ==> r == Ok::<BuildPlan, BundleError>(BuildPlan::Skip),
            !self.gated(env) && self.missing_key() ==> r == Err::<BuildPlan, BundleError>(
                BundleError::MissingEncryptionKey,
            ),
            !self.gated(env) && !self.missing_key() && !env.asset_folder_is_dir ==> r == Err::<BuildPlan, BundleError>(
                BundleError::AssetFolderNotFound { asset_folder: self.asset_folder, cwd: env.cwd_text() },
            ),
            !self.gated(env) && !self.missing_key() && env.asset_folder_is_dir ==> match env.exe_path {
                Ok(exe) => r matches Ok(BuildPlan::Write { bundle_path }) && bundle_path@
                    == self.bundle_path_of(exe@, env),
                Err(e) => r == Err::<BuildPlan, BundleError>(BundleError::Io(e)),
            },
    {
        if !self.options.enabled_on_debug_build {
            if let Some(profile) = &env.profile {
                proof {
                    reveal_strlit("debug");
                }
                let debug = "debug".to_owned();
                assert(debug@ =~= debug_profile());
                if *profile == debug {
                    return Ok(BuildPlan::Skip);
                }
            }
        }
        if self.options.encryption_on && self.options.encryption_key.is_none() {
            return Err(BundleError::MissingEncryptionKey);
        }
        if !env.asset_folder_is_dir {
            let cwd = match &env.cwd {
                Ok(cwd) => cwd.clone(),
                Err(e) => e.clone(),
            };
            return Err(BundleError::AssetFolderNotFound { asset_folder: self.asset_folder.clone(), cwd });
        }
        match &env.exe_path {
            Ok(exe) => {
                let dir = match &env.out_dir {
                    Some(out_dir) => exe_dir(exe, out_dir.as_str()),
                    None => exe_dir(exe, ""),
                };
                proof {
                    reveal_strlit("");
                }
                let bundle_path = dir.join(&self.options.asset_bundle_name);
                Ok(BuildPlan::Write { bundle_path })
            },
            Err(e) => Err(BundleError::Io(e.clone())),
        }
    }

    pub fn with_asset_folder(&mut self, path: String) -> (r: &mut Self)
        ensures
            r.asset_folder == path,
            r.options == old(self).options,
            *final(self) == *final(r),
    {
        self.asset_folder = path;
        self
    }

    pub fn set_encryption_key(&mut self, key: [u8; 16]) -> (r: &mut Self)
        ensures
            r.options.encryption_on,
            r.options.encryption_key == Some(key),
            r.options.enabled_on_debug_build == old(self).options.enabled_on_debug_build,
            r.options.asset_bundle_name == old(self).options.asset_bundle_name,
            r.asset_folder == old(self).asset_folder,
            *final(self) == *final(r),
    {
        self.options.encryption_on = true;
        self.options.encryption_key = Some(key);
        self
    }
}

} // verus!

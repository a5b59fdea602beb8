use vstd::prelude::*;

use crate::cipher::{aes128_cbc_pkcs7_of, decrypt, encrypt, padded_len};

verus! {

/// Configuration shared by the bundler and by whoever reads the bundle back.
pub struct BundledAssetIoOptions {
    pub asset_bundle_name: String,
    pub enabled_on_debug_build: bool,
    pub encryption_on: bool,
    pub encryption_key: Option<[u8; 16]>,
}

/// Default name of the bundle file.
pub open spec fn default_bundle_name() -> Seq<char> {
    seq!['a', 's', 's', 'e', 't', 's', '.', 'b', 'i', 'n']
}

impl Default for BundledAssetIoOptions {
    fn default() -> (r: Self)
        ensures
            r.asset_bundle_name@ == default_bundle_name(),
            !r.enabled_on_debug_build,
            !r.encryption_on,
            r.encryption_key.is_none(),
    {
        proof {
            reveal_strlit("assets.bin");
        }
        BundledAssetIoOptions {
            asset_bundle_name: "assets.bin".to_owned(),
            enabled_on_debug_build: false,
            encryption_on: false,
            encryption_key: None,
        }
    }
}

impl BundledAssetIoOptions {
    /// Encryption is switched on and a key is there to do it with.
    pub open spec fn encryption_ready(&self) -> bool {
        self.encryption_on && self.encryption_key.is_some()
    }

    /// The bytes stored in the bundle for a file holding `plain`.
    pub open spec fn stored_payload(&self, plain: Seq<u8>) -> Seq<u8> {
        if self.encryption_ready() {
            let key = self.encryption_key.unwrap();
            aes128_cbc_pkcs7_of(key@, key@, plain)
        } else {
            plain
        }
    }

    pub fn is_encryption_ready(&self) -> (r: bool)
        ensures
            r == self.encryption_ready(),
    {
        self.encryption_on && self.encryption_key.is_some()
    }

    /// The ciphertext of `plain` when encryption is ready, `None` otherwise
    /// (the file is then stored as it is).
    pub fn try_encrypt(&self, plain: &[u8]) -> (r: Option<Vec<u8>>)
        ensures
            r.is_some() == self.encryption_ready(),
            r.is_some() ==> r.unwrap()@ == self.stored_payload(plain@),
            r.is_some() ==> r.unwrap()@.len() == padded_len(plain@.len()),
            r.is_some() ==> r.unwrap()@ != plain@,
    {
        if self.encryption_on {
            match &self.encryption_key {
                Some(key) => Some(encrypt(key, plain)),
                None => None,
            }
        } else {
            None
        }
    }

    /// Recovers a file's content from the bytes the bundle stores for it:
    /// decrypts when encryption is ready, else copies. Bytes that were not
    /// stored for any content may give `None` or some other content.
    pub fn decode_payload(&self, stored: &[u8]) -> (r: Option<Vec<u8>>)
        ensures
            !self.encryption_ready() ==> r.is_some() && r.unwrap()@ == stored@,
            forall|p: Seq<u8>|
                stored@ == #[trigger] self.stored_payload(p) ==> r.is_some() && r.unwrap()@ == p,
    {
        if self.encryption_on {
            match &self.encryption_key {
                Some(key) => {
                    let r = decrypt(key, stored);
                    assert forall|p: Seq<u8>|
                        stored@ == #[trigger] self.stored_payload(p) implies r.is_some() && r.unwrap()@ == p by {
                        assert(stored@ == aes128_cbc_pkcs7_of(key@, key@, p));
                    }
                    return r;
                }
                None => {},
            }
        }
        Some(vstd::slice::slice_to_vec(stored))
    }
}

} // verus!

//! Runtime configuration accepted from the client and the command plans
//! derived from it.

use vstd::prelude::*;

verus! {

/// The configuration a client supplies when it asks for the proxy to be
/// enabled: where the core binary lives, which configuration it should run
/// with, and where its output should be logged. It is accepted wholesale and
/// never field-patched.
pub struct RuntimeConfig {
    pub bin_path: String,
    pub config_dir: String,
    pub config_file: String,
    pub log_file: String,
}

impl RuntimeConfig {
    /// The zero-value configuration reported before any start request.
    pub open spec fn is_default(self) -> bool {
        &&& self.bin_path@ == Seq::<char>::empty()
        &&& self.config_dir@ == Seq::<char>::empty()
        &&& self.config_file@ == Seq::<char>::empty()
        &&& self.log_file@ == Seq::<char>::empty()
    }

    pub fn default_value() -> (r: RuntimeConfig)
        ensures
            r.is_default(),
    {
        RuntimeConfig {
            bin_path: String::new(),
            config_dir: String::new(),
            config_file: String::new(),
            log_file: String::new(),
        }
    }

    pub fn clone_config(&self) -> (r: RuntimeConfig)
        ensures
            r == *self,
    {
        RuntimeConfig {
            bin_path: self.bin_path.clone(),
            config_dir: self.config_dir.clone(),
            config_file: self.config_file.clone(),
            log_file: self.log_file.clone(),
        }
    }
}

} // verus!

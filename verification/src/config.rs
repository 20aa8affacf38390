//! Effective configuration of the runtime: network settings (bridge name and
//! address, listen address) and image-manager settings, together with the
//! validation that runs right after the configuration file is read.

use vstd::prelude::*;

verus! {

/// Failure modes of reading and validating a configuration file.
#[derive(Debug)]
pub enum LambdoConfigError {
    /// The file could not be read.
    Load(String),
    /// The file could not be parsed.
    Parse(String),
    /// The `kind` field is not the supported one.
    KindNotSupported,
    /// The `api_version` field is not the supported one.
    VersionNotSupported,
}

/// Which image-resolution strategy the runtime uses.
#[derive(Debug, Clone, Copy, PartialEq, Eq, Structural)]
pub enum ImageManagerStrategy {
    Folder,
    Url,
}

/// The whole configuration file.
pub struct LambdoConfig {
    /// The api version of the lambdo config file
    pub api_version: String,
    /// The kind of the lambdo config file
    pub kind: String,
    /// The lambdo api configuration
    pub api: LambdoApiConfig,
}

/// The `api` section of the configuration.
pub struct LambdoApiConfig {
    /// Network configuration
    pub network: NetworkConfig,
    /// Image manager configuration
    pub image_manager: ImageManagerConfig,
}

/// The `imageManager` section of the configuration.
pub struct ImageManagerConfig {
    /// Folder path for the images
    pub images_folder: String,
    /// Image manager strategy
    pub strategy: ImageManagerStrategy,
}

/// The `network` section of the configuration.
pub struct NetworkConfig {
    /// Bridge to bind to
    pub bridge: String,
    /// Address of the bridge
    pub bridge_address: String,
    /// The host on which the API server will listen
    pub web_host: String,
    /// The port on which the API server will listen
    pub web_port: u16,
}

/// Default bridge name.
pub fn default_bridge() -> (r: String)
    ensures
        r@ == "lambdo0"@,
{
    String::from_str("lambdo0")
}

/// Default bridge address.
pub fn default_bridge_address() -> (r: String)
    ensures
        r@ == "192.168.10.1/24"@,
{
    String::from_str("192.168.10.1/24")
}

/// Default folder the image manager resolves images in.
pub fn default_images_folder() -> (r: String)
    ensures
        r@ == "/var/lib/lambdo/images"@,
{
    String::from_str("/var/lib/lambdo/images")
}

/// Default image-manager strategy.
pub fn default_image_manager_strategy() -> (r: ImageManagerStrategy)
    ensures
        r == ImageManagerStrategy::Folder,
{
    ImageManagerStrategy::Folder
}

impl LambdoConfig {
    /// The `kind` and `api_version` values a configuration file must carry.
    /// A parsed configuration is accepted exactly when both match.
    pub open spec fn spec_supported(self) -> bool {
        self.kind@ == "Config"@ && self.api_version@ == "lambdo.io/v1alpha1"@
    }

    /// Checks the `kind` and `api_version` fields of a freshly parsed
    /// configuration; the surrounding binary runs this right after the
    /// configuration file is read, before anything else uses the values.
    pub fn validate(&self) -> (r: Result<(), LambdoConfigError>)
        ensures
            r is Ok <==> self.spec_supported(),
            self.kind@ != "Config"@ ==> r matches Err(LambdoConfigError::KindNotSupported),
            self.kind@ == "Config"@ && self.api_version@ != "lambdo.io/v1alpha1"@ ==> r matches Err(
                LambdoConfigError::VersionNotSupported,
            ),
    {
        if !(self.kind == String::from_str("Config")) {
            return Err(LambdoConfigError::KindNotSupported);
        }
        if !(self.api_version == String::from_str("lambdo.io/v1alpha1")) {
            return Err(LambdoConfigError::VersionNotSupported);
        }
        Ok(())
    }
}

} // verus!

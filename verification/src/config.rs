//! Resolved configuration that the build reads.

use crate::target::AndroidBuildTarget;
use crate::target::HostPlatform;
use vstd::prelude::*;

verus! {

/// A hardware or software feature that the application declares.
#[derive(Clone, Debug)]
pub struct AndroidFeature {
    pub name: String,
    pub required: bool,
    pub version: Option<String>,
}

/// A permission that the application asks for.
#[derive(Clone, Debug)]
pub struct AndroidPermission {
    pub name: String,
    pub max_sdk_version: Option<u32>,
}

/// Settings of one compilation unit, resolved before packaging.
#[derive(Clone, Debug)]
pub struct AndroidTargetConfig {
    pub package_name: String,
    pub package_label: String,
    pub version_code: u32,
    pub version_name: String,
    pub package_icon: Option<String>,
    pub assets_path: Option<String>,
    pub res_path: Option<String>,
    pub fullscreen: bool,
    pub application_attributes: Option<String>,
    pub activity_attributes: Option<String>,
    pub opengles_version_major: u8,
    pub opengles_version_minor: u8,
    pub features: Vec<AndroidFeature>,
    pub permissions: Vec<AndroidPermission>,
}

/// Settings of the whole build.
#[derive(Clone, Debug)]
pub struct AndroidConfig {
    pub host: HostPlatform,
    pub sdk_path: String,
    pub ndk_path: String,
    pub android_jar_path: String,
    pub build_tools_version: String,
    pub build_targets: Vec<AndroidBuildTarget>,
    pub target_sdk_version: u32,
    pub min_sdk_version: u32,
    pub release: bool,
}

} // verus!

//! The application manifest.

use crate::config::AndroidConfig;
use crate::config::AndroidFeature;
use crate::config::AndroidPermission;
use crate::config::AndroidTargetConfig;
use crate::text::decimal;
use crate::text::decimal_of;
use crate::text::join_strings;
use crate::text::joined_with;
use crate::text::lemma_texts_push;
use crate::text::padded_decimal_of;
use crate::text::replace;
use crate::text::replace_all;
use crate::text::string_of;
use crate::text::texts;
use crate::text::zero_padded;
use crate::util::JavaFiles;
use vstd::prelude::*;

verus! {

pub const MANIFEST_HEAD: &'static str =
    "<?xml version=\"1.0\" encoding=\"utf-8\"?>\n<manifest xmlns:android=\"http://schemas.android.com/apk/res/android\"\n        package=\"";

pub const MANIFEST_VERSION_CODE: &'static str = "\"\n        android:versionCode=\"";

pub const MANIFEST_VERSION_NAME: &'static str = "\"\n        android:versionName=\"";

pub const MANIFEST_TARGET_SDK: &'static str = "\">\n    <uses-sdk android:targetSdkVersion=\"";

pub const MANIFEST_MIN_SDK: &'static str = "\" android:minSdkVersion=\"";

pub const MANIFEST_GLES: &'static str = "\" />\n    <uses-feature android:glEsVersion=\"";

pub const MANIFEST_GLES_END: &'static str = "\" android:required=\"true\"></uses-feature>";

pub const MANIFEST_APPLICATION: &'static str = "\n    <application ";

pub const MANIFEST_SERVICES: &'static str = " >\n        ";

pub const MANIFEST_ACTIVITY: &'static str = "\n        <activity ";

pub const MANIFEST_LIB_NAME: &'static str =
    " >\n            <meta-data android:name=\"android.app.lib_name\" android:value=\"";

pub const MANIFEST_TAIL: &'static str =
    "\" />\n            <intent-filter>\n                <action android:name=\"android.intent.action.MAIN\" />\n                <category android:name=\"android.intent.category.LAUNCHER\" />\n            </intent-filter>\n        </activity>\n    </application>\n</manifest>\n";

pub const APPLICATION_LABEL: &'static str = "\n            android:hasCode=\"true\" android:label=\"";

pub const APPLICATION_ICON: &'static str = "\"\n            android:icon=\"";

pub const APPLICATION_FULLSCREEN: &'static str =
    "\n            android:theme=\"@android:style/Theme.DeviceDefault.NoActionBar.Fullscreen\"";

pub const APPLICATION_INDENT: &'static str = "\n            ";

pub const ACTIVITY_LABEL: &'static str =
    "\n                android:name=\".MainActivity\"\n                android:label=\"";

pub const ACTIVITY_CONFIG_CHANGES: &'static str =
    "\"\n                android:configChanges=\"orientation|keyboardHidden|screenSize\" ";

pub const ACTIVITY_INDENT: &'static str = "\n                ";

pub const FEATURE_NAME: &'static str = "\n\t<uses-feature android:name=\"";

pub const FEATURE_REQUIRED: &'static str = "\" android:required=\"";

pub const FEATURE_VERSION: &'static str = "android:version=\"";

pub const PERMISSION_NAME: &'static str = "\n\t<uses-permission android:name=\"";

pub const PERMISSION_MAX_SDK: &'static str = "android:maxSdkVersion=\"";

pub const SERVICE_NAME: &'static str = "\n\t<service android:name=\"";

pub const SERVICE_ENABLED: &'static str = "\" android:enabled=\"true\"></service>";

/// The element that declares a feature.
pub open spec fn feature_element(feature: AndroidFeature) -> Seq<char> {
    FEATURE_NAME@ + feature.name@ + FEATURE_REQUIRED@ + (if feature.required {
        "true"@
    } else {
        "false"@
    }) + "\" "@ + (match feature.version {
        Some(version) => FEATURE_VERSION@ + version@ + "\""@,
        None => seq![],
    }) + "/>"@
}

/// The element that asks for a permission.
pub open spec fn permission_element(permission: AndroidPermission) -> Seq<char> {
    PERMISSION_NAME@ + permission.name@ + "\" "@ + (match permission.max_sdk_version {
        Some(version) => PERMISSION_MAX_SDK@ + decimal(version as nat) + "\""@,
        None => seq![],
    }) + "/>"@
}

/// The element that declares a service, enabled.
pub open spec fn service_element(name: Seq<char>) -> Seq<char> {
    SERVICE_NAME@ + name + SERVICE_ENABLED@
}

/// The attributes of the application element.
pub open spec fn application_attributes(target: AndroidTargetConfig) -> Seq<char> {
    APPLICATION_LABEL@ + target.package_label@ + (match target.package_icon {
        Some(icon) => APPLICATION_ICON@ + icon@ + "\""@,
        None => "\""@,
    }) + (if target.fullscreen {
        APPLICATION_FULLSCREEN@
    } else {
        seq![]
    }) + (match target.application_attributes {
        Some(extra) => replace_all(extra@, "\n"@, APPLICATION_INDENT@),
        None => seq![],
    })
}

/// The attributes of the activity element.
pub open spec fn activity_attributes(target: AndroidTargetConfig) -> Seq<char> {
    ACTIVITY_LABEL@ + target.package_label@ + ACTIVITY_CONFIG_CHANGES@ + (
    match target.activity_attributes {
        Some(extra) => replace_all(extra@, "\n"@, ACTIVITY_INDENT@),
        None => seq![],
    })
}

/// The value of the attribute that names the OpenGL ES version.
pub open spec fn gles_version(major: u8, minor: u8) -> Seq<char> {
    "0x"@ + zero_padded(decimal(major as nat), 4) + zero_padded(decimal(minor as nat), 4)
}

/// The feature elements of the manifest.
pub open spec fn feature_elements(features: Seq<AndroidFeature>) -> Seq<char> {
    joined_with(features.map_values(|f: AndroidFeature| feature_element(f)), ", "@)
}

/// The permission elements of the manifest.
pub open spec fn permission_elements(permissions: Seq<AndroidPermission>) -> Seq<char> {
    joined_with(permissions.map_values(|p: AndroidPermission| permission_element(p)), ", "@)
}

/// The service elements of the manifest.
pub open spec fn service_elements(services: Seq<Seq<char>>) -> Seq<char> {
    joined_with(services.map_values(|s: Seq<char>| service_element(s)), ", "@)
}

/// The manifest of the package of the unit `unit_name`.
pub open spec fn manifest_text(
    config: AndroidConfig,
    target: AndroidTargetConfig,
    unit_name: Seq<char>,
    services: Seq<Seq<char>>,
) -> Seq<char> {
    MANIFEST_HEAD@ + replace_all(target.package_name@, "-"@, "_"@) + MANIFEST_VERSION_CODE@
        + decimal(target.version_code as nat) + MANIFEST_VERSION_NAME@ + target.version_name@
        + MANIFEST_TARGET_SDK@ + decimal(config.target_sdk_version as nat) + MANIFEST_MIN_SDK@
        + decimal(config.min_sdk_version as nat) + MANIFEST_GLES@ + gles_version(
        target.opengles_version_major,
        target.opengles_version_minor,
    ) + MANIFEST_GLES_END@ + feature_elements(target.features@) + permission_elements(
        target.permissions@,
    ) + MANIFEST_APPLICATION@ + application_attributes(target) + MANIFEST_SERVICES@
        + service_elements(services) + MANIFEST_ACTIVITY@ + activity_attributes(target)
        + MANIFEST_LIB_NAME@ + unit_name + MANIFEST_TAIL@
}

/// The decimal numeral of `n` as a string.
pub fn number(n: u32) -> (res: String)
    ensures
        res@ == decimal(n as nat),
{
    string_of(&decimal_of(n as u64))
}

/// Builds the element that declares a feature.
pub fn build_feature(feature: &AndroidFeature) -> (res: String)
    ensures
        res@ == feature_element(*feature),
{
    let mut res = FEATURE_NAME.to_owned();
    res.append(feature.name.as_str());
    res.append(FEATURE_REQUIRED);
    if feature.required {
        res.append("true");
    } else {
        res.append("false");
    }
    res.append("\" ");
    let ghost before = res@;
    match &feature.version {
        Some(version) => {
            res.append(FEATURE_VERSION);
            res.append(version.as_str());
            res.append("\"");
            assert(res@ =~= before + (FEATURE_VERSION@ + version@ + "\""@));
        },
        None => {
            assert(res@ =~= before + Seq::<char>::empty());
        },
    }
    res.append("/>");
    res
}

/// Builds the element that asks for a permission.
pub fn build_permission(permission: &AndroidPermission) -> (res: String)
    ensures
        res@ == permission_element(*permission),
{
    let mut res = PERMISSION_NAME.to_owned();
    res.append(permission.name.as_str());
    res.append("\" ");
    let ghost before = res@;
    match permission.max_sdk_version {
        Some(version) => {
            res.append(PERMISSION_MAX_SDK);
            res.append(number(version).as_str());
            res.append("\"");
            assert(res@ =~= before + (PERMISSION_MAX_SDK@ + decimal(version as nat) + "\""@));
        },
        None => {
            assert(res@ =~= before + Seq::<char>::empty());
        },
    }
    res.append("/>");
    res
}

/// Builds the element that declares a service.
pub fn build_service(name: &str) -> (res: String)
    ensures
        res@ == service_element(name@),
{
    let mut res = SERVICE_NAME.to_owned();
    res.append(name);
    res.append(SERVICE_ENABLED);
    res
}

/// Builds the feature elements of the manifest.
pub fn build_features(features: &Vec<AndroidFeature>) -> (res: String)
    ensures
        res@ == feature_elements(features@),
{
    let mut elements: Vec<String> = Vec::new();
    let mut i: usize = 0;
    while i < features.len()
        invariant
            i <= features@.len(),
            texts(elements@) == features@.map_values(|f: AndroidFeature| feature_element(f)).take(
                i as int,
            ),
        decreases features@.len() - i,
    {
        let element = build_feature(&features[i]);
        proof {
            lemma_texts_push(elements@, element);
            assert(texts(elements@).push(element@) =~= features@.map_values(
                |f: AndroidFeature| feature_element(f),
            ).take(i + 1));
        }
        elements.push(element);
        i += 1;
    }
    proof {
        let all = features@.map_values(|f: AndroidFeature| feature_element(f));
        assert(all.take(features@.len() as int) =~= all);
    }
    join_strings(&elements, ", ")
}

/// Builds the permission elements of the manifest.
pub fn build_permissions(permissions: &Vec<AndroidPermission>) -> (res: String)
    ensures
        res@ == permission_elements(permissions@),
{
    let mut elements: Vec<String> = Vec::new();
    let mut i: usize = 0;
    while i < permissions.len()
        invariant
            i <= permissions@.len(),
            texts(elements@) == permissions@.map_values(
                |p: AndroidPermission| permission_element(p),
            ).take(i as int),
        decreases permissions@.len() - i,
    {
        let element = build_permission(&permissions[i]);
        proof {
            lemma_texts_push(elements@, element);
            assert(texts(elements@).push(element@) =~= permissions@.map_values(
                |p: AndroidPermission| permission_element(p),
            ).take(i + 1));
        }
        elements.push(element);
        i += 1;
    }
    proof {
        let all = permissions@.map_values(|p: AndroidPermission| permission_element(p));
        assert(all.take(permissions@.len() as int) =~= all);
    }
    join_strings(&elements, ", ")
}

/// Builds the service elements of the manifest.
pub fn build_services(services: &Vec<String>) -> (res: String)
    ensures
        res@ == service_elements(texts(services@)),
{
    let mut elements: Vec<String> = Vec::new();
    let mut i: usize = 0;
    while i < services.len()
        invariant
            i <= services@.len(),
            texts(elements@) == texts(services@).map_values(
                |s: Seq<char>| service_element(s),
            ).take(i as int),
        decreases services@.len() - i,
    {
        let element = build_service(services[i].as_str());
        proof {
            lemma_texts_push(elements@, element);
            assert(texts(elements@).push(element@) =~= texts(services@).map_values(
                |s: Seq<char>| service_element(s),
            ).take(i + 1));
        }
        elements.push(element);
        i += 1;
    }
    proof {
        let all = texts(services@).map_values(|s: Seq<char>| service_element(s));
        assert(all.take(services@.len() as int) =~= all);
    }
    join_strings(&elements, ", ")
}

/// Builds the attributes of the application element.
pub fn build_application_attributes(target: &AndroidTargetConfig) -> (res: String)
    ensures
        res@ == application_attributes(*target),
{
    let mut res = APPLICATION_LABEL.to_owned();
    res.append(target.package_label.as_str());
    let ghost labelled = res@;
    match &target.package_icon {
        Some(icon) => {
            res.append(APPLICATION_ICON);
            res.append(icon.as_str());
            res.append("\"");
            assert(res@ =~= labelled + (APPLICATION_ICON@ + icon@ + "\""@));
        },
        None => {
            res.append("\"");
        },
    }
    let ghost with_icon = res@;
    if target.fullscreen {
        res.append(APPLICATION_FULLSCREEN);
    } else {
        assert(res@ =~= with_icon + Seq::<char>::empty());
    }
    let ghost with_theme = res@;
    match &target.application_attributes {
        Some(extra) => {
            res.append(replace(extra.as_str(), "\n", APPLICATION_INDENT).as_str());
        },
        None => {
            assert(res@ =~= with_theme + Seq::<char>::empty());
        },
    }
    res
}

/// Builds the attributes of the activity element.
pub fn build_activity_attributes(target: &AndroidTargetConfig) -> (res: String)
    ensures
        res@ == activity_attributes(*target),
{
    let mut res = ACTIVITY_LABEL.to_owned();
    res.append(target.package_label.as_str());
    res.append(ACTIVITY_CONFIG_CHANGES);
    let ghost before = res@;
    match &target.activity_attributes {
        Some(extra) => {
            res.append(replace(extra.as_str(), "\n", ACTIVITY_INDENT).as_str());
        },
        None => {
            assert(res@ =~= before + Seq::<char>::empty());
        },
    }
    res
}

/// Builds the value of the attribute that names the OpenGL ES version.
pub fn build_gles_version(major: u8, minor: u8) -> (res: String)
    ensures
        res@ == gles_version(major, minor),
{
    let mut res = "0x".to_owned();
    res.append(string_of(&padded_decimal_of(major as u64, 4)).as_str());
    res.append(string_of(&padded_decimal_of(minor as u64, 4)).as_str());
    res
}

/// Builds the manifest of the package of one unit. The text is a function
/// of the settings alone: the same settings give the same manifest.
pub fn build_manifest(
    config: &AndroidConfig,
    target_config: &AndroidTargetConfig,
    unit_name: &str,
    java_files: &JavaFiles,
) -> (res: String)
    ensures
        res@ == manifest_text(*config, *target_config, unit_name@, texts(java_files.java_services@)),
{
    let mut res = MANIFEST_HEAD.to_owned();
    res.append(replace(target_config.package_name.as_str(), "-", "_").as_str());
    res.append(MANIFEST_VERSION_CODE);
    res.append(number(target_config.version_code).as_str());
    res.append(MANIFEST_VERSION_NAME);
    res.append(target_config.version_name.as_str());
    res.append(MANIFEST_TARGET_SDK);
    res.append(number(config.target_sdk_version).as_str());
    res.append(MANIFEST_MIN_SDK);
    res.append(number(config.min_sdk_version).as_str());
    res.append(MANIFEST_GLES);
    res.append(
        build_gles_version(
            target_config.opengles_version_major,
            target_config.opengles_version_minor,
        ).as_str(),
    );
    res.append(MANIFEST_GLES_END);
    res.append(build_features(&target_config.features).as_str());
    res.append(build_permissions(&target_config.permissions).as_str());
    res.append(MANIFEST_APPLICATION);
    res.append(build_application_attributes(target_config).as_str());
    res.append(MANIFEST_SERVICES);
    res.append(build_services(&java_files.java_services).as_str());
    res.append(MANIFEST_ACTIVITY);
    res.append(build_activity_attributes(target_config).as_str());
    res.append(MANIFEST_LIB_NAME);
    res.append(unit_name);
    res.append(MANIFEST_TAIL);
    res
}

/// Two optional strings hold the same text, or both hold none.
pub open spec fn same_optional(a: Option<String>, b: Option<String>) -> bool {
    match (a, b) {
        (Some(x), Some(y)) => x@ == y@,
        (None, None) => true,
        _ => false,
    }
}

/// Two features declare the same.
pub open spec fn same_feature(a: AndroidFeature, b: AndroidFeature) -> bool {
    a.name@ == b.name@ && a.required == b.required && same_optional(a.version, b.version)
}

/// Two permissions ask for the same.
pub open spec fn same_permission(a: AndroidPermission, b: AndroidPermission) -> bool {
    a.name@ == b.name@ && a.max_sdk_version == b.max_sdk_version
}

/// Two target settings hold the same in all that the manifest shows.
pub open spec fn same_manifest_settings(a: AndroidTargetConfig, b: AndroidTargetConfig) -> bool {
    &&& a.package_name@ == b.package_name@
    &&& a.package_label@ == b.package_label@
    &&& a.version_code == b.version_code
    &&& a.version_name@ == b.version_name@
    &&& same_optional(a.package_icon, b.package_icon)
    &&& a.fullscreen == b.fullscreen
    &&& same_optional(a.application_attributes, b.application_attributes)
    &&& same_optional(a.activity_attributes, b.activity_attributes)
    &&& a.opengles_version_major == b.opengles_version_major
    &&& a.opengles_version_minor == b.opengles_version_minor
    &&& a.features@.len() == b.features@.len()
    &&& forall|i: int|
        0 <= i < a.features@.len() ==> same_feature(
            #[trigger] a.features@[i],
            b.features@[i],
        )
    &&& a.permissions@.len() == b.permissions@.len()
    &&& forall|i: int|
        0 <= i < a.permissions@.len() ==> same_permission(
            #[trigger] a.permissions@[i],
            b.permissions@[i],
        )
}

/// The manifest is determined by the content of the settings: two builds
/// from settings that hold the same, for the same unit and services, write
/// the same manifest, character by character.
pub proof fn lemma_manifest_is_deterministic(
    config: AndroidConfig,
    other_config: AndroidConfig,
    target: AndroidTargetConfig,
    other_target: AndroidTargetConfig,
    unit_name: Seq<char>,
    services: Seq<Seq<char>>,
)
    requires
        config.target_sdk_version == other_config.target_sdk_version,
        config.min_sdk_version == other_config.min_sdk_version,
        same_manifest_settings(target, other_target),
    ensures
        manifest_text(config, target, unit_name, services) == manifest_text(
            other_config,
            other_target,
            unit_name,
            services,
        ),
{
    let features = target.features@.map_values(|f: AndroidFeature| feature_element(f));
    let other_features = other_target.features@.map_values(|f: AndroidFeature| feature_element(f));
    assert(features =~= other_features) by {
        assert forall|i: int| 0 <= i < features.len() implies features[i] == other_features[i] by {
            assert(same_feature(target.features@[i], other_target.features@[i]));
        }
    }
    let permissions = target.permissions@.map_values(
        |p: AndroidPermission| permission_element(p),
    );
    let other_permissions = other_target.permissions@.map_values(
        |p: AndroidPermission| permission_element(p),
    );
    assert(permissions =~= other_permissions) by {
        assert forall|i: int| 0 <= i < permissions.len() implies permissions[i]
            == other_permissions[i] by {
            assert(same_permission(target.permissions@[i], other_target.permissions@[i]));
        }
    }
    assert(application_attributes(target) == application_attributes(other_target));
    assert(activity_attributes(target) == activity_attributes(other_target));
}

} // verus!

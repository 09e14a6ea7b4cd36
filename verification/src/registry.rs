//! The template registries: where each template is written (target paths
//! may hold `__APP_NAME__` and `__ANDROID_PACKAGE_PATH__`), which template
//! file it is rendered from, and, for Android, when a whole file is
//! included. Order is write order, which is also report order.

use vstd::prelude::*;

use crate::templates::Capability;

verus! {

/// A core template: its target path and its template file name.
#[derive(Debug, Clone, Copy)]
pub struct CoreTemplate {
    pub target: &'static str,
    pub source: &'static str,
}

/// An iOS template: its target path and its template file name.
#[derive(Debug, Clone, Copy)]
pub struct IosTemplate {
    pub target: &'static str,
    pub source: &'static str,
}

/// When a whole Android file is rendered.
#[derive(Debug, Clone)]
pub enum IncludeWhen {
    /// Whatever capabilities are selected.
    Always,
    /// When at least one of these capabilities is selected.
    AnyOf(Vec<Capability>),
}

/// The inclusion rule.
pub open spec fn included(w: IncludeWhen, caps: Seq<Capability>) -> bool {
    match w {
        IncludeWhen::Always => true,
        IncludeWhen::AnyOf(needed) => exists|i: int|
            0 <= i < needed@.len() && caps.contains(#[trigger] needed@[i]),
    }
}

impl IncludeWhen {
    /// Is the entry rendered for the selected capabilities?
    pub fn should_include(&self, caps: &[Capability]) -> (r: bool)
        ensures
            r == included(*self, caps@),
    {
        match self {
            IncludeWhen::Always => true,
            IncludeWhen::AnyOf(needed) => {
                let mut i: usize = 0;
                while i < needed.len()
                    invariant
                        *self is AnyOf && self->AnyOf_0 == *needed,
                        i <= needed@.len(),
                        forall|j: int| 0 <= j < i ==> !caps@.contains(#[trigger] needed@[j]),
                    decreases needed@.len() - i,
                {
                    let mut k: usize = 0;
                    while k < caps.len()
                        invariant
                            *self is AnyOf && self->AnyOf_0 == *needed,
                            i < needed@.len(),
                            k <= caps@.len(),
                            forall|j: int| 0 <= j < k ==> caps@[j] != needed@[i as int],
                        decreases caps@.len() - k,
                    {
                        if caps[k] == needed[i] {
                            assert(caps@.contains(needed@[i as int]));
                            return true;
                        }
                        k = k + 1;
                    }
                    i = i + 1;
                }
                false
            },
        }
    }
}

/// An Android template: its target path, its template file name, and
/// when it is rendered.
#[derive(Debug, Clone)]
pub struct AndroidTemplate {
    pub target: &'static str,
    pub source: &'static str,
    pub include_when: IncludeWhen,
}

/// The core registry's targets.
pub open spec fn core_targets() -> Seq<Seq<char>> {
    seq![
        "Cargo.toml"@,
        "clippy.toml"@,
        "rust-toolchain.toml"@,
        ".gitignore"@,
        "shared/Cargo.toml"@,
        "shared/src/lib.rs"@,
        "shared/src/app.rs"@,
        "shared/src/ffi.rs"@,
        "shared/src/bin/codegen.rs"@,
        "deny.toml"@,
        "supply-chain/config.toml"@,
        "supply-chain/audits.toml"@,
        "supply-chain/imports.lock"@,
    ]
}

/// The core registry's template files.
pub open spec fn core_sources() -> Seq<Seq<char>> {
    seq![
        "workspace-cargo.toml"@,
        "clippy.toml"@,
        "rust-toolchain.toml"@,
        "gitignore"@,
        "shared-cargo.toml"@,
        "lib.rs"@,
        "app.rs"@,
        "ffi.rs"@,
        "codegen.rs"@,
        "deny.toml"@,
        "supply-chain-config.toml"@,
        "supply-chain-audits.toml"@,
        "supply-chain-imports.lock"@,
    ]
}

/// The core registry.
pub fn core_templates() -> (r: Vec<CoreTemplate>)
    ensures
        r@.map_values(|t: CoreTemplate| t.source@) == core_sources(),
        r@.map_values(|t: CoreTemplate| t.target@) == core_targets(),
{
    let mut out: Vec<CoreTemplate> = Vec::new();
    out.push(CoreTemplate { target: "Cargo.toml", source: "workspace-cargo.toml" });
    out.push(CoreTemplate { target: "clippy.toml", source: "clippy.toml" });
    out.push(CoreTemplate { target: "rust-toolchain.toml", source: "rust-toolchain.toml" });
    out.push(CoreTemplate { target: ".gitignore", source: "gitignore" });
    out.push(CoreTemplate { target: "shared/Cargo.toml", source: "shared-cargo.toml" });
    out.push(CoreTemplate { target: "shared/src/lib.rs", source: "lib.rs" });
    out.push(CoreTemplate { target: "shared/src/app.rs", source: "app.rs" });
    out.push(CoreTemplate { target: "shared/src/ffi.rs", source: "ffi.rs" });
    out.push(CoreTemplate { target: "shared/src/bin/codegen.rs", source: "codegen.rs" });
    out.push(CoreTemplate { target: "deny.toml", source: "deny.toml" });
    out.push(CoreTemplate { target: "supply-chain/config.toml", source: "supply-chain-config.toml" });
    out.push(CoreTemplate { target: "supply-chain/audits.toml", source: "supply-chain-audits.toml" });
    out.push(CoreTemplate { target: "supply-chain/imports.lock", source: "supply-chain-imports.lock" });
    assert(out@.map_values(|t: CoreTemplate| t.target@) =~= core_targets());
    assert(out@.map_values(|t: CoreTemplate| t.source@) =~= core_sources());
    out
}

/// The iOS registry's targets.
pub open spec fn ios_targets() -> Seq<Seq<char>> {
    seq![
        "iOS/project.yml"@,
        "iOS/Makefile"@,
        "iOS/__APP_NAME__/__APP_NAME__App.swift"@,
        "iOS/__APP_NAME__/Core.swift"@,
        "iOS/__APP_NAME__/ContentView.swift"@,
        "iOS/__APP_NAME__/Views/LoadingScreen.swift"@,
        "iOS/__APP_NAME__/Views/HomeScreen.swift"@,
    ]
}

/// The iOS registry's template files.
pub open spec fn ios_sources() -> Seq<Seq<char>> {
    seq![
        "project.yml"@,
        "Makefile"@,
        "App.swift"@,
        "Core.swift"@,
        "ContentView.swift"@,
        "LoadingScreen.swift"@,
        "HomeScreen.swift"@,
    ]
}

/// The iOS registry.
pub fn ios_templates() -> (r: Vec<IosTemplate>)
    ensures
        r@.map_values(|t: IosTemplate| t.source@) == ios_sources(),
        r@.map_values(|t: IosTemplate| t.target@) == ios_targets(),
{
    let mut out: Vec<IosTemplate> = Vec::new();
    out.push(IosTemplate { target: "iOS/project.yml", source: "project.yml" });
    out.push(IosTemplate { target: "iOS/Makefile", source: "Makefile" });
    out.push(IosTemplate { target: "iOS/__APP_NAME__/__APP_NAME__App.swift", source: "App.swift" });
    out.push(IosTemplate { target: "iOS/__APP_NAME__/Core.swift", source: "Core.swift" });
    out.push(IosTemplate { target: "iOS/__APP_NAME__/ContentView.swift", source: "ContentView.swift" });
    out.push(IosTemplate { target: "iOS/__APP_NAME__/Views/LoadingScreen.swift", source: "LoadingScreen.swift" });
    out.push(IosTemplate { target: "iOS/__APP_NAME__/Views/HomeScreen.swift", source: "HomeScreen.swift" });
    assert(out@.map_values(|t: IosTemplate| t.target@) =~= ios_targets());
    assert(out@.map_values(|t: IosTemplate| t.source@) =~= ios_sources());
    out
}

/// The Android registry's targets (the network security configuration is rendered only with `http` or `sse`).
pub open spec fn android_targets() -> Seq<Seq<char>> {
    seq![
        "Android/Makefile"@,
        "Android/.gitignore"@,
        "Android/build.gradle.kts"@,
        "Android/settings.gradle.kts"@,
        "Android/gradle.properties"@,
        "Android/gradle/libs.versions.toml"@,
        "Android/app/build.gradle.kts"@,
        "Android/shared/build.gradle.kts"@,
        "Android/app/src/main/AndroidManifest.xml"@,
        "Android/app/src/main/res/values/themes.xml"@,
        "Android/app/src/main/res/xml/network_security_config.xml"@,
        "Android/app/src/main/java/__ANDROID_PACKAGE_PATH__/__APP_NAME__Application.kt"@,
        "Android/app/src/main/java/__ANDROID_PACKAGE_PATH__/MainActivity.kt"@,
        "Android/app/src/main/java/__ANDROID_PACKAGE_PATH__/core/Core.kt"@,
        "Android/app/src/main/java/__ANDROID_PACKAGE_PATH__/ui/screens/LoadingScreen.kt"@,
        "Android/app/src/main/java/__ANDROID_PACKAGE_PATH__/ui/screens/HomeScreen.kt"@,
        "Android/app/src/main/java/__ANDROID_PACKAGE_PATH__/ui/theme/Color.kt"@,
        "Android/app/src/main/java/__ANDROID_PACKAGE_PATH__/ui/theme/Theme.kt"@,
        "Android/app/src/main/java/__ANDROID_PACKAGE_PATH__/ui/theme/Type.kt"@,
    ]
}

/// The Android registry's template files (`init`).
pub open spec fn android_sources() -> Seq<Seq<char>> {
    seq![
        "Makefile"@,
        "gitignore"@,
        "root-build.gradle.kts"@,
        "settings.gradle.kts"@,
        "gradle.properties"@,
        "libs.versions.toml"@,
        "app-build.gradle.kts"@,
        "shared-build.gradle.kts"@,
        "AndroidManifest.xml"@,
        "themes.xml"@,
        "network-security-config.xml"@,
        "Application.kt"@,
        "MainActivity.kt"@,
        "Core.kt"@,
        "LoadingScreen.kt"@,
        "HomeScreen.kt"@,
        "Color.kt"@,
        "Theme.kt"@,
        "Type.kt"@,
    ]
}

/// The Android registry of `init`.
pub fn android_templates() -> (r: Vec<AndroidTemplate>)
    ensures
        r@.map_values(|t: AndroidTemplate| t.source@) == android_sources(),
        r@.map_values(|t: AndroidTemplate| t.target@) == android_targets(),
        forall|k: int| 0 <= k < r@.len() && k != 10 ==> (#[trigger] r@[k]).include_when is Always,
        r@[10].include_when is AnyOf,
        r@[10].include_when->AnyOf_0@ == seq![Capability::Http, Capability::Sse],
{
    let mut out: Vec<AndroidTemplate> = Vec::new();
    out.push(AndroidTemplate { target: "Android/Makefile", source: "Makefile", include_when: IncludeWhen::Always });
    out.push(AndroidTemplate { target: "Android/.gitignore", source: "gitignore", include_when: IncludeWhen::Always });
    out.push(AndroidTemplate { target: "Android/build.gradle.kts", source: "root-build.gradle.kts", include_when: IncludeWhen::Always });
    out.push(AndroidTemplate { target: "Android/settings.gradle.kts", source: "settings.gradle.kts", include_when: IncludeWhen::Always });
    out.push(AndroidTemplate { target: "Android/gradle.properties", source: "gradle.properties", include_when: IncludeWhen::Always });
    out.push(AndroidTemplate { target: "Android/gradle/libs.versions.toml", source: "libs.versions.toml", include_when: IncludeWhen::Always });
    out.push(AndroidTemplate { target: "Android/app/build.gradle.kts", source: "app-build.gradle.kts", include_when: IncludeWhen::Always });
    out.push(AndroidTemplate { target: "Android/shared/build.gradle.kts", source: "shared-build.gradle.kts", include_when: IncludeWhen::Always });
    out.push(AndroidTemplate { target: "Android/app/src/main/AndroidManifest.xml", source: "AndroidManifest.xml", include_when: IncludeWhen::Always });
    out.push(AndroidTemplate { target: "Android/app/src/main/res/values/themes.xml", source: "themes.xml", include_when: IncludeWhen::Always });
    let mut needed: Vec<Capability> = Vec::new();
    needed.push(Capability::Http);
    needed.push(Capability::Sse);
    out.push(AndroidTemplate { target: "Android/app/src/main/res/xml/network_security_config.xml", source: "network-security-config.xml", include_when: IncludeWhen::AnyOf(needed) });
    out.push(AndroidTemplate { target: "Android/app/src/main/java/__ANDROID_PACKAGE_PATH__/__APP_NAME__Application.kt", source: "Application.kt", include_when: IncludeWhen::Always });
    out.push(AndroidTemplate { target: "Android/app/src/main/java/__ANDROID_PACKAGE_PATH__/MainActivity.kt", source: "MainActivity.kt", include_when: IncludeWhen::Always });
    out.push(AndroidTemplate { target: "Android/app/src/main/java/__ANDROID_PACKAGE_PATH__/core/Core.kt", source: "Core.kt", include_when: IncludeWhen::Always });
    out.push(AndroidTemplate { target: "Android/app/src/main/java/__ANDROID_PACKAGE_PATH__/ui/screens/LoadingScreen.kt", source: "LoadingScreen.kt", include_when: IncludeWhen::Always });
    out.push(AndroidTemplate { target: "Android/app/src/main/java/__ANDROID_PACKAGE_PATH__/ui/screens/HomeScreen.kt", source: "HomeScreen.kt", include_when: IncludeWhen::Always });
    out.push(AndroidTemplate { target: "Android/app/src/main/java/__ANDROID_PACKAGE_PATH__/ui/theme/Color.kt", source: "Color.kt", include_when: IncludeWhen::Always });
    out.push(AndroidTemplate { target: "Android/app/src/main/java/__ANDROID_PACKAGE_PATH__/ui/theme/Theme.kt", source: "Theme.kt", include_when: IncludeWhen::Always });
    out.push(AndroidTemplate { target: "Android/app/src/main/java/__ANDROID_PACKAGE_PATH__/ui/theme/Type.kt", source: "Type.kt", include_when: IncludeWhen::Always });
    assert(out@.map_values(|t: AndroidTemplate| t.target@) =~= android_targets());
    assert(out@.map_values(|t: AndroidTemplate| t.source@) =~= android_sources());
    out
}

/// The Android registry of the render-only `scaffold` command.
pub open spec fn scaffold_android_targets() -> Seq<Seq<char>> {
    seq![
        "Android/Makefile"@,
        "Android/.gitignore"@,
        "Android/build.gradle.kts"@,
        "Android/settings.gradle.kts"@,
        "Android/gradle.properties"@,
        "Android/gradle/libs.versions.toml"@,
        "Android/app/build.gradle.kts"@,
        "Android/shared/build.gradle.kts"@,
        "Android/app/src/main/AndroidManifest.xml"@,
        "Android/app/src/main/res/values/themes.xml"@,
        "Android/app/src/main/java/__ANDROID_PACKAGE_PATH__/__APP_NAME__Application.kt"@,
        "Android/app/src/main/java/__ANDROID_PACKAGE_PATH__/MainActivity.kt"@,
        "Android/app/src/main/java/__ANDROID_PACKAGE_PATH__/core/Core.kt"@,
        "Android/app/src/main/java/__ANDROID_PACKAGE_PATH__/ui/screens/LoadingScreen.kt"@,
        "Android/app/src/main/java/__ANDROID_PACKAGE_PATH__/ui/screens/HomeScreen.kt"@,
        "Android/app/src/main/java/__ANDROID_PACKAGE_PATH__/ui/theme/Color.kt"@,
        "Android/app/src/main/java/__ANDROID_PACKAGE_PATH__/ui/theme/Theme.kt"@,
        "Android/app/src/main/java/__ANDROID_PACKAGE_PATH__/ui/theme/Type.kt"@,
    ]
}

/// The template files of the render-only Android registry.
pub open spec fn scaffold_android_sources() -> Seq<Seq<char>> {
    seq![
        "Makefile"@,
        "gitignore"@,
        "root-build.gradle.kts"@,
        "settings.gradle.kts"@,
        "gradle.properties"@,
        "libs.versions.toml"@,
        "app-build.gradle.kts"@,
        "shared-build.gradle.kts"@,
        "AndroidManifest.xml"@,
        "themes.xml"@,
        "Application.kt"@,
        "MainActivity.kt"@,
        "Core.kt"@,
        "LoadingScreen.kt"@,
        "HomeScreen.kt"@,
        "Color.kt"@,
        "Theme.kt"@,
        "Type.kt"@,
    ]
}

/// The Android registry of the render-only `scaffold` command.
pub fn scaffold_android_templates() -> (r: Vec<AndroidTemplate>)
    ensures
        r@.map_values(|t: AndroidTemplate| t.source@) == scaffold_android_sources(),
        r@.map_values(|t: AndroidTemplate| t.target@) == scaffold_android_targets(),
        forall|k: int| 0 <= k < r@.len() ==> (#[trigger] r@[k]).include_when is Always,
{
    let mut out: Vec<AndroidTemplate> = Vec::new();
    out.push(AndroidTemplate { target: "Android/Makefile", source: "Makefile", include_when: IncludeWhen::Always });
    out.push(AndroidTemplate { target: "Android/.gitignore", source: "gitignore", include_when: IncludeWhen::Always });
    out.push(AndroidTemplate { target: "Android/build.gradle.kts", source: "root-build.gradle.kts", include_when: IncludeWhen::Always });
    out.push(AndroidTemplate { target: "Android/settings.gradle.kts", source: "settings.gradle.kts", include_when: IncludeWhen::Always });
    out.push(AndroidTemplate { target: "Android/gradle.properties", source: "gradle.properties", include_when: IncludeWhen::Always });
    out.push(AndroidTemplate { target: "Android/gradle/libs.versions.toml", source: "libs.versions.toml", include_when: IncludeWhen::Always });
    out.push(AndroidTemplate { target: "Android/app/build.gradle.kts", source: "app-build.gradle.kts", include_when: IncludeWhen::Always });
    out.push(AndroidTemplate { target: "Android/shared/build.gradle.kts", source: "shared-build.gradle.kts", include_when: IncludeWhen::Always });
    out.push(AndroidTemplate { target: "Android/app/src/main/AndroidManifest.xml", source: "AndroidManifest.xml", include_when: IncludeWhen::Always });
    out.push(AndroidTemplate { target: "Android/app/src/main/res/values/themes.xml", source: "themes.xml", include_when: IncludeWhen::Always });
    out.push(AndroidTemplate { target: "Android/app/src/main/java/__ANDROID_PACKAGE_PATH__/__APP_NAME__Application.kt", source: "Application.kt", include_when: IncludeWhen::Always });
    out.push(AndroidTemplate { target: "Android/app/src/main/java/__ANDROID_PACKAGE_PATH__/MainActivity.kt", source: "MainActivity.kt", include_when: IncludeWhen::Always });
    out.push(AndroidTemplate { target: "Android/app/src/main/java/__ANDROID_PACKAGE_PATH__/core/Core.kt", source: "Core.kt", include_when: IncludeWhen::Always });
    out.push(AndroidTemplate { target: "Android/app/src/main/java/__ANDROID_PACKAGE_PATH__/ui/screens/LoadingScreen.kt", source: "LoadingScreen.kt", include_when: IncludeWhen::Always });
    out.push(AndroidTemplate { target: "Android/app/src/main/java/__ANDROID_PACKAGE_PATH__/ui/screens/HomeScreen.kt", source: "HomeScreen.kt", include_when: IncludeWhen::Always });
    out.push(AndroidTemplate { target: "Android/app/src/main/java/__ANDROID_PACKAGE_PATH__/ui/theme/Color.kt", source: "Color.kt", include_when: IncludeWhen::Always });
    out.push(AndroidTemplate { target: "Android/app/src/main/java/__ANDROID_PACKAGE_PATH__/ui/theme/Theme.kt", source: "Theme.kt", include_when: IncludeWhen::Always });
    out.push(AndroidTemplate { target: "Android/app/src/main/java/__ANDROID_PACKAGE_PATH__/ui/theme/Type.kt", source: "Type.kt", include_when: IncludeWhen::Always });
    assert(out@.map_values(|t: AndroidTemplate| t.target@) =~= scaffold_android_targets());
    assert(out@.map_values(|t: AndroidTemplate| t.source@) =~= scaffold_android_sources());
    out
}

} // verus!

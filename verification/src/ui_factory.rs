//! Which user interface framework runs on which platform: the frameworks
//! available, the default one, and the choice of a framework on request.
//! The platform and the frameworks built in are handed in by the caller.

use vstd::prelude::*;
use crate::flutter_ui::UIFramework;

verus! {

/// An operating system.
#[derive(Clone, Copy, Debug, PartialEq, Eq, Structural)]
pub enum Platform {
    Windows,
    Linux,
    MacOS,
    Other,
}

/// The frameworks that run on a platform: Flutter and Qt everywhere,
/// WinUI on Windows and GTK on Linux, in that order.
pub open spec fn frameworks_on(platform: Platform) -> Seq<UIFramework> {
    let base = seq![UIFramework::Flutter, UIFramework::Qt];
    if platform == Platform::Windows {
        base.push(UIFramework::WinUI)
    } else if platform == Platform::Linux {
        base.push(UIFramework::GTK)
    } else {
        base
    }
}

/// The frameworks available on a platform.
pub fn available_frameworks(platform: Platform) -> (r: Vec<UIFramework>)
    ensures
        r@ == frameworks_on(platform),
{
    let mut r: Vec<UIFramework> = Vec::new();
    r.push(UIFramework::Flutter);
    r.push(UIFramework::Qt);
    if platform == Platform::Windows {
        r.push(UIFramework::WinUI);
    } else if platform == Platform::Linux {
        r.push(UIFramework::GTK);
    }
    assert(r@ =~= frameworks_on(platform));
    r
}

/// Whether a framework can be used on a platform: Flutter and Qt always,
/// WinUI on Windows, GTK on Linux.
pub open spec fn framework_usable(framework: UIFramework, platform: Platform) -> bool {
    match framework {
        UIFramework::Flutter => true,
        UIFramework::Qt => true,
        UIFramework::WinUI => platform == Platform::Windows,
        UIFramework::GTK => platform == Platform::Linux,
    }
}

/// Whether a framework can be used on a platform.
pub fn is_framework_available(framework: UIFramework, platform: Platform) -> (r: bool)
    ensures
        r == framework_usable(framework, platform),
{
    match framework {
        UIFramework::Flutter => true,
        UIFramework::Qt => true,
        UIFramework::WinUI => platform == Platform::Windows,
        UIFramework::GTK => platform == Platform::Linux,
    }
}

/// The framework used by default: WinUI on Windows where it is built in,
/// GTK on Linux where it is built in, else Flutter.
pub open spec fn default_framework_of(platform: Platform, winui_built: bool, gtk_built: bool) -> UIFramework {
    if winui_built && platform == Platform::Windows {
        UIFramework::WinUI
    } else if gtk_built && platform == Platform::Linux {
        UIFramework::GTK
    } else {
        UIFramework::Flutter
    }
}

/// The framework used by default.
pub fn default_framework(platform: Platform, winui_built: bool, gtk_built: bool) -> (r: UIFramework)
    ensures
        r == default_framework_of(platform, winui_built, gtk_built),
{
    if winui_built && platform == Platform::Windows {
        UIFramework::WinUI
    } else if gtk_built && platform == Platform::Linux {
        UIFramework::GTK
    } else {
        UIFramework::Flutter
    }
}

/// The name of a platform.
pub fn current_platform(platform: Platform) -> (r: &'static str)
    ensures
        r@ == match platform {
            Platform::Windows => "Windows"@,
            Platform::Linux => "Linux"@,
            Platform::MacOS => "macOS"@,
            Platform::Other => "Unknown"@,
        },
{
    match platform {
        Platform::Windows => "Windows",
        Platform::Linux => "Linux",
        Platform::MacOS => "macOS",
        Platform::Other => "Unknown",
    }
}

/// Why a framework cannot be created.
#[derive(Clone, Debug, PartialEq, Eq)]
pub enum FactoryError {
    /// The framework does not run on this platform, for the reason given.
    PlatformNotSupported { platform: String },
}

/// The framework to create on request: WinUI only on Windows and GTK only
/// on Linux; the others everywhere.
pub fn create_specific(framework: UIFramework, platform: Platform) -> (r: Result<UIFramework, FactoryError>)
    ensures
        r is Ok <==> framework_usable(framework, platform),
        r matches Ok(f) ==> f == framework,
        match framework {
            UIFramework::WinUI => if platform == Platform::Windows {
                r == Ok::<UIFramework, FactoryError>(UIFramework::WinUI)
            } else {
                r matches Err(FactoryError::PlatformNotSupported { platform: m }) && m@
                    == "WinUI is only supported on Windows"@
            },
            UIFramework::GTK => if platform == Platform::Linux {
                r == Ok::<UIFramework, FactoryError>(UIFramework::GTK)
            } else {
                r matches Err(FactoryError::PlatformNotSupported { platform: m }) && m@
                    == "GTK is primarily supported on Linux"@
            },
            _ => r == Ok::<UIFramework, FactoryError>(framework),
        },
{
    match framework {
        UIFramework::WinUI => {
            if platform == Platform::Windows {
                Ok(UIFramework::WinUI)
            } else {
                Err(FactoryError::PlatformNotSupported { platform: "WinUI is only supported on Windows".to_string() })
            }
        },
        UIFramework::GTK => {
            if platform == Platform::Linux {
                Ok(UIFramework::GTK)
            } else {
                Err(FactoryError::PlatformNotSupported { platform: "GTK is primarily supported on Linux".to_string() })
            }
        },
        _ => Ok(framework),
    }
}

/// A framework can be used on a platform exactly when the platform lists it
/// as available (and exactly then can it be created), and the default
/// framework is always one that can be used.
pub proof fn law_available_frameworks_usable(platform: Platform, framework: UIFramework, winui_built: bool, gtk_built: bool)
    ensures
        framework_usable(framework, platform) <==> frameworks_on(platform).contains(framework),
        framework_usable(default_framework_of(platform, winui_built, gtk_built), platform),
{
    let l = frameworks_on(platform);
    if framework_usable(framework, platform) {
        match framework {
            UIFramework::Flutter => assert(l[0] == framework),
            UIFramework::Qt => assert(l[1] == framework),
            _ => assert(l[2] == framework),
        }
    }
}

} // verus!

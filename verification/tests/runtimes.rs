use kachina::runtimes::{
    dotnet_plan, fill_template, of_major, package_name, release_channel, runtime_kind, runtime_stage, vcredist_plan,
    RuntimeKind,
};

#[test]
fn runtime_kinds() {
    assert_eq!(runtime_kind("Microsoft.DotNet.DesktopRuntime.8"), Ok(RuntimeKind::DotNet));
    assert_eq!(runtime_kind("Microsoft.VCRedist.2015+.x64"), Ok(RuntimeKind::VcRedist));
    assert_eq!(runtime_kind("Other.Runtime"), Err("UNSUPPORTED_RUNTIME"));
}

#[test]
fn dotnet_plans() {
    let p = dotnet_plan("Microsoft.DotNet.DesktopRuntime.8").unwrap();
    assert_eq!(p.framework, "Microsoft.WindowsDesktop.App");
    assert_eq!(p.major, "8");
    assert_eq!(p.version, "8");
    assert_eq!(p.version_url, "https://builds.dotnet.microsoft.com/dotnet/WindowsDesktop/$/latest.version");
    let p = dotnet_plan("Microsoft.DotNet.Runtime.8.0.13").unwrap();
    assert_eq!(p.framework, "Microsoft.NETCore.App");
    assert_eq!(p.major, "8");
    assert_eq!(p.version, "8.0.13");
    assert_eq!(fill_template(&p.download_url, &p.version), "https://builds.dotnet.microsoft.com/dotnet/Runtime/8.0.13/dotnet-runtime-8.0.13-win-x64.exe");
    assert_eq!(dotnet_plan("Microsoft.DotNet.Runtime"), Err("INVALID_DOTNET_VERSION"));
    assert_eq!(dotnet_plan("Microsoft.DotNet.AspNet.8"), Err("UNSUPPORTED_DOTNET_RUNTIME"));
    assert_eq!(dotnet_plan("Microsoft.DotNet"), Err("UNSUPPORTED_DOTNET_RUNTIME"));
}

#[test]
fn channels_and_templates() {
    assert_eq!(release_channel("8").as_deref(), Some("8.0"));
    assert_eq!(release_channel("10").as_deref(), Some("10"));
    assert_eq!(release_channel("8.0"), None);
    assert_eq!(release_channel("8.0.13"), None);
    assert_eq!(fill_template("a/$/b-$", "9.0"), "a/9.0/b-9.0");
    assert!(of_major("8.0.13", "8"));
    assert!(!of_major("80.0.1", "8"));
    assert!(!of_major("8", "8"));
}

#[test]
fn vcredist_and_names() {
    let (url, key) = vcredist_plan("Microsoft.VCRedist.2015+.x86").unwrap();
    assert_eq!(url, "https://aka.ms/vs/17/release/vc_redist.x86.exe");
    assert_eq!(key, "SOFTWARE\\Wow6432Node\\Microsoft\\VisualStudio\\14.0\\VC\\Runtimes\\x86");
    assert_eq!(vcredist_plan("Microsoft.VCRedist.2013.x64"), Err("UNSUPPORTED_TAG"));
    assert_eq!(package_name("Microsoft.VCRedist.2015+.x64"), "Kachina.RuntimePackage.Microsoft.VCRedist.2015+.x64.exe");
    assert_eq!(runtime_stage(10, 100), "runtime_download");
    assert_eq!(runtime_stage(99, 100), "runtime_install");
    assert_eq!(runtime_stage(0, 0), "runtime_install");
}

//! The runtimes a project can require (.NET and the Visual C++
//! redistributable): what a runtime tag asks for, where its installer comes
//! from, and how an installed version is recognised. Downloading, running
//! the installers and reading the registry are the host's work.

use vstd::prelude::*;
use vstd::string::StringExecFns;
use crate::text::{chars_eq, chars_of, has_prefix, split_chars, split_on, starts_with_chars, string_of};

verus! {

/// The kind of runtime a tag names.
#[derive(Clone, Copy, Debug, PartialEq, Eq, Structural)]
pub enum RuntimeKind {
    DotNet,
    VcRedist,
}

/// What kind of runtime a tag names; the error code for one that is not
/// supported.
pub fn runtime_kind(tag: &str) -> (r: Result<RuntimeKind, &'static str>)
    ensures
        match r {
            Ok(RuntimeKind::DotNet) => has_prefix(tag@, "Microsoft.DotNet"@),
            Ok(RuntimeKind::VcRedist) => !has_prefix(tag@, "Microsoft.DotNet"@) && has_prefix(tag@, "Microsoft.VCRedist"@),
            Err(e) => !has_prefix(tag@, "Microsoft.DotNet"@) && !has_prefix(tag@, "Microsoft.VCRedist"@) && e@
                == "UNSUPPORTED_RUNTIME"@,
        },
{
    let t = chars_of(tag);
    if starts_with_chars(&t, &chars_of("Microsoft.DotNet")) {
        Ok(RuntimeKind::DotNet)
    } else if starts_with_chars(&t, &chars_of("Microsoft.VCRedist")) {
        Ok(RuntimeKind::VcRedist)
    } else {
        Err("UNSUPPORTED_RUNTIME")
    }
}

/// Pieces joined by `sep`.
pub open spec fn join_with(pieces: Seq<Seq<char>>, sep: char) -> Seq<char>
    decreases pieces.len(),
{
    if pieces.len() == 0 {
        Seq::empty()
    } else if pieces.len() == 1 {
        pieces[0]
    } else {
        join_with(pieces.drop_last(), sep) + seq![sep] + pieces.last()
    }
}

fn join_exec(pieces: &Vec<Vec<char>>, from: usize, to: usize, sep: char) -> (r: Vec<char>)
    requires
        from <= to <= pieces@.len(),
    ensures
        r@ == join_with(pieces@.subrange(from as int, to as int).map_values(|p: Vec<char>| p@), sep),
{
    let mut out: Vec<char> = Vec::new();
    let mut i: usize = from;
    while i < to
        invariant
            from <= i <= to <= pieces@.len(),
            out@ == join_with(pieces@.subrange(from as int, i as int).map_values(|p: Vec<char>| p@), sep),
        decreases to - i,
    {
        let ghost before = out@;
        let ghost prev = pieces@.subrange(from as int, i as int).map_values(|p: Vec<char>| p@);
        let ghost next = pieces@.subrange(from as int, i + 1 as int).map_values(|p: Vec<char>| p@);
        assert(next.drop_last() =~= prev);
        assert(next.last() == pieces@[i as int]@);
        if i > from {
            out.push(sep);
        }
        let p = &pieces[i];
        let mut k: usize = 0;
        while k < p.len()
            invariant
                k <= p@.len(),
                out@ == (if i > from { before + seq![sep] } else { before }) + p@.take(k as int),
            decreases p@.len() - k,
        {
            out.push(p[k]);
            k += 1;
            assert(p@.take(k as int) =~= p@.take(k - 1 as int).push(p@[k - 1 as int]));
        }
        assert(p@.take(p@.len() as int) =~= p@);
        proof {
            if i == from {
                assert(next.len() == 1);
                assert(before =~= Seq::<char>::empty());
                assert(out@ =~= next[0]);
            } else {
                assert(out@ =~= join_with(prev, sep) + seq![sep] + next.last());
            }
        }
        i += 1;
    }
    out
}

/// What installing a .NET runtime needs: where its latest version in a
/// release channel is published, where an installer of a version is, the
/// shared framework it installs, the major version asked for, and the
/// version as the tag gives it.
#[derive(Clone, Debug, PartialEq, Eq)]
pub struct DotnetPlan {
    pub version_url: String,
    pub download_url: String,
    pub framework: String,
    pub major: String,
    pub version: String,
}

pub open spec fn dotnet_spec(tag: Seq<char>) -> Result<(Seq<char>, Seq<char>, Seq<char>, Seq<char>, Seq<char>), Seq<char>> {
    let pieces = split_on(tag, '.');
    let base = join_with(pieces.take(if pieces.len() < 3 { pieces.len() as int } else { 3 }), '.');
    if base == "Microsoft.DotNet.DesktopRuntime"@ {
        if pieces.len() <= 3 {
            Err("INVALID_DOTNET_VERSION"@)
        } else {
            Ok((
                "https://builds.dotnet.microsoft.com/dotnet/WindowsDesktop/$/latest.version"@,
                "https://builds.dotnet.microsoft.com/dotnet/WindowsDesktop/$/windowsdesktop-runtime-$-win-x64.exe"@,
                "Microsoft.WindowsDesktop.App"@,
                pieces[3],
                join_with(pieces.skip(3), '.'),
            ))
        }
    } else if base == "Microsoft.DotNet.Runtime"@ {
        if pieces.len() <= 3 {
            Err("INVALID_DOTNET_VERSION"@)
        } else {
            Ok((
                "https://builds.dotnet.microsoft.com/dotnet/Runtime/$/latest.version"@,
                "https://builds.dotnet.microsoft.com/dotnet/Runtime/$/dotnet-runtime-$-win-x64.exe"@,
                "Microsoft.NETCore.App"@,
                pieces[3],
                join_with(pieces.skip(3), '.'),
            ))
        }
    } else {
        Err("UNSUPPORTED_DOTNET_RUNTIME"@)
    }
}

/// What a `Microsoft.DotNet.DesktopRuntime.<v>` or
/// `Microsoft.DotNet.Runtime.<v>` tag asks for; the error code otherwise.
pub fn dotnet_plan(tag: &str) -> (r: Result<DotnetPlan, &'static str>)
    ensures
        match (r, dotnet_spec(tag@)) {
            (Ok(p), Ok((vu, du, fw, major, version))) => p.version_url@ == vu && p.download_url@ == du && p.framework@
                == fw && p.major@ == major && p.version@ == version,
            (Err(e), Err(f)) => e@ == f,
            _ => false,
        },
{
    let cs = chars_of(tag);
    let pieces = split_chars(&cs, '.');
    let ghost ps = split_on(tag@, '.');
    assert(pieces@.map_values(|p: Vec<char>| p@) =~= ps);
    let n3: usize = if pieces.len() < 3 { pieces.len() } else { 3 };
    let base = join_exec(&pieces, 0, n3, '.');
    assert(pieces@.subrange(0, n3 as int).map_values(|p: Vec<char>| p@) =~= ps.take(n3 as int));
    let (vu, du, fw) = if chars_eq(&base, &chars_of("Microsoft.DotNet.DesktopRuntime")) {
        (
            "https://builds.dotnet.microsoft.com/dotnet/WindowsDesktop/$/latest.version",
            "https://builds.dotnet.microsoft.com/dotnet/WindowsDesktop/$/windowsdesktop-runtime-$-win-x64.exe",
            "Microsoft.WindowsDesktop.App",
        )
    } else if chars_eq(&base, &chars_of("Microsoft.DotNet.Runtime")) {
        (
            "https://builds.dotnet.microsoft.com/dotnet/Runtime/$/latest.version",
            "https://builds.dotnet.microsoft.com/dotnet/Runtime/$/dotnet-runtime-$-win-x64.exe",
            "Microsoft.NETCore.App",
        )
    } else {
        return Err("UNSUPPORTED_DOTNET_RUNTIME");
    };
    if pieces.len() <= 3 {
        return Err("INVALID_DOTNET_VERSION");
    }
    let version = join_exec(&pieces, 3, pieces.len(), '.');
    assert(pieces@.subrange(3, pieces@.len() as int).map_values(|p: Vec<char>| p@) =~= ps.skip(3));
    assert(pieces@[3]@ == ps[3]);
    Ok(
        DotnetPlan {
            version_url: String::from_str(vu),
            download_url: String::from_str(du),
            framework: String::from_str(fw),
            major: string_of(&pieces[3]),
            version: string_of(&version),
        },
    )
}

/// A version given as a release channel (one or two bytes, such as `8`
/// or `10`) is looked up first; the channel is `<v>.0` for one byte, the
/// version itself for two. `None`: the version is exact.
pub fn release_channel(version: &str) -> (r: Option<String>)
    ensures
        r matches Some(c) ==> (version@.len() >= 1 && (c@ == if vstd::utf8::encode_utf8(version@).len() == 1 {
            version@ + ".0"@
        } else {
            version@
        })),
        r is Some <==> (vstd::utf8::encode_utf8(version@).len() == 1 || vstd::utf8::encode_utf8(version@).len() == 2),
{
    let n = version.as_bytes().len();
    if n == 1 {
        proof {
            if version@.len() == 0 {
                assert(vstd::utf8::encode_utf8(version@) =~= Seq::<u8>::empty());
            }
        }
        let mut c = String::from_str(version);
        c.append(".0");
        Some(c)
    } else if n == 2 {
        proof {
            if version@.len() == 0 {
                assert(vstd::utf8::encode_utf8(version@) =~= Seq::<u8>::empty());
            }
        }
        Some(String::from_str(version))
    } else {
        None
    }
}

/// `tmpl` with every `$` replaced by `v`.
pub open spec fn fill_spec(tmpl: Seq<char>, v: Seq<char>) -> Seq<char>
    decreases tmpl.len(),
{
    if tmpl.len() == 0 {
        Seq::empty()
    } else {
        fill_spec(tmpl.drop_last(), v) + if tmpl.last() == '$' { v } else { seq![tmpl.last()] }
    }
}

/// A URL template with its `$` filled in.
pub fn fill_template(tmpl: &str, v: &str) -> (r: String)
    ensures
        r@ == fill_spec(tmpl@, v@),
{
    let t = chars_of(tmpl);
    let vc = chars_of(v);
    let mut out: Vec<char> = Vec::new();
    let mut i: usize = 0;
    while i < t.len()
        invariant
            i <= t@.len(),
            t@ == tmpl@,
            vc@ == v@,
            out@ == fill_spec(t@.take(i as int), v@),
        decreases t@.len() - i,
    {
        assert(t@.take(i + 1 as int).drop_last() =~= t@.take(i as int));
        let ghost before = out@;
        if t[i] == '$' {
            let mut k: usize = 0;
            while k < vc.len()
                invariant
                    k <= vc@.len(),
                    out@ == before + vc@.take(k as int),
                decreases vc@.len() - k,
            {
                out.push(vc[k]);
                k += 1;
                assert(vc@.take(k as int) =~= vc@.take(k - 1 as int).push(vc@[k - 1 as int]));
            }
            assert(vc@.take(vc@.len() as int) =~= vc@);
        } else {
            out.push(t[i]);
        }
        i += 1;
        assert(out@ =~= fill_spec(t@.take(i as int), v@));
    }
    assert(t@.take(t@.len() as int) =~= t@);
    string_of(&out)
}

/// Whether an installed framework version (a directory or value name) is
/// of the major version asked for: it starts with `<major>.`.
pub fn of_major(name: &str, major: &str) -> (r: bool)
    ensures
        r == has_prefix(name@, major@ + seq!['.']),
{
    let mut p = chars_of(major);
    p.push('.');
    assert(p@ =~= major@ + seq!['.']);
    starts_with_chars(&chars_of(name), &p)
}

/// Where a Visual C++ redistributable comes from and the registry key
/// that marks it installed; the error code for another tag.
pub fn vcredist_plan(tag: &str) -> (r: Result<(&'static str, String), &'static str>)
    ensures
        match r {
            Ok((url, key)) => (tag@ == "Microsoft.VCRedist.2015+.x64"@ && url@
                == "https://aka.ms/vs/17/release/vc_redist.x64.exe"@ && key@
                == "SOFTWARE\\Microsoft\\VisualStudio\\14.0\\VC\\Runtimes\\x64"@) || (tag@
                == "Microsoft.VCRedist.2015+.x86"@ && url@ == "https://aka.ms/vs/17/release/vc_redist.x86.exe"@
                && key@ == "SOFTWARE\\Wow6432Node\\Microsoft\\VisualStudio\\14.0\\VC\\Runtimes\\x86"@),
            Err(e) => tag@ != "Microsoft.VCRedist.2015+.x64"@ && tag@ != "Microsoft.VCRedist.2015+.x86"@ && e@
                == "UNSUPPORTED_TAG"@,
        },
{
    let t = chars_of(tag);
    if chars_eq(&t, &chars_of("Microsoft.VCRedist.2015+.x64")) {
        Ok(("https://aka.ms/vs/17/release/vc_redist.x64.exe", String::from_str("SOFTWARE\\Microsoft\\VisualStudio\\14.0\\VC\\Runtimes\\x64")))
    } else if chars_eq(&t, &chars_of("Microsoft.VCRedist.2015+.x86")) {
        Ok(("https://aka.ms/vs/17/release/vc_redist.x86.exe", String::from_str("SOFTWARE\\Wow6432Node\\Microsoft\\VisualStudio\\14.0\\VC\\Runtimes\\x86")))
    } else {
        Err("UNSUPPORTED_TAG")
    }
}

/// The file a runtime's installer is saved as.
pub fn package_name(tag: &str) -> (r: String)
    ensures
        r@ == "Kachina.RuntimePackage."@ + tag@ + ".exe"@,
{
    let mut s = String::from_str("Kachina.RuntimePackage.");
    s.append(tag);
    s.append(".exe");
    s
}

/// The stage a runtime's progress shows: downloading while bytes are still
/// to come, installing otherwise.
pub fn runtime_stage(done: u64, total: u64) -> (r: &'static str)
    ensures
        r@ == (if total > 0 && done + 1 < total { "runtime_download"@ } else { "runtime_install"@ }),
{
    if total > 0 && done < total - 1 {
        "runtime_download"
    } else {
        "runtime_install"
    }
}

} // verus!

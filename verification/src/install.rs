//! The bundled Chromium: pinned builds, downloaded once into the user cache and shared by every
//! session. Two builds of the same version:
//! - `chrome-headless-shell` runs headless mode. It has no browser UI and no GPU process, so it
//!   starts faster and uses much less memory.
//! - `chrome` (the full browser) runs headed mode, and is only downloaded the first time a visible
//!   window is needed. Same version, so both open the same profile.

use crate::path;
use crate::text;
use crate::text::Text;
use vstd::prelude::*;

verus! {

pub const CHROME_VERSION: &'static str = "153.0.8010.36";

#[derive(Debug, Clone, Copy, PartialEq, Eq, Structural)]
pub enum Product {
    HeadlessShell,
    Chrome,
}

/// The name of a build.
pub open spec fn product_name(p: Product) -> Text {
    match p {
        Product::HeadlessShell => "chrome-headless-shell"@,
        Product::Chrome => "chrome"@,
    }
}

/// How a build is called in messages about its installation.
pub open spec fn product_label(p: Product) -> Text {
    match p {
        Product::HeadlessShell => "HeadlessShell"@,
        Product::Chrome => "Chrome"@,
    }
}

impl Product {
    pub fn name(self) -> (r: &'static str)
        ensures
            r@ == product_name(self),
    {
        match self {
            Product::HeadlessShell => "chrome-headless-shell",
            Product::Chrome => "chrome",
        }
    }
}

/// The build for a mode.
pub fn product_for(headless: bool) -> (r: Product)
    ensures
        r == if headless {
            Product::HeadlessShell
        } else {
            Product::Chrome
        },
{
    if headless {
        Product::HeadlessShell
    } else {
        Product::Chrome
    }
}

/// The builds' name for an operating system on a processor.
pub open spec fn platform_of(os: Text, arch: Text) -> Option<Text> {
    if os == "macos"@ && arch == "aarch64"@ {
        Some("mac-arm64"@)
    } else if os == "macos"@ && arch == "x86_64"@ {
        Some("mac-x64"@)
    } else if os == "linux"@ && arch == "x86_64"@ {
        Some("linux64"@)
    } else if os == "linux"@ && arch == "aarch64"@ {
        Some("linux-arm64"@)
    } else {
        None
    }
}

pub fn platform(os: &str, arch: &str) -> (r: Result<&'static str, String>)
    ensures
        match (platform_of(os@, arch@), r) {
            (Some(p), Ok(s)) => s@ == p,
            (None, Err(e)) => e@ == "no bundled Chromium for "@ + os@ + "/"@ + arch@ + "; pass --executable-path"@,
            _ => false,
        },
{
    if text::same(os, "macos") && text::same(arch, "aarch64") {
        Ok("mac-arm64")
    } else if text::same(os, "macos") && text::same(arch, "x86_64") {
        Ok("mac-x64")
    } else if text::same(os, "linux") && text::same(arch, "x86_64") {
        Ok("linux64")
    } else if text::same(os, "linux") && text::same(arch, "aarch64") {
        Ok("linux-arm64")
    } else {
        let mut e = "no bundled Chromium for ".to_string();
        e.append(os);
        e.append("/");
        e.append(arch);
        e.append("; pass --executable-path");
        Err(e)
    }
}

/// The user's cache: the directory that the environment names, or the system's place for caches.
pub open spec fn cache_dir(own: Option<Text>, home: Option<Text>, xdg: Option<Text>, mac: bool) -> Text {
    let h = match home {
        Some(x) => x,
        None => "."@,
    };
    match own {
        Some(d) => d,
        None => if mac {
            path::joined_path(h, "Library/Caches/browser-mcp-rs"@)
        } else {
            match xdg {
                Some(x) => path::joined_path(x, "browser-mcp-rs"@),
                None => path::joined_path(h, ".cache/browser-mcp-rs"@),
            }
        },
    }
}

/// The user's cache. `own`, `home` and `xdg` are what the environment says.
pub fn cache_root(own: &Option<String>, home: &Option<String>, xdg: &Option<String>, mac: bool) -> (r: String)
    ensures
        r@ == cache_dir(text::opt_text(*own), text::opt_text(*home), text::opt_text(*xdg), mac),
{
    match own {
        Some(d) => {
            return d.clone();
        },
        None => {},
    }
    let h = match home {
        Some(x) => x.clone(),
        None => ".".to_string(),
    };
    if mac {
        return path::join(&h, "Library/Caches/browser-mcp-rs");
    }
    match xdg {
        Some(x) => path::join(x, "browser-mcp-rs"),
        None => path::join(&h, ".cache/browser-mcp-rs"),
    }
}

/// Where the builds of the pinned version are.
pub open spec fn builds_dir(cache: Text) -> Text {
    path::joined_path(path::joined_path(cache, "chromium"@), CHROME_VERSION@)
}

pub fn version_dir(cache: &str) -> (r: String)
    ensures
        r@ == builds_dir(cache@),
{
    path::join(&path::join(cache, "chromium"), CHROME_VERSION)
}

/// The archive's top folder.
pub open spec fn top_folder(product: Product, platform: Text) -> Text {
    product_name(product) + "-"@ + platform
}

/// Name of the archive's top-level folder, e.g. `chrome-headless-shell-mac-arm64`.
pub fn folder(product: Product, platform: &str) -> (r: String)
    ensures
        r@ == top_folder(product, platform@),
{
    let mut s = product.name().to_string();
    s.append("-");
    s.append(platform);
    s
}

/// The executable of a build, under a directory that holds its folder.
pub open spec fn executable_path(root: Text, product: Product, platform: Text) -> Text {
    let dir = path::joined_path(root, top_folder(product, platform));
    match product {
        Product::HeadlessShell => path::joined_path(dir, "chrome-headless-shell"@),
        Product::Chrome => if text::text_starts(platform, "mac"@) {
            path::joined_path(dir, "Google Chrome for Testing.app/Contents/MacOS/Google Chrome for Testing"@)
        } else {
            path::joined_path(dir, "chrome"@)
        },
    }
}

pub fn executable_in(root: &str, product: Product, platform: &str) -> (r: String)
    ensures
        r@ == executable_path(root@, product, platform@),
{
    let dir = path::join(root, &folder(product, platform));
    match product {
        Product::HeadlessShell => path::join(&dir, "chrome-headless-shell"),
        Product::Chrome => {
            if text::starts_with(platform, "mac") {
                path::join(&dir, "Google Chrome for Testing.app/Contents/MacOS/Google Chrome for Testing")
            } else {
                path::join(&dir, "chrome")
            }
        },
    }
}

/// Where a build is downloaded from.
pub fn download_url(product: Product, platform: &str) -> (r: String)
    ensures
        r@ == "https://storage.googleapis.com/chrome-for-testing-public/"@ + CHROME_VERSION@ + "/"@ + platform@ + "/"@
            + top_folder(product, platform@) + ".zip"@,
{
    let mut s = "https://storage.googleapis.com/chrome-for-testing-public/".to_string();
    s.append(CHROME_VERSION);
    s.append("/");
    s.append(platform);
    s.append("/");
    s.append(&folder(product, platform));
    s.append(".zip");
    s
}

/// What a build is installed with: unique paths, so two sessions installing at once never see each
/// other's half-written files.
pub struct Staging {
    pub zip: String,
    pub dir: String,
}

/// Paths for a download and its contents, in the directory of the builds.
pub fn staging(dir: &str, pid: u32, nanos: u128) -> (r: Staging)
    ensures
        ({
            let stamp = text::dec(pid as nat) + "-"@ + text::dec(nanos as nat);
            &&& r.zip@ == path::joined_path(dir@, ".download-"@ + stamp + ".zip"@)
            &&& r.dir@ == path::joined_path(dir@, ".staging-"@ + stamp)
        }),
{
    let mut stamp = text::decimal(pid as u128);
    stamp.append("-");
    stamp.append(&text::decimal(nanos));
    let mut zip = ".download-".to_string();
    zip.append(&stamp);
    zip.append(".zip");
    Staging { zip: path::join(dir, &zip), dir: path::join(dir, &text::concat(".staging-", &stamp)) }
}

/// Whether a download has come ten percent further than when that was told last, and how far; a
/// download of unknown size tells nothing.
pub fn progress(done: u64, total: u64, last: u64) -> (r: Option<u64>)
    requires
        done <= u64::MAX / 100,
        last <= u64::MAX - 10,
    ensures
        match r {
            Some(p) => total > 0 && p == done as int * 100 / total as int && p >= last + 10,
            None => total == 0 || done as int * 100 / (total as int) < last + 10,
        },
{
    if total == 0 {
        return None;
    }
    let p: u64 = done * 100 / total;
    if p >= last + 10 {
        Some(p)
    } else {
        None
    }
}

/// What is said of an installed build.
pub fn installed(product: Product, path: &str, in_tool: bool) -> (r: String)
    ensures
        r@ == product_label(product) + " "@ + CHROME_VERSION@ + (if in_tool {
            " is installed at "@
        } else {
            " installed at "@
        }) + path@,
{
    let mut s = match product {
        Product::HeadlessShell => "HeadlessShell".to_string(),
        Product::Chrome => "Chrome".to_string(),
    };
    s.append(" ");
    s.append(CHROME_VERSION);
    s.append(if in_tool { " is installed at " } else { " installed at " });
    s.append(path);
    s
}

/// The builds that there are, by the operating system and the processor; for others there is none.
pub proof fn law_platforms(os: Text, arch: Text)
    ensures
        platform_of("macos"@, "aarch64"@) == Some("mac-arm64"@),
        platform_of("macos"@, "x86_64"@) == Some("mac-x64"@),
        platform_of("linux"@, "x86_64"@) == Some("linux64"@),
        platform_of("linux"@, "aarch64"@) == Some("linux-arm64"@),
        os != "macos"@ && os != "linux"@ ==> platform_of(os, arch) is None,
        arch != "aarch64"@ && arch != "x86_64"@ ==> platform_of(os, arch) is None,
{
    reveal_strlit("macos");
    reveal_strlit("linux");
    reveal_strlit("aarch64");
    reveal_strlit("x86_64");
    assert("macos"@.len() == 5 && "macos"@[0] == 'm');
    assert("linux"@.len() == 5 && "linux"@[0] == 'l');
    assert("x86_64"@.len() == 6);
    assert("aarch64"@.len() == 7);
}

/// The cache is where the environment says, and else in the system's place for caches.
pub proof fn law_caches(d: Text, home: Text, xdg: Text, mac: bool, any: Option<Text>)
    ensures
        cache_dir(Some(d), any, any, mac) == d,
        cache_dir(None, Some(home), any, true) == path::joined_path(home, "Library/Caches/browser-mcp-rs"@),
        cache_dir(None, any, Some(xdg), false) == path::joined_path(xdg, "browser-mcp-rs"@),
        cache_dir(None, Some(home), None, false) == path::joined_path(home, ".cache/browser-mcp-rs"@),
        cache_dir(None, None, None, false) == path::joined_path("."@, ".cache/browser-mcp-rs"@),
        cache_dir(None, None, any, true) == path::joined_path("."@, "Library/Caches/browser-mcp-rs"@),
{
}

/// Where a build and its executable are: under the cache, the version and the folder of its archive.
pub proof fn law_builds(cache: Text, root: Text, platform: Text)
    ensures
        builds_dir(cache) == path::joined_path(path::joined_path(cache, "chromium"@), "153.0.8010.36"@),
        top_folder(Product::HeadlessShell, platform) == "chrome-headless-shell"@ + "-"@ + platform,
        top_folder(Product::Chrome, platform) == "chrome"@ + "-"@ + platform,
        executable_path(root, Product::HeadlessShell, platform) == path::joined_path(
            path::joined_path(root, "chrome-headless-shell"@ + "-"@ + platform),
            "chrome-headless-shell"@,
        ),
        text::text_starts(platform, "mac"@) ==> executable_path(root, Product::Chrome, platform) == path::joined_path(
            path::joined_path(root, "chrome"@ + "-"@ + platform),
            "Google Chrome for Testing.app/Contents/MacOS/Google Chrome for Testing"@,
        ),
        !text::text_starts(platform, "mac"@) ==> executable_path(root, Product::Chrome, platform) == path::joined_path(
            path::joined_path(root, "chrome"@ + "-"@ + platform),
            "chrome"@,
        ),
        product_label(Product::HeadlessShell) == "HeadlessShell"@ && product_label(Product::Chrome) == "Chrome"@,
{
}

} // verus!

//! The Android project that wraps a page in a WebView: its directories,
//! which project files are copied into its assets, and the files whose text
//! depends on the application. The application writes them and runs Gradle.

use vstd::prelude::*;
use crate::text::{chars_of, has_prefix, push_all, push_str, replace_spec, starts_with_str, string_from};

verus! {

/// The directories of the project, relative to its root.
pub open spec fn android_dirs_spec() -> Seq<Seq<char>> {
    seq![
        "app/src/main/assets"@,
        "app/src/main/java/com/nefu/app"@,
        "app/src/main/res/values"@,
        "app/src/main/res/mipmap-anydpi-v26"@,
        "app/src/main/res/drawable"@,
        "gradle/wrapper"@,
    ]
}

/// The directories to create, relative to the project's root.
pub fn android_dirs() -> (r: Vec<String>)
    ensures
        crate::config::string_views(r@) == android_dirs_spec(),
{
    let mut v: Vec<String> = Vec::new();
    v.push(crate::text::owned("app/src/main/assets"));
    v.push(crate::text::owned("app/src/main/java/com/nefu/app"));
    v.push(crate::text::owned("app/src/main/res/values"));
    v.push(crate::text::owned("app/src/main/res/mipmap-anydpi-v26"));
    v.push(crate::text::owned("app/src/main/res/drawable"));
    v.push(crate::text::owned("gradle/wrapper"));
    assert(crate::config::string_views(v@) =~= android_dirs_spec());
    v
}

/// Directories that are not copied into the assets: build output, caches,
/// version control and editor settings.
pub open spec fn excluded_dir_spec(name: Seq<char>) -> bool {
    name == "dist"@ || name == "android"@ || name == "target"@ || name == ".nefu"@ || name == ".git"@
        || name == ".cargo"@ || name == "node_modules"@ || name == ".idea"@ || name == ".vscode"@ || name
        == "build"@ || name == "deps"@ || name == "nefu.exe.WebView2"@ || name == ".gradle"@
}

/// Whether a directory of this name is left out of the assets.
pub fn is_excluded_dir(name: &str) -> (r: bool)
    ensures
        r == excluded_dir_spec(name@),
{
    let n = chars_of(name);
    let s = n.as_slice();
    crate::text::eq_str(s, "dist") || crate::text::eq_str(s, "android") || crate::text::eq_str(s, "target")
        || crate::text::eq_str(s, ".nefu") || crate::text::eq_str(s, ".git") || crate::text::eq_str(s, ".cargo")
        || crate::text::eq_str(s, "node_modules") || crate::text::eq_str(s, ".idea") || crate::text::eq_str(
        s,
        ".vscode",
    ) || crate::text::eq_str(s, "build") || crate::text::eq_str(s, "deps") || crate::text::eq_str(
        s,
        "nefu.exe.WebView2",
    ) || crate::text::eq_str(s, ".gradle")
}

/// Extensions of files that are not copied: sources, settings, binaries
/// and logs.
pub open spec fn skipped_ext_spec(ext: Seq<char>) -> bool {
    ext == "nc"@ || ext == "toml"@ || ext == "exe"@ || ext == "pdb"@ || ext == "log"@ || ext == "bin"@ || ext
        == "app"@ || ext == "apk"@
}

/// A file is copied unless its extension is skipped, its name is hidden,
/// or it is the `nefu` executable.
pub open spec fn copied_file_spec(name: Seq<char>) -> bool {
    !(match crate::protocol::path_extension_spec(name) {
        Some(e) => skipped_ext_spec(e),
        None => false,
    }) && !has_prefix(name, "."@) && name != "nefu"@ && name != "nefu.exe"@
}

/// Whether a file of this name is copied into the assets.
pub fn is_copied_file(name: &str) -> (r: bool)
    ensures
        r == copied_file_spec(name@),
{
    let skipped = match crate::protocol::path_extension(name) {
        Some(e) => {
            let ev = chars_of(e.as_str());
            let s = ev.as_slice();
            crate::text::eq_str(s, "nc") || crate::text::eq_str(s, "toml") || crate::text::eq_str(s, "exe")
                || crate::text::eq_str(s, "pdb") || crate::text::eq_str(s, "log") || crate::text::eq_str(s, "bin")
                || crate::text::eq_str(s, "app") || crate::text::eq_str(s, "apk")
        },
        None => false,
    };
    let n = chars_of(name);
    !skipped && !starts_with_str(n.as_slice(), ".") && !crate::text::eq_str(n.as_slice(), "nefu")
        && !crate::text::eq_str(n.as_slice(), "nefu.exe")
}

/// `s` without any number of leading `p`.
pub open spec fn trim_start_matches_spec(s: Seq<char>, p: Seq<char>) -> Seq<char>
    decreases s.len(),
{
    if p.len() > 0 && has_prefix(s, p) {
        trim_start_matches_spec(s.skip(p.len() as int), p)
    } else {
        s
    }
}

fn trim_start_matches(s: &[char], p: &str) -> (r: Vec<char>)
    ensures
        r@ == trim_start_matches_spec(s@, p@),
{
    let pv = chars_of(p);
    let mut i: usize = 0;
    assert(s@.skip(0) =~= s@);
    while pv.len() > 0 && i < s.len() && crate::text::matches_at(s, pv.as_slice(), i)
        invariant
            0 <= i <= s@.len(),
            pv@ == p@,
            trim_start_matches_spec(s@, p@) == trim_start_matches_spec(s@.skip(i as int), p@),
        decreases s@.len() - i,
    {
        assert(has_prefix(s@.skip(i as int), p@)) by {
            assert(s@.skip(i as int).subrange(0, p@.len() as int) =~= s@.subrange(i as int, i + p@.len()));
        }
        assert(s@.skip(i as int).skip(p@.len() as int) =~= s@.skip(i + p@.len()));
        i = i + pv.len();
    }
    proof {
        if pv@.len() > 0 && i < s@.len() && has_prefix(s@.skip(i as int), p@) {
            assert(s@.skip(i as int).subrange(0, p@.len() as int) =~= s@.subrange(i as int, i + p@.len()));
        }
        if i == s@.len() && p@.len() > 0 {
            assert(s@.skip(i as int).len() == 0);
        }
    }
    crate::text::slice_chars(s, i, s.len())
}

/// The address the WebView loads: the entry file without leading `./` and
/// `/`, under the packaged web assets.
pub open spec fn asset_url_spec(entry: Seq<char>) -> Seq<char> {
    "file:///android_asset/web/"@ + trim_start_matches_spec(trim_start_matches_spec(entry, "./"@), "/"@)
}

/// The address of the entry page inside the package.
pub fn asset_url(entry_file: &str) -> (r: String)
    ensures
        r@ == asset_url_spec(entry_file@),
{
    let e = chars_of(entry_file);
    let a = trim_start_matches(e.as_slice(), "./");
    let b = trim_start_matches(a.as_slice(), "/");
    let mut o = chars_of("file:///android_asset/web/");
    push_all(&mut o, b.as_slice());
    string_from(o.as_slice())
}

/// The activity's source before the address.
pub const MAIN_ACTIVITY_HEAD: &'static str = "package com.nefu.app;

import android.annotation.SuppressLint;
import android.os.Bundle;
import android.view.KeyEvent;
import android.webkit.WebChromeClient;
import android.webkit.WebSettings;
import android.webkit.WebView;
import android.webkit.WebViewClient;

import androidx.appcompat.app.AppCompatActivity;

public class MainActivity extends AppCompatActivity {

    private WebView webView;

    @SuppressLint(\"SetJavaScriptEnabled\")
    @Override
    protected void onCreate(Bundle savedInstanceState) {
        super.onCreate(savedInstanceState);
        
        webView = new WebView(this);
        setContentView(webView);

        WebSettings settings = webView.getSettings();
        settings.setJavaScriptEnabled(true);
";

/// The activity's source up to the address, continued.
pub const MAIN_ACTIVITY_MIDDLE: &'static str = "        settings.setDomStorageEnabled(true);
        settings.setLoadWithOverviewMode(true);
        settings.setUseWideViewPort(true);
        settings.setAllowFileAccess(true);
        settings.setAllowContentAccess(true);
        settings.setMediaPlaybackRequiresUserGesture(false);
        settings.setMixedContentMode(WebSettings.MIXED_CONTENT_COMPATIBILITY_MODE);
        
        // Enable the Nefu JS bridge
        webView.addJavascriptInterface(new NefuBridge(this), \"NefuAndroid\");

        webView.setWebViewClient(new WebViewClient());
        webView.setWebChromeClient(new WebChromeClient());

        // Load the locally packaged web resources
        webView.loadUrl(\"";

/// The activity's source after the address.
pub const MAIN_ACTIVITY_TAIL: &'static str = "\");
    }

    @Override
    public boolean onKeyDown(int keyCode, KeyEvent event) {
        if (keyCode == KeyEvent.KEYCODE_BACK && webView.canGoBack()) {
            webView.goBack();
            return true;
        }
        return super.onKeyDown(keyCode, event);
    }

    @Override
    protected void onDestroy() {
        if (webView != null) {
            webView.destroy();
        }
        super.onDestroy();
    }
}
";

/// `MainActivity.java`: a WebView that loads the entry page.
pub fn main_activity_java(entry_file: &str) -> (r: String)
    ensures
        r@ == MAIN_ACTIVITY_HEAD@ + MAIN_ACTIVITY_MIDDLE@ + asset_url_spec(entry_file@) + MAIN_ACTIVITY_TAIL@,
{
    let mut o = chars_of(MAIN_ACTIVITY_HEAD);
    push_str(&mut o, MAIN_ACTIVITY_MIDDLE);
    let u = asset_url(entry_file);
    push_str(&mut o, u.as_str());
    push_str(&mut o, MAIN_ACTIVITY_TAIL);
    string_from(o.as_slice())
}

/// The manifest before the application's label.
pub const MANIFEST_HEAD: &'static str = "<?xml version=\"1.0\" encoding=\"utf-8\"?>
<manifest xmlns:android=\"http://schemas.android.com/apk/res/android\"
    package=\"com.nefu.app\">

    <uses-permission android:name=\"android.permission.INTERNET\" />
    <uses-permission android:name=\"android.permission.ACCESS_NETWORK_STATE\" />

    <application
        android:allowBackup=\"true\"
        android:icon=\"@mipmap/ic_launcher\"
        android:label=\"";

/// The manifest after the application's label.
pub const MANIFEST_TAIL: &'static str = "\"
        android:roundIcon=\"@mipmap/ic_launcher_round\"
        android:supportsRtl=\"true\"
        android:theme=\"@style/Theme.NefuApp\"
        android:usesCleartextTraffic=\"true\">
        <activity
            android:name=\".MainActivity\"
            android:exported=\"true\"
            android:configChanges=\"orientation|screenSize|keyboardHidden\"
            android:screenOrientation=\"portrait\">
            <intent-filter>
                <action android:name=\"android.intent.action.MAIN\" />
                <category android:name=\"android.intent.category.LAUNCHER\" />
            </intent-filter>
        </activity>
    </application>
</manifest>
";

/// `AndroidManifest.xml`, labelled with the application's name.
pub fn manifest_xml(app_name: &str) -> (r: String)
    ensures
        r@ == MANIFEST_HEAD@ + app_name@ + MANIFEST_TAIL@,
{
    let mut o = chars_of(MANIFEST_HEAD);
    push_str(&mut o, app_name);
    push_str(&mut o, MANIFEST_TAIL);
    string_from(o.as_slice())
}

/// `strings.xml`, naming the application.
pub fn strings_xml(app_name: &str) -> (r: String)
    ensures
        r@ == "<?xml version=\"1.0\" encoding=\"utf-8\"?>
<resources>
    <string name=\"app_name\">"@ + app_name@ + "</string>
</resources>
"@,
{
    let mut o = chars_of("<?xml version=\"1.0\" encoding=\"utf-8\"?>
<resources>
    <string name=\"app_name\">");
    push_str(&mut o, app_name);
    push_str(&mut o, "</string>
</resources>
");
    string_from(o.as_slice())
}

/// `local.properties`, pointing at the SDK with backslashes made slashes.
pub fn local_properties(sdk_path: &str) -> (r: String)
    ensures
        r@ == "## This file is automatically generated by Nefu.\n# Do not modify this file.\n#\nsdk.dir="@
            + replace_spec(sdk_path@, "\\"@, "/"@) + "\n"@,
{
    proof {
        reveal_strlit("\\");
    }
    let p = chars_of(sdk_path);
    let n = crate::text::replace_str(p.as_slice(), "\\", "/");
    let mut o = chars_of("## This file is automatically generated by Nefu.\n# Do not modify this file.\n#\nsdk.dir=");
    push_all(&mut o, n.as_slice());
    push_str(&mut o, "\n");
    string_from(o.as_slice())
}

/// The application's name in the Android project: the name asked for, or
/// the configured output name where the default `NefuApp` was kept.
pub fn android_app_name(requested: &str, output: &str) -> (r: String)
    ensures
        r@ == (if requested@ == "NefuApp"@ {
            output@
        } else {
            requested@
        }),
{
    let q = chars_of(requested);
    if crate::text::eq_str(q.as_slice(), "NefuApp") {
        crate::text::owned(output)
    } else {
        crate::text::owned(requested)
    }
}

} // verus!

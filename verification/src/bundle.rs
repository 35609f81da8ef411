//! The texts that packaging writes beside a build: the macOS bundle's
//! `Info.plist` and the NSIS installer script for Windows.

use vstd::prelude::*;
use crate::config::NefuConfig;
use crate::text::{chars_of, lowercase, push_str, string_from, to_lowercase};

verus! {

/// The name of the macOS bundle directory for an output name.
pub open spec fn app_bundle_name_spec(output: Seq<char>) -> Seq<char> {
    output + ".app"@
}

/// `<output>.app`.
pub fn app_bundle_name(output: &str) -> (r: String)
    ensures
        r@ == app_bundle_name_spec(output@),
{
    let mut o = chars_of(output);
    push_str(&mut o, ".app");
    string_from(o.as_slice())
}

/// The `Info.plist` of a bundle whose executable is `name`: its identifier
/// is `dev.nefu.` and the lowercased name.
pub open spec fn info_plist_spec(name: Seq<char>, version: Seq<char>) -> Seq<char> {
    "<?xml version=\"1.0\" encoding=\"UTF-8\"?>
<!DOCTYPE plist PUBLIC \"-//Apple//DTD PLIST 1.0//EN\" \"http://www.apple.com/DTDs/PropertyList-1.0.dtd\">
<plist version=\"1.0\">
<dict>
    <key>CFBundleName</key>
    <string>"@
        + name
        + "</string>
    <key>CFBundleDisplayName</key>
    <string>"@
        + name
        + "</string>
    <key>CFBundleIdentifier</key>
    <string>"@
        + "dev.nefu."@ + lowercase(name)
        + "</string>
    <key>CFBundleVersion</key>
    <string>"@
        + version
        + "</string>
    <key>CFBundleShortVersionString</key>
    <string>"@
        + version
        + "</string>
    <key>CFBundleExecutable</key>
    <string>"@
        + name
        + "</string>
    <key>CFBundlePackageType</key>
    <string>APPL</string>
    <key>LSMinimumSystemVersion</key>
    <string>10.13</string>
    <key>NSHighResolutionCapable</key>
    <true/>
    <key>CFBundleIconFile</key>
    <string>icon</string>
</dict>
</plist>
"@
}

/// The `Info.plist` of the bundle built for this configuration.
pub fn info_plist(config: &NefuConfig) -> (r: String)
    ensures
        r@ == info_plist_spec(config.output@, config.version@),
{
    let name = config.output.as_str();
    let version = config.version.as_str();
    let low = to_lowercase(chars_of(name).as_slice());
    let mut id = chars_of("dev.nefu.");
    crate::text::push_all(&mut id, low.as_slice());
    let bundle_id = string_from(id.as_slice());
    let mut o = chars_of("<?xml version=\"1.0\" encoding=\"UTF-8\"?>
<!DOCTYPE plist PUBLIC \"-//Apple//DTD PLIST 1.0//EN\" \"http://www.apple.com/DTDs/PropertyList-1.0.dtd\">
<plist version=\"1.0\">
<dict>
    <key>CFBundleName</key>
    <string>");
    push_str(&mut o, name);
    push_str(&mut o, "</string>
    <key>CFBundleDisplayName</key>
    <string>");
    push_str(&mut o, name);
    push_str(&mut o, "</string>
    <key>CFBundleIdentifier</key>
    <string>");
    push_str(&mut o, bundle_id.as_str());
    push_str(&mut o, "</string>
    <key>CFBundleVersion</key>
    <string>");
    push_str(&mut o, version);
    push_str(&mut o, "</string>
    <key>CFBundleShortVersionString</key>
    <string>");
    push_str(&mut o, version);
    push_str(&mut o, "</string>
    <key>CFBundleExecutable</key>
    <string>");
    push_str(&mut o, name);
    push_str(&mut o, "</string>
    <key>CFBundlePackageType</key>
    <string>APPL</string>
    <key>LSMinimumSystemVersion</key>
    <string>10.13</string>
    <key>NSHighResolutionCapable</key>
    <true/>
    <key>CFBundleIconFile</key>
    <string>icon</string>
</dict>
</plist>
");
    string_from(o.as_slice())
}

/// The NSIS script that installs `exe` under the output name, with the
/// title on the shortcut and in the uninstall entry.
pub open spec fn nsis_script_spec(title: Seq<char>, output: Seq<char>, version: Seq<char>, exe: Seq<char>) -> Seq<char> {
    "; Nefu installer script -- automatically generated by `nefu build exe --installer`
; Requires makensis from NSIS (https://nsis.sourceforge.io) to compile
Name \""@
        + title
        + "\"
OutFile \""@
        + output
        + "_setup.exe\"
InstallDir \"$PROGRAMFILES64\\"@
        + output
        + "\"
InstallDirRegKey HKLM \"Software\\"@
        + output
        + "\" \"InstallDir\"
RequestExecutionLevel admin

Page directory
Page instfiles
UninstPage uninstConfirm
UninstPage instfiles

Section \"Install\"
  SetOutPath \"$INSTDIR\"
  File \""@
        + exe
        + "\"
  WriteUninstaller \"$INSTDIR\\uninstall.exe\"
  CreateShortcut \"$DESKTOP\\"@
        + title
        + ".lnk\" \"$INSTDIR\\"@
        + exe
        + "\"
  WriteRegStr HKLM \"Software\\Microsoft\\Windows\\CurrentVersion\\Uninstall\\"@
        + output
        + "\" \"DisplayName\" \""@
        + title
        + "\"
  WriteRegStr HKLM \"Software\\Microsoft\\Windows\\CurrentVersion\\Uninstall\\"@
        + output
        + "\" \"DisplayVersion\" \""@
        + version
        + "\"
  WriteRegStr HKLM \"Software\\Microsoft\\Windows\\CurrentVersion\\Uninstall\\"@
        + output
        + "\" \"UninstallString\" '\"$INSTDIR\\uninstall.exe\"'
  WriteRegStr HKLM \"Software\\Microsoft\\Windows\\CurrentVersion\\Uninstall\\"@
        + output
        + "\" \"InstallDir\" \"$INSTDIR\"
SectionEnd

Section \"Uninstall\"
  Delete \"$INSTDIR\\"@
        + exe
        + "\"
  Delete \"$INSTDIR\\uninstall.exe\"
  Delete \"$DESKTOP\\"@
        + title
        + ".lnk\"
  RMDir \"$INSTDIR\"
  DeleteRegKey HKLM \"Software\\Microsoft\\Windows\\CurrentVersion\\Uninstall\\"@
        + output
        + "\"
  DeleteRegKey HKLM \"Software\\"@
        + output
        + "\"
SectionEnd
"@
}

/// The installer script for this configuration; `exe_name` is the file
/// name of the built executable.
pub fn nsis_script(config: &NefuConfig, exe_name: &str) -> (r: String)
    ensures
        r@ == nsis_script_spec(
            match config.title {
                Some(t) => t@,
                None => config.output@,
            },
            config.output@,
            config.version@,
            exe_name@,
        ),
{
    let t = config.get_title();
    let title = t.as_str();
    let output = config.output.as_str();
    let version = config.version.as_str();
    let mut o = chars_of("; Nefu installer script -- automatically generated by `nefu build exe --installer`
; Requires makensis from NSIS (https://nsis.sourceforge.io) to compile
Name \"");
    push_str(&mut o, title);
    push_str(&mut o, "\"
OutFile \"");
    push_str(&mut o, output);
    push_str(&mut o, "_setup.exe\"
InstallDir \"$PROGRAMFILES64\\");
    push_str(&mut o, output);
    push_str(&mut o, "\"
InstallDirRegKey HKLM \"Software\\");
    push_str(&mut o, output);
    push_str(&mut o, "\" \"InstallDir\"
RequestExecutionLevel admin

Page directory
Page instfiles
UninstPage uninstConfirm
UninstPage instfiles

Section \"Install\"
  SetOutPath \"$INSTDIR\"
  File \"");
    push_str(&mut o, exe_name);
    push_str(&mut o, "\"
  WriteUninstaller \"$INSTDIR\\uninstall.exe\"
  CreateShortcut \"$DESKTOP\\");
    push_str(&mut o, title);
    push_str(&mut o, ".lnk\" \"$INSTDIR\\");
    push_str(&mut o, exe_name);
    push_str(&mut o, "\"
  WriteRegStr HKLM \"Software\\Microsoft\\Windows\\CurrentVersion\\Uninstall\\");
    push_str(&mut o, output);
    push_str(&mut o, "\" \"DisplayName\" \"");
    push_str(&mut o, title);
    push_str(&mut o, "\"
  WriteRegStr HKLM \"Software\\Microsoft\\Windows\\CurrentVersion\\Uninstall\\");
    push_str(&mut o, output);
    push_str(&mut o, "\" \"DisplayVersion\" \"");
    push_str(&mut o, version);
    push_str(&mut o, "\"
  WriteRegStr HKLM \"Software\\Microsoft\\Windows\\CurrentVersion\\Uninstall\\");
    push_str(&mut o, output);
    push_str(&mut o, "\" \"UninstallString\" '\"$INSTDIR\\uninstall.exe\"'
  WriteRegStr HKLM \"Software\\Microsoft\\Windows\\CurrentVersion\\Uninstall\\");
    push_str(&mut o, output);
    push_str(&mut o, "\" \"InstallDir\" \"$INSTDIR\"
SectionEnd

Section \"Uninstall\"
  Delete \"$INSTDIR\\");
    push_str(&mut o, exe_name);
    push_str(&mut o, "\"
  Delete \"$INSTDIR\\uninstall.exe\"
  Delete \"$DESKTOP\\");
    push_str(&mut o, title);
    push_str(&mut o, ".lnk\"
  RMDir \"$INSTDIR\"
  DeleteRegKey HKLM \"Software\\Microsoft\\Windows\\CurrentVersion\\Uninstall\\");
    push_str(&mut o, output);
    push_str(&mut o, "\"
  DeleteRegKey HKLM \"Software\\");
    push_str(&mut o, output);
    push_str(&mut o, "\"
SectionEnd
");
    string_from(o.as_slice())
}

} // verus!

//! The JavaScript bridge: window commands, the path and key checks used by
//! its file and storage methods, and the script that pages receive. The
//! method handlers themselves run in the application.

use vstd::prelude::*;
use crate::text::{
    chars_of, contains, contains_seq, has_prefix, is_alphanumeric, owned, push_str, starts_with_str,
    string_from, unicode_alphanumeric,
};

verus! {

/// A window command sent from a page.
#[derive(Debug, Clone, Copy, PartialEq, Eq, Structural)]
pub enum WindowCommand {
    /// Minimize.
    Minimize,
    /// Maximize.
    Maximize,
    /// Restore.
    Restore,
    /// Close.
    Close,
}

/// A path a page may read or write: no `..` anywhere, and under `./`,
/// `data/`, `resources/` or `assets/`.
pub open spec fn safe_path_spec(path: Seq<char>) -> bool {
    !contains_seq(path, ".."@) && (has_prefix(path, "./"@) || has_prefix(path, "data/"@) || has_prefix(
        path,
        "resources/"@,
    ) || has_prefix(path, "assets/"@))
}

/// A path that a page may use has no two dots in a row anywhere and is
/// relative: it does not begin with `/` or `\\`. Any path under `data/`,
/// `resources/`, `assets/` or `./` without two dots in a row may be used.
pub proof fn law_safe_path(path: Seq<char>)
    ensures
        safe_path_spec(path) ==> forall|i: int| 0 <= i < path.len() - 1 ==> !(#[trigger] path[i] == '.' && path[i + 1]
            == '.'),
        safe_path_spec(path) ==> path.len() > 0 && path[0] != '/' && path[0] != '\\',
        forall|rest: Seq<char>|
            #![trigger "data/"@ + rest]
            !contains_seq("data/"@ + rest, ".."@) ==> safe_path_spec("data/"@ + rest),
        forall|rest: Seq<char>|
            #![trigger "assets/"@ + rest]
            !contains_seq("assets/"@ + rest, ".."@) ==> safe_path_spec("assets/"@ + rest),
        forall|rest: Seq<char>|
            #![trigger "resources/"@ + rest]
            !contains_seq("resources/"@ + rest, ".."@) ==> safe_path_spec("resources/"@ + rest),
{
    reveal_strlit("..");
    reveal_strlit("./");
    reveal_strlit("data/");
    reveal_strlit("resources/");
    reveal_strlit("assets/");
    if safe_path_spec(path) {
        assert forall|i: int| 0 <= i < path.len() - 1 implies !(#[trigger] path[i] == '.' && path[i + 1] == '.') by {
            if path[i] == '.' && path[i + 1] == '.' {
                assert(path.subrange(i, i + 2) =~= ".."@);
                assert(crate::text::occurs_at(path, ".."@, i));
            }
        }
        assert(path[0] == path.subrange(0, 2)[0] || path[0] == path.subrange(0, 5)[0] || path[0] == path.subrange(0, 10)[0]
            || path[0] == path.subrange(0, 7)[0]);
    }
    assert forall|rest: Seq<char>| #![trigger "data/"@ + rest] !contains_seq("data/"@ + rest, ".."@) implies safe_path_spec(
        "data/"@ + rest,
    ) by {
        assert(("data/"@ + rest).subrange(0, 5) =~= "data/"@);
    }
    assert forall|rest: Seq<char>| #![trigger "assets/"@ + rest] !contains_seq("assets/"@ + rest, ".."@) implies safe_path_spec(
        "assets/"@ + rest,
    ) by {
        assert(("assets/"@ + rest).subrange(0, 7) =~= "assets/"@);
    }
    assert forall|rest: Seq<char>| #![trigger "resources/"@ + rest] !contains_seq("resources/"@ + rest, ".."@) implies safe_path_spec(
        "resources/"@ + rest,
    ) by {
        assert(("resources/"@ + rest).subrange(0, 10) =~= "resources/"@);
    }
}

/// Whether a page may use this path.
pub fn is_safe_path(path: &str) -> (r: bool)
    ensures
        r == safe_path_spec(path@),
{
    let p = chars_of(path);
    let dots = chars_of("..");
    if contains(p.as_slice(), dots.as_slice()) {
        return false;
    }
    starts_with_str(p.as_slice(), "./") || starts_with_str(p.as_slice(), "data/") || starts_with_str(
        p.as_slice(),
        "resources/",
    ) || starts_with_str(p.as_slice(), "assets/")
}

/// A storage key made safe for a file name: letters, digits, `-` and `_`
/// are kept, every other character becomes `_`.
pub open spec fn sanitize_key_spec(key: Seq<char>) -> Seq<char> {
    key.map_values(|c: char| if unicode_alphanumeric(c) || c == '-' || c == '_' { c } else { '_' })
}

/// Makes a storage key safe for a file name.
pub fn sanitize_key(key: &str) -> (r: String)
    ensures
        r@ == sanitize_key_spec(key@),
{
    let k = chars_of(key);
    let mut out: Vec<char> = Vec::new();
    let mut i: usize = 0;
    while i < k.len()
        invariant
            0 <= i <= k@.len(),
            out@ == sanitize_key_spec(k@.take(i as int)),
        decreases k@.len() - i,
    {
        let c = k[i];
        if is_alphanumeric(c) || c == '-' || c == '_' {
            out.push(c);
        } else {
            out.push('_');
        }
        assert(sanitize_key_spec(k@.take(i as int + 1)) =~= sanitize_key_spec(k@.take(i as int)).push(
            if unicode_alphanumeric(c) || c == '-' || c == '_' { c } else { '_' },
        ));
        i = i + 1;
    }
    assert(k@.take(k@.len() as int) =~= k@);
    string_from(out.as_slice())
}

/// Part 1 of the bridge script.
pub const BRIDGE_SCRIPT_1: &'static str = "(function() {\n    'use strict';\n\n    // Prevent repeated initialization\n    if (window.__nefu_initialized) return;\n    window.__nefu_initialized = true;\n\n    const nefu = {\n        _listeners: {},\n        _pendingCallbacks: {},\n        _callId: 0,\n\n        invoke: function(method, ...args) {\n            const id = ++this._callId;\n            return new Promise((resolve, reject) => {\n                this._pendingCallbacks[id] = { resolve, reject };\n                try {\n                    const msg = JSON.stringify({ type: 'invoke', id, method, args });\n                    if (window.__nefu_ipc) {\n                        window.__nefu_ipc(msg);\n                    } else {\n                        console.warn('[Nefu] IPC not ready');\n                        delete this._pendingCallbacks[id];\n                        reject(new Error('IPC channel not available'));\n                    }\n                } catch (e) {\n                    delete this._pendingCallbacks[id];\n                    reject(e);\n                }\n            });\n        },\n\n        send: function(data) {\n            try {\n                const msg = JSON.stringify({ type: 'send', data });\n                if (window.__nefu_ipc) {\n                    window.__nefu_ipc(msg);\n                }\n            } catch (e) {\n                console.error('[Nefu] Send failed:', e);\n            }\n        },\n\n        on: function(event, callback) {\n            if (!this._listeners[event]) {\n";

/// Part 2 of the bridge script.
pub const BRIDGE_SCRIPT_2: &'static str = "                this._listeners[event] = [];\n            }\n            this._listeners[event].push(callback);\n            return () => {\n                const idx = this._listeners[event].indexOf(callback);\n                if (idx !== -1) this._listeners[event].splice(idx, 1);\n            };\n        },\n\n        off: function(event, callback) {\n            if (this._listeners[event]) {\n                if (callback) {\n                    const idx = this._listeners[event].indexOf(callback);\n                    if (idx !== -1) this._listeners[event].splice(idx, 1);\n                } else {\n                    delete this._listeners[event];\n                }\n            }\n        },\n\n        emit: function(event, data) {\n            (this._listeners[event] || []).forEach(cb => {\n                try { cb(data); } catch (e) {\n                    console.error(`[Nefu] Event handler error (${event}):`, e);\n                }\n            });\n        },\n\n        _handleResponse: function(json) {\n            try {\n                const resp = JSON.parse(json);\n                if (resp.type === 'callback' && resp.id != null) {\n                    const pending = this._pendingCallbacks[resp.id];\n                    if (pending) {\n                        delete this._pendingCallbacks[resp.id];\n                        resp.error ? pending.reject(new Error(resp.error)) : pending.resolve(resp.result);\n                    }\n                } else if (resp.type === 'event') {\n";

/// Part 3 of the bridge script.
pub const BRIDGE_SCRIPT_3: &'static str = "                    this.emit(resp.event, resp.data);\n                }\n            } catch (e) {\n                console.error('[Nefu] Response error:', e);\n            }\n        },\n\n        getInfo: function() {\n            return { version: '1.0.0', platform: navigator.platform };\n        },\n\n        // ==================== Electron-level API namespace ====================\n\n        // --- Basic API ---\n        getVersion: () => nefu.invoke('getVersion'),\n        getPlatform: () => nefu.invoke('getPlatform'),\n        getTime: () => nefu.invoke('getTime'),\n        echo: (data) => nefu.invoke('echo', data),\n        log: (msg) => nefu.invoke('log', msg),\n        warn: (msg) => nefu.invoke('warn', msg),\n        error: (msg) => nefu.invoke('error', msg),\n        openUrl: (url) => nefu.invoke('openUrl', url),\n        print: () => nefu.invoke('print'),\n        printToPDF: () => nefu.invoke('printToPDF'),\n        captureScreenshot: () => nefu.invoke('captureScreenshot'),\n\n        // --- File system ---\n        fs: {\n            readFile: (path) => nefu.invoke('fs.readFile', path),\n            writeFile: (path, content) => nefu.invoke('fs.writeFile', path, content),\n            exists: (path) => nefu.invoke('fs.exists', path),\n        },\n\n        // --- Local storage ---\n        storage: {\n            get: (key) => nefu.invoke('storage.get', key),\n            set: (key, val) => nefu.invoke('storage.set', key, val),\n            remove: (key) => nefu.invoke('storage.remove', key),\n";

/// Part 4 of the bridge script.
pub const BRIDGE_SCRIPT_4: &'static str = "        },\n\n        // --- Clipboard ---\n        clipboard: {\n            read: () => nefu.invoke('clipboard.read'),\n            write: (text) => nefu.invoke('clipboard.write', text),\n            readHTML: () => nefu.invoke('clipboard.readHTML'),\n            writeHTML: (html) => nefu.invoke('clipboard.writeHTML', html),\n            clear: () => nefu.invoke('clipboard.clear'),\n            availableFormats: () => nefu.invoke('clipboard.availableFormats'),\n            readImage: () => nefu.invoke('clipboard.readImage'),\n            hasImage: () => nefu.invoke('clipboard.hasImage'),\n        },\n\n        // --- Window control ---\n        window: {\n            minimize: () => nefu.invoke('window.minimize'),\n            maximize: () => nefu.invoke('window.maximize'),\n            restore: () => nefu.invoke('window.restore'),\n            close: () => nefu.invoke('window.close'),\n            getBounds: () => nefu.invoke('window.getBounds'),\n            getSize: () => nefu.invoke('window.getSize'),\n            isMaximized: () => nefu.invoke('window.isMaximized'),\n            isMinimized: () => nefu.invoke('window.isMinimized'),\n            isVisible: () => nefu.invoke('window.isVisible'),\n            center: () => nefu.invoke('window.center'),\n            focus: () => nefu.invoke('window.focus'),\n            blur: () => nefu.invoke('window.blur'),\n            setAlwaysOnTop: (flag) => nefu.invoke('window.setAlwaysOnTop', flag),\n            show: () => nefu.invoke('window.show'),\n";

/// Part 5 of the bridge script.
pub const BRIDGE_SCRIPT_5: &'static str = "            hide: () => nefu.invoke('window.hide'),\n            setTitle: (title) => nefu.invoke('window.setTitle', title),\n            getTitle: () => nefu.invoke('window.getTitle'),\n            setResizable: (resizable) => nefu.invoke('window.setResizable', resizable),\n            isResizable: () => nefu.invoke('window.isResizable'),\n            setMinimumSize: (w, h) => nefu.invoke('window.setMinimumSize', w, h),\n            setMaximumSize: (w, h) => nefu.invoke('window.setMaximumSize', w, h),\n            getMinimumSize: () => nefu.invoke('window.getMinimumSize'),\n            getMaximumSize: () => nefu.invoke('window.getMaximumSize'),\n            setPosition: (x, y) => nefu.invoke('window.setPosition', x, y),\n            getPosition: () => nefu.invoke('window.getPosition'),\n            setOpacity: (opacity) => nefu.invoke('window.setOpacity', opacity),\n            getOpacity: () => nefu.invoke('window.getOpacity'),\n            setFullScreen: (flag) => nefu.invoke('window.setFullScreen', flag),\n            isFullScreen: () => nefu.invoke('window.isFullScreen'),\n            restore: () => nefu.invoke('window.restore'),\n            isVisible: () => nefu.invoke('window.isVisible'),\n        },\n\n        // --- Dialog ---\n        dialog: {\n            alert: (msg) => nefu.invoke('dialog.alert', msg),\n            confirm: (msg) => {\n                return new Promise((resolve) => {\n                    const off = nefu.on('dialog-confirm-result', (ok) => {\n";

/// Part 6 of the bridge script.
pub const BRIDGE_SCRIPT_6: &'static str = "                        off();\n                        resolve(ok);\n                    });\n                    nefu.invoke('dialog.confirm', msg);\n                });\n            },\n            openFile: (options) => {\n                return new Promise((resolve) => {\n                    const off = nefu.on('dialog-openFile-result', (data) => {\n                        off();\n                        resolve(data);\n                    });\n                    nefu.invoke('dialog.openFile', options || {});\n                });\n            },\n            saveFile: (options) => {\n                return new Promise((resolve) => {\n                    const off = nefu.on('dialog-saveFile-result', (data) => {\n                        off();\n                        resolve(data);\n                    });\n                    nefu.invoke('dialog.saveFile', options || {});\n                });\n            },\n            showMessageBox: (options) => nefu.invoke('dialog.showMessageBox', options),\n            showErrorBox: (title, msg) => nefu.invoke('dialog.showErrorBox', title, msg),\n        },\n\n        // --- Shell system operations ---\n        shell: {\n            openExternal: (url) => nefu.invoke('shell.openExternal', url),\n            openPath: (path) => nefu.invoke('shell.openPath', path),\n            showItemInFolder: (path) => nefu.invoke('shell.showItemInFolder', path),\n            beep: () => nefu.invoke('shell.beep'),\n";

/// Part 7 of the bridge script.
pub const BRIDGE_SCRIPT_7: &'static str = "            trashItem: (path) => nefu.invoke('shell.trashItem', path),\n            getSystemVersion: () => nefu.invoke('shell.getSystemVersion'),\n            exec: (command, args, cwd) => nefu.invoke('shell.exec', command, args, cwd),\n        },\n\n        // --- Desktop notifications ---\n        notification: {\n            send: (options) => nefu.invoke('notification.send', options),\n            isSupported: () => nefu.invoke('notification.isSupported'),\n        },\n\n        // --- System info ---\n        system: {\n            getTheme: () => nefu.invoke('system.getTheme'),\n            getMemoryInfo: () => nefu.invoke('system.getMemoryInfo'),\n            getCpuInfo: () => nefu.invoke('system.getCpuInfo'),\n            getGpuInfo: () => nefu.invoke('system.getGpuInfo'),\n            getPowerState: () => nefu.invoke('system.getPowerState'),\n            getScreenInfo: () => nefu.invoke('system.getScreenInfo'),\n            getSummary: () => nefu.invoke('system.getSummary'),\n            refresh: () => nefu.invoke('system.refresh'),\n        },\n\n        // --- Power monitoring ---\n        powerMonitor: {\n            getSystemIdleState: (threshold) => nefu.invoke('powerMonitor.getSystemIdleState', threshold),\n            getSystemIdleTime: () => nefu.invoke('powerMonitor.getSystemIdleTime'),\n            getCurrentThermalState: () => nefu.invoke('powerMonitor.getCurrentThermalState'),\n            onBattery: () => nefu.invoke('powerMonitor.onBattery'),\n";

/// Part 8 of the bridge script.
pub const BRIDGE_SCRIPT_8: &'static str = "            getCurrentDesktop: () => nefu.invoke('powerMonitor.getCurrentDesktop'),\n        },\n\n        // --- Power save blocker ---\n        powerSaveBlocker: {\n            start: (type) => nefu.invoke('powerSaveBlocker.start', type),\n            stop: (id) => nefu.invoke('powerSaveBlocker.stop', id),\n            isStopped: (id) => nefu.invoke('powerSaveBlocker.isStopped', id),\n        },\n\n        // --- Display ---\n        screen: {\n            getAllDisplays: () => nefu.invoke('screen.getAllDisplays'),\n            getPrimaryDisplay: () => nefu.invoke('screen.getPrimaryDisplay'),\n            getCursorScreenPoint: () => nefu.invoke('screen.getCursorScreenPoint'),\n            getDisplayMatching: (point) => nefu.invoke('screen.getDisplayMatching', point),\n            dipToScreenPixels: (dip) => nefu.invoke('screen.dipToScreenPixels', dip),\n            screenToDipPixels: (screen) => nefu.invoke('screen.screenToDipPixels', screen),\n        },\n\n        // --- Auto updater ---\n        updater: {\n            checkForUpdates: (url) => nefu.invoke('updater.checkForUpdates', url),\n        },\n\n        // --- Crash reports ---\n        crashReporter: {\n            generateTestReport: () => nefu.invoke('crashReporter.generateTestReport'),\n        },\n\n        // --- Context bridge ---\n        contextBridge: {\n            isAvailable: () => nefu.invoke('contextBridge.isAvailable'),\n        },\n\n        // --- Native menu ---\n        menu: {\n";

/// Part 9 of the bridge script.
pub const BRIDGE_SCRIPT_9: &'static str = "            getDefaultTemplate: (appName) => nefu.invoke('menu.getDefaultTemplate', appName),\n        },\n\n        // --- App module ---\n        app: {\n            getPath: (name) => nefu.invoke('app.getPath', name),\n            getAppPath: () => nefu.invoke('app.getAppPath'),\n            getName: () => nefu.invoke('app.getName'),\n            getVersion: () => nefu.invoke('app.getVersion'),\n            getLocale: () => nefu.invoke('app.getLocale'),\n            getLocaleCountryCode: () => nefu.invoke('app.getLocaleCountryCode'),\n            isPackaged: () => nefu.invoke('app.isPackaged'),\n            getAppMetrics: () => nefu.invoke('app.getAppMetrics'),\n            getLoginItemSettings: () => nefu.invoke('app.getLoginItemSettings'),\n            setLoginItemSettings: (settings) => nefu.invoke('app.setLoginItemSettings', settings),\n            getSystemVersion: () => nefu.invoke('app.getSystemVersion'),\n            getAppInfo: () => nefu.invoke('app.getAppInfo'),\n            quit: () => nefu.invoke('app.quit'),\n            exit: () => nefu.invoke('app.exit'),\n            relaunch: () => nefu.invoke('app.relaunch'),\n            focus: () => nefu.invoke('app.focus'),\n            hide: () => nefu.invoke('app.hide'),\n            show: () => nefu.invoke('app.show'),\n            getSystemProxySettings: () => nefu.invoke('app.getSystemProxySettings'),\n            getSystemVersionInfo: () => nefu.invoke('app.getSystemVersionInfo'),\n        },\n\n        // --- Native image ---\n";

/// Part 10 of the bridge script.
pub const BRIDGE_SCRIPT_10: &'static str = "        nativeImage: {\n            createFromPath: (path) => nefu.invoke('nativeImage.createFromPath', path),\n            createFromBuffer: (buffer, options) => nefu.invoke('nativeImage.createFromBuffer', buffer, options),\n            createEmpty: (w, h) => nefu.invoke('nativeImage.createEmpty', w, h),\n            resize: (dataURL, options) => nefu.invoke('nativeImage.resize', dataURL, options),\n        },\n\n        // --- WebFrame ---\n        webFrame: {\n            setZoomLevel: (level) => nefu.invoke('webFrame.setZoomLevel', level),\n            getZoomLevel: () => nefu.invoke('webFrame.getZoomLevel'),\n            setZoomFactor: (factor) => nefu.invoke('webFrame.setZoomFactor', factor),\n            getZoomFactor: () => nefu.invoke('webFrame.getZoomFactor'),\n            findInPage: (text, options) => nefu.invoke('webFrame.findInPage', text, options),\n            stopFindInPage: (action) => nefu.invoke('webFrame.stopFindInPage', action),\n        },\n\n        // --- SystemPreferences ---\n        systemPreferences: {\n            isDarkMode: () => nefu.invoke('systemPreferences.isDarkMode'),\n            isInvertedColorScheme: () => nefu.invoke('systemPreferences.isInvertedColorScheme'),\n            getColor: (color) => nefu.invoke('systemPreferences.getColor', color),\n            getMediaAccessStatus: (type) => nefu.invoke('systemPreferences.getMediaAccessStatus', type),\n            askForMediaAccess: (type) => nefu.invoke('systemPreferences.askForMediaAccess', type),\n";

/// Part 11 of the bridge script.
pub const BRIDGE_SCRIPT_11: &'static str = "            getAccentColor: () => nefu.invoke('systemPreferences.getAccentColor'),\n            isHighContrastColorScheme: () => nefu.invoke('systemPreferences.isHighContrastColorScheme'),\n            areAnimationsEnabled: () => nefu.invoke('systemPreferences.areAnimationsEnabled'),\n            isTransparencyEnabled: () => nefu.invoke('systemPreferences.isTransparencyEnabled'),\n        },\n\n        // --- SafeStorage ---\n        safeStorage: {\n            isEncryptionAvailable: () => nefu.invoke('safeStorage.isEncryptionAvailable'),\n            encryptString: (text) => nefu.invoke('safeStorage.encryptString', text),\n            decryptString: (encrypted) => nefu.invoke('safeStorage.decryptString', encrypted),\n        },\n\n        // --- Net module ---\n        net: {\n            fetch: (url, options) => nefu.invoke('net.fetch', url, options),\n        },\n\n        // --- Process module ---\n        process: {\n            getProcessMemoryInfo: () => nefu.invoke('process.getProcessMemoryInfo'),\n            getSystemMemoryInfo: () => nefu.invoke('process.getSystemMemoryInfo'),\n            getCPUUsage: () => nefu.invoke('process.getCPUUsage'),\n            getIOCounters: () => nefu.invoke('process.getIOCounters'),\n            getProcessId: () => nefu.invoke('process.getProcessId'),\n            getProcessPath: () => nefu.invoke('process.getProcessPath'),\n            getVersions: () => nefu.invoke('process.getVersions'),\n";

/// Part 12 of the bridge script.
pub const BRIDGE_SCRIPT_12: &'static str = "            getCreationTime: () => nefu.invoke('process.getCreationTime'),\n            getResourceUsage: () => nefu.invoke('process.getResourceUsage'),\n            getEnvironmentVariable: (name) => nefu.invoke('process.getEnvironmentVariable', name),\n            getCommandLineArgs: () => nefu.invoke('process.getCommandLineArgs'),\n            getWorkingDirectory: () => nefu.invoke('process.getWorkingDirectory'),\n        },\n\n        // --- Tray ---\n        tray: {\n            setToolTip: (tip) => nefu.invoke('tray.setToolTip', tip),\n            setTitle: (title) => nefu.invoke('tray.setTitle', title),\n            displayBalloon: (options) => nefu.invoke('tray.displayBalloon', options),\n            removeBalloon: () => nefu.invoke('tray.removeBalloon'),\n            isDestroyed: () => nefu.invoke('tray.isDestroyed'),\n        },\n\n        // --- DesktopCapturer ---\n        desktopCapturer: {\n            getSources: (options) => nefu.invoke('desktopCapturer.getSources', options),\n        },\n\n        // ==================== New Electron module APIs ====================\n\n        // --- WebContents module ---\n        webContents: {\n            getURL: () => nefu.invoke('webContents.getURL'),\n            getTitle: () => nefu.invoke('webContents.getTitle'),\n            isLoading: () => nefu.invoke('webContents.isLoading'),\n            canGoBack: () => nefu.invoke('webContents.canGoBack'),\n            canGoForward: () => nefu.invoke('webContents.canGoForward'),\n";

/// Part 13 of the bridge script.
pub const BRIDGE_SCRIPT_13: &'static str = "            getNavigationHistory: () => nefu.invoke('webContents.getNavigationHistory'),\n            getWebContentsInfo: () => nefu.invoke('webContents.getWebContentsInfo'),\n        },\n\n        // --- Session module ---\n        session: {\n            cookies: {\n                get: (filter) => nefu.invoke('session.cookies.get', filter),\n                set: (cookie) => nefu.invoke('session.cookies.set', cookie),\n                remove: (url, name) => nefu.invoke('session.cookies.remove', url, name),\n                flush: () => nefu.invoke('session.cookies.flush'),\n            },\n            clearCache: () => nefu.invoke('session.clearCache'),\n            clearStorageData: () => nefu.invoke('session.clearStorageData'),\n            setProxy: (config) => nefu.invoke('session.setProxy', config),\n            getProxy: () => nefu.invoke('session.getProxy'),\n            isOnline: () => nefu.invoke('session.isOnline'),\n        },\n\n        // --- Protocol module ---\n        protocol: {\n            registerStringProtocol: (scheme) => nefu.invoke('protocol.registerStringProtocol', scheme),\n            isProtocolHandled: (scheme) => nefu.invoke('protocol.isProtocolHandled', scheme),\n            unregisterProtocol: (scheme) => nefu.invoke('protocol.unregisterProtocol', scheme),\n            getRegisteredProtocols: () => nefu.invoke('protocol.getRegisteredProtocols'),\n        },\n\n        // --- Dock module (macOS) ---\n        dock: {\n";

/// Part 14 of the bridge script.
pub const BRIDGE_SCRIPT_14: &'static str = "            setBadge: (text) => nefu.invoke('dock.setBadge', text),\n            getBadge: () => nefu.invoke('dock.getBadge'),\n            bounce: (type) => nefu.invoke('dock.bounce', type || 'informational'),\n            cancelBounce: (id) => nefu.invoke('dock.cancelBounce', id),\n            show: () => nefu.invoke('dock.show'),\n            hide: () => nefu.invoke('dock.hide'),\n            isVisible: () => nefu.invoke('dock.isVisible'),\n        },\n\n        // --- NativeTheme module ---\n        nativeTheme: {\n            shouldUseDarkColors: () => nefu.invoke('nativeTheme.shouldUseDarkColors'),\n            shouldUseHighContrastColors: () => nefu.invoke('nativeTheme.shouldUseHighContrastColors'),\n            shouldUseInvertedColorScheme: () => nefu.invoke('nativeTheme.shouldUseInvertedColorScheme'),\n            themeSource: () => nefu.invoke('nativeTheme.themeSource'),\n            setThemeSource: (source) => nefu.invoke('nativeTheme.setThemeSource', source),\n        },\n\n        // --- ContentTracing module ---\n        contentTracing: {\n            startRecording: (options) => nefu.invoke('contentTracing.startRecording', options),\n            stopRecording: () => nefu.invoke('contentTracing.stopRecording'),\n            getCategories: () => nefu.invoke('contentTracing.getCategories'),\n            getTraceBufferUsage: () => nefu.invoke('contentTracing.getTraceBufferUsage'),\n            isRecording: () => nefu.invoke('contentTracing.isRecording'),\n        },\n\n";

/// Part 15 of the bridge script.
pub const BRIDGE_SCRIPT_15: &'static str = "        // ==================== Second batch of new APIs ====================\n\n        // --- GlobalShortcut module ---\n        globalShortcut: {\n            register: (accelerator) => nefu.invoke('globalShortcut.register', accelerator),\n            unregister: (accelerator) => nefu.invoke('globalShortcut.unregister', accelerator),\n            unregisterAll: () => nefu.invoke('globalShortcut.unregisterAll'),\n            isRegistered: (accelerator) => nefu.invoke('globalShortcut.isRegistered', accelerator),\n            getRegistered: () => nefu.invoke('globalShortcut.getRegistered'),\n        },\n\n        // --- Menu class methods ---\n        menu: {\n            setApplicationMenu: (template) => nefu.invoke('menu.setApplicationMenu', template),\n            buildFromTemplate: (template) => nefu.invoke('menu.buildFromTemplate', template),\n            popup: (template) => nefu.invoke('menu.popup', template),\n            getApplicationMenu: () => nefu.invoke('menu.getApplicationMenu'),\n            getDefaultTemplate: (appName) => nefu.invoke('menu.getDefaultTemplate', appName),\n        },\n\n        // --- webContents extension methods ---\n        webContentsExt: {\n            executeJavaScript: (code) => nefu.invoke('webContents.executeJavaScript', code),\n            insertCSS: (css) => nefu.invoke('webContents.insertCSS', css),\n            reload: () => nefu.invoke('webContents.reload'),\n            reloadIgnoringCache: () => nefu.invoke('webContents.reloadIgnoringCache'),\n";

/// Part 16 of the bridge script.
pub const BRIDGE_SCRIPT_16: &'static str = "            goBack: () => nefu.invoke('webContents.goBack'),\n            goForward: () => nefu.invoke('webContents.goForward'),\n            print: () => nefu.invoke('webContents.print'),\n            printToPDF: () => nefu.invoke('webContents.printToPDF'),\n            downloadURL: (url) => nefu.invoke('webContents.downloadURL', url),\n            setZoomFactor: (factor) => nefu.invoke('webContents.setZoomFactor', factor),\n            getZoomFactor: () => nefu.invoke('webContents.getZoomFactor'),\n            setZoomLevel: (level) => nefu.invoke('webContents.setZoomLevel', level),\n            getZoomLevel: () => nefu.invoke('webContents.getZoomLevel'),\n            toggleDevTools: () => nefu.invoke('webContents.toggleDevTools'),\n            openDevTools: () => nefu.invoke('webContents.openDevTools'),\n            closeDevTools: () => nefu.invoke('webContents.closeDevTools'),\n            isDevToolsOpened: () => nefu.invoke('webContents.isDevToolsOpened'),\n            copy: () => nefu.invoke('webContents.copy'),\n            paste: () => nefu.invoke('webContents.paste'),\n            cut: () => nefu.invoke('webContents.cut'),\n            selectAll: () => nefu.invoke('webContents.selectAll'),\n            undo: () => nefu.invoke('webContents.undo'),\n            redo: () => nefu.invoke('webContents.redo'),\n            findInPage: (text, options) => nefu.invoke('webContents.findInPage', text, options),\n            stopFindInPage: () => nefu.invoke('webContents.stopFindInPage'),\n        },\n";

/// Part 17 of the bridge script.
pub const BRIDGE_SCRIPT_17: &'static str = "\n        // --- App extension methods ---\n        appExt: {\n            setAboutPanelOptions: (options) => nefu.invoke('app.setAboutPanelOptions', options),\n            getGPUInfo: (type) => nefu.invoke('app.getGPUInfo', type),\n            setAsDefaultProtocolClient: (protocol) => nefu.invoke('app.setAsDefaultProtocolClient', protocol),\n            removeAsDefaultProtocolClient: (protocol) => nefu.invoke('app.removeAsDefaultProtocolClient', protocol),\n            isDefaultProtocolClient: (protocol) => nefu.invoke('app.isDefaultProtocolClient', protocol),\n            getApplicationNameForProtocol: (url) => nefu.invoke('app.getApplicationNameForProtocol', url),\n            setUserActivity: (type, userInfo) => nefu.invoke('app.setUserActivity', type, userInfo),\n            requestSingleInstanceLock: () => nefu.invoke('app.requestSingleInstanceLock'),\n            releaseSingleInstanceLock: () => nefu.invoke('app.releaseSingleInstanceLock'),\n            getUserAgentFallback: () => nefu.invoke('app.getUserAgentFallback'),\n            setAppUserModelId: (id) => nefu.invoke('app.setAppUserModelId', id),\n            getJumpListSettings: () => nefu.invoke('app.getJumpListSettings'),\n            setJumpList: (categories) => nefu.invoke('app.setJumpList', categories),\n        },\n\n        // --- Shell extension ---\n        shellExt: {\n            writeShortcutLink: (path, operation, options) => nefu.invoke('shell.writeShortcutLink', path, operation, options),\n";

/// Part 18 of the bridge script.
pub const BRIDGE_SCRIPT_18: &'static str = "            readShortcutLink: (path) => nefu.invoke('shell.readShortcutLink', path),\n            moveItemToTrash: (path) => nefu.invoke('shell.moveItemToTrash', path),\n            exec: (command, args, cwd) => nefu.invoke('shell.exec', command, args, cwd),\n        },\n\n        // --- BrowserView module ---\n        browserView: {\n            create: (options) => nefu.invoke('browserView.create', options),\n            setBounds: (id, bounds) => nefu.invoke('browserView.setBounds', id, bounds),\n            setBackgroundColor: (id, color) => nefu.invoke('browserView.setBackgroundColor', id, color),\n            webContents: (id) => nefu.invoke('browserView.webContents', id),\n            remove: (id) => nefu.invoke('browserView.remove', id),\n        },\n\n        // --- ipcMain module ---\n        ipcMain: {\n            on: (channel) => nefu.invoke('ipcMain.on', channel),\n            off: (channel) => nefu.invoke('ipcMain.off', channel),\n            once: (channel) => nefu.invoke('ipcMain.once', channel),\n            handle: (channel, handler) => nefu.invoke('ipcMain.handle', channel, handler),\n            removeHandler: (channel) => nefu.invoke('ipcMain.removeHandler', channel),\n        },\n\n        // --- netLog module ---\n        netLog: {\n            startLogging: (path) => nefu.invoke('netLog.startLogging', path),\n            stopLogging: () => nefu.invoke('netLog.stopLogging'),\n        },\n\n        // --- utilityProcess module ---\n        utilityProcess: {\n";

/// Part 19 of the bridge script.
pub const BRIDGE_SCRIPT_19: &'static str = "            fork: (path, args) => nefu.invoke('utilityProcess.fork', path, args),\n        },\n\n        // --- TouchBar module ---\n        touchBar: {\n            create: (items) => nefu.invoke('touchBar.create', items),\n        },\n\n        // --- shareMenu module ---\n        shareMenu: {\n            show: (items) => nefu.invoke('shareMenu.show', items),\n        },\n\n        // --- net module ---\n        netExt: {\n            request: (method, url, body) => nefu.invoke('net.request', method, url, body),\n            isOnline: () => nefu.invoke('net.isOnline'),\n            getOnline: () => nefu.invoke('net.getOnline'),\n            fetch: (url, options) => nefu.invoke('net.fetch', url, options),\n        },\n\n        // --- Process extensions ---\n        processExt: {\n            getArchitecture: () => nefu.invoke('process.getArchitecture'),\n            getSystemArchitecture: () => nefu.invoke('process.getSystemArchitecture'),\n            getUptime: () => nefu.invoke('process.getUptime'),\n            getProcessMemoryInfo: () => nefu.invoke('process.getProcessMemoryInfo'),\n            getSystemMemoryInfo: () => nefu.invoke('process.getSystemMemoryInfo'),\n            getCPUUsage: () => nefu.invoke('process.getCPUUsage'),\n            getIOCounters: () => nefu.invoke('process.getIOCounters'),\n            getProcessId: () => nefu.invoke('process.getProcessId'),\n            getProcessPath: () => nefu.invoke('process.getProcessPath'),\n";

/// Part 20 of the bridge script.
pub const BRIDGE_SCRIPT_20: &'static str = "            getVersions: () => nefu.invoke('process.getVersions'),\n            getCreationTime: () => nefu.invoke('process.getCreationTime'),\n            getResourceUsage: () => nefu.invoke('process.getResourceUsage'),\n            getEnvironmentVariable: (name) => nefu.invoke('process.getEnvironmentVariable', name),\n            getCommandLineArgs: () => nefu.invoke('process.getCommandLineArgs'),\n            getWorkingDirectory: () => nefu.invoke('process.getWorkingDirectory'),\n        },\n\n        // --- Notification extensions ---\n        notificationExt: {\n            show: (title, body, icon) => nefu.invoke('notification.show', title, body, icon),\n            send: (title, body) => nefu.invoke('notification.send', title, body),\n            isSupported: () => nefu.invoke('notification.isSupported'),\n        },\n\n        // --- powerMonitor extensions ---\n        powerMonitorExt: {\n            getSystemIdleState: () => nefu.invoke('powerMonitor.getSystemIdleState'),\n            getSystemIdleTime: () => nefu.invoke('powerMonitor.getSystemIdleTime'),\n            getCurrentThermalState: () => nefu.invoke('powerMonitor.getCurrentThermalState'),\n            onBattery: () => nefu.invoke('powerMonitor.onBattery'),\n            getCurrentDesktop: () => nefu.invoke('powerMonitor.getCurrentDesktop'),\n            getBatteryLevel: () => nefu.invoke('powerMonitor.getBatteryLevel'),\n            isOnBatteryPower: () => nefu.invoke('powerMonitor.isOnBatteryPower'),\n        },\n\n";

/// Part 21 of the bridge script.
pub const BRIDGE_SCRIPT_21: &'static str = "        // --- screen extensions ---\n        screenExt: {\n            getAllDisplays: () => nefu.invoke('screen.getAllDisplays'),\n            getPrimaryDisplay: () => nefu.invoke('screen.getPrimaryDisplay'),\n            getCursorScreenPoint: () => nefu.invoke('screen.getCursorScreenPoint'),\n            getDisplayMatching: (bounds) => nefu.invoke('screen.getDisplayMatching', bounds),\n            getNearestDisplay: (x, y) => nefu.invoke('screen.getNearestDisplay', x, y),\n            dipToScreenPixels: (dip) => nefu.invoke('screen.dipToScreenPixels', dip),\n            screenToDipPixels: (px) => nefu.invoke('screen.screenToDipPixels', px),\n        },\n\n        // --- safeStorage extension ---\n        safeStorageExt: {\n            isEncryptionAvailable: () => nefu.invoke('safeStorage.isEncryptionAvailable'),\n            encryptString: (text) => nefu.invoke('safeStorage.encryptString', text),\n            decryptString: (encrypted) => nefu.invoke('safeStorage.decryptString', encrypted),\n            getSelectedStorageBackend: () => nefu.invoke('safeStorage.getSelectedStorageBackend'),\n        },\n\n        // --- contextBridge extensions ---\n        contextBridgeExt: {\n            isAvailable: () => nefu.invoke('contextBridge.isAvailable'),\n            exposeInMainWorld: (name, api) => nefu.invoke('contextBridge.exposeInMainWorld', name, api),\n        },\n    };\n\n    // Global shortcut functions\n    window.lj = (data) => nefu.send(data);\n    window.nefu = nefu;\n\n";

/// Part 22 of the bridge script.
pub const BRIDGE_SCRIPT_22: &'static str = "    // Notify that it is ready\n    if (document.readyState === 'loading') {\n        document.addEventListener('DOMContentLoaded', () => {\n            window.dispatchEvent(new CustomEvent('nefu-ready'));\n        });\n    } else {\n        window.dispatchEvent(new CustomEvent('nefu-ready'));\n    }\n\n    console.log('[Nefu] Bridge initialized');\n})();";

/// The bridge script injected before each page loads.
pub open spec fn bridge_script_spec() -> Seq<char> {
    BRIDGE_SCRIPT_1@
        + BRIDGE_SCRIPT_2@
        + BRIDGE_SCRIPT_3@
        + BRIDGE_SCRIPT_4@
        + BRIDGE_SCRIPT_5@
        + BRIDGE_SCRIPT_6@
        + BRIDGE_SCRIPT_7@
        + BRIDGE_SCRIPT_8@
        + BRIDGE_SCRIPT_9@
        + BRIDGE_SCRIPT_10@
        + BRIDGE_SCRIPT_11@
        + BRIDGE_SCRIPT_12@
        + BRIDGE_SCRIPT_13@
        + BRIDGE_SCRIPT_14@
        + BRIDGE_SCRIPT_15@
        + BRIDGE_SCRIPT_16@
        + BRIDGE_SCRIPT_17@
        + BRIDGE_SCRIPT_18@
        + BRIDGE_SCRIPT_19@
        + BRIDGE_SCRIPT_20@
        + BRIDGE_SCRIPT_21@
        + BRIDGE_SCRIPT_22@
}

/// The complete bridge script (the `nefu` and `lj` APIs) for pages.
pub fn generate_full_bridge_script() -> (r: String)
    ensures
        r@ == bridge_script_spec(),
{
    let mut v: Vec<char> = Vec::new();
    push_str(&mut v, BRIDGE_SCRIPT_1);
    push_str(&mut v, BRIDGE_SCRIPT_2);
    push_str(&mut v, BRIDGE_SCRIPT_3);
    push_str(&mut v, BRIDGE_SCRIPT_4);
    push_str(&mut v, BRIDGE_SCRIPT_5);
    push_str(&mut v, BRIDGE_SCRIPT_6);
    push_str(&mut v, BRIDGE_SCRIPT_7);
    push_str(&mut v, BRIDGE_SCRIPT_8);
    push_str(&mut v, BRIDGE_SCRIPT_9);
    push_str(&mut v, BRIDGE_SCRIPT_10);
    push_str(&mut v, BRIDGE_SCRIPT_11);
    push_str(&mut v, BRIDGE_SCRIPT_12);
    push_str(&mut v, BRIDGE_SCRIPT_13);
    push_str(&mut v, BRIDGE_SCRIPT_14);
    push_str(&mut v, BRIDGE_SCRIPT_15);
    push_str(&mut v, BRIDGE_SCRIPT_16);
    push_str(&mut v, BRIDGE_SCRIPT_17);
    push_str(&mut v, BRIDGE_SCRIPT_18);
    push_str(&mut v, BRIDGE_SCRIPT_19);
    push_str(&mut v, BRIDGE_SCRIPT_20);
    push_str(&mut v, BRIDGE_SCRIPT_21);
    push_str(&mut v, BRIDGE_SCRIPT_22);
    assert(v@ =~= bridge_script_spec());
    string_from(v.as_slice())
}

// ==================== Messages ====================

/// A page may open only `http://` and `https://` addresses.
pub open spec fn url_allowed_spec(url: Seq<char>) -> bool {
    has_prefix(url, "http://"@) || has_prefix(url, "https://"@)
}

/// A page may open exactly the web addresses: every address that a page
/// may open begins with `http`, and every `http://` and `https://` address
/// may be opened.
pub proof fn law_url_allowed(url: Seq<char>)
    ensures
        url_allowed_spec(url) ==> url.len() >= 7 && url.subrange(0, 4) == "http"@,
        forall|rest: Seq<char>| #![trigger "http://"@ + rest] url_allowed_spec("http://"@ + rest),
        forall|rest: Seq<char>| #![trigger "https://"@ + rest] url_allowed_spec("https://"@ + rest),
{
    reveal_strlit("http://");
    reveal_strlit("https://");
    reveal_strlit("http");
    if url_allowed_spec(url) {
        if has_prefix(url, "http://"@) {
            assert(url.subrange(0, 4) =~= url.subrange(0, 7).subrange(0, 4));
        } else {
            assert(url.subrange(0, 4) =~= url.subrange(0, 8).subrange(0, 4));
        }
        assert(url.subrange(0, 4) =~= "http"@);
    }
    assert forall|rest: Seq<char>| #![trigger "http://"@ + rest] url_allowed_spec("http://"@ + rest) by {
        assert(("http://"@ + rest).subrange(0, 7) =~= "http://"@);
    }
    assert forall|rest: Seq<char>| #![trigger "https://"@ + rest] url_allowed_spec("https://"@ + rest) by {
        assert(("https://"@ + rest).subrange(0, 8) =~= "https://"@);
    }
}

/// Whether a page may open this address.
pub fn url_allowed(url: &str) -> (r: bool)
    ensures
        r == url_allowed_spec(url@),
{
    let u = chars_of(url);
    starts_with_str(u.as_slice(), "http://") || starts_with_str(u.as_slice(), "https://")
}

/// The error a page receives for a method that is not registered.
pub open spec fn unknown_method_spec(method: Seq<char>) -> Seq<char> {
    "unknown method: '"@ + method + "'. use nefu.listMethods() to list the available methods"@
}

/// The error for an unregistered method.
pub fn unknown_method_error(method: &str) -> (r: String)
    ensures
        r@ == unknown_method_spec(method@),
{
    let mut o = chars_of("unknown method: '");
    push_str(&mut o, method);
    push_str(&mut o, "'. use nefu.listMethods() to list the available methods");
    string_from(o.as_slice())
}

/// The reply to a call, as `serde_json` writes it: the call id, then the
/// result (JSON text) or the error, each only where present.
pub open spec fn callback_spec(id: u64, result: Option<Seq<char>>, error: Option<Seq<char>>) -> Seq<char> {
    "{\"type\":\"callback\",\"id\":"@ + crate::text::decimal_spec(id as nat) + (match result {
        Some(r) => ",\"result\":"@ + r,
        None => Seq::empty(),
    }) + (match error {
        Some(e) => ",\"error\":"@ + crate::content_tracing::json_quote_spec(e),
        None => Seq::empty(),
    }) + "}"@
}

/// The reply to call `id`: its result's JSON text, or its error message.
pub fn callback_json(id: u64, result: Option<&str>, error: Option<&str>) -> (r: String)
    ensures
        r@ == callback_spec(
            id,
            match result {
                Some(x) => Some(x@),
                None => None,
            },
            match error {
                Some(e) => Some(e@),
                None => None,
            },
        ),
{
    let mut o = chars_of("{\"type\":\"callback\",\"id\":");
    let d = crate::text::decimal(id);
    crate::text::push_all(&mut o, d.as_slice());
    match result {
        Some(x) => {
            push_str(&mut o, ",\"result\":");
            push_str(&mut o, x);
        },
        None => {},
    }
    match error {
        Some(e) => {
            push_str(&mut o, ",\"error\":");
            let q = crate::content_tracing::json_quote(e);
            push_str(&mut o, q.as_str());
        },
        None => {},
    }
    push_str(&mut o, "}");
    let ghost rv = match result {
        Some(x) => Some(x@),
        None => None::<Seq<char>>,
    };
    let ghost ev = match error {
        Some(e) => Some(e@),
        None => None::<Seq<char>>,
    };
    assert(o@ =~= callback_spec(id, rv, ev));
    string_from(o.as_slice())
}

/// An event for the page, as `serde_json` writes it: its name, then its
/// data (JSON text).
pub open spec fn event_message_spec(event: Seq<char>, data: Seq<char>) -> Seq<char> {
    "{\"type\":\"event\",\"event\":"@ + crate::content_tracing::json_quote_spec(event) + ",\"data\":"@ + data + "}"@
}

/// The message of an event with its data's JSON text.
pub fn event_message(event: &str, data: &str) -> (r: String)
    ensures
        r@ == event_message_spec(event@, data@),
{
    let mut o = chars_of("{\"type\":\"event\",\"event\":");
    let q = crate::content_tracing::json_quote(event);
    push_str(&mut o, q.as_str());
    push_str(&mut o, ",\"data\":");
    push_str(&mut o, data);
    push_str(&mut o, "}");
    string_from(o.as_slice())
}

// ==================== Similar method names ====================

/// The characters before the last `.` of a method name (none without a
/// `.`).
pub open spec fn method_module(method: Seq<char>) -> Seq<char>
    decreases method.len(),
{
    if method.len() == 0 {
        Seq::empty()
    } else if method.last() == '.' {
        method.drop_last()
    } else {
        method_module(method.drop_last())
    }
}

/// The length of the common first characters of two texts.
pub open spec fn common_prefix_len(a: Seq<char>, b: Seq<char>) -> nat
    decreases a.len(),
{
    if a.len() == 0 || b.len() == 0 || a[0] != b[0] {
        0
    } else {
        1 + common_prefix_len(a.skip(1), b.skip(1))
    }
}

/// A registered name is offered for an unknown method when it starts with
/// the method's module, differs from it, and shares more characters with
/// it than the module's length in bytes less three.
pub open spec fn similar_spec(name: Seq<char>, method: Seq<char>) -> bool {
    let module = method_module(method);
    let bytes = vstd::utf8::encode_utf8(module).len();
    has_prefix(name, module) && name != method && common_prefix_len(name, method) > (if bytes >= 3 {
        bytes - 3
    } else {
        0
    })
}

/// The names offered, in the registry's order.
pub open spec fn similar_names(names: Seq<Seq<char>>, method: Seq<char>) -> Seq<Seq<char>>
    decreases names.len(),
{
    if names.len() == 0 {
        Seq::empty()
    } else if similar_spec(names.last(), method) {
        similar_names(names.drop_last(), method).push(names.last())
    } else {
        similar_names(names.drop_last(), method)
    }
}

/// Texts in code-point order, which is the byte order of their UTF-8.
pub open spec fn text_le(a: Seq<char>, b: Seq<char>) -> bool
    decreases a.len(),
{
    if a.len() == 0 {
        true
    } else if b.len() == 0 {
        false
    } else if a[0] != b[0] {
        a[0] < b[0]
    } else {
        text_le(a.skip(1), b.skip(1))
    }
}

pub proof fn lemma_text_le_total(a: Seq<char>, b: Seq<char>)
    ensures
        text_le(a, b) || text_le(b, a),
    decreases a.len(),
{
    if a.len() > 0 && b.len() > 0 && a[0] == b[0] {
        lemma_text_le_total(a.skip(1), b.skip(1));
    }
}

pub proof fn lemma_text_le_trans(a: Seq<char>, b: Seq<char>, c: Seq<char>)
    requires
        text_le(a, b),
        text_le(b, c),
    ensures
        text_le(a, c),
    decreases a.len(),
{
    if a.len() > 0 && b.len() > 0 && c.len() > 0 && a[0] == b[0] && b[0] == c[0] {
        lemma_text_le_trans(a.skip(1), b.skip(1), c.skip(1));
    }
}

/// The texts of a list are in code-point order.
pub open spec fn sorted_texts(s: Seq<Seq<char>>) -> bool {
    forall|i: int, j: int| 0 <= i < j < s.len() ==> text_le(#[trigger] s[i], #[trigger] s[j])
}

fn text_le_exec(a: &[char], b: &[char]) -> (r: bool)
    ensures
        r == text_le(a@, b@),
{
    let mut i: usize = 0;
    assert(a@.skip(0) =~= a@ && b@.skip(0) =~= b@);
    while i < a.len() && i < b.len() && a[i] == b[i]
        invariant
            0 <= i <= a@.len(),
            i <= b@.len(),
            text_le(a@, b@) == text_le(a@.skip(i as int), b@.skip(i as int)),
        decreases a@.len() - i,
    {
        assert(a@.skip(i as int).skip(1) =~= a@.skip(i + 1));
        assert(b@.skip(i as int).skip(1) =~= b@.skip(i + 1));
        i = i + 1;
    }
    if i == a.len() {
        return true;
    }
    if i == b.len() {
        return false;
    }
    assert(a@.skip(i as int)[0] == a@[i as int] && b@.skip(i as int)[0] == b@[i as int]);
    a[i] < b[i]
}

pub(crate) fn sort_texts(v: Vec<Vec<char>>) -> (r: Vec<Vec<char>>)
    ensures
        sorted_texts(crate::text::views(r@)),
        crate::text::views(r@).to_multiset() == crate::text::views(v@).to_multiset(),
{
    broadcast use vstd::seq_lib::group_to_multiset_ensures;
    let mut out: Vec<Vec<char>> = Vec::new();
    let mut k: usize = 0;
    assert(crate::text::views(v@).take(0) =~= Seq::<Seq<char>>::empty());
    assert(crate::text::views(out@) =~= Seq::<Seq<char>>::empty());
    while k < v.len()
        invariant
            0 <= k <= v@.len(),
            sorted_texts(crate::text::views(out@)),
            crate::text::views(out@).to_multiset() == crate::text::views(v@).take(k as int).to_multiset(),
        decreases v@.len() - k,
    {
        let x = &v[k];
        let ghost o = crate::text::views(out@);
        let mut i: usize = 0;
        while i < out.len() && text_le_exec(out[i].as_slice(), x.as_slice())
            invariant
                0 <= i <= out@.len(),
                o == crate::text::views(out@),
                forall|m: int| 0 <= m < i ==> text_le(#[trigger] o[m], x@),
            decreases out@.len() - i,
        {
            i = i + 1;
        }
        let ghost before = crate::text::views(out@);
        out.insert(i, crate::text::slice_chars(x.as_slice(), 0, x.len()));
        assert(x@.subrange(0, x@.len() as int) =~= x@);
        proof {
            let after = crate::text::views(out@);
            assert(after =~= before.insert(i as int, x@));
            assert(crate::text::views(v@)[k as int] == x@);
            assert(crate::text::views(v@).take(k + 1) =~= crate::text::views(v@).take(k as int).push(x@));
            vstd::seq_lib::to_multiset_insert(before, i as int, x@);
            vstd::seq_lib::to_multiset_build(crate::text::views(v@).take(k as int), x@);
            assert(crate::text::views(v@).take(k as int).push(x@).to_multiset() == crate::text::views(v@).take(
                k as int,
            ).to_multiset().insert(x@));
            if i < before.len() {
                assert(!text_le(before[i as int], x@));
                lemma_text_le_total(before[i as int], x@);
            }
            assert forall|a: int, b: int| 0 <= a < b < after.len() implies text_le(
                #[trigger] after[a],
                #[trigger] after[b],
            ) by {
                if b < i {
                    assert(after[a] == before[a] && after[b] == before[b]);
                } else if b == i {
                    assert(after[a] == before[a] && after[b] == x@);
                } else if a == i {
                    assert(after[b] == before[b - 1]);
                    if b - 1 > i {
                        assert(text_le(before[i as int], before[b - 1]));
                        lemma_text_le_trans(x@, before[i as int], before[b - 1]);
                    }
                } else if a < i {
                    assert(after[a] == before[a] && after[b] == before[b - 1]);
                } else {
                    assert(after[a] == before[a - 1] && after[b] == before[b - 1]);
                }
            }
        }
        k = k + 1;
    }
    assert(crate::text::views(v@).take(v@.len() as int) =~= crate::text::views(v@));
    out
}

/// The names offered for an unknown method: among the registered names,
/// in the registry's order, those similar to it (`similar_spec`); the
/// first five of them, in code-point order.
pub fn find_similar_methods(names: &Vec<String>, method: &str) -> (r: Vec<String>)
    ensures
        sorted_texts(crate::config::string_views(r@)),
        crate::config::string_views(r@).to_multiset() == ({
            let c = similar_names(crate::config::string_views(names@), method@);
            c.take(if c.len() < 5 {
                c.len() as int
            } else {
                5
            })
        }).to_multiset(),
{
    let mv = chars_of(method);
    let mut dot: Option<usize> = None;
    let mut i: usize = 0;
    while i < mv.len()
        invariant
            0 <= i <= mv@.len(),
            mv@ == method@,
            match dot {
                Some(d) => d < i && method_module(mv@.take(i as int)) == mv@.take(d as int),
                None => method_module(mv@.take(i as int)) == Seq::<char>::empty(),
            },
        decreases mv@.len() - i,
    {
        assert(mv@.take(i + 1).drop_last() =~= mv@.take(i as int));
        if mv[i] == '.' {
            dot = Some(i);
            assert(mv@.take(i as int) =~= mv@.take(i + 1).drop_last());
        }
        i = i + 1;
    }
    assert(mv@.take(mv@.len() as int) =~= mv@);
    let module = match dot {
        Some(d) => crate::text::slice_chars(mv.as_slice(), 0, d),
        None => Vec::new(),
    };
    let module_text = string_from(module.as_slice());
    let bytes = module_text.as_str().as_bytes().len();
    let limit: usize = if bytes >= 3 {
        bytes - 3
    } else {
        0
    };
    let ghost nv = crate::config::string_views(names@);
    let mut picked: Vec<Vec<char>> = Vec::new();
    let mut k: usize = 0;
    assert(nv.take(0) =~= Seq::<Seq<char>>::empty());
    assert(crate::text::views(picked@) =~= Seq::<Seq<char>>::empty());
    while k < names.len() && picked.len() < 5
        invariant
            0 <= k <= names@.len(),
            nv == crate::config::string_views(names@),
            module@ == method_module(method@),
            limit == (if vstd::utf8::encode_utf8(module@).len() >= 3 {
                vstd::utf8::encode_utf8(module@).len() - 3
            } else {
                0
            }),
            mv@ == method@,
            picked@.len() <= 5,
            crate::text::views(picked@) == similar_names(nv.take(k as int), method@),
        decreases names@.len() - k,
    {
        let n = chars_of(names[k].as_str());
        assert(nv.take(k + 1).drop_last() =~= nv.take(k as int));
        assert(nv.take(k + 1).last() == names@[k as int]@);
        let common = common_prefix(n.as_slice(), mv.as_slice());
        if crate::text::starts_with(n.as_slice(), module.as_slice()) && !crate::text::seq_eq(
            n.as_slice(),
            mv.as_slice(),
        ) && common > limit {
            let ghost before = crate::text::views(picked@);
            picked.push(n);
            assert(crate::text::views(picked@) =~= before.push(names@[k as int]@));
        }
        k = k + 1;
    }
    proof {
        let c = similar_names(nv, method@);
        lemma_similar_prefix(nv, method@, k as int);
        if picked@.len() < 5 {
            assert(nv.take(k as int) =~= nv);
            assert(c.take(c.len() as int) =~= c);
        } else {
            lemma_similar_len(nv, method@, k as int);
            assert(c.take(5) =~= similar_names(nv.take(k as int), method@));
        }
    }
    let sorted = sort_texts(picked);
    let mut out: Vec<String> = Vec::new();
    let mut j: usize = 0;
    while j < sorted.len()
        invariant
            0 <= j <= sorted@.len(),
            crate::config::string_views(out@) == crate::text::views(sorted@).take(j as int),
        decreases sorted@.len() - j,
    {
        let ghost before = crate::config::string_views(out@);
        assert(crate::text::views(sorted@)[j as int] == sorted@[j as int]@);
        let t = string_from(sorted[j].as_slice());
        out.push(t);
        assert(crate::config::string_views(out@) =~= before.push(t@));
        assert(crate::config::string_views(out@) =~= crate::text::views(sorted@).take(j + 1));
        j = j + 1;
    }
    assert(crate::text::views(sorted@).take(sorted@.len() as int) =~= crate::text::views(sorted@));
    out
}

fn common_prefix(a: &[char], b: &[char]) -> (r: usize)
    ensures
        r == common_prefix_len(a@, b@),
{
    let mut i: usize = 0;
    assert(a@.skip(0) =~= a@ && b@.skip(0) =~= b@);
    while i < a.len() && i < b.len() && a[i] == b[i]
        invariant
            0 <= i <= a@.len(),
            i <= b@.len(),
            common_prefix_len(a@, b@) == i + common_prefix_len(a@.skip(i as int), b@.skip(i as int)),
        decreases a@.len() - i,
    {
        assert(a@.skip(i as int).skip(1) =~= a@.skip(i + 1));
        assert(b@.skip(i as int).skip(1) =~= b@.skip(i + 1));
        i = i + 1;
    }
    if i < a.len() && i < b.len() {
        assert(a@.skip(i as int)[0] == a@[i as int] && b@.skip(i as int)[0] == b@[i as int]);
    }
    i
}

pub proof fn lemma_similar_prefix(names: Seq<Seq<char>>, method: Seq<char>, k: int)
    requires
        0 <= k <= names.len(),
    ensures
        similar_names(names.take(k), method).len() <= similar_names(names, method).len(),
        similar_names(names, method).take(similar_names(names.take(k), method).len() as int) == similar_names(
            names.take(k),
            method,
        ),
    decreases names.len() - k,
{
    if k < names.len() {
        lemma_similar_prefix(names, method, k + 1);
        assert(names.take(k + 1).drop_last() =~= names.take(k));
        let a = similar_names(names.take(k), method);
        let b = similar_names(names.take(k + 1), method);
        let c = similar_names(names, method);
        assert(b.take(a.len() as int) =~= a);
        assert(c.take(a.len() as int) =~= b.take(a.len() as int));
    } else {
        assert(names.take(k) =~= names);
        let c = similar_names(names, method);
        assert(c.take(c.len() as int) =~= c);
    }
}

pub proof fn lemma_similar_len(names: Seq<Seq<char>>, method: Seq<char>, k: int)
    requires
        0 <= k <= names.len(),
    ensures
        similar_names(names.take(k), method).len() <= similar_names(names, method).len(),
{
    lemma_similar_prefix(names, method, k);
}


// ==================== Arguments of built-in methods ====================

/// The storage file of a key: the sanitized key with `.json`.
pub fn storage_file_name(key: &str) -> (r: String)
    ensures
        r@ == sanitize_key_spec(key@) + ".json"@,
{
    let k = sanitize_key(key);
    let mut v = chars_of(k.as_str());
    push_str(&mut v, ".json");
    string_from(v.as_slice())
}

/// The theme source a page asks for: `light`, `dark`, else the system's.
pub fn theme_source_arg(arg: Option<&str>) -> (r: crate::native_theme::ThemeSource)
    ensures
        r == (match arg {
            Some(a) => if a@ == "light"@ {
                crate::native_theme::ThemeSource::Light
            } else if a@ == "dark"@ {
                crate::native_theme::ThemeSource::Dark
            } else {
                crate::native_theme::ThemeSource::System
            },
            None => crate::native_theme::ThemeSource::System,
        }),
{
    match arg {
        Some(a) => {
            let v = chars_of(a);
            if crate::text::eq_str(v.as_slice(), "light") {
                crate::native_theme::ThemeSource::Light
            } else if crate::text::eq_str(v.as_slice(), "dark") {
                crate::native_theme::ThemeSource::Dark
            } else {
                crate::native_theme::ThemeSource::System
            }
        },
        None => crate::native_theme::ThemeSource::System,
    }
}

/// The name a page receives for a theme source.
pub fn theme_source_name(source: crate::native_theme::ThemeSource) -> (r: &'static str)
    ensures
        r@ == (match source {
            crate::native_theme::ThemeSource::System => "system"@,
            crate::native_theme::ThemeSource::Light => "light"@,
            crate::native_theme::ThemeSource::Dark => "dark"@,
        }),
{
    match source {
        crate::native_theme::ThemeSource::System => "system",
        crate::native_theme::ThemeSource::Light => "light",
        crate::native_theme::ThemeSource::Dark => "dark",
    }
}

/// The bounce a page asks for: `critical`, else informational.
pub fn bounce_type_arg(arg: Option<&str>) -> (r: crate::dock::BounceType)
    ensures
        r == (if arg matches Some(a) && a@ == "critical"@ {
            crate::dock::BounceType::Critical
        } else {
            crate::dock::BounceType::Informational
        }),
{
    match arg {
        Some(a) => {
            let v = chars_of(a);
            if crate::text::eq_str(v.as_slice(), "critical") {
                crate::dock::BounceType::Critical
            } else {
                crate::dock::BounceType::Informational
            }
        },
        None => crate::dock::BounceType::Informational,
    }
}

/// The blocker a page asks for: `prevent-display-sleep`, else
/// `prevent-sleep`.
pub fn blocker_type_arg(arg: Option<&str>) -> (r: crate::power_save_blocker::PowerSaveBlockerType)
    ensures
        r == (if arg matches Some(a) && a@ == "prevent-display-sleep"@ {
            crate::power_save_blocker::PowerSaveBlockerType::PreventDisplaySleep
        } else {
            crate::power_save_blocker::PowerSaveBlockerType::PreventSleep
        }),
{
    match arg {
        Some(a) => {
            let v = chars_of(a);
            if crate::text::eq_str(v.as_slice(), "prevent-display-sleep") {
                crate::power_save_blocker::PowerSaveBlockerType::PreventDisplaySleep
            } else {
                crate::power_save_blocker::PowerSaveBlockerType::PreventSleep
            }
        },
        None => crate::power_save_blocker::PowerSaveBlockerType::PreventSleep,
    }
}

// ==================== Method registry and dispatch ====================

/// The names of the methods a page can call. Each name occurs once; the
/// handlers that run under them live in the application.
pub struct MethodRegistry {
    names: Vec<String>,
}

/// No name occurs twice.
pub open spec fn distinct_texts(s: Seq<Seq<char>>) -> bool {
    forall|i: int, j: int| 0 <= i < j < s.len() ==> s[i] != s[j]
}

impl View for MethodRegistry {
    type V = Seq<Seq<char>>;

    closed spec fn view(&self) -> Seq<Seq<char>> {
        crate::config::string_views(self.names@)
    }
}

impl MethodRegistry {
    #[verifier::type_invariant]
    spec fn names_distinct(&self) -> bool {
        distinct_texts(crate::config::string_views(self.names@))
    }

    /// A registry without methods.
    pub fn new() -> (r: MethodRegistry)
        ensures
            r@ == Seq::<Seq<char>>::empty(),
    {
        let r = MethodRegistry { names: Vec::new() };
        assert(crate::config::string_views(r.names@) =~= Seq::<Seq<char>>::empty());
        r
    }

    /// Whether a method of this name is registered.
    pub fn has_method(&self, name: &str) -> (r: bool)
        ensures
            r == self@.contains(name@),
    {
        let n = chars_of(name);
        let mut i: usize = 0;
        while i < self.names.len()
            invariant
                0 <= i <= self.names@.len(),
                n@ == name@,
                forall|k: int| 0 <= k < i ==> crate::config::string_views(self.names@)[k] != name@,
            decreases self.names@.len() - i,
        {
            let k = chars_of(self.names[i].as_str());
            if crate::text::seq_eq(k.as_slice(), n.as_slice()) {
                assert(self@[i as int] == name@);
                return true;
            }
            i = i + 1;
        }
        proof {
            if self@.contains(name@) {
                let j = choose|j: int| 0 <= j < self@.len() && self@[j] == name@;
                assert(crate::config::string_views(self.names@)[j] != name@);
            }
        }
        false
    }

    /// Registers a method name; a name already there stays where it is
    /// (its handler is replaced by the application).
    pub fn register_method(&mut self, name: &str)
        ensures
            old(self)@.contains(name@) ==> final(self)@ == old(self)@,
            !old(self)@.contains(name@) ==> final(self)@ == old(self)@.push(name@),
    {
        if self.has_method(name) {
            return;
        }
        proof {
            use_type_invariant(&*self);
        }
        let mut names = Vec::new();
        std::mem::swap(&mut names, &mut self.names);
        let ghost before = crate::config::string_views(names@);
        names.push(owned(name));
        proof {
            assert(crate::config::string_views(names@) =~= before.push(name@));
            assert forall|i: int, j: int| 0 <= i < j < before.push(name@).len() implies before.push(name@)[i]
                != before.push(name@)[j] by {
                if j == before.len() {
                    assert(before[i] != name@);
                }
            }
        }
        self.names = names;
    }

    /// The registered names, each once, in the order of registration.
    pub fn list_methods(&self) -> (r: Vec<String>)
        ensures
            crate::config::string_views(r@) == self@,
            distinct_texts(crate::config::string_views(r@)),
    {
        proof {
            use_type_invariant(self);
        }
        let mut out: Vec<String> = Vec::new();
        let mut i: usize = 0;
        while i < self.names.len()
            invariant
                0 <= i <= self.names@.len(),
                crate::config::string_views(out@) == self@.subrange(0, i as int),
            decreases self.names@.len() - i,
        {
            let ghost before = crate::config::string_views(out@);
            let x = owned(self.names[i].as_str());
            out.push(x);
            assert(crate::config::string_views(out@) =~= before.push(x@));
            i = i + 1;
            assert(crate::config::string_views(out@) =~= self@.subrange(0, i as int));
        }
        assert(self@.subrange(0, self@.len() as int) =~= self@);
        out
    }
}

/// Once registered, a method is found, and it is listed once.
pub proof fn law_registered_method_is_found(before: Seq<Seq<char>>, after: Seq<Seq<char>>, name: Seq<char>)
    requires
        distinct_texts(before),
        before.contains(name) ==> after == before,
        !before.contains(name) ==> after == before.push(name),
    ensures
        after.contains(name),
        distinct_texts(after),
        forall|m: Seq<char>| before.contains(m) ==> after.contains(m),
{
    if !before.contains(name) {
        assert(after[before.len() as int] == name);
        assert forall|m: Seq<char>| before.contains(m) implies after.contains(m) by {
            let j = choose|j: int| 0 <= j < before.len() && before[j] == m;
            assert(after[j] == m);
        }
        assert forall|i: int, j: int| 0 <= i < j < after.len() implies after[i] != after[j] by {
            if j == before.len() {
                assert(after[i] == before[i]);
            }
        }
    }
}

/// A message from a page, with its JSON values as text.
#[derive(Debug, Clone)]
pub enum IpcMessage {
    /// A call of a method.
    Invoke { id: u64, method: String, args: Vec<String> },
    /// Data for the application's message handler.
    Send { data: String },
    /// A reply to a call (only the bridge sends these).
    Callback { id: u64, result: Option<String>, error: Option<String> },
    /// An event (only the bridge sends these).
    Event { event: String, data: String },
}

/// What the bridge does with a message.
#[derive(Debug)]
pub enum Dispatch {
    /// Run the handler of a registered method with these arguments, then
    /// answer with `invoke_reply`.
    Call { id: u64, method: String, args: Vec<String> },
    /// Answer at once: the method is not registered. `similar` are the names
    /// offered in the warning.
    Unknown { reply: String, similar: Vec<String> },
    /// Hand the data to the message handler; no answer.
    Deliver { data: String },
    /// A message that only the bridge sends; no answer.
    Ignore,
}

/// Decides what to do with a message from a page.
pub fn dispatch_message(registry: &MethodRegistry, message: IpcMessage) -> (r: Dispatch)
    ensures
        match message {
            IpcMessage::Invoke { id, method, args } => if registry@.contains(method@) {
                r matches Dispatch::Call { id: i, method: m, args: a } && i == id && m@ == method@ && a@ == args@
            } else {
                r matches Dispatch::Unknown { reply, similar } && reply@ == callback_spec(
                    id,
                    None,
                    Some(unknown_method_spec(method@)),
                ) && sorted_texts(crate::config::string_views(similar@))
                    && crate::config::string_views(similar@).to_multiset() == ({
                    let c = similar_names(registry@, method@);
                    c.take(
                        if c.len() < 5 {
                            c.len() as int
                        } else {
                            5
                        },
                    )
                }).to_multiset()
            },
            IpcMessage::Send { data } => r matches Dispatch::Deliver { data: d } && d@ == data@,
            _ => r is Ignore,
        },
{
    match message {
        IpcMessage::Invoke { id, method, args } => {
            if registry.has_method(method.as_str()) {
                Dispatch::Call { id, method, args }
            } else {
                let err = unknown_method_error(method.as_str());
                let reply = callback_json(id, None, Some(err.as_str()));
                let names = registry.list_methods();
                let similar = find_similar_methods(&names, method.as_str());
                Dispatch::Unknown { reply, similar }
            }
        },
        IpcMessage::Send { data } => Dispatch::Deliver { data },
        _ => Dispatch::Ignore,
    }
}

/// The answer to call `id` once its handler has run: its result's JSON text
/// (none for no result), or its error.
pub fn invoke_reply(id: u64, outcome: &Result<Option<String>, String>) -> (r: String)
    ensures
        r@ == (match outcome {
            Ok(Some(v)) => callback_spec(id, Some(v@), None),
            Ok(None) => callback_spec(id, None, None),
            Err(e) => callback_spec(id, None, Some(e@)),
        }),
{
    match outcome {
        Ok(Some(v)) => callback_json(id, Some(v.as_str()), None),
        Ok(None) => callback_json(id, None, None),
        Err(e) => callback_json(id, None, Some(e.as_str())),
    }
}

// ==================== Pending events ====================

/// Events waiting to be sent to the page: each its name and its data's JSON
/// text, in the order they were queued.
pub struct EventQueue {
    events: Vec<(String, String)>,
}

/// The texts of queued events.
pub open spec fn event_views(v: Seq<(String, String)>) -> Seq<(Seq<char>, Seq<char>)> {
    v.map_values(|e: (String, String)| (e.0@, e.1@))
}

impl View for EventQueue {
    type V = Seq<(Seq<char>, Seq<char>)>;

    closed spec fn view(&self) -> Seq<(Seq<char>, Seq<char>)> {
        event_views(self.events@)
    }
}

impl EventQueue {
    /// An empty queue.
    pub fn new() -> (r: EventQueue)
        ensures
            r@ == Seq::<(Seq<char>, Seq<char>)>::empty(),
    {
        let r = EventQueue { events: Vec::new() };
        assert(r@ =~= Seq::<(Seq<char>, Seq<char>)>::empty());
        r
    }

    /// Queues an event behind those already waiting.
    pub fn queue_event(&mut self, event: &str, data: &str)
        ensures
            final(self)@ == old(self)@.push((event@, data@)),
    {
        self.events.push((owned(event), owned(data)));
        assert(self@ =~= old(self)@.push((event@, data@)));
    }

    /// Takes all waiting events, oldest first, leaving none.
    pub fn drain_pending_events(&mut self) -> (r: Vec<(String, String)>)
        ensures
            event_views(r@) == old(self)@,
            final(self)@ == Seq::<(Seq<char>, Seq<char>)>::empty(),
    {
        let mut out = Vec::new();
        std::mem::swap(&mut out, &mut self.events);
        assert(self@ =~= Seq::<(Seq<char>, Seq<char>)>::empty());
        out
    }
}

/// Events queued one after another (each step as `queue_event` leaves the
/// queue) wait behind those already there, in the order they were queued:
/// the queue then holds `start + queued`, which is what the next
/// `drain_pending_events` returns.
pub proof fn law_drain_returns_queued(
    start: Seq<(Seq<char>, Seq<char>)>,
    queued: Seq<(Seq<char>, Seq<char>)>,
    steps: Seq<Seq<(Seq<char>, Seq<char>)>>,
)
    requires
        steps.len() == queued.len() + 1,
        steps[0] == start,
        forall|i: int| 0 <= i < queued.len() ==> #[trigger] steps[i + 1] == steps[i].push(queued[i]),
    ensures
        steps.last() == start + queued,
    decreases queued.len(),
{
    if queued.len() > 0 {
        let n = queued.len() - 1;
        law_drain_returns_queued(start, queued.take(n), steps.take(n + 1));
        assert(steps[n + 1] == steps[n].push(queued[n]));
        assert(start + queued =~= (start + queued.take(n)).push(queued[n]));
    } else {
        assert(start + queued =~= start);
    }
}

} // verus!

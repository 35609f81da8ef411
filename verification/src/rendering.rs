//! Rendering settings: frame limits and animations per mode, the
//! optimization script injected into pages, and the performance style sheet.

use vstd::prelude::*;
use crate::text::{chars_of, decimal, decimal_spec, owned, push_all, push_str, string_from};

verus! {

/// How pages are rendered.
#[derive(Debug, Clone, Copy, PartialEq, Eq, Structural)]
pub enum RenderingMode {
    /// Chosen by system performance.
    Auto,
    /// Higher resource use.
    HighPerformance,
    /// Lower frame rate, no animations.
    PowerSaving,
}

/// Rendering settings.
#[derive(Debug)]
pub struct RenderConfig {
    /// Hardware acceleration.
    pub hardware_acceleration: bool,
    /// Frame rate limit (0: none).
    pub frame_rate_limit: u32,
    /// Smooth scrolling.
    pub smooth_scrolling: bool,
    /// The mode.
    pub rendering_mode: RenderingMode,
    /// List length from which virtual scrolling is suggested.
    pub virtual_scroll_threshold: usize,
    /// WebGL 2.0.
    pub webgl2_enabled: bool,
    /// CSS animation optimization.
    pub css_animation_optimized: bool,
}

impl Default for RenderConfig {
    fn default() -> (r: RenderConfig)
        ensures
            r.hardware_acceleration,
            r.frame_rate_limit == 0,
            r.smooth_scrolling,
            r.rendering_mode == RenderingMode::Auto,
            r.virtual_scroll_threshold == 100,
            r.webgl2_enabled,
            r.css_animation_optimized,
    {
        RenderConfig {
            hardware_acceleration: true,
            frame_rate_limit: 0,
            smooth_scrolling: true,
            rendering_mode: RenderingMode::Auto,
            virtual_scroll_threshold: 100,
            webgl2_enabled: true,
            css_animation_optimized: true,
        }
    }
}

/// The frame limit recommended for a mode (0: none).
pub open spec fn frame_limit_spec(m: RenderingMode) -> u32 {
    match m {
        RenderingMode::Auto => 0,
        RenderingMode::HighPerformance => 60,
        RenderingMode::PowerSaving => 30,
    }
}

impl RenderingMode {
    /// The recommended frame limit: none for `Auto`, 60 for high
    /// performance, 30 for power saving.
    pub fn recommended_frame_limit(&self) -> (r: u32)
        ensures
            r == frame_limit_spec(*self),
    {
        match self {
            RenderingMode::Auto => 0,
            RenderingMode::HighPerformance => 60,
            RenderingMode::PowerSaving => 30,
        }
    }

    /// Animations run in every mode but power saving.
    pub fn animations_enabled(&self) -> (r: bool)
        ensures
            r == (*self != RenderingMode::PowerSaving),
    {
        match self {
            RenderingMode::PowerSaving => false,
            _ => true,
        }
    }
}

/// The name of a mode in the script.
pub open spec fn mode_name(m: RenderingMode) -> Seq<char> {
    match m {
        RenderingMode::Auto => "auto"@,
        RenderingMode::HighPerformance => "high-performance"@,
        RenderingMode::PowerSaving => "power-saving"@,
    }
}

/// A fixed part of the optimization script.
pub const FPS_COMMENT_HEAD: &'static str = "// Nefu rendering optimization: frame rate limit ";

/// A fixed part of the optimization script.
pub const FPS_COMMENT_TAIL: &'static str = "fps\n";

/// A fixed part of the optimization script.
pub const FPS_LIMIT_HEAD: &'static str = "window.__nefu_fps_limit = ";

/// A fixed part of the optimization script.
pub const FPS_LIMIT_TAIL: &'static str = ";\n";

/// A fixed part of the optimization script.
pub const MODE_HEAD: &'static str = "window.__nefu_render_mode = '";

/// A fixed part of the optimization script.
pub const MODE_TAIL: &'static str = "';\n";

/// A fixed part of the optimization script.
pub const SMOOTH_COMMENT: &'static str = "// Nefu rendering optimization: enable smooth scrolling\n";

/// A fixed part of the optimization script.
pub const SMOOTH_SCRIPT: &'static str = "document.documentElement.style.scrollBehavior = 'smooth';\n";

/// A fixed part of the optimization script.
pub const CSS_COMMENT: &'static str = "// Nefu rendering optimization: CSS animation optimization\n";

/// A fixed part of the optimization script.
pub const CSS_SCRIPT: &'static str = "const style = document.createElement('style');style.textContent = `.nefu-optimized * {-webkit-transform: translateZ(0);transform: translateZ(0);will-change: transform;}.nefu-gpu-accelerated {-webkit-transform: translateZ(0);transform: translateZ(0);will-change: transform, opacity;backface-visibility: hidden;}@media (prefers-reduced-motion: reduce) {* {animation-duration: 0.01ms !important;transition-duration: 0.01ms !important;}}`;document.head.appendChild(style);document.documentElement.classList.add('nefu-optimized');\n";

/// A fixed part of the optimization script.
pub const THRESHOLD_COMMENT_HEAD: &'static str = "// Nefu rendering optimization: virtual scroll threshold ";

/// A fixed part of the optimization script.
pub const THRESHOLD_COMMENT_TAIL: &'static str = "\n";

/// A fixed part of the optimization script.
pub const THRESHOLD_HEAD: &'static str = "window.__nefu_virtual_scroll_threshold = ";

/// A fixed part of the optimization script.
pub const THRESHOLD_TAIL: &'static str = ";\n";

/// A fixed part of the optimization script.
pub const LIST_OBSERVER: &'static str = "// Automatically detect large lists and suggest using virtual scrolling\nconst observer = new MutationObserver((mutations) => {const lists = document.querySelectorAll('ul, ol, table, [role=\"list\"]');lists.forEach(list => {const itemCount = list.children.length;if (itemCount > window.__nefu_virtual_scroll_threshold) {console.warn(`[Nefu] Detected ${itemCount} list items, consider using virtual scrolling to optimize performance`);}});});\n";

/// A fixed part of the optimization script.
pub const OBSERVER_START: &'static str = "if (document.body) {observer.observe(document.body, { childList: true, subtree: true });} else {document.addEventListener('DOMContentLoaded', () => {observer.observe(document.body, { childList: true, subtree: true });});}\n";

/// A fixed part of the optimization script.
pub const LAZY_LOADING: &'static str = "// Nefu rendering optimization: visibility-based lazy loading\nconst lazyImages = document.querySelectorAll('img[data-src], [data-lazy]');if ('IntersectionObserver' in window) {const imgObserver = new IntersectionObserver((entries) => {entries.forEach(entry => {if (entry.isIntersecting) {const img = entry.target;if (img.dataset.src) {img.src = img.dataset.src;}img.removeAttribute('data-lazy');imgObserver.unobserve(img);}});});lazyImages.forEach(img => imgObserver.observe(img));}\n";

/// The performance style sheet.
pub const PERFORMANCE_CSS: &'static str = "/* Nefu performance optimization CSS */\n\n/* Enable GPU-accelerated compositing layers */\n.nefu-gpu-layer {\n    transform: translateZ(0);\n    will-change: transform;\n    backface-visibility: hidden;\n}\n\n/* Optimize scrolling performance */\n.nefu-smooth-scroll {\n    scroll-behavior: smooth;\n    -webkit-overflow-scrolling: touch;\n    overscroll-behavior: contain;\n}\n\n/* Reduce repaints and reflows */\n.nefu-contain-strict {\n    contain: strict;\n}\n\n.nefu-contain-layout {\n    contain: layout;\n}\n\n.nefu-contain-content {\n    contain: content;\n}\n\n/* Large list optimization */\n.nefu-large-list {\n    contain: layout style paint;\n    content-visibility: auto;\n    contain-intrinsic-size: 0 500px;\n}\n\n/* Virtualization support */\n.nefu-virtual-scroll-container {\n    position: relative;\n    overflow: auto;\n    contain: strict;\n}\n\n.nefu-virtual-scroll-item {\n    position: absolute;\n    left: 0;\n    right: 0;\n}\n\n/* Limit animation effects to save performance */\n@media (prefers-reduced-motion: reduce) {\n    *,\n    *::before,\n    *::after {\n        animation-duration: 0.01ms !important;\n        animation-iteration-count: 1 !important;\n        transition-duration: 0.01ms !important;\n        scroll-behavior: auto !important;\n    }\n}\n\n/* Performance mode class */\n.nefu-power-saving * {\n    animation: none !important;\n    transition: none !important;\n    box-shadow: none !important;\n    filter: none !important;\n}\n\n.nefu-high-performance {\n    /* In high performance mode, animations can be used more aggressively */\n}\n";

/// The optimization script for a configuration: the frame limit (where
/// there is one), the mode, smooth scrolling and CSS optimization (where
/// enabled), the virtual scroll threshold with the list observer, and lazy
/// image loading.
pub open spec fn optimization_script_spec(c: RenderConfig) -> Seq<char> {
    (if c.frame_rate_limit > 0 {
        FPS_COMMENT_HEAD@ + decimal_spec(c.frame_rate_limit as nat) + FPS_COMMENT_TAIL@ + FPS_LIMIT_HEAD@
            + decimal_spec(c.frame_rate_limit as nat) + FPS_LIMIT_TAIL@
    } else {
        Seq::empty()
    }) + MODE_HEAD@ + mode_name(c.rendering_mode) + MODE_TAIL@ + (if c.smooth_scrolling {
        SMOOTH_COMMENT@ + SMOOTH_SCRIPT@
    } else {
        Seq::empty()
    }) + (if c.css_animation_optimized {
        CSS_COMMENT@ + CSS_SCRIPT@
    } else {
        Seq::empty()
    }) + THRESHOLD_COMMENT_HEAD@ + decimal_spec(c.virtual_scroll_threshold as nat) + THRESHOLD_COMMENT_TAIL@
        + THRESHOLD_HEAD@ + decimal_spec(c.virtual_scroll_threshold as nat) + THRESHOLD_TAIL@
        + LIST_OBSERVER@ + OBSERVER_START@ + LAZY_LOADING@
}

/// The script injected into pages to tune rendering.
pub fn generate_render_optimization_script(config: &RenderConfig) -> (r: String)
    ensures
        r@ == optimization_script_spec(*config),
{
    let mut s: Vec<char> = Vec::new();
    if config.frame_rate_limit > 0 {
        let d = decimal(config.frame_rate_limit as u64);
        push_str(&mut s, FPS_COMMENT_HEAD);
        push_all(&mut s, d.as_slice());
        push_str(&mut s, FPS_COMMENT_TAIL);
        push_str(&mut s, FPS_LIMIT_HEAD);
        push_all(&mut s, d.as_slice());
        push_str(&mut s, FPS_LIMIT_TAIL);
    }
    let ghost a = s@;
    push_str(&mut s, MODE_HEAD);
    let name = match config.rendering_mode {
        RenderingMode::Auto => "auto",
        RenderingMode::HighPerformance => "high-performance",
        RenderingMode::PowerSaving => "power-saving",
    };
    push_str(&mut s, name);
    push_str(&mut s, MODE_TAIL);
    if config.smooth_scrolling {
        push_str(&mut s, SMOOTH_COMMENT);
        push_str(&mut s, SMOOTH_SCRIPT);
    }
    if config.css_animation_optimized {
        push_str(&mut s, CSS_COMMENT);
        push_str(&mut s, CSS_SCRIPT);
    }
    let t = decimal(config.virtual_scroll_threshold as u64);
    push_str(&mut s, THRESHOLD_COMMENT_HEAD);
    push_all(&mut s, t.as_slice());
    push_str(&mut s, THRESHOLD_COMMENT_TAIL);
    push_str(&mut s, THRESHOLD_HEAD);
    push_all(&mut s, t.as_slice());
    push_str(&mut s, THRESHOLD_TAIL);
    push_str(&mut s, LIST_OBSERVER);
    push_str(&mut s, OBSERVER_START);
    push_str(&mut s, LAZY_LOADING);
    assert(s@ =~= optimization_script_spec(*config));
    string_from(s.as_slice())
}

/// The style sheet for pages with many elements.
pub fn generate_performance_css() -> (r: String)
    ensures
        r@ == PERFORMANCE_CSS@,
{
    owned(PERFORMANCE_CSS)
}

} // verus!

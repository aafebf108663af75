//! The two colour palettes and the border/title styles of focused and
//! unfocused panels. The application maps the colours to terminal colours;
//! colour gradients (which interpolate with floating point) are computed
//! there.
use vstd::prelude::*;
use crate::config::ThemeMode;

verus! {

/// A 24-bit colour.
#[derive(Debug, Clone, Copy, PartialEq, Eq, Structural)]
pub struct Rgb {
    pub r: u8,
    pub g: u8,
    pub b: u8,
}

/// A palette.
#[derive(Debug, Clone, Copy, PartialEq, Eq, Structural)]
pub struct Theme {
    pub mode: ThemeMode,
    pub border_normal: Rgb,
    pub border_focused: Rgb,
    pub title_focused: Rgb,
    pub text_main: Rgb,
    pub text_dim: Rgb,
    pub text_highlight: Rgb,
    pub cpu_low: Rgb,
    pub cpu_mid: Rgb,
    pub cpu_high: Rgb,
    pub mem_primary: Rgb,
    pub mem_secondary: Rgb,
    pub gpu_primary: Rgb,
    pub gpu_secondary: Rgb,
    pub net_rx: Rgb,
    pub net_tx: Rgb,
    pub disk_read: Rgb,
    pub disk_write: Rgb,
    pub proc_header_bg: Rgb,
    pub proc_selected_bg: Rgb,
    pub proc_selected_fg: Rgb,
}

/// The dark palette: charcoal background, cyan/neon accents.
pub open spec fn dark_theme() -> Theme {
    Theme {
        mode: ThemeMode::Dark,
        border_normal: Rgb { r: 55, g: 65, b: 85 },
        border_focused: Rgb { r: 0, g: 220, b: 255 },
        title_focused: Rgb { r: 0, g: 255, b: 230 },
        text_main: Rgb { r: 226, g: 232, b: 240 },
        text_dim: Rgb { r: 115, g: 130, b: 155 },
        text_highlight: Rgb { r: 255, g: 255, b: 255 },
        cpu_low: Rgb { r: 52, g: 211, b: 153 },
        cpu_mid: Rgb { r: 251, g: 191, b: 36 },
        cpu_high: Rgb { r: 248, g: 113, b: 113 },
        mem_primary: Rgb { r: 56, g: 189, b: 248 },
        mem_secondary: Rgb { r: 168, g: 85, b: 247 },
        gpu_primary: Rgb { r: 217, g: 70, b: 239 },
        gpu_secondary: Rgb { r: 244, g: 114, b: 182 },
        net_rx: Rgb { r: 45, g: 212, b: 191 },
        net_tx: Rgb { r: 251, g: 146, b: 60 },
        disk_read: Rgb { r: 96, g: 165, b: 250 },
        disk_write: Rgb { r: 244, g: 63, b: 94 },
        proc_header_bg: Rgb { r: 30, g: 41, b: 59 },
        proc_selected_bg: Rgb { r: 30, g: 58, b: 138 },
        proc_selected_fg: Rgb { r: 255, g: 255, b: 255 },
    }
}

/// The light palette: high-contrast dark accents for bright rooms.
pub open spec fn light_theme() -> Theme {
    Theme {
        mode: ThemeMode::Light,
        border_normal: Rgb { r: 190, g: 200, b: 215 },
        border_focused: Rgb { r: 37, g: 99, b: 235 },
        title_focused: Rgb { r: 29, g: 78, b: 216 },
        text_main: Rgb { r: 30, g: 41, b: 59 },
        text_dim: Rgb { r: 100, g: 116, b: 139 },
        text_highlight: Rgb { r: 15, g: 23, b: 42 },
        cpu_low: Rgb { r: 22, g: 163, b: 74 },
        cpu_mid: Rgb { r: 217, g: 119, b: 6 },
        cpu_high: Rgb { r: 220, g: 38, b: 38 },
        mem_primary: Rgb { r: 2, g: 132, b: 199 },
        mem_secondary: Rgb { r: 124, g: 58, b: 237 },
        gpu_primary: Rgb { r: 147, g: 51, b: 234 },
        gpu_secondary: Rgb { r: 190, g: 24, b: 93 },
        net_rx: Rgb { r: 13, g: 148, b: 136 },
        net_tx: Rgb { r: 194, g: 65, b: 12 },
        disk_read: Rgb { r: 37, g: 99, b: 235 },
        disk_write: Rgb { r: 185, g: 28, b: 28 },
        proc_header_bg: Rgb { r: 226, g: 232, b: 240 },
        proc_selected_bg: Rgb { r: 191, g: 219, b: 254 },
        proc_selected_fg: Rgb { r: 15, g: 23, b: 42 },
    }
}

/// The foreground colour and weight of a piece of text.
#[derive(Debug, Clone, Copy, PartialEq, Eq, Structural)]
pub struct TextStyle {
    pub fg: Rgb,
    pub bold: bool,
}

impl Theme {
    /// The dark palette.
    pub fn dark() -> (r: Self)
        ensures
            r == dark_theme(),
    {
        Theme {
            mode: ThemeMode::Dark,
            border_normal: Rgb { r: 55, g: 65, b: 85 },
            border_focused: Rgb { r: 0, g: 220, b: 255 },
            title_focused: Rgb { r: 0, g: 255, b: 230 },
            text_main: Rgb { r: 226, g: 232, b: 240 },
            text_dim: Rgb { r: 115, g: 130, b: 155 },
            text_highlight: Rgb { r: 255, g: 255, b: 255 },
            cpu_low: Rgb { r: 52, g: 211, b: 153 },
            cpu_mid: Rgb { r: 251, g: 191, b: 36 },
            cpu_high: Rgb { r: 248, g: 113, b: 113 },
            mem_primary: Rgb { r: 56, g: 189, b: 248 },
            mem_secondary: Rgb { r: 168, g: 85, b: 247 },
            gpu_primary: Rgb { r: 217, g: 70, b: 239 },
            gpu_secondary: Rgb { r: 244, g: 114, b: 182 },
            net_rx: Rgb { r: 45, g: 212, b: 191 },
            net_tx: Rgb { r: 251, g: 146, b: 60 },
            disk_read: Rgb { r: 96, g: 165, b: 250 },
            disk_write: Rgb { r: 244, g: 63, b: 94 },
            proc_header_bg: Rgb { r: 30, g: 41, b: 59 },
            proc_selected_bg: Rgb { r: 30, g: 58, b: 138 },
            proc_selected_fg: Rgb { r: 255, g: 255, b: 255 },
        }
    }

    /// The light palette.
    pub fn light() -> (r: Self)
        ensures
            r == light_theme(),
    {
        Theme {
            mode: ThemeMode::Light,
            border_normal: Rgb { r: 190, g: 200, b: 215 },
            border_focused: Rgb { r: 37, g: 99, b: 235 },
            title_focused: Rgb { r: 29, g: 78, b: 216 },
            text_main: Rgb { r: 30, g: 41, b: 59 },
            text_dim: Rgb { r: 100, g: 116, b: 139 },
            text_highlight: Rgb { r: 15, g: 23, b: 42 },
            cpu_low: Rgb { r: 22, g: 163, b: 74 },
            cpu_mid: Rgb { r: 217, g: 119, b: 6 },
            cpu_high: Rgb { r: 220, g: 38, b: 38 },
            mem_primary: Rgb { r: 2, g: 132, b: 199 },
            mem_secondary: Rgb { r: 124, g: 58, b: 237 },
            gpu_primary: Rgb { r: 147, g: 51, b: 234 },
            gpu_secondary: Rgb { r: 190, g: 24, b: 93 },
            net_rx: Rgb { r: 13, g: 148, b: 136 },
            net_tx: Rgb { r: 194, g: 65, b: 12 },
            disk_read: Rgb { r: 37, g: 99, b: 235 },
            disk_write: Rgb { r: 185, g: 28, b: 28 },
            proc_header_bg: Rgb { r: 226, g: 232, b: 240 },
            proc_selected_bg: Rgb { r: 191, g: 219, b: 254 },
            proc_selected_fg: Rgb { r: 15, g: 23, b: 42 },
        }
    }

    /// The palette of a theme mode.
    pub fn from_mode(mode: ThemeMode) -> (r: Self)
        ensures
            r == match mode {
                ThemeMode::Dark => dark_theme(),
                ThemeMode::Light => light_theme(),
            },
            r.mode == mode,
    {
        match mode {
            ThemeMode::Dark => Self::dark(),
            ThemeMode::Light => Self::light(),
        }
    }

    /// Border style of a panel: the focus colour in bold when focused.
    pub fn block_border_style(&self, focused: bool) -> (r: TextStyle)
        ensures
            r == if focused {
                TextStyle { fg: self.border_focused, bold: true }
            } else {
                TextStyle { fg: self.border_normal, bold: false }
            },
    {
        if focused {
            TextStyle { fg: self.border_focused, bold: true }
        } else {
            TextStyle { fg: self.border_normal, bold: false }
        }
    }

    /// Title style of a panel: the title colour in bold when focused,
    /// dimmed otherwise.
    pub fn block_title_style(&self, focused: bool) -> (r: TextStyle)
        ensures
            r == if focused {
                TextStyle { fg: self.title_focused, bold: true }
            } else {
                TextStyle { fg: self.text_dim, bold: false }
            },
    {
        if focused {
            TextStyle { fg: self.title_focused, bold: true }
        } else {
            TextStyle { fg: self.text_dim, bold: false }
        }
    }
}

} // verus!

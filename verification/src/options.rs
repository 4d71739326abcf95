//! Profile options: feature switches kept as marker directories in a
//! profile's option folder, and two settings kept as small text files.

use vstd::prelude::*;
use vstd::string::*;
use crate::metadata::{split_fields, split_on, string_views};
use crate::number::{parse_usize, parsed_usize};
use crate::text::text_equals;

verus! {

/// Folder of a profile that holds the option markers.
pub const PATH_OPTIONS: &'static str = "Config";

/// Where the display setting was kept by earlier versions, directly in the
/// profile directory.
pub const PATH_OLD_CUSTOM_DISPLAY_RES_OPTIONS: &'static str = "\u{5206}\u{8fa8}\u{7387}.txt";

/// What the home page setting holds when the home page is switched off.
pub const HOMEPAGE_DISABLED: &'static str = "disable";

/// The value of one option.
#[derive(Debug, Clone)]
pub enum ProfileOptionValue {
    /// Width, height, colour depth and refresh rate of the display.
    CustomDisplayRes(usize, usize, usize, usize),
    CustomHomepageUrl(String),
    Enabled,
    Disabled,
}

impl From<bool> for ProfileOptionValue {
    fn from(v: bool) -> (value: ProfileOptionValue) {
        match v {
            true => ProfileOptionValue::Enabled,
            false => ProfileOptionValue::Disabled,
        }
    }
}

impl vstd::std_specs::convert::FromSpecImpl<bool> for ProfileOptionValue {
    open spec fn obeys_from_spec() -> bool {
        true
    }

    open spec fn from_spec(v: bool) -> ProfileOptionValue {
        if v {
            ProfileOptionValue::Enabled
        } else {
            ProfileOptionValue::Disabled
        }
    }
}

/// The options of a profile.
#[derive(Debug, Clone, Copy, PartialEq, Eq, Structural)]
pub enum ProfileOption {
    CustomDisplayRes,
    CustomHomepageUrl,
    CustomSystemFilesFolder,
    AllowExternalLauncher,
    IgnoreOutdate,
    DisableUSBManager,
    DisableSmartISO,
    UnfoldRibbon,
    RebootDefault,
    DisableRecycleBin,
    AutoUnattend,
    DriveUpActive,
    DriveWindowsFirst,
    DriveOrderAnotherWay,
    DriveMountEveryPartition,
    DisableLoadScreen,
    DisablePinBrowsers,
}

/// Where an option is kept, relative to the profile directory.
#[derive(Debug, Clone, Copy)]
pub struct OptionPath {
    /// Whether the name lies in the option folder, or directly in the
    /// profile directory.
    pub in_options_folder: bool,
    pub name: &'static str,
}

/// The name under which an option is kept.
pub open spec fn option_name(option: ProfileOption) -> Seq<char> {
    match option {
        ProfileOption::CustomDisplayRes => "\u{5206}\u{8fa8}\u{7387}.txt"@,
        ProfileOption::CustomHomepageUrl => "HomePage.txt"@,
        ProfileOption::CustomSystemFilesFolder => "Windows"@,
        ProfileOption::AllowExternalLauncher => "Developer"@,
        ProfileOption::IgnoreOutdate => "NoOutDateCheck"@,
        ProfileOption::DisableUSBManager => "DisableUSBManager"@,
        ProfileOption::DisableSmartISO => "DisableSmartISO"@,
        ProfileOption::UnfoldRibbon => "UnfoldRibbon"@,
        ProfileOption::RebootDefault => "RebootDefault"@,
        ProfileOption::DisableRecycleBin => "DisableRecycleBin"@,
        ProfileOption::AutoUnattend => "AutoUnattend"@,
        ProfileOption::DriveUpActive => "UpActDrv"@,
        ProfileOption::DriveWindowsFirst => "WinFirst"@,
        ProfileOption::DriveOrderAnotherWay => "OrderDrvAnotherWay"@,
        ProfileOption::DriveMountEveryPartition => "MountEveryPartition"@,
        ProfileOption::DisableLoadScreen => "DisableLoadScreen"@,
        ProfileOption::DisablePinBrowsers => "DisablePinBrowsers"@,
    }
}

impl ProfileOption {
    /// Where this option is kept: every option in the option folder, but for
    /// the folder of custom system files, which lies beside it.
    pub fn into_path(self) -> (path: OptionPath)
        ensures
            path.name@ == option_name(self),
            path.in_options_folder == (self != ProfileOption::CustomSystemFilesFolder),
    {
        let name: &'static str = match self {
            ProfileOption::CustomDisplayRes => "\u{5206}\u{8fa8}\u{7387}.txt",
            ProfileOption::CustomHomepageUrl => "HomePage.txt",
            ProfileOption::CustomSystemFilesFolder => "Windows",
            ProfileOption::AllowExternalLauncher => "Developer",
            ProfileOption::IgnoreOutdate => "NoOutDateCheck",
            ProfileOption::DisableUSBManager => "DisableUSBManager",
            ProfileOption::DisableSmartISO => "DisableSmartISO",
            ProfileOption::UnfoldRibbon => "UnfoldRibbon",
            ProfileOption::RebootDefault => "RebootDefault",
            ProfileOption::DisableRecycleBin => "DisableRecycleBin",
            ProfileOption::AutoUnattend => "AutoUnattend",
            ProfileOption::DriveUpActive => "UpActDrv",
            ProfileOption::DriveWindowsFirst => "WinFirst",
            ProfileOption::DriveOrderAnotherWay => "OrderDrvAnotherWay",
            ProfileOption::DriveMountEveryPartition => "MountEveryPartition",
            ProfileOption::DisableLoadScreen => "DisableLoadScreen",
            ProfileOption::DisablePinBrowsers => "DisablePinBrowsers",
        };
        let in_options_folder = match self {
            ProfileOption::CustomSystemFilesFolder => false,
            _ => true,
        };
        OptionPath { in_options_folder, name }
    }
}

/// What is found at a path.
#[derive(Debug, Clone, Copy, PartialEq, Eq, Structural)]
pub enum MarkerState {
    Missing,
    File,
    Directory,
    Other,
}

/// What was found at the places where a profile keeps its options.
#[derive(Debug, Clone)]
pub struct ProfileProbe {
    pub options_folder: MarkerState,
    pub allow_external_laucher: MarkerState,
    pub ignore_outdate: MarkerState,
    pub disable_usb_manager: MarkerState,
    pub disable_smart_iso: MarkerState,
    pub unfold_ribbon: MarkerState,
    pub reboot_default: MarkerState,
    pub disable_recycle_bin: MarkerState,
    pub auto_unattend: MarkerState,
    pub drive_up_active: MarkerState,
    pub drive_windows_first: MarkerState,
    pub drive_order_another_way: MarkerState,
    pub drive_mount_every_partition: MarkerState,
    pub disable_loadscreen: MarkerState,
    pub disable_pin_browsers: MarkerState,
    pub custom_system_files: MarkerState,
    /// What the display setting holds, where it is a file.
    pub custom_display_res: Option<String>,
    /// What the home page setting holds, where it is a file.
    pub custom_homepage_url: Option<String>,
}

/// All options of a profile, each with its value.
#[derive(Debug, Clone)]
pub struct ProfileOptions {
    pub allow_external_laucher: ProfileOptionValue,
    pub ignore_outdate: ProfileOptionValue,
    pub disable_usb_manager: ProfileOptionValue,
    pub disable_smart_iso: ProfileOptionValue,
    pub unfold_ribbon: ProfileOptionValue,
    pub reboot_default: ProfileOptionValue,
    pub disable_recycle_bin: ProfileOptionValue,
    pub auto_unattend: ProfileOptionValue,
    pub drive_up_active: ProfileOptionValue,
    pub drive_windows_first: ProfileOptionValue,
    pub drive_order_another_way: ProfileOptionValue,
    pub drive_mount_every_partition: ProfileOptionValue,
    pub disable_loadscreen: ProfileOptionValue,
    pub disable_pin_browsers: ProfileOptionValue,
    pub custom_display_res: ProfileOptionValue,
    pub custom_homepage_url: ProfileOptionValue,
    pub custom_system_files: ProfileOptionValue,
}

/// Why the options of a profile cannot be read.
#[derive(Debug, Clone, Copy, PartialEq, Eq, Structural)]
pub enum OptionsError {
    /// A part of the display setting is no number.
    InvalidNumber,
}

/// The options with every one of them switched off.
pub open spec fn all_disabled() -> ProfileOptions {
    ProfileOptions {
        allow_external_laucher: ProfileOptionValue::Disabled,
        ignore_outdate: ProfileOptionValue::Disabled,
        disable_usb_manager: ProfileOptionValue::Disabled,
        disable_smart_iso: ProfileOptionValue::Disabled,
        unfold_ribbon: ProfileOptionValue::Disabled,
        reboot_default: ProfileOptionValue::Disabled,
        disable_recycle_bin: ProfileOptionValue::Disabled,
        auto_unattend: ProfileOptionValue::Disabled,
        drive_up_active: ProfileOptionValue::Disabled,
        drive_windows_first: ProfileOptionValue::Disabled,
        drive_order_another_way: ProfileOptionValue::Disabled,
        drive_mount_every_partition: ProfileOptionValue::Disabled,
        disable_loadscreen: ProfileOptionValue::Disabled,
        disable_pin_browsers: ProfileOptionValue::Disabled,
        custom_display_res: ProfileOptionValue::Disabled,
        custom_homepage_url: ProfileOptionValue::Disabled,
        custom_system_files: ProfileOptionValue::Disabled,
    }
}

impl Default for ProfileOptions {
    fn default() -> (options: ProfileOptions)
        ensures
            options == all_disabled(),
    {
        ProfileOptions {
            allow_external_laucher: ProfileOptionValue::Disabled,
            ignore_outdate: ProfileOptionValue::Disabled,
            disable_usb_manager: ProfileOptionValue::Disabled,
            disable_smart_iso: ProfileOptionValue::Disabled,
            unfold_ribbon: ProfileOptionValue::Disabled,
            reboot_default: ProfileOptionValue::Disabled,
            disable_recycle_bin: ProfileOptionValue::Disabled,
            auto_unattend: ProfileOptionValue::Disabled,
            drive_up_active: ProfileOptionValue::Disabled,
            drive_windows_first: ProfileOptionValue::Disabled,
            drive_order_another_way: ProfileOptionValue::Disabled,
            drive_mount_every_partition: ProfileOptionValue::Disabled,
            disable_loadscreen: ProfileOptionValue::Disabled,
            disable_pin_browsers: ProfileOptionValue::Disabled,
            custom_display_res: ProfileOptionValue::Disabled,
            custom_homepage_url: ProfileOptionValue::Disabled,
            custom_system_files: ProfileOptionValue::Disabled,
        }
    }
}

/// The four parts of a display setting, as far as they were given.
#[derive(Debug, Clone, Copy, PartialEq, Eq, Structural)]
pub struct DisplayParts {
    pub width: Option<usize>,
    pub height: Option<usize>,
    pub depth: Option<usize>,
    pub rate: Option<usize>,
}

/// The parts after one more piece of the setting was read. A piece that
/// begins with `w`, `h`, `b` or `f` gives that part, and what follows the
/// letter has to be a number; any other piece is passed over.
pub open spec fn with_piece(parts: DisplayParts, piece: Seq<char>) -> Option<DisplayParts> {
    if piece.len() == 0 {
        Some(parts)
    } else {
        let rest = piece.subrange(1, piece.len() as int);
        if piece[0] == 'w' {
            match parsed_usize(rest) {
                Some(n) => Some(DisplayParts { width: Some(n), ..parts }),
                None => None,
            }
        } else if piece[0] == 'h' {
            match parsed_usize(rest) {
                Some(n) => Some(DisplayParts { height: Some(n), ..parts }),
                None => None,
            }
        } else if piece[0] == 'b' {
            match parsed_usize(rest) {
                Some(n) => Some(DisplayParts { depth: Some(n), ..parts }),
                None => None,
            }
        } else if piece[0] == 'f' {
            match parsed_usize(rest) {
                Some(n) => Some(DisplayParts { rate: Some(n), ..parts }),
                None => None,
            }
        } else {
            Some(parts)
        }
    }
}

/// The parts given by the first `n` pieces; none where one of them names a
/// part without giving a number. A part given twice has its later value.
pub open spec fn parts_of(pieces: Seq<Seq<char>>, n: nat) -> Option<DisplayParts>
    decreases n,
{
    if n == 0 || n > pieces.len() {
        Some(DisplayParts { width: None, height: None, depth: None, rate: None })
    } else {
        match parts_of(pieces, (n - 1) as nat) {
            Some(parts) => with_piece(parts, pieces[n - 1]),
            None => None,
        }
    }
}

/// The display setting that a text holds: its pieces are separated by single
/// blanks, as in `w1024 h768 b32 f60`. A setting that lacks one of the four
/// parts is no setting.
pub open spec fn display_res_of(text: Seq<char>) -> Result<
    Option<(usize, usize, usize, usize)>,
    OptionsError,
> {
    let pieces = split_fields(text, ' ');
    match parts_of(pieces, pieces.len()) {
        None => Err(OptionsError::InvalidNumber),
        Some(parts) => if parts.width is Some && parts.height is Some && parts.depth is Some
            && parts.rate is Some {
            Ok(Some((parts.width->0, parts.height->0, parts.depth->0, parts.rate->0)))
        } else {
            Ok(None)
        },
    }
}

/// Reads a display setting.
pub fn parse_display_res(text: &str) -> (res: Result<
    Option<(usize, usize, usize, usize)>,
    OptionsError,
>)
    ensures
        res == display_res_of(text@),
{
    let pieces = split_on(text, ' ');
    let ghost views = string_views(pieces@);
    let mut parts = DisplayParts { width: None, height: None, depth: None, rate: None };
    let n: usize = pieces.len();
    let mut i: usize = 0;
    while i < n
        invariant
            n == pieces@.len(),
            views == string_views(pieces@),
            views == split_fields(text@, ' '),
            i <= n,
            parts_of(views, i as nat) == Some(parts),
        decreases n - i,
    {
        let piece = pieces[i].as_str();
        assert(piece@ == views[i as int]);
        let len: usize = piece.unicode_len();
        if len > 0 {
            let head = piece.get_char(0);
            if head == 'w' || head == 'h' || head == 'b' || head == 'f' {
                let rest = piece.substring_char(1, len);
                match parse_usize(rest) {
                    Some(value) => {
                        if head == 'w' {
                            parts.width = Some(value);
                        } else if head == 'h' {
                            parts.height = Some(value);
                        } else if head == 'b' {
                            parts.depth = Some(value);
                        } else {
                            parts.rate = Some(value);
                        }
                    },
                    None => {
                        proof {
                            assert(parts_of(views, (i + 1) as nat) is None);
                            lemma_parts_stay_none(views, (i + 1) as nat, n as nat);
                        }
                        return Err(OptionsError::InvalidNumber);
                    },
                }
            }
        }
        i = i + 1;
    }
    match (parts.width, parts.height, parts.depth, parts.rate) {
        (Some(w), Some(h), Some(b), Some(f)) => Ok(Some((w, h, b, f))),
        _ => Ok(None),
    }
}

/// Once a piece has failed, no later piece mends it.
pub proof fn lemma_parts_stay_none(pieces: Seq<Seq<char>>, k: nat, n: nat)
    requires
        k <= n <= pieces.len(),
        parts_of(pieces, k) is None,
    ensures
        parts_of(pieces, n) is None,
    decreases n,
{
    if k < n {
        lemma_parts_stay_none(pieces, k, (n - 1) as nat);
    }
}

/// The lower-case form of a text.
pub uninterp spec fn lowercase_of(text: Seq<char>) -> Seq<char>;

/// `str::to_lowercase` of std: the lower-case equivalent of the text, as a
/// new string. The result depends on the text alone, so it is given a name;
/// nothing is claimed about which characters change.
#[verifier::external_body]
fn lowercase(text: &str) -> (lower: String)
    ensures
        lower@ == lowercase_of(text@),
{
    text.to_lowercase()
}

/// The value of the home page option, given what its file holds and the
/// lower-case form of that: switched off by the word `disable` in any
/// mixture of cases, the text itself otherwise.
pub open spec fn homepage_value(text: String, lower: Seq<char>) -> ProfileOptionValue {
    if lower == HOMEPAGE_DISABLED@ {
        ProfileOptionValue::Disabled
    } else {
        ProfileOptionValue::CustomHomepageUrl(text)
    }
}

/// The value of a switch: on where its marker is a directory.
pub open spec fn switch_value(marker: MarkerState) -> ProfileOptionValue {
    if marker == MarkerState::Directory {
        ProfileOptionValue::Enabled
    } else {
        ProfileOptionValue::Disabled
    }
}

/// The options that a probe shows, given the display setting that was read
/// from its text. Without an option folder every option is off, whatever else
/// was found.
pub open spec fn options_of(probe: ProfileProbe) -> Result<ProfileOptions, OptionsError> {
    if probe.options_folder == MarkerState::Missing {
        Ok(all_disabled())
    } else {
        let display = match probe.custom_display_res {
            Some(text) => display_res_of(text@),
            None => Ok(None),
        };
        match display {
            Err(e) => Err(e),
            Ok(res) => Ok(
                ProfileOptions {
                    allow_external_laucher: switch_value(probe.allow_external_laucher),
                    ignore_outdate: switch_value(probe.ignore_outdate),
                    disable_usb_manager: switch_value(probe.disable_usb_manager),
                    disable_smart_iso: switch_value(probe.disable_smart_iso),
                    unfold_ribbon: switch_value(probe.unfold_ribbon),
                    reboot_default: switch_value(probe.reboot_default),
                    disable_recycle_bin: switch_value(probe.disable_recycle_bin),
                    auto_unattend: if probe.auto_unattend != MarkerState::Missing {
                        ProfileOptionValue::Enabled
                    } else {
                        ProfileOptionValue::Disabled
                    },
                    drive_up_active: switch_value(probe.drive_up_active),
                    drive_windows_first: switch_value(probe.drive_windows_first),
                    drive_order_another_way: switch_value(probe.drive_order_another_way),
                    drive_mount_every_partition: switch_value(probe.drive_mount_every_partition),
                    disable_loadscreen: switch_value(probe.disable_loadscreen),
                    disable_pin_browsers: switch_value(probe.disable_pin_browsers),
                    custom_display_res: match res {
                        Some(r) => ProfileOptionValue::CustomDisplayRes(r.0, r.1, r.2, r.3),
                        None => ProfileOptionValue::Disabled,
                    },
                    custom_homepage_url: match probe.custom_homepage_url {
                        Some(text) => homepage_value(text, lowercase_of(text@)),
                        None => ProfileOptionValue::Disabled,
                    },
                    custom_system_files: switch_value(probe.custom_system_files),
                },
            ),
        }
    }
}

/// Reads a switch from its marker.
pub fn read_switch(marker: MarkerState) -> (value: ProfileOptionValue)
    ensures
        value == switch_value(marker),
{
    match marker {
        MarkerState::Directory => ProfileOptionValue::Enabled,
        _ => ProfileOptionValue::Disabled,
    }
}

/// Reads the home page option from what its file holds and the lower-case
/// form of that.
pub fn read_homepage(text: &String, lower: &str) -> (value: ProfileOptionValue)
    ensures
        value == homepage_value(*text, lower@),
{
    if text_equals(lower, HOMEPAGE_DISABLED) {
        ProfileOptionValue::Disabled
    } else {
        ProfileOptionValue::CustomHomepageUrl(text.clone())
    }
}

impl ProfileOptions {
    /// Reads the options of a profile from what was found at their places.
    /// Fails only where the display setting names a part without giving a
    /// number.
    pub fn parse(probe: &ProfileProbe) -> (options: Result<ProfileOptions, OptionsError>)
        ensures
            options == options_of(*probe),
    {
        let mut options = ProfileOptions::default();
        match probe.options_folder {
            MarkerState::Missing => {
                return Ok(options);
            },
            _ => {},
        }
        options.allow_external_laucher = read_switch(probe.allow_external_laucher);
        options.auto_unattend = match probe.auto_unattend {
            MarkerState::Missing => ProfileOptionValue::Disabled,
            _ => ProfileOptionValue::Enabled,
        };
        options.disable_loadscreen = read_switch(probe.disable_loadscreen);
        options.disable_pin_browsers = read_switch(probe.disable_pin_browsers);
        options.disable_recycle_bin = read_switch(probe.disable_recycle_bin);
        options.disable_smart_iso = read_switch(probe.disable_smart_iso);
        options.disable_usb_manager = read_switch(probe.disable_usb_manager);
        options.drive_mount_every_partition = read_switch(probe.drive_mount_every_partition);
        options.drive_order_another_way = read_switch(probe.drive_order_another_way);
        options.drive_up_active = read_switch(probe.drive_up_active);
        options.drive_windows_first = read_switch(probe.drive_windows_first);
        options.ignore_outdate = read_switch(probe.ignore_outdate);
        options.reboot_default = read_switch(probe.reboot_default);
        options.unfold_ribbon = read_switch(probe.unfold_ribbon);
        options.custom_system_files = read_switch(probe.custom_system_files);
        match &probe.custom_display_res {
            Some(text) => {
                match parse_display_res(text.as_str()) {
                    Ok(Some(res)) => {
                        options.custom_display_res = ProfileOptionValue::CustomDisplayRes(
                            res.0,
                            res.1,
                            res.2,
                            res.3,
                        );
                    },
                    Ok(None) => {},
                    Err(e) => {
                        return Err(e);
                    },
                }
            },
            None => {},
        }
        match &probe.custom_homepage_url {
            Some(text) => {
                let lower = lowercase(text.as_str());
                options.custom_homepage_url = read_homepage(text, lower.as_str());
            },
            None => {},
        }
        Ok(options)
    }
}

} // verus!

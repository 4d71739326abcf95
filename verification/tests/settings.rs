use edgeless_plugin::loader::PluginScriptType;
use edgeless_plugin::number::parse_usize;
use edgeless_plugin::options::{
    parse_display_res, read_homepage, read_switch, MarkerState, OptionsError, ProfileOption,
    ProfileOptionValue, ProfileOptions, ProfileProbe,
};

fn probe() -> ProfileProbe {
    ProfileProbe {
        options_folder: MarkerState::Directory,
        allow_external_laucher: MarkerState::Missing,
        ignore_outdate: MarkerState::Missing,
        disable_usb_manager: MarkerState::Missing,
        disable_smart_iso: MarkerState::Missing,
        unfold_ribbon: MarkerState::Missing,
        reboot_default: MarkerState::Missing,
        disable_recycle_bin: MarkerState::Missing,
        auto_unattend: MarkerState::Missing,
        drive_up_active: MarkerState::Missing,
        drive_windows_first: MarkerState::Missing,
        drive_order_another_way: MarkerState::Missing,
        drive_mount_every_partition: MarkerState::Missing,
        disable_loadscreen: MarkerState::Missing,
        disable_pin_browsers: MarkerState::Missing,
        custom_system_files: MarkerState::Missing,
        custom_display_res: None,
        custom_homepage_url: None,
    }
}

fn on(v: &ProfileOptionValue) -> bool {
    matches!(v, ProfileOptionValue::Enabled)
}

fn off(v: &ProfileOptionValue) -> bool {
    matches!(v, ProfileOptionValue::Disabled)
}

#[test]
fn numbers() {
    assert_eq!(parse_usize("0"), Some(0));
    assert_eq!(parse_usize("1024"), Some(1024));
    assert_eq!(parse_usize("+60"), Some(60));
    assert_eq!(parse_usize("007"), Some(7));
    assert_eq!(parse_usize(""), None);
    assert_eq!(parse_usize("+"), None);
    assert_eq!(parse_usize("-1"), None);
    assert_eq!(parse_usize("12a"), None);
    assert_eq!(parse_usize(" 12"), None);
    assert_eq!(parse_usize("++1"), None);
    assert_eq!(parse_usize("\u{663}"), None);
    assert_eq!(parse_usize(&usize::MAX.to_string()), Some(usize::MAX));
    assert_eq!(parse_usize(&format!("{}0", usize::MAX)), None);
    assert_eq!(parse_usize("99999999999999999999999999"), None);
    assert_eq!(parse_usize("000000000000000000000000000001"), Some(1));
}

#[test]
fn numbers_agree_with_std() {
    for text in ["", "+", "0", "+0", "42", "4 2", "18446744073709551615", "18446744073709551616", "x1"] {
        assert_eq!(parse_usize(text), text.parse::<usize>().ok());
    }
}

#[test]
fn display_setting() {
    assert_eq!(parse_display_res("w1024 h768 b32 f60"), Ok(Some((1024, 768, 32, 60))));
    assert_eq!(parse_display_res("f60 b32 h768 w1024"), Ok(Some((1024, 768, 32, 60))));
    assert_eq!(parse_display_res("w1 w2 h3 b4 f5"), Ok(Some((2, 3, 4, 5))));
    assert_eq!(parse_display_res("w1024  h768 x b32 f60"), Ok(Some((1024, 768, 32, 60))));
    assert_eq!(parse_display_res("w1024 h768 b32"), Ok(None));
    assert_eq!(parse_display_res(""), Ok(None));
    assert_eq!(parse_display_res("w1024 h768 b32 f"), Err(OptionsError::InvalidNumber));
    assert_eq!(parse_display_res("wide h768 b32 f60"), Err(OptionsError::InvalidNumber));
    assert_eq!(parse_display_res("w1024 h768 b32 f60\n"), Err(OptionsError::InvalidNumber));
}

#[test]
fn no_option_folder_means_all_off() {
    let mut p = probe();
    p.options_folder = MarkerState::Missing;
    p.ignore_outdate = MarkerState::Directory;
    p.custom_display_res = Some("broken w".to_string());
    p.custom_homepage_url = Some("https://example.org".to_string());
    let o = ProfileOptions::parse(&p).unwrap();
    assert!(off(&o.ignore_outdate));
    assert!(off(&o.custom_display_res));
    assert!(off(&o.custom_homepage_url));
    let d = ProfileOptions::default();
    assert!(off(&d.allow_external_laucher) && off(&d.custom_system_files) && off(&d.auto_unattend));
}

#[test]
fn switches_need_a_directory() {
    let mut p = probe();
    p.allow_external_laucher = MarkerState::Directory;
    p.ignore_outdate = MarkerState::File;
    p.disable_usb_manager = MarkerState::Other;
    p.auto_unattend = MarkerState::File;
    p.custom_system_files = MarkerState::Directory;
    p.disable_pin_browsers = MarkerState::Directory;
    let o = ProfileOptions::parse(&p).unwrap();
    assert!(on(&o.allow_external_laucher));
    assert!(off(&o.ignore_outdate));
    assert!(off(&o.disable_usb_manager));
    assert!(on(&o.auto_unattend));
    assert!(on(&o.custom_system_files));
    assert!(on(&o.disable_pin_browsers));
    assert!(off(&o.unfold_ribbon));
    assert!(on(&read_switch(MarkerState::Directory)));
    assert!(off(&read_switch(MarkerState::Missing)));
    assert!(on(&ProfileOptionValue::from(true)));
    assert!(off(&ProfileOptionValue::from(false)));
}

#[test]
fn texts_are_read() {
    let mut p = probe();
    p.custom_display_res = Some("w800 h600 b16 f75".to_string());
    p.custom_homepage_url = Some("https://Example.org".to_string());
    let o = ProfileOptions::parse(&p).unwrap();
    assert!(matches!(o.custom_display_res, ProfileOptionValue::CustomDisplayRes(800, 600, 16, 75)));
    assert!(matches!(&o.custom_homepage_url, ProfileOptionValue::CustomHomepageUrl(u) if u == "https://Example.org"));
    p.custom_homepage_url = Some("DisAble".to_string());
    p.custom_display_res = Some("w800".to_string());
    let o = ProfileOptions::parse(&p).unwrap();
    assert!(off(&o.custom_homepage_url));
    assert!(off(&o.custom_display_res));
    p.custom_display_res = Some("w800 hx".to_string());
    assert_eq!(ProfileOptions::parse(&p).err(), Some(OptionsError::InvalidNumber));
}

#[test]
fn homepage_by_lowercase_form() {
    let text = "DISABLE".to_string();
    assert!(off(&read_homepage(&text, "disable")));
    assert!(matches!(read_homepage(&text, "disabled"), ProfileOptionValue::CustomHomepageUrl(u) if u == "DISABLE"));
}

#[test]
fn option_places() {
    let p = ProfileOption::AllowExternalLauncher.into_path();
    assert_eq!((p.in_options_folder, p.name), (true, "Developer"));
    let p = ProfileOption::CustomSystemFilesFolder.into_path();
    assert_eq!((p.in_options_folder, p.name), (false, "Windows"));
    let p = ProfileOption::CustomDisplayRes.into_path();
    assert_eq!((p.in_options_folder, p.name), (true, "\u{5206}\u{8fa8}\u{7387}.txt"));
    let p = ProfileOption::DriveUpActive.into_path();
    assert_eq!((p.in_options_folder, p.name), (true, "UpActDrv"));
    let p = ProfileOption::IgnoreOutdate.into_path();
    assert_eq!((p.in_options_folder, p.name), (true, "NoOutDateCheck"));
}

#[test]
fn scripts_by_suffix() {
    assert_eq!(PluginScriptType::of_extension("cmd"), Some(PluginScriptType::Batch));
    assert_eq!(PluginScriptType::of_extension("wcs"), Some(PluginScriptType::Pecmd));
    assert_eq!(PluginScriptType::of_extension("CMD"), None);
    assert_eq!(PluginScriptType::of_extension("7z"), None);
    assert_eq!(PluginScriptType::of_extension(""), None);
}

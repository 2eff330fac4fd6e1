use spyglass::{
    get_shortcut_destination, is_windows_shortcut, resolve_shortcut, LinkInfo, Platform,
    ShellLink,
};

fn link(local: Option<&str>, unicode: Option<&str>) -> Option<ShellLink> {
    Some(ShellLink {
        link_info: Some(LinkInfo {
            local_base_path: local.map(String::from),
            local_base_path_unicode: unicode.map(String::from),
        }),
    })
}

#[test]
fn shortcut_is_told_by_its_extension() {
    assert!(is_windows_shortcut("C:\\Users\\me\\Desktop\\app.lnk", Platform::Windows));
    assert!(is_windows_shortcut("/home/me/app.lnk", Platform::Posix));
    assert!(is_windows_shortcut("app.lnk", Platform::Posix));
    assert!(is_windows_shortcut("a.b.lnk", Platform::Posix));
    assert!(is_windows_shortcut("folder.lnk/", Platform::Posix));
}

#[test]
fn shortcut_extension_is_case_insensitive() {
    assert!(is_windows_shortcut("app.LNK", Platform::Windows));
    assert!(is_windows_shortcut("app.Lnk", Platform::Windows));
    assert!(is_windows_shortcut("app.lNk", Platform::Posix));
    assert!(is_windows_shortcut("app.lnK", Platform::Posix));
}

#[test]
fn other_names_are_no_shortcuts() {
    assert!(!is_windows_shortcut("app.txt", Platform::Windows));
    assert!(!is_windows_shortcut("app.lnk.txt", Platform::Windows));
    assert!(!is_windows_shortcut("app.lnkx", Platform::Windows));
    assert!(!is_windows_shortcut("app.ln", Platform::Windows));
    assert!(!is_windows_shortcut("lnk", Platform::Windows));
    assert!(!is_windows_shortcut(".lnk", Platform::Windows));
    assert!(!is_windows_shortcut("app.lnk/..", Platform::Windows));
    assert!(!is_windows_shortcut("x.lnk/file", Platform::Windows));
    assert!(!is_windows_shortcut("", Platform::Windows));
    // the Kelvin sign is no `k`
    assert!(!is_windows_shortcut("app.ln\u{212a}", Platform::Windows));
    // on POSIX the backslash belongs to the name, so this still ends in `.lnk`
    assert!(is_windows_shortcut("C:\\x\\app.lnk", Platform::Posix));
    assert!(!is_windows_shortcut("C:\\x.lnk\\app", Platform::Windows));
}

#[test]
fn unreadable_shortcut_has_no_target() {
    assert_eq!(get_shortcut_destination(&None), None);
}

#[test]
fn shortcut_without_link_info_has_no_target() {
    assert_eq!(get_shortcut_destination(&Some(ShellLink { link_info: None })), None);
}

#[test]
fn local_base_path_is_preferred() {
    assert_eq!(
        get_shortcut_destination(&link(Some("C:\\local"), Some("C:\\unicode"))),
        Some(String::from("C:\\local"))
    );
    assert_eq!(
        get_shortcut_destination(&link(Some("C:\\local"), None)),
        Some(String::from("C:\\local"))
    );
}

#[test]
fn unicode_base_path_is_the_fallback() {
    assert_eq!(
        get_shortcut_destination(&link(None, Some("C:\\unicode"))),
        Some(String::from("C:\\unicode"))
    );
}

#[test]
fn shortcut_without_base_paths_has_no_target() {
    assert_eq!(get_shortcut_destination(&link(None, None)), None);
}

#[test]
fn resolved_shortcut_keeps_its_source() {
    let resolved = resolve_shortcut("C:\\a.lnk", &link(None, Some("D:\\t")));
    assert_eq!(resolved.source_path, "C:\\a.lnk");
    assert_eq!(resolved.target_path, Some(String::from("D:\\t")));
    let broken = resolve_shortcut("C:\\b.lnk", &None);
    assert_eq!(broken.source_path, "C:\\b.lnk");
    assert_eq!(broken.target_path, None);
}

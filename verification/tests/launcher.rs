use oxideterm::launcher::{
    decode_utf16le, decode_wsl_output, parse_wsl_distro_list, wsl_list_result,
    wsl_only_on_windows, LauncherAppEntry, LauncherListResponse, LauncherLoadResponse, WslDistro,
};

#[test]
fn decode_wsl_output_handles_supported_encodings() {
    let text = "NAME STATE\nUbuntu Running\n";
    let utf16 = text
        .encode_utf16()
        .flat_map(u16::to_le_bytes)
        .collect::<Vec<_>>();
    let mut utf16_with_bom = vec![0xff, 0xfe];
    utf16_with_bom.extend_from_slice(&utf16);

    for raw in [text.as_bytes(), utf16_with_bom.as_slice(), utf16.as_slice()] {
        assert_eq!(decode_wsl_output(raw), text);
    }
}

#[test]
fn parse_wsl_distro_list_matches_default_and_running_fields() {
    let distros = parse_wsl_distro_list(
        "  NAME                   STATE           VERSION\n* Ubuntu                 Running         2\n  Debian                 Stopped         2\n",
    );
    assert_eq!(
        distros,
        vec![
            WslDistro {
                name: "Ubuntu".to_string(),
                is_default: true,
                is_running: true,
            },
            WslDistro {
                name: "Debian".to_string(),
                is_default: false,
                is_running: false,
            },
        ]
    );
}

#[test]
fn utf16_decoding_keeps_non_ascii_and_drops_nul_and_lone_surrogates() {
    let mut units: Vec<u16> = "Ü😀a".encode_utf16().collect();
    units.push(0);
    units.push(0xD800);
    units.push(u16::from(b'b'));
    let bytes: Vec<u8> = units.iter().flat_map(|u| u.to_le_bytes()).collect();
    assert_eq!(decode_utf16le(&bytes), "Ü😀ab");
    assert_eq!(decode_utf16le(&[0x41]), "");
}

#[test]
fn invalid_utf8_output_is_decoded_lossily() {
    assert_eq!(decode_wsl_output(&[b'o', b'k', 0xc3]), "ok\u{fffd}");
    assert_eq!(decode_wsl_output("grüße".as_bytes()), "grüße");
}

#[test]
fn wsl_list_result_reports_failures_and_empty_lists() {
    let message = "WSL is not available or no distributions installed";
    assert_eq!(wsl_list_result(false, b"NAME STATE\nUbuntu Running\n"), Err(message.to_string()));
    assert_eq!(wsl_list_result(true, b"NAME STATE VERSION\n"), Err(message.to_string()));
    let listed = wsl_list_result(true, b"NAME STATE VERSION\n* Arch Stopped 2\n").unwrap();
    assert_eq!(listed.len(), 1);
    assert_eq!(listed[0].name, "Arch");
    assert!(listed[0].is_default);
    assert!(!listed[0].is_running);
    assert_eq!(wsl_only_on_windows(), "WSL is only available on Windows");
}

#[test]
fn rows_without_a_state_are_skipped_and_state_is_case_insensitive() {
    let distros = parse_wsl_distro_list("NAME STATE\nlonely\n\n  Kali   RUNNING  2\n");
    assert_eq!(
        distros,
        vec![WslDistro { name: "Kali".to_string(), is_default: false, is_running: true }]
    );
}

#[test]
fn load_response_keeps_scanned_apps() {
    let list = LauncherListResponse {
        apps: vec![LauncherAppEntry {
            name: "Editor".to_string(),
            path: "/apps/editor".to_string(),
            bundle_id: None,
            icon_path: Some("/icons/editor.png".to_string()),
        }],
        icon_dir: Some("/icons".to_string()),
    };
    let load = LauncherLoadResponse::from_list(list.clone());
    assert_eq!(load.apps, list.apps);
    assert_eq!(load.icon_dir, list.icon_dir);
    assert!(load.wsl_distros.is_empty());
}

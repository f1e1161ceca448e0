use transplanter::updater::{
    decode_base64, is_newer_version, parse_release_output, powershell_file_parameters,
    quote_windows_arg, read_release_fields, update_script,
};

#[test]
fn version_compare_detects_newer_release() {
    assert!(is_newer_version("v0.1.1", "0.1.0"));
    assert!(is_newer_version("0.1.10", "0.1.2"));
    assert!(!is_newer_version("v0.1.0", "0.1.0"));
    assert!(!is_newer_version("v0.1.0", "0.1.1"));
}

#[test]
fn release_output_parses_base64_notes() {
    let release = parse_release_output(
        "tag=v0.1.1\nhtml_url=https://example.test/release\nasset_url=https://example.test/Transplanter.exe\nnotes_b64=44OG44K544OI\n",
    )
    .unwrap();

    assert_eq!(release.tag, "v0.1.1");
    assert_eq!(release.version, "0.1.1");
    assert_eq!(release.notes, "テスト");
    assert_eq!(release.asset_url, "https://example.test/Transplanter.exe");
}

#[test]
fn update_script_downloads_after_current_process_exits() {
    let script = update_script();

    assert!(script.contains("[string]$AssetUrl"));
    assert!(script.contains("Wait-Process -Id $ProcessId"));
    assert!(script.contains("Invoke-WebRequest -Uri $AssetUrl"));
    assert!(script.contains("Rename-Item -LiteralPath $TargetPath"));
    assert!(script.contains("Start-Process -FilePath $TargetPath"));
}

#[test]
fn powershell_file_parameters_quote_update_arguments() {
    let parameters = powershell_file_parameters(
        r"C:\Users\Player\Transplanter App\Transplanter-update.ps1",
        &vec![
            "1234".to_string(),
            r"C:\Users\Player\Transplanter App\Transplanter.exe".to_string(),
            r"C:\Users\Player\Transplanter App\Transplanter.exe.new".to_string(),
            "https://example.test/Transplanter.exe".to_string(),
        ],
    );

    assert!(parameters.contains("-WindowStyle Hidden"));
    assert!(
        parameters
            .contains(r#"-File "C:\Users\Player\Transplanter App\Transplanter-update.ps1""#)
    );
    assert!(parameters.contains(r#""C:\Users\Player\Transplanter App\Transplanter.exe""#));
    assert!(parameters.contains(r#""https://example.test/Transplanter.exe""#));
}

#[test]
fn quote_windows_arg_escapes_quotes_and_trailing_backslashes() {
    assert_eq!(
        quote_windows_arg(r#"C:\Path With "Quote"\tail\"#),
        r#""C:\Path With \"Quote\"\tail\\""#
    );
}

#[test]
fn version_ordering_pads_and_ignores_suffixes() {
    assert!(!is_newer_version("1.0", "1.0.0"));
    assert!(is_newer_version("1.0.1", "1.0"));
    assert!(!is_newer_version("1.2.0-beta", "1.2.0"));
    assert!(is_newer_version("vv2", "1.9.9"));
    assert!(!is_newer_version("x", "0"));
}

#[test]
fn release_output_errors() {
    assert_eq!(
        parse_release_output("html_url=x\n").err().unwrap(),
        "エラー: GitHub Release の情報が不足しています"
    );
    assert_eq!(
        parse_release_output("tag=v1\nasset_url=a\nnotes_b64=@@\n").err().unwrap(),
        "エラー: リリースノートのBase64を読めません"
    );
    assert!(parse_release_output("tag=v1\nasset_url=a\nnotes_b64=/w==\n")
        .err()
        .unwrap()
        .starts_with("エラー: リリースノートをUTF-8として読めません: "));
    let fields = read_release_fields(" tag = v2 \nasset_url=a\ntag=v3\n").unwrap();
    assert_eq!(fields.tag, "v3");
    assert_eq!(fields.notes_b64, "");
}

#[test]
fn base64_decodes_bytes() {
    assert_eq!(decode_base64("aGk=").unwrap(), b"hi".to_vec());
    assert_eq!(decode_base64("aG k").unwrap(), b"hi".to_vec());
    assert_eq!(decode_base64("").unwrap(), Vec::<u8>::new());
}

fn read_back(quoted: &str) -> String {
    let inner: Vec<char> = quoted.chars().collect();
    assert!(inner.len() >= 2 && inner[0] == '"' && inner[inner.len() - 1] == '"');
    let mut out = String::new();
    let mut pending = 0;
    for &c in &inner[1..inner.len() - 1] {
        match c {
            '\\' => pending += 1,
            '"' => {
                assert!(pending % 2 == 1, "closed early");
                out.push_str(&"\\".repeat(pending / 2));
                out.push('"');
                pending = 0;
            }
            _ => {
                out.push_str(&"\\".repeat(pending));
                out.push(c);
                pending = 0;
            }
        }
    }
    assert!(pending % 2 == 0);
    out.push_str(&"\\".repeat(pending / 2));
    out
}

#[test]
fn quoted_arguments_read_back_unchanged() {
    for value in ["", "plain", "C:\\Program Files\\", "say \"hi\"", "a\\\\\"b", "\\\\server\\share\\"] {
        assert_eq!(read_back(&quote_windows_arg(value)), value);
    }
}

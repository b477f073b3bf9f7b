use omasend::i18n::{CATALOG_SIZE, Language, catalog_keys};
use omasend::views::{connection_status, send_button_word};

/// Every catalog entry with its text in each locale.
fn catalog() -> Vec<(String, Vec<(String, String)>)> {
    catalog_keys()
        .into_iter()
        .map(|key| {
            (
                key.to_owned(),
                vec![
                    ("en".to_owned(), Language::En.text(key)),
                    ("zh-CN".to_owned(), Language::ZhCn.text(key)),
                ],
            )
        })
        .collect()
}

#[test]
fn catalog_covers_every_locale_and_preserves_placeholders() {
    let entries = catalog();
    assert!(entries.len() > 100, "catalog looks truncated");
    let mut seen = std::collections::HashSet::new();
    for (key, locales) in &entries {
        assert!(seen.insert(key), "duplicate catalog key: {key}");
        let text = |wanted: &str| {
            locales
                .iter()
                .find(|(locale, _)| locale == wanted)
                .unwrap_or_else(|| panic!("{key} has no {wanted} entry"))
                .1
                .clone()
        };
        let (en, zh) = (text("en"), text("zh-CN"));
        assert!(!zh.is_empty());
        for placeholder in ["%{name}", "%{count}"] {
            assert_eq!(
                en.matches(placeholder).count(),
                zh.matches(placeholder).count(),
                "{key}"
            );
        }
    }
}

#[test]
fn interface_words_are_translated() {
    assert_eq!(catalog_keys().len(), CATALOG_SIZE);
    assert_eq!(Language::ZhCn.text("Sent"), "已发送");
    assert_eq!(Language::En.text("Sent"), "Sent");
    assert_eq!(Language::ZhCn.named("nearby.select", "Mac"), "选择 Mac");
    assert_eq!(Language::En.named("transfer.to", "Phone"), "to Phone");
    assert_eq!(Language::ZhCn.text("not.a.key"), "not.a.key");
}

#[test]
fn transfer_errors_hide_transport_details_in_both_languages() {
    let request = "error sending request for url (https://127.0.0.1:53317/api/localsend/v2/prepare-upload): client error (Connect): connection refused";
    for (raw, en, zh) in [
        (
            request,
            "Cannot connect to the receiver. Make sure it is online and try again",
            "无法连接接收方，请确认对方在线后重试",
        ),
        (
            "error sending request: operation timed out",
            "The receiver did not respond. Try again",
            "接收方响应超时，请重试",
        ),
        (
            "error sending request: invalid peer certificate",
            "Could not verify the receiver. Check its identity and try again",
            "无法验证接收方身份，请确认对方身份后重试",
        ),
        (
            "409;Some(\"Blocked by another session\")",
            "The receiver is busy. Try again shortly",
            "接收方正忙，请稍后重试",
        ),
        (
            "unrecognized internal details",
            "Transfer failed. View logs for details",
            "传输失败，可查看日志了解详情",
        ),
        (
            "Sender stopped responding",
            "Sender stopped responding",
            "发送方停止响应",
        ),
    ] {
        assert_eq!(Language::En.transfer_error(raw), en);
        assert_eq!(Language::ZhCn.transfer_error(raw), zh);
    }
}

#[test]
fn protocol_errors_hide_raw_response_details() {
    let raw = "409;Some(\"Blocked by another session\")";
    assert_eq!(
        Language::En.error(raw),
        "The receiver is busy. Try again shortly"
    );
    assert_eq!(Language::ZhCn.error(raw), "接收方正忙，请稍后重试");
    assert_eq!(
        Language::En.error("500;Some(\"internal details\")"),
        "Transfer failed. View logs for details"
    );
    assert_eq!(
        Language::ZhCn.error("Network task stopped: OS error 7"),
        "网络任务已停止: OS error 7"
    );
}

#[test]
fn locale_fallback_and_user_content_are_predictable() {
    for locale in ["zh-CN", "zh_CN.UTF-8", "zh-Hans-CN", "zh_SG"] {
        assert_eq!(Language::from_locale(locale), Language::ZhCn);
    }
    for locale in ["en", "en_US.UTF-8", "ja-JP", "C", ""] {
        assert_eq!(Language::from_locale(locale), Language::En);
    }
    assert_eq!(
        Language::ZhCn.named("action.send_to", "My %{name} iPhone"),
        "发送到 My %{name} iPhone"
    );
    assert_eq!(
        Language::En.count(1, "history.item_one", "history.item_other"),
        "1 item"
    );
    assert_eq!(
        Language::En.count(2, "history.item_one", "history.item_other"),
        "2 items"
    );
    assert_eq!(
        Language::ZhCn.count(2, "history.item_one", "history.item_other"),
        "2 项"
    );
}

#[test]
fn protocol_status_codes_choose_their_summary() {
    assert_eq!(Language::En.error("401;None"), "The receiver requires a PIN");
    assert_eq!(Language::En.error("403;x"), "The receiver declined the transfer");
    assert_eq!(Language::En.error("422;x"), "File verification failed. Try sending again");
    assert_eq!(Language::En.error("+409;x"), "The receiver is busy. Try again shortly");
    assert_eq!(Language::En.error("399;kept as is"), "399;kept as is");
    assert_eq!(Language::En.error("600;kept as is"), "600;kept as is");
    assert_eq!(Language::ZhCn.error("401;None"), "接收方需要 PIN 码");
}

#[test]
fn error_parts_translate_separately_and_keep_their_separators() {
    assert_eq!(
        Language::ZhCn.error("Clipboard file no longer exists: /tmp/a: b"),
        "剪贴板文件已不存在: /tmp/a: b"
    );
    assert_eq!(Language::En.error("plain"), "plain");
    assert_eq!(Language::En.error(""), "");
    assert_eq!(Language::ZhCn.error(": "), ": ");
    assert_eq!(
        Language::ZhCn.error("Network task stopped: Transfer cancelled"),
        "网络任务已停止: 传输已取消"
    );
}

#[test]
fn transfer_errors_prefer_transport_causes_then_known_phrases() {
    assert_eq!(
        Language::En.transfer_error("TLS handshake failed"),
        "Could not verify the receiver. Check its identity and try again"
    );
    assert_eq!(
        Language::En.transfer_error("request TIMEOUT"),
        "The receiver did not respond. Try again"
    );
    assert_eq!(
        Language::En.transfer_error("dns error: no such host"),
        "Cannot connect to the receiver. Make sure it is online and try again"
    );
    assert_eq!(Language::ZhCn.transfer_error("Transfer cancelled"), "传输已取消");
    assert_eq!(
        Language::En.transfer_error("403;declined"),
        "The receiver declined the transfer"
    );
    assert_eq!(
        Language::En.transfer_error("Network task stopped: detail"),
        "Transfer failed. View logs for details"
    );
}

#[test]
fn texts_fall_back_to_their_key_and_codes_name_the_catalog() {
    assert_eq!(Language::En.text("no.such.key"), "no.such.key");
    assert_eq!(Language::ZhCn.text("Select {name}"), "Select {name}");
    assert_eq!(Language::En.text("action.accept"), "Accept");
    assert_eq!(Language::ZhCn.text("action.accept"), "接受");
    assert_eq!(Language::En.code(), "en");
    assert_eq!(Language::ZhCn.code(), "zh-CN");
    assert_eq!(Language::En.named("history.from", "%{name}"), "From %{name}");
    assert_eq!(Language::En.named("action.send_to", "Phone"), "Send to Phone");
    assert_eq!(Language::ZhCn.count(1, "history.file_one", "history.file_other"), "1 个文件");
    assert_eq!(Language::En.count(0, "history.file_one", "history.file_other"), "0 files");
}

#[test]
fn environment_language_takes_the_first_set_variable() {
    assert_eq!(
        Language::from_environment(&[None, Some(String::new()), Some("zh_CN.UTF-8".to_string())]),
        Language::ZhCn
    );
    assert_eq!(
        Language::from_environment(&[Some("en_US.UTF-8".to_string()), Some("zh_CN".to_string())]),
        Language::En
    );
    assert_eq!(Language::from_environment(&[None, None, None]), Language::En);
    assert_eq!(Language::from_locale("ZH"), Language::ZhCn);
    assert_eq!(Language::from_locale("zh-TW"), Language::En);
}

#[test]
fn no_interface_string_still_carries_a_catalog_placeholder() {
    // What the interface asks the catalog for, and the words it shows as they are.
    let mut interface: Vec<String> = catalog_keys().into_iter().map(str::to_owned).collect();
    for starting in [true, false] {
        for connected in [true, false] {
            for devices in [0, 2] {
                interface.push(connection_status(starting, connected, devices).to_owned());
            }
        }
    }
    interface.push(send_button_word(&Vec::new()).to_owned());
    for source in &interface {
        for placeholder in ["{name}", "{count}"] {
            assert!(
                !source.contains(placeholder),
                "{placeholder} is a catalog placeholder, not interface text"
            );
        }
    }
}

use oxideterm::i18n::{CatalogSources, I18n, JsonTree, Locale, LocaleCatalog};

#[test]
fn translates_active_locale() {
    let mut i18n = I18n::default();
    assert_eq!(i18n.t("menu.new_terminal"), "新建终端");

    i18n.set_locale(Locale::En);
    assert_eq!(i18n.t("menu.new_terminal"), "New Terminal");
}

#[test]
fn falls_back_to_english_then_key() {
    let i18n = I18n::new(Locale::ZhCn);
    assert_eq!(i18n.t("missing.key"), "missing.key");
}

#[test]
fn split_catalogs_keep_expected_domains() {
    let i18n = I18n::new(Locale::ZhCn);
    assert_eq!(i18n.t("ssh.form.title"), "新建连接");
    assert_eq!(i18n.t("sidebar.panels.sessions"), "活动会话");
    assert_eq!(i18n.t("terminal.local_terminal"), "本地终端");
    assert_eq!(i18n.t("terminal.trzsz.completed_title"), "传输已完成");
}

#[test]
fn loads_only_active_locale_and_fallback_until_switch() {
    let i18n = I18n::new(Locale::ZhCn);
    assert_eq!(i18n.loaded_catalog_count(), 2);
}

#[test]
fn language_names_are_autonyms_in_every_locale() {
    let expected = [
        ("language.english", "English"),
        ("language.simplified_chinese", "简体中文"),
    ];
    let locales = [Locale::En, Locale::ZhCn];

    for locale in locales {
        let i18n = I18n::new(locale);
        for (key, value) in expected {
            assert_eq!(i18n.t(key), value);
        }
    }
}

#[test]
fn english_loads_one_catalog_and_switching_loads_once() {
    let mut i18n = I18n::new(Locale::En);
    assert_eq!(i18n.loaded_catalog_count(), 1);
    assert_eq!(i18n.locale(), Locale::En);
    i18n.set_locale(Locale::ZhCn);
    assert_eq!(i18n.loaded_catalog_count(), 2);
    assert_eq!(i18n.locale(), Locale::ZhCn);
    i18n.set_locale(Locale::En);
    i18n.set_locale(Locale::ZhCn);
    assert_eq!(i18n.loaded_catalog_count(), 2);
    assert_eq!(i18n.t("terminal.local_terminal"), "本地终端");
}

fn object(members: Vec<(&str, JsonTree)>) -> JsonTree {
    JsonTree::Object(members.into_iter().map(|(k, v)| (k.to_string(), v)).collect())
}

fn text(s: &str) -> JsonTree {
    JsonTree::Text(s.to_string())
}

#[test]
fn json_parts_flatten_to_dotted_keys() {
    let parts = vec![
        object(vec![
            ("menu", object(vec![("copy", text("Copy")), ("paste", text("Paste"))])),
            ("count", JsonTree::Other),
        ]),
        object(vec![("sftp", object(vec![("dialog", object(vec![("title", text("Files"))]))]))]),
    ];
    assert_eq!(LocaleCatalog::duplicate_key(&parts), None);
    let catalog = LocaleCatalog::from_json_parts(&parts);
    assert_eq!(catalog.len(), 3);
    assert_eq!(catalog.get("menu.copy"), Some("Copy".to_string()));
    assert_eq!(catalog.get("menu.paste"), Some("Paste".to_string()));
    assert_eq!(catalog.get("sftp.dialog.title"), Some("Files".to_string()));
    assert_eq!(catalog.get("menu"), None);
    assert_eq!(catalog.get("count"), None);
}

#[test]
fn duplicate_keys_across_parts_are_reported() {
    let parts = vec![
        object(vec![("menu", object(vec![("copy", text("Copy"))]))]),
        object(vec![("menu", object(vec![("copy", text("Duplicate"))]))]),
    ];
    assert_eq!(LocaleCatalog::duplicate_key(&parts), Some("menu.copy".to_string()));
}

fn sources() -> CatalogSources {
    CatalogSources {
        en: vec![
            object(vec![("sftp", object(vec![("toast", object(vec![
                ("paste_failed", text("Paste failed")),
                ("paste_different_host", text("Paste into the same host")),
            ]))]))]),
            object(vec![("menu", object(vec![("new_terminal", text("New Terminal"))]))]),
        ],
        zh_cn: vec![object(vec![("sftp", object(vec![("toast", object(vec![
            ("paste_failed", text("粘贴失败")),
        ]))]))])],
    }
}

#[test]
fn catalogs_handed_in_as_json_parts_are_used() {
    let mut i18n = I18n::with_sources(Locale::ZhCn, sources());
    assert_eq!(i18n.loaded_catalog_count(), 2);
    assert_eq!(i18n.t("sftp.toast.paste_failed"), "粘贴失败");
    assert_eq!(i18n.t("sftp.toast.paste_different_host"), "Paste into the same host");
    assert_eq!(i18n.t("menu.new_terminal"), "New Terminal");
    assert_eq!(i18n.t("sftp.toast"), "sftp.toast");
    i18n.set_locale(Locale::En);
    assert_eq!(i18n.t("sftp.toast.paste_failed"), "Paste failed");
    assert_eq!(i18n.loaded_catalog_count(), 2);
}

#[test]
fn english_sources_load_one_catalog() {
    let mut i18n = I18n::with_sources(Locale::En, sources());
    assert_eq!(i18n.loaded_catalog_count(), 1);
    assert_eq!(i18n.t("sftp.toast.paste_failed"), "Paste failed");
    i18n.set_locale(Locale::ZhCn);
    assert_eq!(i18n.loaded_catalog_count(), 2);
    assert_eq!(i18n.t("sftp.toast.paste_failed"), "粘贴失败");
}

#[test]
fn builtin_sources_define_the_builtin_messages() {
    let builtin = CatalogSources::builtin();
    assert_eq!(LocaleCatalog::duplicate_key(&builtin.en), None);
    let en = LocaleCatalog::from_json_parts(&builtin.en);
    let zh = LocaleCatalog::from_json_parts(&builtin.zh_cn);
    assert_eq!(en.len(), zh.len());
    assert_eq!(en.get("menu.new_terminal"), Some("New Terminal".to_string()));
    assert_eq!(zh.get("menu.new_terminal"), Some("新建终端".to_string()));
}

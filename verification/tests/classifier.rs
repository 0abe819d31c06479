use mobius::classifier::{builtin_destination, category_for, extension_of, resolve_destination};
use mobius::config::Config;

fn config() -> Config {
    Config::default_with_watch_dir("/home/u/Downloads".to_string())
}

#[test]
fn categories_by_extension() {
    assert_eq!(category_for("pdf"), "Documents");
    assert_eq!(category_for("mobi"), "Documents");
    assert_eq!(category_for("png"), "Images");
    assert_eq!(category_for("avif"), "Images");
    assert_eq!(category_for("flac"), "Audio");
    assert_eq!(category_for("webm"), "Video");
    assert_eq!(category_for("7z"), "Archives");
    assert_eq!(category_for("rs"), "Code");
    assert_eq!(category_for("sql"), "Code");
    assert_eq!(category_for("dmg"), "Apps");
    assert_eq!(category_for("app"), "Apps");
    assert_eq!(category_for("appimage"), "Installers");
    assert_eq!(category_for("xyz"), "Other");
    assert_eq!(category_for(""), "Other");
    assert_eq!(category_for("toml"), "Other");
    assert_eq!(category_for("PDF"), "Other");
}

#[test]
fn builtin_destinations() {
    assert_eq!(builtin_destination("pdf"), "Documents/PDFs");
    assert_eq!(builtin_destination("docx"), "Documents/Word Files");
    assert_eq!(builtin_destination("csv"), "Documents/Spreadsheets");
    assert_eq!(builtin_destination("pptx"), "Documents/Presentations");
    assert_eq!(builtin_destination("md"), "Documents/Text Files");
    assert_eq!(builtin_destination("epub"), "Documents/E-books");
    assert_eq!(builtin_destination("jpg"), "Images");
    assert_eq!(builtin_destination("pkg"), "Apps");
    assert_eq!(builtin_destination("exe"), "Installers");
    assert_eq!(builtin_destination("unknown"), "Other");
}

#[test]
fn builtin_destinations_lie_in_their_category() {
    for ext in ["pdf", "doc", "xlsx", "odp", "txt", "epub", "png", "mp3", "zip", "js", "dmg", "msi", "q"] {
        let dest = builtin_destination(ext);
        let category = category_for(ext);
        assert!(dest == category || category == "Documents", "{ext}");
    }
}

#[test]
fn extensions_of_names() {
    assert_eq!(extension_of("report.pdf"), "pdf");
    assert_eq!(extension_of("Report.PDF"), "pdf");
    assert_eq!(extension_of("archive.tar.gz"), "gz");
    assert_eq!(extension_of("README"), "");
    assert_eq!(extension_of("trailing."), "");
    assert_eq!(extension_of(".bashrc"), "bashrc");
    assert_eq!(extension_of("Ünïcode.ÄBC"), "Äbc");
    assert_eq!(extension_of(""), "");
}

#[test]
fn extension_ignores_ascii_case_of_name() {
    for name in ["Photo.JPG", "photo.jpg", "PHOTO.Jpg"] {
        assert_eq!(extension_of(name), "jpg");
    }
}

#[test]
fn default_destination_is_builtin() {
    let c = config();
    assert_eq!(resolve_destination(&c, "pdf"), "Documents/PDFs");
    assert_eq!(resolve_destination(&c, "png"), "Images");
    assert_eq!(resolve_destination(&c, ""), "Other");
}

#[test]
fn destination_precedence() {
    let mut c = config();
    c.category_destinations.insert("Documents".to_string(), "Docs".to_string());
    assert_eq!(resolve_destination(&c, "pdf"), "Docs");
    assert_eq!(resolve_destination(&c, "png"), "Images");

    c.destination_map.insert("pdf".to_string(), "Papers".to_string());
    assert_eq!(resolve_destination(&c, "pdf"), "Papers");
    assert_eq!(resolve_destination(&c, "docx"), "Docs");

    c.rules.insert("pdf".to_string(), "Invoices".to_string());
    assert_eq!(resolve_destination(&c, "pdf"), "Invoices");
}

#[test]
fn flatten_gives_bare_category() {
    let mut c = config();
    c.flatten_to_categories = true;
    assert_eq!(resolve_destination(&c, "pdf"), "Documents");
    assert_eq!(resolve_destination(&c, "bin"), "Other");
    c.category_destinations.insert("Documents".to_string(), "Docs".to_string());
    assert_eq!(resolve_destination(&c, "pdf"), "Docs");
}

#[test]
fn remembered_rule_wins_over_everything() {
    let mut c = config();
    c.flatten_to_categories = true;
    c.destination_map.insert("zip".to_string(), "Zips".to_string());
    c.category_destinations.insert("Archives".to_string(), "Packed".to_string());
    c.remember_rule("zip".to_string(), "Backups".to_string());
    assert_eq!(resolve_destination(&c, "zip"), "Backups");
    c.remember_rule("zip".to_string(), "Later".to_string());
    assert_eq!(resolve_destination(&c, "zip"), "Later");
    assert_eq!(c.rules.len(), 1);
}

#[test]
fn builtin_destination_extends_its_category() {
    for ext in ["pdf", "docx", "csv", "pptx", "md", "epub"] {
        assert_eq!(category_for(ext), "Documents");
        assert!(builtin_destination(ext).starts_with("Documents/"));
    }
    for ext in ["png", "mp3", "zip", "rs", "dmg", "exe", "xyz", ""] {
        assert_eq!(builtin_destination(ext), category_for(ext));
    }
}

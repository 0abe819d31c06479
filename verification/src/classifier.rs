//! From a file's extension to its category and to the folder it is offered.
use vstd::prelude::*;
use crate::config::Config;
use crate::text::{ascii_lower, ascii_lower_char, str_eq, to_ascii_lowercase};

verus! {

pub const DOCUMENT_EXTENSIONS: [&'static str; 16] = [
    "pdf", "doc", "docx", "odt", "rtf", "xls", "xlsx", "ods", "csv", "ppt", "pptx", "odp", "txt",
    "md", "epub", "mobi",
];

pub const IMAGE_EXTENSIONS: [&'static str; 11] = [
    "jpg", "jpeg", "png", "gif", "bmp", "tiff", "tif", "svg", "webp", "heic", "avif",
];

pub const AUDIO_EXTENSIONS: [&'static str; 8] = ["mp3", "wav", "flac", "aac", "ogg", "m4a", "wma", "opus"];

pub const VIDEO_EXTENSIONS: [&'static str; 8] = ["mp4", "avi", "mkv", "mov", "wmv", "flv", "webm", "m4v"];

pub const ARCHIVE_EXTENSIONS: [&'static str; 8] = ["zip", "rar", "7z", "tar", "gz", "bz2", "xz", "iso"];

pub const CODE_EXTENSIONS: [&'static str; 27] = [
    "js", "mjs", "cjs", "ts", "tsx", "jsx", "py", "java", "c", "h", "cpp", "hpp", "cc", "cs", "go",
    "rs", "rb", "php", "html", "css", "scss", "json", "xml", "yml", "yaml", "sh", "sql",
];

pub const APP_EXTENSIONS: [&'static str; 3] = ["dmg", "pkg", "app"];

pub const INSTALLER_EXTENSIONS: [&'static str; 5] = ["exe", "msi", "deb", "rpm", "appimage"];

/// Documents offered `Documents/Word Files`.
pub const WORD_EXTENSIONS: [&'static str; 4] = ["doc", "docx", "odt", "rtf"];

/// Documents offered `Documents/Spreadsheets`.
pub const SPREADSHEET_EXTENSIONS: [&'static str; 4] = ["xls", "xlsx", "ods", "csv"];

/// Documents offered `Documents/Presentations`.
pub const PRESENTATION_EXTENSIONS: [&'static str; 3] = ["ppt", "pptx", "odp"];

/// Documents offered `Documents/Text Files`.
pub const TEXT_EXTENSIONS: [&'static str; 2] = ["txt", "md"];

/// Documents offered `Documents/E-books`.
pub const EBOOK_EXTENSIONS: [&'static str; 2] = ["epub", "mobi"];

/// Whether `ext` is one of the entries of `list`.
pub open spec fn listed(list: Seq<&'static str>, ext: Seq<char>) -> bool {
    exists|i: int| 0 <= i < list.len() && #[trigger] list[i]@ == ext
}

/// The category of an extension: the first list, in the order below, that
/// holds it; `Other` when none does.
pub open spec fn spec_category_for(ext: Seq<char>) -> Seq<char> {
    if listed(DOCUMENT_EXTENSIONS@, ext) {
        "Documents"@
    } else if listed(IMAGE_EXTENSIONS@, ext) {
        "Images"@
    } else if listed(AUDIO_EXTENSIONS@, ext) {
        "Audio"@
    } else if listed(VIDEO_EXTENSIONS@, ext) {
        "Video"@
    } else if listed(ARCHIVE_EXTENSIONS@, ext) {
        "Archives"@
    } else if listed(CODE_EXTENSIONS@, ext) {
        "Code"@
    } else if listed(APP_EXTENSIONS@, ext) {
        "Apps"@
    } else if listed(INSTALLER_EXTENSIONS@, ext) {
        "Installers"@
    } else {
        "Other"@
    }
}

/// The built-in destination of an extension: documents go to a folder of
/// their kind under `Documents`, everything else to its category's folder.
pub open spec fn spec_builtin_destination(ext: Seq<char>) -> Seq<char> {
    if ext == "pdf"@ {
        "Documents/PDFs"@
    } else if listed(WORD_EXTENSIONS@, ext) {
        "Documents/Word Files"@
    } else if listed(SPREADSHEET_EXTENSIONS@, ext) {
        "Documents/Spreadsheets"@
    } else if listed(PRESENTATION_EXTENSIONS@, ext) {
        "Documents/Presentations"@
    } else if listed(TEXT_EXTENSIONS@, ext) {
        "Documents/Text Files"@
    } else if listed(EBOOK_EXTENSIONS@, ext) {
        "Documents/E-books"@
    } else {
        spec_category_for(ext)
    }
}

/// The destination offered for an extension, the first that applies of:
/// a remembered rule, a per-extension override, a per-category override,
/// the bare category folder when flattening, and the built-in destination.
pub open spec fn spec_resolve_destination(config: Config, ext: Seq<char>) -> Seq<char> {
    let category = spec_category_for(ext);
    if config.rules.as_map().dom().contains(ext) {
        config.rules.as_map()[ext]@
    } else if config.destination_map.as_map().dom().contains(ext) {
        config.destination_map.as_map()[ext]@
    } else if config.category_destinations.as_map().dom().contains(category) {
        config.category_destinations.as_map()[category]@
    } else if config.flatten_to_categories {
        category
    } else {
        spec_builtin_destination(ext)
    }
}

/// The position of the last `c` in `s`, if any.
pub open spec fn last_index_of(s: Seq<char>, c: char) -> Option<int>
    decreases s.len(),
{
    if s.len() == 0 {
        None
    } else if s.last() == c {
        Some(s.len() - 1)
    } else {
        last_index_of(s.drop_last(), c)
    }
}

/// The extension of a file name: what follows its last `.`, ASCII-lowered;
/// empty when there is no `.` or nothing follows the last one.
pub open spec fn spec_extension_of(name: Seq<char>) -> Seq<char> {
    match last_index_of(name, '.') {
        Some(i) => if i + 1 < name.len() {
            ascii_lower(name.subrange(i + 1, name.len() as int))
        } else {
            Seq::empty()
        },
        None => Seq::empty(),
    }
}

/// Whether `ext` is an entry of `list`.
pub fn is_listed(list: &[&'static str], ext: &str) -> (r: bool)
    ensures
        r == listed(list@, ext@),
{
    let mut i: usize = 0;
    while i < list.len()
        invariant
            i <= list@.len(),
            forall|j: int| 0 <= j < i ==> #[trigger] list@[j]@ != ext@,
        decreases list@.len() - i,
    {
        if str_eq(list[i], ext) {
            return true;
        }
        i += 1;
    }
    false
}

/// The category of an extension.
pub fn category_for(ext: &str) -> (r: &'static str)
    ensures
        r@ == spec_category_for(ext@),
{
    if is_listed(DOCUMENT_EXTENSIONS.as_slice(), ext) {
        "Documents"
    } else if is_listed(IMAGE_EXTENSIONS.as_slice(), ext) {
        "Images"
    } else if is_listed(AUDIO_EXTENSIONS.as_slice(), ext) {
        "Audio"
    } else if is_listed(VIDEO_EXTENSIONS.as_slice(), ext) {
        "Video"
    } else if is_listed(ARCHIVE_EXTENSIONS.as_slice(), ext) {
        "Archives"
    } else if is_listed(CODE_EXTENSIONS.as_slice(), ext) {
        "Code"
    } else if is_listed(APP_EXTENSIONS.as_slice(), ext) {
        "Apps"
    } else if is_listed(INSTALLER_EXTENSIONS.as_slice(), ext) {
        "Installers"
    } else {
        "Other"
    }
}

/// The built-in destination of an extension.
pub fn builtin_destination(ext: &str) -> (r: String)
    ensures
        r@ == spec_builtin_destination(ext@),
{
    if str_eq(ext, "pdf") {
        "Documents/PDFs".to_owned()
    } else if is_listed(WORD_EXTENSIONS.as_slice(), ext) {
        "Documents/Word Files".to_owned()
    } else if is_listed(SPREADSHEET_EXTENSIONS.as_slice(), ext) {
        "Documents/Spreadsheets".to_owned()
    } else if is_listed(PRESENTATION_EXTENSIONS.as_slice(), ext) {
        "Documents/Presentations".to_owned()
    } else if is_listed(TEXT_EXTENSIONS.as_slice(), ext) {
        "Documents/Text Files".to_owned()
    } else if is_listed(EBOOK_EXTENSIONS.as_slice(), ext) {
        "Documents/E-books".to_owned()
    } else {
        category_for(ext).to_owned()
    }
}

/// The destination offered for an extension under `config`.
pub fn resolve_destination(config: &Config, ext: &str) -> (r: String)
    requires
        config.wf(),
    ensures
        r@ == spec_resolve_destination(*config, ext@),
{
    if let Some(dest) = config.rules.get(ext) {
        return dest.clone();
    }
    if let Some(dest) = config.destination_map.get(ext) {
        return dest.clone();
    }
    let category = category_for(ext);
    if let Some(dest) = config.category_destinations.get(category) {
        return dest.clone();
    }
    if config.flatten_to_categories {
        return category.to_owned();
    }
    builtin_destination(ext)
}

/// The last occurrence is an occurrence, and nothing after it is one.
pub proof fn lemma_last_index_props(s: Seq<char>, c: char)
    ensures
        match last_index_of(s, c) {
            Some(i) => 0 <= i < s.len() && s[i] == c && forall|j: int| i < j < s.len() ==> s[j] != c,
            None => forall|j: int| 0 <= j < s.len() ==> s[j] != c,
        },
    decreases s.len(),
{
    if s.len() > 0 && s.last() != c {
        lemma_last_index_props(s.drop_last(), c);
        assert forall|j: int| 0 <= j < s.len() - 1 implies s[j] == s.drop_last()[j] by {}
    }
}

proof fn lemma_last_index_step(s: Seq<char>, c: char, i: int)
    requires
        0 <= i < s.len(),
    ensures
        last_index_of(s.take(i + 1), c) == if s[i] == c {
            Some(i)
        } else {
            last_index_of(s.take(i), c)
        },
{
    assert(s.take(i + 1).drop_last() =~= s.take(i));
    assert(s.take(i + 1).last() == s[i]);
}

/// The extension of a file name, ASCII-lowered.
pub fn extension_of(name: &str) -> (r: String)
    ensures
        r@ == spec_extension_of(name@),
{
    let n = name.unicode_len();
    let mut last_dot: Option<usize> = None;
    let mut i: usize = 0;
    while i < n
        invariant
            n == name@.len(),
            i <= n,
            match last_dot {
                Some(d) => last_index_of(name@.take(i as int), '.') == Some(d as int),
                None => last_index_of(name@.take(i as int), '.') is None,
            },
        decreases n - i,
    {
        proof {
            lemma_last_index_step(name@, '.', i as int);
        }
        if name.get_char(i) == '.' {
            last_dot = Some(i);
        }
        i += 1;
    }
    assert(name@.take(n as int) =~= name@);
    proof {
        lemma_last_index_props(name@, '.');
    }
    match last_dot {
        Some(d) => {
            if d + 1 < n {
                to_ascii_lowercase(name.substring_char(d + 1, n))
            } else {
                String::new()
            }
        },
        None => String::new(),
    }
}

/// A remembered rule is what is offered next: once `ext` is remembered as
/// going to `destination`, files of that extension are offered `destination`,
/// whatever overrides, category folders or flattening say.
pub proof fn law_remembered_rule_wins(before: Config, after: Config, ext: Seq<char>, destination: String)
    requires
        before.wf(),
        after.rules.as_map() == before.rules.as_map().insert(ext, destination),
    ensures
        spec_resolve_destination(after, ext) == destination@,
{
}

/// Without a rule for `ext`, a per-extension override is what is offered,
/// whatever the category folders and flattening say.
pub proof fn law_extension_override_beats_category(config: Config, ext: Seq<char>)
    requires
        !config.rules.as_map().dom().contains(ext),
        config.destination_map.as_map().dom().contains(ext),
    ensures
        spec_resolve_destination(config, ext) == config.destination_map.as_map()[ext]@,
{
}

/// With flattening on and nothing overriding `ext` or its category, files go
/// to the bare category folder.
pub proof fn law_flatten_gives_category(config: Config, ext: Seq<char>)
    requires
        config.flatten_to_categories,
        !config.rules.as_map().dom().contains(ext),
        !config.destination_map.as_map().dom().contains(ext),
        !config.category_destinations.as_map().dom().contains(spec_category_for(ext)),
    ensures
        spec_resolve_destination(config, ext) == spec_category_for(ext),
{
}

/// Every built-in destination other than a bare category folder belongs to a
/// document: the finer folders all lie in the `Documents` category.
pub proof fn law_builtin_refines_category(ext: Seq<char>)
    ensures
        spec_builtin_destination(ext) == spec_category_for(ext)
            || spec_category_for(ext) == "Documents"@,
{
    if ext == "pdf"@ {
        assert(DOCUMENT_EXTENSIONS@[0]@ == ext);
    } else if listed(WORD_EXTENSIONS@, ext) {
        let i = choose|i: int| 0 <= i < WORD_EXTENSIONS@.len() && #[trigger] WORD_EXTENSIONS@[i]@ == ext;
        assert(DOCUMENT_EXTENSIONS@[i + 1]@ == ext);
    } else if listed(SPREADSHEET_EXTENSIONS@, ext) {
        let i = choose|i: int| 0 <= i < SPREADSHEET_EXTENSIONS@.len() && #[trigger] SPREADSHEET_EXTENSIONS@[i]@ == ext;
        assert(DOCUMENT_EXTENSIONS@[i + 5]@ == ext);
    } else if listed(PRESENTATION_EXTENSIONS@, ext) {
        let i = choose|i: int| 0 <= i < PRESENTATION_EXTENSIONS@.len() && #[trigger] PRESENTATION_EXTENSIONS@[i]@ == ext;
        assert(DOCUMENT_EXTENSIONS@[i + 9]@ == ext);
    } else if listed(TEXT_EXTENSIONS@, ext) {
        let i = choose|i: int| 0 <= i < TEXT_EXTENSIONS@.len() && #[trigger] TEXT_EXTENSIONS@[i]@ == ext;
        assert(DOCUMENT_EXTENSIONS@[i + 12]@ == ext);
    } else if listed(EBOOK_EXTENSIONS@, ext) {
        let i = choose|i: int| 0 <= i < EBOOK_EXTENSIONS@.len() && #[trigger] EBOOK_EXTENSIONS@[i]@ == ext;
        assert(DOCUMENT_EXTENSIONS@[i + 14]@ == ext);
    }
}

/// The built-in destination extends the category: a document goes to a
/// folder under `Documents/`, every other file to its category's folder. So
/// its first segment is the category, which holds no `/`.
pub proof fn law_builtin_destination_extends_category(ext: Seq<char>)
    ensures
        forall|i: int| 0 <= i < spec_category_for(ext).len() ==> spec_category_for(ext)[i] != '/',
        spec_builtin_destination(ext).len() >= spec_category_for(ext).len(),
        spec_builtin_destination(ext).take(spec_category_for(ext).len() as int) == spec_category_for(ext),
        spec_builtin_destination(ext).len() == spec_category_for(ext).len()
            || spec_builtin_destination(ext)[spec_category_for(ext).len() as int] == '/',
        listed(DOCUMENT_EXTENSIONS@, ext) ==> {
            &&& spec_category_for(ext) == "Documents"@
            &&& spec_builtin_destination(ext).len() > 10
            &&& spec_builtin_destination(ext).take(10) == "Documents/"@
        },
        !listed(DOCUMENT_EXTENSIONS@, ext) ==> spec_builtin_destination(ext) == spec_category_for(ext),
{
    law_builtin_refines_category(ext);
    reveal_strlit("Documents");
    reveal_strlit("Documents/");
    reveal_strlit("Documents/PDFs");
    reveal_strlit("Documents/Word Files");
    reveal_strlit("Documents/Spreadsheets");
    reveal_strlit("Documents/Presentations");
    reveal_strlit("Documents/Text Files");
    reveal_strlit("Documents/E-books");
    reveal_strlit("Images");
    reveal_strlit("Audio");
    reveal_strlit("Video");
    reveal_strlit("Archives");
    reveal_strlit("Code");
    reveal_strlit("Apps");
    reveal_strlit("Installers");
    reveal_strlit("Other");
    let cat = spec_category_for(ext);
    if listed(DOCUMENT_EXTENSIONS@, ext) {
        let i = choose|i: int| 0 <= i < DOCUMENT_EXTENSIONS@.len() && #[trigger] DOCUMENT_EXTENSIONS@[i]@ == ext;
        if i == 0 {
            assert(ext == "pdf"@);
        } else if i <= 4 {
            assert(WORD_EXTENSIONS@[i - 1]@ == ext);
        } else if i <= 8 {
            assert(SPREADSHEET_EXTENSIONS@[i - 5]@ == ext);
        } else if i <= 11 {
            assert(PRESENTATION_EXTENSIONS@[i - 9]@ == ext);
        } else if i <= 13 {
            assert(TEXT_EXTENSIONS@[i - 12]@ == ext);
        } else {
            assert(EBOOK_EXTENSIONS@[i - 14]@ == ext);
        }
        assert(spec_builtin_destination(ext).take(10) =~= "Documents/"@);
        assert(spec_builtin_destination(ext).take(9) =~= "Documents"@);
        assert(spec_builtin_destination(ext)[9] == '/');
    } else {
        assert(spec_builtin_destination(ext).take(cat.len() as int) =~= cat);
    }
}

proof fn lemma_lower_char_dot(c: char)
    ensures
        (ascii_lower_char(c) == '.') == (c == '.'),
        ascii_lower_char(ascii_lower_char(c)) == ascii_lower_char(c),
{
}

proof fn lemma_last_dot_lowered(s: Seq<char>)
    ensures
        last_index_of(ascii_lower(s), '.') == last_index_of(s, '.'),
    decreases s.len(),
{
    if s.len() > 0 {
        lemma_lower_char_dot(s.last());
        assert(ascii_lower(s).drop_last() =~= ascii_lower(s.drop_last()));
        lemma_last_dot_lowered(s.drop_last());
    }
}

/// The extension is taken without its dot and without regard to ASCII case:
/// it holds no `.`, it is already lowered, and a name gives the same
/// extension as its ASCII-lowered form.
pub proof fn law_extension_is_case_insensitive(name: Seq<char>)
    ensures
        forall|j: int| 0 <= j < spec_extension_of(name).len() ==> spec_extension_of(name)[j] != '.',
        ascii_lower(spec_extension_of(name)) == spec_extension_of(name),
        spec_extension_of(ascii_lower(name)) == spec_extension_of(name),
{
    lemma_last_index_props(name, '.');
    lemma_last_dot_lowered(name);
    let e = spec_extension_of(name);
    match last_index_of(name, '.') {
        Some(i) => {
            if i + 1 < name.len() {
                let tail = name.subrange(i + 1, name.len() as int);
                assert forall|j: int| 0 <= j < e.len() implies e[j] != '.' by {
                    assert(tail[j] == name[i + 1 + j]);
                    lemma_lower_char_dot(tail[j]);
                }
                assert forall|j: int| 0 <= j < e.len() implies ascii_lower(e)[j] == e[j] by {
                    lemma_lower_char_dot(tail[j]);
                }
                assert(ascii_lower(e) =~= e);
                assert(ascii_lower(name).subrange(i + 1, name.len() as int) =~= ascii_lower(tail));
                assert forall|j: int| 0 <= j < tail.len() implies
                    ascii_lower(ascii_lower(tail))[j] == ascii_lower(tail)[j] by {
                    lemma_lower_char_dot(tail[j]);
                }
                assert(ascii_lower(ascii_lower(tail)) =~= ascii_lower(tail));
            } else {
                assert(ascii_lower(e) =~= e);
            }
        },
        None => {
            assert(ascii_lower(e) =~= e);
        },
    }
}

proof fn lemma_document_entry(j: int)
    requires
        0 <= j < DOCUMENT_EXTENSIONS@.len(),
    ensures
        DOCUMENT_EXTENSIONS@[j]@ == "pdf"@ || DOCUMENT_EXTENSIONS@[j]@ == "doc"@ || DOCUMENT_EXTENSIONS@[j]@ == "docx"@ || DOCUMENT_EXTENSIONS@[j]@ == "odt"@ || DOCUMENT_EXTENSIONS@[j]@ == "rtf"@ || DOCUMENT_EXTENSIONS@[j]@ == "xls"@ || DOCUMENT_EXTENSIONS@[j]@ == "xlsx"@ || DOCUMENT_EXTENSIONS@[j]@ == "ods"@ || DOCUMENT_EXTENSIONS@[j]@ == "csv"@ || DOCUMENT_EXTENSIONS@[j]@ == "ppt"@ || DOCUMENT_EXTENSIONS@[j]@ == "pptx"@ || DOCUMENT_EXTENSIONS@[j]@ == "odp"@ || DOCUMENT_EXTENSIONS@[j]@ == "txt"@ || DOCUMENT_EXTENSIONS@[j]@ == "md"@ || DOCUMENT_EXTENSIONS@[j]@ == "epub"@ || DOCUMENT_EXTENSIONS@[j]@ == "mobi"@,
{
}

proof fn lemma_image_entry(j: int)
    requires
        0 <= j < IMAGE_EXTENSIONS@.len(),
    ensures
        IMAGE_EXTENSIONS@[j]@ == "jpg"@ || IMAGE_EXTENSIONS@[j]@ == "jpeg"@ || IMAGE_EXTENSIONS@[j]@ == "png"@ || IMAGE_EXTENSIONS@[j]@ == "gif"@ || IMAGE_EXTENSIONS@[j]@ == "bmp"@ || IMAGE_EXTENSIONS@[j]@ == "tiff"@ || IMAGE_EXTENSIONS@[j]@ == "tif"@ || IMAGE_EXTENSIONS@[j]@ == "svg"@ || IMAGE_EXTENSIONS@[j]@ == "webp"@ || IMAGE_EXTENSIONS@[j]@ == "heic"@ || IMAGE_EXTENSIONS@[j]@ == "avif"@,
{
}

proof fn lemma_audio_entry(j: int)
    requires
        0 <= j < AUDIO_EXTENSIONS@.len(),
    ensures
        AUDIO_EXTENSIONS@[j]@ == "mp3"@ || AUDIO_EXTENSIONS@[j]@ == "wav"@ || AUDIO_EXTENSIONS@[j]@ == "flac"@ || AUDIO_EXTENSIONS@[j]@ == "aac"@ || AUDIO_EXTENSIONS@[j]@ == "ogg"@ || AUDIO_EXTENSIONS@[j]@ == "m4a"@ || AUDIO_EXTENSIONS@[j]@ == "wma"@ || AUDIO_EXTENSIONS@[j]@ == "opus"@,
{
}

proof fn lemma_video_entry(j: int)
    requires
        0 <= j < VIDEO_EXTENSIONS@.len(),
    ensures
        VIDEO_EXTENSIONS@[j]@ == "mp4"@ || VIDEO_EXTENSIONS@[j]@ == "avi"@ || VIDEO_EXTENSIONS@[j]@ == "mkv"@ || VIDEO_EXTENSIONS@[j]@ == "mov"@ || VIDEO_EXTENSIONS@[j]@ == "wmv"@ || VIDEO_EXTENSIONS@[j]@ == "flv"@ || VIDEO_EXTENSIONS@[j]@ == "webm"@ || VIDEO_EXTENSIONS@[j]@ == "m4v"@,
{
}

proof fn lemma_archive_entry(j: int)
    requires
        0 <= j < ARCHIVE_EXTENSIONS@.len(),
    ensures
        ARCHIVE_EXTENSIONS@[j]@ == "zip"@ || ARCHIVE_EXTENSIONS@[j]@ == "rar"@ || ARCHIVE_EXTENSIONS@[j]@ == "7z"@ || ARCHIVE_EXTENSIONS@[j]@ == "tar"@ || ARCHIVE_EXTENSIONS@[j]@ == "gz"@ || ARCHIVE_EXTENSIONS@[j]@ == "bz2"@ || ARCHIVE_EXTENSIONS@[j]@ == "xz"@ || ARCHIVE_EXTENSIONS@[j]@ == "iso"@,
{
}

proof fn lemma_code_entry(j: int)
    requires
        0 <= j < CODE_EXTENSIONS@.len(),
    ensures
        CODE_EXTENSIONS@[j]@ == "js"@ || CODE_EXTENSIONS@[j]@ == "mjs"@ || CODE_EXTENSIONS@[j]@ == "cjs"@ || CODE_EXTENSIONS@[j]@ == "ts"@ || CODE_EXTENSIONS@[j]@ == "tsx"@ || CODE_EXTENSIONS@[j]@ == "jsx"@ || CODE_EXTENSIONS@[j]@ == "py"@ || CODE_EXTENSIONS@[j]@ == "java"@ || CODE_EXTENSIONS@[j]@ == "c"@ || CODE_EXTENSIONS@[j]@ == "h"@ || CODE_EXTENSIONS@[j]@ == "cpp"@ || CODE_EXTENSIONS@[j]@ == "hpp"@ || CODE_EXTENSIONS@[j]@ == "cc"@ || CODE_EXTENSIONS@[j]@ == "cs"@ || CODE_EXTENSIONS@[j]@ == "go"@ || CODE_EXTENSIONS@[j]@ == "rs"@ || CODE_EXTENSIONS@[j]@ == "rb"@ || CODE_EXTENSIONS@[j]@ == "php"@ || CODE_EXTENSIONS@[j]@ == "html"@ || CODE_EXTENSIONS@[j]@ == "css"@ || CODE_EXTENSIONS@[j]@ == "scss"@ || CODE_EXTENSIONS@[j]@ == "json"@ || CODE_EXTENSIONS@[j]@ == "xml"@ || CODE_EXTENSIONS@[j]@ == "yml"@ || CODE_EXTENSIONS@[j]@ == "yaml"@ || CODE_EXTENSIONS@[j]@ == "sh"@ || CODE_EXTENSIONS@[j]@ == "sql"@,
{
}

proof fn lemma_app_entry(j: int)
    requires
        0 <= j < APP_EXTENSIONS@.len(),
    ensures
        APP_EXTENSIONS@[j]@ == "dmg"@ || APP_EXTENSIONS@[j]@ == "pkg"@ || APP_EXTENSIONS@[j]@ == "app"@,
{
}

proof fn lemma_installer_entry(j: int)
    requires
        0 <= j < INSTALLER_EXTENSIONS@.len(),
    ensures
        INSTALLER_EXTENSIONS@[j]@ == "exe"@ || INSTALLER_EXTENSIONS@[j]@ == "msi"@ || INSTALLER_EXTENSIONS@[j]@ == "deb"@ || INSTALLER_EXTENSIONS@[j]@ == "rpm"@ || INSTALLER_EXTENSIONS@[j]@ == "appimage"@,
{
}

/// Every extension of `DOCUMENT_EXTENSIONS` is classified as `Documents`: the lists
/// hold no extension in common, so none falls to an earlier category.
pub proof fn law_document_extensions_are_documents(i: int)
    requires
        0 <= i < DOCUMENT_EXTENSIONS@.len(),
    ensures
        spec_category_for(DOCUMENT_EXTENSIONS@[i]@) == "Documents"@,
{
    let x = DOCUMENT_EXTENSIONS@[i]@;
    reveal_strlit("pdf");
    reveal_strlit("doc");
    reveal_strlit("docx");
    reveal_strlit("odt");
    reveal_strlit("rtf");
    reveal_strlit("xls");
    reveal_strlit("xlsx");
    reveal_strlit("ods");
    reveal_strlit("csv");
    reveal_strlit("ppt");
    reveal_strlit("pptx");
    reveal_strlit("odp");
    reveal_strlit("txt");
    reveal_strlit("md");
    reveal_strlit("epub");
    reveal_strlit("mobi");
    lemma_document_entry(i);
    assert(listed(DOCUMENT_EXTENSIONS@, x));
}

/// Every extension of `IMAGE_EXTENSIONS` is classified as `Images`: the lists
/// hold no extension in common, so none falls to an earlier category.
pub proof fn law_image_extensions_are_images(i: int)
    requires
        0 <= i < IMAGE_EXTENSIONS@.len(),
    ensures
        spec_category_for(IMAGE_EXTENSIONS@[i]@) == "Images"@,
{
    let x = IMAGE_EXTENSIONS@[i]@;
    reveal_strlit("pdf");
    reveal_strlit("doc");
    reveal_strlit("docx");
    reveal_strlit("odt");
    reveal_strlit("rtf");
    reveal_strlit("xls");
    reveal_strlit("xlsx");
    reveal_strlit("ods");
    reveal_strlit("csv");
    reveal_strlit("ppt");
    reveal_strlit("pptx");
    reveal_strlit("odp");
    reveal_strlit("txt");
    reveal_strlit("md");
    reveal_strlit("epub");
    reveal_strlit("mobi");
    reveal_strlit("jpg");
    reveal_strlit("jpeg");
    reveal_strlit("png");
    reveal_strlit("gif");
    reveal_strlit("bmp");
    reveal_strlit("tiff");
    reveal_strlit("tif");
    reveal_strlit("svg");
    reveal_strlit("webp");
    reveal_strlit("heic");
    reveal_strlit("avif");
    lemma_image_entry(i);
    assert(listed(IMAGE_EXTENSIONS@, x));
    assert forall|j: int| 0 <= j < DOCUMENT_EXTENSIONS@.len() implies #[trigger] DOCUMENT_EXTENSIONS@[j]@ != x by {
        lemma_document_entry(j);
        let y = DOCUMENT_EXTENSIONS@[j]@;
        if y == x {
            assert(y.len() == x.len());
            assert(y[0] == x[0] && y[1] == x[1] && y[2] == x[2] && y[3] == x[3]);
            assert(y[4] == x[4] && y[5] == x[5] && y[6] == x[6] && y[7] == x[7]);
        }
    }
}

/// Every extension of `AUDIO_EXTENSIONS` is classified as `Audio`: the lists
/// hold no extension in common, so none falls to an earlier category.
pub proof fn law_audio_extensions_are_audio(i: int)
    requires
        0 <= i < AUDIO_EXTENSIONS@.len(),
    ensures
        spec_category_for(AUDIO_EXTENSIONS@[i]@) == "Audio"@,
{
    let x = AUDIO_EXTENSIONS@[i]@;
    reveal_strlit("pdf");
    reveal_strlit("doc");
    reveal_strlit("docx");
    reveal_strlit("odt");
    reveal_strlit("rtf");
    reveal_strlit("xls");
    reveal_strlit("xlsx");
    reveal_strlit("ods");
    reveal_strlit("csv");
    reveal_strlit("ppt");
    reveal_strlit("pptx");
    reveal_strlit("odp");
    reveal_strlit("txt");
    reveal_strlit("md");
    reveal_strlit("epub");
    reveal_strlit("mobi");
    reveal_strlit("jpg");
    reveal_strlit("jpeg");
    reveal_strlit("png");
    reveal_strlit("gif");
    reveal_strlit("bmp");
    reveal_strlit("tiff");
    reveal_strlit("tif");
    reveal_strlit("svg");
    reveal_strlit("webp");
    reveal_strlit("heic");
    reveal_strlit("avif");
    reveal_strlit("mp3");
    reveal_strlit("wav");
    reveal_strlit("flac");
    reveal_strlit("aac");
    reveal_strlit("ogg");
    reveal_strlit("m4a");
    reveal_strlit("wma");
    reveal_strlit("opus");
    lemma_audio_entry(i);
    assert(listed(AUDIO_EXTENSIONS@, x));
    assert forall|j: int| 0 <= j < DOCUMENT_EXTENSIONS@.len() implies #[trigger] DOCUMENT_EXTENSIONS@[j]@ != x by {
        lemma_document_entry(j);
        let y = DOCUMENT_EXTENSIONS@[j]@;
        if y == x {
            assert(y.len() == x.len());
            assert(y[0] == x[0] && y[1] == x[1] && y[2] == x[2] && y[3] == x[3]);
            assert(y[4] == x[4] && y[5] == x[5] && y[6] == x[6] && y[7] == x[7]);
        }
    }
    assert forall|j: int| 0 <= j < IMAGE_EXTENSIONS@.len() implies #[trigger] IMAGE_EXTENSIONS@[j]@ != x by {
        lemma_image_entry(j);
        let y = IMAGE_EXTENSIONS@[j]@;
        if y == x {
            assert(y.len() == x.len());
            assert(y[0] == x[0] && y[1] == x[1] && y[2] == x[2] && y[3] == x[3]);
            assert(y[4] == x[4] && y[5] == x[5] && y[6] == x[6] && y[7] == x[7]);
        }
    }
}

/// Every extension of `VIDEO_EXTENSIONS` is classified as `Video`: the lists
/// hold no extension in common, so none falls to an earlier category.
pub proof fn law_video_extensions_are_video(i: int)
    requires
        0 <= i < VIDEO_EXTENSIONS@.len(),
    ensures
        spec_category_for(VIDEO_EXTENSIONS@[i]@) == "Video"@,
{
    let x = VIDEO_EXTENSIONS@[i]@;
    reveal_strlit("pdf");
    reveal_strlit("doc");
    reveal_strlit("docx");
    reveal_strlit("odt");
    reveal_strlit("rtf");
    reveal_strlit("xls");
    reveal_strlit("xlsx");
    reveal_strlit("ods");
    reveal_strlit("csv");
    reveal_strlit("ppt");
    reveal_strlit("pptx");
    reveal_strlit("odp");
    reveal_strlit("txt");
    reveal_strlit("md");
    reveal_strlit("epub");
    reveal_strlit("mobi");
    reveal_strlit("jpg");
    reveal_strlit("jpeg");
    reveal_strlit("png");
    reveal_strlit("gif");
    reveal_strlit("bmp");
    reveal_strlit("tiff");
    reveal_strlit("tif");
    reveal_strlit("svg");
    reveal_strlit("webp");
    reveal_strlit("heic");
    reveal_strlit("avif");
    reveal_strlit("mp3");
    reveal_strlit("wav");
    reveal_strlit("flac");
    reveal_strlit("aac");
    reveal_strlit("ogg");
    reveal_strlit("m4a");
    reveal_strlit("wma");
    reveal_strlit("opus");
    reveal_strlit("mp4");
    reveal_strlit("avi");
    reveal_strlit("mkv");
    reveal_strlit("mov");
    reveal_strlit("wmv");
    reveal_strlit("flv");
    reveal_strlit("webm");
    reveal_strlit("m4v");
    lemma_video_entry(i);
    assert(listed(VIDEO_EXTENSIONS@, x));
    assert forall|j: int| 0 <= j < DOCUMENT_EXTENSIONS@.len() implies #[trigger] DOCUMENT_EXTENSIONS@[j]@ != x by {
        lemma_document_entry(j);
        let y = DOCUMENT_EXTENSIONS@[j]@;
        if y == x {
            assert(y.len() == x.len());
            assert(y[0] == x[0] && y[1] == x[1] && y[2] == x[2] && y[3] == x[3]);
            assert(y[4] == x[4] && y[5] == x[5] && y[6] == x[6] && y[7] == x[7]);
        }
    }
    assert forall|j: int| 0 <= j < IMAGE_EXTENSIONS@.len() implies #[trigger] IMAGE_EXTENSIONS@[j]@ != x by {
        lemma_image_entry(j);
        let y = IMAGE_EXTENSIONS@[j]@;
        if y == x {
            assert(y.len() == x.len());
            assert(y[0] == x[0] && y[1] == x[1] && y[2] == x[2] && y[3] == x[3]);
            assert(y[4] == x[4] && y[5] == x[5] && y[6] == x[6] && y[7] == x[7]);
        }
    }
    assert forall|j: int| 0 <= j < AUDIO_EXTENSIONS@.len() implies #[trigger] AUDIO_EXTENSIONS@[j]@ != x by {
        lemma_audio_entry(j);
        let y = AUDIO_EXTENSIONS@[j]@;
        if y == x {
            assert(y.len() == x.len());
            assert(y[0] == x[0] && y[1] == x[1] && y[2] == x[2] && y[3] == x[3]);
            assert(y[4] == x[4] && y[5] == x[5] && y[6] == x[6] && y[7] == x[7]);
        }
    }
}

/// Every extension of `ARCHIVE_EXTENSIONS` is classified as `Archives`: the lists
/// hold no extension in common, so none falls to an earlier category.
pub proof fn law_archive_extensions_are_archives(i: int)
    requires
        0 <= i < ARCHIVE_EXTENSIONS@.len(),
    ensures
        spec_category_for(ARCHIVE_EXTENSIONS@[i]@) == "Archives"@,
{
    let x = ARCHIVE_EXTENSIONS@[i]@;
    reveal_strlit("pdf");
    reveal_strlit("doc");
    reveal_strlit("docx");
    reveal_strlit("odt");
    reveal_strlit("rtf");
    reveal_strlit("xls");
    reveal_strlit("xlsx");
    reveal_strlit("ods");
    reveal_strlit("csv");
    reveal_strlit("ppt");
    reveal_strlit("pptx");
    reveal_strlit("odp");
    reveal_strlit("txt");
    reveal_strlit("md");
    reveal_strlit("epub");
    reveal_strlit("mobi");
    reveal_strlit("jpg");
    reveal_strlit("jpeg");
    reveal_strlit("png");
    reveal_strlit("gif");
    reveal_strlit("bmp");
    reveal_strlit("tiff");
    reveal_strlit("tif");
    reveal_strlit("svg");
    reveal_strlit("webp");
    reveal_strlit("heic");
    reveal_strlit("avif");
    reveal_strlit("mp3");
    reveal_strlit("wav");
    reveal_strlit("flac");
    reveal_strlit("aac");
    reveal_strlit("ogg");
    reveal_strlit("m4a");
    reveal_strlit("wma");
    reveal_strlit("opus");
    reveal_strlit("mp4");
    reveal_strlit("avi");
    reveal_strlit("mkv");
    reveal_strlit("mov");
    reveal_strlit("wmv");
    reveal_strlit("flv");
    reveal_strlit("webm");
    reveal_strlit("m4v");
    reveal_strlit("zip");
    reveal_strlit("rar");
    reveal_strlit("7z");
    reveal_strlit("tar");
    reveal_strlit("gz");
    reveal_strlit("bz2");
    reveal_strlit("xz");
    reveal_strlit("iso");
    lemma_archive_entry(i);
    assert(listed(ARCHIVE_EXTENSIONS@, x));
    assert forall|j: int| 0 <= j < DOCUMENT_EXTENSIONS@.len() implies #[trigger] DOCUMENT_EXTENSIONS@[j]@ != x by {
        lemma_document_entry(j);
        let y = DOCUMENT_EXTENSIONS@[j]@;
        if y == x {
            assert(y.len() == x.len());
            assert(y[0] == x[0] && y[1] == x[1] && y[2] == x[2] && y[3] == x[3]);
            assert(y[4] == x[4] && y[5] == x[5] && y[6] == x[6] && y[7] == x[7]);
        }
    }
    assert forall|j: int| 0 <= j < IMAGE_EXTENSIONS@.len() implies #[trigger] IMAGE_EXTENSIONS@[j]@ != x by {
        lemma_image_entry(j);
        let y = IMAGE_EXTENSIONS@[j]@;
        if y == x {
            assert(y.len() == x.len());
            assert(y[0] == x[0] && y[1] == x[1] && y[2] == x[2] && y[3] == x[3]);
            assert(y[4] == x[4] && y[5] == x[5] && y[6] == x[6] && y[7] == x[7]);
        }
    }
    assert forall|j: int| 0 <= j < AUDIO_EXTENSIONS@.len() implies #[trigger] AUDIO_EXTENSIONS@[j]@ != x by {
        lemma_audio_entry(j);
        let y = AUDIO_EXTENSIONS@[j]@;
        if y == x {
            assert(y.len() == x.len());
            assert(y[0] == x[0] && y[1] == x[1] && y[2] == x[2] && y[3] == x[3]);
            assert(y[4] == x[4] && y[5] == x[5] && y[6] == x[6] && y[7] == x[7]);
        }
    }
    assert forall|j: int| 0 <= j < VIDEO_EXTENSIONS@.len() implies #[trigger] VIDEO_EXTENSIONS@[j]@ != x by {
        lemma_video_entry(j);
        let y = VIDEO_EXTENSIONS@[j]@;
        if y == x {
            assert(y.len() == x.len());
            assert(y[0] == x[0] && y[1] == x[1] && y[2] == x[2] && y[3] == x[3]);
            assert(y[4] == x[4] && y[5] == x[5] && y[6] == x[6] && y[7] == x[7]);
        }
    }
}

/// Every extension of `CODE_EXTENSIONS` is classified as `Code`: the lists
/// hold no extension in common, so none falls to an earlier category.
pub proof fn law_code_extensions_are_code(i: int)
    requires
        0 <= i < CODE_EXTENSIONS@.len(),
    ensures
        spec_category_for(CODE_EXTENSIONS@[i]@) == "Code"@,
{
    let x = CODE_EXTENSIONS@[i]@;
    reveal_strlit("pdf");
    reveal_strlit("doc");
    reveal_strlit("docx");
    reveal_strlit("odt");
    reveal_strlit("rtf");
    reveal_strlit("xls");
    reveal_strlit("xlsx");
    reveal_strlit("ods");
    reveal_strlit("csv");
    reveal_strlit("ppt");
    reveal_strlit("pptx");
    reveal_strlit("odp");
    reveal_strlit("txt");
    reveal_strlit("md");
    reveal_strlit("epub");
    reveal_strlit("mobi");
    reveal_strlit("jpg");
    reveal_strlit("jpeg");
    reveal_strlit("png");
    reveal_strlit("gif");
    reveal_strlit("bmp");
    reveal_strlit("tiff");
    reveal_strlit("tif");
    reveal_strlit("svg");
    reveal_strlit("webp");
    reveal_strlit("heic");
    reveal_strlit("avif");
    reveal_strlit("mp3");
    reveal_strlit("wav");
    reveal_strlit("flac");
    reveal_strlit("aac");
    reveal_strlit("ogg");
    reveal_strlit("m4a");
    reveal_strlit("wma");
    reveal_strlit("opus");
    reveal_strlit("mp4");
    reveal_strlit("avi");
    reveal_strlit("mkv");
    reveal_strlit("mov");
    reveal_strlit("wmv");
    reveal_strlit("flv");
    reveal_strlit("webm");
    reveal_strlit("m4v");
    reveal_strlit("zip");
    reveal_strlit("rar");
    reveal_strlit("7z");
    reveal_strlit("tar");
    reveal_strlit("gz");
    reveal_strlit("bz2");
    reveal_strlit("xz");
    reveal_strlit("iso");
    reveal_strlit("js");
    reveal_strlit("mjs");
    reveal_strlit("cjs");
    reveal_strlit("ts");
    reveal_strlit("tsx");
    reveal_strlit("jsx");
    reveal_strlit("py");
    reveal_strlit("java");
    reveal_strlit("c");
    reveal_strlit("h");
    reveal_strlit("cpp");
    reveal_strlit("hpp");
    reveal_strlit("cc");
    reveal_strlit("cs");
    reveal_strlit("go");
    reveal_strlit("rs");
    reveal_strlit("rb");
    reveal_strlit("php");
    reveal_strlit("html");
    reveal_strlit("css");
    reveal_strlit("scss");
    reveal_strlit("json");
    reveal_strlit("xml");
    reveal_strlit("yml");
    reveal_strlit("yaml");
    reveal_strlit("sh");
    reveal_strlit("sql");
    lemma_code_entry(i);
    assert(listed(CODE_EXTENSIONS@, x));
    assert forall|j: int| 0 <= j < DOCUMENT_EXTENSIONS@.len() implies #[trigger] DOCUMENT_EXTENSIONS@[j]@ != x by {
        lemma_document_entry(j);
        let y = DOCUMENT_EXTENSIONS@[j]@;
        if y == x {
            assert(y.len() == x.len());
            assert(y[0] == x[0] && y[1] == x[1] && y[2] == x[2] && y[3] == x[3]);
            assert(y[4] == x[4] && y[5] == x[5] && y[6] == x[6] && y[7] == x[7]);
        }
    }
    assert forall|j: int| 0 <= j < IMAGE_EXTENSIONS@.len() implies #[trigger] IMAGE_EXTENSIONS@[j]@ != x by {
        lemma_image_entry(j);
        let y = IMAGE_EXTENSIONS@[j]@;
        if y == x {
            assert(y.len() == x.len());
            assert(y[0] == x[0] && y[1] == x[1] && y[2] == x[2] && y[3] == x[3]);
            assert(y[4] == x[4] && y[5] == x[5] && y[6] == x[6] && y[7] == x[7]);
        }
    }
    assert forall|j: int| 0 <= j < AUDIO_EXTENSIONS@.len() implies #[trigger] AUDIO_EXTENSIONS@[j]@ != x by {
        lemma_audio_entry(j);
        let y = AUDIO_EXTENSIONS@[j]@;
        if y == x {
            assert(y.len() == x.len());
            assert(y[0] == x[0] && y[1] == x[1] && y[2] == x[2] && y[3] == x[3]);
            assert(y[4] == x[4] && y[5] == x[5] && y[6] == x[6] && y[7] == x[7]);
        }
    }
    assert forall|j: int| 0 <= j < VIDEO_EXTENSIONS@.len() implies #[trigger] VIDEO_EXTENSIONS@[j]@ != x by {
        lemma_video_entry(j);
        let y = VIDEO_EXTENSIONS@[j]@;
        if y == x {
            assert(y.len() == x.len());
            assert(y[0] == x[0] && y[1] == x[1] && y[2] == x[2] && y[3] == x[3]);
            assert(y[4] == x[4] && y[5] == x[5] && y[6] == x[6] && y[7] == x[7]);
        }
    }
    assert forall|j: int| 0 <= j < ARCHIVE_EXTENSIONS@.len() implies #[trigger] ARCHIVE_EXTENSIONS@[j]@ != x by {
        lemma_archive_entry(j);
        let y = ARCHIVE_EXTENSIONS@[j]@;
        if y == x {
            assert(y.len() == x.len());
            assert(y[0] == x[0] && y[1] == x[1] && y[2] == x[2] && y[3] == x[3]);
            assert(y[4] == x[4] && y[5] == x[5] && y[6] == x[6] && y[7] == x[7]);
        }
    }
}

/// Every extension of `APP_EXTENSIONS` is classified as `Apps`: the lists
/// hold no extension in common, so none falls to an earlier category.
pub proof fn law_app_extensions_are_apps(i: int)
    requires
        0 <= i < APP_EXTENSIONS@.len(),
    ensures
        spec_category_for(APP_EXTENSIONS@[i]@) == "Apps"@,
{
    let x = APP_EXTENSIONS@[i]@;
    reveal_strlit("pdf");
    reveal_strlit("doc");
    reveal_strlit("docx");
    reveal_strlit("odt");
    reveal_strlit("rtf");
    reveal_strlit("xls");
    reveal_strlit("xlsx");
    reveal_strlit("ods");
    reveal_strlit("csv");
    reveal_strlit("ppt");
    reveal_strlit("pptx");
    reveal_strlit("odp");
    reveal_strlit("txt");
    reveal_strlit("md");
    reveal_strlit("epub");
    reveal_strlit("mobi");
    reveal_strlit("jpg");
    reveal_strlit("jpeg");
    reveal_strlit("png");
    reveal_strlit("gif");
    reveal_strlit("bmp");
    reveal_strlit("tiff");
    reveal_strlit("tif");
    reveal_strlit("svg");
    reveal_strlit("webp");
    reveal_strlit("heic");
    reveal_strlit("avif");
    reveal_strlit("mp3");
    reveal_strlit("wav");
    reveal_strlit("flac");
    reveal_strlit("aac");
    reveal_strlit("ogg");
    reveal_strlit("m4a");
    reveal_strlit("wma");
    reveal_strlit("opus");
    reveal_strlit("mp4");
    reveal_strlit("avi");
    reveal_strlit("mkv");
    reveal_strlit("mov");
    reveal_strlit("wmv");
    reveal_strlit("flv");
    reveal_strlit("webm");
    reveal_strlit("m4v");
    reveal_strlit("zip");
    reveal_strlit("rar");
    reveal_strlit("7z");
    reveal_strlit("tar");
    reveal_strlit("gz");
    reveal_strlit("bz2");
    reveal_strlit("xz");
    reveal_strlit("iso");
    reveal_strlit("js");
    reveal_strlit("mjs");
    reveal_strlit("cjs");
    reveal_strlit("ts");
    reveal_strlit("tsx");
    reveal_strlit("jsx");
    reveal_strlit("py");
    reveal_strlit("java");
    reveal_strlit("c");
    reveal_strlit("h");
    reveal_strlit("cpp");
    reveal_strlit("hpp");
    reveal_strlit("cc");
    reveal_strlit("cs");
    reveal_strlit("go");
    reveal_strlit("rs");
    reveal_strlit("rb");
    reveal_strlit("php");
    reveal_strlit("html");
    reveal_strlit("css");
    reveal_strlit("scss");
    reveal_strlit("json");
    reveal_strlit("xml");
    reveal_strlit("yml");
    reveal_strlit("yaml");
    reveal_strlit("sh");
    reveal_strlit("sql");
    reveal_strlit("dmg");
    reveal_strlit("pkg");
    reveal_strlit("app");
    lemma_app_entry(i);
    assert(listed(APP_EXTENSIONS@, x));
    assert forall|j: int| 0 <= j < DOCUMENT_EXTENSIONS@.len() implies #[trigger] DOCUMENT_EXTENSIONS@[j]@ != x by {
        lemma_document_entry(j);
        let y = DOCUMENT_EXTENSIONS@[j]@;
        if y == x {
            assert(y.len() == x.len());
            assert(y[0] == x[0] && y[1] == x[1] && y[2] == x[2] && y[3] == x[3]);
            assert(y[4] == x[4] && y[5] == x[5] && y[6] == x[6] && y[7] == x[7]);
        }
    }
    assert forall|j: int| 0 <= j < IMAGE_EXTENSIONS@.len() implies #[trigger] IMAGE_EXTENSIONS@[j]@ != x by {
        lemma_image_entry(j);
        let y = IMAGE_EXTENSIONS@[j]@;
        if y == x {
            assert(y.len() == x.len());
            assert(y[0] == x[0] && y[1] == x[1] && y[2] == x[2] && y[3] == x[3]);
            assert(y[4] == x[4] && y[5] == x[5] && y[6] == x[6] && y[7] == x[7]);
        }
    }
    assert forall|j: int| 0 <= j < AUDIO_EXTENSIONS@.len() implies #[trigger] AUDIO_EXTENSIONS@[j]@ != x by {
        lemma_audio_entry(j);
        let y = AUDIO_EXTENSIONS@[j]@;
        if y == x {
            assert(y.len() == x.len());
            assert(y[0] == x[0] && y[1] == x[1] && y[2] == x[2] && y[3] == x[3]);
            assert(y[4] == x[4] && y[5] == x[5] && y[6] == x[6] && y[7] == x[7]);
        }
    }
    assert forall|j: int| 0 <= j < VIDEO_EXTENSIONS@.len() implies #[trigger] VIDEO_EXTENSIONS@[j]@ != x by {
        lemma_video_entry(j);
        let y = VIDEO_EXTENSIONS@[j]@;
        if y == x {
            assert(y.len() == x.len());
            assert(y[0] == x[0] && y[1] == x[1] && y[2] == x[2] && y[3] == x[3]);
            assert(y[4] == x[4] && y[5] == x[5] && y[6] == x[6] && y[7] == x[7]);
        }
    }
    assert forall|j: int| 0 <= j < ARCHIVE_EXTENSIONS@.len() implies #[trigger] ARCHIVE_EXTENSIONS@[j]@ != x by {
        lemma_archive_entry(j);
        let y = ARCHIVE_EXTENSIONS@[j]@;
        if y == x {
            assert(y.len() == x.len());
            assert(y[0] == x[0] && y[1] == x[1] && y[2] == x[2] && y[3] == x[3]);
            assert(y[4] == x[4] && y[5] == x[5] && y[6] == x[6] && y[7] == x[7]);
        }
    }
    assert forall|j: int| 0 <= j < CODE_EXTENSIONS@.len() implies #[trigger] CODE_EXTENSIONS@[j]@ != x by {
        lemma_code_entry(j);
        let y = CODE_EXTENSIONS@[j]@;
        if y == x {
            assert(y.len() == x.len());
            assert(y[0] == x[0] && y[1] == x[1] && y[2] == x[2] && y[3] == x[3]);
            assert(y[4] == x[4] && y[5] == x[5] && y[6] == x[6] && y[7] == x[7]);
        }
    }
}

/// Every extension of `INSTALLER_EXTENSIONS` is classified as `Installers`: the lists
/// hold no extension in common, so none falls to an earlier category.
pub proof fn law_installer_extensions_are_installers(i: int)
    requires
        0 <= i < INSTALLER_EXTENSIONS@.len(),
    ensures
        spec_category_for(INSTALLER_EXTENSIONS@[i]@) == "Installers"@,
{
    let x = INSTALLER_EXTENSIONS@[i]@;
    reveal_strlit("pdf");
    reveal_strlit("doc");
    reveal_strlit("docx");
    reveal_strlit("odt");
    reveal_strlit("rtf");
    reveal_strlit("xls");
    reveal_strlit("xlsx");
    reveal_strlit("ods");
    reveal_strlit("csv");
    reveal_strlit("ppt");
    reveal_strlit("pptx");
    reveal_strlit("odp");
    reveal_strlit("txt");
    reveal_strlit("md");
    reveal_strlit("epub");
    reveal_strlit("mobi");
    reveal_strlit("jpg");
    reveal_strlit("jpeg");
    reveal_strlit("png");
    reveal_strlit("gif");
    reveal_strlit("bmp");
    reveal_strlit("tiff");
    reveal_strlit("tif");
    reveal_strlit("svg");
    reveal_strlit("webp");
    reveal_strlit("heic");
    reveal_strlit("avif");
    reveal_strlit("mp3");
    reveal_strlit("wav");
    reveal_strlit("flac");
    reveal_strlit("aac");
    reveal_strlit("ogg");
    reveal_strlit("m4a");
    reveal_strlit("wma");
    reveal_strlit("opus");
    reveal_strlit("mp4");
    reveal_strlit("avi");
    reveal_strlit("mkv");
    reveal_strlit("mov");
    reveal_strlit("wmv");
    reveal_strlit("flv");
    reveal_strlit("webm");
    reveal_strlit("m4v");
    reveal_strlit("zip");
    reveal_strlit("rar");
    reveal_strlit("7z");
    reveal_strlit("tar");
    reveal_strlit("gz");
    reveal_strlit("bz2");
    reveal_strlit("xz");
    reveal_strlit("iso");
    reveal_strlit("js");
    reveal_strlit("mjs");
    reveal_strlit("cjs");
    reveal_strlit("ts");
    reveal_strlit("tsx");
    reveal_strlit("jsx");
    reveal_strlit("py");
    reveal_strlit("java");
    reveal_strlit("c");
    reveal_strlit("h");
    reveal_strlit("cpp");
    reveal_strlit("hpp");
    reveal_strlit("cc");
    reveal_strlit("cs");
    reveal_strlit("go");
    reveal_strlit("rs");
    reveal_strlit("rb");
    reveal_strlit("php");
    reveal_strlit("html");
    reveal_strlit("css");
    reveal_strlit("scss");
    reveal_strlit("json");
    reveal_strlit("xml");
    reveal_strlit("yml");
    reveal_strlit("yaml");
    reveal_strlit("sh");
    reveal_strlit("sql");
    reveal_strlit("dmg");
    reveal_strlit("pkg");
    reveal_strlit("app");
    reveal_strlit("exe");
    reveal_strlit("msi");
    reveal_strlit("deb");
    reveal_strlit("rpm");
    reveal_strlit("appimage");
    lemma_installer_entry(i);
    assert(listed(INSTALLER_EXTENSIONS@, x));
    assert forall|j: int| 0 <= j < DOCUMENT_EXTENSIONS@.len() implies #[trigger] DOCUMENT_EXTENSIONS@[j]@ != x by {
        lemma_document_entry(j);
        let y = DOCUMENT_EXTENSIONS@[j]@;
        if y == x {
            assert(y.len() == x.len());
            assert(y[0] == x[0] && y[1] == x[1] && y[2] == x[2] && y[3] == x[3]);
            assert(y[4] == x[4] && y[5] == x[5] && y[6] == x[6] && y[7] == x[7]);
        }
    }
    assert forall|j: int| 0 <= j < IMAGE_EXTENSIONS@.len() implies #[trigger] IMAGE_EXTENSIONS@[j]@ != x by {
        lemma_image_entry(j);
        let y = IMAGE_EXTENSIONS@[j]@;
        if y == x {
            assert(y.len() == x.len());
            assert(y[0] == x[0] && y[1] == x[1] && y[2] == x[2] && y[3] == x[3]);
            assert(y[4] == x[4] && y[5] == x[5] && y[6] == x[6] && y[7] == x[7]);
        }
    }
    assert forall|j: int| 0 <= j < AUDIO_EXTENSIONS@.len() implies #[trigger] AUDIO_EXTENSIONS@[j]@ != x by {
        lemma_audio_entry(j);
        let y = AUDIO_EXTENSIONS@[j]@;
        if y == x {
            assert(y.len() == x.len());
            assert(y[0] == x[0] && y[1] == x[1] && y[2] == x[2] && y[3] == x[3]);
            assert(y[4] == x[4] && y[5] == x[5] && y[6] == x[6] && y[7] == x[7]);
        }
    }
    assert forall|j: int| 0 <= j < VIDEO_EXTENSIONS@.len() implies #[trigger] VIDEO_EXTENSIONS@[j]@ != x by {
        lemma_video_entry(j);
        let y = VIDEO_EXTENSIONS@[j]@;
        if y == x {
            assert(y.len() == x.len());
            assert(y[0] == x[0] && y[1] == x[1] && y[2] == x[2] && y[3] == x[3]);
            assert(y[4] == x[4] && y[5] == x[5] && y[6] == x[6] && y[7] == x[7]);
        }
    }
    assert forall|j: int| 0 <= j < ARCHIVE_EXTENSIONS@.len() implies #[trigger] ARCHIVE_EXTENSIONS@[j]@ != x by {
        lemma_archive_entry(j);
        let y = ARCHIVE_EXTENSIONS@[j]@;
        if y == x {
            assert(y.len() == x.len());
            assert(y[0] == x[0] && y[1] == x[1] && y[2] == x[2] && y[3] == x[3]);
            assert(y[4] == x[4] && y[5] == x[5] && y[6] == x[6] && y[7] == x[7]);
        }
    }
    assert forall|j: int| 0 <= j < CODE_EXTENSIONS@.len() implies #[trigger] CODE_EXTENSIONS@[j]@ != x by {
        lemma_code_entry(j);
        let y = CODE_EXTENSIONS@[j]@;
        if y == x {
            assert(y.len() == x.len());
            assert(y[0] == x[0] && y[1] == x[1] && y[2] == x[2] && y[3] == x[3]);
            assert(y[4] == x[4] && y[5] == x[5] && y[6] == x[6] && y[7] == x[7]);
        }
    }
    assert forall|j: int| 0 <= j < APP_EXTENSIONS@.len() implies #[trigger] APP_EXTENSIONS@[j]@ != x by {
        lemma_app_entry(j);
        let y = APP_EXTENSIONS@[j]@;
        if y == x {
            assert(y.len() == x.len());
            assert(y[0] == x[0] && y[1] == x[1] && y[2] == x[2] && y[3] == x[3]);
            assert(y[4] == x[4] && y[5] == x[5] && y[6] == x[6] && y[7] == x[7]);
        }
    }
}

} // verus!

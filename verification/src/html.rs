//! Text the example file server renders: escaping for HTML and URL paths,
//! file-type icons, breadcrumb navigation and the error page.
use vstd::prelude::*;
use crate::text::{
    join_slash,
    lower_seq,
    push_char,
    split_drop,
    split_str,
    str_eq,
    to_lowercase_ascii,
    views_of,
};

verus! {

/// What a character becomes in HTML text: the four markup characters get
/// their entities, everything else stands for itself.
pub open spec fn html_escape_char(c: char) -> Seq<char> {
    if c == '&' {
        "&amp;"@
    } else if c == '<' {
        "&lt;"@
    } else if c == '>' {
        "&gt;"@
    } else if c == '"' {
        "&quot;"@
    } else {
        seq![c]
    }
}

/// The HTML-escaped form of a character sequence.
pub open spec fn html_escape_seq(s: Seq<char>) -> Seq<char>
    decreases s.len(),
{
    if s.len() == 0 {
        Seq::empty()
    } else {
        html_escape_seq(s.drop_last()) + html_escape_char(s.last())
    }
}

/// Escape the HTML markup characters in `s`.
pub fn html_escape(s: &str) -> (r: String)
    ensures
        r@ == html_escape_seq(s@),
{
    let n = s.unicode_len();
    let mut r = String::new();
    let mut i: usize = 0;
    while i < n
        invariant
            i <= n,
            n == s@.len(),
            r@ == html_escape_seq(s@.take(i as int)),
        decreases n - i,
    {
        let c = s.get_char(i);
        if c == '&' {
            r.append("&amp;");
        } else if c == '<' {
            r.append("&lt;");
        } else if c == '>' {
            r.append("&gt;");
        } else if c == '"' {
            r.append("&quot;");
        } else {
            push_char(&mut r, c);
        }
        proof {
            assert(s@.take(i + 1).drop_last() =~= s@.take(i as int));
            assert(s@.take(i + 1).last() == s@[i as int]);
            assert(r@ =~= html_escape_seq(s@.take(i + 1)));
        }
        i += 1;
    }
    proof {
        assert(s@.take(n as int) =~= s@);
    }
    r
}

/// What a character becomes in a link path: the four characters that would
/// end or break the URL are written as percent escapes.
pub open spec fn encode_path_char(c: char) -> Seq<char> {
    if c == '%' {
        "%25"@
    } else if c == ' ' {
        "%20"@
    } else if c == '#' {
        "%23"@
    } else if c == '?' {
        "%3F"@
    } else {
        seq![c]
    }
}

/// The link-safe form of a character sequence.
pub open spec fn encode_path_seq(s: Seq<char>) -> Seq<char>
    decreases s.len(),
{
    if s.len() == 0 {
        Seq::empty()
    } else {
        encode_path_seq(s.drop_last()) + encode_path_char(s.last())
    }
}

/// Percent-escape the characters that would break `s` as a link path.
pub fn encode_path(s: &str) -> (r: String)
    ensures
        r@ == encode_path_seq(s@),
{
    let n = s.unicode_len();
    let mut r = String::new();
    let mut i: usize = 0;
    while i < n
        invariant
            i <= n,
            n == s@.len(),
            r@ == encode_path_seq(s@.take(i as int)),
        decreases n - i,
    {
        let c = s.get_char(i);
        if c == '%' {
            r.append("%25");
        } else if c == ' ' {
            r.append("%20");
        } else if c == '#' {
            r.append("%23");
        } else if c == '?' {
            r.append("%3F");
        } else {
            push_char(&mut r, c);
        }
        proof {
            assert(s@.take(i + 1).drop_last() =~= s@.take(i as int));
            assert(s@.take(i + 1).last() == s@[i as int]);
            assert(r@ =~= encode_path_seq(s@.take(i + 1)));
        }
        i += 1;
    }
    proof {
        assert(s@.take(n as int) =~= s@);
    }
    r
}

/// What a character becomes inside a JSON string literal.
pub open spec fn json_escape_char(c: char) -> Seq<char> {
    if c == '\\' {
        "\\\\"@
    } else if c == '"' {
        "\\\""@
    } else if c == '\n' {
        "\\n"@
    } else if c == '\r' {
        "\\r"@
    } else if c == '\t' {
        "\\t"@
    } else {
        seq![c]
    }
}

/// The JSON-escaped form of a character sequence.
pub open spec fn json_escape_seq(s: Seq<char>) -> Seq<char>
    decreases s.len(),
{
    if s.len() == 0 {
        Seq::empty()
    } else {
        json_escape_seq(s.drop_last()) + json_escape_char(s.last())
    }
}

/// Escape `s` for use inside a JSON string literal.
pub fn json_escape(s: &str) -> (r: String)
    ensures
        r@ == json_escape_seq(s@),
{
    let n = s.unicode_len();
    let mut r = String::new();
    let mut i: usize = 0;
    while i < n
        invariant
            i <= n,
            n == s@.len(),
            r@ == json_escape_seq(s@.take(i as int)),
        decreases n - i,
    {
        let c = s.get_char(i);
        if c == '\\' {
            r.append("\\\\");
        } else if c == '"' {
            r.append("\\\"");
        } else if c == '\n' {
            r.append("\\n");
        } else if c == '\r' {
            r.append("\\r");
        } else if c == '\t' {
            r.append("\\t");
        } else {
            push_char(&mut r, c);
        }
        proof {
            assert(s@.take(i + 1).drop_last() =~= s@.take(i as int));
            assert(s@.take(i + 1).last() == s@[i as int]);
            assert(r@ =~= json_escape_seq(s@.take(i + 1)));
        }
        i += 1;
    }
    proof {
        assert(s@.take(n as int) =~= s@);
    }
    r
}

/// The file name's extension: what follows the last `.`, or the whole name
/// when it has none.
pub open spec fn spec_extension(s: Seq<char>) -> Seq<char>
    decreases s.len(),
{
    if s.len() == 0 {
        s
    } else if s.last() == '.' {
        Seq::empty()
    } else {
        spec_extension(s.drop_last()).push(s.last())
    }
}

fn extension_of(s: &str) -> (r: String)
    ensures
        r@ == spec_extension(s@),
    decreases s@.len(),
{
    let n = s.unicode_len();
    if n == 0 {
        return String::new();
    }
    let c = s.get_char(n - 1);
    if c == '.' {
        return String::new();
    }
    let head = s.substring_char(0, n - 1);
    proof {
        assert(head@ =~= s@.drop_last());
    }
    let mut r = extension_of(head);
    push_char(&mut r, c);
    proof {
        assert(r@ =~= spec_extension(s@));
    }
    r
}

/// The icon shown for a file, chosen by its extension, ignoring case.
pub open spec fn spec_file_icon(filename: Seq<char>) -> Seq<char> {
    let e = lower_seq(spec_extension(filename));
    if e == "jpg"@ || e == "jpeg"@ || e == "png"@ || e == "gif"@ || e == "webp"@ || e == "svg"@
        || e == "bmp"@ || e == "ico"@ {
        "🖼️"@
    } else if e == "mp4"@ || e == "webm"@ || e == "avi"@ || e == "mov"@ || e == "mkv"@ || e
        == "flv"@ {
        "🎬"@
    } else if e == "mp3"@ || e == "wav"@ || e == "flac"@ || e == "ogg"@ || e == "aac"@ || e
        == "m4a"@ {
        "🎵"@
    } else if e == "pdf"@ {
        "📕"@
    } else if e == "doc"@ || e == "docx"@ {
        "📘"@
    } else if e == "xls"@ || e == "xlsx"@ {
        "📗"@
    } else if e == "ppt"@ || e == "pptx"@ {
        "📙"@
    } else if e == "txt"@ || e == "md"@ || e == "rtf"@ {
        "📄"@
    } else if e == "rs"@ || e == "py"@ || e == "js"@ || e == "ts"@ || e == "go"@ || e == "java"@
        || e == "c"@ || e == "cpp"@ || e == "h"@ {
        "💻"@
    } else if e == "html"@ || e == "css"@ || e == "scss"@ || e == "sass"@ {
        "🌐"@
    } else if e == "json"@ || e == "yaml"@ || e == "yml"@ || e == "toml"@ || e == "xml"@ {
        "⚙️"@
    } else if e == "zip"@ || e == "tar"@ || e == "gz"@ || e == "rar"@ || e == "7z"@ || e
        == "bz2"@ {
        "📦"@
    } else if e == "exe"@ || e == "msi"@ || e == "dmg"@ || e == "app"@ || e == "deb"@ || e
        == "rpm"@ {
        "⚡"@
    } else {
        "📄"@
    }
}

/// The icon shown for a file, chosen by its extension.
pub fn get_file_icon(filename: &str) -> (r: &'static str)
    ensures
        r@ == spec_file_icon(filename@),
{
    let ext = to_lowercase_ascii(extension_of(filename).as_str());
    let e = ext.as_str();
    if str_eq(e, "jpg") || str_eq(e, "jpeg") || str_eq(e, "png") || str_eq(e, "gif") || str_eq(
        e,
        "webp",
    ) || str_eq(e, "svg") || str_eq(e, "bmp") || str_eq(e, "ico") {
        "🖼️"
    } else if str_eq(e, "mp4") || str_eq(e, "webm") || str_eq(e, "avi") || str_eq(e, "mov")
        || str_eq(e, "mkv") || str_eq(e, "flv") {
        "🎬"
    } else if str_eq(e, "mp3") || str_eq(e, "wav") || str_eq(e, "flac") || str_eq(e, "ogg")
        || str_eq(e, "aac") || str_eq(e, "m4a") {
        "🎵"
    } else if str_eq(e, "pdf") {
        "📕"
    } else if str_eq(e, "doc") || str_eq(e, "docx") {
        "📘"
    } else if str_eq(e, "xls") || str_eq(e, "xlsx") {
        "📗"
    } else if str_eq(e, "ppt") || str_eq(e, "pptx") {
        "📙"
    } else if str_eq(e, "txt") || str_eq(e, "md") || str_eq(e, "rtf") {
        "📄"
    } else if str_eq(e, "rs") || str_eq(e, "py") || str_eq(e, "js") || str_eq(e, "ts") || str_eq(
        e,
        "go",
    ) || str_eq(e, "java") || str_eq(e, "c") || str_eq(e, "cpp") || str_eq(e, "h") {
        "💻"
    } else if str_eq(e, "html") || str_eq(e, "css") || str_eq(e, "scss") || str_eq(e, "sass") {
        "🌐"
    } else if str_eq(e, "json") || str_eq(e, "yaml") || str_eq(e, "yml") || str_eq(e, "toml")
        || str_eq(e, "xml") {
        "⚙️"
    } else if str_eq(e, "zip") || str_eq(e, "tar") || str_eq(e, "gz") || str_eq(e, "rar")
        || str_eq(e, "7z") || str_eq(e, "bz2") {
        "📦"
    } else if str_eq(e, "exe") || str_eq(e, "msi") || str_eq(e, "dmg") || str_eq(e, "app")
        || str_eq(e, "deb") || str_eq(e, "rpm") {
        "⚡"
    } else {
        "📄"
    }
}

/// One crumb of the breadcrumb trail for each path part: a separator and a
/// link to the directory accumulated so far.
pub open spec fn crumbs_chars(parts: Seq<Seq<char>>) -> Seq<char>
    decreases parts.len(),
{
    if parts.len() == 0 {
        Seq::empty()
    } else {
        crumbs_chars(parts.drop_last()) + " <span>/</span> <a href=\"/browse/"@
            + encode_path_seq(join_slash(parts)) + "\">"@ + html_escape_seq(parts.last())
            + "</a>"@
    }
}

/// The breadcrumb trail: a home link, then one crumb for each non-empty part
/// of the sub-path.
pub open spec fn breadcrumb_chars(subpath: Seq<char>) -> Seq<char> {
    "<a href=\"/\">📂 Home</a>"@ + crumbs_chars(split_drop(subpath, '/'))
}

/// Render the breadcrumb navigation for a directory page.
pub fn generate_breadcrumb(subpath: &str) -> (r: String)
    ensures
        r@ == breadcrumb_chars(subpath@),
{
    let mut html = "<a href=\"/\">📂 Home</a>".to_owned();
    let parts = split_str(subpath, '/');
    let ghost vs = views_of(parts@);
    let mut accumulated = String::new();
    let mut i: usize = 0;
    proof {
        assert(html@ + crumbs_chars(vs.take(0)) =~= html@);
        assert(accumulated@ =~= join_slash(vs.take(0)));
    }
    #[verifier::loop_isolation(false)]
    while i < parts.len()
        invariant
            i <= parts@.len(),
            accumulated@ == join_slash(vs.take(i as int)),
            html@ == "<a href=\"/\">📂 Home</a>"@ + crumbs_chars(vs.take(i as int)),
        decreases parts@.len() - i,
    {
        if i > 0 {
            push_char(&mut accumulated, '/');
        }
        accumulated.append(parts[i].as_str());
        proof {
            assert(vs.take(i + 1).drop_last() =~= vs.take(i as int));
            assert(vs.take(i + 1).last() == vs[i as int]);
            if i == 0 {
                assert(accumulated@ =~= join_slash(vs.take(1)));
            } else {
                assert(accumulated@ =~= join_slash(vs.take(i + 1)));
            }
        }
        html.append(" <span>/</span> <a href=\"/browse/");
        let enc = encode_path(accumulated.as_str());
        html.append(enc.as_str());
        html.append("\">");
        let esc = html_escape(parts[i].as_str());
        html.append(esc.as_str());
        html.append("</a>");
        proof {
            assert(html@ =~= "<a href=\"/\">📂 Home</a>"@ + crumbs_chars(vs.take(i + 1)));
        }
        i += 1;
    }
    proof {
        assert(vs.take(parts@.len() as int) =~= vs);
    }
    html
}

/// The error page, with the message HTML-escaped into its body.
pub open spec fn error_html_chars(message: Seq<char>) -> Seq<char> {
    "<!DOCTYPE html>\n<html>\n<head>\n    <title>Error</title>\n    <style>\n        body { font-family: system-ui, sans-serif; background: #1a1a2e; color: #e0e0e0; display: flex; justify-content: center; align-items: center; min-height: 100vh; margin: 0; }\n        .error { text-align: center; padding: 40px; background: rgba(255, 0, 0, 0.1); border-radius: 16px; border: 1px solid rgba(255, 0, 0, 0.3); }\n        .error h1 { color: #ff6b6b; }\n    </style>\n</head>\n<body>\n    <div class=\"error\">\n        <h1>⚠️ Error</h1>\n        <p>"@
        + html_escape_seq(message)
        + "</p>\n        <p><a href=\"/\" style=\"color: #667eea;\">← Back to home</a></p>\n    </div>\n</body>\n</html>"@
}

/// Render the error page for a message.
pub fn error_html(message: &str) -> (r: String)
    ensures
        r@ == error_html_chars(message@),
{
    let mut r =
        "<!DOCTYPE html>\n<html>\n<head>\n    <title>Error</title>\n    <style>\n        body { font-family: system-ui, sans-serif; background: #1a1a2e; color: #e0e0e0; display: flex; justify-content: center; align-items: center; min-height: 100vh; margin: 0; }\n        .error { text-align: center; padding: 40px; background: rgba(255, 0, 0, 0.1); border-radius: 16px; border: 1px solid rgba(255, 0, 0, 0.3); }\n        .error h1 { color: #ff6b6b; }\n    </style>\n</head>\n<body>\n    <div class=\"error\">\n        <h1>⚠️ Error</h1>\n        <p>".to_owned();
    let esc = html_escape(message);
    r.append(esc.as_str());
    r.append(
        "</p>\n        <p><a href=\"/\" style=\"color: #667eea;\">← Back to home</a></p>\n    </div>\n</body>\n</html>",
    );
    r
}

/// What the server knows about one directory entry when it renders a
/// listing: the file name, whether it is a directory, and its size in bytes.
#[derive(Debug, Clone)]
pub struct DirEntry {
    pub name: String,
    pub is_dir: bool,
    pub size: u64,
}

/// The path of an entry relative to the served root: the sub-path and the
/// name joined with `/`, or the name alone at the root.
pub open spec fn rel_path_chars(subpath: Seq<char>, name: Seq<char>) -> Seq<char> {
    if subpath.len() == 0 {
        name
    } else {
        subpath + "/"@ + name
    }
}

/// One row of the directory listing: a link to browse a directory or
/// download a file, with its icon, escaped name and size.
pub open spec fn row_chars(subpath: Seq<char>, name: Seq<char>, is_dir: bool, size: u64) -> Seq<
    char,
> {
    let href = (if is_dir {
        "/browse/"@
    } else {
        "/download/"@
    }) + encode_path_seq(rel_path_chars(subpath, name));
    let class = if is_dir {
        "folder"@
    } else {
        "file"@
    };
    let icon = if is_dir {
        "\u{1f4c1}"@
    } else {
        spec_file_icon(name)
    };
    let size_text = if is_dir {
        "-"@
    } else {
        crate::stats::spec_format_bytes(size)
    };
    "<a href=\""@ + href + "\" class=\"file-item "@ + class
        + "\">\n                <span class=\"file-icon\">"@ + icon
        + "</span>\n                <span class=\"file-name\">"@ + html_escape_seq(name)
        + "</span>\n                <span class=\"file-size\">"@ + size_text
        + "</span>\n            </a>"@
}

/// The rows of a listing, in the order the entries are given.
pub open spec fn rows_chars(subpath: Seq<char>, entries: Seq<DirEntry>) -> Seq<char>
    decreases entries.len(),
{
    if entries.len() == 0 {
        Seq::empty()
    } else {
        rows_chars(subpath, entries.drop_last()) + row_chars(
            subpath,
            entries.last().name@,
            entries.last().is_dir,
            entries.last().size,
        )
    }
}

/// The body of the file list: the rows, or a message for an empty directory.
pub open spec fn files_chars(subpath: Seq<char>, entries: Seq<DirEntry>) -> Seq<char> {
    if entries.len() == 0 {
        "<div class=\"empty\">\u{1f4ed} This directory is empty</div>"@
    } else {
        rows_chars(subpath, entries)
    }
}

fn render_row(subpath: &str, entry: &DirEntry) -> (r: String)
    ensures
        r@ == row_chars(subpath@, entry.name@, entry.is_dir, entry.size),
{
    let mut rel = String::new();
    if !subpath.is_empty() {
        rel.append(subpath);
        push_char(&mut rel, '/');
    }
    rel.append(entry.name.as_str());
    proof {
        reveal_strlit("/");
        assert(rel@ =~= rel_path_chars(subpath@, entry.name@));
    }
    let mut r = String::new();
    r.append("<a href=\"");
    if entry.is_dir {
        r.append("/browse/");
    } else {
        r.append("/download/");
    }
    let enc = encode_path(rel.as_str());
    r.append(enc.as_str());
    r.append("\" class=\"file-item ");
    if entry.is_dir {
        r.append("folder");
    } else {
        r.append("file");
    }
    r.append("\">\n                <span class=\"file-icon\">");
    if entry.is_dir {
        r.append("\u{1f4c1}");
    } else {
        r.append(get_file_icon(entry.name.as_str()));
    }
    r.append("</span>\n                <span class=\"file-name\">");
    let esc = html_escape(entry.name.as_str());
    r.append(esc.as_str());
    r.append("</span>\n                <span class=\"file-size\">");
    if entry.is_dir {
        r.append("-");
    } else {
        let size = crate::stats::Stats::format_bytes(entry.size);
        r.append(size.as_str());
    }
    r.append("</span>\n            </a>");
    proof {
        assert(r@ =~= row_chars(subpath@, entry.name@, entry.is_dir, entry.size));
    }
    r
}

/// The whole directory page: title and heading carry the served directory's
/// name, then the breadcrumb trail and the file list.
pub open spec fn index_html_chars(
    dir_name: Seq<char>,
    subpath: Seq<char>,
    entries: Seq<DirEntry>,
) -> Seq<char> {
    "<!DOCTYPE html>\n<html lang=\"en\">\n<head>\n    <meta charset=\"UTF-8\">\n    <meta name=\"viewport\" content=\"width=device-width, initial-scale=1.0\">\n    <title>rustserve - "@
        + html_escape_seq(dir_name) + index_style_chars()
        + "</head>\n<body>\n    <div class=\"container\">\n        <div class=\"header\">\n            <h1>\u{1f680} rustserve</h1>\n            <p class=\"subtitle\">Serving files from <strong>"@
        + html_escape_seq(dir_name)
        + "</strong></p>\n        </div>\n\n        <div class=\"breadcrumb\">\n            "@
        + breadcrumb_chars(subpath)
        + "\n        </div>\n\n        <div class=\"file-list\">\n            "@ + files_chars(
        subpath,
        entries,
    )
        + "\n        </div>\n\n        <div class=\"footer\">\n            Served by rustserve\n        </div>\n    </div>\n</body>\n</html>"@
}

/// The style block of the directory page.
pub open spec fn index_style_chars() -> Seq<char> {
    "</title>\n    <style>\n        * { margin: 0; padding: 0; box-sizing: border-box; }\n        body { font-family: 'Segoe UI', system-ui, -apple-system, sans-serif; background: linear-gradient(135deg, #1a1a2e 0%, #16213e 50%, #0f3460 100%); min-height: 100vh; color: #e0e0e0; }\n        .container { max-width: 900px; margin: 0 auto; padding: 40px 20px; }\n        .header { text-align: center; margin-bottom: 40px; }\n        .header h1 { font-size: 2.5rem; background: linear-gradient(135deg, #667eea 0%, #764ba2 100%); -webkit-background-clip: text; -webkit-text-fill-color: transparent; background-clip: text; margin-bottom: 10px; }\n        .header .subtitle { color: #888; font-size: 1rem; }\n        .breadcrumb { background: rgba(255, 255, 255, 0.05); border-radius: 12px; padding: 15px 20px; margin-bottom: 20px; border: 1px solid rgba(255, 255, 255, 0.1); }\n        .breadcrumb a { color: #667eea; text-decoration: none; }\n        .breadcrumb a:hover { color: #764ba2; }\n        .breadcrumb span { color: #666; margin: 0 8px; }\n        .file-list { background: rgba(255, 255, 255, 0.03); border-radius: 16px; overflow: hidden; border: 1px solid rgba(255, 255, 255, 0.1); box-shadow: 0 8px 32px rgba(0, 0, 0, 0.3); }\n        .file-item { display: flex; align-items: center; padding: 16px 24px; text-decoration: none; color: #e0e0e0; border-bottom: 1px solid rgba(255, 255, 255, 0.05); }\n        .file-item:last-child { border-bottom: none; }\n        .file-item:hover { background: rgba(102, 126, 234, 0.1); }\n        .file-item.folder:hover { background: rgba(255, 193, 7, 0.1); }\n        .file-icon { font-size: 1.5rem; margin-right: 16px; width: 32px; text-align: center; }\n        .file-name { flex: 1; font-weight: 500; overflow: hidden; text-overflow: ellipsis; white-space: nowrap; }\n        .file-size { color: #888; font-size: 0.9rem; font-family: 'Monaco', 'Consolas', monospace; }\n        .empty { text-align: center; padding: 60px 20px; color: #666; font-size: 1.2rem; }\n        .footer { text-align: center; margin-top: 40px; color: #555; font-size: 0.85rem; }\n    </style>\n"@
}

/// Render the directory page for the given entries, in the order given.
pub fn generate_index_html(dir_name: &str, subpath: &str, entries: &Vec<DirEntry>) -> (r:
    String)
    ensures
        r@ == index_html_chars(dir_name@, subpath@, entries@),
{
    let mut r = String::new();
    r.append(
        "<!DOCTYPE html>\n<html lang=\"en\">\n<head>\n    <meta charset=\"UTF-8\">\n    <meta name=\"viewport\" content=\"width=device-width, initial-scale=1.0\">\n    <title>rustserve - ",
    );
    let esc_name = html_escape(dir_name);
    r.append(esc_name.as_str());
    r.append(
        "</title>\n    <style>\n        * { margin: 0; padding: 0; box-sizing: border-box; }\n        body { font-family: 'Segoe UI', system-ui, -apple-system, sans-serif; background: linear-gradient(135deg, #1a1a2e 0%, #16213e 50%, #0f3460 100%); min-height: 100vh; color: #e0e0e0; }\n        .container { max-width: 900px; margin: 0 auto; padding: 40px 20px; }\n        .header { text-align: center; margin-bottom: 40px; }\n        .header h1 { font-size: 2.5rem; background: linear-gradient(135deg, #667eea 0%, #764ba2 100%); -webkit-background-clip: text; -webkit-text-fill-color: transparent; background-clip: text; margin-bottom: 10px; }\n        .header .subtitle { color: #888; font-size: 1rem; }\n        .breadcrumb { background: rgba(255, 255, 255, 0.05); border-radius: 12px; padding: 15px 20px; margin-bottom: 20px; border: 1px solid rgba(255, 255, 255, 0.1); }\n        .breadcrumb a { color: #667eea; text-decoration: none; }\n        .breadcrumb a:hover { color: #764ba2; }\n        .breadcrumb span { color: #666; margin: 0 8px; }\n        .file-list { background: rgba(255, 255, 255, 0.03); border-radius: 16px; overflow: hidden; border: 1px solid rgba(255, 255, 255, 0.1); box-shadow: 0 8px 32px rgba(0, 0, 0, 0.3); }\n        .file-item { display: flex; align-items: center; padding: 16px 24px; text-decoration: none; color: #e0e0e0; border-bottom: 1px solid rgba(255, 255, 255, 0.05); }\n        .file-item:last-child { border-bottom: none; }\n        .file-item:hover { background: rgba(102, 126, 234, 0.1); }\n        .file-item.folder:hover { background: rgba(255, 193, 7, 0.1); }\n        .file-icon { font-size: 1.5rem; margin-right: 16px; width: 32px; text-align: center; }\n        .file-name { flex: 1; font-weight: 500; overflow: hidden; text-overflow: ellipsis; white-space: nowrap; }\n        .file-size { color: #888; font-size: 0.9rem; font-family: 'Monaco', 'Consolas', monospace; }\n        .empty { text-align: center; padding: 60px 20px; color: #666; font-size: 1.2rem; }\n        .footer { text-align: center; margin-top: 40px; color: #555; font-size: 0.85rem; }\n    </style>\n",
    );
    r.append(
        "</head>\n<body>\n    <div class=\"container\">\n        <div class=\"header\">\n            <h1>\u{1f680} rustserve</h1>\n            <p class=\"subtitle\">Serving files from <strong>",
    );
    r.append(esc_name.as_str());
    r.append(
        "</strong></p>\n        </div>\n\n        <div class=\"breadcrumb\">\n            ",
    );
    let crumbs = generate_breadcrumb(subpath);
    r.append(crumbs.as_str());
    r.append("\n        </div>\n\n        <div class=\"file-list\">\n            ");
    if entries.len() == 0 {
        r.append("<div class=\"empty\">\u{1f4ed} This directory is empty</div>");
    } else {
        let mut i: usize = 0;
        let ghost before_rows = r@;
        while i < entries.len()
            invariant
                i <= entries@.len(),
                r@ == before_rows + rows_chars(subpath@, entries@.take(i as int)),
            decreases entries@.len() - i,
        {
            let row = render_row(subpath, &entries[i]);
            r.append(row.as_str());
            proof {
                assert(entries@.take(i + 1).drop_last() =~= entries@.take(i as int));
                assert(entries@.take(i + 1).last() == entries@[i as int]);
            }
            i += 1;
        }
        proof {
            assert(entries@.take(entries@.len() as int) =~= entries@);
        }
    }
    r.append(
        "\n        </div>\n\n        <div class=\"footer\">\n            Served by rustserve\n        </div>\n    </div>\n</body>\n</html>",
    );
    proof {
        assert(r@ =~= index_html_chars(dir_name@, subpath@, entries@));
    }
    r
}

/// One entry of the JSON directory listing.
pub open spec fn entry_json_chars(e: DirEntry) -> Seq<char> {
    "{\"name\":\""@ + json_escape_seq(e.name@) + "\",\"isDir\":"@ + (if e.is_dir {
        "true"@
    } else {
        "false"@
    }) + ",\"size\":"@ + crate::text::dec_str(e.size as int) + "}"@
}

/// The entries of the JSON listing, separated by commas.
pub open spec fn entries_json_chars(entries: Seq<DirEntry>) -> Seq<char>
    decreases entries.len(),
{
    if entries.len() == 0 {
        Seq::empty()
    } else if entries.len() == 1 {
        entry_json_chars(entries[0])
    } else {
        entries_json_chars(entries.drop_last()) + ","@ + entry_json_chars(entries.last())
    }
}

/// Render the JSON directory listing: an array of objects with the name,
/// kind and size of each entry.
pub fn directory_json(entries: &Vec<DirEntry>) -> (r: String)
    ensures
        r@ == "["@ + entries_json_chars(entries@) + "]"@,
{
    let mut r = String::new();
    push_char(&mut r, '[');
    proof {
        reveal_strlit("[");
        assert(r@ =~= "["@ + entries_json_chars(entries@.take(0)));
    }
    let mut i: usize = 0;
    while i < entries.len()
        invariant
            i <= entries@.len(),
            r@ == "["@ + entries_json_chars(entries@.take(i as int)),
        decreases entries@.len() - i,
    {
        if i > 0 {
            push_char(&mut r, ',');
        }
        let entry = &entries[i];
        r.append("{\"name\":\"");
        let esc = json_escape(entry.name.as_str());
        r.append(esc.as_str());
        r.append("\",\"isDir\":");
        if entry.is_dir {
            r.append("true");
        } else {
            r.append("false");
        }
        r.append(",\"size\":");
        let size = crate::text::u64_to_dec(entry.size);
        r.append(size.as_str());
        r.append("}");
        proof {
            reveal_strlit(",");
            assert(entries@.take(i + 1).drop_last() =~= entries@.take(i as int));
            assert(entries@.take(i + 1).last() == entries@[i as int]);
            if i == 0 {
                assert(entries@.take(1)[0] == entries@[0]);
                assert(r@ =~= "["@ + entries_json_chars(entries@.take(1)));
            } else {
                assert(r@ =~= "["@ + entries_json_chars(entries@.take(i + 1)));
            }
        }
        i += 1;
    }
    proof {
        assert(entries@.take(entries@.len() as int) =~= entries@);
    }
    push_char(&mut r, ']');
    proof {
        reveal_strlit("]");
        assert(r@ =~= "["@ + entries_json_chars(entries@) + "]"@);
    }
    r
}

} // verus!

//! Icons shown before entry names, chosen by kind and lowercased extension.
use vstd::prelude::*;
use crate::path::{extension, extension_of};
use crate::text::{lowercase_of, str_eq, to_lowercase};

verus! {

/// The lowercased extension of `path`, if it has one.
pub open spec fn lower_ext(path: Seq<char>) -> Option<Seq<char>> {
    match extension_of(path) {
        Some(e) => Some(lowercase_of(e)),
        None => None,
    }
}

/// The icon of the entry list for a lowercased extension (directories aside).
pub open spec fn list_icon_for(ext: Option<Seq<char>>) -> Seq<char> {
    match ext {
        None => "📄"@,
        Some(e) => if e == "rs"@ {
            "🦀"@
        } else if e == "toml"@ || e == "yaml"@ || e == "yml"@ || e == "json"@ {
            "⚙️"@
        } else if e == "md"@ || e == "txt"@ {
            "📄"@
        } else if e == "png"@ || e == "jpg"@ || e == "jpeg"@ || e == "gif"@ || e == "svg"@ {
            "🖼️"@
        } else if e == "mp4"@ || e == "mkv"@ || e == "avi"@ || e == "mov"@ {
            "🎬"@
        } else if e == "mp3"@ || e == "wav"@ || e == "flac"@ {
            "🎵"@
        } else if e == "zip"@ || e == "tar"@ || e == "gz"@ || e == "xz"@ || e == "7z"@ {
            "📦"@
        } else if e == "sh"@ || e == "bash"@ || e == "zsh"@ {
            "🐚"@
        } else if e == "py"@ {
            "🐍"@
        } else if e == "js"@ || e == "ts"@ {
            "📜"@
        } else if e == "html"@ || e == "htm"@ {
            "🌐"@
        } else if e == "css"@ {
            "🎨"@
        } else {
            "📄"@
        },
    }
}

/// The icon of a preview line for a lowercased extension (directories aside).
pub open spec fn preview_icon_for(ext: Option<Seq<char>>) -> Seq<char> {
    match ext {
        None => "📄"@,
        Some(e) => if e == "rs"@ {
            "🦀"@
        } else if e == "c"@ {
            "🔵"@
        } else if e == "cpp"@ || e == "cc"@ || e == "cxx"@ {
            "🟣"@
        } else if e == "h"@ || e == "hpp"@ {
            "📘"@
        } else if e == "java"@ {
            "☕"@
        } else if e == "py"@ {
            "🐍"@
        } else if e == "js"@ {
            "🟡"@
        } else if e == "ts"@ {
            "🔷"@
        } else if e == "ipynb"@ {
            "📓"@
        } else if e == "xls"@ || e == "xlsx"@ {
            "📊"@
        } else if e == "doc"@ || e == "docx"@ {
            "📄"@
        } else if e == "ppt"@ || e == "pptx"@ {
            "📽️"@
        } else if e == "json"@ {
            "🧾"@
        } else if e == "toml"@ {
            "⚙️"@
        } else if e == "yaml"@ || e == "yml"@ {
            "📋"@
        } else if e == "md"@ {
            "📘"@
        } else if e == "txt"@ {
            "📄"@
        } else if e == "pdf"@ {
            "📕"@
        } else if e == "jpg"@ || e == "jpeg"@ || e == "png"@ || e == "gif"@ {
            "🖼️"@
        } else if e == "mp4"@ || e == "mkv"@ {
            "🎬"@
        } else if e == "mp3"@ || e == "wav"@ {
            "🎵"@
        } else if e == "zip"@ || e == "tar"@ || e == "gz"@ || e == "7z"@ {
            "📦"@
        } else if e == "exe"@ || e == "bin"@ || e == "sh"@ {
            "⚡"@
        } else if e == "html"@ || e == "htm"@ {
            "🌐"@
        } else if e == "css"@ {
            "🎨"@
        } else if e == "scss"@ || e == "sass"@ {
            "💅"@
        } else {
            "📄"@
        },
    }
}

/// The lowercased extension of `path`.
fn lowered_extension(path: &str) -> (r: Option<String>)
    ensures
        r.is_some() == lower_ext(path@).is_some(),
        r.is_some() ==> r.unwrap()@ == lower_ext(path@).unwrap(),
{
    match extension(path) {
        Some(e) => Some(to_lowercase(e.as_str())),
        None => None,
    }
}

/// Icon of an entry of the file list, from its path and whether it is a
/// directory (known from the listing, so nothing is read from disk).
pub fn get_icon_cached(path: &str, is_dir: bool) -> (r: &'static str)
    ensures
        r@ == if is_dir {
            "📁"@
        } else {
            list_icon_for(lower_ext(path@))
        },
{
    if is_dir {
        return "📁";
    }
    let ext = lowered_extension(path);
    match ext {
        None => "📄",
        Some(e) => {
            let e = e.as_str();
            if str_eq(e, "rs") {
                "🦀"
            } else if str_eq(e, "toml") || str_eq(e, "yaml") || str_eq(e, "yml") || str_eq(e, "json") {
                "⚙️"
            } else if str_eq(e, "md") || str_eq(e, "txt") {
                "📄"
            } else if str_eq(e, "png") || str_eq(e, "jpg") || str_eq(e, "jpeg") || str_eq(e, "gif")
                || str_eq(e, "svg") {
                "🖼️"
            } else if str_eq(e, "mp4") || str_eq(e, "mkv") || str_eq(e, "avi") || str_eq(e, "mov") {
                "🎬"
            } else if str_eq(e, "mp3") || str_eq(e, "wav") || str_eq(e, "flac") {
                "🎵"
            } else if str_eq(e, "zip") || str_eq(e, "tar") || str_eq(e, "gz") || str_eq(e, "xz")
                || str_eq(e, "7z") {
                "📦"
            } else if str_eq(e, "sh") || str_eq(e, "bash") || str_eq(e, "zsh") {
                "🐚"
            } else if str_eq(e, "py") {
                "🐍"
            } else if str_eq(e, "js") || str_eq(e, "ts") {
                "📜"
            } else if str_eq(e, "html") || str_eq(e, "htm") {
                "🌐"
            } else if str_eq(e, "css") {
                "🎨"
            } else {
                "📄"
            }
        },
    }
}

/// Icon of a line of a directory preview, from its path and whether it is a
/// directory.
pub fn get_icon(path: &str, is_dir: bool) -> (r: &'static str)
    ensures
        r@ == if is_dir {
            "📁"@
        } else {
            preview_icon_for(lower_ext(path@))
        },
{
    if is_dir {
        return "📁";
    }
    let ext = lowered_extension(path);
    match ext {
        None => "📄",
        Some(e) => {
            let e = e.as_str();
            if str_eq(e, "rs") {
                "🦀"
            } else if str_eq(e, "c") {
                "🔵"
            } else if str_eq(e, "cpp") || str_eq(e, "cc") || str_eq(e, "cxx") {
                "🟣"
            } else if str_eq(e, "h") || str_eq(e, "hpp") {
                "📘"
            } else if str_eq(e, "java") {
                "☕"
            } else if str_eq(e, "py") {
                "🐍"
            } else if str_eq(e, "js") {
                "🟡"
            } else if str_eq(e, "ts") {
                "🔷"
            } else if str_eq(e, "ipynb") {
                "📓"
            } else if str_eq(e, "xls") || str_eq(e, "xlsx") {
                "📊"
            } else if str_eq(e, "doc") || str_eq(e, "docx") {
                "📄"
            } else if str_eq(e, "ppt") || str_eq(e, "pptx") {
                "📽️"
            } else if str_eq(e, "json") {
                "🧾"
            } else if str_eq(e, "toml") {
                "⚙️"
            } else if str_eq(e, "yaml") || str_eq(e, "yml") {
                "📋"
            } else if str_eq(e, "md") {
                "📘"
            } else if str_eq(e, "txt") {
                "📄"
            } else if str_eq(e, "pdf") {
                "📕"
            } else if str_eq(e, "jpg") || str_eq(e, "jpeg") || str_eq(e, "png") || str_eq(e, "gif") {
                "🖼️"
            } else if str_eq(e, "mp4") || str_eq(e, "mkv") {
                "🎬"
            } else if str_eq(e, "mp3") || str_eq(e, "wav") {
                "🎵"
            } else if str_eq(e, "zip") || str_eq(e, "tar") || str_eq(e, "gz") || str_eq(e, "7z") {
                "📦"
            } else if str_eq(e, "exe") || str_eq(e, "bin") || str_eq(e, "sh") {
                "⚡"
            } else if str_eq(e, "html") || str_eq(e, "htm") {
                "🌐"
            } else if str_eq(e, "css") {
                "🎨"
            } else if str_eq(e, "scss") || str_eq(e, "sass") {
                "💅"
            } else {
                "📄"
            }
        },
    }
}

} // verus!

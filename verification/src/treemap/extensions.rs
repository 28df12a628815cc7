use vstd::prelude::*;

use crate::path::extension;
use crate::treemap::color::{ext_category, lower_char, lower_seq, path_category, FileCategory};

verus! {

// The extensions of each category, written out word by word, and the laws
// that tie `categorize` to them.

/// `e` is the lower-case word `w` with any of its ASCII letters written in
/// upper case instead.
pub open spec fn spelled_as(e: Seq<char>, w: Seq<char>) -> bool {
    &&& e.len() == w.len()
    &&& forall|k: int|
        0 <= k < e.len() ==> #[trigger] e[k] == w[k] || ('a' <= w[k] && w[k] <= 'z' && e[k] as int
            == w[k] as int - 32)
}

/// A word of lower-case ASCII letters and digits.
pub open spec fn is_lower_word(w: Seq<char>) -> bool {
    forall|k: int| 0 <= k < w.len() ==> ('a' <= #[trigger] w[k] && w[k] <= 'z') || ('0' <= w[k] && w[k] <= '9')
}

proof fn lemma_spelled_lower(e: Seq<char>, w: Seq<char>)
    requires
        spelled_as(e, w),
        is_lower_word(w),
    ensures
        lower_seq(e) == w,
{
    assert forall|k: int| 0 <= k < e.len() implies #[trigger] lower_char(e[k]) == w[k] by {
        assert(e[k] == w[k] || ('a' <= w[k] && w[k] <= 'z' && e[k] as int == w[k] as int - 32));
    }
    assert(lower_seq(e) =~= w);
}

/// Law: an extension spelled as one of txt, doc, docx, pdf, xls, xlsx, ppt, pptx, rtf, odt, in any letter
/// case, is in the Document category.
pub proof fn law_document_extensions(e: Seq<char>)
    requires
        spelled_as(e, "txt"@)
            || spelled_as(e, "doc"@)
            || spelled_as(e, "docx"@)
            || spelled_as(e, "pdf"@)
            || spelled_as(e, "xls"@)
            || spelled_as(e, "xlsx"@)
            || spelled_as(e, "ppt"@)
            || spelled_as(e, "pptx"@)
            || spelled_as(e, "rtf"@)
            || spelled_as(e, "odt"@),
    ensures
        ext_category(e) == FileCategory::Document,
{
    reveal_strlit("txt");
    reveal_strlit("doc");
    reveal_strlit("docx");
    reveal_strlit("pdf");
    reveal_strlit("xls");
    reveal_strlit("xlsx");
    reveal_strlit("ppt");
    reveal_strlit("pptx");
    reveal_strlit("rtf");
    reveal_strlit("odt");
    assert("txt"@ =~= seq!['t', 'x', 't']);
    assert("doc"@ =~= seq!['d', 'o', 'c']);
    assert("docx"@ =~= seq!['d', 'o', 'c', 'x']);
    assert("pdf"@ =~= seq!['p', 'd', 'f']);
    assert("xls"@ =~= seq!['x', 'l', 's']);
    assert("xlsx"@ =~= seq!['x', 'l', 's', 'x']);
    assert("ppt"@ =~= seq!['p', 'p', 't']);
    assert("pptx"@ =~= seq!['p', 'p', 't', 'x']);
    assert("rtf"@ =~= seq!['r', 't', 'f']);
    assert("odt"@ =~= seq!['o', 'd', 't']);
    assert(is_lower_word("txt"@));
    assert(is_lower_word("doc"@));
    assert(is_lower_word("docx"@));
    assert(is_lower_word("pdf"@));
    assert(is_lower_word("xls"@));
    assert(is_lower_word("xlsx"@));
    assert(is_lower_word("ppt"@));
    assert(is_lower_word("pptx"@));
    assert(is_lower_word("rtf"@));
    assert(is_lower_word("odt"@));
    if spelled_as(e, "txt"@) {
        lemma_spelled_lower(e, "txt"@);
    } else if spelled_as(e, "doc"@) {
        lemma_spelled_lower(e, "doc"@);
    } else if spelled_as(e, "docx"@) {
        lemma_spelled_lower(e, "docx"@);
    } else if spelled_as(e, "pdf"@) {
        lemma_spelled_lower(e, "pdf"@);
    } else if spelled_as(e, "xls"@) {
        lemma_spelled_lower(e, "xls"@);
    } else if spelled_as(e, "xlsx"@) {
        lemma_spelled_lower(e, "xlsx"@);
    } else if spelled_as(e, "ppt"@) {
        lemma_spelled_lower(e, "ppt"@);
    } else if spelled_as(e, "pptx"@) {
        lemma_spelled_lower(e, "pptx"@);
    } else if spelled_as(e, "rtf"@) {
        lemma_spelled_lower(e, "rtf"@);
    } else if spelled_as(e, "odt"@) {
        lemma_spelled_lower(e, "odt"@);
    }
}

/// Law: an extension spelled as one of jpg, jpeg, png, gif, bmp, svg, webp, ico, tiff, tif, raw, heic, in any letter
/// case, is in the Image category.
pub proof fn law_image_extensions(e: Seq<char>)
    requires
        spelled_as(e, "jpg"@)
            || spelled_as(e, "jpeg"@)
            || spelled_as(e, "png"@)
            || spelled_as(e, "gif"@)
            || spelled_as(e, "bmp"@)
            || spelled_as(e, "svg"@)
            || spelled_as(e, "webp"@)
            || spelled_as(e, "ico"@)
            || spelled_as(e, "tiff"@)
            || spelled_as(e, "tif"@)
            || spelled_as(e, "raw"@)
            || spelled_as(e, "heic"@),
    ensures
        ext_category(e) == FileCategory::Image,
{
    reveal_strlit("txt");
    reveal_strlit("doc");
    reveal_strlit("docx");
    reveal_strlit("pdf");
    reveal_strlit("xls");
    reveal_strlit("xlsx");
    reveal_strlit("ppt");
    reveal_strlit("pptx");
    reveal_strlit("rtf");
    reveal_strlit("odt");
    reveal_strlit("jpg");
    reveal_strlit("jpeg");
    reveal_strlit("png");
    reveal_strlit("gif");
    reveal_strlit("bmp");
    reveal_strlit("svg");
    reveal_strlit("webp");
    reveal_strlit("ico");
    reveal_strlit("tiff");
    reveal_strlit("tif");
    reveal_strlit("raw");
    reveal_strlit("heic");
    assert("txt"@ =~= seq!['t', 'x', 't']);
    assert("doc"@ =~= seq!['d', 'o', 'c']);
    assert("docx"@ =~= seq!['d', 'o', 'c', 'x']);
    assert("pdf"@ =~= seq!['p', 'd', 'f']);
    assert("xls"@ =~= seq!['x', 'l', 's']);
    assert("xlsx"@ =~= seq!['x', 'l', 's', 'x']);
    assert("ppt"@ =~= seq!['p', 'p', 't']);
    assert("pptx"@ =~= seq!['p', 'p', 't', 'x']);
    assert("rtf"@ =~= seq!['r', 't', 'f']);
    assert("odt"@ =~= seq!['o', 'd', 't']);
    assert("jpg"@ =~= seq!['j', 'p', 'g']);
    assert("jpeg"@ =~= seq!['j', 'p', 'e', 'g']);
    assert("png"@ =~= seq!['p', 'n', 'g']);
    assert("gif"@ =~= seq!['g', 'i', 'f']);
    assert("bmp"@ =~= seq!['b', 'm', 'p']);
    assert("svg"@ =~= seq!['s', 'v', 'g']);
    assert("webp"@ =~= seq!['w', 'e', 'b', 'p']);
    assert("ico"@ =~= seq!['i', 'c', 'o']);
    assert("tiff"@ =~= seq!['t', 'i', 'f', 'f']);
    assert("tif"@ =~= seq!['t', 'i', 'f']);
    assert("raw"@ =~= seq!['r', 'a', 'w']);
    assert("heic"@ =~= seq!['h', 'e', 'i', 'c']);
    assert(is_lower_word("jpg"@));
    assert(is_lower_word("jpeg"@));
    assert(is_lower_word("png"@));
    assert(is_lower_word("gif"@));
    assert(is_lower_word("bmp"@));
    assert(is_lower_word("svg"@));
    assert(is_lower_word("webp"@));
    assert(is_lower_word("ico"@));
    assert(is_lower_word("tiff"@));
    assert(is_lower_word("tif"@));
    assert(is_lower_word("raw"@));
    assert(is_lower_word("heic"@));
    if spelled_as(e, "jpg"@) {
        lemma_spelled_lower(e, "jpg"@);
    } else if spelled_as(e, "jpeg"@) {
        lemma_spelled_lower(e, "jpeg"@);
    } else if spelled_as(e, "png"@) {
        lemma_spelled_lower(e, "png"@);
    } else if spelled_as(e, "gif"@) {
        lemma_spelled_lower(e, "gif"@);
    } else if spelled_as(e, "bmp"@) {
        lemma_spelled_lower(e, "bmp"@);
    } else if spelled_as(e, "svg"@) {
        lemma_spelled_lower(e, "svg"@);
    } else if spelled_as(e, "webp"@) {
        lemma_spelled_lower(e, "webp"@);
    } else if spelled_as(e, "ico"@) {
        lemma_spelled_lower(e, "ico"@);
    } else if spelled_as(e, "tiff"@) {
        lemma_spelled_lower(e, "tiff"@);
    } else if spelled_as(e, "tif"@) {
        lemma_spelled_lower(e, "tif"@);
    } else if spelled_as(e, "raw"@) {
        lemma_spelled_lower(e, "raw"@);
    } else if spelled_as(e, "heic"@) {
        lemma_spelled_lower(e, "heic"@);
    }
}

/// Law: an extension spelled as one of mp4, avi, mkv, mov, wmv, flv, webm, m4v, mpg, mpeg, in any letter
/// case, is in the Video category.
pub proof fn law_video_extensions(e: Seq<char>)
    requires
        spelled_as(e, "mp4"@)
            || spelled_as(e, "avi"@)
            || spelled_as(e, "mkv"@)
            || spelled_as(e, "mov"@)
            || spelled_as(e, "wmv"@)
            || spelled_as(e, "flv"@)
            || spelled_as(e, "webm"@)
            || spelled_as(e, "m4v"@)
            || spelled_as(e, "mpg"@)
            || spelled_as(e, "mpeg"@),
    ensures
        ext_category(e) == FileCategory::Video,
{
    reveal_strlit("txt");
    reveal_strlit("doc");
    reveal_strlit("docx");
    reveal_strlit("pdf");
    reveal_strlit("xls");
    reveal_strlit("xlsx");
    reveal_strlit("ppt");
    reveal_strlit("pptx");
    reveal_strlit("rtf");
    reveal_strlit("odt");
    reveal_strlit("jpg");
    reveal_strlit("jpeg");
    reveal_strlit("png");
    reveal_strlit("gif");
    reveal_strlit("bmp");
    reveal_strlit("svg");
    reveal_strlit("webp");
    reveal_strlit("ico");
    reveal_strlit("tiff");
    reveal_strlit("tif");
    reveal_strlit("raw");
    reveal_strlit("heic");
    reveal_strlit("mp4");
    reveal_strlit("avi");
    reveal_strlit("mkv");
    reveal_strlit("mov");
    reveal_strlit("wmv");
    reveal_strlit("flv");
    reveal_strlit("webm");
    reveal_strlit("m4v");
    reveal_strlit("mpg");
    reveal_strlit("mpeg");
    assert("txt"@ =~= seq!['t', 'x', 't']);
    assert("doc"@ =~= seq!['d', 'o', 'c']);
    assert("docx"@ =~= seq!['d', 'o', 'c', 'x']);
    assert("pdf"@ =~= seq!['p', 'd', 'f']);
    assert("xls"@ =~= seq!['x', 'l', 's']);
    assert("xlsx"@ =~= seq!['x', 'l', 's', 'x']);
    assert("ppt"@ =~= seq!['p', 'p', 't']);
    assert("pptx"@ =~= seq!['p', 'p', 't', 'x']);
    assert("rtf"@ =~= seq!['r', 't', 'f']);
    assert("odt"@ =~= seq!['o', 'd', 't']);
    assert("jpg"@ =~= seq!['j', 'p', 'g']);
    assert("jpeg"@ =~= seq!['j', 'p', 'e', 'g']);
    assert("png"@ =~= seq!['p', 'n', 'g']);
    assert("gif"@ =~= seq!['g', 'i', 'f']);
    assert("bmp"@ =~= seq!['b', 'm', 'p']);
    assert("svg"@ =~= seq!['s', 'v', 'g']);
    assert("webp"@ =~= seq!['w', 'e', 'b', 'p']);
    assert("ico"@ =~= seq!['i', 'c', 'o']);
    assert("tiff"@ =~= seq!['t', 'i', 'f', 'f']);
    assert("tif"@ =~= seq!['t', 'i', 'f']);
    assert("raw"@ =~= seq!['r', 'a', 'w']);
    assert("heic"@ =~= seq!['h', 'e', 'i', 'c']);
    assert("mp4"@ =~= seq!['m', 'p', '4']);
    assert("avi"@ =~= seq!['a', 'v', 'i']);
    assert("mkv"@ =~= seq!['m', 'k', 'v']);
    assert("mov"@ =~= seq!['m', 'o', 'v']);
    assert("wmv"@ =~= seq!['w', 'm', 'v']);
    assert("flv"@ =~= seq!['f', 'l', 'v']);
    assert("webm"@ =~= seq!['w', 'e', 'b', 'm']);
    assert("m4v"@ =~= seq!['m', '4', 'v']);
    assert("mpg"@ =~= seq!['m', 'p', 'g']);
    assert("mpeg"@ =~= seq!['m', 'p', 'e', 'g']);
    assert(is_lower_word("mp4"@));
    assert(is_lower_word("avi"@));
    assert(is_lower_word("mkv"@));
    assert(is_lower_word("mov"@));
    assert(is_lower_word("wmv"@));
    assert(is_lower_word("flv"@));
    assert(is_lower_word("webm"@));
    assert(is_lower_word("m4v"@));
    assert(is_lower_word("mpg"@));
    assert(is_lower_word("mpeg"@));
    if spelled_as(e, "mp4"@) {
        lemma_spelled_lower(e, "mp4"@);
    } else if spelled_as(e, "avi"@) {
        lemma_spelled_lower(e, "avi"@);
    } else if spelled_as(e, "mkv"@) {
        lemma_spelled_lower(e, "mkv"@);
    } else if spelled_as(e, "mov"@) {
        lemma_spelled_lower(e, "mov"@);
    } else if spelled_as(e, "wmv"@) {
        lemma_spelled_lower(e, "wmv"@);
    } else if spelled_as(e, "flv"@) {
        lemma_spelled_lower(e, "flv"@);
    } else if spelled_as(e, "webm"@) {
        lemma_spelled_lower(e, "webm"@);
    } else if spelled_as(e, "m4v"@) {
        lemma_spelled_lower(e, "m4v"@);
    } else if spelled_as(e, "mpg"@) {
        lemma_spelled_lower(e, "mpg"@);
    } else if spelled_as(e, "mpeg"@) {
        lemma_spelled_lower(e, "mpeg"@);
    }
}

/// Law: an extension spelled as one of mp3, wav, flac, aac, ogg, wma, m4a, opus, ape, in any letter
/// case, is in the Audio category.
pub proof fn law_audio_extensions(e: Seq<char>)
    requires
        spelled_as(e, "mp3"@)
            || spelled_as(e, "wav"@)
            || spelled_as(e, "flac"@)
            || spelled_as(e, "aac"@)
            || spelled_as(e, "ogg"@)
            || spelled_as(e, "wma"@)
            || spelled_as(e, "m4a"@)
            || spelled_as(e, "opus"@)
            || spelled_as(e, "ape"@),
    ensures
        ext_category(e) == FileCategory::Audio,
{
    reveal_strlit("txt");
    reveal_strlit("doc");
    reveal_strlit("docx");
    reveal_strlit("pdf");
    reveal_strlit("xls");
    reveal_strlit("xlsx");
    reveal_strlit("ppt");
    reveal_strlit("pptx");
    reveal_strlit("rtf");
    reveal_strlit("odt");
    reveal_strlit("jpg");
    reveal_strlit("jpeg");
    reveal_strlit("png");
    reveal_strlit("gif");
    reveal_strlit("bmp");
    reveal_strlit("svg");
    reveal_strlit("webp");
    reveal_strlit("ico");
    reveal_strlit("tiff");
    reveal_strlit("tif");
    reveal_strlit("raw");
    reveal_strlit("heic");
    reveal_strlit("mp4");
    reveal_strlit("avi");
    reveal_strlit("mkv");
    reveal_strlit("mov");
    reveal_strlit("wmv");
    reveal_strlit("flv");
    reveal_strlit("webm");
    reveal_strlit("m4v");
    reveal_strlit("mpg");
    reveal_strlit("mpeg");
    reveal_strlit("mp3");
    reveal_strlit("wav");
    reveal_strlit("flac");
    reveal_strlit("aac");
    reveal_strlit("ogg");
    reveal_strlit("wma");
    reveal_strlit("m4a");
    reveal_strlit("opus");
    reveal_strlit("ape");
    assert("txt"@ =~= seq!['t', 'x', 't']);
    assert("doc"@ =~= seq!['d', 'o', 'c']);
    assert("docx"@ =~= seq!['d', 'o', 'c', 'x']);
    assert("pdf"@ =~= seq!['p', 'd', 'f']);
    assert("xls"@ =~= seq!['x', 'l', 's']);
    assert("xlsx"@ =~= seq!['x', 'l', 's', 'x']);
    assert("ppt"@ =~= seq!['p', 'p', 't']);
    assert("pptx"@ =~= seq!['p', 'p', 't', 'x']);
    assert("rtf"@ =~= seq!['r', 't', 'f']);
    assert("odt"@ =~= seq!['o', 'd', 't']);
    assert("jpg"@ =~= seq!['j', 'p', 'g']);
    assert("jpeg"@ =~= seq!['j', 'p', 'e', 'g']);
    assert("png"@ =~= seq!['p', 'n', 'g']);
    assert("gif"@ =~= seq!['g', 'i', 'f']);
    assert("bmp"@ =~= seq!['b', 'm', 'p']);
    assert("svg"@ =~= seq!['s', 'v', 'g']);
    assert("webp"@ =~= seq!['w', 'e', 'b', 'p']);
    assert("ico"@ =~= seq!['i', 'c', 'o']);
    assert("tiff"@ =~= seq!['t', 'i', 'f', 'f']);
    assert("tif"@ =~= seq!['t', 'i', 'f']);
    assert("raw"@ =~= seq!['r', 'a', 'w']);
    assert("heic"@ =~= seq!['h', 'e', 'i', 'c']);
    assert("mp4"@ =~= seq!['m', 'p', '4']);
    assert("avi"@ =~= seq!['a', 'v', 'i']);
    assert("mkv"@ =~= seq!['m', 'k', 'v']);
    assert("mov"@ =~= seq!['m', 'o', 'v']);
    assert("wmv"@ =~= seq!['w', 'm', 'v']);
    assert("flv"@ =~= seq!['f', 'l', 'v']);
    assert("webm"@ =~= seq!['w', 'e', 'b', 'm']);
    assert("m4v"@ =~= seq!['m', '4', 'v']);
    assert("mpg"@ =~= seq!['m', 'p', 'g']);
    assert("mpeg"@ =~= seq!['m', 'p', 'e', 'g']);
    assert("mp3"@ =~= seq!['m', 'p', '3']);
    assert("wav"@ =~= seq!['w', 'a', 'v']);
    assert("flac"@ =~= seq!['f', 'l', 'a', 'c']);
    assert("aac"@ =~= seq!['a', 'a', 'c']);
    assert("ogg"@ =~= seq!['o', 'g', 'g']);
    assert("wma"@ =~= seq!['w', 'm', 'a']);
    assert("m4a"@ =~= seq!['m', '4', 'a']);
    assert("opus"@ =~= seq!['o', 'p', 'u', 's']);
    assert("ape"@ =~= seq!['a', 'p', 'e']);
    assert(is_lower_word("mp3"@));
    assert(is_lower_word("wav"@));
    assert(is_lower_word("flac"@));
    assert(is_lower_word("aac"@));
    assert(is_lower_word("ogg"@));
    assert(is_lower_word("wma"@));
    assert(is_lower_word("m4a"@));
    assert(is_lower_word("opus"@));
    assert(is_lower_word("ape"@));
    if spelled_as(e, "mp3"@) {
        lemma_spelled_lower(e, "mp3"@);
    } else if spelled_as(e, "wav"@) {
        lemma_spelled_lower(e, "wav"@);
    } else if spelled_as(e, "flac"@) {
        lemma_spelled_lower(e, "flac"@);
    } else if spelled_as(e, "aac"@) {
        lemma_spelled_lower(e, "aac"@);
    } else if spelled_as(e, "ogg"@) {
        lemma_spelled_lower(e, "ogg"@);
    } else if spelled_as(e, "wma"@) {
        lemma_spelled_lower(e, "wma"@);
    } else if spelled_as(e, "m4a"@) {
        lemma_spelled_lower(e, "m4a"@);
    } else if spelled_as(e, "opus"@) {
        lemma_spelled_lower(e, "opus"@);
    } else if spelled_as(e, "ape"@) {
        lemma_spelled_lower(e, "ape"@);
    }
}

/// Law: an extension spelled as one of zip, rar, 7z, tar, gz, bz2, xz, lz, cab, iso, in any letter
/// case, is in the Archive category.
pub proof fn law_archive_extensions(e: Seq<char>)
    requires
        spelled_as(e, "zip"@)
            || spelled_as(e, "rar"@)
            || spelled_as(e, "7z"@)
            || spelled_as(e, "tar"@)
            || spelled_as(e, "gz"@)
            || spelled_as(e, "bz2"@)
            || spelled_as(e, "xz"@)
            || spelled_as(e, "lz"@)
            || spelled_as(e, "cab"@)
            || spelled_as(e, "iso"@),
    ensures
        ext_category(e) == FileCategory::Archive,
{
    reveal_strlit("txt");
    reveal_strlit("doc");
    reveal_strlit("docx");
    reveal_strlit("pdf");
    reveal_strlit("xls");
    reveal_strlit("xlsx");
    reveal_strlit("ppt");
    reveal_strlit("pptx");
    reveal_strlit("rtf");
    reveal_strlit("odt");
    reveal_strlit("jpg");
    reveal_strlit("jpeg");
    reveal_strlit("png");
    reveal_strlit("gif");
    reveal_strlit("bmp");
    reveal_strlit("svg");
    reveal_strlit("webp");
    reveal_strlit("ico");
    reveal_strlit("tiff");
    reveal_strlit("tif");
    reveal_strlit("raw");
    reveal_strlit("heic");
    reveal_strlit("mp4");
    reveal_strlit("avi");
    reveal_strlit("mkv");
    reveal_strlit("mov");
    reveal_strlit("wmv");
    reveal_strlit("flv");
    reveal_strlit("webm");
    reveal_strlit("m4v");
    reveal_strlit("mpg");
    reveal_strlit("mpeg");
    reveal_strlit("mp3");
    reveal_strlit("wav");
    reveal_strlit("flac");
    reveal_strlit("aac");
    reveal_strlit("ogg");
    reveal_strlit("wma");
    reveal_strlit("m4a");
    reveal_strlit("opus");
    reveal_strlit("ape");
    reveal_strlit("zip");
    reveal_strlit("rar");
    reveal_strlit("7z");
    reveal_strlit("tar");
    reveal_strlit("gz");
    reveal_strlit("bz2");
    reveal_strlit("xz");
    reveal_strlit("lz");
    reveal_strlit("cab");
    reveal_strlit("iso");
    assert("txt"@ =~= seq!['t', 'x', 't']);
    assert("doc"@ =~= seq!['d', 'o', 'c']);
    assert("docx"@ =~= seq!['d', 'o', 'c', 'x']);
    assert("pdf"@ =~= seq!['p', 'd', 'f']);
    assert("xls"@ =~= seq!['x', 'l', 's']);
    assert("xlsx"@ =~= seq!['x', 'l', 's', 'x']);
    assert("ppt"@ =~= seq!['p', 'p', 't']);
    assert("pptx"@ =~= seq!['p', 'p', 't', 'x']);
    assert("rtf"@ =~= seq!['r', 't', 'f']);
    assert("odt"@ =~= seq!['o', 'd', 't']);
    assert("jpg"@ =~= seq!['j', 'p', 'g']);
    assert("jpeg"@ =~= seq!['j', 'p', 'e', 'g']);
    assert("png"@ =~= seq!['p', 'n', 'g']);
    assert("gif"@ =~= seq!['g', 'i', 'f']);
    assert("bmp"@ =~= seq!['b', 'm', 'p']);
    assert("svg"@ =~= seq!['s', 'v', 'g']);
    assert("webp"@ =~= seq!['w', 'e', 'b', 'p']);
    assert("ico"@ =~= seq!['i', 'c', 'o']);
    assert("tiff"@ =~= seq!['t', 'i', 'f', 'f']);
    assert("tif"@ =~= seq!['t', 'i', 'f']);
    assert("raw"@ =~= seq!['r', 'a', 'w']);
    assert("heic"@ =~= seq!['h', 'e', 'i', 'c']);
    assert("mp4"@ =~= seq!['m', 'p', '4']);
    assert("avi"@ =~= seq!['a', 'v', 'i']);
    assert("mkv"@ =~= seq!['m', 'k', 'v']);
    assert("mov"@ =~= seq!['m', 'o', 'v']);
    assert("wmv"@ =~= seq!['w', 'm', 'v']);
    assert("flv"@ =~= seq!['f', 'l', 'v']);
    assert("webm"@ =~= seq!['w', 'e', 'b', 'm']);
    assert("m4v"@ =~= seq!['m', '4', 'v']);
    assert("mpg"@ =~= seq!['m', 'p', 'g']);
    assert("mpeg"@ =~= seq!['m', 'p', 'e', 'g']);
    assert("mp3"@ =~= seq!['m', 'p', '3']);
    assert("wav"@ =~= seq!['w', 'a', 'v']);
    assert("flac"@ =~= seq!['f', 'l', 'a', 'c']);
    assert("aac"@ =~= seq!['a', 'a', 'c']);
    assert("ogg"@ =~= seq!['o', 'g', 'g']);
    assert("wma"@ =~= seq!['w', 'm', 'a']);
    assert("m4a"@ =~= seq!['m', '4', 'a']);
    assert("opus"@ =~= seq!['o', 'p', 'u', 's']);
    assert("ape"@ =~= seq!['a', 'p', 'e']);
    assert("zip"@ =~= seq!['z', 'i', 'p']);
    assert("rar"@ =~= seq!['r', 'a', 'r']);
    assert("7z"@ =~= seq!['7', 'z']);
    assert("tar"@ =~= seq!['t', 'a', 'r']);
    assert("gz"@ =~= seq!['g', 'z']);
    assert("bz2"@ =~= seq!['b', 'z', '2']);
    assert("xz"@ =~= seq!['x', 'z']);
    assert("lz"@ =~= seq!['l', 'z']);
    assert("cab"@ =~= seq!['c', 'a', 'b']);
    assert("iso"@ =~= seq!['i', 's', 'o']);
    assert(is_lower_word("zip"@));
    assert(is_lower_word("rar"@));
    assert(is_lower_word("7z"@));
    assert(is_lower_word("tar"@));
    assert(is_lower_word("gz"@));
    assert(is_lower_word("bz2"@));
    assert(is_lower_word("xz"@));
    assert(is_lower_word("lz"@));
    assert(is_lower_word("cab"@));
    assert(is_lower_word("iso"@));
    if spelled_as(e, "zip"@) {
        lemma_spelled_lower(e, "zip"@);
    } else if spelled_as(e, "rar"@) {
        lemma_spelled_lower(e, "rar"@);
    } else if spelled_as(e, "7z"@) {
        lemma_spelled_lower(e, "7z"@);
    } else if spelled_as(e, "tar"@) {
        lemma_spelled_lower(e, "tar"@);
    } else if spelled_as(e, "gz"@) {
        lemma_spelled_lower(e, "gz"@);
    } else if spelled_as(e, "bz2"@) {
        lemma_spelled_lower(e, "bz2"@);
    } else if spelled_as(e, "xz"@) {
        lemma_spelled_lower(e, "xz"@);
    } else if spelled_as(e, "lz"@) {
        lemma_spelled_lower(e, "lz"@);
    } else if spelled_as(e, "cab"@) {
        lemma_spelled_lower(e, "cab"@);
    } else if spelled_as(e, "iso"@) {
        lemma_spelled_lower(e, "iso"@);
    }
}

/// Law: an extension spelled as one of rs, py, js, ts, java, c, cpp, h, hpp, go, rb, php, swift, kt, scala, html, css, xml, json, yaml, yml, toml, sql, sh, bat, ps1, in any letter
/// case, is in the Code category.
pub proof fn law_code_extensions(e: Seq<char>)
    requires
        spelled_as(e, "rs"@)
            || spelled_as(e, "py"@)
            || spelled_as(e, "js"@)
            || spelled_as(e, "ts"@)
            || spelled_as(e, "java"@)
            || spelled_as(e, "c"@)
            || spelled_as(e, "cpp"@)
            || spelled_as(e, "h"@)
            || spelled_as(e, "hpp"@)
            || spelled_as(e, "go"@)
            || spelled_as(e, "rb"@)
            || spelled_as(e, "php"@)
            || spelled_as(e, "swift"@)
            || spelled_as(e, "kt"@)
            || spelled_as(e, "scala"@)
            || spelled_as(e, "html"@)
            || spelled_as(e, "css"@)
            || spelled_as(e, "xml"@)
            || spelled_as(e, "json"@)
            || spelled_as(e, "yaml"@)
            || spelled_as(e, "yml"@)
            || spelled_as(e, "toml"@)
            || spelled_as(e, "sql"@)
            || spelled_as(e, "sh"@)
            || spelled_as(e, "bat"@)
            || spelled_as(e, "ps1"@),
    ensures
        ext_category(e) == FileCategory::Code,
{
    reveal_strlit("txt");
    reveal_strlit("doc");
    reveal_strlit("docx");
    reveal_strlit("pdf");
    reveal_strlit("xls");
    reveal_strlit("xlsx");
    reveal_strlit("ppt");
    reveal_strlit("pptx");
    reveal_strlit("rtf");
    reveal_strlit("odt");
    reveal_strlit("jpg");
    reveal_strlit("jpeg");
    reveal_strlit("png");
    reveal_strlit("gif");
    reveal_strlit("bmp");
    reveal_strlit("svg");
    reveal_strlit("webp");
    reveal_strlit("ico");
    reveal_strlit("tiff");
    reveal_strlit("tif");
    reveal_strlit("raw");
    reveal_strlit("heic");
    reveal_strlit("mp4");
    reveal_strlit("avi");
    reveal_strlit("mkv");
    reveal_strlit("mov");
    reveal_strlit("wmv");
    reveal_strlit("flv");
    reveal_strlit("webm");
    reveal_strlit("m4v");
    reveal_strlit("mpg");
    reveal_strlit("mpeg");
    reveal_strlit("mp3");
    reveal_strlit("wav");
    reveal_strlit("flac");
    reveal_strlit("aac");
    reveal_strlit("ogg");
    reveal_strlit("wma");
    reveal_strlit("m4a");
    reveal_strlit("opus");
    reveal_strlit("ape");
    reveal_strlit("zip");
    reveal_strlit("rar");
    reveal_strlit("7z");
    reveal_strlit("tar");
    reveal_strlit("gz");
    reveal_strlit("bz2");
    reveal_strlit("xz");
    reveal_strlit("lz");
    reveal_strlit("cab");
    reveal_strlit("iso");
    reveal_strlit("rs");
    reveal_strlit("py");
    reveal_strlit("js");
    reveal_strlit("ts");
    reveal_strlit("java");
    reveal_strlit("c");
    reveal_strlit("cpp");
    reveal_strlit("h");
    reveal_strlit("hpp");
    reveal_strlit("go");
    reveal_strlit("rb");
    reveal_strlit("php");
    reveal_strlit("swift");
    reveal_strlit("kt");
    reveal_strlit("scala");
    reveal_strlit("html");
    reveal_strlit("css");
    reveal_strlit("xml");
    reveal_strlit("json");
    reveal_strlit("yaml");
    reveal_strlit("yml");
    reveal_strlit("toml");
    reveal_strlit("sql");
    reveal_strlit("sh");
    reveal_strlit("bat");
    reveal_strlit("ps1");
    assert("txt"@ =~= seq!['t', 'x', 't']);
    assert("doc"@ =~= seq!['d', 'o', 'c']);
    assert("docx"@ =~= seq!['d', 'o', 'c', 'x']);
    assert("pdf"@ =~= seq!['p', 'd', 'f']);
    assert("xls"@ =~= seq!['x', 'l', 's']);
    assert("xlsx"@ =~= seq!['x', 'l', 's', 'x']);
    assert("ppt"@ =~= seq!['p', 'p', 't']);
    assert("pptx"@ =~= seq!['p', 'p', 't', 'x']);
    assert("rtf"@ =~= seq!['r', 't', 'f']);
    assert("odt"@ =~= seq!['o', 'd', 't']);
    assert("jpg"@ =~= seq!['j', 'p', 'g']);
    assert("jpeg"@ =~= seq!['j', 'p', 'e', 'g']);
    assert("png"@ =~= seq!['p', 'n', 'g']);
    assert("gif"@ =~= seq!['g', 'i', 'f']);
    assert("bmp"@ =~= seq!['b', 'm', 'p']);
    assert("svg"@ =~= seq!['s', 'v', 'g']);
    assert("webp"@ =~= seq!['w', 'e', 'b', 'p']);
    assert("ico"@ =~= seq!['i', 'c', 'o']);
    assert("tiff"@ =~= seq!['t', 'i', 'f', 'f']);
    assert("tif"@ =~= seq!['t', 'i', 'f']);
    assert("raw"@ =~= seq!['r', 'a', 'w']);
    assert("heic"@ =~= seq!['h', 'e', 'i', 'c']);
    assert("mp4"@ =~= seq!['m', 'p', '4']);
    assert("avi"@ =~= seq!['a', 'v', 'i']);
    assert("mkv"@ =~= seq!['m', 'k', 'v']);
    assert("mov"@ =~= seq!['m', 'o', 'v']);
    assert("wmv"@ =~= seq!['w', 'm', 'v']);
    assert("flv"@ =~= seq!['f', 'l', 'v']);
    assert("webm"@ =~= seq!['w', 'e', 'b', 'm']);
    assert("m4v"@ =~= seq!['m', '4', 'v']);
    assert("mpg"@ =~= seq!['m', 'p', 'g']);
    assert("mpeg"@ =~= seq!['m', 'p', 'e', 'g']);
    assert("mp3"@ =~= seq!['m', 'p', '3']);
    assert("wav"@ =~= seq!['w', 'a', 'v']);
    assert("flac"@ =~= seq!['f', 'l', 'a', 'c']);
    assert("aac"@ =~= seq!['a', 'a', 'c']);
    assert("ogg"@ =~= seq!['o', 'g', 'g']);
    assert("wma"@ =~= seq!['w', 'm', 'a']);
    assert("m4a"@ =~= seq!['m', '4', 'a']);
    assert("opus"@ =~= seq!['o', 'p', 'u', 's']);
    assert("ape"@ =~= seq!['a', 'p', 'e']);
    assert("zip"@ =~= seq!['z', 'i', 'p']);
    assert("rar"@ =~= seq!['r', 'a', 'r']);
    assert("7z"@ =~= seq!['7', 'z']);
    assert("tar"@ =~= seq!['t', 'a', 'r']);
    assert("gz"@ =~= seq!['g', 'z']);
    assert("bz2"@ =~= seq!['b', 'z', '2']);
    assert("xz"@ =~= seq!['x', 'z']);
    assert("lz"@ =~= seq!['l', 'z']);
    assert("cab"@ =~= seq!['c', 'a', 'b']);
    assert("iso"@ =~= seq!['i', 's', 'o']);
    assert("rs"@ =~= seq!['r', 's']);
    assert("py"@ =~= seq!['p', 'y']);
    assert("js"@ =~= seq!['j', 's']);
    assert("ts"@ =~= seq!['t', 's']);
    assert("java"@ =~= seq!['j', 'a', 'v', 'a']);
    assert("c"@ =~= seq!['c']);
    assert("cpp"@ =~= seq!['c', 'p', 'p']);
    assert("h"@ =~= seq!['h']);
    assert("hpp"@ =~= seq!['h', 'p', 'p']);
    assert("go"@ =~= seq!['g', 'o']);
    assert("rb"@ =~= seq!['r', 'b']);
    assert("php"@ =~= seq!['p', 'h', 'p']);
    assert("swift"@ =~= seq!['s', 'w', 'i', 'f', 't']);
    assert("kt"@ =~= seq!['k', 't']);
    assert("scala"@ =~= seq!['s', 'c', 'a', 'l', 'a']);
    assert("html"@ =~= seq!['h', 't', 'm', 'l']);
    assert("css"@ =~= seq!['c', 's', 's']);
    assert("xml"@ =~= seq!['x', 'm', 'l']);
    assert("json"@ =~= seq!['j', 's', 'o', 'n']);
    assert("yaml"@ =~= seq!['y', 'a', 'm', 'l']);
    assert("yml"@ =~= seq!['y', 'm', 'l']);
    assert("toml"@ =~= seq!['t', 'o', 'm', 'l']);
    assert("sql"@ =~= seq!['s', 'q', 'l']);
    assert("sh"@ =~= seq!['s', 'h']);
    assert("bat"@ =~= seq!['b', 'a', 't']);
    assert("ps1"@ =~= seq!['p', 's', '1']);
    assert(is_lower_word("rs"@));
    assert(is_lower_word("py"@));
    assert(is_lower_word("js"@));
    assert(is_lower_word("ts"@));
    assert(is_lower_word("java"@));
    assert(is_lower_word("c"@));
    assert(is_lower_word("cpp"@));
    assert(is_lower_word("h"@));
    assert(is_lower_word("hpp"@));
    assert(is_lower_word("go"@));
    assert(is_lower_word("rb"@));
    assert(is_lower_word("php"@));
    assert(is_lower_word("swift"@));
    assert(is_lower_word("kt"@));
    assert(is_lower_word("scala"@));
    assert(is_lower_word("html"@));
    assert(is_lower_word("css"@));
    assert(is_lower_word("xml"@));
    assert(is_lower_word("json"@));
    assert(is_lower_word("yaml"@));
    assert(is_lower_word("yml"@));
    assert(is_lower_word("toml"@));
    assert(is_lower_word("sql"@));
    assert(is_lower_word("sh"@));
    assert(is_lower_word("bat"@));
    assert(is_lower_word("ps1"@));
    if spelled_as(e, "rs"@) {
        lemma_spelled_lower(e, "rs"@);
    } else if spelled_as(e, "py"@) {
        lemma_spelled_lower(e, "py"@);
    } else if spelled_as(e, "js"@) {
        lemma_spelled_lower(e, "js"@);
    } else if spelled_as(e, "ts"@) {
        lemma_spelled_lower(e, "ts"@);
    } else if spelled_as(e, "java"@) {
        lemma_spelled_lower(e, "java"@);
    } else if spelled_as(e, "c"@) {
        lemma_spelled_lower(e, "c"@);
    } else if spelled_as(e, "cpp"@) {
        lemma_spelled_lower(e, "cpp"@);
    } else if spelled_as(e, "h"@) {
        lemma_spelled_lower(e, "h"@);
    } else if spelled_as(e, "hpp"@) {
        lemma_spelled_lower(e, "hpp"@);
    } else if spelled_as(e, "go"@) {
        lemma_spelled_lower(e, "go"@);
    } else if spelled_as(e, "rb"@) {
        lemma_spelled_lower(e, "rb"@);
    } else if spelled_as(e, "php"@) {
        lemma_spelled_lower(e, "php"@);
    } else if spelled_as(e, "swift"@) {
        lemma_spelled_lower(e, "swift"@);
    } else if spelled_as(e, "kt"@) {
        lemma_spelled_lower(e, "kt"@);
    } else if spelled_as(e, "scala"@) {
        lemma_spelled_lower(e, "scala"@);
    } else if spelled_as(e, "html"@) {
        lemma_spelled_lower(e, "html"@);
    } else if spelled_as(e, "css"@) {
        lemma_spelled_lower(e, "css"@);
    } else if spelled_as(e, "xml"@) {
        lemma_spelled_lower(e, "xml"@);
    } else if spelled_as(e, "json"@) {
        lemma_spelled_lower(e, "json"@);
    } else if spelled_as(e, "yaml"@) {
        lemma_spelled_lower(e, "yaml"@);
    } else if spelled_as(e, "yml"@) {
        lemma_spelled_lower(e, "yml"@);
    } else if spelled_as(e, "toml"@) {
        lemma_spelled_lower(e, "toml"@);
    } else if spelled_as(e, "sql"@) {
        lemma_spelled_lower(e, "sql"@);
    } else if spelled_as(e, "sh"@) {
        lemma_spelled_lower(e, "sh"@);
    } else if spelled_as(e, "bat"@) {
        lemma_spelled_lower(e, "bat"@);
    } else if spelled_as(e, "ps1"@) {
        lemma_spelled_lower(e, "ps1"@);
    }
}

/// Law: an extension spelled as one of exe, msi, com, scr, in any letter
/// case, is in the Executable category.
pub proof fn law_executable_extensions(e: Seq<char>)
    requires
        spelled_as(e, "exe"@)
            || spelled_as(e, "msi"@)
            || spelled_as(e, "com"@)
            || spelled_as(e, "scr"@),
    ensures
        ext_category(e) == FileCategory::Executable,
{
    reveal_strlit("txt");
    reveal_strlit("doc");
    reveal_strlit("docx");
    reveal_strlit("pdf");
    reveal_strlit("xls");
    reveal_strlit("xlsx");
    reveal_strlit("ppt");
    reveal_strlit("pptx");
    reveal_strlit("rtf");
    reveal_strlit("odt");
    reveal_strlit("jpg");
    reveal_strlit("jpeg");
    reveal_strlit("png");
    reveal_strlit("gif");
    reveal_strlit("bmp");
    reveal_strlit("svg");
    reveal_strlit("webp");
    reveal_strlit("ico");
    reveal_strlit("tiff");
    reveal_strlit("tif");
    reveal_strlit("raw");
    reveal_strlit("heic");
    reveal_strlit("mp4");
    reveal_strlit("avi");
    reveal_strlit("mkv");
    reveal_strlit("mov");
    reveal_strlit("wmv");
    reveal_strlit("flv");
    reveal_strlit("webm");
    reveal_strlit("m4v");
    reveal_strlit("mpg");
    reveal_strlit("mpeg");
    reveal_strlit("mp3");
    reveal_strlit("wav");
    reveal_strlit("flac");
    reveal_strlit("aac");
    reveal_strlit("ogg");
    reveal_strlit("wma");
    reveal_strlit("m4a");
    reveal_strlit("opus");
    reveal_strlit("ape");
    reveal_strlit("zip");
    reveal_strlit("rar");
    reveal_strlit("7z");
    reveal_strlit("tar");
    reveal_strlit("gz");
    reveal_strlit("bz2");
    reveal_strlit("xz");
    reveal_strlit("lz");
    reveal_strlit("cab");
    reveal_strlit("iso");
    reveal_strlit("rs");
    reveal_strlit("py");
    reveal_strlit("js");
    reveal_strlit("ts");
    reveal_strlit("java");
    reveal_strlit("c");
    reveal_strlit("cpp");
    reveal_strlit("h");
    reveal_strlit("hpp");
    reveal_strlit("go");
    reveal_strlit("rb");
    reveal_strlit("php");
    reveal_strlit("swift");
    reveal_strlit("kt");
    reveal_strlit("scala");
    reveal_strlit("html");
    reveal_strlit("css");
    reveal_strlit("xml");
    reveal_strlit("json");
    reveal_strlit("yaml");
    reveal_strlit("yml");
    reveal_strlit("toml");
    reveal_strlit("sql");
    reveal_strlit("sh");
    reveal_strlit("bat");
    reveal_strlit("ps1");
    reveal_strlit("exe");
    reveal_strlit("msi");
    reveal_strlit("com");
    reveal_strlit("scr");
    assert("txt"@ =~= seq!['t', 'x', 't']);
    assert("doc"@ =~= seq!['d', 'o', 'c']);
    assert("docx"@ =~= seq!['d', 'o', 'c', 'x']);
    assert("pdf"@ =~= seq!['p', 'd', 'f']);
    assert("xls"@ =~= seq!['x', 'l', 's']);
    assert("xlsx"@ =~= seq!['x', 'l', 's', 'x']);
    assert("ppt"@ =~= seq!['p', 'p', 't']);
    assert("pptx"@ =~= seq!['p', 'p', 't', 'x']);
    assert("rtf"@ =~= seq!['r', 't', 'f']);
    assert("odt"@ =~= seq!['o', 'd', 't']);
    assert("jpg"@ =~= seq!['j', 'p', 'g']);
    assert("jpeg"@ =~= seq!['j', 'p', 'e', 'g']);
    assert("png"@ =~= seq!['p', 'n', 'g']);
    assert("gif"@ =~= seq!['g', 'i', 'f']);
    assert("bmp"@ =~= seq!['b', 'm', 'p']);
    assert("svg"@ =~= seq!['s', 'v', 'g']);
    assert("webp"@ =~= seq!['w', 'e', 'b', 'p']);
    assert("ico"@ =~= seq!['i', 'c', 'o']);
    assert("tiff"@ =~= seq!['t', 'i', 'f', 'f']);
    assert("tif"@ =~= seq!['t', 'i', 'f']);
    assert("raw"@ =~= seq!['r', 'a', 'w']);
    assert("heic"@ =~= seq!['h', 'e', 'i', 'c']);
    assert("mp4"@ =~= seq!['m', 'p', '4']);
    assert("avi"@ =~= seq!['a', 'v', 'i']);
    assert("mkv"@ =~= seq!['m', 'k', 'v']);
    assert("mov"@ =~= seq!['m', 'o', 'v']);
    assert("wmv"@ =~= seq!['w', 'm', 'v']);
    assert("flv"@ =~= seq!['f', 'l', 'v']);
    assert("webm"@ =~= seq!['w', 'e', 'b', 'm']);
    assert("m4v"@ =~= seq!['m', '4', 'v']);
    assert("mpg"@ =~= seq!['m', 'p', 'g']);
    assert("mpeg"@ =~= seq!['m', 'p', 'e', 'g']);
    assert("mp3"@ =~= seq!['m', 'p', '3']);
    assert("wav"@ =~= seq!['w', 'a', 'v']);
    assert("flac"@ =~= seq!['f', 'l', 'a', 'c']);
    assert("aac"@ =~= seq!['a', 'a', 'c']);
    assert("ogg"@ =~= seq!['o', 'g', 'g']);
    assert("wma"@ =~= seq!['w', 'm', 'a']);
    assert("m4a"@ =~= seq!['m', '4', 'a']);
    assert("opus"@ =~= seq!['o', 'p', 'u', 's']);
    assert("ape"@ =~= seq!['a', 'p', 'e']);
    assert("zip"@ =~= seq!['z', 'i', 'p']);
    assert("rar"@ =~= seq!['r', 'a', 'r']);
    assert("7z"@ =~= seq!['7', 'z']);
    assert("tar"@ =~= seq!['t', 'a', 'r']);
    assert("gz"@ =~= seq!['g', 'z']);
    assert("bz2"@ =~= seq!['b', 'z', '2']);
    assert("xz"@ =~= seq!['x', 'z']);
    assert("lz"@ =~= seq!['l', 'z']);
    assert("cab"@ =~= seq!['c', 'a', 'b']);
    assert("iso"@ =~= seq!['i', 's', 'o']);
    assert("rs"@ =~= seq!['r', 's']);
    assert("py"@ =~= seq!['p', 'y']);
    assert("js"@ =~= seq!['j', 's']);
    assert("ts"@ =~= seq!['t', 's']);
    assert("java"@ =~= seq!['j', 'a', 'v', 'a']);
    assert("c"@ =~= seq!['c']);
    assert("cpp"@ =~= seq!['c', 'p', 'p']);
    assert("h"@ =~= seq!['h']);
    assert("hpp"@ =~= seq!['h', 'p', 'p']);
    assert("go"@ =~= seq!['g', 'o']);
    assert("rb"@ =~= seq!['r', 'b']);
    assert("php"@ =~= seq!['p', 'h', 'p']);
    assert("swift"@ =~= seq!['s', 'w', 'i', 'f', 't']);
    assert("kt"@ =~= seq!['k', 't']);
    assert("scala"@ =~= seq!['s', 'c', 'a', 'l', 'a']);
    assert("html"@ =~= seq!['h', 't', 'm', 'l']);
    assert("css"@ =~= seq!['c', 's', 's']);
    assert("xml"@ =~= seq!['x', 'm', 'l']);
    assert("json"@ =~= seq!['j', 's', 'o', 'n']);
    assert("yaml"@ =~= seq!['y', 'a', 'm', 'l']);
    assert("yml"@ =~= seq!['y', 'm', 'l']);
    assert("toml"@ =~= seq!['t', 'o', 'm', 'l']);
    assert("sql"@ =~= seq!['s', 'q', 'l']);
    assert("sh"@ =~= seq!['s', 'h']);
    assert("bat"@ =~= seq!['b', 'a', 't']);
    assert("ps1"@ =~= seq!['p', 's', '1']);
    assert("exe"@ =~= seq!['e', 'x', 'e']);
    assert("msi"@ =~= seq!['m', 's', 'i']);
    assert("com"@ =~= seq!['c', 'o', 'm']);
    assert("scr"@ =~= seq!['s', 'c', 'r']);
    assert(is_lower_word("exe"@));
    assert(is_lower_word("msi"@));
    assert(is_lower_word("com"@));
    assert(is_lower_word("scr"@));
    if spelled_as(e, "exe"@) {
        lemma_spelled_lower(e, "exe"@);
    } else if spelled_as(e, "msi"@) {
        lemma_spelled_lower(e, "msi"@);
    } else if spelled_as(e, "com"@) {
        lemma_spelled_lower(e, "com"@);
    } else if spelled_as(e, "scr"@) {
        lemma_spelled_lower(e, "scr"@);
    }
}

/// Law: an extension spelled as one of dll, sys, drv, ocx, cpl, efi, in any letter
/// case, is in the System category.
pub proof fn law_system_extensions(e: Seq<char>)
    requires
        spelled_as(e, "dll"@)
            || spelled_as(e, "sys"@)
            || spelled_as(e, "drv"@)
            || spelled_as(e, "ocx"@)
            || spelled_as(e, "cpl"@)
            || spelled_as(e, "efi"@),
    ensures
        ext_category(e) == FileCategory::System,
{
    reveal_strlit("txt");
    reveal_strlit("doc");
    reveal_strlit("docx");
    reveal_strlit("pdf");
    reveal_strlit("xls");
    reveal_strlit("xlsx");
    reveal_strlit("ppt");
    reveal_strlit("pptx");
    reveal_strlit("rtf");
    reveal_strlit("odt");
    reveal_strlit("jpg");
    reveal_strlit("jpeg");
    reveal_strlit("png");
    reveal_strlit("gif");
    reveal_strlit("bmp");
    reveal_strlit("svg");
    reveal_strlit("webp");
    reveal_strlit("ico");
    reveal_strlit("tiff");
    reveal_strlit("tif");
    reveal_strlit("raw");
    reveal_strlit("heic");
    reveal_strlit("mp4");
    reveal_strlit("avi");
    reveal_strlit("mkv");
    reveal_strlit("mov");
    reveal_strlit("wmv");
    reveal_strlit("flv");
    reveal_strlit("webm");
    reveal_strlit("m4v");
    reveal_strlit("mpg");
    reveal_strlit("mpeg");
    reveal_strlit("mp3");
    reveal_strlit("wav");
    reveal_strlit("flac");
    reveal_strlit("aac");
    reveal_strlit("ogg");
    reveal_strlit("wma");
    reveal_strlit("m4a");
    reveal_strlit("opus");
    reveal_strlit("ape");
    reveal_strlit("zip");
    reveal_strlit("rar");
    reveal_strlit("7z");
    reveal_strlit("tar");
    reveal_strlit("gz");
    reveal_strlit("bz2");
    reveal_strlit("xz");
    reveal_strlit("lz");
    reveal_strlit("cab");
    reveal_strlit("iso");
    reveal_strlit("rs");
    reveal_strlit("py");
    reveal_strlit("js");
    reveal_strlit("ts");
    reveal_strlit("java");
    reveal_strlit("c");
    reveal_strlit("cpp");
    reveal_strlit("h");
    reveal_strlit("hpp");
    reveal_strlit("go");
    reveal_strlit("rb");
    reveal_strlit("php");
    reveal_strlit("swift");
    reveal_strlit("kt");
    reveal_strlit("scala");
    reveal_strlit("html");
    reveal_strlit("css");
    reveal_strlit("xml");
    reveal_strlit("json");
    reveal_strlit("yaml");
    reveal_strlit("yml");
    reveal_strlit("toml");
    reveal_strlit("sql");
    reveal_strlit("sh");
    reveal_strlit("bat");
    reveal_strlit("ps1");
    reveal_strlit("exe");
    reveal_strlit("msi");
    reveal_strlit("com");
    reveal_strlit("scr");
    reveal_strlit("dll");
    reveal_strlit("sys");
    reveal_strlit("drv");
    reveal_strlit("ocx");
    reveal_strlit("cpl");
    reveal_strlit("efi");
    assert("txt"@ =~= seq!['t', 'x', 't']);
    assert("doc"@ =~= seq!['d', 'o', 'c']);
    assert("docx"@ =~= seq!['d', 'o', 'c', 'x']);
    assert("pdf"@ =~= seq!['p', 'd', 'f']);
    assert("xls"@ =~= seq!['x', 'l', 's']);
    assert("xlsx"@ =~= seq!['x', 'l', 's', 'x']);
    assert("ppt"@ =~= seq!['p', 'p', 't']);
    assert("pptx"@ =~= seq!['p', 'p', 't', 'x']);
    assert("rtf"@ =~= seq!['r', 't', 'f']);
    assert("odt"@ =~= seq!['o', 'd', 't']);
    assert("jpg"@ =~= seq!['j', 'p', 'g']);
    assert("jpeg"@ =~= seq!['j', 'p', 'e', 'g']);
    assert("png"@ =~= seq!['p', 'n', 'g']);
    assert("gif"@ =~= seq!['g', 'i', 'f']);
    assert("bmp"@ =~= seq!['b', 'm', 'p']);
    assert("svg"@ =~= seq!['s', 'v', 'g']);
    assert("webp"@ =~= seq!['w', 'e', 'b', 'p']);
    assert("ico"@ =~= seq!['i', 'c', 'o']);
    assert("tiff"@ =~= seq!['t', 'i', 'f', 'f']);
    assert("tif"@ =~= seq!['t', 'i', 'f']);
    assert("raw"@ =~= seq!['r', 'a', 'w']);
    assert("heic"@ =~= seq!['h', 'e', 'i', 'c']);
    assert("mp4"@ =~= seq!['m', 'p', '4']);
    assert("avi"@ =~= seq!['a', 'v', 'i']);
    assert("mkv"@ =~= seq!['m', 'k', 'v']);
    assert("mov"@ =~= seq!['m', 'o', 'v']);
    assert("wmv"@ =~= seq!['w', 'm', 'v']);
    assert("flv"@ =~= seq!['f', 'l', 'v']);
    assert("webm"@ =~= seq!['w', 'e', 'b', 'm']);
    assert("m4v"@ =~= seq!['m', '4', 'v']);
    assert("mpg"@ =~= seq!['m', 'p', 'g']);
    assert("mpeg"@ =~= seq!['m', 'p', 'e', 'g']);
    assert("mp3"@ =~= seq!['m', 'p', '3']);
    assert("wav"@ =~= seq!['w', 'a', 'v']);
    assert("flac"@ =~= seq!['f', 'l', 'a', 'c']);
    assert("aac"@ =~= seq!['a', 'a', 'c']);
    assert("ogg"@ =~= seq!['o', 'g', 'g']);
    assert("wma"@ =~= seq!['w', 'm', 'a']);
    assert("m4a"@ =~= seq!['m', '4', 'a']);
    assert("opus"@ =~= seq!['o', 'p', 'u', 's']);
    assert("ape"@ =~= seq!['a', 'p', 'e']);
    assert("zip"@ =~= seq!['z', 'i', 'p']);
    assert("rar"@ =~= seq!['r', 'a', 'r']);
    assert("7z"@ =~= seq!['7', 'z']);
    assert("tar"@ =~= seq!['t', 'a', 'r']);
    assert("gz"@ =~= seq!['g', 'z']);
    assert("bz2"@ =~= seq!['b', 'z', '2']);
    assert("xz"@ =~= seq!['x', 'z']);
    assert("lz"@ =~= seq!['l', 'z']);
    assert("cab"@ =~= seq!['c', 'a', 'b']);
    assert("iso"@ =~= seq!['i', 's', 'o']);
    assert("rs"@ =~= seq!['r', 's']);
    assert("py"@ =~= seq!['p', 'y']);
    assert("js"@ =~= seq!['j', 's']);
    assert("ts"@ =~= seq!['t', 's']);
    assert("java"@ =~= seq!['j', 'a', 'v', 'a']);
    assert("c"@ =~= seq!['c']);
    assert("cpp"@ =~= seq!['c', 'p', 'p']);
    assert("h"@ =~= seq!['h']);
    assert("hpp"@ =~= seq!['h', 'p', 'p']);
    assert("go"@ =~= seq!['g', 'o']);
    assert("rb"@ =~= seq!['r', 'b']);
    assert("php"@ =~= seq!['p', 'h', 'p']);
    assert("swift"@ =~= seq!['s', 'w', 'i', 'f', 't']);
    assert("kt"@ =~= seq!['k', 't']);
    assert("scala"@ =~= seq!['s', 'c', 'a', 'l', 'a']);
    assert("html"@ =~= seq!['h', 't', 'm', 'l']);
    assert("css"@ =~= seq!['c', 's', 's']);
    assert("xml"@ =~= seq!['x', 'm', 'l']);
    assert("json"@ =~= seq!['j', 's', 'o', 'n']);
    assert("yaml"@ =~= seq!['y', 'a', 'm', 'l']);
    assert("yml"@ =~= seq!['y', 'm', 'l']);
    assert("toml"@ =~= seq!['t', 'o', 'm', 'l']);
    assert("sql"@ =~= seq!['s', 'q', 'l']);
    assert("sh"@ =~= seq!['s', 'h']);
    assert("bat"@ =~= seq!['b', 'a', 't']);
    assert("ps1"@ =~= seq!['p', 's', '1']);
    assert("exe"@ =~= seq!['e', 'x', 'e']);
    assert("msi"@ =~= seq!['m', 's', 'i']);
    assert("com"@ =~= seq!['c', 'o', 'm']);
    assert("scr"@ =~= seq!['s', 'c', 'r']);
    assert("dll"@ =~= seq!['d', 'l', 'l']);
    assert("sys"@ =~= seq!['s', 'y', 's']);
    assert("drv"@ =~= seq!['d', 'r', 'v']);
    assert("ocx"@ =~= seq!['o', 'c', 'x']);
    assert("cpl"@ =~= seq!['c', 'p', 'l']);
    assert("efi"@ =~= seq!['e', 'f', 'i']);
    assert(is_lower_word("dll"@));
    assert(is_lower_word("sys"@));
    assert(is_lower_word("drv"@));
    assert(is_lower_word("ocx"@));
    assert(is_lower_word("cpl"@));
    assert(is_lower_word("efi"@));
    if spelled_as(e, "dll"@) {
        lemma_spelled_lower(e, "dll"@);
    } else if spelled_as(e, "sys"@) {
        lemma_spelled_lower(e, "sys"@);
    } else if spelled_as(e, "drv"@) {
        lemma_spelled_lower(e, "drv"@);
    } else if spelled_as(e, "ocx"@) {
        lemma_spelled_lower(e, "ocx"@);
    } else if spelled_as(e, "cpl"@) {
        lemma_spelled_lower(e, "cpl"@);
    } else if spelled_as(e, "efi"@) {
        lemma_spelled_lower(e, "efi"@);
    }
}

/// Law: an extension spelled as one of tmp, temp, bak, old, log, cache, in any letter
/// case, is in the Temp category.
pub proof fn law_temp_extensions(e: Seq<char>)
    requires
        spelled_as(e, "tmp"@)
            || spelled_as(e, "temp"@)
            || spelled_as(e, "bak"@)
            || spelled_as(e, "old"@)
            || spelled_as(e, "log"@)
            || spelled_as(e, "cache"@),
    ensures
        ext_category(e) == FileCategory::Temp,
{
    reveal_strlit("txt");
    reveal_strlit("doc");
    reveal_strlit("docx");
    reveal_strlit("pdf");
    reveal_strlit("xls");
    reveal_strlit("xlsx");
    reveal_strlit("ppt");
    reveal_strlit("pptx");
    reveal_strlit("rtf");
    reveal_strlit("odt");
    reveal_strlit("jpg");
    reveal_strlit("jpeg");
    reveal_strlit("png");
    reveal_strlit("gif");
    reveal_strlit("bmp");
    reveal_strlit("svg");
    reveal_strlit("webp");
    reveal_strlit("ico");
    reveal_strlit("tiff");
    reveal_strlit("tif");
    reveal_strlit("raw");
    reveal_strlit("heic");
    reveal_strlit("mp4");
    reveal_strlit("avi");
    reveal_strlit("mkv");
    reveal_strlit("mov");
    reveal_strlit("wmv");
    reveal_strlit("flv");
    reveal_strlit("webm");
    reveal_strlit("m4v");
    reveal_strlit("mpg");
    reveal_strlit("mpeg");
    reveal_strlit("mp3");
    reveal_strlit("wav");
    reveal_strlit("flac");
    reveal_strlit("aac");
    reveal_strlit("ogg");
    reveal_strlit("wma");
    reveal_strlit("m4a");
    reveal_strlit("opus");
    reveal_strlit("ape");
    reveal_strlit("zip");
    reveal_strlit("rar");
    reveal_strlit("7z");
    reveal_strlit("tar");
    reveal_strlit("gz");
    reveal_strlit("bz2");
    reveal_strlit("xz");
    reveal_strlit("lz");
    reveal_strlit("cab");
    reveal_strlit("iso");
    reveal_strlit("rs");
    reveal_strlit("py");
    reveal_strlit("js");
    reveal_strlit("ts");
    reveal_strlit("java");
    reveal_strlit("c");
    reveal_strlit("cpp");
    reveal_strlit("h");
    reveal_strlit("hpp");
    reveal_strlit("go");
    reveal_strlit("rb");
    reveal_strlit("php");
    reveal_strlit("swift");
    reveal_strlit("kt");
    reveal_strlit("scala");
    reveal_strlit("html");
    reveal_strlit("css");
    reveal_strlit("xml");
    reveal_strlit("json");
    reveal_strlit("yaml");
    reveal_strlit("yml");
    reveal_strlit("toml");
    reveal_strlit("sql");
    reveal_strlit("sh");
    reveal_strlit("bat");
    reveal_strlit("ps1");
    reveal_strlit("exe");
    reveal_strlit("msi");
    reveal_strlit("com");
    reveal_strlit("scr");
    reveal_strlit("dll");
    reveal_strlit("sys");
    reveal_strlit("drv");
    reveal_strlit("ocx");
    reveal_strlit("cpl");
    reveal_strlit("efi");
    reveal_strlit("tmp");
    reveal_strlit("temp");
    reveal_strlit("bak");
    reveal_strlit("old");
    reveal_strlit("log");
    reveal_strlit("cache");
    assert("txt"@ =~= seq!['t', 'x', 't']);
    assert("doc"@ =~= seq!['d', 'o', 'c']);
    assert("docx"@ =~= seq!['d', 'o', 'c', 'x']);
    assert("pdf"@ =~= seq!['p', 'd', 'f']);
    assert("xls"@ =~= seq!['x', 'l', 's']);
    assert("xlsx"@ =~= seq!['x', 'l', 's', 'x']);
    assert("ppt"@ =~= seq!['p', 'p', 't']);
    assert("pptx"@ =~= seq!['p', 'p', 't', 'x']);
    assert("rtf"@ =~= seq!['r', 't', 'f']);
    assert("odt"@ =~= seq!['o', 'd', 't']);
    assert("jpg"@ =~= seq!['j', 'p', 'g']);
    assert("jpeg"@ =~= seq!['j', 'p', 'e', 'g']);
    assert("png"@ =~= seq!['p', 'n', 'g']);
    assert("gif"@ =~= seq!['g', 'i', 'f']);
    assert("bmp"@ =~= seq!['b', 'm', 'p']);
    assert("svg"@ =~= seq!['s', 'v', 'g']);
    assert("webp"@ =~= seq!['w', 'e', 'b', 'p']);
    assert("ico"@ =~= seq!['i', 'c', 'o']);
    assert("tiff"@ =~= seq!['t', 'i', 'f', 'f']);
    assert("tif"@ =~= seq!['t', 'i', 'f']);
    assert("raw"@ =~= seq!['r', 'a', 'w']);
    assert("heic"@ =~= seq!['h', 'e', 'i', 'c']);
    assert("mp4"@ =~= seq!['m', 'p', '4']);
    assert("avi"@ =~= seq!['a', 'v', 'i']);
    assert("mkv"@ =~= seq!['m', 'k', 'v']);
    assert("mov"@ =~= seq!['m', 'o', 'v']);
    assert("wmv"@ =~= seq!['w', 'm', 'v']);
    assert("flv"@ =~= seq!['f', 'l', 'v']);
    assert("webm"@ =~= seq!['w', 'e', 'b', 'm']);
    assert("m4v"@ =~= seq!['m', '4', 'v']);
    assert("mpg"@ =~= seq!['m', 'p', 'g']);
    assert("mpeg"@ =~= seq!['m', 'p', 'e', 'g']);
    assert("mp3"@ =~= seq!['m', 'p', '3']);
    assert("wav"@ =~= seq!['w', 'a', 'v']);
    assert("flac"@ =~= seq!['f', 'l', 'a', 'c']);
    assert("aac"@ =~= seq!['a', 'a', 'c']);
    assert("ogg"@ =~= seq!['o', 'g', 'g']);
    assert("wma"@ =~= seq!['w', 'm', 'a']);
    assert("m4a"@ =~= seq!['m', '4', 'a']);
    assert("opus"@ =~= seq!['o', 'p', 'u', 's']);
    assert("ape"@ =~= seq!['a', 'p', 'e']);
    assert("zip"@ =~= seq!['z', 'i', 'p']);
    assert("rar"@ =~= seq!['r', 'a', 'r']);
    assert("7z"@ =~= seq!['7', 'z']);
    assert("tar"@ =~= seq!['t', 'a', 'r']);
    assert("gz"@ =~= seq!['g', 'z']);
    assert("bz2"@ =~= seq!['b', 'z', '2']);
    assert("xz"@ =~= seq!['x', 'z']);
    assert("lz"@ =~= seq!['l', 'z']);
    assert("cab"@ =~= seq!['c', 'a', 'b']);
    assert("iso"@ =~= seq!['i', 's', 'o']);
    assert("rs"@ =~= seq!['r', 's']);
    assert("py"@ =~= seq!['p', 'y']);
    assert("js"@ =~= seq!['j', 's']);
    assert("ts"@ =~= seq!['t', 's']);
    assert("java"@ =~= seq!['j', 'a', 'v', 'a']);
    assert("c"@ =~= seq!['c']);
    assert("cpp"@ =~= seq!['c', 'p', 'p']);
    assert("h"@ =~= seq!['h']);
    assert("hpp"@ =~= seq!['h', 'p', 'p']);
    assert("go"@ =~= seq!['g', 'o']);
    assert("rb"@ =~= seq!['r', 'b']);
    assert("php"@ =~= seq!['p', 'h', 'p']);
    assert("swift"@ =~= seq!['s', 'w', 'i', 'f', 't']);
    assert("kt"@ =~= seq!['k', 't']);
    assert("scala"@ =~= seq!['s', 'c', 'a', 'l', 'a']);
    assert("html"@ =~= seq!['h', 't', 'm', 'l']);
    assert("css"@ =~= seq!['c', 's', 's']);
    assert("xml"@ =~= seq!['x', 'm', 'l']);
    assert("json"@ =~= seq!['j', 's', 'o', 'n']);
    assert("yaml"@ =~= seq!['y', 'a', 'm', 'l']);
    assert("yml"@ =~= seq!['y', 'm', 'l']);
    assert("toml"@ =~= seq!['t', 'o', 'm', 'l']);
    assert("sql"@ =~= seq!['s', 'q', 'l']);
    assert("sh"@ =~= seq!['s', 'h']);
    assert("bat"@ =~= seq!['b', 'a', 't']);
    assert("ps1"@ =~= seq!['p', 's', '1']);
    assert("exe"@ =~= seq!['e', 'x', 'e']);
    assert("msi"@ =~= seq!['m', 's', 'i']);
    assert("com"@ =~= seq!['c', 'o', 'm']);
    assert("scr"@ =~= seq!['s', 'c', 'r']);
    assert("dll"@ =~= seq!['d', 'l', 'l']);
    assert("sys"@ =~= seq!['s', 'y', 's']);
    assert("drv"@ =~= seq!['d', 'r', 'v']);
    assert("ocx"@ =~= seq!['o', 'c', 'x']);
    assert("cpl"@ =~= seq!['c', 'p', 'l']);
    assert("efi"@ =~= seq!['e', 'f', 'i']);
    assert("tmp"@ =~= seq!['t', 'm', 'p']);
    assert("temp"@ =~= seq!['t', 'e', 'm', 'p']);
    assert("bak"@ =~= seq!['b', 'a', 'k']);
    assert("old"@ =~= seq!['o', 'l', 'd']);
    assert("log"@ =~= seq!['l', 'o', 'g']);
    assert("cache"@ =~= seq!['c', 'a', 'c', 'h', 'e']);
    assert(is_lower_word("tmp"@));
    assert(is_lower_word("temp"@));
    assert(is_lower_word("bak"@));
    assert(is_lower_word("old"@));
    assert(is_lower_word("log"@));
    assert(is_lower_word("cache"@));
    if spelled_as(e, "tmp"@) {
        lemma_spelled_lower(e, "tmp"@);
    } else if spelled_as(e, "temp"@) {
        lemma_spelled_lower(e, "temp"@);
    } else if spelled_as(e, "bak"@) {
        lemma_spelled_lower(e, "bak"@);
    } else if spelled_as(e, "old"@) {
        lemma_spelled_lower(e, "old"@);
    } else if spelled_as(e, "log"@) {
        lemma_spelled_lower(e, "log"@);
    } else if spelled_as(e, "cache"@) {
        lemma_spelled_lower(e, "cache"@);
    }
}

} // verus!

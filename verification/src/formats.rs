//! Which formats a file can be converted to, and by which converter.
use vstd::prelude::*;
use crate::files::FileInfo;
use crate::text::{all_ascii, ascii_lower, lemma_ascii_lower_idempotent, lowercase, same_text, to_lowercase};

verus! {

broadcast use vstd::seq_lib::group_seq_properties;

/// Owned copies of `items`, in order.
fn owned_names(items: &[&str]) -> (res: Vec<String>)
    ensures
        res.deep_view() == items@.map_values(|s: &str| s@),
{
    let mut res: Vec<String> = Vec::new();
    let mut i: usize = 0;
    while i < items.len()
        invariant
            i <= items.len(),
            res.deep_view() == items@.take(i as int).map_values(|s: &str| s@),
        decreases items.len() - i,
    {
        let ghost before = res.deep_view();
        res.push(String::from_str(items[i]));
        assert(res.deep_view() =~= before.push(items@[i as int]@));
        assert(items@.take(i + 1) =~= items@.take(i as int).push(items@[i as int]));
        assert(items@.take(i + 1).map_values(|s: &str| s@) =~= items@.take(i as int).map_values(
            |s: &str| s@,
        ).push(items@[i as int]@));
        i = i + 1;
    }
    assert(items@.take(items.len() as int) =~= items@);
    res
}

/// The formats a file with extension `ext` can be converted to, in the order they are
/// offered; `None` for an extension the bot does not convert from.
pub open spec fn conversion_targets(ext: Seq<char>) -> Option<Seq<Seq<char>>> {
    if ext == "png"@ {
        Some(seq!["jpg"@, "jpeg"@, "webp"@, "ico"@, "bmp"@, "gif"@])
    } else if ext == "jpg"@ {
        Some(seq!["png"@, "webp"@, "ico"@, "bmp"@, "gif"@])
    } else if ext == "jpeg"@ {
        Some(seq!["png"@, "webp"@, "ico"@, "bmp"@, "gif"@])
    } else if ext == "webp"@ {
        Some(seq!["png"@, "jpg"@, "jpeg"@, "ico"@, "bmp"@, "gif"@])
    } else if ext == "bmp"@ {
        Some(seq!["png"@, "jpg"@, "jpeg"@, "webp"@, "ico"@, "gif"@])
    } else if ext == "gif"@ {
        Some(seq!["png"@, "jpg"@, "jpeg"@, "webp"@, "ico"@, "bmp"@])
    } else if ext == "mp4"@ {
        Some(seq!["mp3"@, "wav"@, "ogg"@, "gif"@])
    } else if ext == "wav"@ {
        Some(seq!["mp3"@, "ogg"@])
    } else if ext == "ogg"@ {
        Some(seq!["mp3"@, "wav"@])
    } else if ext == "mp3"@ {
        Some(seq!["wav"@, "ogg"@])
    } else if ext == "m4a"@ {
        Some(seq!["mp3"@, "wav"@, "ogg"@])
    } else if ext == "webm"@ {
        Some(seq!["mp4"@, "mp3"@])
    } else if ext == "pdf"@ {
        Some(seq!["docx"@])
    } else if ext == "docx"@ {
        Some(seq!["pdf"@])
    } else if ext == "md"@ {
        Some(seq!["docx"@, "html"@, "pdf"@])
    } else if ext == "html"@ {
        Some(seq!["md"@, "docx"@])
    } else {
        None
    }
}

/// The formats a file with extension `ext` can be converted to.
pub fn targets_for(ext: &str) -> (res: Option<Vec<String>>)
    ensures
        match res {
            Some(v) => conversion_targets(ext@) == Some(v.deep_view()),
            None => conversion_targets(ext@) is None,
        },
{
    if same_text(ext, "png") {
        let v = owned_names(&["jpg", "jpeg", "webp", "ico", "bmp", "gif"]);
        assert(v.deep_view() =~= seq!["jpg"@, "jpeg"@, "webp"@, "ico"@, "bmp"@, "gif"@]);
        Some(v)
    } else if same_text(ext, "jpg") {
        let v = owned_names(&["png", "webp", "ico", "bmp", "gif"]);
        assert(v.deep_view() =~= seq!["png"@, "webp"@, "ico"@, "bmp"@, "gif"@]);
        Some(v)
    } else if same_text(ext, "jpeg") {
        let v = owned_names(&["png", "webp", "ico", "bmp", "gif"]);
        assert(v.deep_view() =~= seq!["png"@, "webp"@, "ico"@, "bmp"@, "gif"@]);
        Some(v)
    } else if same_text(ext, "webp") {
        let v = owned_names(&["png", "jpg", "jpeg", "ico", "bmp", "gif"]);
        assert(v.deep_view() =~= seq!["png"@, "jpg"@, "jpeg"@, "ico"@, "bmp"@, "gif"@]);
        Some(v)
    } else if same_text(ext, "bmp") {
        let v = owned_names(&["png", "jpg", "jpeg", "webp", "ico", "gif"]);
        assert(v.deep_view() =~= seq!["png"@, "jpg"@, "jpeg"@, "webp"@, "ico"@, "gif"@]);
        Some(v)
    } else if same_text(ext, "gif") {
        let v = owned_names(&["png", "jpg", "jpeg", "webp", "ico", "bmp"]);
        assert(v.deep_view() =~= seq!["png"@, "jpg"@, "jpeg"@, "webp"@, "ico"@, "bmp"@]);
        Some(v)
    } else if same_text(ext, "mp4") {
        let v = owned_names(&["mp3", "wav", "ogg", "gif"]);
        assert(v.deep_view() =~= seq!["mp3"@, "wav"@, "ogg"@, "gif"@]);
        Some(v)
    } else if same_text(ext, "wav") {
        let v = owned_names(&["mp3", "ogg"]);
        assert(v.deep_view() =~= seq!["mp3"@, "ogg"@]);
        Some(v)
    } else if same_text(ext, "ogg") {
        let v = owned_names(&["mp3", "wav"]);
        assert(v.deep_view() =~= seq!["mp3"@, "wav"@]);
        Some(v)
    } else if same_text(ext, "mp3") {
        let v = owned_names(&["wav", "ogg"]);
        assert(v.deep_view() =~= seq!["wav"@, "ogg"@]);
        Some(v)
    } else if same_text(ext, "m4a") {
        let v = owned_names(&["mp3", "wav", "ogg"]);
        assert(v.deep_view() =~= seq!["mp3"@, "wav"@, "ogg"@]);
        Some(v)
    } else if same_text(ext, "webm") {
        let v = owned_names(&["mp4", "mp3"]);
        assert(v.deep_view() =~= seq!["mp4"@, "mp3"@]);
        Some(v)
    } else if same_text(ext, "pdf") {
        let v = owned_names(&["docx"]);
        assert(v.deep_view() =~= seq!["docx"@]);
        Some(v)
    } else if same_text(ext, "docx") {
        let v = owned_names(&["pdf"]);
        assert(v.deep_view() =~= seq!["pdf"@]);
        Some(v)
    } else if same_text(ext, "md") {
        let v = owned_names(&["docx", "html", "pdf"]);
        assert(v.deep_view() =~= seq!["docx"@, "html"@, "pdf"@]);
        Some(v)
    } else if same_text(ext, "html") {
        let v = owned_names(&["md", "docx"]);
        assert(v.deep_view() =~= seq!["md"@, "docx"@]);
        Some(v)
    } else {
        None
    }
}

/// Every format in the table is listed once for its extension.
pub proof fn lemma_targets_distinct(ext: Seq<char>)
    ensures
        conversion_targets(ext) matches Some(t) ==> t.no_duplicates(),
{
    reveal_strlit("jpg");
    reveal_strlit("jpeg");
    reveal_strlit("webp");
    reveal_strlit("ico");
    reveal_strlit("bmp");
    reveal_strlit("gif");
    reveal_strlit("png");
    reveal_strlit("mp3");
    reveal_strlit("wav");
    reveal_strlit("ogg");
    reveal_strlit("mp4");
    reveal_strlit("docx");
    reveal_strlit("html");
    reveal_strlit("pdf");
    reveal_strlit("md");
    assert("jpg"@.len() == 3 && "jpg"@[0] == 'j' && "jpg"@[2] == 'g');
    assert("jpeg"@.len() == 4 && "jpeg"@[0] == 'j' && "jpeg"@[3] == 'g');
    assert("webp"@.len() == 4 && "webp"@[0] == 'w' && "webp"@[3] == 'p');
    assert("ico"@.len() == 3 && "ico"@[0] == 'i' && "ico"@[2] == 'o');
    assert("bmp"@.len() == 3 && "bmp"@[0] == 'b' && "bmp"@[2] == 'p');
    assert("gif"@.len() == 3 && "gif"@[0] == 'g' && "gif"@[2] == 'f');
    assert("png"@.len() == 3 && "png"@[0] == 'p' && "png"@[2] == 'g');
    assert("mp3"@.len() == 3 && "mp3"@[0] == 'm' && "mp3"@[2] == '3');
    assert("wav"@.len() == 3 && "wav"@[0] == 'w' && "wav"@[2] == 'v');
    assert("ogg"@.len() == 3 && "ogg"@[0] == 'o' && "ogg"@[2] == 'g');
    assert("mp4"@.len() == 3 && "mp4"@[0] == 'm' && "mp4"@[2] == '4');
    assert("docx"@.len() == 4 && "docx"@[0] == 'd' && "docx"@[3] == 'x');
    assert("html"@.len() == 4 && "html"@[0] == 'h' && "html"@[3] == 'l');
    assert("pdf"@.len() == 3 && "pdf"@[0] == 'p' && "pdf"@[2] == 'f');
    assert("md"@.len() == 2 && "md"@[0] == 'm' && "md"@[1] == 'd');
}

/// No extension or format of the table holds a `/`: a file named after one stays a single
/// path component.
pub proof fn lemma_table_names_have_no_slash(ext: Seq<char>)
    ensures
        conversion_targets(ext) is Some ==> !ext.contains('/'),
        conversion_targets(ext) matches Some(t) ==> forall|i: int|
            0 <= i < t.len() ==> !(#[trigger] t[i]).contains('/'),
{
    reveal_strlit("png");
    reveal_strlit("jpg");
    reveal_strlit("jpeg");
    reveal_strlit("webp");
    reveal_strlit("bmp");
    reveal_strlit("gif");
    reveal_strlit("ico");
    reveal_strlit("mp4");
    reveal_strlit("wav");
    reveal_strlit("ogg");
    reveal_strlit("mp3");
    reveal_strlit("m4a");
    reveal_strlit("webm");
    reveal_strlit("pdf");
    reveal_strlit("docx");
    reveal_strlit("md");
    reveal_strlit("html");
    assert(!"png"@.contains('/'));
    assert(!"jpg"@.contains('/'));
    assert(!"jpeg"@.contains('/'));
    assert(!"webp"@.contains('/'));
    assert(!"bmp"@.contains('/'));
    assert(!"gif"@.contains('/'));
    assert(!"ico"@.contains('/'));
    assert(!"mp4"@.contains('/'));
    assert(!"wav"@.contains('/'));
    assert(!"ogg"@.contains('/'));
    assert(!"mp3"@.contains('/'));
    assert(!"m4a"@.contains('/'));
    assert(!"webm"@.contains('/'));
    assert(!"pdf"@.contains('/'));
    assert(!"docx"@.contains('/'));
    assert(!"md"@.contains('/'));
    assert(!"html"@.contains('/'));
}

/// The conversion table, entry by entry: what each extension the bot converts from may
/// become, in the order offered; any other extension has no entry.
pub proof fn lemma_format_table(ext: Seq<char>)
    ensures
        conversion_targets("png"@) == Some(seq!["jpg"@, "jpeg"@, "webp"@, "ico"@, "bmp"@, "gif"@]),
        conversion_targets("jpg"@) == Some(seq!["png"@, "webp"@, "ico"@, "bmp"@, "gif"@]),
        conversion_targets("jpeg"@) == Some(seq!["png"@, "webp"@, "ico"@, "bmp"@, "gif"@]),
        conversion_targets("webp"@) == Some(seq!["png"@, "jpg"@, "jpeg"@, "ico"@, "bmp"@, "gif"@]),
        conversion_targets("bmp"@) == Some(seq!["png"@, "jpg"@, "jpeg"@, "webp"@, "ico"@, "gif"@]),
        conversion_targets("gif"@) == Some(seq!["png"@, "jpg"@, "jpeg"@, "webp"@, "ico"@, "bmp"@]),
        conversion_targets("mp4"@) == Some(seq!["mp3"@, "wav"@, "ogg"@, "gif"@]),
        conversion_targets("wav"@) == Some(seq!["mp3"@, "ogg"@]),
        conversion_targets("ogg"@) == Some(seq!["mp3"@, "wav"@]),
        conversion_targets("mp3"@) == Some(seq!["wav"@, "ogg"@]),
        conversion_targets("m4a"@) == Some(seq!["mp3"@, "wav"@, "ogg"@]),
        conversion_targets("webm"@) == Some(seq!["mp4"@, "mp3"@]),
        conversion_targets("pdf"@) == Some(seq!["docx"@]),
        conversion_targets("docx"@) == Some(seq!["pdf"@]),
        conversion_targets("md"@) == Some(seq!["docx"@, "html"@, "pdf"@]),
        conversion_targets("html"@) == Some(seq!["md"@, "docx"@]),
        conversion_targets(ext) is Some <==> (ext == "png"@ || ext == "jpg"@ || ext == "jpeg"@ || ext == "webp"@ || ext == "bmp"@ || ext == "gif"@ || ext == "mp4"@ || ext == "wav"@ || ext == "ogg"@ || ext == "mp3"@ || ext == "m4a"@ || ext == "webm"@ || ext == "pdf"@ || ext == "docx"@ || ext == "md"@ || ext == "html"@),
{
    reveal_strlit("bmp");
    reveal_strlit("docx");
    reveal_strlit("gif");
    reveal_strlit("html");
    reveal_strlit("ico");
    reveal_strlit("jpeg");
    reveal_strlit("jpg");
    reveal_strlit("m4a");
    reveal_strlit("md");
    reveal_strlit("mp3");
    reveal_strlit("mp4");
    reveal_strlit("ogg");
    reveal_strlit("pdf");
    reveal_strlit("png");
    reveal_strlit("wav");
    reveal_strlit("webm");
    reveal_strlit("webp");
    assert("bmp"@.len() == 3 && "bmp"@[0] == 'b' && "bmp"@[2] == 'p');
    assert("docx"@.len() == 4 && "docx"@[0] == 'd' && "docx"@[3] == 'x');
    assert("gif"@.len() == 3 && "gif"@[0] == 'g' && "gif"@[2] == 'f');
    assert("html"@.len() == 4 && "html"@[0] == 'h' && "html"@[3] == 'l');
    assert("ico"@.len() == 3 && "ico"@[0] == 'i' && "ico"@[2] == 'o');
    assert("jpeg"@.len() == 4 && "jpeg"@[0] == 'j' && "jpeg"@[3] == 'g');
    assert("jpg"@.len() == 3 && "jpg"@[0] == 'j' && "jpg"@[2] == 'g');
    assert("m4a"@.len() == 3 && "m4a"@[0] == 'm' && "m4a"@[2] == 'a');
    assert("md"@.len() == 2 && "md"@[0] == 'm' && "md"@[1] == 'd');
    assert("mp3"@.len() == 3 && "mp3"@[0] == 'm' && "mp3"@[2] == '3');
    assert("mp4"@.len() == 3 && "mp4"@[0] == 'm' && "mp4"@[2] == '4');
    assert("ogg"@.len() == 3 && "ogg"@[0] == 'o' && "ogg"@[2] == 'g');
    assert("pdf"@.len() == 3 && "pdf"@[0] == 'p' && "pdf"@[2] == 'f');
    assert("png"@.len() == 3 && "png"@[0] == 'p' && "png"@[2] == 'g');
    assert("wav"@.len() == 3 && "wav"@[0] == 'w' && "wav"@[2] == 'v');
    assert("webm"@.len() == 4 && "webm"@[0] == 'w' && "webm"@[3] == 'm');
    assert("webp"@.len() == 4 && "webp"@[0] == 'w' && "webp"@[3] == 'p');
}

/// An image converts to every other image format the bot writes, except that `jpg` and
/// `jpeg`, two names of one format, are not offered for each other.
pub proof fn lemma_image_targets(ext: Seq<char>, format: Seq<char>)
    requires
        is_image_ext(ext),
        ext != "ico"@,
    ensures
        conversion_targets(ext) matches Some(t) && (t.contains(format) <==> (is_image_ext(format)
            && format != ext && !(is_jpeg_name(ext) && is_jpeg_name(format)))),
{
    reveal_strlit("bmp");
    reveal_strlit("docx");
    reveal_strlit("gif");
    reveal_strlit("html");
    reveal_strlit("ico");
    reveal_strlit("jpeg");
    reveal_strlit("jpg");
    reveal_strlit("m4a");
    reveal_strlit("md");
    reveal_strlit("mp3");
    reveal_strlit("mp4");
    reveal_strlit("ogg");
    reveal_strlit("pdf");
    reveal_strlit("png");
    reveal_strlit("wav");
    reveal_strlit("webm");
    reveal_strlit("webp");
    assert("bmp"@.len() == 3 && "bmp"@[0] == 'b' && "bmp"@[2] == 'p');
    assert("docx"@.len() == 4 && "docx"@[0] == 'd' && "docx"@[3] == 'x');
    assert("gif"@.len() == 3 && "gif"@[0] == 'g' && "gif"@[2] == 'f');
    assert("html"@.len() == 4 && "html"@[0] == 'h' && "html"@[3] == 'l');
    assert("ico"@.len() == 3 && "ico"@[0] == 'i' && "ico"@[2] == 'o');
    assert("jpeg"@.len() == 4 && "jpeg"@[0] == 'j' && "jpeg"@[3] == 'g');
    assert("jpg"@.len() == 3 && "jpg"@[0] == 'j' && "jpg"@[2] == 'g');
    assert("m4a"@.len() == 3 && "m4a"@[0] == 'm' && "m4a"@[2] == 'a');
    assert("md"@.len() == 2 && "md"@[0] == 'm' && "md"@[1] == 'd');
    assert("mp3"@.len() == 3 && "mp3"@[0] == 'm' && "mp3"@[2] == '3');
    assert("mp4"@.len() == 3 && "mp4"@[0] == 'm' && "mp4"@[2] == '4');
    assert("ogg"@.len() == 3 && "ogg"@[0] == 'o' && "ogg"@[2] == 'g');
    assert("pdf"@.len() == 3 && "pdf"@[0] == 'p' && "pdf"@[2] == 'f');
    assert("png"@.len() == 3 && "png"@[0] == 'p' && "png"@[2] == 'g');
    assert("wav"@.len() == 3 && "wav"@[0] == 'w' && "wav"@[2] == 'v');
    assert("webm"@.len() == 4 && "webm"@[0] == 'w' && "webm"@[3] == 'm');
    assert("webp"@.len() == 4 && "webp"@[0] == 'w' && "webp"@[3] == 'p');
    let t = conversion_targets(ext).unwrap();
    if t.contains(format) {
        let k = choose|k: int| 0 <= k < t.len() && t[k] == format;
        assert(t[k] == format);
    }
    if is_image_ext(format) && format != ext && !(is_jpeg_name(ext) && is_jpeg_name(format)) {
        if format == "png"@ {
            assert(t.contains("png"@) || ext == "png"@);
        }
        assert(t.contains(format)) by {
            let names = seq!["png"@, "jpg"@, "jpeg"@, "webp"@, "ico"@, "bmp"@, "gif"@];
            let k = choose|k: int| 0 <= k < 7 && names[k] == format;
            assert(exists|j: int| 0 <= j < t.len() && t[j] == format);
        }
    }
}

/// The extensions of `files`, in order.
pub open spec fn extensions(files: Seq<FileInfo>) -> Seq<Seq<char>> {
    files.map_values(|f: FileInfo| f.ext@)
}

/// Every extension in `exts` is one the bot converts from.
pub open spec fn all_known(exts: Seq<Seq<char>>) -> bool {
    forall|i: int| 0 <= i < exts.len() ==> #[trigger] conversion_targets(exts[i]) is Some
}

/// Every extension in `exts` can be converted to `format`.
pub open spec fn offered_by_all(exts: Seq<Seq<char>>, format: Seq<char>) -> bool {
    forall|i: int|
        0 <= i < exts.len() ==> (#[trigger] conversion_targets(exts[i]) matches Some(t)
            && t.contains(format))
}

/// The formats offered for files with extensions `exts`: those of the first file that every
/// file can be converted to, in the first file's order; none where some file has an
/// extension the bot does not convert from, or where there are no files.
pub open spec fn common_formats(exts: Seq<Seq<char>>) -> Seq<Seq<char>> {
    if exts.len() > 0 && all_known(exts) {
        conversion_targets(exts[0]).unwrap().filter(|f: Seq<char>| offered_by_all(exts, f))
    } else {
        Seq::empty()
    }
}

/// Whether `list` holds `item`.
pub(crate) fn contains_text(list: &Vec<String>, item: &String) -> (res: bool)
    ensures
        res == list.deep_view().contains(item@),
{
    let mut i: usize = 0;
    while i < list.len()
        invariant
            i <= list.len(),
            forall|j: int| 0 <= j < i ==> list.deep_view()[j] != item@,
        decreases list.len() - i,
    {
        if list[i] == *item {
            assert(list.deep_view()[i as int] == item@);
            return true;
        }
        i = i + 1;
    }
    false
}

proof fn lemma_filter_no_duplicates(s: Seq<Seq<char>>, p: spec_fn(Seq<char>) -> bool)
    requires
        s.no_duplicates(),
    ensures
        s.filter(p).no_duplicates(),
    decreases s.len(),
{
    if s.len() > 0 {
        let rest = s.drop_last();
        assert(rest.no_duplicates());
        lemma_filter_no_duplicates(rest, p);
        rest.lemma_filter_push(s.last(), p);
        assert(rest.push(s.last()) =~= s);
        if p(s.last()) && rest.filter(p).contains(s.last()) {
            rest.lemma_filter_contains_rev(p, s.last());
            let k = choose|k: int| 0 <= k < rest.len() && rest[k] == s.last();
            assert(s[k] == s[s.len() - 1]);
        }
    }
}

/// The formats that all of `files` can be converted to, each once, in the order the first
/// file's formats are offered: nothing where a file has an extension the bot does not
/// convert from.
pub fn offered_formats(files: &Vec<FileInfo>) -> (res: Vec<String>)
    ensures
        res.deep_view() == common_formats(extensions(files@)),
        res.deep_view().no_duplicates(),
{
    let ghost exts = extensions(files@);
    let n: usize = files.len();
    if n == 0 {
        return Vec::new();
    }
    let mut lists: Vec<Vec<String>> = Vec::new();
    let mut i: usize = 0;
    while i < n
        invariant
            n == files.len(),
            exts == extensions(files@),
            i <= n,
            lists.len() == i,
            forall|j: int|
                0 <= j < i ==> conversion_targets(#[trigger] exts[j]) == Some(
                    lists@[j].deep_view(),
                ),
        decreases n - i,
    {
        match targets_for(files[i].ext.as_str()) {
            Some(v) => {
                lists.push(v);
            },
            None => {
                assert(!all_known(exts)) by {
                    assert(conversion_targets(exts[i as int]) is None);
                }
                return Vec::new();
            },
        }
        i = i + 1;
    }
    assert(all_known(exts));
    let ghost first_view = lists@[0].deep_view();
    let ghost pred = |f: Seq<char>| offered_by_all(exts, f);
    proof {
        lemma_targets_distinct(exts[0]);
    }
    let first = &lists[0];
    let mut res: Vec<String> = Vec::new();
    let mut k: usize = 0;
    while k < first.len()
        invariant
            n == files.len(),
            n == lists.len(),
            n > 0,
            exts == extensions(files@),
            exts.len() == n,
            first == &lists@[0],
            first_view == first.deep_view(),
            pred == (|f: Seq<char>| offered_by_all(exts, f)),
            k <= first.len(),
            forall|j: int|
                0 <= j < n ==> conversion_targets(#[trigger] exts[j]) == Some(
                    lists@[j].deep_view(),
                ),
            res.deep_view() == first_view.take(k as int).filter(pred),
        decreases first.len() - k,
    {
        let f = &first[k];
        let mut everywhere = true;
        let mut j: usize = 0;
        while j < n
            invariant
                n == lists.len(),
                exts.len() == n,
                j <= n,
                forall|m: int|
                    0 <= m < n ==> conversion_targets(#[trigger] exts[m]) == Some(
                        lists@[m].deep_view(),
                    ),
                everywhere == (forall|m: int| 0 <= m < j ==> lists@[m].deep_view().contains(f@)),
            decreases n - j,
        {
            if !contains_text(&lists[j], f) {
                everywhere = false;
            }
            j = j + 1;
        }
        assert(everywhere == pred(f@)) by {
            if everywhere {
                assert forall|m: int| 0 <= m < exts.len() implies (#[trigger] conversion_targets(
                    exts[m],
                ) matches Some(t) && t.contains(f@)) by {
                    assert(lists@[m].deep_view().contains(f@));
                }
            } else {
                let m = choose|m: int| 0 <= m < n && !lists@[m].deep_view().contains(f@);
                assert(conversion_targets(exts[m]) == Some(lists@[m].deep_view()));
            }
        }
        assert(first_view[k as int] == f@);
        assert(first_view.take(k + 1) =~= first_view.take(k as int).push(f@));
        proof { first_view.take(k as int).lemma_filter_push(f@, pred); }
        if everywhere {
            let ghost before = res.deep_view();
            res.push(f.clone());
            assert(res.deep_view() =~= before.push(f@));
        }
        k = k + 1;
    }
    assert(first_view.take(first.len() as int) =~= first_view);
    assert(conversion_targets(exts[0]) == Some(first_view));
    proof {
        lemma_filter_no_duplicates(first_view, pred);
    }
    res
}

/// The formats offered for some files are exactly those each of them can be converted to:
/// none when there are no files, or when one of them has an extension the bot does not
/// convert from.
pub proof fn lemma_offered_formats_are_common(exts: Seq<Seq<char>>, format: Seq<char>)
    ensures
        common_formats(exts).contains(format) <==> (exts.len() > 0 && all_known(exts)
            && offered_by_all(exts, format)),
{
    if exts.len() > 0 && all_known(exts) {
        let first = conversion_targets(exts[0]).unwrap();
        let pred = |f: Seq<char>| offered_by_all(exts, f);
        if common_formats(exts).contains(format) {
            let k = choose|k: int|
                0 <= k < first.filter(pred).len() && first.filter(pred)[k] == format;
            first.lemma_filter_pred(pred, k);
        }
        if offered_by_all(exts, format) {
            assert(conversion_targets(exts[0]) matches Some(t) && t.contains(format));
            let k = choose|k: int| 0 <= k < first.len() && first[k] == format;
            first.lemma_filter_contains(pred, k);
        }
    }
}

/// The image formats the bot writes natively.
#[derive(Clone, Copy, Debug, PartialEq, Eq, Structural)]
pub enum ImageKind {
    Png,
    Jpeg,
    WebP,
    Bmp,
    Ico,
    Gif,
}

/// How a file is converted.
#[derive(Clone, Copy, Debug, PartialEq, Eq, Structural)]
pub enum Converter {
    /// Decoded and re-encoded as an image of the given kind.
    Image(ImageKind),
    /// Handed to ffmpeg.
    Media,
    /// Handed to the document conversion script.
    Document,
}

/// Extensions of images the bot decodes and encodes itself.
pub open spec fn is_image_ext(e: Seq<char>) -> bool {
    e == "png"@ || e == "jpg"@ || e == "jpeg"@ || e == "webp"@ || e == "bmp"@ || e == "ico"@
        || e == "gif"@
}

/// Extensions of audio and video files.
pub open spec fn is_media_ext(e: Seq<char>) -> bool {
    e == "mp4"@ || e == "mp3"@ || e == "wav"@ || e == "ogg"@ || e == "m4a"@ || e == "webm"@
}

/// `e` is one of the two names of the JPEG format.
pub open spec fn is_jpeg_name(e: Seq<char>) -> bool {
    e == "jpg"@ || e == "jpeg"@
}

/// The image kind written for extension `e`; PNG for one it does not name.
pub open spec fn image_kind_for(e: Seq<char>) -> ImageKind {
    if e == "png"@ {
        ImageKind::Png
    } else if e == "jpg"@ || e == "jpeg"@ {
        ImageKind::Jpeg
    } else if e == "webp"@ {
        ImageKind::WebP
    } else if e == "bmp"@ {
        ImageKind::Bmp
    } else if e == "ico"@ {
        ImageKind::Ico
    } else if e == "gif"@ {
        ImageKind::Gif
    } else {
        ImageKind::Png
    }
}

/// The converter between the lowercased extensions `i` and `o`: images between image
/// formats natively, anything with an audio or video format at either end through ffmpeg,
/// the rest through the document script.
pub open spec fn route(i: Seq<char>, o: Seq<char>) -> Converter {
    if is_image_ext(i) && is_image_ext(o) {
        Converter::Image(image_kind_for(o))
    } else if is_media_ext(i) || is_media_ext(o) {
        Converter::Media
    } else {
        Converter::Document
    }
}

/// The converter for a file going from extension `ext_in` to `ext_out`: the route between
/// both taken lowercased.
pub open spec fn converter_for(ext_in: Seq<char>, ext_out: Seq<char>) -> Converter {
    route(lowercase(ext_in), lowercase(ext_out))
}

fn is_image(e: &str) -> (res: bool)
    ensures
        res == is_image_ext(e@),
{
    same_text(e, "png") || same_text(e, "jpg") || same_text(e, "jpeg") || same_text(e, "webp")
        || same_text(e, "bmp") || same_text(e, "ico") || same_text(e, "gif")
}

fn is_media(e: &str) -> (res: bool)
    ensures
        res == is_media_ext(e@),
{
    same_text(e, "mp4") || same_text(e, "mp3") || same_text(e, "wav") || same_text(e, "ogg")
        || same_text(e, "m4a") || same_text(e, "webm")
}

fn image_kind(e: &str) -> (res: ImageKind)
    ensures
        res == image_kind_for(e@),
{
    if same_text(e, "png") {
        ImageKind::Png
    } else if same_text(e, "jpg") || same_text(e, "jpeg") {
        ImageKind::Jpeg
    } else if same_text(e, "webp") {
        ImageKind::WebP
    } else if same_text(e, "bmp") {
        ImageKind::Bmp
    } else if same_text(e, "ico") {
        ImageKind::Ico
    } else if same_text(e, "gif") {
        ImageKind::Gif
    } else {
        ImageKind::Png
    }
}

/// An ASCII extension pair and its lowercase forms take the same route: lowercasing them
/// first changes nothing.
pub proof fn lemma_route_ignores_ascii_case(ext_in: Seq<char>, ext_out: Seq<char>)
    requires
        all_ascii(ext_in),
        all_ascii(ext_out),
    ensures
        all_ascii(ascii_lower(ext_in)),
        all_ascii(ascii_lower(ext_out)),
        route(ascii_lower(ascii_lower(ext_in)), ascii_lower(ascii_lower(ext_out))) == route(
            ascii_lower(ext_in),
            ascii_lower(ext_out),
        ),
{
    lemma_ascii_lower_idempotent(ext_in);
    lemma_ascii_lower_idempotent(ext_out);
}

/// Each image extension is written in the format it names: `png` as PNG, `jpg` and `jpeg`
/// as JPEG, `webp` as WebP, `bmp` as BMP, `ico` as ICO, `gif` as GIF; so two image
/// extensions share a format only where both are names of JPEG.
pub proof fn lemma_image_kind_names_format(a: Seq<char>, b: Seq<char>)
    ensures
        image_kind_for("png"@) == ImageKind::Png,
        image_kind_for("jpg"@) == ImageKind::Jpeg,
        image_kind_for("jpeg"@) == ImageKind::Jpeg,
        image_kind_for("webp"@) == ImageKind::WebP,
        image_kind_for("bmp"@) == ImageKind::Bmp,
        image_kind_for("ico"@) == ImageKind::Ico,
        image_kind_for("gif"@) == ImageKind::Gif,
        is_image_ext(a) && is_image_ext(b) && image_kind_for(a) == image_kind_for(b) ==> a == b || (
        is_jpeg_name(a) && is_jpeg_name(b)),
{
    reveal_strlit("png");
    reveal_strlit("jpg");
    reveal_strlit("jpeg");
    reveal_strlit("webp");
    reveal_strlit("bmp");
    reveal_strlit("ico");
    reveal_strlit("gif");
    assert("png"@.len() == 3 && "png"@[0] == 'p' && "png"@[2] == 'g');
    assert("jpg"@.len() == 3 && "jpg"@[0] == 'j' && "jpg"@[2] == 'g');
    assert("jpeg"@.len() == 4 && "jpeg"@[0] == 'j' && "jpeg"@[3] == 'g');
    assert("webp"@.len() == 4 && "webp"@[0] == 'w' && "webp"@[3] == 'p');
    assert("bmp"@.len() == 3 && "bmp"@[0] == 'b' && "bmp"@[2] == 'p');
    assert("ico"@.len() == 3 && "ico"@[0] == 'i' && "ico"@[2] == 'o');
    assert("gif"@.len() == 3 && "gif"@[0] == 'g' && "gif"@[2] == 'f');
}

/// The converter between extensions `i` and `o`, which are already lowercased.
pub fn route_for(i: &str, o: &str) -> (res: Converter)
    ensures
        res == route(i@, o@),
{
    if is_image(i) && is_image(o) {
        Converter::Image(image_kind(o))
    } else if is_media(i) || is_media(o) {
        Converter::Media
    } else {
        Converter::Document
    }
}

/// The converter for a file going from extension `ext_in` to `ext_out`. For ASCII
/// extensions this is the route between their ASCII lowercase forms, so an extension and
/// its lowercase form take the same route.
pub fn choose_converter(ext_in: &str, ext_out: &str) -> (res: Converter)
    ensures
        res == converter_for(ext_in@, ext_out@),
        all_ascii(ext_in@) && all_ascii(ext_out@) ==> res == route(
            ascii_lower(ext_in@),
            ascii_lower(ext_out@),
        ),
{
    let i = to_lowercase(ext_in);
    let o = to_lowercase(ext_out);
    route_for(i.as_str(), o.as_str())
}

/// A conversion step, in terms the caller carries out.
pub enum ConversionStep {
    /// Decode the input image and write it in the given kind.
    Native(ImageKind),
    /// Run `program` with `args`; with `quiet`, its output is discarded.
    Run { program: String, args: Vec<String>, quiet: bool },
}

/// The step that converts `input` (extension `ext_in`) into `output` (extension `ext_out`):
/// natively for images, `ffmpeg -y -i <input> <output>` for audio and video, and
/// `python3 convert.py <input> <output> <ext_out lowercased>` for documents; ffmpeg runs
/// quietly, the script's output is shown.
pub fn conversion_step(input: &str, output: &str, ext_in: &str, ext_out: &str) -> (res:
    ConversionStep)
    ensures
        match converter_for(ext_in@, ext_out@) {
            Converter::Image(k) => res == ConversionStep::Native(k),
            Converter::Media => res matches ConversionStep::Run { program, args, quiet } && program@
                == "ffmpeg"@ && quiet && args.deep_view() == seq!["-y"@, "-i"@, input@, output@],
            Converter::Document => res matches ConversionStep::Run { program, args, quiet }
                && program@ == "python3"@ && !quiet && args.deep_view() == seq![
                "convert.py"@,
                input@,
                output@,
                lowercase(ext_out@),
            ],
        },
{
    match choose_converter(ext_in, ext_out) {
        Converter::Image(k) => ConversionStep::Native(k),
        Converter::Media => {
            let args = owned_names(&["-y", "-i", input, output]);
            assert(args.deep_view() =~= seq!["-y"@, "-i"@, input@, output@]);
            ConversionStep::Run { program: String::from_str("ffmpeg"), args, quiet: true }
        },
        Converter::Document => {
            let o = to_lowercase(ext_out);
            let args = owned_names(&["convert.py", input, output, o.as_str()]);
            assert(args.deep_view() =~= seq!["convert.py"@, input@, output@, o@]);
            ConversionStep::Run { program: String::from_str("python3"), args, quiet: false }
        },
    }
}

} // verus!

//! Converting the chosen files: where each one is kept, what it is called afterwards, and
//! what the user is told once all are done.
use vstd::prelude::*;
use crate::files::FileInfo;
use crate::text::{after_first, after_last, joined, join_with, piece_after_first, replace_char, replace_chars};

verus! {

/// The directory that holds downloaded and converted files.
pub open spec fn temp_dir() -> Seq<char> {
    "temp/"@
}

/// `n` names one entry of a directory: not empty, no `/`, not `.` or `..`.
pub open spec fn is_entry_name(n: Seq<char>) -> bool {
    &&& n.len() > 0
    &&& !n.contains('/')
    &&& n != "."@
    &&& n != ".."@
}

/// `p` is an entry directly under `temp/`.
pub open spec fn directly_in_temp(p: Seq<char>) -> bool {
    &&& p.len() > temp_dir().len()
    &&& p.take(temp_dir().len() as int) == temp_dir()
    &&& is_entry_name(p.skip(temp_dir().len() as int))
}

/// `c` is a lowercase hexadecimal digit.
pub open spec fn is_lower_hex(c: char) -> bool {
    ('0' <= c && c <= '9') || ('a' <= c && c <= 'f')
}

/// `s` is a UUID in hyphenated form: 36 characters, hyphens after the 8th, 12th, 16th and
/// 20th digit, lowercase hexadecimal digits elsewhere.
pub open spec fn is_hyphenated_uuid(s: Seq<char>) -> bool {
    &&& s.len() == 36
    &&& forall|i: int|
        0 <= i < 36 ==> if i == 8 || i == 13 || i == 18 || i == 23 {
            #[trigger] s[i] == '-'
        } else {
            is_lower_hex(s[i])
        }
}

/// The lowercase hexadecimal digit for `n` (below 16).
pub open spec fn hex_digit(n: int) -> char {
    seq!['0', '1', '2', '3', '4', '5', '6', '7', '8', '9', 'a', 'b', 'c', 'd', 'e', 'f'][n]
}

/// Sixteen random bytes made a version 4, RFC 4122 variant UUID: the high nibble of byte 6
/// set to 4, the two high bits of byte 8 set to `10`.
pub open spec fn v4_bytes(b: Seq<u8>) -> Seq<u8> {
    b.update(6, (b[6] & 0x0fu8) | 0x40u8).update(8, (b[8] & 0x3fu8) | 0x80u8)
}

/// The bytes `b` as lowercase hexadecimal, two digits per byte, high nibble first.
pub open spec fn hex_text(b: Seq<u8>) -> Seq<char> {
    Seq::new(
        2 * b.len(),
        |i: int|
            if i % 2 == 0 {
                hex_digit((b[i / 2] / 16) as int)
            } else {
                hex_digit((b[i / 2] % 16) as int)
            },
    )
}

/// Thirty-two hex digits in the hyphenated UUID layout: groups of 8, 4, 4, 4 and 12.
pub open spec fn hyphenated(h: Seq<char>) -> Seq<char> {
    h.subrange(0, 8) + seq!['-'] + h.subrange(8, 12) + seq!['-'] + h.subrange(12, 16) + seq!['-']
        + h.subrange(16, 20) + seq!['-'] + h.subrange(20, 32)
}

/// `getrandom::fill` on sixteen bytes: random bytes from the system's source, or the
/// source's error as text. Which bytes come back is left open: they are random.
#[verifier::external_body]
fn random_bytes() -> (res: Result<[u8; 16], String>) {
    let mut bytes = [0u8; 16];
    match getrandom::fill(&mut bytes) {
        Ok(()) => Ok(bytes),
        Err(e) => Err(e.to_string()),
    }
}

/// `uuid::Builder::from_random_bytes`, made a `Uuid` and written with `to_string`: the
/// bytes with the version and variant bits set, in hyphenated lowercase hexadecimal.
#[verifier::external_body]
fn uuid_text(bytes: [u8; 16]) -> (res: String)
    ensures
        res@ == hyphenated(hex_text(v4_bytes(bytes@))),
{
    uuid::Builder::from_random_bytes(bytes).into_uuid().to_string()
}

/// Any sixteen bytes written as a UUID have the hyphenated UUID shape.
pub proof fn lemma_uuid_text_shape(b: Seq<u8>)
    requires
        b.len() == 16,
    ensures
        is_hyphenated_uuid(hyphenated(hex_text(b))),
{
    let h = hex_text(b);
    assert forall|i: int| 0 <= i < 32 implies is_lower_hex(#[trigger] h[i]) by {
        let n: int = if i % 2 == 0 { (b[i / 2] / 16) as int } else { (b[i / 2] % 16) as int };
        assert(0 <= n < 16);
        assert(h[i] == hex_digit(n));
        let digits = seq!['0', '1', '2', '3', '4', '5', '6', '7', '8', '9', 'a', 'b', 'c', 'd', 'e', 'f'];
        assert(forall|k: int| 0 <= k < 16 ==> is_lower_hex(#[trigger] digits[k]));
    }
    let s = hyphenated(h);
    assert(s.len() == 36);
    assert forall|i: int|
        0 <= i < 36 implies if i == 8 || i == 13 || i == 18 || i == 23 {
            #[trigger] s[i] == '-'
        } else {
            is_lower_hex(s[i])
        } by {
        if i < 8 {
            assert(s[i] == h[i]);
        } else if i == 8 {
        } else if i < 13 {
            assert(s[i] == h[i - 1]);
        } else if i == 13 {
        } else if i < 18 {
            assert(s[i] == h[i - 2]);
        } else if i == 18 {
        } else if i < 23 {
            assert(s[i] == h[i - 3]);
        } else if i == 23 {
        } else {
            assert(s[i] == h[i - 4]);
        }
    }
}

/// A file name that is one ordinary path component on every platform: not empty, no `/`,
/// `\` or `:`, not `.` or `..`.
pub open spec fn is_plain_file_name(name: Seq<char>) -> bool {
    &&& is_entry_name(name)
    &&& !name.contains('\\')
    &&& !name.contains(':')
}

/// The stem of a plain file name, by the rules `Path::file_stem` documents: the whole name
/// where it holds no dot, or where its only dot comes first; otherwise the part before the
/// last dot.
pub open spec fn plain_stem(name: Seq<char>) -> Seq<char> {
    if !name.contains('.') || (name[0] == '.' && !name.drop_first().contains('.')) {
        name
    } else {
        name.take(name.len() - after_last(name, '.').len() - 1)
    }
}

/// A stem `Path::file_stem` may give for `name` on any platform: for a plain file name, the
/// documented stem; for any other name, whatever the platform's path rules give.
pub open spec fn stem_fits(name: Seq<char>, stem: Seq<char>) -> bool {
    is_plain_file_name(name) ==> stem == plain_stem(name)
}

/// The stem of a plain file name is a part of it, so it holds no `/` either.
pub proof fn lemma_plain_stem_has_no_slash(name: Seq<char>)
    requires
        is_plain_file_name(name),
    ensures
        !plain_stem(name).contains('/'),
{
    let st = plain_stem(name);
    if st.contains('/') {
        let k = choose|k: int| 0 <= k < st.len() && st[k] == '/';
        if name.contains('.') && !(name[0] == '.' && !name.drop_first().contains('.')) {
            crate::text::lemma_after_last_suffix(name, '.');
            let a = after_last(name, '.');
            if a.len() == name.len() {
                assert(name.skip(0) =~= name);
                assert(a.contains('.'));
            }
            assert(st[k] == name[k]);
        }
        assert(name[k] == '/');
    }
}

/// `Path::file_stem` of `name`, as a string. For a plain file name it is the stem the
/// standard library documents. Which stem other names give is left open: it follows the
/// platform's path rules, under which a name may hold other separators or prefixes.
#[verifier::external_body]
fn stem_of(name: &str) -> (res: Option<String>)
    ensures
        match res {
            Some(s) => stem_fits(name@, s@),
            None => !is_plain_file_name(name@),
        },
{
    match std::path::Path::new(name).file_stem() {
        Some(s) => Some(s.to_string_lossy().into_owned()),
        None => None,
    }
}

/// The name a converted file is sent under: the original's stem with spaces turned into
/// underscores, then a dot and the target format.
pub open spec fn output_name(stem: Seq<char>, target: Seq<char>) -> Seq<char> {
    replace_char(stem, ' ', '_') + "."@ + target
}

/// The output name spells the stem out character by character, with an underscore for
/// each space and every other character kept, then a dot and the target.
pub proof fn lemma_output_name_keeps_stem(stem: Seq<char>, target: Seq<char>)
    ensures
        output_name(stem, target).len() == stem.len() + 1 + target.len(),
        forall|i: int|
            0 <= i < stem.len() ==> #[trigger] output_name(stem, target)[i] == if stem[i] == ' ' {
                '_'
            } else {
                stem[i]
            },
        output_name(stem, target)[stem.len() as int] == '.',
        output_name(stem, target).skip(stem.len() + 1int) == target,
{
    reveal_strlit(".");
    crate::text::lemma_replace_char_changes_only_from(stem, ' ', '_');
    let r = replace_char(stem, ' ', '_');
    let o = output_name(stem, target);
    assert forall|i: int| 0 <= i < stem.len() implies #[trigger] o[i] == if stem[i] == ' ' {
        '_'
    } else {
        stem[i]
    } by {
        assert(o[i] == r[i]);
    }
    assert(o.skip(stem.len() + 1int) =~= target);
}

/// The name under which a converted file is kept: the run's identifier, an underscore,
/// then the output name.
pub open spec fn output_file(id: Seq<char>, stem: Seq<char>, target: Seq<char>) -> Seq<char> {
    id + "_"@ + output_name(stem, target)
}

/// Where a file is kept on its way through a conversion.
#[derive(Debug)]
pub struct ConversionJob {
    /// Where the downloaded original is written.
    pub input_path: String,
    /// Where the converted file is written.
    pub output_path: String,
    /// The name the converted file is sent under.
    pub display_name: String,
}

/// `job` converts `file` to `target` under identifier `id`, the stem of its name being
/// `stem`: the original is kept as `temp/<id>.<ext>`, the result as
/// `temp/<id>_<output name>`, and it is sent under what follows the first underscore of the
/// latter's file name.
pub open spec fn job_planned(
    file: FileInfo,
    target: Seq<char>,
    id: Seq<char>,
    stem: Seq<char>,
    job: ConversionJob,
) -> bool {
    &&& job.input_path@ == temp_dir() + id + "."@ + file.ext@
    &&& job.output_path@ == temp_dir() + output_file(id, stem, target)
    &&& job.display_name@ == after_first(output_file(id, stem, target), '_')
}

/// The job that converts `file` to `target` under identifier `id`, where the stem of the
/// file's name is `stem`.
pub fn plan_job(file: &FileInfo, target: &str, id: &str, stem: &str) -> (res: ConversionJob)
    ensures
        job_planned(*file, target@, id@, stem@, res),
{
    let mut input_path = String::from_str("temp/");
    input_path.append(id);
    input_path.append(".");
    input_path.append(file.ext.as_str());
    let mut kept = String::from_str(id);
    kept.append("_");
    kept.append(replace_chars(stem, ' ', '_').as_str());
    kept.append(".");
    kept.append(target);
    assert(kept@ =~= output_file(id@, stem@, target@));
    let mut output_path = String::from_str("temp/");
    output_path.append(kept.as_str());
    let display_name = piece_after_first(kept.as_str(), '_');
    assert(input_path@ =~= temp_dir() + id@ + "."@ + file.ext@);
    assert(output_path@ =~= temp_dir() + output_file(id@, stem@, target@));
    ConversionJob { input_path, output_path, display_name }
}

/// A file is sent under its output name: the identifier in front of it holds no underscore,
/// so what follows the first underscore is the output name.
pub proof fn lemma_display_name_is_output_name(id: Seq<char>, name: Seq<char>)
    requires
        !id.contains('_'),
    ensures
        after_first(id + "_"@ + name, '_') == name,
    decreases id.len(),
{
    reveal_strlit("_");
    let s = id + "_"@ + name;
    if id.len() == 0 {
        assert(s[0] == '_');
        assert(s.drop_first() =~= name);
    } else {
        assert(s[0] == id[0]);
        assert(id[0] != '_') by {
            if id[0] == '_' {
                assert(id.contains('_'));
            }
        }
        assert(!id.drop_first().contains('_')) by {
            if id.drop_first().contains('_') {
                let k = choose|k: int| 0 <= k < id.drop_first().len() && id.drop_first()[k] == '_';
                assert(id[k + 1] == '_');
            }
        }
        assert(s.drop_first() =~= id.drop_first() + "_"@ + name);
        lemma_display_name_is_output_name(id.drop_first(), name);
    }
}

/// A hyphenated UUID holds neither an underscore nor a slash.
pub proof fn lemma_uuid_has_no_separator(id: Seq<char>)
    requires
        is_hyphenated_uuid(id),
    ensures
        !id.contains('_'),
        !id.contains('/'),
{
    if id.contains('_') {
        let k = choose|k: int| 0 <= k < id.len() && id[k] == '_';
        assert(id[k] == '_');
    }
    if id.contains('/') {
        let k = choose|k: int| 0 <= k < id.len() && id[k] == '/';
        assert(id[k] == '/');
    }
}

proof fn lemma_no_slash_concat(a: Seq<char>, b: Seq<char>)
    requires
        !a.contains('/'),
        !b.contains('/'),
    ensures
        !(a + b).contains('/'),
{
    if (a + b).contains('/') {
        let k = choose|k: int| 0 <= k < (a + b).len() && (a + b)[k] == '/';
        if k < a.len() {
            assert(a[k] == '/');
        } else {
            assert(b[k - a.len()] == '/');
        }
    }
}

proof fn lemma_in_temp(id: Seq<char>, rest: Seq<char>)
    requires
        is_hyphenated_uuid(id),
        !rest.contains('/'),
    ensures
        directly_in_temp(temp_dir() + id + rest),
{
    reveal_strlit("temp/");
    reveal_strlit(".");
    reveal_strlit("..");
    lemma_uuid_has_no_separator(id);
    lemma_no_slash_concat(id, rest);
    let p = temp_dir() + id + rest;
    assert(p.take(5) =~= temp_dir());
    assert(p.skip(5) =~= id + rest);
}

/// `job` converts `file` to `target` under some identifier in UUID form, with a stem that
/// `Path::file_stem` may give for the file's name; the file is sent under its output name.
pub open spec fn fresh_job(file: FileInfo, target: Seq<char>, job: ConversionJob) -> bool {
    exists|id: Seq<char>, stem: Seq<char>|
        {
            &&& is_hyphenated_uuid(id)
            &&& stem_fits(file.file_name@, stem)
            &&& #[trigger] job_planned(file, target, id, stem, job)
            &&& job.display_name@ == output_name(stem, target)
        }
}

/// `job` is the job made for `file` and `target` from the random bytes `bytes`: its
/// identifier is those bytes written as a version 4 UUID, its stem one `Path::file_stem` may
/// give for the file's name, and the file is sent under its output name.
pub open spec fn job_from(file: FileInfo, target: Seq<char>, bytes: Seq<u8>, job: ConversionJob) -> bool {
    exists|stem: Seq<char>|
        {
            &&& stem_fits(file.file_name@, stem)
            &&& #[trigger] job_planned(file, target, hyphenated(hex_text(v4_bytes(bytes))), stem, job)
            &&& job.display_name@ == output_name(stem, target)
        }
}

/// `job` is the job made for `file` and `target` from some sixteen random bytes.
pub open spec fn drawn_job(file: FileInfo, target: Seq<char>, job: ConversionJob) -> bool {
    exists|bytes: Seq<u8>| bytes.len() == 16 && #[trigger] job_from(file, target, bytes, job)
}

/// The job for `file` and `target` under the identifier that the random bytes `bytes` make.
/// It is made for every file, name and target: with random bytes at hand nothing fails.
/// When the file's name is plain and neither its extension nor the target holds a `/`,
/// both paths are entries directly under `temp/`.
pub fn job_from_bytes(file: &FileInfo, target: &str, bytes: [u8; 16]) -> (job: ConversionJob)
    ensures
        job_from(*file, target@, bytes@, job),
        fresh_job(*file, target@, job),
        is_plain_file_name(file.file_name@) && !file.ext@.contains('/') && !target@.contains('/')
            ==> directly_in_temp(job.input_path@) && directly_in_temp(job.output_path@),
{
    let id = uuid_text(bytes);
    let stem = match stem_of(file.file_name.as_str()) {
        Some(s) => s,
        None => String::new(),
    };
    assert(stem_fits(file.file_name@, stem@));
    let job = plan_job(file, target, id.as_str(), stem.as_str());
    proof {
        lemma_uuid_text_shape(v4_bytes(bytes@));
        lemma_uuid_has_no_separator(id@);
        lemma_display_name_is_output_name(id@, output_name(stem@, target@));
        assert(stem_fits(file.file_name@, stem@));
        assert(job_planned(*file, target@, id@, stem@, job));
        assert(is_hyphenated_uuid(id@));
        assert(job.display_name@ == output_name(stem@, target@));
        assert(fresh_job(*file, target@, job));
        if is_plain_file_name(file.file_name@) && !file.ext@.contains('/') && !target@.contains('/') {
            lemma_plain_stem_has_no_slash(file.file_name@);
            reveal_strlit(".");
            reveal_strlit("_");
            assert(!"."@.contains('/'));
            assert(!"_"@.contains('/'));
            lemma_no_slash_concat("."@, file.ext@);
            lemma_in_temp(id@, "."@ + file.ext@);
            assert(job.input_path@ =~= temp_dir() + id@ + ("."@ + file.ext@));
            assert(!replace_char(stem@, ' ', '_').contains('/')) by {
                let r = replace_char(stem@, ' ', '_');
                if r.contains('/') {
                    let k = choose|k: int| 0 <= k < r.len() && r[k] == '/';
                    assert(stem@[k] == '/');
                }
            }
            lemma_no_slash_concat(replace_char(stem@, ' ', '_'), "."@);
            lemma_no_slash_concat(replace_char(stem@, ' ', '_') + "."@, target@);
            lemma_no_slash_concat("_"@, output_name(stem@, target@));
            lemma_in_temp(id@, "_"@ + output_name(stem@, target@));
            assert(job.output_path@ =~= temp_dir() + id@ + ("_"@ + output_name(stem@, target@)));
        }
    }
    assert(job_from(*file, target@, bytes@, job));
    job
}

/// The job that converts `file` to `target` under a fresh random identifier, or the random
/// source's error. The converted file is sent under its output name; when the file's name
/// is plain and neither its extension nor the target holds a `/`, both paths are entries
/// directly under `temp/`. Past the draw of random bytes nothing can fail
/// (`job_from_bytes`).
pub fn new_job(file: &FileInfo, target: &str) -> (res: Result<ConversionJob, String>)
    ensures
        res matches Ok(job) ==> fresh_job(*file, target@, job),
        res matches Ok(job) ==> (is_plain_file_name(file.file_name@) && !file.ext@.contains('/')
            && !target@.contains('/') ==> (directly_in_temp(job.input_path@) && directly_in_temp(
            job.output_path@,
        ))),
        res matches Ok(job) ==> drawn_job(*file, target@, job),
{
    match random_bytes() {
        Ok(bytes) => {
            let job = job_from_bytes(file, target, bytes);
            assert(bytes@.len() == 16 && job_from(*file, target@, bytes@, job));
            assert(drawn_job(*file, target@, job));
            Ok(job)
        },
        Err(e) => Err(e),
    }
}

/// A converted file, ready to be sent.
#[derive(Debug)]
pub struct ConvertedFile {
    pub path: String,
    pub display_name: String,
}

/// How the steps for one file after it was looked up ended.
pub enum FileOutcome {
    /// The local file for the download could not be created; the error as text.
    CreateFailed(String),
    /// The download failed; the error as text.
    DownloadFailed(String),
    /// The conversion failed; the error as text.
    ConvertFailed(String),
    /// The converted file is at the job's output path.
    Converted,
}

/// What a conversion run has produced so far: the converted files, the paths to remove
/// once it is over, and one error message per file that failed.
#[derive(Debug)]
pub struct ConversionRun {
    pub converted: Vec<ConvertedFile>,
    pub cleanup: Vec<String>,
    pub errors: Vec<String>,
}

/// The message for a file whose details could not be fetched.
pub open spec fn lookup_error(name: Seq<char>, err: Seq<char>) -> Seq<char> {
    "Не удалось получить инфо о файле "@ + name + ": "@ + err
}

/// The message for a local file that could not be created.
pub open spec fn create_error(err: Seq<char>) -> Seq<char> {
    "Не удалось создать временный файл: "@ + err
}

/// The message for a failed download.
pub open spec fn download_error(name: Seq<char>, err: Seq<char>) -> Seq<char> {
    "Не удалось скачать файл "@ + name + ": "@ + err
}

/// The message for a failed conversion.
pub open spec fn convert_error(name: Seq<char>, err: Seq<char>) -> Seq<char> {
    "Ошибка конвертации "@ + name + ": "@ + err
}

/// The paths of converted files, in order.
pub open spec fn converted_paths(c: Seq<ConvertedFile>) -> Seq<Seq<char>> {
    c.map_values(|f: ConvertedFile| f.path@)
}

/// The names converted files are sent under, in order.
pub open spec fn converted_names(c: Seq<ConvertedFile>) -> Seq<Seq<char>> {
    c.map_values(|f: ConvertedFile| f.display_name@)
}

fn message3(a: &str, b: &str, c: &str, d: &str) -> (res: String)
    ensures
        res@ == a@ + b@ + c@ + d@,
{
    let mut s = String::from_str(a);
    s.append(b);
    s.append(c);
    s.append(d);
    s
}

impl ConversionRun {
    /// A run with nothing done yet.
    pub fn new() -> (res: Self)
        ensures
            res.converted@.len() == 0,
            res.cleanup@.len() == 0,
            res.errors@.len() == 0,
    {
        ConversionRun { converted: Vec::new(), cleanup: Vec::new(), errors: Vec::new() }
    }

    /// Records that the details of `file` could not be fetched: `err` is why.
    pub fn lookup_failed(&mut self, file: &FileInfo, err: &str)
        ensures
            final(self).errors.deep_view() == old(self).errors.deep_view().push(
                lookup_error(file.file_name@, err@),
            ),
            final(self).converted@ == old(self).converted@,
            final(self).cleanup@ == old(self).cleanup@,
    {
        let msg = message3("Не удалось получить инфо о файле ", file.file_name.as_str(), ": ", err);
        let ghost before = self.errors.deep_view();
        self.errors.push(msg);
        assert(self.errors.deep_view() =~= before.push(lookup_error(file.file_name@, err@)));
    }

    /// Records that no name could be drawn for a file's temporary copy: `err` is why. The
    /// message is the one for a temporary file that could not be created; nothing was
    /// created, so nothing is to be removed.
    pub fn temp_name_failed(&mut self, err: &str)
        ensures
            final(self).errors.deep_view() == old(self).errors.deep_view().push(create_error(err@)),
            final(self).converted@ == old(self).converted@,
            final(self).cleanup@ == old(self).cleanup@,
    {
        let mut msg = String::from_str("Не удалось создать временный файл: ");
        msg.append(err);
        let ghost before = self.errors.deep_view();
        self.errors.push(msg);
        assert(self.errors.deep_view() =~= before.push(create_error(err@)));
    }

    /// Records how the steps for `file`, run as `job`, ended. The downloaded original is
    /// removed afterwards in any case, the converted file once a conversion was tried; a
    /// converted file is kept for sending, any failure gives one error message.
    pub fn record(&mut self, file: &FileInfo, job: &ConversionJob, outcome: FileOutcome)
        ensures
            match outcome {
                FileOutcome::CreateFailed(e) => {
                    &&& final(self).errors.deep_view() == old(self).errors.deep_view().push(create_error(e@))
                    &&& final(self).cleanup.deep_view() == old(self).cleanup.deep_view().push(job.input_path@)
                    &&& final(self).converted@ == old(self).converted@
                },
                FileOutcome::DownloadFailed(e) => {
                    &&& final(self).errors.deep_view() == old(self).errors.deep_view().push(
                        download_error(file.file_name@, e@),
                    )
                    &&& final(self).cleanup.deep_view() == old(self).cleanup.deep_view().push(job.input_path@)
                    &&& final(self).converted@ == old(self).converted@
                },
                FileOutcome::ConvertFailed(e) => {
                    &&& final(self).errors.deep_view() == old(self).errors.deep_view().push(
                        convert_error(file.file_name@, e@),
                    )
                    &&& final(self).cleanup.deep_view() == old(self).cleanup.deep_view().push(
                        job.input_path@,
                    ).push(job.output_path@)
                    &&& final(self).converted@ == old(self).converted@
                },
                FileOutcome::Converted => {
                    &&& final(self).errors@ == old(self).errors@
                    &&& final(self).cleanup.deep_view() == old(self).cleanup.deep_view().push(
                        job.input_path@,
                    ).push(job.output_path@)
                    &&& final(self).converted@.len() == old(self).converted@.len() + 1
                    &&& converted_paths(final(self).converted@) == converted_paths(
                        old(self).converted@,
                    ).push(job.output_path@)
                    &&& converted_names(final(self).converted@) == converted_names(
                        old(self).converted@,
                    ).push(job.display_name@)
                },
            },
    {
        let ghost errors_before = self.errors.deep_view();
        let ghost cleanup_before = self.cleanup.deep_view();
        let ghost converted_before = self.converted@;
        self.cleanup.push(job.input_path.clone());
        match outcome {
            FileOutcome::CreateFailed(e) => {
                let mut msg = String::from_str("Не удалось создать временный файл: ");
                msg.append(e.as_str());
                self.errors.push(msg);
                assert(self.errors.deep_view() =~= errors_before.push(create_error(e@)));
            },
            FileOutcome::DownloadFailed(e) => {
                let msg = message3("Не удалось скачать файл ", file.file_name.as_str(), ": ", e.as_str());
                self.errors.push(msg);
                assert(self.errors.deep_view() =~= errors_before.push(
                    download_error(file.file_name@, e@),
                ));
            },
            FileOutcome::ConvertFailed(e) => {
                self.cleanup.push(job.output_path.clone());
                let msg = message3("Ошибка конвертации ", file.file_name.as_str(), ": ", e.as_str());
                self.errors.push(msg);
                assert(self.errors.deep_view() =~= errors_before.push(
                    convert_error(file.file_name@, e@),
                ));
            },
            FileOutcome::Converted => {
                self.cleanup.push(job.output_path.clone());
                self.converted.push(
                    ConvertedFile {
                        path: job.output_path.clone(),
                        display_name: job.display_name.clone(),
                    },
                );
                assert(converted_paths(self.converted@) =~= converted_paths(converted_before).push(
                    job.output_path@,
                ));
                assert(converted_names(self.converted@) =~= converted_names(converted_before).push(
                    job.display_name@,
                ));
            },
        }
    }

    /// The note that replaces the progress message when no file could be converted.
    pub fn nothing_converted_note(&self) -> (res: Option<String>)
        ensures
            match res {
                Some(t) => self.converted@.len() == 0 && t@ == "Не удалось конвертировать ни один файл."@,
                None => self.converted@.len() > 0,
            },
    {
        if self.converted.len() == 0 {
            Some(String::from_str("Не удалось конвертировать ни один файл."))
        } else {
            None
        }
    }

    /// The message listing every error of the run, one per line, if there was any.
    pub fn error_summary(&self) -> (res: Option<String>)
        ensures
            match res {
                Some(t) => self.errors@.len() > 0 && t@ == "Некоторые ошибки:\n"@ + joined(
                    self.errors.deep_view(),
                    "\n"@,
                ),
                None => self.errors@.len() == 0,
            },
    {
        if self.errors.len() == 0 {
            None
        } else {
            let mut text = String::from_str("Некоторые ошибки:\n");
            text.append(join_with(&self.errors, "\n").as_str());
            Some(text)
        }
    }
}

} // verus!

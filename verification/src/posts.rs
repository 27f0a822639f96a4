//! Posts and their attached files: which files are accepted, what an upload
//! does file by file, and the texts the post operations answer with.
use vstd::prelude::*;
use vstd::string::*;
use vstd::utf8::encode_utf8;
use base64::Engine;

use crate::text::{concat_str, decimal, decimal_string, push_char, views};
use crate::validations::{DatabaseError, Errors, Rejection};

verus! {

// ---------------------------------------------------------------------------
// File types
// ---------------------------------------------------------------------------

/// What follows the last `'.'` of a name; the whole name when it has none
/// (the last item of `split('.')`).
pub open spec fn last_segment(s: Seq<char>) -> Seq<char>
    decreases s.len(),
{
    if s.len() == 0 {
        s
    } else if s.last() == '.' {
        Seq::empty()
    } else {
        last_segment(s.drop_last()).push(s.last())
    }
}

/// The extensions of accepted files: `pdf`, `txt`, `docx`, `doc`.
pub open spec fn is_allowed_extension(e: Seq<char>) -> bool {
    ||| e == seq!['p', 'd', 'f']
    ||| e == seq!['t', 'x', 't']
    ||| e == seq!['d', 'o', 'c', 'x']
    ||| e == seq!['d', 'o', 'c']
}

/// A file name of an accepted type.
pub open spec fn allowed_file_type(name: Seq<char>) -> bool {
    is_allowed_extension(last_segment(name))
}

/// The text after the last `'.'` of `file_name` (all of it when it has none).
pub fn extension_of(file_name: &str) -> (ext: String)
    ensures
        ext@ == last_segment(file_name@),
{
    let n = file_name.unicode_len();
    let mut ext = String::new();
    let mut i: usize = 0;
    while i < n
        invariant
            n == file_name@.len(),
            0 <= i <= n,
            ext@ == last_segment(file_name@.take(i as int)),
        decreases n - i,
    {
        let c = file_name.get_char(i);
        let ghost prefix = file_name@.take(i + 1);
        assert(prefix.drop_last() =~= file_name@.take(i as int));
        assert(prefix.last() == c);
        if c == '.' {
            ext = String::new();
        } else {
            push_char(&mut ext, c);
        }
        i = i + 1;
    }
    assert(file_name@.take(n as int) =~= file_name@);
    ext
}

/// Whether `file_name` has one of the accepted extensions.
pub fn is_allowed_file_type(file_name: &str) -> (allowed: bool)
    ensures
        allowed == allowed_file_type(file_name@),
{
    let extension = extension_of(file_name);
    let pdf = String::from_str("pdf");
    let txt = String::from_str("txt");
    let docx = String::from_str("docx");
    let doc = String::from_str("doc");
    proof {
        reveal_strlit("pdf");
        reveal_strlit("txt");
        reveal_strlit("docx");
        reveal_strlit("doc");
        assert(pdf@ =~= seq!['p', 'd', 'f']);
        assert(txt@ =~= seq!['t', 'x', 't']);
        assert(docx@ =~= seq!['d', 'o', 'c', 'x']);
        assert(doc@ =~= seq!['d', 'o', 'c']);
    }
    extension == pdf || extension == txt || extension == docx || extension == doc
}

/// The type of a file is decided by its extension alone: any name ending in
/// `'.'` and an accepted extension is accepted, whatever comes before.
pub proof fn lemma_extension_decides(prefix: Seq<char>, ext: Seq<char>)
    requires
        is_allowed_extension(ext),
    ensures
        allowed_file_type(prefix + seq!['.'] + ext),
{
    lemma_last_segment_after_dot(prefix, ext);
}

/// The last segment of `prefix . ext` is `ext` when `ext` holds no `'.'`.
pub proof fn lemma_last_segment_after_dot(prefix: Seq<char>, ext: Seq<char>)
    requires
        forall|i: int| 0 <= i < ext.len() ==> ext[i] != '.',
    ensures
        last_segment(prefix + seq!['.'] + ext) == ext,
    decreases ext.len(),
{
    let s = prefix + seq!['.'] + ext;
    if ext.len() == 0 {
        assert(s.last() == '.');
    } else {
        lemma_last_segment_after_dot(prefix, ext.drop_last());
        assert(s.drop_last() =~= prefix + seq!['.'] + ext.drop_last());
        assert(ext.drop_last().push(ext.last()) =~= ext);
    }
}

/// A name without `'.'` is its own last segment.
proof fn lemma_last_segment_dot_free(e: Seq<char>)
    requires
        forall|i: int| 0 <= i < e.len() ==> e[i] != '.',
    ensures
        last_segment(e) == e,
    decreases e.len(),
{
    if e.len() > 0 {
        lemma_last_segment_dot_free(e.drop_last());
        assert(e.drop_last().push(e.last()) =~= e);
    }
}

/// Exactly the four extensions `pdf`, `txt`, `docx` and `doc` are accepted.
/// Every name is either free of `'.'` or some prefix, a `'.'` and a
/// `'.'`-free extension; in the first case the whole name, in the second the
/// extension, must be one of the four for the file to be accepted.
pub proof fn lemma_allowed_file_type_exactly(prefix: Seq<char>, e: Seq<char>)
    requires
        forall|i: int| 0 <= i < e.len() ==> e[i] != '.',
    ensures
        allowed_file_type(prefix + seq!['.'] + e) <==> (e == seq!['p', 'd', 'f'] || e == seq![
            't',
            'x',
            't',
        ] || e == seq!['d', 'o', 'c', 'x'] || e == seq!['d', 'o', 'c']),
        allowed_file_type(e) <==> (e == seq!['p', 'd', 'f'] || e == seq!['t', 'x', 't'] || e
            == seq!['d', 'o', 'c', 'x'] || e == seq!['d', 'o', 'c']),
{
    lemma_last_segment_after_dot(prefix, e);
    lemma_last_segment_dot_free(e);
}

// ---------------------------------------------------------------------------
// File contents
// ---------------------------------------------------------------------------

/// Largest accepted file, in decoded bytes (10 MiB).
pub const ALLOWED_FILE_SIZE: usize = 10 * 1024 * 1024;

/// The bytes that standard base64 (with padding) decodes a text to, or
/// nothing when the text is not valid standard base64.
pub uninterp spec fn base64_decoded(input: Seq<u8>) -> Option<Seq<u8>>;

/// Decodes `input` with `base64::engine::general_purpose::STANDARD`
/// (`Engine::decode`). Claimed: the result is the one named
/// `base64_decoded` for these bytes; a decode error becomes `None`.
#[verifier::external_body]
fn base64_decode(input: &[u8]) -> (decoded: Option<Vec<u8>>)
    ensures
        match decoded {
            Some(v) => base64_decoded(input@) == Some(v@),
            None => base64_decoded(input@) is None,
        },
{
    base64::engine::general_purpose::STANDARD.decode(input).ok()
}

/// The UTF-8 bytes of a text.
pub open spec fn bytes_of(s: Seq<char>) -> Seq<u8> {
    encode_utf8(s)
}

/// The size of a base64 text once decoded.
pub open spec fn decoded_size(base64: Seq<char>) -> Result<nat, Errors> {
    match base64_decoded(bytes_of(base64)) {
        Some(v) => Ok(v.len()),
        None => Err(Errors::InvalidBase64String),
    }
}

/// The decoded contents of a base64 text, or nothing when it is not
/// standard base64.
pub fn decode_file(base64: &str) -> (decoded: Option<Vec<u8>>)
    ensures
        match decoded {
            Some(v) => base64_decoded(bytes_of(base64@)) == Some(v@),
            None => base64_decoded(bytes_of(base64@)) is None,
        },
{
    base64_decode(base64.as_bytes())
}

/// The number of bytes a base64 text decodes to; an invalid text is refused.
pub fn get_base64_file_size(base64: &str) -> (size: Result<usize, Errors>)
    ensures
        size_as_nat(size) == decoded_size(base64@),
{
    match decode_file(base64) {
        Some(decoded_data) => Ok(decoded_data.len()),
        None => Err(Errors::InvalidBase64String),
    }
}

/// A size result with the size taken as a natural number.
pub open spec fn size_as_nat(size: Result<usize, Errors>) -> Result<nat, Errors> {
    match size {
        Ok(n) => Ok(n as nat),
        Err(e) => Err(e),
    }
}

/// Whether a file of the given decoded size is accepted, with a decoding
/// failure passed on.
pub open spec fn size_verdict_spec(size: Result<nat, Errors>) -> Result<bool, Errors> {
    match size {
        Ok(n) => Ok(n <= ALLOWED_FILE_SIZE),
        Err(e) => Err(e),
    }
}

/// Accepts a file whose decoded size is at most `ALLOWED_FILE_SIZE`,
/// passing a decoding failure on.
pub fn size_verdict(size: Result<usize, Errors>) -> (r: Result<bool, Errors>)
    ensures
        r == size_verdict_spec(size_as_nat(size)),
{
    match size {
        Ok(size) => Ok(size <= ALLOWED_FILE_SIZE),
        Err(e) => Err(e),
    }
}

/// The verdict on one file: not accepted (`Ok(false)`) when its type is not
/// allowed; otherwise refused when its contents are not base64, else
/// accepted exactly when it is small enough.
pub open spec fn file_verdict(filename: Seq<char>, base64: Seq<char>) -> Result<bool, Errors> {
    if allowed_file_type(filename) {
        size_verdict_spec(decoded_size(base64))
    } else {
        Ok(false)
    }
}

/// Decides whether a file may be stored.
pub fn validate(filename: &str, base64: &str) -> (r: Result<bool, Errors>)
    ensures
        r == file_verdict(filename@, base64@),
{
    if is_allowed_file_type(filename) {
        size_verdict(get_base64_file_size(base64))
    } else {
        Ok(false)
    }
}

/// The verdict on one file, written out: the size limit is 10 MiB; a file
/// of a refused type is turned away without looking at its contents; a file
/// of an accepted type is refused when its contents are not standard
/// base64, and otherwise accepted exactly when they decode to at most
/// 10485760 bytes.
pub proof fn lemma_file_verdict_exactly(filename: Seq<char>, base64: Seq<char>)
    ensures
        ALLOWED_FILE_SIZE == 10485760,
        !allowed_file_type(filename) ==> file_verdict(filename, base64) == Ok::<bool, Errors>(false),
        allowed_file_type(filename) ==> match base64_decoded(encode_utf8(base64)) {
            Some(v) => file_verdict(filename, base64) == Ok::<bool, Errors>(v.len()
                <= ALLOWED_FILE_SIZE),
            None => file_verdict(filename, base64) == Err::<bool, Errors>(
                Errors::InvalidBase64String,
            ),
        },
{
}

/// The size rule, written out: a size is accepted exactly when it is at most
/// 10485760 bytes, and a failure is passed on as it is.
pub proof fn lemma_size_verdict_exactly(n: nat, e: Errors)
    ensures
        size_verdict_spec(Ok(n)) == Ok::<bool, Errors>(n <= 10485760),
        size_verdict_spec(Err(e)) == Err::<bool, Errors>(e),
{
}

// ---------------------------------------------------------------------------
// Uploads
// ---------------------------------------------------------------------------

/// One uploaded file: its name and its contents in base64.
pub struct FileData {
    pub name: String,
    pub data: String,
}

/// The files sent with a post.
pub struct FormData {
    pub files: Vec<FileData>,
}

/// What an upload does with its files, in order: each file is judged; the
/// first refusal ends the upload, and the files judged before it keep their
/// verdicts (`true`: stored, `false`: turned away).
pub struct UploadPlan {
    pub verdicts: Vec<bool>,
    pub error: Option<Errors>,
}

/// The verdicts of an upload, and the refusal that ended it if any.
pub open spec fn upload_outcome(files: Seq<FileData>) -> (Seq<bool>, Option<Errors>)
    decreases files.len(),
{
    if files.len() == 0 {
        (Seq::empty(), None)
    } else {
        let rest = upload_outcome(files.drop_first());
        match file_verdict(files[0].name@, files[0].data@) {
            Err(e) => (Seq::empty(), Some(e)),
            Ok(b) => (seq![b] + rest.0, rest.1),
        }
    }
}

proof fn lemma_upload_outcome_step(files: Seq<FileData>, i: int)
    requires
        0 <= i < files.len(),
    ensures
        upload_outcome(files.skip(i)) == match file_verdict(files[i].name@, files[i].data@) {
            Err(e) => (Seq::<bool>::empty(), Some(e)),
            Ok(b) => (seq![b] + upload_outcome(files.skip(i + 1)).0, upload_outcome(
                files.skip(i + 1),
            ).1),
        },
{
    assert(files.skip(i).drop_first() =~= files.skip(i + 1));
    assert(files.skip(i)[0] == files[i]);
}

/// Judges the files of an upload in order, stopping at the first refusal.
pub fn plan_uploads(files: &Vec<FileData>) -> (plan: UploadPlan)
    ensures
        (plan.verdicts@, plan.error) == upload_outcome(files@),
{
    let n = files.len();
    let mut verdicts: Vec<bool> = Vec::new();
    let mut i: usize = 0;
    assert(files@.skip(0) =~= files@);
    assert(verdicts@ + upload_outcome(files@).0 =~= upload_outcome(files@).0);
    while i < n
        invariant
            n == files@.len(),
            0 <= i <= n,
            verdicts@.len() == i,
            upload_outcome(files@) == (verdicts@ + upload_outcome(files@.skip(i as int)).0,
            upload_outcome(files@.skip(i as int)).1),
        decreases n - i,
    {
        proof {
            lemma_upload_outcome_step(files@, i as int);
        }
        let file = &files[i];
        match validate(file.name.as_str(), file.data.as_str()) {
            Ok(verdict) => {
                let ghost old_verdicts = verdicts@;
                verdicts.push(verdict);
                proof {
                    let rest = upload_outcome(files@.skip(i + 1));
                    assert(old_verdicts + (seq![verdict] + rest.0) =~= verdicts@ + rest.0);
                }
            },
            Err(e) => {
                proof {
                    assert(verdicts@ + Seq::<bool>::empty() =~= verdicts@);
                }
                return UploadPlan { verdicts, error: Some(e) };
            },
        }
        i = i + 1;
    }
    proof {
        assert(files@.skip(n as int) =~= Seq::<FileData>::empty());
        assert(verdicts@ + Seq::<bool>::empty() =~= verdicts@);
    }
    UploadPlan { verdicts, error: None }
}

/// An upload judges its files in order and stops at the first refusal: each
/// file before the stop has the verdict its own judgement gives; without a
/// refusal every file is judged, and with one the file at the stop is the
/// one refused, with that refusal.
pub proof fn lemma_upload_outcome_shape(files: Seq<FileData>)
    ensures
        ({
            let (verdicts, error) = upload_outcome(files);
            &&& verdicts.len() <= files.len()
            &&& forall|i: int|
                0 <= i < verdicts.len() ==> file_verdict(#[trigger] files[i].name@, files[i].data@)
                    == Ok::<bool, Errors>(verdicts[i])
            &&& error is None ==> verdicts.len() == files.len()
            &&& error matches Some(e) ==> verdicts.len() < files.len() && file_verdict(
                files[verdicts.len() as int].name@,
                files[verdicts.len() as int].data@,
            ) == Err::<bool, Errors>(e)
        }),
    decreases files.len(),
{
    if files.len() > 0 {
        let rest = files.drop_first();
        lemma_upload_outcome_shape(rest);
        assert forall|i: int| 0 <= i < rest.len() implies #[trigger] rest[i] == files[i + 1] by {}
        let (verdicts, error) = upload_outcome(files);
        let (rv, re) = upload_outcome(rest);
        if let Ok(b) = file_verdict(files[0].name@, files[0].data@) {
            assert forall|i: int| 0 <= i < verdicts.len() implies file_verdict(
                #[trigger] files[i].name@,
                files[i].data@,
            ) == Ok::<bool, Errors>(verdicts[i]) by {
                if i > 0 {
                    assert(verdicts[i] == rv[i - 1]);
                    assert(rest[i - 1] == files[i]);
                }
            }
            if let Some(e) = error {
                assert(rest[rv.len() as int] == files[verdicts.len() as int]);
            }
        }
    }
}

/// The files judged so far whose verdict is `keep`, in order (with `true`:
/// the files an upload stores).
pub open spec fn kept_files(files: Seq<FileData>, verdicts: Seq<bool>, keep: bool) -> Seq<FileData>
    decreases verdicts.len(),
{
    if verdicts.len() == 0 {
        Seq::empty()
    } else {
        let rest = kept_files(files, verdicts.drop_last(), keep);
        if verdicts.last() == keep {
            rest.push(files[verdicts.len() - 1])
        } else {
            rest
        }
    }
}

/// The names of the files judged so far whose verdict is `keep`, in order.
pub open spec fn names_with_verdict(files: Seq<FileData>, verdicts: Seq<bool>, keep: bool) -> Seq<
    Seq<char>,
> {
    kept_files(files, verdicts, keep).map_values(|f: FileData| f.name@)
}

/// Every judged file is kept exactly once: either among the stored ones or
/// among the turned-away ones.
pub proof fn lemma_names_partition(files: Seq<FileData>, verdicts: Seq<bool>)
    ensures
        kept_files(files, verdicts, true).len() + kept_files(files, verdicts, false).len()
            == verdicts.len(),
        names_with_verdict(files, verdicts, true).len() + names_with_verdict(
            files,
            verdicts,
            false,
        ).len() == verdicts.len(),
    decreases verdicts.len(),
{
    if verdicts.len() > 0 {
        lemma_names_partition(files, verdicts.drop_last());
    }
}

/// An upload is not changed by a file of a refused type: inserting one at any
/// position leaves the refusal that ends the upload as it was, and the
/// verdicts as they were apart from one `false` for the inserted file (when
/// it is reached at all).
pub proof fn lemma_refused_type_file_changes_nothing(files: Seq<FileData>, k: int, extra: FileData)
    requires
        0 <= k <= files.len(),
        !allowed_file_type(extra.name@),
    ensures
        ({
            let (verdicts, error) = upload_outcome(files);
            let (verdicts2, error2) = upload_outcome(files.insert(k, extra));
            &&& error2 == error
            &&& k <= verdicts.len() ==> verdicts2 == verdicts.insert(k, false)
            &&& k > verdicts.len() ==> verdicts2 == verdicts
        }),
    decreases k,
{
    let files2 = files.insert(k, extra);
    if k == 0 {
        assert(files2[0] == extra);
        assert(files2.drop_first() =~= files);
        assert(upload_outcome(files2).0 =~= upload_outcome(files).0.insert(0, false));
    } else {
        let rest = files.drop_first();
        assert(files2[0] == files[0]);
        assert(files2.drop_first() =~= rest.insert(k - 1, extra));
        lemma_refused_type_file_changes_nothing(rest, k - 1, extra);
        let (rv, re) = upload_outcome(rest);
        match file_verdict(files[0].name@, files[0].data@) {
            Err(e) => {},
            Ok(b) => {
                if k - 1 <= rv.len() {
                    assert(seq![b] + rv.insert(k - 1, false) =~= (seq![b] + rv).insert(k, false));
                }
            },
        }
    }
}

/// The kept files depend only on the files that were judged.
pub proof fn lemma_names_depend_on_judged(
    files: Seq<FileData>,
    files2: Seq<FileData>,
    verdicts: Seq<bool>,
    keep: bool,
)
    requires
        verdicts.len() <= files.len(),
        verdicts.len() <= files2.len(),
        forall|i: int| 0 <= i < verdicts.len() ==> #[trigger] files[i] == files2[i],
    ensures
        kept_files(files, verdicts, keep) == kept_files(files2, verdicts, keep),
    decreases verdicts.len(),
{
    if verdicts.len() > 0 {
        lemma_names_depend_on_judged(files, files2, verdicts.drop_last(), keep);
        assert(files[verdicts.len() - 1] == files2[verdicts.len() - 1]);
    }
}

/// Inserting a turned-away file, with its `false` verdict, leaves the stored
/// files as they were.
pub proof fn lemma_names_after_refused_insert(
    files: Seq<FileData>,
    verdicts: Seq<bool>,
    k: int,
    extra: FileData,
)
    requires
        0 <= k <= verdicts.len(),
        verdicts.len() <= files.len(),
    ensures
        kept_files(files.insert(k, extra), verdicts.insert(k, false), true) == kept_files(
            files,
            verdicts,
            true,
        ),
    decreases verdicts.len(),
{
    let files2 = files.insert(k, extra);
    let v2 = verdicts.insert(k, false);
    if k == verdicts.len() {
        assert(v2.drop_last() =~= verdicts);
        assert(v2.last() == false);
        assert forall|i: int| 0 <= i < verdicts.len() implies #[trigger] files[i] == files2[i] by {}
        lemma_names_depend_on_judged(files, files2, verdicts, true);
    } else {
        let n = verdicts.len() as int;
        assert(v2.drop_last() =~= verdicts.drop_last().insert(k, false));
        assert(v2.last() == verdicts.last());
        assert(files2[n] == files[n - 1]);
        assert(files2 =~= files.insert(k, extra));
        lemma_names_after_refused_insert(files, verdicts.drop_last(), k, extra);
    }
}

/// A file of a refused type stores nothing and changes nothing else that is
/// stored: an upload with it inserted stores the same files as without it.
pub proof fn lemma_refused_type_file_stores_same(files: Seq<FileData>, k: int, extra: FileData)
    requires
        0 <= k <= files.len(),
        !allowed_file_type(extra.name@),
    ensures
        kept_files(files.insert(k, extra), upload_outcome(files.insert(k, extra)).0, true)
            == kept_files(files, upload_outcome(files).0, true),
{
    lemma_refused_type_file_changes_nothing(files, k, extra);
    lemma_upload_outcome_shape(files);
    lemma_upload_outcome_shape(files.insert(k, extra));
    let v = upload_outcome(files).0;
    let files2 = files.insert(k, extra);
    if k <= v.len() {
        lemma_names_after_refused_insert(files, v, k, extra);
    } else {
        assert forall|i: int| 0 <= i < v.len() implies #[trigger] files[i] == files2[i] by {}
        lemma_names_depend_on_judged(files, files2, v, true);
    }
}

/// The names of the judged files whose verdict is `keep`.
pub fn file_names_with_verdict(files: &Vec<FileData>, verdicts: &Vec<bool>, keep: bool) -> (names:
    Vec<String>)
    requires
        verdicts@.len() <= files@.len(),
    ensures
        views(names@) == names_with_verdict(files@, verdicts@, keep),
{
    let n = verdicts.len();
    let mut names: Vec<String> = Vec::new();
    let mut i: usize = 0;
    while i < n
        invariant
            n == verdicts@.len(),
            n <= files@.len(),
            0 <= i <= n,
            views(names@) == names_with_verdict(
                files@,
                verdicts@.take(i as int),
                keep,
            ),
        decreases n - i,
    {
        let ghost before = names@;
        assert(verdicts@.take(i + 1).drop_last() =~= verdicts@.take(i as int));
        let ghost kept_before = kept_files(files@, verdicts@.take(i as int), keep);
        if verdicts[i] == keep {
            names.push(String::from_str(files[i].name.as_str()));
            assert(views(names@) =~= views(before).push(files@[i as int].name@));
            assert(kept_before.push(files@[i as int]).map_values(|f: FileData| f.name@)
                =~= kept_before.map_values(|f: FileData| f.name@).push(files@[i as int].name@));
        }
        i = i + 1;
    }
    assert(verdicts@.take(n as int) =~= verdicts@);
    names
}

/// How std's `Debug` writes a list of strings (`["a", "b"]`, with quotes and
/// escapes).
pub uninterp spec fn debug_list(items: Seq<Seq<char>>) -> Seq<char>;

/// Renders a list of strings with `format!("{:?}", ..)`, std's `Debug` for
/// `Vec<String>`. Claimed: the text is the one named `debug_list` for the
/// items' characters.
#[verifier::external_body]
fn debug_string_list(items: &Vec<String>) -> (text: String)
    ensures
        text@ == debug_list(views(items@)),
{
    format!("{:?}", items)
}

/// The answer to an upload: the stored files and the post, the turned-away
/// files, or both.
pub open spec fn upload_summary_text(uploaded: Seq<Seq<char>>, rejected: Seq<Seq<char>>, post_id: Seq<
    char,
>) -> Seq<char> {
    if rejected.len() == 0 {
        "Uploaded files "@ + debug_list(uploaded) + " ; to post "@ + post_id
    } else if uploaded.len() == 0 {
        "Unable to upload files "@ + debug_list(rejected)
    } else {
        "Uploaded files "@ + debug_list(uploaded) + " ; to post "@ + post_id
            + " \n\n                Unable to upload files "@ + debug_list(rejected)
    }
}

/// An upload answers with the names of all the files it stored and of all
/// the files it turned away: with none turned away, "Uploaded files", the
/// whole list of stored names and the post; with none stored but some turned
/// away, "Unable to upload files" and the whole list of turned-away names;
/// with both, both texts.
pub proof fn lemma_upload_summary_reports_names(
    files: Seq<FileData>,
    verdicts: Seq<bool>,
    post_id: Seq<char>,
)
    ensures
        ({
            let stored = names_with_verdict(files, verdicts, true);
            let turned_away = names_with_verdict(files, verdicts, false);
            let text = upload_summary_text(stored, turned_away, post_id);
            &&& turned_away.len() == 0 ==> text == "Uploaded files "@ + debug_list(stored)
                + " ; to post "@ + post_id
            &&& stored.len() == 0 && turned_away.len() > 0 ==> text == "Unable to upload files "@
                + debug_list(turned_away)
            &&& stored.len() > 0 && turned_away.len() > 0 ==> text == "Uploaded files "@
                + debug_list(stored) + " ; to post "@ + post_id
                + " \n\n                Unable to upload files "@ + debug_list(turned_away)
        }),
{
}

/// `x` is the name of a judged file whose verdict is `keep`.
pub open spec fn is_kept_name(x: Seq<char>, files: Seq<FileData>, verdicts: Seq<bool>, keep: bool) -> bool {
    exists|i: int| 0 <= i < verdicts.len() && #[trigger] verdicts[i] == keep && files[i].name@ == x
}

/// The names listed for a verdict are exactly those of the judged files
/// given that verdict. Each of those files has its name in the list, and
/// each name in the list belongs to one of them.
pub proof fn lemma_names_are_the_kept_files(files: Seq<FileData>, verdicts: Seq<bool>, keep: bool)
    requires
        verdicts.len() <= files.len(),
    ensures
        forall|i: int|
            0 <= i < verdicts.len() && #[trigger] verdicts[i] == keep ==> names_with_verdict(
                files,
                verdicts,
                keep,
            ).contains(files[i].name@),
        forall|x: Seq<char>|
            names_with_verdict(files, verdicts, keep).contains(x) ==> #[trigger] is_kept_name(
                x,
                files,
                verdicts,
                keep,
            ),
    decreases verdicts.len(),
{
    let after = names_with_verdict(files, verdicts, keep);
    if verdicts.len() == 0 {
        assert(after.len() == 0);
    } else {
        let init = verdicts.drop_last();
        lemma_names_are_the_kept_files(files, init, keep);
        let before = names_with_verdict(files, init, keep);
        let kb = kept_files(files, init, keep);
        let n = verdicts.len() - 1;
        assert forall|x: Seq<char>| #[trigger] is_kept_name(x, files, init, keep) implies is_kept_name(
            x,
            files,
            verdicts,
            keep,
        ) by {
            let i = choose|i: int| 0 <= i < init.len() && #[trigger] init[i] == keep && files[i].name@ == x;
            assert(verdicts[i] == init[i]);
        }
        if verdicts.last() == keep {
            assert(after =~= before.push(files[n].name@)) by {
                assert(kb.push(files[n]).map_values(|f: FileData| f.name@) =~= kb.map_values(
                    |f: FileData| f.name@,
                ).push(files[n].name@));
            }
            assert(after[before.len() as int] == files[n].name@);
            assert forall|i: int|
                0 <= i < verdicts.len() && #[trigger] verdicts[i] == keep implies after.contains(
                files[i].name@,
            ) by {
                if i < n {
                    assert(init[i] == verdicts[i]);
                    let k = choose|k: int| 0 <= k < before.len() && before[k] == files[i].name@;
                    assert(after[k] == before[k]);
                }
            }
            assert forall|x: Seq<char>| after.contains(x) implies #[trigger] is_kept_name(
                x,
                files,
                verdicts,
                keep,
            ) by {
                let j = choose|j: int| 0 <= j < after.len() && after[j] == x;
                if j < before.len() {
                    assert(after[j] == before[j]);
                    assert(before.contains(x));
                    assert(is_kept_name(x, files, init, keep));
                } else {
                    assert(verdicts[n] == keep);
                }
            }
        } else {
            assert(after == before);
            assert forall|i: int|
                0 <= i < verdicts.len() && #[trigger] verdicts[i] == keep implies after.contains(
                files[i].name@,
            ) by {
                assert(i < n);
                assert(init[i] == verdicts[i]);
            }
            assert forall|x: Seq<char>| after.contains(x) implies #[trigger] is_kept_name(
                x,
                files,
                verdicts,
                keep,
            ) by {
                assert(is_kept_name(x, files, init, keep));
            }
        }
    }
}

/// The text an upload answers with.
pub fn upload_summary(uploaded: &Vec<String>, rejected: &Vec<String>, post_id: &str) -> (text:
    String)
    ensures
        text@ == upload_summary_text(
            views(uploaded@),
            views(rejected@),
            post_id@,
        ),
{
    if rejected.len() == 0 {
        let mut text = String::from_str("Uploaded files ");
        text.append(debug_string_list(uploaded).as_str());
        text.append(" ; to post ");
        text.append(post_id);
        text
    } else if uploaded.len() == 0 {
        let mut text = String::from_str("Unable to upload files ");
        text.append(debug_string_list(rejected).as_str());
        text
    } else {
        let mut text = String::from_str("Uploaded files ");
        text.append(debug_string_list(uploaded).as_str());
        text.append(" ; to post ");
        text.append(post_id);
        text.append(" \n\n                Unable to upload files ");
        text.append(debug_string_list(rejected).as_str());
        text
    }
}

// ---------------------------------------------------------------------------
// Posts
// ---------------------------------------------------------------------------

/// The count of authors with an id, when there is at least one.
pub fn author_id_count(count: i16) -> (found: Option<i16>)
    ensures
        found == (if count > 0 {
            Some(count)
        } else {
            None::<i16>
        }),
{
    if count > 0 {
        Some(count)
    } else {
        None
    }
}

/// A post is created only for an author id that exactly one author has.
pub fn require_single_author(found: Option<i16>) -> (r: Result<(), Errors>)
    ensures
        r is Ok <==> found == Some(1i16),
        r is Err ==> r == Err::<(), Errors>(Errors::DatabaseError),
{
    match found {
        Some(count) => {
            if count == 1 {
                Ok(())
            } else {
                Err(Errors::DatabaseError)
            }
        },
        None => Err(Errors::DatabaseError),
    }
}

/// The answer to deleting a post.
pub fn post_deleted_message(id: i16) -> (text: String)
    ensures
        text@ == "Post deleted with id: "@ + decimal(id as int),
{
    let digits = decimal_string(id as i64);
    concat_str("Post deleted with id: ", digits.as_str())
}

/// The id of a post as stored beside its files.
pub fn post_id_text(post_id: i64) -> (text: String)
    ensures
        text@ == decimal(post_id as int),
{
    decimal_string(post_id)
}

/// The `Content-Disposition` header of a downloaded file.
pub fn content_disposition(file_name: &str) -> (header: String)
    ensures
        header@ == "attachment; filename=\""@ + file_name@ + "\""@,
{
    let mut header = String::from_str("attachment; filename=\"");
    header.append(file_name);
    header.append("\"");
    header
}

/// The outcome of a download: the file when its row was read, a database
/// failure when reading the row failed, and "file not found" when there was
/// no row.
pub fn download_result(row: Option<Result<Vec<u8>, DatabaseError>>) -> (r: Result<
    Vec<u8>,
    Rejection,
>)
    ensures
        match row {
            Some(Ok(data)) => r == Ok::<Vec<u8>, Rejection>(data),
            Some(Err(_)) => r == Err::<Vec<u8>, Rejection>(Rejection::Posts(Errors::DatabaseError)),
            None => r == Err::<Vec<u8>, Rejection>(Rejection::Posts(Errors::FileNotFound)),
        },
{
    match row {
        Some(Ok(data)) => Ok(data),
        Some(Err(_)) => Err(Rejection::Posts(Errors::DatabaseError)),
        None => Err(Rejection::Posts(Errors::FileNotFound)),
    }
}

} // verus!

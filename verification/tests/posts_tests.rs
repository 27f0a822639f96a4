use blog_api::middleware::{authorize, check_file_type, FailAuth};
use blog_api::posts::{
    author_id_count, content_disposition, decode_file, download_result, extension_of,
    file_names_with_verdict, get_base64_file_size, is_allowed_file_type, plan_uploads,
    post_deleted_message, post_id_text, require_single_author, upload_summary, validate, FileData,
    ALLOWED_FILE_SIZE,
};
use blog_api::validations::{DatabaseError, Errors, Rejection};

fn file(name: &str, data: &str) -> FileData {
    FileData { name: name.to_string(), data: data.to_string() }
}

#[test]
fn allowed_file_types_by_last_extension() {
    assert!(is_allowed_file_type("report.pdf"));
    assert!(is_allowed_file_type("notes.txt"));
    assert!(is_allowed_file_type("a.b.docx"));
    assert!(is_allowed_file_type("old.doc"));
    assert!(!is_allowed_file_type("image.png"));
    assert!(!is_allowed_file_type("archive.pdf.zip"));
    assert!(!is_allowed_file_type("pdf."));
    assert!(!is_allowed_file_type(""));
    // without a dot the whole name is the extension
    assert!(is_allowed_file_type("pdf"));
    assert!(!is_allowed_file_type("report"));
}

#[test]
fn extension_is_text_after_last_dot() {
    assert_eq!(extension_of("a.b.c"), "c");
    assert_eq!(extension_of("name"), "name");
    assert_eq!(extension_of("trailing."), "");
}

#[test]
fn base64_sizes() {
    assert_eq!(get_base64_file_size("aGVsbG8gd29ybGQ="), Ok(11));
    assert_eq!(get_base64_file_size(""), Ok(0));
    assert_eq!(get_base64_file_size("not base64!"), Err(Errors::InvalidBase64String));
    assert_eq!(decode_file("aGVsbG8gd29ybGQ="), Some(b"hello world".to_vec()));
}

#[test]
fn file_validation_verdicts() {
    assert_eq!(validate("a.pdf", "aGVsbG8gd29ybGQ="), Ok(true));
    assert_eq!(validate("a.png", "aGVsbG8gd29ybGQ="), Ok(false));
    assert_eq!(validate("a.png", "not base64!"), Ok(false));
    assert_eq!(validate("a.pdf", "not base64!"), Err(Errors::InvalidBase64String));
    assert_eq!(ALLOWED_FILE_SIZE, 10 * 1024 * 1024);
}

#[test]
fn file_over_the_size_limit_is_turned_away() {
    let big = "A".repeat((ALLOWED_FILE_SIZE / 3 + 1) * 4);
    assert_eq!(validate("big.txt", &big), Ok(false));
}

#[test]
fn upload_plan_stops_at_first_refusal() {
    let files = vec![
        file("a.pdf", "aGVsbG8gd29ybGQ="),
        file("b.png", "aGVsbG8gd29ybGQ="),
        file("c.txt", "!!!"),
        file("d.txt", "aGVsbG8gd29ybGQ="),
    ];
    let plan = plan_uploads(&files);
    assert_eq!(plan.verdicts, vec![true, false]);
    assert_eq!(plan.error, Some(Errors::InvalidBase64String));
    assert_eq!(file_names_with_verdict(&files, &plan.verdicts, true), vec!["a.pdf".to_string()]);
    assert_eq!(file_names_with_verdict(&files, &plan.verdicts, false), vec!["b.png".to_string()]);
}

#[test]
fn upload_plan_without_refusal_judges_every_file() {
    let files = vec![file("a.pdf", "aGVsbG8gd29ybGQ="), file("b.doc", "")];
    let plan = plan_uploads(&files);
    assert_eq!(plan.verdicts, vec![true, true]);
    assert_eq!(plan.error, None);
    let empty: Vec<FileData> = Vec::new();
    let plan = plan_uploads(&empty);
    assert!(plan.verdicts.is_empty());
    assert_eq!(plan.error, None);
}

#[test]
fn upload_summaries() {
    let up = vec!["a.pdf".to_string()];
    let down = vec!["b.png".to_string(), "c\"d.gif".to_string()];
    let none: Vec<String> = Vec::new();
    assert_eq!(upload_summary(&up, &none, "7"), "Uploaded files [\"a.pdf\"] ; to post 7");
    assert_eq!(
        upload_summary(&none, &down, "7"),
        "Unable to upload files [\"b.png\", \"c\\\"d.gif\"]"
    );
    assert_eq!(
        upload_summary(&up, &down, "7"),
        "Uploaded files [\"a.pdf\"] ; to post 7 \n\n                Unable to upload files [\"b.png\", \"c\\\"d.gif\"]"
    );
    assert_eq!(upload_summary(&none, &none, "3"), "Uploaded files [] ; to post 3");
}

#[test]
fn author_counts() {
    assert_eq!(author_id_count(0), None);
    assert_eq!(author_id_count(-1), None);
    assert_eq!(author_id_count(2), Some(2));
    assert_eq!(require_single_author(Some(1)), Ok(()));
    assert_eq!(require_single_author(Some(2)), Err(Errors::DatabaseError));
    assert_eq!(require_single_author(None), Err(Errors::DatabaseError));
}

#[test]
fn post_texts() {
    assert_eq!(post_deleted_message(12), "Post deleted with id: 12");
    assert_eq!(post_deleted_message(-3), "Post deleted with id: -3");
    assert_eq!(post_id_text(9000000000), "9000000000");
    assert_eq!(content_disposition("a.pdf"), "attachment; filename=\"a.pdf\"");
}

#[test]
fn download_outcomes() {
    assert_eq!(download_result(Some(Ok(vec![1, 2]))), Ok(vec![1, 2]));
    assert_eq!(
        download_result(Some(Err(DatabaseError))),
        Err(Rejection::Posts(Errors::DatabaseError))
    );
    assert_eq!(download_result(None), Err(Rejection::Posts(Errors::FileNotFound)));
}

#[test]
fn token_guard() {
    assert_eq!(authorize(Some(100), 100), Ok(()));
    assert_eq!(authorize(Some(101), 100), Ok(()));
    assert_eq!(authorize(Some(99), 100), Err(Rejection::FailAuth(FailAuth)));
    assert_eq!(authorize(None, 0), Err(Rejection::FailAuth(FailAuth)));
}

#[test]
fn content_type_guard() {
    assert_eq!(check_file_type("upload.pdf"), Ok(()));
    assert_eq!(check_file_type("image/png"), Err(Rejection::Posts(Errors::InvalidFileType)));
}

#[test]
fn every_judged_file_is_named_once() {
    let files = vec![
        file("a.pdf", ""),
        file("b.png", ""),
        file("c.txt", "aGVsbG8gd29ybGQ="),
        file("d.exe", ""),
    ];
    let plan = plan_uploads(&files);
    assert_eq!(plan.verdicts, vec![true, false, true, false]);
    let kept = file_names_with_verdict(&files, &plan.verdicts, true);
    let turned_away = file_names_with_verdict(&files, &plan.verdicts, false);
    assert_eq!(kept.len() + turned_away.len(), plan.verdicts.len());
    assert_eq!(kept, vec!["a.pdf".to_string(), "c.txt".to_string()]);
    assert_eq!(turned_away, vec!["b.png".to_string(), "d.exe".to_string()]);
}

#[test]
fn extension_alone_decides_the_type() {
    assert!(is_allowed_file_type("any.thing.at.all.pdf"));
    assert!(is_allowed_file_type(".doc"));
    assert!(is_allowed_file_type("ünïcödé.txt"));
}

#[test]
fn refused_type_file_changes_nothing_stored() {
    let base = vec![file("a.pdf", "aGVsbG8gd29ybGQ="), file("c.txt", "!!!")];
    let with_extra = vec![
        file("a.pdf", "aGVsbG8gd29ybGQ="),
        file("x.png", "not base64 at all"),
        file("c.txt", "!!!"),
    ];
    let p1 = plan_uploads(&base);
    let p2 = plan_uploads(&with_extra);
    assert_eq!(p1.error, p2.error);
    assert_eq!(p1.verdicts, vec![true]);
    assert_eq!(p2.verdicts, vec![true, false]);
    assert_eq!(
        file_names_with_verdict(&base, &p1.verdicts, true),
        file_names_with_verdict(&with_extra, &p2.verdicts, true)
    );
}

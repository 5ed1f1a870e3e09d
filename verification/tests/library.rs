use reimg::analyzer::Analyzer;
use reimg::cli::{
    confirm_from_answer, format_from_answer, mode_from_answer, normalize_answer, parse_confirm,
    parse_format, parse_mode, Format, Mode,
};
use reimg::converter::{ConversionEvent, ConversionRequest, Converter};
use reimg::error::ReimgError;
use reimg::filters::{is_image, is_image_extension_text};
use reimg::remover::{deletion_prompt, remaining_images, DeletionEvent, DeletionRequest, Remover};
use reimg::replacer::update_code_references;
use reimg::scanner::Paths;
use reimg::text::{same_text, same_text_ignore_ascii_case};

fn strings(items: &[&str]) -> Vec<String> {
    items.iter().map(|s| s.to_string()).collect()
}

#[test]
fn text_comparisons() {
    assert!(same_text("logo", "logo"));
    assert!(!same_text("logo", "Logo"));
    assert!(!same_text("logo", "log"));
    assert!(same_text_ignore_ascii_case("JpEg", "jpeg"));
    assert!(!same_text_ignore_ascii_case("jpg", "jpeg"));
    assert!(!same_text_ignore_ascii_case("ä", "Ä"));
}

#[test]
fn image_extensions() {
    for ext in ["jpg", "JPG", "jpeg", "Jpeg", "png", "PNG", "webp", "WebP", "avif", "AVIF"] {
        assert!(is_image_extension_text(ext), "{}", ext);
    }
    for ext in ["gif", "svg", "txt", "", "pn", "pngx", "jpe"] {
        assert!(!is_image_extension_text(ext), "{}", ext);
    }
}

#[test]
fn image_paths() {
    assert!(is_image("assets/logo.png"));
    assert!(is_image("/abs/dir/Photo.JPG"));
    assert!(is_image("pic.jpeg"));
    assert!(is_image("a/b/c.webp"));
    assert!(is_image("x.AVIF"));
    assert!(is_image("archive.tar.png"));
    assert!(!is_image("archive.png.gz"));
    assert!(!is_image("src/main.rs"));
    assert!(!is_image("README"));
    assert!(!is_image(".png"));
    assert!(!is_image("dir.png/readme"));
    assert!(is_image("dir/logo.png/"));
    assert!(!is_image("images/.."));
    assert!(!is_image("/"));
    assert!(!is_image(""));
}

#[test]
fn partition_keeps_order() {
    let files = strings(&["a.png", "src/main.rs", "b.JPG", "index.html", "c.gif"]);
    let paths = Paths::from_files(&files);
    assert_eq!(paths.images, strings(&["a.png", "b.JPG"]));
    assert_eq!(paths.others, strings(&["src/main.rs", "index.html", "c.gif"]));
    let empty = Paths::from_files(&Vec::new());
    assert!(empty.images.is_empty() && empty.others.is_empty());
}

#[test]
fn analyzer_finds_unreferenced_images() {
    let images = strings(&["assets/logo.png", "img/unused.jpg", "img/banner.webp"]);
    let analyzer = Analyzer::new(images).unwrap();
    let texts = strings(&[
        "<img src=\"./assets/logo.png\">",
        ".hero { background: url(banner.webp); }",
    ]);
    assert_eq!(analyzer.find_unused(&texts), strings(&["img/unused.jpg"]));
}

#[test]
fn analyzer_without_texts_reports_all_images() {
    let images = strings(&["a.png", "b/c.jpg"]);
    let analyzer = Analyzer::new(images.clone()).unwrap();
    assert_eq!(analyzer.find_unused(&Vec::new()), images);
}

#[test]
fn analyzer_without_images_reports_nothing() {
    let analyzer = Analyzer::new(Vec::new()).unwrap();
    assert!(analyzer.find_unused(&strings(&["anything logo.png"])).is_empty());
}

#[test]
fn analyzer_is_case_sensitive_on_names() {
    let analyzer = Analyzer::new(strings(&["Logo.png"])).unwrap();
    assert_eq!(analyzer.find_unused(&strings(&["logo.png"])), strings(&["Logo.png"]));
}

#[test]
fn analyzer_finds_a_name_inside_a_longer_one() {
    let analyzer = Analyzer::new(strings(&["a/logo.png", "b/mylogo.png"])).unwrap();
    assert!(analyzer.find_unused(&strings(&["see mylogo.png"])).is_empty());
    let analyzer = Analyzer::new(strings(&["x/a.png", "y/png.jpg"])).unwrap();
    assert!(analyzer.find_unused(&strings(&["a.png.jpg"])).is_empty());
}

#[test]
fn analyzer_marks_every_image_with_a_mentioned_name() {
    let analyzer = Analyzer::new(strings(&["a/logo.png", "b/logo.png", "c/other.png"])).unwrap();
    assert_eq!(analyzer.find_unused(&strings(&["logo.png"])), strings(&["c/other.png"]));
}

#[test]
fn analyzer_keeps_nameless_entries_apart() {
    let analyzer = Analyzer::new(strings(&["..", "a.png", "b.png"])).unwrap();
    assert_eq!(analyzer.find_unused(&strings(&["b.png"])), strings(&["..", "a.png"]));
    assert_eq!(analyzer.find_unused(&strings(&["a.png"])), strings(&["..", "b.png"]));
}

#[test]
fn analyzer_ignores_text_order() {
    let analyzer = Analyzer::new(strings(&["a.png", "b.png", "c.png"])).unwrap();
    let texts = strings(&["a.png", "x", "c.png"]);
    let mut reversed = texts.clone();
    reversed.reverse();
    assert_eq!(analyzer.find_unused(&texts), analyzer.find_unused(&reversed));
    assert_eq!(analyzer.find_unused(&texts), strings(&["b.png"]));
}

#[test]
fn replacer_rewrites_only_mentioning_texts() {
    let texts = strings(&["<img src=\"img/logo.png\"> logo.png", "no images here"]);
    let mappings = vec![("assets/img/logo.png".to_string(), "assets/img/logo.webp".to_string())];
    let planned = update_code_references(&texts, &mappings).unwrap();
    assert_eq!(
        planned,
        vec![Some("<img src=\"img/logo.webp\"> logo.webp".to_string()), None]
    );
}

#[test]
fn replacer_with_several_mappings() {
    let texts = strings(&["a.png b.jpg c.png"]);
    let mappings = vec![
        ("x/a.png".to_string(), "x/a.avif".to_string()),
        ("y/b.jpg".to_string(), "y/b.webp".to_string()),
    ];
    let planned = update_code_references(&texts, &mappings).unwrap();
    assert_eq!(planned, vec![Some("a.avif b.webp c.png".to_string())]);
}

#[test]
fn replacer_without_mappings_touches_nothing() {
    let texts = strings(&["logo.png", "x"]);
    let planned = update_code_references(&texts, &Vec::new()).unwrap();
    assert_eq!(planned, vec![None, None]);
}

#[test]
fn converter_paths_and_prompts() {
    let c = Converter::new();
    assert_eq!(c.target_extension(Format::Webp), "webp");
    assert_eq!(c.target_extension(Format::Avif), "avif");
    assert_eq!(c.target_path("dir/photo.png", Format::Webp), "dir/photo.webp");
    assert_eq!(c.target_path("photo.tar.jpg", Format::Avif), "photo.tar.avif");
    assert_eq!(c.target_path("noext", Format::Avif), "noext.avif");
    assert_eq!(c.file_prompt("dir/photo.png"), "Convert 'photo.png'?");
    assert_eq!(c.file_prompt("/"), "Convert ''?");
    assert!(c.original_is_replaced("dir/photo.png", Format::Webp));
    assert!(!c.original_is_replaced("dir/photo.webp", Format::Webp));
    assert!(c.original_is_replaced("dir/photo.webp", Format::Avif));
}

#[test]
fn manual_session() {
    let paths = strings(&["a.png", "b.jpg", "c.png"]);
    let mut s = Converter::new().process(&paths, Mode::Manual);
    assert_eq!(s.current(), ConversionRequest::AskFileFormat(0));
    assert_eq!(s.path(2).unwrap(), "c.png");
    assert!(s.path(3).is_none());
    assert_eq!(
        s.advance(ConversionEvent::Chosen(Some(Format::Webp))),
        ConversionRequest::ConvertFile(0, Format::Webp)
    );
    // An event that does not answer the pending request leaves it pending.
    assert_eq!(
        s.advance(ConversionEvent::Chosen(None)),
        ConversionRequest::ConvertFile(0, Format::Webp)
    );
    assert_eq!(
        s.advance(ConversionEvent::Converted(true)),
        ConversionRequest::AskFileFormat(1)
    );
    assert_eq!(s.advance(ConversionEvent::Chosen(None)), ConversionRequest::AskFileFormat(2));
    assert_eq!(
        s.advance(ConversionEvent::Chosen(Some(Format::Avif))),
        ConversionRequest::ConvertFile(2, Format::Avif)
    );
    assert_eq!(s.advance(ConversionEvent::Converted(false)), ConversionRequest::Finished);
    assert_eq!(s.mapped(), &vec![("a.png".to_string(), "a.webp".to_string())]);
    assert_eq!(s.advance(ConversionEvent::Chosen(None)), ConversionRequest::Finished);
}

#[test]
fn manual_session_without_files_finishes_at_once() {
    let s = Converter::new().process(&Vec::new(), Mode::Manual);
    assert_eq!(s.current(), ConversionRequest::Finished);
    assert!(s.mapped().is_empty());
}

#[test]
fn auto_session() {
    let paths = strings(&["a.png", "b.jpg", "c.png"]);
    let mut s = Converter::new().process(&paths, Mode::Auto);
    assert_eq!(s.current(), ConversionRequest::AskCommonFormat);
    assert_eq!(s.advance(ConversionEvent::Chosen(None)), ConversionRequest::AskCommonFormat);
    assert_eq!(
        s.advance(ConversionEvent::Chosen(Some(Format::Avif))),
        ConversionRequest::ConvertAll(Format::Avif)
    );
    // A report with the wrong number of results is not an answer.
    assert_eq!(
        s.advance(ConversionEvent::ConvertedAll(vec![false])),
        ConversionRequest::ConvertAll(Format::Avif)
    );
    let results = vec![true, false, true];
    assert_eq!(s.advance(ConversionEvent::ConvertedAll(results)), ConversionRequest::Finished);
    assert_eq!(
        s.mapped(),
        &vec![
            ("a.png".to_string(), "a.avif".to_string()),
            ("c.png".to_string(), "c.avif".to_string()),
        ]
    );
}

#[test]
fn auto_deletion_continues_after_a_failure() {
    let paths = strings(&["a.png", "b.png", "c.png"]);
    let remover = Remover::new(&paths);
    assert_eq!(deletion_prompt("a.png"), "Delete unused image: a.png");
    let mut run = remover.delete_all_auto();
    assert_eq!(run.current(), DeletionRequest::Delete(0));
    assert!(run.deleted().is_empty());
    assert_eq!(run.path(0).unwrap(), "a.png");
    assert!(run.path(3).is_none());
    assert_eq!(run.advance(DeletionEvent::Removed(false)), DeletionRequest::Delete(1));
    assert_eq!(run.advance(DeletionEvent::Answered(true)), DeletionRequest::Delete(1));
    assert_eq!(run.advance(DeletionEvent::Removed(true)), DeletionRequest::Delete(2));
    assert_eq!(run.advance(DeletionEvent::Removed(false)), DeletionRequest::Finished);
    assert_eq!(run.outcome(), Err(ReimgError::AutoDeletionFailed(2)));
    assert_eq!(run.deleted(), &strings(&["b.png"]));
}

#[test]
fn auto_deletion_succeeds() {
    let mut run = Remover::new(&strings(&["a.png"])).delete_all_auto();
    assert_eq!(run.advance(DeletionEvent::Removed(true)), DeletionRequest::Finished);
    assert_eq!(run.outcome(), Ok(()));
    let empty = Remover::new(&Vec::new()).delete_all_auto();
    assert_eq!(empty.current(), DeletionRequest::Finished);
    assert_eq!(empty.outcome(), Ok(()));
}

#[test]
fn manual_deletion() {
    let paths = strings(&["a.png", "b.png", "c.png"]);
    let mut run = Remover::new(&paths).delete_manual();
    assert_eq!(run.current(), DeletionRequest::Confirm(0));
    assert_eq!(run.advance(DeletionEvent::Answered(false)), DeletionRequest::Confirm(1));
    assert_eq!(run.advance(DeletionEvent::Answered(true)), DeletionRequest::Delete(1));
    assert_eq!(run.advance(DeletionEvent::Removed(false)), DeletionRequest::Confirm(2));
    assert_eq!(run.advance(DeletionEvent::Answered(true)), DeletionRequest::Delete(2));
    assert_eq!(run.advance(DeletionEvent::Removed(true)), DeletionRequest::Finished);
    assert_eq!(run.outcome(), Err(ReimgError::ManualDeletionFailed(1)));
    assert_eq!(run.deleted(), &strings(&["c.png"]));
}

#[test]
fn remaining_after_deletion() {
    let images = strings(&["a.png", "b.png", "c.png", "b.png"]);
    let removed = strings(&["b.png", "x.png"]);
    assert_eq!(remaining_images(&images, &removed), strings(&["a.png", "c.png"]));
    assert_eq!(remaining_images(&images, &Vec::new()), images);
}

#[test]
fn answers() {
    assert_eq!(normalize_answer("  YeS \n"), "yes");
    assert_eq!(normalize_answer("\u{3000}Auto\u{a0}"), "auto");
    assert!(confirm_from_answer("y"));
    assert!(confirm_from_answer("yes"));
    assert!(!confirm_from_answer("Y"));
    assert!(parse_confirm("Y\n"));
    assert!(parse_confirm(" yes "));
    assert!(!parse_confirm("\n"));
    assert!(!parse_confirm("no"));
    assert!(!parse_confirm("yess"));
    assert_eq!(mode_from_answer("a"), Some(Mode::Auto));
    assert_eq!(parse_mode(" AUTO\n"), Some(Mode::Auto));
    assert_eq!(parse_mode("m"), Some(Mode::Manual));
    assert_eq!(parse_mode("Manual"), Some(Mode::Manual));
    assert_eq!(parse_mode("x"), None);
    assert_eq!(format_from_answer("w"), Some(Some(Format::Webp)));
    assert_eq!(parse_format("WEBP\n"), Some(Some(Format::Webp)));
    assert_eq!(parse_format(" a "), Some(Some(Format::Avif)));
    assert_eq!(parse_format("avif"), Some(Some(Format::Avif)));
    for skip in ["skip", "s", "n", "NO"] {
        assert_eq!(parse_format(skip), Some(None), "{}", skip);
    }
    assert_eq!(parse_format("jpeg"), None);
    assert_eq!(parse_format(""), None);
}

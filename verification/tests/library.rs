use converter_bot::dialogue::{
    answer_command, plan_file_message, plan_format_selection, plan_selection_answer, Command,
    FilePlan, SelectionAnswer, SelectionPlan, State,
};
use converter_bot::files::{extract_file_info, FileInfo, Media};
use converter_bot::finish::{FinishAction, RunFinish};
use converter_bot::steps::{FileAction, FileSteps};
use converter_bot::formats::{
    choose_converter, conversion_step, offered_formats, route_for, targets_for, ConversionStep, Converter,
    ImageKind,
};
use converter_bot::jobs::{new_job, plan_job, ConversionRun, FileOutcome};
use converter_bot::media_group::MediaGroupCache;
use converter_bot::menu::{format_menu, selection_text};
use converter_bot::text::{join_with, last_piece, piece_after_first, push_decimal, replace_chars};

fn file(name: &str, ext: &str) -> FileInfo {
    FileInfo {
        file_id: format!("id-{}", name),
        file_name: name.to_string(),
        ext: ext.to_string(),
        message_id: 7,
    }
}

fn strings(items: &[&str]) -> Vec<String> {
    items.iter().map(|s| s.to_string()).collect()
}

#[test]
fn document_extension_is_lowercased_last_piece() {
    let media = Media::Document {
        file_id: "abc".to_string(),
        file_name: Some("Report.Final.PDF".to_string()),
    };
    let f = extract_file_info(&media, 42).unwrap();
    assert_eq!(f.file_id, "abc");
    assert_eq!(f.file_name, "Report.Final.PDF");
    assert_eq!(f.ext, "pdf");
    assert_eq!(f.message_id, 42);
}

#[test]
fn document_without_name_is_called_file() {
    let media = Media::Document { file_id: "abc".to_string(), file_name: None };
    let f = extract_file_info(&media, 1).unwrap();
    assert_eq!(f.file_name, "file");
    assert_eq!(f.ext, "file");
}

#[test]
fn photo_takes_largest_size() {
    let media = Media::Photo { file_ids: strings(&["small", "medium", "large"]) };
    let f = extract_file_info(&media, 3).unwrap();
    assert_eq!(f.file_id, "large");
    assert_eq!(f.file_name, "image.jpg");
    assert_eq!(f.ext, "jpg");
}

#[test]
fn photo_without_sizes_is_no_file() {
    let media = Media::Photo { file_ids: Vec::new() };
    assert!(extract_file_info(&media, 3).is_none());
}

#[test]
fn audio_video_voice_defaults() {
    let a = extract_file_info(&Media::Audio { file_id: "a".to_string(), file_name: None }, 1).unwrap();
    assert_eq!((a.file_name.as_str(), a.ext.as_str()), ("audio.mp3", "mp3"));
    let v = extract_file_info(&Media::Video { file_id: "v".to_string(), file_name: None }, 1).unwrap();
    assert_eq!((v.file_name.as_str(), v.ext.as_str()), ("video.mp4", "mp4"));
    let n = extract_file_info(&Media::Voice { file_id: "n".to_string() }, 1).unwrap();
    assert_eq!((n.file_name.as_str(), n.ext.as_str()), ("voice.ogg", "ogg"));
    let s = extract_file_info(
        &Media::Audio { file_id: "a".to_string(), file_name: Some("Song.WAV".to_string()) },
        1,
    )
    .unwrap();
    assert_eq!(s.ext, "wav");
    assert!(extract_file_info(&Media::Other, 1).is_none());
}

#[test]
fn format_table_entries() {
    assert_eq!(targets_for("png").unwrap(), strings(&["jpg", "jpeg", "webp", "ico", "bmp", "gif"]));
    assert_eq!(targets_for("mp4").unwrap(), strings(&["mp3", "wav", "ogg", "gif"]));
    assert_eq!(targets_for("md").unwrap(), strings(&["docx", "html", "pdf"]));
    assert_eq!(targets_for("html").unwrap(), strings(&["md", "docx"]));
    assert!(targets_for("ico").is_none());
    assert!(targets_for("PNG").is_none());
    assert!(targets_for("txt").is_none());
}

#[test]
fn common_formats_of_several_files() {
    let files = vec![file("a.png", "png"), file("b.jpg", "jpg")];
    assert_eq!(offered_formats(&files), strings(&["webp", "ico", "bmp", "gif"]));
    let files = vec![file("a.mp4", "mp4"), file("b.wav", "wav")];
    assert_eq!(offered_formats(&files), strings(&["mp3", "ogg"]));
}

#[test]
fn unknown_extension_offers_nothing() {
    let files = vec![file("a.png", "png"), file("b.txt", "txt")];
    assert!(offered_formats(&files).is_empty());
    assert!(offered_formats(&Vec::new()).is_empty());
}

#[test]
fn menu_rows_of_three_then_cancel() {
    let rows = format_menu(&strings(&["jpg", "jpeg", "webp", "ico", "bmp", "gif", "png"]));
    assert_eq!(rows.len(), 4);
    let labels: Vec<Vec<&str>> =
        rows.iter().map(|r| r.iter().map(|b| b.label.as_str()).collect()).collect();
    assert_eq!(
        labels,
        vec![vec!["JPG", "JPEG", "WEBP"], vec!["ICO", "BMP", "GIF"], vec!["PNG"], vec!["❌ Отмена"]]
    );
    assert_eq!(rows[1][2].data, "gif");
    assert_eq!(rows[3][0].data, "cancel");
}

#[test]
fn menu_with_full_rows_has_no_empty_row() {
    let rows = format_menu(&strings(&["a", "b", "c"]));
    assert_eq!(rows.len(), 2);
    assert_eq!(rows[0].len(), 3);
    assert_eq!(rows[1].len(), 1);
}

#[test]
fn prompt_for_one_and_several_files() {
    assert_eq!(
        selection_text(&vec![file("photo.png", "png")]),
        "Файл: photo.png\nВыбери целевой формат:"
    );
    assert_eq!(
        selection_text(&vec![file("a.png", "png"), file("b.png", "png")]),
        "Получено файлов: 2\nВыбери целевой формат для всех файлов:"
    );
}

#[test]
fn decimal_rendering() {
    let mut s = String::from("n=");
    push_decimal(&mut s, 0);
    assert_eq!(s, "n=0");
    let mut s = String::new();
    push_decimal(&mut s, 1203);
    assert_eq!(s, "1203");
    let mut s = String::new();
    push_decimal(&mut s, usize::MAX);
    assert_eq!(s, usize::MAX.to_string());
}

#[test]
fn text_pieces() {
    assert_eq!(last_piece("a.b.c", '.'), "c");
    assert_eq!(last_piece("abc", '.'), "abc");
    assert_eq!(last_piece("abc.", '.'), "");
    assert_eq!(piece_after_first("uuid_my_file.png", '_'), "my_file.png");
    assert_eq!(piece_after_first("nounderscore", '_'), "");
    assert_eq!(replace_chars("a b  c", ' ', '_'), "a_b__c");
    assert_eq!(join_with(&strings(&["x", "y", "z"]), "\n"), "x\ny\nz");
    assert_eq!(join_with(&Vec::new(), "\n"), "");
}

#[test]
fn commands_wait_for_files() {
    let (text, next) = answer_command(Command::Start);
    assert!(text.starts_with("Привет! Я универсальный конвертер файлов."));
    assert!(matches!(next, State::ReceiveFiles));
    let (text, next) = answer_command(Command::Cancel);
    assert_eq!(text, "Операция отменена. Жду новые файлы.");
    assert!(matches!(next, State::ReceiveFiles));
}

#[test]
fn default_state_is_start() {
    assert!(matches!(State::default(), State::Start));
}

#[test]
fn selection_plan_cases() {
    assert!(matches!(plan_format_selection(Vec::new(), None), SelectionPlan::Nothing));
    match plan_format_selection(vec![file("a.txt", "txt")], None) {
        SelectionPlan::NoCommonFormat { text } => {
            assert_eq!(text, "Извините, не нашел общих форматов для конвертации этих файлов.")
        }
        other => panic!("unexpected plan {:?}", other),
    }
    match plan_format_selection(vec![file("a.wav", "wav")], Some("g1".to_string())) {
        SelectionPlan::Offer { text, keyboard, next } => {
            assert_eq!(text, "Файл: a.wav\nВыбери целевой формат:");
            assert_eq!(keyboard.len(), 2);
            assert_eq!(keyboard[0][0].label, "MP3");
            match next {
                State::WaitFormatSelection { files, possible_formats, group_id } => {
                    assert_eq!(files.len(), 1);
                    assert_eq!(possible_formats, strings(&["mp3", "ogg"]));
                    assert_eq!(group_id.as_deref(), Some("g1"));
                }
                other => panic!("unexpected state {:?}", other),
            }
        }
        other => panic!("unexpected plan {:?}", other),
    }
}

#[test]
fn file_message_cases() {
    match plan_file_message(&Media::Other, 1, None) {
        FilePlan::AskForFile { text } => {
            assert_eq!(text, "Пожалуйста, отправь мне файл (документ, фото, аудио или видео).")
        }
        other => panic!("unexpected plan {:?}", other),
    }
    let voice = Media::Voice { file_id: "v".to_string() };
    match plan_file_message(&voice, 5, Some("album".to_string())) {
        FilePlan::Collect { group_id, file } => {
            assert_eq!(group_id, "album");
            assert_eq!(file.file_name, "voice.ogg");
            assert_eq!(file.message_id, 5);
        }
        other => panic!("unexpected plan {:?}", other),
    }
    match plan_file_message(&voice, 5, None) {
        FilePlan::Select(SelectionPlan::Offer { keyboard, .. }) => {
            assert_eq!(keyboard[0][0].data, "mp3");
            assert_eq!(keyboard[0][1].data, "wav");
        }
        other => panic!("unexpected plan {:?}", other),
    }
}

#[test]
fn selection_answer_cases() {
    let files = vec![file("a.png", "png"), file("b.png", "png")];
    let offered = strings(&["jpg", "webp"]);
    assert!(matches!(plan_selection_answer(&files, &offered, None, true), SelectionAnswer::Ignore));
    assert!(matches!(
        plan_selection_answer(&files, &offered, Some("jpg".to_string()), false),
        SelectionAnswer::Acknowledge
    ));
    match plan_selection_answer(&files, &offered, Some("cancel".to_string()), true) {
        SelectionAnswer::Cancelled { reply, next } => {
            assert_eq!(reply, "Конвертация отменена.");
            assert!(matches!(next, State::ReceiveFiles));
        }
        other => panic!("unexpected answer {:?}", other),
    }
    match plan_selection_answer(&files, &offered, Some("gif".to_string()), true) {
        SelectionAnswer::Rejected { reply } => assert_eq!(reply, "Недопустимый формат."),
        other => panic!("unexpected answer {:?}", other),
    }
    match plan_selection_answer(&files, &offered, Some("webp".to_string()), true) {
        SelectionAnswer::Convert { target, announce } => {
            assert_eq!(target, "webp");
            assert_eq!(announce, "Начинаю конвертацию 2 файлов в WEBP...");
        }
        other => panic!("unexpected answer {:?}", other),
    }
}

#[test]
fn album_files_kept_in_order_and_taken_once() {
    let mut cache = MediaGroupCache::new();
    let g1 = "g1".to_string();
    let g2 = "g2".to_string();
    cache.add(&g1, file("a.png", "png"));
    cache.add(&g2, file("x.mp3", "mp3"));
    cache.add(&g1, file("b.png", "png"));
    let taken = cache.take(&g1).unwrap();
    let names: Vec<&str> = taken.iter().map(|f| f.file_name.as_str()).collect();
    assert_eq!(names, vec!["a.png", "b.png"]);
    assert!(cache.take(&g1).is_none());
    assert_eq!(cache.take(&g2).unwrap().len(), 1);
}

#[test]
fn converter_routing() {
    assert_eq!(choose_converter("PNG", "jpeg"), Converter::Image(ImageKind::Jpeg));
    assert_eq!(choose_converter("bmp", "ICO"), Converter::Image(ImageKind::Ico));
    assert_eq!(choose_converter("gif", "webp"), Converter::Image(ImageKind::WebP));
    assert_eq!(choose_converter("mp4", "gif"), Converter::Media);
    assert_eq!(choose_converter("wav", "mp3"), Converter::Media);
    assert_eq!(choose_converter("md", "pdf"), Converter::Document);
    assert_eq!(choose_converter("docx", "pdf"), Converter::Document);
}

#[test]
fn conversion_steps() {
    match conversion_step("temp/i.mp4", "temp/o.mp3", "mp4", "mp3") {
        ConversionStep::Run { program, args, quiet } => {
            assert_eq!(program, "ffmpeg");
            assert!(quiet);
            assert_eq!(args, strings(&["-y", "-i", "temp/i.mp4", "temp/o.mp3"]));
        }
        _ => panic!("expected ffmpeg"),
    }
    match conversion_step("temp/i.md", "temp/o.PDF", "md", "PDF") {
        ConversionStep::Run { program, args, quiet } => {
            assert_eq!(program, "python3");
            assert!(!quiet);
            assert_eq!(args, strings(&["convert.py", "temp/i.md", "temp/o.PDF", "pdf"]));
        }
        _ => panic!("expected script"),
    }
    assert!(matches!(
        conversion_step("temp/i.png", "temp/o.gif", "png", "gif"),
        ConversionStep::Native(ImageKind::Gif)
    ));
}

#[test]
fn job_paths_and_display_name() {
    let f = file("my holiday photo.PNG", "png");
    let job = plan_job(&f, "webp", "1234", "my holiday photo");
    assert_eq!(job.input_path, "temp/1234.png");
    assert_eq!(job.output_path, "temp/1234_my_holiday_photo.webp");
    assert_eq!(job.display_name, "my_holiday_photo.webp");
    let job = plan_job(&file("archive.tar.gz", "gz"), "pdf", "id", "archive.tar");
    assert_eq!(job.output_path, "temp/id_archive.tar.pdf");
    let stem_of = |name: &str| {
        let f = file(name, "x");
        let job = new_job(&f, "pdf").unwrap();
        job.display_name
    };
    assert_eq!(stem_of(".bashrc"), ".bashrc.pdf");
    assert_eq!(stem_of("a."), "a.pdf");
    assert_eq!(stem_of("noext"), "noext.pdf");
    assert_eq!(stem_of("archive.tar.gz"), "archive.tar.pdf");
    assert_eq!(stem_of("my holiday photo.PNG"), "my_holiday_photo.pdf");
}

#[test]
fn fresh_job_uses_a_uuid() {
    let f = file("song.wav", "wav");
    let job = new_job(&f, "mp3").unwrap();
    assert_eq!(job.display_name, "song.mp3");
    let id = &job.input_path["temp/".len()..job.input_path.len() - ".wav".len()];
    assert_eq!(id.len(), 36);
    assert!(id.chars().all(|c| c == '-' || c.is_ascii_digit() || ('a'..='f').contains(&c)));
    assert_eq!(job.output_path, format!("temp/{}_song.mp3", id));
    let other = new_job(&f, "mp3").unwrap();
    assert_ne!(other.input_path, job.input_path);
}

#[test]
fn run_records_every_outcome() {
    let f = file("a.png", "png");
    let job = plan_job(&f, "jpg", "u1", "a");
    let mut run = ConversionRun::new();
    run.lookup_failed(&f, "timeout");
    run.record(&f, &job, FileOutcome::CreateFailed("disk full".to_string()));
    run.record(&f, &job, FileOutcome::DownloadFailed("reset".to_string()));
    run.record(&f, &job, FileOutcome::ConvertFailed("bad data".to_string()));
    assert!(run.converted.is_empty());
    assert_eq!(run.nothing_converted_note().unwrap(), "Не удалось конвертировать ни один файл.");
    assert_eq!(
        run.errors,
        strings(&[
            "Не удалось получить инфо о файле a.png: timeout",
            "Не удалось создать временный файл: disk full",
            "Не удалось скачать файл a.png: reset",
            "Ошибка конвертации a.png: bad data",
        ])
    );
    assert_eq!(
        run.cleanup,
        strings(&["temp/u1.png", "temp/u1.png", "temp/u1.png", "temp/u1_a.jpg"])
    );
    run.record(&f, &job, FileOutcome::Converted);
    assert_eq!(run.converted.len(), 1);
    assert_eq!(run.converted[0].path, "temp/u1_a.jpg");
    assert_eq!(run.converted[0].display_name, "a.jpg");
    assert!(run.nothing_converted_note().is_none());
    assert_eq!(
        run.error_summary().unwrap(),
        "Некоторые ошибки:\nНе удалось получить инфо о файле a.png: timeout\nНе удалось создать временный файл: disk full\nНе удалось скачать файл a.png: reset\nОшибка конвертации a.png: bad data"
    );
    assert!(ConversionRun::new().error_summary().is_none());
}

#[test]
fn job_paths_stay_in_temp() {
    let f = file("../../etc/pass wd.txt", "txt");
    let job = new_job(&f, "pdf").unwrap();
    assert_eq!(job.output_path.matches('/').count(), 1);
    assert!(job.output_path.starts_with("temp/"));
    assert!(job.output_path.ends_with("_pass_wd.pdf"));
    assert_eq!(job.input_path.matches('/').count(), 1);
}

#[test]
fn failed_temp_name_is_reported() {
    let mut run = ConversionRun::new();
    run.temp_name_failed("no entropy");
    assert_eq!(run.errors, strings(&["Не удалось создать временный файл: no entropy"]));
    assert!(run.cleanup.is_empty());
}

#[test]
fn route_of_lowercased_extensions() {
    assert_eq!(route_for("png", "jpg"), Converter::Image(ImageKind::Jpeg));
    assert_eq!(route_for("PNG", "jpg"), Converter::Document);
    assert_eq!(route_for("ogg", "md"), Converter::Media);
    assert_eq!(choose_converter("Png", "JPG"), choose_converter("png", "jpg"));
}

fn drive(run: &ConversionRun, results: &[bool]) -> Vec<String> {
    let mut finish = RunFinish::new(run);
    let mut seen = Vec::new();
    let mut k = 0;
    loop {
        let action = finish.action(run);
        let label = match &action {
            FinishAction::DeleteProgress => "delete".to_string(),
            FinishAction::SendDocument { index } => format!("send {}", index),
            FinishAction::EditProgress { text } => format!("edit {}", text),
            FinishAction::SendSummary { text } => format!("summary {}", text),
            FinishAction::RemoveFiles => "remove".to_string(),
            FinishAction::Fail => "fail".to_string(),
            FinishAction::Complete { next } => {
                assert!(matches!(next, State::ReceiveFiles));
                "complete".to_string()
            }
            FinishAction::Done => break,
        };
        seen.push(label);
        let ok = results.get(k).copied().unwrap_or(true);
        k += 1;
        finish.advance(ok);
    }
    seen
}

#[test]
fn finishing_a_run() {
    let f = file("a.png", "png");
    let job = plan_job(&f, "jpg", "u1", "a");
    let mut run = ConversionRun::new();
    run.record(&f, &job, FileOutcome::Converted);
    run.record(&f, &job, FileOutcome::Converted);
    assert_eq!(drive(&run, &[]), vec!["delete", "send 0", "send 1", "remove", "complete"]);
    assert_eq!(drive(&run, &[false, false]), vec!["delete", "send 0", "remove", "fail"]);
    run.record(&f, &job, FileOutcome::ConvertFailed("x".to_string()));
    assert_eq!(
        drive(&run, &[true, true, true, false]),
        vec!["delete", "send 0", "send 1", "summary Некоторые ошибки:\nОшибка конвертации a.png: x", "remove", "complete"]
    );
    let mut empty = ConversionRun::new();
    empty.lookup_failed(&f, "gone");
    assert_eq!(
        drive(&empty, &[false]),
        vec![
            "edit Не удалось конвертировать ни один файл.",
            "summary Некоторые ошибки:\nНе удалось получить инфо о файле a.png: gone",
            "remove",
            "fail"
        ]
    );
}

fn walk(files: &Vec<FileInfo>, target: &str, results: &[Result<(), &str>]) -> (Vec<String>, ConversionRun) {
    let mut steps = FileSteps::new();
    let mut run = ConversionRun::new();
    let mut seen = Vec::new();
    let mut k = 0;
    loop {
        let label = match steps.action(files, target) {
            FileAction::Finished => break,
            FileAction::LookUp { file_id } => format!("lookup {}", file_id),
            FileAction::CreateFile { path } => {
                assert!(path.starts_with("temp/"));
                "create".to_string()
            }
            FileAction::Download => "download".to_string(),
            FileAction::Convert { ext_in, ext_out, .. } => format!("convert {} {}", ext_in, ext_out),
        };
        seen.push(label);
        let r = results.get(k).copied().unwrap_or(Ok(())).map_err(|e| e.to_string());
        k += 1;
        steps.advance(files, target, &mut run, r);
    }
    (seen, run)
}

#[test]
fn each_file_goes_through_its_steps_in_order() {
    let files = vec![file("a.png", "png"), file("b.png", "png")];
    let (seen, run) = walk(&files, "jpg", &[]);
    assert_eq!(
        seen,
        vec![
            "lookup id-a.png", "create", "download", "convert png jpg",
            "lookup id-b.png", "create", "download", "convert png jpg"
        ]
    );
    assert_eq!(run.converted.len(), 2);
    assert_eq!(run.converted[1].display_name, "b.jpg");
    assert_eq!(run.cleanup.len(), 4);
    assert!(run.errors.is_empty());
}

#[test]
fn a_failed_step_moves_on_to_the_next_file() {
    let files = vec![file("a.png", "png"), file("b.png", "png"), file("c.png", "png")];
    let (seen, run) = walk(&files, "gif", &[Err("gone"), Ok(()), Ok(()), Err("reset"), Ok(()), Err("disk")]);
    assert_eq!(
        seen,
        vec!["lookup id-a.png", "lookup id-b.png", "create", "download", "lookup id-c.png", "create"]
    );
    assert_eq!(
        run.errors,
        strings(&[
            "Не удалось получить инфо о файле a.png: gone",
            "Не удалось скачать файл b.png: reset",
            "Не удалось создать временный файл: disk",
        ])
    );
    assert_eq!(run.cleanup.len(), 2);
    assert!(run.converted.is_empty());
}

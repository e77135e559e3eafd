use topdf::batch::{App, ConversionStatus, Effect, Message};
use topdf::paths::output_path_for;

fn paths(ps: &[&str]) -> Vec<String> {
    ps.iter().map(|p| p.to_string()).collect()
}

#[test]
fn output_path_uses_chosen_directory() {
    let dir = Some("/out".to_string());
    assert_eq!(output_path_for("/in/doc.md", &dir), Some("/out/doc.pdf".to_string()));
}

#[test]
fn output_path_defaults_to_parent() {
    assert_eq!(output_path_for("/in/doc.md", &None), Some("/in/doc.pdf".to_string()));
}

#[test]
fn output_path_without_parent_or_directory_is_none() {
    assert_eq!(output_path_for("doc.md", &None), None);
}

#[test]
fn output_path_ignores_trailing_separators() {
    assert_eq!(output_path_for("a/b.md/", &None), Some("a/b.pdf".to_string()));
    assert_eq!(
        output_path_for("/in/doc.md//", &Some("/out".to_string())),
        Some("/out/doc.pdf".to_string())
    );
    assert_eq!(
        output_path_for("dir/", &Some("/out".to_string())),
        Some("/out/dir.pdf".to_string())
    );
    assert_eq!(output_path_for("///", &Some("/out".to_string())), None);
}

#[test]
fn output_path_keeps_dotfile_stem() {
    let dir = Some("/out".to_string());
    assert_eq!(output_path_for("/in/.hidden", &dir), Some("/out/.hidden.pdf".to_string()));
}

#[test]
fn adding_same_path_twice_keeps_one_entry() {
    let mut app = App::new();
    app.add_files(paths(&["/tmp/a.txt"]));
    app.add_files(paths(&["/tmp/a.txt"]));
    assert_eq!(app.files.len(), 1);
    app.add_files(paths(&["/tmp/a.txt", "/tmp/a.txt", "/tmp/b.txt"]));
    assert_eq!(app.files.len(), 2);
    assert_eq!(app.files[0].path, "/tmp/a.txt");
    assert_eq!(app.files[1].path, "/tmp/b.txt");
}

#[test]
fn added_entries_start_pending() {
    let mut app = App::new();
    app.add_files(paths(&["/tmp/a.txt"]));
    assert!(matches!(app.files[0].status, ConversionStatus::Pending));
}

#[test]
fn remove_drops_the_entry() {
    let mut app = App::new();
    app.add_files(paths(&["/tmp/a.txt", "/tmp/b.txt"]));
    app.remove_file(0);
    assert_eq!(app.files.len(), 1);
    assert_eq!(app.files[0].path, "/tmp/b.txt");
    app.remove_file(7);
    assert_eq!(app.files.len(), 1);
}

#[test]
fn start_marks_entries_converting_and_returns_jobs() {
    let mut app = App::new();
    app.add_files(paths(&["/in/a.txt", "/in/b.txt"]));
    let jobs = app.start_conversion();
    assert_eq!(jobs.len(), 2);
    assert_eq!(jobs[0].index, 0);
    assert_eq!(jobs[0].input, "/in/a.txt");
    assert_eq!(jobs[0].output, "/in/a.pdf");
    assert_eq!(jobs[1].index, 1);
    assert!(app.is_converting);
    assert_eq!(app.total_files, 2);
    assert_eq!(app.completed_files, 0);
    assert!(matches!(app.files[0].status, ConversionStatus::Converting));
    assert!(matches!(app.files[1].status, ConversionStatus::Converting));
}

#[test]
fn start_with_no_files_is_a_no_op() {
    let mut app = App::new();
    let jobs = app.start_conversion();
    assert!(jobs.is_empty());
    assert!(!app.is_converting);
}

#[test]
fn start_while_converting_is_a_no_op() {
    let mut app = App::new();
    app.add_files(paths(&["/in/a.txt"]));
    let jobs = app.start_conversion();
    assert_eq!(jobs.len(), 1);
    let again = app.start_conversion();
    assert!(again.is_empty());
    assert_eq!(app.total_files, 1);
}

#[test]
fn entry_without_output_path_fails_at_start() {
    let mut app = App::new();
    app.add_files(paths(&["bare.txt"]));
    let jobs = app.start_conversion();
    assert!(jobs.is_empty());
    assert!(!app.is_converting);
    match &app.files[0].status {
        ConversionStatus::Error(m) => assert_eq!(m, "Input file has no parent directory"),
        s => panic!("expected an error status, got {:?}", s),
    }
}

#[test]
fn batch_of_three_with_one_failure() {
    let mut app = App::new();
    app.add_files(paths(&["/in/a.txt", "/in/b.txt", "/in/c.txt"]));
    let jobs = app.start_conversion();
    assert_eq!(jobs.len(), 3);
    // Completions arrive out of submission order.
    app.on_finished(1, Err("Failed to read file".to_string()));
    assert!(app.is_converting);
    app.on_finished(2, Ok(()));
    app.on_finished(0, Ok(()));
    assert!(!app.is_converting);
    assert_eq!(app.completed_files, 3);
    assert_eq!(app.total_files, 3);
    assert!(matches!(app.files[0].status, ConversionStatus::Success));
    match &app.files[1].status {
        ConversionStatus::Error(m) => assert_eq!(m, "Failed to read file"),
        s => panic!("expected an error status, got {:?}", s),
    }
    assert!(matches!(app.files[2].status, ConversionStatus::Success));
    for f in &app.files {
        assert!(!matches!(f.status, ConversionStatus::Converting));
        assert!(!matches!(f.status, ConversionStatus::Pending));
    }
}

#[test]
fn retry_skips_success_and_reattempts_errors() {
    let mut app = App::new();
    app.add_files(paths(&["/in/a.txt", "/in/b.txt"]));
    let jobs = app.start_conversion();
    assert_eq!(jobs.len(), 2);
    app.on_finished(0, Ok(()));
    app.on_finished(1, Err("boom".to_string()));
    assert!(!app.is_converting);
    let retry = app.start_conversion();
    assert_eq!(retry.len(), 1);
    assert_eq!(retry[0].index, 1);
    assert_eq!(retry[0].input, "/in/b.txt");
    assert!(matches!(app.files[0].status, ConversionStatus::Success));
    assert!(matches!(app.files[1].status, ConversionStatus::Converting));
    assert_eq!(app.total_files, 1);
}

#[test]
fn set_output_dir_redirects_jobs() {
    let mut app = App::new();
    app.add_files(paths(&["/in/a.txt"]));
    app.set_output_dir("/out".to_string());
    let jobs = app.start_conversion();
    assert_eq!(jobs[0].output, "/out/a.pdf");
}

#[test]
fn update_dispatches_messages() {
    let mut app = App::new();
    assert_eq!(app.update(Message::AddFiles), Effect::PickFiles);
    assert_eq!(app.update(Message::SelectOutputDir), Effect::PickOutputDir);
    assert_eq!(
        app.update(Message::OpenLink("https://example.invalid".to_string())),
        Effect::OpenUrl("https://example.invalid".to_string())
    );
    assert_eq!(app.update(Message::NoOp), Effect::Quiet);
    assert_eq!(
        app.update(Message::FilesSelected(paths(&["/in/a.txt"]))),
        Effect::Quiet
    );
    assert_eq!(app.files.len(), 1);
    assert_eq!(app.update(Message::ToggleAbout), Effect::Quiet);
    assert!(app.show_about);
    assert_eq!(
        app.update(Message::OutputDirSelected("/out".to_string())),
        Effect::Quiet
    );
    assert_eq!(app.output_dir.as_deref(), Some("/out"));
    let effect = app.update(Message::ConvertAll);
    match effect {
        Effect::Spawn(jobs) => {
            assert_eq!(jobs.len(), 1);
            assert_eq!(jobs[0].output, "/out/a.pdf");
        },
        e => panic!("expected spawned jobs, got {:?}", e),
    }
    assert_eq!(
        app.update(Message::ConversionFinished(0, Ok(()))),
        Effect::Quiet
    );
    assert!(matches!(app.files[0].status, ConversionStatus::Success));
    assert!(!app.is_converting);
}

#[test]
fn progress_never_exceeds_total() {
    let mut app = App::new();
    app.add_files(paths(&["/in/a.txt", "/in/b.txt"]));
    let _jobs = app.start_conversion();
    assert!(app.completed_files <= app.total_files);
    app.on_finished(0, Ok(()));
    assert!(app.completed_files <= app.total_files);
    app.on_finished(1, Ok(()));
    assert!(app.completed_files <= app.total_files);
    assert_eq!(app.completed_files, app.total_files);
}

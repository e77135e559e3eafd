use topdf::classify::FileType;

#[test]
fn classify_markdown_extensions() {
    assert!(matches!(FileType::from_path("/tmp/a.md"), FileType::Markdown));
    assert!(matches!(FileType::from_path("/tmp/a.markdown"), FileType::Markdown));
}

#[test]
fn classify_text_like_extensions() {
    assert!(matches!(FileType::from_path("a.txt"), FileType::Txt));
    assert!(matches!(FileType::from_path("a.rs"), FileType::Txt));
    assert!(matches!(FileType::from_path("a.py"), FileType::Txt));
    assert!(matches!(FileType::from_path("a.js"), FileType::Txt));
    assert!(matches!(FileType::from_path("a.c"), FileType::Txt));
    assert!(matches!(FileType::from_path("a.cpp"), FileType::Txt));
}

#[test]
fn classify_data_extensions() {
    assert!(matches!(FileType::from_path("d.json"), FileType::Json));
    assert!(matches!(FileType::from_path("d.xml"), FileType::Xml));
    assert!(matches!(FileType::from_path("d.csv"), FileType::Csv));
    assert!(matches!(FileType::from_path("d.docx"), FileType::Docx));
    assert!(matches!(FileType::from_path("d.html"), FileType::Html));
    assert!(matches!(FileType::from_path("d.htm"), FileType::Html));
}

#[test]
fn classify_image_extensions() {
    assert!(matches!(FileType::from_path("i.png"), FileType::Image));
    assert!(matches!(FileType::from_path("i.jpg"), FileType::Image));
    assert!(matches!(FileType::from_path("i.jpeg"), FileType::Image));
    assert!(matches!(FileType::from_path("i.bmp"), FileType::Image));
}

#[test]
fn classify_is_case_insensitive() {
    assert!(matches!(FileType::from_path("A.MD"), FileType::Markdown));
    assert!(matches!(FileType::from_path("A.Md"), FileType::Markdown));
    assert!(matches!(FileType::from_path("A.JSON"), FileType::Json));
    assert!(matches!(FileType::from_path("A.DocX"), FileType::Docx));
    assert!(matches!(FileType::from_path("A.JPEG"), FileType::Image));
}

#[test]
fn classify_is_deterministic() {
    for p in ["x.md", "x.unknownext", "x", "dir/x.CSV"] {
        let a = FileType::from_path(p);
        let b = FileType::from_path(p);
        assert_eq!(format!("{:?}", a), format!("{:?}", b));
    }
}

#[test]
fn classify_unknown_cases() {
    assert!(matches!(FileType::from_path("note.unknownext"), FileType::Unknown));
    assert!(matches!(FileType::from_path("noextension"), FileType::Unknown));
    assert!(matches!(FileType::from_path("/tmp/.gitignore"), FileType::Unknown));
    assert!(matches!(FileType::from_path("trailing."), FileType::Unknown));
    assert!(matches!(FileType::from_path(""), FileType::Unknown));
    assert!(matches!(FileType::from_path("a.yaml"), FileType::Unknown));
    assert!(matches!(FileType::from_path("a.toml"), FileType::Unknown));
    assert!(matches!(FileType::from_path("a.xlsx"), FileType::Unknown));
}

#[test]
fn classify_ignores_trailing_separators() {
    assert!(matches!(FileType::from_path("a/b.md/"), FileType::Markdown));
    assert!(matches!(FileType::from_path("/in/doc.JSON//"), FileType::Json));
    assert!(matches!(FileType::from_path("dir/"), FileType::Unknown));
    assert!(matches!(FileType::from_path("///"), FileType::Unknown));
}

#[test]
fn classify_uses_last_extension() {
    assert!(matches!(FileType::from_path("a.tar.md"), FileType::Markdown));
    assert!(matches!(FileType::from_path("dir.json/a.txt"), FileType::Txt));
}

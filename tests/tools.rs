use pbs_admin::layout::{client_records_root_of, templates_root_of};
use pbs_admin::tools::{
    audio_mime_type, audio_size_allowed, audio_upload_name, escape_backslashes, has_suffix, keeps,
    occurs, pandoc_args, pdf_conversion_script, safe_file_name, upload_file_name, MAX_AUDIO_BYTES,
};

#[test]
fn listing_filter() {
    assert!(keeps("report.docx", &None));
    assert!(keeps("report.docx", &Some("epo".to_string())));
    assert!(!keeps("report.docx", &Some("pdf".to_string())));
    assert!(keeps("report.docx", &Some(String::new())));
    assert!(occurs("x", "x"));
    assert!(!occurs("xy", "x"));
}

#[test]
fn unsafe_characters_are_replaced() {
    assert_eq!(safe_file_name(r#"a/b\c:d*e?f"g<h>i|j.m4a"#), "a_b_c_d_e_f_g_h_i_j.m4a");
    assert_eq!(safe_file_name("plain.wav"), "plain.wav");
    assert_eq!(safe_file_name(""), "");
}

#[test]
fn upload_names() {
    assert_eq!(upload_file_name(1_700_000_000, "my:clip.m4a"), "1700000000_my_clip.m4a");
    assert_eq!(upload_file_name(0, "a"), "0_a");
}

#[test]
fn backslashes_are_doubled() {
    assert_eq!(escape_backslashes(r"C:\a\b.docx"), r"C:\\a\\b.docx");
    assert_eq!(escape_backslashes("/a/b"), "/a/b");
}

#[test]
fn pdf_script_holds_escaped_paths() {
    let s = pdf_conversion_script(r"C:\in.docx", r"C:\out.pdf");
    assert!(s.contains(r#"$word.Documents.Open("C:\\in.docx")"#));
    assert!(s.contains(r#"$doc.SaveAs("C:\\out.pdf", 17)"#));
    assert!(s.starts_with("\n$word = New-Object -ComObject Word.Application"));
}

#[test]
fn pandoc_arguments() {
    assert_eq!(pandoc_args("in.md", "out.docx", None), vec!["in.md", "-o", "out.docx"]);
    assert_eq!(
        pandoc_args("-", "out.docx", Some("t.docx".to_string())),
        vec!["-", "-o", "out.docx", "--reference-doc", "t.docx"]
    );
}

#[test]
fn mime_types() {
    assert_eq!(audio_mime_type("a.m4a"), "audio/mp4");
    assert_eq!(audio_mime_type("a.mp3"), "audio/mpeg");
    assert_eq!(audio_mime_type("a.wav"), "audio/wav");
    assert_eq!(audio_mime_type("a.ogg"), "audio/mpeg");
    assert!(has_suffix("a.wav", ".wav"));
    assert!(!has_suffix("wav", ".wav"));
}

#[test]
fn audio_names_and_sizes() {
    assert_eq!(audio_upload_name("/tmp/PBS_Admin/1_clip.mp3", '/'), "1_clip.mp3");
    assert_eq!(audio_upload_name("/tmp/a\\b.m4a", '/'), "a\\b.m4a");
    assert_eq!(audio_upload_name("C:\\tmp\\b.m4a", '\\'), "b.m4a");
    assert_eq!(audio_upload_name("/", '/'), "audio.m4a");
    assert!(audio_size_allowed(MAX_AUDIO_BYTES));
    assert!(!audio_size_allowed(MAX_AUDIO_BYTES + 1));
    assert_eq!(MAX_AUDIO_BYTES, 25 * 1024 * 1024);
}

#[test]
fn application_folders() {
    assert_eq!(client_records_root_of("/home/ann/Documents", '/'), "/home/ann/Documents/PBS_Admin/Client_Records");
    assert_eq!(templates_root_of("C:\\Users\\ann\\Documents", '\\'), "C:\\Users\\ann\\Documents\\PBS_Admin\\Templates");
}

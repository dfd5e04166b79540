use modrinth_downloader::{derive_filename, disposition_filename, filename_from_parts};

fn header(name: &str, value: &str) -> (String, String) {
    (name.to_string(), value.to_string())
}

#[test]
fn name_from_last_url_segment() {
    assert_eq!(derive_filename("https://x/y/z.jar", &vec![]), "z.jar");
}

#[test]
fn name_from_content_disposition() {
    let headers = vec![header("Content-Disposition", "attachment; filename=\"mod.jar\"")];
    assert_eq!(derive_filename("https://x/y/", &headers), "mod.jar");
}

#[test]
fn name_is_percent_decoded() {
    assert_eq!(derive_filename("https://x/y/%20name.jar", &vec![]), " name.jar");
}

#[test]
fn same_inputs_give_same_name() {
    let headers = vec![header("content-disposition", "inline; FILENAME=a.zip")];
    let a = derive_filename("https://x/q/r.jar", &headers);
    let b = derive_filename("https://x/q/r.jar", &headers);
    assert_eq!(a, b);
    assert_eq!(a, "a.zip");
}

#[test]
fn empty_segment_falls_back_to_download() {
    assert_eq!(derive_filename("https://x/y/", &vec![]), "download");
}

#[test]
fn unparsable_url_falls_back_to_download() {
    assert_eq!(derive_filename("not a url", &vec![]), "download");
}

#[test]
fn undecodable_segment_is_kept_raw() {
    assert_eq!(derive_filename("https://x/y/a%FF.jar", &vec![]), "a%FF.jar");
}

#[test]
fn header_name_matched_in_any_case() {
    let headers = vec![
        header("Content-Type", "application/java-archive"),
        header("CONTENT-DISPOSITION", "attachment; filename= \"b.jar\" ;"),
    ];
    assert_eq!(derive_filename("https://x/y/z.jar", &headers), "b.jar");
}

#[test]
fn empty_header_name_falls_back_to_url() {
    let headers = vec![header("Content-Disposition", "attachment; filename=\"\"")];
    assert_eq!(derive_filename("https://x/y/z.jar", &headers), "z.jar");
}

#[test]
fn header_without_filename_falls_back_to_url() {
    let headers = vec![header("Content-Disposition", "attachment")];
    assert_eq!(derive_filename("https://x/y/z.jar", &headers), "z.jar");
}

#[test]
fn disposition_value_is_trimmed() {
    assert_eq!(disposition_filename("attachment; filename=  x.jar ;  "), Some("x.jar".to_string()));
    assert_eq!(disposition_filename("attachment; Filename=\"q r.jar\""), Some("q r.jar".to_string()));
    assert_eq!(disposition_filename("attachment; filename=%20a"), Some("%20a".to_string()));
    assert_eq!(disposition_filename("attachment"), None);
    assert_eq!(disposition_filename("filename=;"), None);
}

#[test]
fn parts_prefer_decoded_segment() {
    let name = filename_from_parts(&vec![], Some("a%20b".to_string()), Some("a b".to_string()));
    assert_eq!(name, "a b");
    let raw = filename_from_parts(&vec![], Some("a%FF".to_string()), None);
    assert_eq!(raw, "a%FF");
    let none = filename_from_parts(&vec![], None, None);
    assert_eq!(none, "download");
    let empty = filename_from_parts(&vec![], Some(String::new()), Some(String::new()));
    assert_eq!(empty, "download");
}

use hydra_httpdl::config::DownloadConfig;
use hydra_httpdl::naming::{
    accepts_byte_ranges, determine_output_path, extract_filename_from_url, find_subslice,
    parse_content_disposition, parse_header_line, path_basename_exec, trim_bytes,
};

#[test]
fn find_subslice_returns_the_first_occurrence() {
    assert_eq!(find_subslice(b"none, bytes", b"bytes"), Some(6));
    assert_eq!(find_subslice(b"abcabc", b"abc"), Some(0));
    assert_eq!(find_subslice(b"abcabc", b"cab"), Some(2));
    assert_eq!(find_subslice(b"abc", b"abcd"), None);
    assert_eq!(find_subslice(b"abc", b""), Some(0));
}

#[test]
fn accept_ranges_header_must_name_bytes() {
    assert!(accepts_byte_ranges(Some(b"bytes")));
    assert!(accepts_byte_ranges(Some(b"none, bytes")));
    assert!(!accepts_byte_ranges(Some(b"none")));
    assert!(!accepts_byte_ranges(None));
}

#[test]
fn quoted_disposition_filename_ends_at_the_closing_quote() {
    let r = parse_content_disposition(b"attachment; filename=\"my file.bin\"; size=3");
    assert_eq!(r, Some(b"my file.bin".to_vec()));
}

#[test]
fn unquoted_disposition_filename_ends_at_the_semicolon_or_end() {
    assert_eq!(
        parse_content_disposition(b"attachment; filename=plain.bin; foo=1"),
        Some(b"plain.bin".to_vec())
    );
    assert_eq!(
        parse_content_disposition(b"attachment; filename=plain.bin"),
        Some(b"plain.bin".to_vec())
    );
}

#[test]
fn disposition_without_filename_or_closing_quote_yields_nothing() {
    assert_eq!(parse_content_disposition(b"attachment"), None);
    assert_eq!(parse_content_disposition(b"attachment; filename=\"broken"), None);
}

#[test]
fn url_filename_is_the_decoded_last_path_segment() {
    assert_eq!(
        extract_filename_from_url(b"https://example.com/path/My%20File.bin?x=1"),
        Some(b"My File.bin".to_vec())
    );
    assert_eq!(
        extract_filename_from_url(b"https://example.com/archive.tar.gz"),
        Some(b"archive.tar.gz".to_vec())
    );
}

#[test]
fn url_without_a_usable_segment_yields_nothing() {
    assert_eq!(extract_filename_from_url(b"https://example.com/"), None);
    assert_eq!(extract_filename_from_url(b"not a url"), None);
}

#[test]
fn detected_name_replaces_only_the_default_output_path() {
    let detected = Some(b"real.bin".to_vec());
    assert_eq!(
        determine_output_path(b"output.bin", detected.clone()),
        b"real.bin".to_vec()
    );
    assert_eq!(
        determine_output_path(b"downloads/output.bin", detected.clone()),
        b"real.bin".to_vec()
    );
    assert_eq!(
        determine_output_path(b"chosen.bin", detected),
        b"chosen.bin".to_vec()
    );
    assert_eq!(
        determine_output_path(b"output.bin", None),
        b"output.bin".to_vec()
    );
}

#[test]
fn basename_ignores_trailing_slashes() {
    assert_eq!(path_basename_exec(b"/a/b/c.txt"), b"c.txt".to_vec());
    assert_eq!(path_basename_exec(b"/a/b/"), b"b".to_vec());
    assert_eq!(path_basename_exec(b"/"), b"".to_vec());
    assert_eq!(path_basename_exec(b"name"), b"name".to_vec());
}

#[test]
fn header_lines_split_at_the_first_colon_and_trim() {
    let (name, value) = parse_header_line(b"Authorization:  Bearer abc ").unwrap();
    assert_eq!(name, b"Authorization".to_vec());
    assert_eq!(value, b"Bearer abc".to_vec());
    let (name, value) = parse_header_line(b"X-Empty:").unwrap();
    assert_eq!(name, b"X-Empty".to_vec());
    assert_eq!(value, b"".to_vec());
    let (_, value) = parse_header_line(b"Time: 12:30:00").unwrap();
    assert_eq!(value, b"12:30:00".to_vec());
    assert_eq!(parse_header_line(b"no colon here"), None);
}

#[test]
fn trim_strips_ascii_whitespace_only_at_the_edges() {
    assert_eq!(trim_bytes(b"  a b \t\r\n"), b"a b".to_vec());
    assert_eq!(trim_bytes(b""), b"".to_vec());
    assert_eq!(trim_bytes(b" \t "), b"".to_vec());
}

#[test]
fn logging_follows_verbose_and_silent() {
    let mut cfg = DownloadConfig {
        url: String::from("https://example.com/f"),
        output_path: String::from("output.bin"),
        num_connections: 16,
        chunk_size: 5 * 1024 * 1024,
        buffer_size: 8 * 1024 * 1024,
        verbose: true,
        silent: false,
        log: false,
        force_new: false,
        resume_only: false,
        headers: Vec::new(),
        force_download: false,
    };
    assert!(cfg.should_log());
    assert!(!cfg.should_log_stats());
    assert!(!cfg.flags_conflict());
    cfg.silent = true;
    assert!(!cfg.should_log());
    cfg.log = true;
    assert!(cfg.should_log_stats());
    cfg.force_new = true;
    cfg.resume_only = true;
    assert!(cfg.flags_conflict());
}

use bbfs::platform::{create_link_file, link_file_ext, parse_link_file, sanitize_name, Platform};

#[test]
fn sanitize_windows_rewrites_reserved_characters() {
    let out = sanitize_name(Platform::Windows, "HW?/2");
    assert_eq!(out, "HW--2");
}

#[test]
fn sanitize_unix_rewrites_only_slash() {
    let out = sanitize_name(Platform::Linux, "HW?/2");
    assert_eq!(out, "HW?-2");
    let out = sanitize_name(Platform::MacOs, "HW?/2");
    assert_eq!(out, "HW?-2");
}

#[test]
fn sanitize_is_idempotent_on_samples() {
    for p in [Platform::Linux, Platform::MacOs, Platform::Windows] {
        for name in ["HW?/2", "a<b>c:d\\e|f?g*h/i", "plain", "", "---"] {
            let once = sanitize_name(p, name);
            let twice = sanitize_name(p, &once);
            assert_eq!(once, twice);
        }
    }
}

#[test]
fn sanitize_keeps_clean_names() {
    assert_eq!(sanitize_name(Platform::Windows, "Week 1"), "Week 1");
    assert_eq!(sanitize_name(Platform::Linux, "Syllabus.desktop"), "Syllabus.desktop");
}

#[test]
fn link_file_extensions() {
    assert_eq!(link_file_ext(Platform::Linux), "desktop");
    assert_eq!(link_file_ext(Platform::MacOs), "webloc");
    assert_eq!(link_file_ext(Platform::Windows), "url");
}

#[test]
fn link_file_bodies_are_bit_exact() {
    assert_eq!(
        create_link_file(Platform::Linux, "/x"),
        "[Desktop Entry]\nEncoding=UTF-8\nType=Link\nURL=https://learn.uq.edu.au/x\nIcon=text-html\n"
    );
    assert_eq!(
        create_link_file(Platform::MacOs, "/x"),
        "{ URL = \"https://learn.uq.edu.au/x\"; }"
    );
    assert_eq!(
        create_link_file(Platform::Windows, "/x"),
        "[InternetShortcut]\nURL=https://learn.uq.edu.au/x\n"
    );
}

#[test]
fn link_file_round_trips_to_the_jump_url() {
    for p in [Platform::Linux, Platform::MacOs, Platform::Windows] {
        let body = create_link_file(p, "/ultra/courses/_123_1/cl/outline");
        let url = parse_link_file(p, &body).expect("shortcut body should parse");
        assert_eq!(url, "https://learn.uq.edu.au/ultra/courses/_123_1/cl/outline");
    }
}

#[test]
fn parse_link_file_rejects_foreign_bodies() {
    assert!(parse_link_file(Platform::Linux, "not a shortcut").is_none());
    assert!(parse_link_file(Platform::Windows, "[InternetShortcut]\nURL=elsewhere\n").is_none());
    let linux_body = create_link_file(Platform::Linux, "/x");
    assert!(parse_link_file(Platform::Windows, &linux_body).is_none());
}

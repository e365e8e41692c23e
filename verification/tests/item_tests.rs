use bbfs::client::{course_is_current, download_file_name};
use bbfs::error::{BbError, ErrorKind};
use bbfs::item::{display_name, Course, CourseItem, CourseItemContent, Item, ItemType,
    SynthesizedDirectory, SynthesizedFile};
use bbfs::pages::BBPage;
use bbfs::platform::Platform;

fn course_item(
    name: &str,
    content: Option<CourseItemContent>,
    description: Option<&str>,
    attachments: &[&str],
) -> CourseItem {
    CourseItem {
        name: String::from(name),
        content,
        description: description.map(String::from),
        attachments: attachments.iter().map(|a| String::from(*a)).collect(),
    }
}

#[test]
fn classification_follows_the_rules() {
    let course = Item::Course(Course {
        short_name: String::from("CS101"),
        id: String::from("_1_1"),
    });
    assert_eq!(course.item_type(), ItemType::Directory);

    let dir = Item::SynthesizedDirectory(SynthesizedDirectory {
        name: String::from("root"),
        contents: Vec::new(),
    });
    assert_eq!(dir.item_type(), ItemType::Directory);

    let file = Item::SynthesizedFile(SynthesizedFile {
        name: String::from("a"),
        contents: String::from("b"),
    });
    assert_eq!(file.item_type(), ItemType::File);

    // attachments make a directory
    let it = Item::CourseItem(course_item("x", None, None, &["/att"]));
    assert_eq!(it.item_type(), ItemType::Directory);
    // description plus payload makes a directory
    let it = Item::CourseItem(course_item(
        "Syllabus",
        Some(CourseItemContent::Link(String::from("/s"))),
        Some("Read me"),
        &[],
    ));
    assert_eq!(it.item_type(), ItemType::Directory);
    // a folder payload makes a directory
    let it = Item::CourseItem(course_item(
        "w",
        Some(CourseItemContent::FolderUrl(String::from("/u/w1"))),
        None,
        &[],
    ));
    assert_eq!(it.item_type(), ItemType::Directory);
    // everything else is a file
    let it = Item::CourseItem(course_item(
        "a",
        Some(CourseItemContent::FileUrl(String::from("/f"))),
        None,
        &[],
    ));
    assert_eq!(it.item_type(), ItemType::File);
    let it = Item::CourseItem(course_item("d", None, Some("text"), &[]));
    assert_eq!(it.item_type(), ItemType::File);
    let it = Item::CourseItem(course_item("n", None, None, &[]));
    assert_eq!(it.item_type(), ItemType::File);
}

#[test]
fn display_names_follow_the_rules() {
    let link = Item::CourseItem(course_item(
        "ECHO360",
        Some(CourseItemContent::Link(String::from("/echo"))),
        None,
        &[],
    ));
    assert_eq!(display_name(Platform::Linux, &link), Some(String::from("ECHO360.desktop")));
    assert_eq!(display_name(Platform::Windows, &link), Some(String::from("ECHO360.url")));

    let desc_only = Item::CourseItem(course_item("Notes", None, Some("text"), &[]));
    assert_eq!(display_name(Platform::Linux, &desc_only), Some(String::from("Notes.txt")));

    let bare = Item::CourseItem(course_item("n", None, None, &[]));
    assert_eq!(display_name(Platform::Linux, &bare), Some(String::from("n")));

    // a file payload's name is the provider's to resolve
    let file = Item::CourseItem(course_item(
        "a",
        Some(CourseItemContent::FileUrl(String::from("/f"))),
        None,
        &[],
    ));
    assert_eq!(display_name(Platform::Linux, &file), None);

    let dir = Item::CourseItem(course_item(
        "Week 1",
        Some(CourseItemContent::FolderUrl(String::from("/u/w1"))),
        None,
        &[],
    ));
    assert_eq!(display_name(Platform::Linux, &dir), Some(String::from("Week 1")));
}

#[test]
fn urls_classify_by_their_path_components() {
    let file = CourseItemContent::from_url(String::from(
        "https://learn.uq.edu.au/bbcswebdav/pid-1-dt/file.pdf",
    ));
    assert!(matches!(file, CourseItemContent::FileUrl(_)));
    let folder = CourseItemContent::from_url(String::from(
        "/webapps/blackboard/content/listContent.jsp?course_id=_1_1&content_id=_2_1",
    ));
    assert!(matches!(folder, CourseItemContent::FolderUrl(_)));
    let link = CourseItemContent::from_url(String::from("https://example.org/echo"));
    assert!(matches!(link, CourseItemContent::Link(_)));
}

#[test]
fn course_currency_follows_term_bounds() {
    assert!(course_is_current(true, None, None, 50));
    assert!(course_is_current(false, Some(10), Some(90), 50));
    assert!(course_is_current(false, Some(50), Some(50), 50));
    assert!(!course_is_current(false, Some(60), Some(90), 50));
    assert!(!course_is_current(false, Some(10), Some(40), 50));
    assert!(!course_is_current(false, None, Some(90), 50));
    assert!(!course_is_current(false, Some(10), None, 50));
}

#[test]
fn download_file_names_are_derived_from_the_effective_url() {
    assert_eq!(download_file_name("https://host/a/b/report.pdf"), "report.pdf");
    assert_eq!(download_file_name("https://host/a/b/report.pdf?session=1"), "report.pdf");
    assert_eq!(download_file_name("https://host/a/My%20Notes.txt"), "My Notes.txt");
    assert_eq!(download_file_name("no-slashes"), "no-slashes");
    assert_eq!(download_file_name("https://host/dir/"), "");
}

#[test]
fn course_short_name_is_the_catalog_prefix() {
    let c = Course::from_membership(String::from("_123_1"), "CSSE2310S_1234_12345");
    assert_eq!(c.id, "_123_1");
    assert_eq!(c.short_name, "CSSE2310");
}

#[test]
fn page_urls_are_exact() {
    assert_eq!(
        BBPage::Me.url(),
        "https://learn.uq.edu.au/learn/api/v1/users/me?expand=systemRoles,insRoles"
    );
    assert_eq!(
        BBPage::CourseList { user_id: String::from("u9") }.url(),
        "https://learn.uq.edu.au/learn/api/v1/users/u9/memberships?expand=course.effectiveAvailability,course.permissions,courseRole&includeCount=true&limit=10000"
    );
    assert_eq!(
        BBPage::Course { id: String::from("_123_1") }.url(),
        "https://learn.uq.edu.au/webapps/blackboard/execute/announcement?method=search&course_id=_123_1"
    );
    assert_eq!(
        BBPage::Folder { url: String::from("/u/w1") }.url(),
        "https://learn.uq.edu.au/u/w1"
    );
}

#[test]
fn error_kinds_partition_the_taxonomy() {
    assert_eq!(BbError::FailedToGetPage(BBPage::Me).kind(), ErrorKind::NetworkTransient);
    assert_eq!(BbError::FailedToGetHeaders.kind(), ErrorKind::NetworkTransient);
    assert_eq!(
        BbError::FailedToGetContents(course_item("a", None, None, &[])).kind(),
        ErrorKind::NetworkTransient
    );
    assert_eq!(BbError::FailedToReadPageContents(BBPage::Me).kind(), ErrorKind::ProtocolParse);
    assert_eq!(BbError::MissingContentLengthHeader.kind(), ErrorKind::ProtocolParse);
    assert_eq!(BbError::InvalidContentLengthHeader.kind(), ErrorKind::ProtocolParse);
    assert_eq!(BbError::FailedToWebScrapeFolder.kind(), ErrorKind::ProtocolParse);
    assert_eq!(BbError::FailedToParseMemberships.kind(), ErrorKind::ProtocolParse);
    assert_eq!(BbError::FailedToParseMe.kind(), ErrorKind::ProtocolParse);
    let dir = Item::SynthesizedDirectory(SynthesizedDirectory {
        name: String::from("d"),
        contents: Vec::new(),
    });
    assert_eq!(BbError::NotAFile(dir).kind(), ErrorKind::NotAFile);
    let file = Item::SynthesizedFile(SynthesizedFile {
        name: String::from("f"),
        contents: String::new(),
    });
    assert_eq!(BbError::NotADirectory(file).kind(), ErrorKind::NotADirectory);
    assert_eq!(BbError::NoSuchEntry.kind(), ErrorKind::NoSuchEntry);
    assert_eq!(BbError::OutOfRange.kind(), ErrorKind::OutOfRange);
}

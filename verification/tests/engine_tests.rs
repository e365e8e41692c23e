use bbfs::engine::Bbfs;
use bbfs::error::ErrorKind;
use bbfs::item::{Course, CourseItem, CourseItemContent, Item, ItemType, SynthesizedDirectory};
use bbfs::memory::MemoryClient;
use bbfs::platform::Platform;

fn course(short: &str, id: &str) -> Item {
    Item::Course(Course { short_name: String::from(short), id: String::from(id) })
}

fn course_item(
    name: &str,
    content: Option<CourseItemContent>,
    description: Option<&str>,
    attachments: &[&str],
) -> Item {
    Item::CourseItem(CourseItem {
        name: String::from(name),
        content,
        description: description.map(String::from),
        attachments: attachments.iter().map(|a| String::from(*a)).collect(),
    })
}

fn root_of(contents: Vec<Item>) -> Item {
    Item::SynthesizedDirectory(SynthesizedDirectory { name: String::from("root"), contents })
}

fn empty_client(root: Item) -> MemoryClient {
    MemoryClient {
        platform: Platform::Linux,
        root,
        course_listings: Vec::new(),
        folder_listings: Vec::new(),
        files: Vec::new(),
        effective_urls: Vec::new(),
    }
}

fn entry_names(entries: &[bbfs::engine::DirEntry]) -> Vec<String> {
    entries.iter().map(|e| e.name.clone()).collect()
}

#[test]
fn root_listing_shows_the_courses() {
    let client = empty_client(root_of(vec![course("CS101", "_1_1"), course("MA201", "_2_1")]));
    let mut fs = Bbfs::new(client, Platform::Linux).unwrap();
    let entries = fs.readdir(1).unwrap();
    assert_eq!(entry_names(&entries), vec![".", "..", "CS101", "MA201"]);
    for e in &entries {
        assert_eq!(e.kind, ItemType::Directory);
    }
    assert_eq!(entries[0].handle, 1);
    assert_eq!(entries[1].handle, 1);
}

#[test]
fn course_expansion_appends_the_blackboard_shortcut() {
    let mut client = empty_client(root_of(vec![course("CS101", "_123_1")]));
    client.course_listings.push((
        String::from("_123_1"),
        vec![course_item("Week 1", Some(CourseItemContent::FolderUrl(String::from("/u/w1"))),
            None, &[])],
    ));
    let mut fs = Bbfs::new(client, Platform::Linux).unwrap();
    let cs101 = fs.lookup_child(1, "CS101").unwrap();
    let entries = fs.readdir(cs101).unwrap();
    assert_eq!(entry_names(&entries), vec![".", "..", "Week 1", "Blackboard.desktop"]);
    assert_eq!(entries[2].kind, ItemType::Directory);
    assert_eq!(entries[3].kind, ItemType::File);

    let shortcut = fs.lookup_child(cs101, "Blackboard.desktop").unwrap();
    let attr = fs.attr(shortcut).unwrap();
    let body = fs.read(shortcut, 0, 4096).unwrap();
    let expected = "[Desktop Entry]\nEncoding=UTF-8\nType=Link\nURL=https://learn.uq.edu.au/ultra/courses/_123_1/cl/outline\nIcon=text-html\n";
    assert_eq!(body, expected.as_bytes());
    assert_eq!(attr.size as usize, expected.len());
}

#[test]
fn item_with_description_and_link_expands_to_three_children() {
    let mut client = empty_client(root_of(vec![course("CS101", "_123_1")]));
    client.course_listings.push((
        String::from("_123_1"),
        vec![course_item("Syllabus", Some(CourseItemContent::Link(String::from("/s"))),
            Some("Read me"), &[])],
    ));
    let mut fs = Bbfs::new(client, Platform::Linux).unwrap();
    let cs101 = fs.lookup_child(1, "CS101").unwrap();
    let syllabus = fs.lookup_child(cs101, "Syllabus").unwrap();
    let entries = fs.readdir(syllabus).unwrap();
    assert_eq!(
        entry_names(&entries),
        vec![".", "..", "Syllabus.desktop", "Syllabus", "Blackboard.desktop"]
    );

    let desc = fs.lookup_child(syllabus, "Syllabus").unwrap();
    assert_eq!(fs.read(desc, 0, 100).unwrap(), b"Read me");
    let link = fs.lookup_child(syllabus, "Syllabus.desktop").unwrap();
    assert_eq!(
        fs.read(link, 0, 4096).unwrap(),
        b"[Desktop Entry]\nEncoding=UTF-8\nType=Link\nURL=https://learn.uq.edu.au/s\nIcon=text-html\n"
    );
}

fn file_fixture() -> Bbfs<MemoryClient> {
    let mut client = empty_client(root_of(vec![course("CS101", "_123_1")]));
    client.course_listings.push((
        String::from("_123_1"),
        vec![course_item("a", Some(CourseItemContent::FileUrl(String::from("/f"))), None, &[])],
    ));
    client.files.push((String::from("/f"), b"Hello, world!".to_vec()));
    client.effective_urls.push((String::from("/f"), String::from("https://host/files/a")));
    Bbfs::new(client, Platform::Linux).unwrap()
}

#[test]
fn file_read_returns_the_requested_range() {
    let mut fs = file_fixture();
    let cs101 = fs.lookup_child(1, "CS101").unwrap();
    let file = fs.lookup_child(cs101, "a").unwrap();
    let attr = fs.attr(file).unwrap();
    assert_eq!(attr.kind, ItemType::File);
    assert_eq!(attr.size, 13);
    assert_eq!(fs.read(file, 7, 5).unwrap(), b"world");
    assert_eq!(fs.read(file, 0, 13).unwrap(), b"Hello, world!");
    // the range is clipped at the end, and a read at the very end is empty
    assert_eq!(fs.read(file, 7, 500).unwrap(), b"world!");
    assert_eq!(fs.read(file, 13, 5).unwrap(), b"");
}

#[test]
fn reads_of_ranges_agree_with_the_whole_contents() {
    let mut fs = file_fixture();
    let cs101 = fs.lookup_child(1, "CS101").unwrap();
    let file = fs.lookup_child(cs101, "a").unwrap();
    let whole = fs.read(file, 0, 13).unwrap();
    for a in 0..13usize {
        for b in a..13usize {
            assert_eq!(fs.read(file, a, b - a).unwrap(), &whole[a..b]);
        }
    }
}

#[test]
fn out_of_range_read_is_a_data_error() {
    let mut fs = file_fixture();
    let cs101 = fs.lookup_child(1, "CS101").unwrap();
    let file = fs.lookup_child(cs101, "a").unwrap();
    let err = fs.read(file, 20, 5).unwrap_err();
    assert_eq!(err.kind(), ErrorKind::OutOfRange);
}

#[test]
fn lookup_miss_is_no_such_entry() {
    let client = empty_client(root_of(vec![course("CS101", "_123_1")]));
    let mut fs = Bbfs::new(client, Platform::Linux).unwrap();
    let err = fs.lookup_child(1, "nope").unwrap_err();
    assert_eq!(err.kind(), ErrorKind::NoSuchEntry);
    let err = fs.resolve(999).unwrap_err();
    assert_eq!(err.kind(), ErrorKind::NoSuchEntry);
}

#[test]
fn directory_read_and_file_listing_are_kind_errors() {
    let mut fs = file_fixture();
    let cs101 = fs.lookup_child(1, "CS101").unwrap();
    let err = fs.read(cs101, 0, 10).unwrap_err();
    assert_eq!(err.kind(), ErrorKind::NotAFile);
    let file = fs.lookup_child(cs101, "a").unwrap();
    let err = fs.readdir(file).unwrap_err();
    assert_eq!(err.kind(), ErrorKind::NotADirectory);
    let attr = fs.attr(cs101).unwrap();
    assert_eq!(attr.kind, ItemType::Directory);
    assert_eq!(attr.size, 0);
}

#[test]
fn expansion_is_stable_across_calls() {
    let mut fs = file_fixture();
    let cs101 = fs.lookup_child(1, "CS101").unwrap();
    let first = fs.expand(cs101).unwrap();
    let second = fs.expand(cs101).unwrap();
    assert_eq!(first, second);
    let triples = |entries: &[bbfs::engine::DirEntry]| -> Vec<(u64, ItemType, String)> {
        entries.iter().map(|e| (e.handle, e.kind, e.name.clone())).collect()
    };
    let listing_one = triples(&fs.readdir(cs101).unwrap());
    let listing_two = triples(&fs.readdir(cs101).unwrap());
    assert_eq!(listing_one, listing_two);
}

#[test]
fn handles_stay_valid_and_named_after_more_work() {
    let mut fs = file_fixture();
    let cs101 = fs.lookup_child(1, "CS101").unwrap();
    let file = fs.lookup_child(cs101, "a").unwrap();
    // more operations materialize nothing new for these handles
    let _ = fs.readdir(1).unwrap();
    let _ = fs.readdir(cs101).unwrap();
    assert_eq!(fs.resolve(cs101).unwrap().name, "CS101");
    assert_eq!(fs.resolve(file).unwrap().name, "a");
    assert_eq!(fs.resolve(file).unwrap().parent, Some(cs101));
    assert_eq!(fs.resolve(cs101).unwrap().parent, Some(1));
}

#[test]
fn provider_named_files_go_through_filename_decoding() {
    let mut client = empty_client(root_of(vec![course("CS101", "_123_1")]));
    client.course_listings.push((
        String::from("_123_1"),
        vec![course_item("a", Some(CourseItemContent::FileUrl(String::from("/f"))), None, &[])],
    ));
    client.files.push((String::from("/f"), b"x".to_vec()));
    client.effective_urls.push((
        String::from("/f"),
        String::from("https://host/files/My%20Report.pdf?sid=9"),
    ));
    let mut fs = Bbfs::new(client, Platform::Linux).unwrap();
    let cs101 = fs.lookup_child(1, "CS101").unwrap();
    let file = fs.lookup_child(cs101, "My Report.pdf").unwrap();
    assert_eq!(fs.resolve(file).unwrap().kind, ItemType::File);
}

#[test]
fn provider_names_are_sanitized_before_the_host_sees_them() {
    let mut client = empty_client(root_of(vec![course("CS101", "_123_1")]));
    client.platform = Platform::Windows;
    client.course_listings.push((
        String::from("_123_1"),
        vec![course_item("HW?/2", Some(CourseItemContent::FolderUrl(String::from("/u/h"))),
            None, &[])],
    ));
    let mut fs = Bbfs::new(client, Platform::Windows).unwrap();
    let cs101 = fs.lookup_child(1, "CS101").unwrap();
    let entries = fs.readdir(cs101).unwrap();
    assert_eq!(entry_names(&entries), vec![".", "..", "HW--2", "Blackboard.url"]);
}

#[test]
fn attachments_expand_to_provider_named_children() {
    let mut client = empty_client(root_of(vec![course("CS101", "_123_1")]));
    client.course_listings.push((
        String::from("_123_1"),
        vec![course_item("HW", Some(CourseItemContent::Link(String::from("/hw"))), None,
            &["/att1.pdf"])],
    ));
    client.files.push((String::from("/att1.pdf"), b"pdf".to_vec()));
    client.effective_urls.push((
        String::from("/att1.pdf"),
        String::from("https://host/att1.pdf"),
    ));
    let mut fs = Bbfs::new(client, Platform::Linux).unwrap();
    let cs101 = fs.lookup_child(1, "CS101").unwrap();
    let hw = fs.lookup_child(cs101, "HW").unwrap();
    let entries = fs.readdir(hw).unwrap();
    // the link payload's shortcut, the attachment, the link file that the
    // attachment rule adds, and the trailing jump shortcut
    assert_eq!(
        entry_names(&entries),
        vec![".", "..", "HW.desktop", "att1.pdf", "HW.desktop", "Blackboard.desktop"]
    );
}

#[test]
fn folder_items_list_their_remote_children() {
    let mut client = empty_client(root_of(vec![course("CS101", "_123_1")]));
    client.course_listings.push((
        String::from("_123_1"),
        vec![course_item("Week 1", Some(CourseItemContent::FolderUrl(String::from("/u/w1"))),
            None, &[])],
    ));
    client.folder_listings.push((
        String::from("/u/w1"),
        vec![course_item("Notes", None, Some("remember"), &[])],
    ));
    let mut fs = Bbfs::new(client, Platform::Linux).unwrap();
    let week = fs.lookup_path("/CS101/Week 1").unwrap();
    let entries = fs.readdir(week).unwrap();
    // the folder's own listing, then the jump shortcut to the folder itself
    assert_eq!(entry_names(&entries), vec![".", "..", "Notes.txt", "Blackboard.desktop"]);
    let bb = fs.lookup_child(week, "Blackboard.desktop").unwrap();
    assert_eq!(
        fs.read(bb, 0, 4096).unwrap(),
        b"[Desktop Entry]\nEncoding=UTF-8\nType=Link\nURL=https://learn.uq.edu.au/u/w1\nIcon=text-html\n"
    );
}

#[test]
fn paths_resolve_with_either_separator() {
    let mut client = empty_client(root_of(vec![course("CS101", "_123_1")]));
    client.course_listings.push((
        String::from("_123_1"),
        vec![course_item("Week 1", Some(CourseItemContent::FolderUrl(String::from("/u/w1"))),
            None, &[])],
    ));
    let mut fs = Bbfs::new(client, Platform::Linux).unwrap();
    let a = fs.lookup_path("/CS101/Week 1").unwrap();
    let b = fs.lookup_path("\\CS101\\Week 1").unwrap();
    let c = fs.lookup_path("CS101//Week 1").unwrap();
    assert_eq!(a, b);
    assert_eq!(b, c);
    let root = fs.lookup_path("/").unwrap();
    assert_eq!(root, 1);
    let err = fs.lookup_path("/CS101/missing").unwrap_err();
    assert_eq!(err.kind(), ErrorKind::NoSuchEntry);
}

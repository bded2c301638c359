use turingarena::api::{ContestData, ContestUpdateInput, FileContentInput};
use turingarena::contest::{
    changeset_from, changeset_of, home_variant, title_variant, ContestChangeset, ContestUpdateError,
};

fn s(x: &str) -> String {
    x.to_string()
}

fn input(archive: Option<&str>, start: Option<&str>, end: Option<&str>) -> ContestUpdateInput {
    ContestUpdateInput {
        archive_content: archive.map(|b| FileContentInput { base64: s(b) }),
        start_time: start.map(s),
        end_time: end.map(s),
    }
}

#[test]
fn update_decodes_archive_and_normalizes_times() {
    let c = changeset_of(&input(Some("aGVsbG8="), Some("2020-01-01T10:00:00Z"), None)).ok().unwrap();
    assert_eq!(c.archive_content, Some(b"hello".to_vec()));
    assert_eq!(c.start_time, Some(s("2020-01-01T10:00:00+00:00")));
    assert_eq!(c.end_time, None);
    let c = changeset_of(&input(None, None, Some("2021-06-30T23:59:59.5+02:00"))).ok().unwrap();
    assert_eq!(c.end_time, Some(s("2021-06-30T23:59:59.500+02:00")));
    assert!(c.archive_content.is_none());
}

#[test]
fn update_rejects_bad_archive_then_bad_time() {
    assert_eq!(
        changeset_of(&input(Some("not base64!"), Some("yesterday"), None)).err(),
        Some(ContestUpdateError::InvalidArchive)
    );
    assert_eq!(
        changeset_of(&input(Some("aGk="), None, Some("2020-13-01T00:00:00Z"))).err(),
        Some(ContestUpdateError::InvalidTime)
    );
    assert_eq!(changeset_from(None, Some(None), None).err(), Some(ContestUpdateError::InvalidTime));
    assert_eq!(
        changeset_from(Some(None), None, Some(None)).err(),
        Some(ContestUpdateError::InvalidArchive)
    );
    let c = changeset_from(Some(Some(vec![1])), None, Some(Some(s("t")))).ok().unwrap();
    assert_eq!((c.archive_content, c.start_time, c.end_time), (Some(vec![1]), None, Some(s("t"))));
}

#[test]
fn changeset_replaces_only_given_fields() {
    let mut data = ContestData {
        id: 0,
        archive_content: vec![1, 2],
        start_time: s("a"),
        end_time: s("b"),
    };
    data.apply(ContestChangeset { archive_content: None, start_time: Some(s("c")), end_time: None });
    assert_eq!(data.archive_content, vec![1, 2]);
    assert_eq!(data.start_time, "c");
    assert_eq!(data.end_time, "b");
    assert_eq!(data.id, 0);
}

#[test]
fn home_page_files() {
    let f = home_variant(s("home.md"), &s("home"), &s("md"), vec![35]).unwrap();
    assert_eq!(f.name, Some(s("home.md")));
    assert_eq!(f.media_type, Some(s("text/markdown")));
    assert_eq!(f.content, vec![35]);
    let g = home_variant(s("home.odt"), &s("home"), &s("odt"), vec![]).unwrap();
    assert_eq!(g.media_type, None);
    assert!(home_variant(s("rules.pdf"), &s("rules"), &s("pdf"), vec![]).is_none());
}

#[test]
fn title_file() {
    let t = title_variant(&s("title"), &s("txt"), s("Finals")).unwrap();
    assert_eq!(t.value, "Finals");
    assert!(t.attributes.is_empty());
    assert!(title_variant(&s("title"), &s("md"), s("x")).is_none());
    assert!(title_variant(&s("name"), &s("txt"), s("x")).is_none());
}

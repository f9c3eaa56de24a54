use chat_relay::api::contacts::{add_contact, delete_contact, search_pattern, ContactError};
use chat_relay::api::groups::{create_group, get_user_groups, Group, QueryResult};
use chat_relay::api::msgs::{get_messages, Page, QueryMessage, DEFAULT_MESSAGE_PAGE_SIZE};
use chat_relay::api::user::{
    accept_image, get_image, image_path, upload_image, DataUrlParts, ImageError, IMAGE_MEDIA_TYPE,
};

fn row(id: u64, name: &str, last_time: u64, username: &str) -> QueryResult {
    QueryResult { id, name: name.to_string(), last_time, username: username.to_string() }
}

fn group(id: u64, name: &str, last_time: u64, people: &[&str]) -> Group {
    Group {
        id,
        name: name.to_string(),
        people: people.iter().map(|p| p.to_string()).collect(),
        last_time,
    }
}

#[test]
fn nobody_is_their_own_contact() {
    assert_eq!(add_contact("alice", "alice"), Err(ContactError::Myself));
    assert_eq!(add_contact("", ""), Err(ContactError::Myself));
}

#[test]
fn anybody_else_may_be_added() {
    assert_eq!(add_contact("alice", "bob"), Ok(()));
    assert_eq!(add_contact("alice", "Alice"), Ok(()));
    assert_eq!(add_contact("alice", "alice "), Ok(()));
}

#[test]
fn removal_of_no_row_is_no_removal() {
    assert_eq!(delete_contact(0), Err(ContactError::NotRemoved));
    assert_eq!(delete_contact(1), Ok(()));
    assert_eq!(delete_contact(usize::MAX), Ok(()));
}

#[test]
fn contact_errors_have_their_texts() {
    assert_eq!(ContactError::Myself.message(), "You can't be a contact of yourself");
    assert_eq!(ContactError::NotRemoved.message(), "It wasn't removed");
}

#[test]
fn search_pattern_looks_anywhere_in_the_name() {
    assert_eq!(search_pattern(Some("ali".to_string())), "%ali%");
    assert_eq!(search_pattern(Some(String::new())), "%%");
    assert_eq!(search_pattern(None), "%%");
    assert_eq!(search_pattern(Some("50%".to_string())), "%50%%");
}

#[test]
fn page_defaults_to_the_ten_newest() {
    assert_eq!(DEFAULT_MESSAGE_PAGE_SIZE, 10);
    assert_eq!(
        get_messages(QueryMessage { size: None, offset: None }),
        Page { size: 10, offset: 0 }
    );
}

#[test]
fn page_takes_what_the_query_names() {
    assert_eq!(
        get_messages(QueryMessage { size: Some(25), offset: None }),
        Page { size: 25, offset: 0 }
    );
    assert_eq!(
        get_messages(QueryMessage { size: None, offset: Some(30) }),
        Page { size: 10, offset: 30 }
    );
    assert_eq!(
        get_messages(QueryMessage { size: Some(0), offset: Some(u32::MAX) }),
        Page { size: 0, offset: u32::MAX }
    );
}

#[test]
fn image_kind_is_webp() {
    assert_eq!(IMAGE_MEDIA_TYPE, "image/webp");
}

#[test]
fn upload_of_a_webp_gives_its_bytes() {
    assert_eq!(upload_image("data:image/webp;base64,UklGRgAB/w=="), Ok(vec![82, 73, 70, 70, 0, 1, 255]));
    assert_eq!(upload_image("data:image/webp,RIFF%00"), Ok(vec![82, 73, 70, 70, 0]));
    assert_eq!(upload_image("data:IMAGE/WebP;base64,"), Ok(vec![]));
}

#[test]
fn upload_of_another_kind_is_refused() {
    assert_eq!(upload_image("data:image/png;base64,iVBORw=="), Err(ImageError::NotWebp));
    assert_eq!(upload_image("data:,Hello"), Err(ImageError::NotWebp));
    assert_eq!(upload_image("data:text/plain;base64,aGk="), Err(ImageError::NotWebp));
}

#[test]
fn upload_of_something_else_than_a_data_url_is_refused() {
    assert_eq!(upload_image(""), Err(ImageError::NotADataUrl));
    assert_eq!(upload_image("image/webp;base64,UklGRg=="), Err(ImageError::NotADataUrl));
    assert_eq!(upload_image("https://example.org/a.webp"), Err(ImageError::NotADataUrl));
    assert_eq!(upload_image("data:image/webp;base64"), Err(ImageError::NotADataUrl));
    assert_eq!(upload_image("data:image/webp;base64,@@@"), Err(ImageError::NotADataUrl));
}

#[test]
fn accept_image_decides_by_the_media_type() {
    let parts = |kind: &str| Some(DataUrlParts { media_type: kind.to_string(), data: vec![1, 2] });
    assert_eq!(accept_image(parts("image/webp")), Ok(vec![1, 2]));
    assert_eq!(accept_image(parts("image/png")), Err(ImageError::NotWebp));
    assert_eq!(accept_image(parts("")), Err(ImageError::NotWebp));
    assert_eq!(accept_image(None), Err(ImageError::NotADataUrl));
}

#[test]
fn image_errors_have_their_texts() {
    assert_eq!(ImageError::NotADataUrl.message(), "No image uploaded");
    assert_eq!(ImageError::NotWebp.message(), "Image wasn't a WebP");
}

#[test]
fn image_is_kept_under_the_name_of_its_owner() {
    assert_eq!(image_path("alice"), "data/img/alice.webp");
    assert_eq!(image_path(""), "data/img/.webp");
}

#[test]
fn stored_image_is_handed_out_as_a_data_url() {
    assert_eq!(get_image(&[]), Some("data:image/webp,".to_string()));
    assert_eq!(
        get_image(&[82, 73, 70, 70, 0, 255, 32]),
        Some("data:image/webp,RIFF%00%FF%20".to_string())
    );
}

#[test]
fn handed_out_image_can_be_uploaded_again() {
    let bytes: Vec<u8> = (0..=255u8).collect();
    let text = get_image(&bytes).unwrap();
    assert_eq!(upload_image(&text), Ok(bytes));
}

#[test]
fn no_rows_make_no_groups() {
    assert_eq!(get_user_groups(&vec![]), vec![]);
}

#[test]
fn rows_of_one_group_make_one_group() {
    let rows = vec![row(7, "team", 100, "alice"), row(7, "team", 100, "bob")];
    assert_eq!(get_user_groups(&rows), vec![group(7, "team", 100, &["alice", "bob"])]);
}

#[test]
fn groups_come_in_the_order_of_their_first_rows() {
    let rows = vec![
        row(2, "late", 900, "alice"),
        row(1, "early", 100, "bob"),
        row(2, "late", 900, "carol"),
        row(3, "solo", 50, "alice"),
        row(1, "early", 100, "alice"),
    ];
    assert_eq!(
        get_user_groups(&rows),
        vec![
            group(2, "late", 900, &["alice", "carol"]),
            group(1, "early", 100, &["bob", "alice"]),
            group(3, "solo", 50, &["alice"]),
        ]
    );
}

#[test]
fn nobody_is_a_member_twice() {
    let rows = vec![row(1, "g", 1, "alice"), row(1, "g", 1, "alice"), row(1, "g", 1, "bob"), row(1, "g", 1, "alice")];
    assert_eq!(get_user_groups(&rows), vec![group(1, "g", 1, &["alice", "bob"])]);
}

#[test]
fn group_takes_name_and_time_from_its_first_row() {
    let rows = vec![row(1, "first", 10, "alice"), row(1, "second", 20, "bob")];
    assert_eq!(get_user_groups(&rows), vec![group(1, "first", 10, &["alice", "bob"])]);
}

#[test]
fn created_group_reports_the_rows() {
    assert_eq!(create_group(0), "Group created successfully -> 0");
    assert_eq!(create_group(3), "Group created successfully -> 3");
    assert_eq!(create_group(120), "Group created successfully -> 120");
}

use tagged_content::dto::{
    CreateContentRequestDto, CreateContentResponseDto, CreateTagResponseDto,
    EditContentRequestDto,
};
use tagged_content::entity::{ContentEntity, TagEntity};

#[test]
fn create_request_becomes_an_unpersisted_content() {
    let dto = CreateContentRequestDto {
        title: "T".to_string(),
        body: "B".to_string(),
        labels: vec!["x".to_string()],
    };
    assert_eq!(
        dto.to_content(),
        ContentEntity { id: 0, title: "T".to_string(), body: "B".to_string() }
    );
}

#[test]
fn create_request_becomes_one_unpersisted_tag_per_label_in_order() {
    let dto = CreateContentRequestDto {
        title: "T".to_string(),
        body: "B".to_string(),
        labels: vec!["b".to_string(), "a".to_string(), "b".to_string()],
    };
    assert_eq!(
        dto.to_tags(),
        vec![
            TagEntity { id: 0, label: "b".to_string() },
            TagEntity { id: 0, label: "a".to_string() },
            TagEntity { id: 0, label: "b".to_string() },
        ]
    );
}

#[test]
fn a_request_without_labels_has_no_tags() {
    let create =
        CreateContentRequestDto { title: String::new(), body: String::new(), labels: vec![] };
    assert_eq!(create.to_tags(), Vec::<TagEntity>::new());
    let edit = EditContentRequestDto {
        id: 4,
        title: String::new(),
        body: String::new(),
        labels: vec![],
    };
    assert_eq!(edit.to_tags(), Vec::<TagEntity>::new());
}

#[test]
fn edit_request_keeps_the_key_it_addresses() {
    let dto = EditContentRequestDto {
        id: 42,
        title: "new".to_string(),
        body: "text".to_string(),
        labels: vec!["p".to_string(), "q".to_string()],
    };
    assert_eq!(
        dto.to_content(),
        ContentEntity { id: 42, title: "new".to_string(), body: "text".to_string() }
    );
    assert_eq!(
        dto.to_tags(),
        vec![
            TagEntity { id: 0, label: "p".to_string() },
            TagEntity { id: 0, label: "q".to_string() },
        ]
    );
}

#[test]
fn a_negative_key_is_carried_as_it_is() {
    let dto = EditContentRequestDto {
        id: -7,
        title: "t".to_string(),
        body: "b".to_string(),
        labels: vec![],
    };
    assert_eq!(dto.to_content().id, -7);
}

#[test]
fn tag_response_reports_key_and_label() {
    let dto = CreateTagResponseDto::from_entity(TagEntity { id: 9, label: "rust".to_string() });
    assert_eq!(dto, CreateTagResponseDto { id: 9, label: "rust".to_string() });
}

#[test]
fn content_response_reports_the_tags_in_their_order() {
    let content = ContentEntity { id: 3, title: "T".to_string(), body: "B".to_string() };
    let tags = vec![
        TagEntity { id: 5, label: "y".to_string() },
        TagEntity { id: 2, label: "x".to_string() },
    ];
    assert_eq!(
        CreateContentResponseDto::from_entity(content, tags),
        CreateContentResponseDto {
            id: 3,
            title: "T".to_string(),
            body: "B".to_string(),
            tags: vec![
                CreateTagResponseDto { id: 5, label: "y".to_string() },
                CreateTagResponseDto { id: 2, label: "x".to_string() },
            ],
        }
    );
}

#[test]
fn content_response_without_tags() {
    let content = ContentEntity { id: 1, title: "".to_string(), body: "".to_string() };
    let dto = CreateContentResponseDto::from_entity(content, vec![]);
    assert_eq!(dto.id, 1);
    assert!(dto.tags.is_empty());
}

#[test]
fn a_duplicate_of_an_entity_equals_it() {
    let content = ContentEntity { id: 3, title: "T".to_string(), body: "B".to_string() };
    assert_eq!(content.duplicate(), content);
    let tag = TagEntity { id: 5, label: "x".to_string() };
    assert_eq!(tag.duplicate(), tag);
}

#[test]
fn with_id_changes_the_key_alone() {
    let content = ContentEntity { id: 0, title: "T".to_string(), body: "B".to_string() };
    assert_eq!(
        content.with_id(9),
        ContentEntity { id: 9, title: "T".to_string(), body: "B".to_string() }
    );
    let tag = TagEntity { id: 0, label: "x".to_string() };
    assert_eq!(tag.with_id(-2), TagEntity { id: -2, label: "x".to_string() });
}

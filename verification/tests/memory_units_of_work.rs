use tagged_content::entity::{ContentEntity, TagEntity};
use tagged_content::interface::{
    ContentInterface, RepositoryProviderInterface, TagInterface, UnitOfWorkInterface,
};
use tagged_content::memory::provider::MemoryProvider;

fn setup() -> MemoryProvider {
    MemoryProvider::new()
}

#[test]
fn explicit_rollback_discards_the_writes() {
    let mut provider = setup();
    let mut uow = provider.begin().unwrap();
    uow.tag().create(&TagEntity { id: 0, label: "gone".into() }).unwrap();
    assert_eq!(uow.rollback(&mut provider), Ok(()));

    let mut check = provider.begin().unwrap();
    assert_eq!(check.tag().find_by_label("gone"), Ok(None));
    assert_eq!(check.tag().select(1), Ok(None));
}

#[test]
fn commit_replaces_the_durable_rows() {
    let mut provider = setup();
    let mut uow = provider.begin().unwrap();
    let tag = uow.tag().create(&TagEntity { id: 0, label: "kept".into() }).unwrap();
    assert_eq!(uow.commit(&mut provider), Ok(()));

    let mut check = provider.begin().unwrap();
    assert_eq!(
        check.tag().find_by_label("kept"),
        Ok(Some(TagEntity { id: tag.id, label: "kept".into() }))
    );
}

#[test]
fn a_unit_of_work_does_not_see_writes_of_another_before_commit() {
    let mut provider = setup();
    let mut writer = provider.begin().unwrap();
    let mut reader = provider.begin().unwrap();
    writer
        .content()
        .create(&ContentEntity { id: 0, title: "t".into(), body: "b".into() })
        .unwrap();
    assert_eq!(reader.content().select(1), Ok(None));
    writer.commit(&mut provider).unwrap();
    assert_eq!(reader.content().select(1), Ok(None));
    let mut later = provider.begin().unwrap();
    assert_eq!(
        later.content().select(1),
        Ok(Some(ContentEntity { id: 1, title: "t".into(), body: "b".into() }))
    );
}

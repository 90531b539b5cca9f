use sqlx::sqlite::{Sqlite, SqlitePoolOptions};
use sqlx::{SqliteConnection, SqlitePool, Transaction};
use std::cell::RefCell;
use std::future::Future;
use std::rc::Rc;
use std::sync::Arc;
use tagged_content::content::ContentUseCases;
use tagged_content::dto::{
    CreateContentRequestDto, CreateContentResponseDto, CreateTagResponseDto,
    EditContentRequestDto,
};
use tagged_content::entity::{ContentEntity, ContentTagEntity, TagEntity};
use tagged_content::error::{StorageError, UseCaseError};
use tagged_content::interface::{
    ContentInterface, ContentTagInterface, RepositoryProviderInterface, Storage, TagInterface,
    UnitOfWorkInterface,
};
use tagged_content::memory::provider::MemoryProvider;
use tagged_content::tag::TagUseCases;
use tokio::runtime::Runtime;

/// An engine on an SQLite database in memory, one connection wide.
#[derive(Clone)]
struct Sqlite3 {
    pool: SqlitePool,
    runtime: Arc<Runtime>,
}

/// The open transaction, shared by the three repositories of a unit of work.
struct Session {
    tx: Option<Transaction<'static, Sqlite>>,
    runtime: Arc<Runtime>,
}

struct Contents(Rc<RefCell<Session>>);

struct Tags(Rc<RefCell<Session>>);

struct Links(Rc<RefCell<Session>>);

struct Work {
    session: Rc<RefCell<Session>>,
    contents: Contents,
    tags: Tags,
    links: Links,
}

fn storage_error(error: sqlx::Error) -> StorageError {
    StorageError::Failure(error.to_string())
}

impl Session {
    /// Runs one statement on the transaction and waits for it.
    fn run<'a, T, F>(
        &'a mut self,
        statement: impl FnOnce(&'a mut SqliteConnection) -> F,
    ) -> Result<T, StorageError>
    where
        F: Future<Output = Result<T, sqlx::Error>> + 'a,
    {
        let runtime = self.runtime.clone();
        let connection: &'a mut SqliteConnection = &mut **self.tx.as_mut().unwrap();
        runtime.block_on(statement(connection)).map_err(storage_error)
    }
}

impl Drop for Session {
    fn drop(&mut self) {
        let _context = self.runtime.enter();
        self.tx.take();
    }
}

impl Sqlite3 {
    fn new() -> Sqlite3 {
        let runtime = Arc::new(Runtime::new().unwrap());
        let pool = runtime
            .block_on(SqlitePoolOptions::new().max_connections(1).connect("sqlite::memory:"))
            .unwrap();
        for statement in [
            "CREATE TABLE content (id INTEGER PRIMARY KEY, title TEXT NOT NULL, body TEXT NOT NULL)",
            "CREATE TABLE tag (id INTEGER PRIMARY KEY, label TEXT NOT NULL)",
            "CREATE TABLE content_tag (content_id INTEGER NOT NULL, tag_id INTEGER NOT NULL, \
             PRIMARY KEY (content_id, tag_id))",
        ] {
            runtime.block_on(sqlx::query(statement).execute(&pool)).unwrap();
        }
        Sqlite3 { pool, runtime }
    }
}

impl Storage for Sqlite3 {}

impl RepositoryProviderInterface for Sqlite3 {
    type Work = Work;

    fn begin(&self) -> Result<Work, StorageError> {
        let tx = self.runtime.block_on(self.pool.begin()).map_err(storage_error)?;
        let session =
            Rc::new(RefCell::new(Session { tx: Some(tx), runtime: self.runtime.clone() }));
        Ok(Work {
            contents: Contents(session.clone()),
            tags: Tags(session.clone()),
            links: Links(session.clone()),
            session,
        })
    }
}

impl UnitOfWorkInterface<Sqlite3> for Work {
    type Contents = Contents;
    type Tags = Tags;
    type ContentTags = Links;

    fn commit(self, _provider: &mut Sqlite3) -> Result<(), StorageError> {
        let mut session = self.session.borrow_mut();
        let tx = session.tx.take().unwrap();
        session.runtime.block_on(tx.commit()).map_err(storage_error)
    }

    fn rollback(self, _provider: &mut Sqlite3) -> Result<(), StorageError> {
        let mut session = self.session.borrow_mut();
        let tx = session.tx.take().unwrap();
        session.runtime.block_on(tx.rollback()).map_err(storage_error)
    }

    fn content(&mut self) -> &mut Contents {
        &mut self.contents
    }

    fn tag(&mut self) -> &mut Tags {
        &mut self.tags
    }

    fn content_tag(&mut self) -> &mut Links {
        &mut self.links
    }
}

fn content_of((id, title, body): (i64, String, String)) -> ContentEntity {
    ContentEntity { id, title, body }
}

fn tag_of((id, label): (i64, String)) -> TagEntity {
    TagEntity { id, label }
}

fn link_of((content_id, tag_id): (i64, i64)) -> ContentTagEntity {
    ContentTagEntity { content_id, tag_id }
}

impl ContentInterface for Contents {
    fn create(&mut self, entity: &ContentEntity) -> Result<ContentEntity, StorageError> {
        let sql = "INSERT INTO content (title, body) VALUES (?, ?) RETURNING id, title, body";
        let query = sqlx::query_as::<_, (i64, String, String)>(sql)
            .bind(&entity.title)
            .bind(&entity.body);
        self.0.borrow_mut().run(|c| query.fetch_one(c)).map(content_of)
    }

    fn select(&mut self, id: i64) -> Result<Option<ContentEntity>, StorageError> {
        let sql = "SELECT id, title, body FROM content WHERE id = ?";
        let query = sqlx::query_as::<_, (i64, String, String)>(sql).bind(id);
        Ok(self.0.borrow_mut().run(|c| query.fetch_optional(c))?.map(content_of))
    }

    fn update(&mut self, entity: &ContentEntity) -> Result<Option<ContentEntity>, StorageError> {
        let sql = "UPDATE content SET title = ?, body = ? WHERE id = ? RETURNING id, title, body";
        let query = sqlx::query_as::<_, (i64, String, String)>(sql)
            .bind(&entity.title)
            .bind(&entity.body)
            .bind(entity.id);
        Ok(self.0.borrow_mut().run(|c| query.fetch_optional(c))?.map(content_of))
    }

    fn delete(&mut self, id: i64) -> Result<u64, StorageError> {
        let query = sqlx::query("DELETE FROM content WHERE id = ?").bind(id);
        Ok(self.0.borrow_mut().run(|c| query.execute(c))?.rows_affected())
    }
}

impl TagInterface for Tags {
    fn create(&mut self, entity: &TagEntity) -> Result<TagEntity, StorageError> {
        let sql = "INSERT INTO tag (label) VALUES (?) RETURNING id, label";
        let query = sqlx::query_as::<_, (i64, String)>(sql).bind(&entity.label);
        self.0.borrow_mut().run(|c| query.fetch_one(c)).map(tag_of)
    }

    fn select(&mut self, id: i64) -> Result<Option<TagEntity>, StorageError> {
        let sql = "SELECT id, label FROM tag WHERE id = ?";
        let query = sqlx::query_as::<_, (i64, String)>(sql).bind(id);
        Ok(self.0.borrow_mut().run(|c| query.fetch_optional(c))?.map(tag_of))
    }

    fn update(&mut self, entity: &TagEntity) -> Result<Option<TagEntity>, StorageError> {
        let sql = "UPDATE tag SET label = ? WHERE id = ? RETURNING id, label";
        let query = sqlx::query_as::<_, (i64, String)>(sql).bind(&entity.label).bind(entity.id);
        Ok(self.0.borrow_mut().run(|c| query.fetch_optional(c))?.map(tag_of))
    }

    fn delete(&mut self, id: i64) -> Result<u64, StorageError> {
        let query = sqlx::query("DELETE FROM tag WHERE id = ?").bind(id);
        Ok(self.0.borrow_mut().run(|c| query.execute(c))?.rows_affected())
    }

    fn find_by_label(&mut self, label: &str) -> Result<Option<TagEntity>, StorageError> {
        let sql = "SELECT id, label FROM tag WHERE label = ? ORDER BY id LIMIT 1";
        let query = sqlx::query_as::<_, (i64, String)>(sql).bind(label);
        Ok(self.0.borrow_mut().run(|c| query.fetch_optional(c))?.map(tag_of))
    }
}

impl ContentTagInterface for Links {
    fn create(&mut self, entity: &ContentTagEntity) -> Result<ContentTagEntity, StorageError> {
        let sql = "INSERT INTO content_tag (content_id, tag_id) VALUES (?, ?) \
                   RETURNING content_id, tag_id";
        let query =
            sqlx::query_as::<_, (i64, i64)>(sql).bind(entity.content_id).bind(entity.tag_id);
        self.0.borrow_mut().run(|c| query.fetch_one(c)).map(link_of)
    }

    fn select(
        &mut self,
        content_id: i64,
        tag_id: i64,
    ) -> Result<Option<ContentTagEntity>, StorageError> {
        let sql = "SELECT content_id, tag_id FROM content_tag WHERE content_id = ? and tag_id = ?";
        let query = sqlx::query_as::<_, (i64, i64)>(sql).bind(content_id).bind(tag_id);
        Ok(self.0.borrow_mut().run(|c| query.fetch_optional(c))?.map(link_of))
    }

    fn delete(&mut self, entity: &ContentTagEntity) -> Result<u64, StorageError> {
        let query = sqlx::query("DELETE FROM content_tag WHERE content_id = ? and tag_id = ?")
            .bind(entity.content_id)
            .bind(entity.tag_id);
        Ok(self.0.borrow_mut().run(|c| query.execute(c))?.rows_affected())
    }

    fn delete_by_content_id(&mut self, content_id: i64) -> Result<u64, StorageError> {
        let query = sqlx::query("DELETE FROM content_tag WHERE content_id = ?").bind(content_id);
        Ok(self.0.borrow_mut().run(|c| query.execute(c))?.rows_affected())
    }

    fn delete_by_tag_id(&mut self, tag_id: i64) -> Result<u64, StorageError> {
        let query = sqlx::query("DELETE FROM content_tag WHERE tag_id = ?").bind(tag_id);
        Ok(self.0.borrow_mut().run(|c| query.execute(c))?.rows_affected())
    }
}

/// Every row with keys up to 6, as a transaction begun now sees them.
fn rows<P: RepositoryProviderInterface>(engine: &P) -> (Vec<ContentEntity>, Vec<TagEntity>, Vec<ContentTagEntity>) {
    let mut uow = engine.begin().unwrap();
    let mut contents = Vec::new();
    let mut tags = Vec::new();
    let mut links = Vec::new();
    for id in 1..=6 {
        contents.extend(uow.content().select(id).unwrap());
        tags.extend(uow.tag().select(id).unwrap());
        for tag_id in 1..=6 {
            links.extend(uow.content_tag().select(id, tag_id).unwrap());
        }
    }
    (contents, tags, links)
}

fn create_request(title: &str, body: &str, labels: &[&str]) -> CreateContentRequestDto {
    CreateContentRequestDto {
        title: title.to_string(),
        body: body.to_string(),
        labels: labels.iter().map(|l| l.to_string()).collect(),
    }
}

fn content(id: i64, title: &str, body: &str) -> ContentEntity {
    ContentEntity { id, title: title.to_string(), body: body.to_string() }
}

fn tag(id: i64, label: &str) -> TagEntity {
    TagEntity { id, label: label.to_string() }
}

fn link(content_id: i64, tag_id: i64) -> ContentTagEntity {
    ContentTagEntity { content_id, tag_id }
}

#[test]
fn sqlite_repositories_behave_as_the_contracts_say() {
    let mut engine = Sqlite3::new();
    let mut uow = engine.begin().unwrap();

    let created = uow.content().create(&content(0, "Test Title", "Test Body")).unwrap();
    assert_eq!(created, content(1, "Test Title", "Test Body"));
    assert_eq!(uow.content().select(1), Ok(Some(created)));
    assert_eq!(uow.content().select(2), Ok(None));
    assert_eq!(
        uow.content().update(&content(1, "Updated Title", "Updated Body")),
        Ok(Some(content(1, "Updated Title", "Updated Body")))
    );
    assert_eq!(uow.content().update(&content(2, "x", "y")), Ok(None));
    assert_eq!(uow.content().delete(1), Ok(1));
    assert_eq!(uow.content().delete(1), Ok(0));

    assert_eq!(uow.tag().create(&tag(0, "rust")), Ok(tag(1, "rust")));
    assert_eq!(uow.tag().create(&tag(0, "rust")), Ok(tag(2, "rust")));
    assert_eq!(uow.tag().find_by_label("rust"), Ok(Some(tag(1, "rust"))));
    assert_eq!(uow.tag().find_by_label("ddd"), Ok(None));
    assert_eq!(uow.tag().update(&tag(2, "ddd")), Ok(Some(tag(2, "ddd"))));
    assert_eq!(uow.tag().select(2), Ok(Some(tag(2, "ddd"))));
    assert_eq!(uow.tag().delete(2), Ok(1));
    assert_eq!(uow.tag().delete(2), Ok(0));

    for (c, t) in [(1, 1), (1, 2), (2, 1), (3, 3)] {
        assert_eq!(uow.content_tag().create(&link(c, t)), Ok(link(c, t)));
    }
    assert!(uow.content_tag().create(&link(1, 1)).is_err());
    assert_eq!(uow.content_tag().select(1, 2), Ok(Some(link(1, 2))));
    assert_eq!(uow.content_tag().select(2, 2), Ok(None));
    assert_eq!(uow.content_tag().delete(&link(3, 3)), Ok(1));
    assert_eq!(uow.content_tag().delete(&link(3, 3)), Ok(0));
    assert_eq!(uow.content_tag().delete_by_content_id(1), Ok(2));
    assert_eq!(uow.content_tag().delete_by_tag_id(1), Ok(1));
    assert_eq!(uow.content_tag().delete_by_tag_id(1), Ok(0));

    uow.commit(&mut engine).unwrap();
    assert_eq!(rows(&engine), (vec![], vec![tag(1, "rust")], vec![]));
}

#[test]
fn sqlite_unit_of_work_commits_and_rolls_back() {
    let mut engine = Sqlite3::new();
    {
        let mut uow = engine.begin().unwrap();
        let content = uow.content().create(&content(0, "Commit Test", "...")).unwrap();
        let tag = uow.tag().create(&tag(0, "transaction")).unwrap();
        uow.content_tag().create(&link(content.id, tag.id)).unwrap();
        uow.commit(&mut engine).unwrap();
    }
    assert_eq!(
        rows(&engine),
        (vec![content(1, "Commit Test", "...")], vec![tag(1, "transaction")], vec![link(1, 1)])
    );
    {
        let mut uow = engine.begin().unwrap();
        uow.content().create(&content(0, "Rollback Test", "...")).unwrap();
    }
    assert_eq!(rows(&engine).0, vec![content(1, "Commit Test", "...")]);
    {
        let mut uow = engine.begin().unwrap();
        uow.content().create(&content(0, "Rollback Test", "...")).unwrap();
        uow.rollback(&mut engine).unwrap();
    }
    assert_eq!(rows(&engine).0, vec![content(1, "Commit Test", "...")]);
}

#[test]
fn sqlite_create_edit_and_remove_content() {
    let mut cases = ContentUseCases::new(Sqlite3::new());
    let created = cases.create(create_request("Initial Title", "Initial Body", &["rust", "ddd"]));
    assert_eq!(
        created,
        Ok(CreateContentResponseDto {
            id: 1,
            title: "Initial Title".to_string(),
            body: "Initial Body".to_string(),
            tags: vec![
                CreateTagResponseDto { id: 1, label: "rust".to_string() },
                CreateTagResponseDto { id: 2, label: "ddd".to_string() },
            ],
        })
    );
    assert_eq!(
        rows(cases.provider()),
        (
            vec![content(1, "Initial Title", "Initial Body")],
            vec![tag(1, "rust"), tag(2, "ddd")],
            vec![link(1, 1), link(1, 2)]
        )
    );

    let edit = EditContentRequestDto {
        id: 1,
        title: "Updated Title".to_string(),
        body: "Updated Body".to_string(),
        labels: vec!["rust".to_string(), "axum".to_string()],
    };
    let edited = cases.edit(edit).unwrap();
    assert_eq!(edited.title, "Updated Title");
    assert_eq!(
        edited.tags,
        vec![
            CreateTagResponseDto { id: 1, label: "rust".to_string() },
            CreateTagResponseDto { id: 3, label: "axum".to_string() },
        ]
    );
    assert_eq!(
        rows(cases.provider()),
        (
            vec![content(1, "Updated Title", "Updated Body")],
            vec![tag(1, "rust"), tag(2, "ddd"), tag(3, "axum")],
            vec![link(1, 1), link(1, 3)]
        )
    );

    assert_eq!(cases.remove(999), Ok(0));
    assert_eq!(cases.remove(1), Ok(1));
    assert_eq!(cases.remove(1), Ok(0));
    assert_eq!(
        rows(cases.provider()),
        (vec![], vec![tag(1, "rust"), tag(2, "ddd"), tag(3, "axum")], vec![])
    );
}

#[test]
fn sqlite_failed_edit_leaves_no_row_behind() {
    let mut cases = ContentUseCases::new(Sqlite3::new());
    cases.create(create_request("T", "B", &["x"])).unwrap();
    let before = rows(cases.provider());
    let edit = EditContentRequestDto {
        id: 999,
        title: "T".to_string(),
        body: "B".to_string(),
        labels: vec!["fresh".to_string()],
    };
    assert_eq!(cases.edit(edit), Err(UseCaseError::NotFound));
    assert_eq!(rows(cases.provider()), before);
}

#[test]
fn sqlite_remove_tags_by_key_and_by_label() {
    let mut contents = ContentUseCases::new(Sqlite3::new());
    contents.create(create_request("T", "B", &["x", "y"])).unwrap();
    contents.create(create_request("U", "C", &["y", "z", "y"])).unwrap();
    assert_eq!(
        rows(contents.provider()),
        (
            vec![content(1, "T", "B"), content(2, "U", "C")],
            vec![tag(1, "x"), tag(2, "y"), tag(3, "z")],
            vec![link(1, 1), link(1, 2), link(2, 2), link(2, 3)]
        )
    );

    let mut tags = TagUseCases::new(contents.into_provider());
    assert_eq!(tags.remove(999), Ok(0));
    assert_eq!(tags.remove_label("non_existent_label".to_string()), Ok(0));
    assert_eq!(tags.remove(1), Ok(1));
    assert_eq!(tags.remove_label("y".to_string()), Ok(1));
    assert_eq!(tags.remove_label("y".to_string()), Ok(0));
    assert_eq!(
        rows(tags.provider()),
        (vec![content(1, "T", "B"), content(2, "U", "C")], vec![tag(3, "z")], vec![link(2, 3)])
    );
}

fn content_crud_operations<P: RepositoryProviderInterface>(
    mut provider: P,
) -> Result<(), StorageError> {
    let mut uow = provider.begin()?;

    let new_content = ContentEntity {
        id: 0,
        title: "Test Title".to_string(),
        body: "Test Body".to_string(),
    };
    let created = uow.content().create(&new_content)?;
    assert_eq!(created.id, 1);
    assert_eq!(created.title, "Test Title");

    let found = uow.content().select(created.id)?.unwrap();
    assert_eq!(found.id, created.id);

    let to_update = ContentEntity {
        id: found.id,
        title: "Updated Title".to_string(),
        body: "Updated Body".to_string(),
    };
    let updated = uow.content().update(&to_update)?.unwrap();
    assert_eq!(updated.title, "Updated Title");

    let rows_affected = uow.content().delete(updated.id)?;
    assert_eq!(rows_affected, 1);
    let should_be_none = uow.content().select(updated.id)?;
    assert!(should_be_none.is_none());

    uow.commit(&mut provider)?;
    Ok(())
}

#[test]
fn test_content_crud_operations() -> Result<(), StorageError> {
    content_crud_operations(MemoryProvider::new())?;
    content_crud_operations(Sqlite3::new())
}

fn tag_crud_operations<P: RepositoryProviderInterface>(mut provider: P) -> Result<(), StorageError> {
    let mut uow = provider.begin()?;

    let new_tag = TagEntity { id: 0, label: "rust".to_string() };
    let created = uow.tag().create(&new_tag)?;
    assert_eq!(created.id, 1);
    assert_eq!(created.label, "rust");

    let found = uow.tag().select(created.id)?.unwrap();
    assert_eq!(found.id, created.id);

    uow.commit(&mut provider)?;
    Ok(())
}

#[test]
fn test_tag_crud_operations() -> Result<(), StorageError> {
    tag_crud_operations(MemoryProvider::new())?;
    tag_crud_operations(Sqlite3::new())
}

fn uow_commit_and_rollback<P: RepositoryProviderInterface>(
    mut provider: P,
) -> Result<(), StorageError> {
    {
        let mut uow = provider.begin()?;
        let content = uow.content().create(&ContentEntity {
            id: 0,
            title: "Commit Test".into(),
            body: "...".into(),
        })?;
        let tag = uow.tag().create(&TagEntity { id: 0, label: "transaction".into() })?;
        uow.content_tag().create(&ContentTagEntity { content_id: content.id, tag_id: tag.id })?;
        uow.commit(&mut provider)?;
    }

    {
        let mut uow2 = provider.begin()?;
        let content = uow2.content().select(1)?;
        assert!(content.is_some(), "committed rows are found");
    }

    {
        let mut uow3 = provider.begin()?;
        uow3.content().create(&ContentEntity {
            id: 0,
            title: "Rollback Test".into(),
            body: "...".into(),
        })?;
    }

    {
        let mut uow4 = provider.begin()?;
        let content = uow4.content().select(2)?;
        assert!(content.is_none(), "rows of a dropped unit of work are not found");
    }
    Ok(())
}

#[test]
fn test_uow_commit_and_rollback() -> Result<(), StorageError> {
    uow_commit_and_rollback(MemoryProvider::new())?;
    uow_commit_and_rollback(Sqlite3::new())
}

fn create_content_with_tags<P: RepositoryProviderInterface>(provider: P) {
    let mut use_cases = ContentUseCases::new(provider);

    let dto = CreateContentRequestDto {
        title: "Test Title".to_string(),
        body: "Test Body".to_string(),
        labels: vec!["rust".to_string(), "ddd".to_string()],
    };

    let result = use_cases.create(dto).unwrap();

    assert_eq!(result.id, 1);
    assert_eq!(result.title, "Test Title");
    assert_eq!(result.body, "Test Body");
    assert_eq!(result.tags.len(), 2);
    assert!(result.tags.iter().any(|t| t.label == "rust"));
    assert!(result.tags.iter().any(|t| t.label == "ddd"));

    let mut uow = use_cases.provider().begin().unwrap();
    let content = uow.content().select(result.id).unwrap();

    assert!(content.is_some(), "the saved content was not found");
    let saved_content = content.unwrap();
    assert_eq!(saved_content.id, result.id);
    assert_eq!(saved_content.title, result.title);

    let tag1 = uow.tag().find_by_label("rust").unwrap().unwrap();
    let tag2 = uow.tag().find_by_label("ddd").unwrap().unwrap();
    let content_tag1 = uow.content_tag().select(saved_content.id, tag1.id).unwrap();
    let content_tag2 = uow.content_tag().select(saved_content.id, tag2.id).unwrap();
    assert!(content_tag1.is_some(), "content-tag 'rust' relation not found");
    assert!(content_tag2.is_some(), "content-tag 'ddd' relation not found");
}

#[test]
fn test_create_content_with_tags_in_memory_db() {
    create_content_with_tags(MemoryProvider::new());
    create_content_with_tags(Sqlite3::new());
}

fn edit_content_with_tags<P: RepositoryProviderInterface>(provider: P) {
    let mut use_cases = ContentUseCases::new(provider);

    let initial_dto = CreateContentRequestDto {
        title: "Initial Title".to_string(),
        body: "Initial Body".to_string(),
        labels: vec!["rust".to_string(), "ddd".to_string()],
    };
    let created_content = use_cases.create(initial_dto).unwrap();

    let edit_dto = EditContentRequestDto {
        id: created_content.id,
        title: "Updated Title".to_string(),
        body: "Updated Body".to_string(),
        labels: vec!["rust".to_string(), "axum".to_string()],
    };

    let result = use_cases.edit(edit_dto).unwrap();

    assert_eq!(result.id, created_content.id);
    assert_eq!(result.title, "Updated Title");
    assert_eq!(result.body, "Updated Body");
    assert_eq!(result.tags.len(), 2);
    assert!(result.tags.iter().any(|t| t.label == "rust"));
    assert!(result.tags.iter().any(|t| t.label == "axum"));
    assert!(
        !result.tags.iter().any(|t| t.label == "ddd"),
        "Tag 'ddd' should have been removed"
    );

    let mut uow = use_cases.provider().begin().unwrap();
    let content = uow.content().select(result.id).unwrap().unwrap();
    assert_eq!(content.title, "Updated Title");

    let rust_tag = uow.tag().find_by_label("rust").unwrap().unwrap();
    let axum_tag = uow.tag().find_by_label("axum").unwrap().unwrap();
    let ddd_tag = uow.tag().find_by_label("ddd").unwrap().unwrap();

    let rust_relation = uow.content_tag().select(content.id, rust_tag.id).unwrap();
    assert!(rust_relation.is_some(), "Relation with 'rust' tag should exist");
    let axum_relation = uow.content_tag().select(content.id, axum_tag.id).unwrap();
    assert!(axum_relation.is_some(), "Relation with 'axum' tag should exist");
    let ddd_relation = uow.content_tag().select(content.id, ddd_tag.id).unwrap();
    assert!(ddd_relation.is_none(), "Relation with 'ddd' tag should have been removed");
}

#[test]
fn test_edit_content_with_tags() {
    edit_content_with_tags(MemoryProvider::new());
    edit_content_with_tags(Sqlite3::new());
}

fn remove_content_success<P: RepositoryProviderInterface>(provider: P) {
    let mut use_cases = ContentUseCases::new(provider);

    let dto = CreateContentRequestDto {
        title: "To Be Deleted".to_string(),
        body: "...".to_string(),
        labels: vec!["temp".to_string()],
    };
    let created_content = use_cases.create(dto).unwrap();

    let result = use_cases.remove(created_content.id).unwrap();

    assert_eq!(result, 1, "Should return 1 for one deleted row");
    let mut uow = use_cases.provider().begin().unwrap();
    let content = uow.content().select(created_content.id).unwrap();
    assert!(content.is_none(), "Content should be deleted from DB");
}

#[test]
fn test_remove_content_success() {
    remove_content_success(MemoryProvider::new());
    remove_content_success(Sqlite3::new());
}

fn remove_non_existent_content_returns_zero<P: RepositoryProviderInterface>(provider: P) {
    let mut use_cases = ContentUseCases::new(provider);

    let result = use_cases.remove(999).unwrap();

    assert_eq!(result, 0, "Should return 0 for a non-existent content");
}

#[test]
fn test_remove_non_existent_content_returns_zero() {
    remove_non_existent_content_returns_zero(MemoryProvider::new());
    remove_non_existent_content_returns_zero(Sqlite3::new());
}

fn remove_tag_by_id_success<P: RepositoryProviderInterface>(provider: P) {
    let mut content_use_cases = ContentUseCases::new(provider);
    let dto = CreateContentRequestDto {
        title: "Test".to_string(),
        body: "...".to_string(),
        labels: vec!["tag_to_delete".to_string(), "another_tag".to_string()],
    };
    let created_content = content_use_cases.create(dto).unwrap();
    let tag_to_delete =
        created_content.tags.iter().find(|t| t.label == "tag_to_delete").unwrap();

    let mut tag_use_cases = TagUseCases::new(content_use_cases.into_provider());
    let result = tag_use_cases.remove(tag_to_delete.id).unwrap();

    assert_eq!(result, 1, "Should return 1 for one deleted row");

    let mut uow = tag_use_cases.provider().begin().unwrap();
    let should_be_none = uow.tag().select(tag_to_delete.id).unwrap();
    assert!(should_be_none.is_none(), "Tag should be deleted");

    let relation_should_be_none =
        uow.content_tag().select(created_content.id, tag_to_delete.id).unwrap();
    assert!(relation_should_be_none.is_none(), "Tag relation should be deleted");

    let another_tag = created_content.tags.iter().find(|t| t.label == "another_tag").unwrap();
    let another_tag_should_exist = uow.tag().select(another_tag.id).unwrap();
    assert!(another_tag_should_exist.is_some(), "Other tags should not be affected");
    let content_should_exist = uow.content().select(created_content.id).unwrap();
    assert!(content_should_exist.is_some(), "Content should not be affected");
}

#[test]
fn test_remove_tag_by_id_success() {
    remove_tag_by_id_success(MemoryProvider::new());
    remove_tag_by_id_success(Sqlite3::new());
}

fn remove_tag_by_label_success<P: RepositoryProviderInterface>(provider: P) {
    let mut content_use_cases = ContentUseCases::new(provider);
    let dto = CreateContentRequestDto {
        title: "Test".to_string(),
        body: "...".to_string(),
        labels: vec!["label_to_delete".to_string()],
    };
    let created_content = content_use_cases.create(dto).unwrap();
    let tag_to_delete = created_content.tags.first().unwrap();

    let mut tag_use_cases = TagUseCases::new(content_use_cases.into_provider());
    let result = tag_use_cases.remove_label("label_to_delete".to_string()).unwrap();

    assert_eq!(result, 1, "Should return 1 for one deleted row");

    let mut uow = tag_use_cases.provider().begin().unwrap();
    let should_be_none = uow.tag().select(tag_to_delete.id).unwrap();
    assert!(should_be_none.is_none(), "Tag should be deleted");
    let relation_should_be_none =
        uow.content_tag().select(created_content.id, tag_to_delete.id).unwrap();
    assert!(relation_should_be_none.is_none(), "Tag relation should be deleted");
}

#[test]
fn test_remove_tag_by_label_success() {
    remove_tag_by_label_success(MemoryProvider::new());
    remove_tag_by_label_success(Sqlite3::new());
}

fn remove_unassociated_tag_success<P: RepositoryProviderInterface>(mut provider: P) {
    let tag_id;
    {
        let mut uow = provider.begin().unwrap();
        let tag = uow
            .tag()
            .create(&TagEntity { id: 0, label: "unassociated".to_string() })
            .unwrap();
        tag_id = tag.id;
        uow.commit(&mut provider).unwrap();
    }

    let mut tag_use_cases = TagUseCases::new(provider);
    let result = tag_use_cases.remove(tag_id).unwrap();

    assert_eq!(result, 1, "Should return 1 for one deleted row");

    let mut uow = tag_use_cases.provider().begin().unwrap();
    let should_be_none = uow.tag().select(tag_id).unwrap();
    assert!(should_be_none.is_none(), "Tag should be deleted");
}

#[test]
fn test_remove_unassociated_tag_success() {
    remove_unassociated_tag_success(MemoryProvider::new());
    remove_unassociated_tag_success(Sqlite3::new());
}

fn remove_non_existent_tag_by_id_returns_zero<P: RepositoryProviderInterface>(provider: P) {
    let mut tag_use_cases = TagUseCases::new(provider);

    let result = tag_use_cases.remove(999).unwrap();

    assert_eq!(result, 0, "Should return 0 for a non-existent tag");
}

#[test]
fn test_remove_non_existent_tag_by_id_returns_zero() {
    remove_non_existent_tag_by_id_returns_zero(MemoryProvider::new());
    remove_non_existent_tag_by_id_returns_zero(Sqlite3::new());
}

fn remove_non_existent_tag_by_label_returns_zero<P: RepositoryProviderInterface>(provider: P) {
    let mut tag_use_cases = TagUseCases::new(provider);

    let result = tag_use_cases.remove_label("non_existent_label".to_string()).unwrap();

    assert_eq!(result, 0, "Should return 0 for a non-existent tag");
}

#[test]
fn test_remove_non_existent_tag_by_label_returns_zero() {
    remove_non_existent_tag_by_label_returns_zero(MemoryProvider::new());
    remove_non_existent_tag_by_label_returns_zero(Sqlite3::new());
}

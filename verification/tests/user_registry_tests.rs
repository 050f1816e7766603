use user_registry::controller::UserController;
use user_registry::dto::CreateUserRequestDto;
use user_registry::idgen::{IdGeneratorInterface, UuidGenerator};
use user_registry::repository::{JsonUserRepository, UserRepositoryInterface};
use user_registry::store::AppStore;
use user_registry::usecase::{CreateUserUseCase, CreateUserUsecaseInterface};
use user_registry::user::User;
use user_registry::uuid_text::uuid_hyphenated;
use user_registry::MAX_TS_MILLIS;

fn new_usecase() -> CreateUserUseCase<JsonUserRepository, UuidGenerator> {
    CreateUserUseCase::new(JsonUserRepository::new(), UuidGenerator::new())
}

fn alice_request() -> CreateUserRequestDto {
    CreateUserRequestDto {
        name: "Alice".to_string(),
        email: "a@x.com".to_string(),
        password: "p".to_string(),
        address: "Tokyo".to_string(),
    }
}

#[test]
fn execute_echoes_request_fields() {
    let mut uc = new_usecase();
    let resp = uc.execute(alice_request());
    assert_eq!(resp.name, "Alice");
    assert_eq!(resp.email, "a@x.com");
    assert_eq!(resp.password, "p");
    assert_eq!(resp.address, "Tokyo");
    assert_eq!(resp.created_at, resp.updated_at);
    assert!(resp.created_at >= 0 && resp.created_at <= MAX_TS_MILLIS);
}

#[test]
fn execute_persists_the_record_it_reports() {
    let mut uc = new_usecase();
    let resp = uc.execute(alice_request());
    let found = uc.user_repository.find_by_id(resp.id).expect("created user must be found");
    assert_eq!(found.id(), resp.id);
    assert_eq!(found.name(), "Alice");
    assert_eq!(found.email(), "a@x.com");
    assert_eq!(found.password(), "p");
    assert_eq!(found.address(), "Tokyo");
    assert_eq!(found.created_at(), resp.created_at);
    assert_eq!(found.updated_at(), resp.updated_at);
}

#[test]
fn generated_ids_differ_across_calls() {
    let mut uc = new_usecase();
    let r1 = uc.execute(alice_request());
    let r2 = uc.execute(alice_request());
    assert_ne!(r1.id, r2.id);
    let gen = UuidGenerator::new();
    assert_ne!(gen.generate(), gen.generate());
}

#[test]
fn create_then_find_returns_equal_record() {
    let mut repo = JsonUserRepository::new();
    let u = User::new(
        7,
        "Bob".to_string(),
        "b@x.com".to_string(),
        "secret".to_string(),
        "Osaka".to_string(),
    );
    let created = repo.create(u);
    let found = repo.find_by_id(7).expect("record must be found after create");
    assert_eq!(found.id(), created.id());
    assert_eq!(found.name(), created.name());
    assert_eq!(found.email(), created.email());
    assert_eq!(found.password(), created.password());
    assert_eq!(found.address(), created.address());
    assert_eq!(found.created_at(), created.created_at());
    assert_eq!(found.updated_at(), created.updated_at());
}

#[test]
fn find_by_id_misses_absent_record() {
    let mut repo = JsonUserRepository::new();
    assert!(repo.find_by_id(1).is_none());
    let u = User::new(1, "A".to_string(), "a".to_string(), "p".to_string(), "X".to_string());
    repo.create(u);
    assert!(repo.find_by_id(2).is_none());
}

#[test]
fn find_by_id_returns_first_match() {
    let mut repo = JsonUserRepository::new();
    let mut u1 = User::new(5, "First".to_string(), "1".to_string(), "p".to_string(), "X".to_string());
    let mut u2 = User::new(5, "Second".to_string(), "2".to_string(), "p".to_string(), "Y".to_string());
    u1.created_at = 10;
    u1.updated_at = 10;
    u2.created_at = 20;
    u2.updated_at = 20;
    repo.create(u1);
    repo.create(u2);
    let found = repo.find_by_id(5).unwrap();
    assert_eq!(found.name(), "First");
}

#[test]
fn update_existing_replaces_whole_record() {
    let mut repo = JsonUserRepository::new();
    let u = User::new(9, "Old".to_string(), "old@x".to_string(), "p1".to_string(), "Here".to_string());
    repo.create(u);
    let replacement = User {
        id: 9,
        name: "New".to_string(),
        email: "new@x".to_string(),
        password: "p2".to_string(),
        address: "There".to_string(),
        created_at: 100,
        updated_at: 200,
    };
    let echoed = repo.update(replacement);
    assert_eq!(echoed.name(), "New");
    let found = repo.find_by_id(9).unwrap();
    assert_eq!(found.name(), "New");
    assert_eq!(found.email(), "new@x");
    assert_eq!(found.password(), "p2");
    assert_eq!(found.address(), "There");
    assert_eq!(found.created_at(), 100);
    assert_eq!(found.updated_at(), 200);
}

#[test]
fn update_missing_leaves_collection_unchanged() {
    let mut repo = JsonUserRepository::new();
    let u = User::new(1, "Keep".to_string(), "k@x".to_string(), "p".to_string(), "Z".to_string());
    repo.create(u);
    let stray = User {
        id: 42,
        name: "Stray".to_string(),
        email: "s@x".to_string(),
        password: "p".to_string(),
        address: "W".to_string(),
        created_at: 1,
        updated_at: 1,
    };
    let echoed = repo.update(stray);
    assert_eq!(echoed.id(), 42);
    assert_eq!(repo.users.len(), 1);
    let kept = repo.find_by_id(1).unwrap();
    assert_eq!(kept.name(), "Keep");
    assert!(repo.find_by_id(42).is_none());
}

#[test]
fn save_then_load_round_trips_field_for_field() {
    let mut repo = JsonUserRepository::new();
    let u1 = User {
        id: 0x0123456789abcdef0123456789abcdef,
        name: "quote\" back\\slash".to_string(),
        email: "line\nbreak\ttab".to_string(),
        password: "\u{1}control".to_string(),
        address: "日本語 Tōkyō".to_string(),
        created_at: 0,
        updated_at: MAX_TS_MILLIS,
    };
    let u2 = User::new(2, "".to_string(), "".to_string(), "".to_string(), "".to_string());
    repo.create(u1);
    repo.create(u2);
    let text = repo.save_users();
    let reloaded = JsonUserRepository::load(&text);
    assert_eq!(reloaded.users.len(), repo.users.len());
    for (a, b) in repo.users.iter().zip(reloaded.users.iter()) {
        assert_eq!(a.id(), b.id());
        assert_eq!(a.name(), b.name());
        assert_eq!(a.email(), b.email());
        assert_eq!(a.password(), b.password());
        assert_eq!(a.address(), b.address());
        assert_eq!(a.created_at(), b.created_at());
        assert_eq!(a.updated_at(), b.updated_at());
    }
}

#[test]
fn load_empty_or_malformed_yields_empty_collection() {
    assert_eq!(JsonUserRepository::load_users("").len(), 0);
    assert_eq!(JsonUserRepository::load_users("not json at all").len(), 0);
    assert_eq!(JsonUserRepository::load_users("[").len(), 0);
    assert_eq!(JsonUserRepository::load_users("[{\"id\":\"zz\"}]").len(), 0);
    assert_eq!(JsonUserRepository::load_users("[]").len(), 0);
    assert_eq!(JsonUserRepository::load("{}").users.len(), 0);
}

const KNOWN_TEXT: &str = "[{\"id\":\"00000000-0000-0000-0000-000000000001\",\"name\":\"Alice\",\"email\":\"a@x.com\",\"password\":\"p\",\"address\":\"Tokyo\",\"created_at\":\"1970-01-01T00:00:01+00:00\",\"updated_at\":\"1970-01-01T00:00:02+00:00\"}]";

#[test]
fn load_reads_known_backing_text() {
    let users = JsonUserRepository::load_users(KNOWN_TEXT);
    assert_eq!(users.len(), 1);
    assert_eq!(users[0].id(), 1);
    assert_eq!(users[0].name(), "Alice");
    assert_eq!(users[0].email(), "a@x.com");
    assert_eq!(users[0].password(), "p");
    assert_eq!(users[0].address(), "Tokyo");
    assert_eq!(users[0].created_at(), 1000);
    assert_eq!(users[0].updated_at(), 2000);
}

#[test]
fn save_reproduces_known_backing_text() {
    let repo = JsonUserRepository::load(KNOWN_TEXT);
    assert_eq!(repo.save_users(), KNOWN_TEXT);
}

#[test]
fn uuid_text_has_canonical_hyphenated_form() {
    assert_eq!(
        uuid_hyphenated(0x0123456789abcdef0123456789abcdef),
        "01234567-89ab-cdef-0123-456789abcdef"
    );
    assert_eq!(uuid_hyphenated(0), "00000000-0000-0000-0000-000000000000");
    assert_eq!(uuid_hyphenated(u128::MAX), "ffffffff-ffff-ffff-ffff-ffffffffffff");
}

#[test]
fn updates_advance_updated_at_and_keep_created_at() {
    let mut u = User::new(3, "N".to_string(), "e1".to_string(), "p".to_string(), "a1".to_string());
    let created = u.created_at();
    let after_new = u.updated_at();
    u.update_email("e2".to_string());
    assert_eq!(u.email(), "e2");
    let after_email = u.updated_at();
    assert!(after_email >= after_new);
    u.update_address("a2".to_string());
    assert_eq!(u.address(), "a2");
    let after_address = u.updated_at();
    assert!(after_address >= after_email);
    assert_eq!(u.created_at(), created);
    assert_eq!(u.name(), "N");
    assert_eq!(u.password(), "p");
}

#[test]
fn controller_add_and_find() {
    let mut ctl = UserController::new(JsonUserRepository::new());
    let u = User::new(11, "C".to_string(), "c@x".to_string(), "p".to_string(), "B".to_string());
    let echoed = ctl.add(u);
    assert_eq!(echoed.id(), 11);
    let found = ctl.find_by_id(11).expect("added record must be found");
    assert_eq!(found.name(), "C");
    assert!(ctl.find_by_id(12).is_none());
}

#[test]
fn created_users_survive_save_and_reload() {
    let mut uc = new_usecase();
    let r1 = uc.execute(alice_request());
    let r2 = uc.execute(CreateUserRequestDto {
        name: "Bob".to_string(),
        email: "b@x.com".to_string(),
        password: "q".to_string(),
        address: "Kyoto".to_string(),
    });
    let text = uc.user_repository.save_users();
    let reloaded = JsonUserRepository::load(&text);
    let a = reloaded.find_by_id(r1.id).expect("first user must survive the round trip");
    assert_eq!(a.name(), "Alice");
    assert_eq!(a.created_at(), r1.created_at);
    let b = reloaded.find_by_id(r2.id).expect("second user must survive the round trip");
    assert_eq!(b.name(), "Bob");
    assert_eq!(b.updated_at(), r2.updated_at);
}

#[test]
fn app_store_lists_in_insertion_order() {
    let mut store = AppStore::new();
    assert!(store.get_users().is_empty());
    let mut uc = new_usecase();
    let r1 = uc.execute(alice_request());
    let r2 = uc.execute(CreateUserRequestDto {
        name: "Bob".to_string(),
        email: "b@x.com".to_string(),
        password: "q".to_string(),
        address: "Kyoto".to_string(),
    });
    store.add_user(r1.clone());
    store.add_user(r2.clone());
    let listed = store.get_users();
    assert_eq!(listed.len(), 2);
    assert_eq!(listed[0].name, "Alice");
    assert_eq!(listed[0].id, r1.id);
    assert_eq!(listed[1].name, "Bob");
    assert_eq!(listed[1].id, r2.id);
}

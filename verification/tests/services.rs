use learning_management_system::dao;
use learning_management_system::hash;
use learning_management_system::id::Id;
use learning_management_system::model::{Permission, PermissionUser, Role, RoleUser, User};
use learning_management_system::requests::permission::{
    PermissionStoreRequest, PermissionUpdateRequest,
};
use learning_management_system::requests::role::{RoleStoreRequest, RoleUpdateRequest};
use learning_management_system::requests::user::{
    UserStoreRequest, UserUpdateGeneralInformationRequest, UserUpdatePasswordRequest,
};
use learning_management_system::requests::PaginationRequest;
use learning_management_system::services;
use learning_management_system::text::{contains_char, same_text, trim, underscored};
use learning_management_system::validation::{
    note, note_all, password_flaws, Field, FieldFlaw, Flaw,
};

fn flaw(field: Field, flaw: Flaw) -> FieldFlaw {
    FieldFlaw { field, flaw }
}

fn john() -> User {
    let id = Id { raw: 0xa1a2a3a4b1b2c1c2d1d2d3d4d5d6d7d8 };
    User {
        id,
        name: "john doe".to_string(),
        email: "john@local.id".to_string(),
        username: "john".to_string(),
        password: hash::make(&id.to_string(), "Password123!").to_string(),
        profile_photo_id: Some("photo".to_string()),
        email_verified_at: Some(5),
        created_at: 1,
        updated_at: 2,
        deleted_at: None,
    }
}

fn new_user(name: &str, email: &str, username: &str, password: &str) -> UserStoreRequest {
    UserStoreRequest {
        name: name.to_string(),
        email: email.to_string(),
        username: username.to_string(),
        password: password.to_string(),
        permissions: vec![],
        roles: vec![],
    }
}

fn change(name: &str, email: &str, username: &str) -> UserUpdateGeneralInformationRequest {
    UserUpdateGeneralInformationRequest {
        name: name.to_string(),
        email: email.to_string(),
        username: username.to_string(),
        profile_photo_id: None,
        permissions: vec![],
        roles: vec![],
    }
}

fn passwords(current: &str, new: &str, confirmation: &str) -> UserUpdatePasswordRequest {
    UserUpdatePasswordRequest {
        current_password: current.to_string(),
        new_password: new.to_string(),
        password_confirmation: confirmation.to_string(),
    }
}

#[test]
fn password_rules() {
    let field = Field::Password;
    assert_eq!(password_flaws(field, "Password123!"), vec![]);
    assert_eq!(
        password_flaws(field, "abc"),
        vec![
            flaw(field, Flaw::TooShort),
            flaw(field, Flaw::NoUppercase),
            flaw(field, Flaw::NoDigit),
            flaw(field, Flaw::NoSpecial)
        ]
    );
    assert_eq!(password_flaws(field, "Password123"), vec![flaw(field, Flaw::NoSpecial)]);
    assert_eq!(password_flaws(field, "password1!"), vec![flaw(field, Flaw::NoUppercase)]);
    assert_eq!(password_flaws(field, "Password!!"), vec![flaw(field, Flaw::NoDigit)]);
    assert_eq!(
        password_flaws(field, "Pa$1"),
        vec![flaw(field, Flaw::TooShort)]
    );
    assert_eq!(password_flaws(field, "Pa$12"), vec![flaw(field, Flaw::TooShort)]);
    assert_eq!(password_flaws(field, "Pa$123"), vec![]);
}

#[test]
fn password_length_is_counted_in_bytes() {
    assert_eq!(password_flaws(Field::NewPassword, "É1!é"), vec![]);
    assert_eq!(
        password_flaws(Field::NewPassword, "É1!e"),
        vec![flaw(Field::NewPassword, Flaw::TooShort)]
    );
}

#[test]
fn messages_of_flaws() {
    let cases = [
        (Field::Name, Flaw::Required, "name", "Name field is required"),
        (Field::Email, Flaw::Required, "email", "Email field is required"),
        (Field::Email, Flaw::Taken, "email", "Email already exist"),
        (Field::Email, Flaw::Invalid, "email", "Email is invalid"),
        (Field::Username, Flaw::Required, "username", "Username field is required"),
        (Field::Username, Flaw::Taken, "username", "Username already exist"),
        (Field::Password, Flaw::Required, "password", "Password field is required"),
        (Field::Password, Flaw::TooShort, "password", "Password must be at least 6 characters"),
        (
            Field::Password,
            Flaw::NoUppercase,
            "password",
            "Password must contain at least 1 uppercase character",
        ),
        (Field::Password, Flaw::NoDigit, "password", "Password must contain at least 1 digit"),
        (
            Field::Password,
            Flaw::NoSpecial,
            "password",
            "Password must contain at least 1 special character",
        ),
        (Field::Permissions, Flaw::Invalid, "permissions", "Some permissions are invalid"),
        (Field::Roles, Flaw::Invalid, "roles", "Some roles are invalid"),
        (
            Field::CurrentPassword,
            Flaw::Required,
            "current_password",
            "Current password field is required",
        ),
        (Field::CurrentPassword, Flaw::Invalid, "current_password", "Current password is invalid"),
        (Field::NewPassword, Flaw::Required, "new_password", "New password field is required"),
        (
            Field::NewPassword,
            Flaw::TooShort,
            "new_password",
            "New password must be at least 6 characters",
        ),
        (
            Field::NewPassword,
            Flaw::NoUppercase,
            "new_password",
            "New password must contain at least 1 uppercase character",
        ),
        (Field::NewPassword, Flaw::NoDigit, "new_password", "New password must contain at least 1 digit"),
        (
            Field::NewPassword,
            Flaw::NoSpecial,
            "new_password",
            "New password must contain at least 1 special character",
        ),
        (
            Field::PasswordConfirmation,
            Flaw::Required,
            "password_confirmation",
            "Password confirmation field is required",
        ),
        (
            Field::PasswordConfirmation,
            Flaw::Mismatch,
            "password_confirmation",
            "Password confirmation must match new password",
        ),
        (Field::Code, Flaw::Required, "code", "Code field is required"),
        (Field::Code, Flaw::Taken, "code", "Code already exist"),
    ];
    for (field, what, key, message) in cases {
        assert_eq!(field.key(), key);
        assert_eq!(flaw(field, what).message(), message);
    }
}

#[test]
fn notes_are_kept_in_order() {
    let mut flaws = vec![];
    note(&mut flaws, true, Field::Name, Flaw::Required);
    note(&mut flaws, false, Field::Email, Flaw::Required);
    note(&mut flaws, true, Field::Code, Flaw::Taken);
    note_all(&mut flaws, &vec![flaw(Field::Roles, Flaw::Invalid)]);
    assert_eq!(
        flaws,
        vec![
            flaw(Field::Name, Flaw::Required),
            flaw(Field::Code, Flaw::Taken),
            flaw(Field::Roles, Flaw::Invalid)
        ]
    );
}

#[test]
fn text_helpers() {
    assert!(same_text("abc", "abc"));
    assert!(!same_text("abc", "abd"));
    assert!(!same_text("abc", "ab"));
    assert!(same_text("", ""));
    assert!(contains_char("a@b", '@'));
    assert!(!contains_char("ab", '@'));
    assert!(!contains_char("", '@'));
    assert_eq!(underscored("CREATE NEW  USER"), "CREATE_NEW__USER");
    assert_eq!(underscored(""), "");
}

#[test]
fn trim_takes_white_space_from_both_ends() {
    let cases = [
        "",
        " ",
        " \t\r\n",
        "a",
        " a",
        "a ",
        "  a b  ",
        "\u{a0}x y\u{3000}",
        "\u{2003}é \u{85}",
        "no space",
        "\nline\n\nline\n",
    ];
    for text in cases {
        assert_eq!(trim(text), text.trim());
    }
    assert_eq!(trim("  a b  "), "a b");
    assert_eq!(trim(" \t\r\n"), "");
}

#[test]
fn new_user_with_everything_missing() {
    let flaws = services::user::store(&new_user(" ", "", "", ""), true, true, 0, 0);
    assert_eq!(
        flaws,
        vec![
            flaw(Field::Name, Flaw::Required),
            flaw(Field::Email, Flaw::Required),
            flaw(Field::Username, Flaw::Required),
            flaw(Field::Password, Flaw::Required)
        ]
    );
}

#[test]
fn new_user_with_taken_and_invalid_fields() {
    let request = new_user("John", "John.Local", "John", "$1xxxx");
    let flaws = services::user::store(&request, true, true, 0, 0);
    assert_eq!(
        flaws,
        vec![
            flaw(Field::Email, Flaw::Taken),
            flaw(Field::Email, Flaw::Invalid),
            flaw(Field::Username, Flaw::Taken),
            flaw(Field::Password, Flaw::NoUppercase)
        ]
    );
}

#[test]
fn new_user_password_is_checked_in_lower_case() {
    let request = new_user("John", "john@local", "john", "Password123!");
    assert_eq!(
        services::user::store(&request, false, false, 0, 0),
        vec![flaw(Field::Password, Flaw::NoUppercase)]
    );
    let short = new_user("John", "john@local", "john", "  Q7!  ");
    assert_eq!(
        services::user::store(&short, false, false, 0, 0),
        vec![flaw(Field::Password, Flaw::TooShort), flaw(Field::Password, Flaw::NoUppercase)]
    );
}

#[test]
fn new_user_lists_are_counted() {
    let mut request = new_user("", "john@local", "john", "x");
    request.permissions = vec![Id { raw: 1 }, Id { raw: 2 }];
    request.roles = vec![Id { raw: 3 }];
    let flaws = services::user::store(&request, false, false, 1, 0);
    assert!(flaws.contains(&flaw(Field::Permissions, Flaw::Invalid)));
    // The roles are not looked at once something is wrong and permissions are asked for.
    assert!(!flaws.contains(&flaw(Field::Roles, Flaw::Invalid)));
    let flaws = services::user::store(&request, false, false, 2, 1);
    assert!(!flaws.contains(&flaw(Field::Permissions, Flaw::Invalid)));
    assert!(!flaws.contains(&flaw(Field::Roles, Flaw::Invalid)));

    request.permissions = vec![];
    let flaws = services::user::store(&request, false, false, 0, 0);
    assert_eq!(flaws.last(), Some(&flaw(Field::Roles, Flaw::Invalid)));
    assert_eq!(flaws.first(), Some(&flaw(Field::Name, Flaw::Required)));
}

#[test]
fn user_update_is_checked() {
    let user = john();
    let kept = change(" John Doe ", " JOHN@local.id", "John");
    assert_eq!(services::user::update_general_information(&user, &kept, true, true, 0, 0), vec![]);
    let other = change("x", "jane@local.id", "jane");
    assert_eq!(
        services::user::update_general_information(&user, &other, true, true, 0, 0),
        vec![flaw(Field::Email, Flaw::Taken), flaw(Field::Username, Flaw::Taken)]
    );
    assert_eq!(services::user::update_general_information(&user, &other, false, false, 0, 0), vec![]);
    let mut empty = change("", "", "");
    empty.permissions = vec![Id { raw: 1 }];
    empty.roles = vec![Id { raw: 1 }];
    assert_eq!(
        services::user::update_general_information(&user, &empty, true, true, 0, 2),
        vec![
            flaw(Field::Name, Flaw::Required),
            flaw(Field::Email, Flaw::Required),
            flaw(Field::Username, Flaw::Required),
            flaw(Field::Permissions, Flaw::Invalid),
            flaw(Field::Roles, Flaw::Invalid)
        ]
    );
    let no_at = change("x", "john.local.id", "john");
    assert_eq!(
        services::user::update_general_information(&user, &no_at, false, false, 0, 0),
        vec![flaw(Field::Email, Flaw::Invalid)]
    );
}

#[test]
fn password_change_is_checked() {
    let user = john();
    let good = passwords("Password123!", "NewPassword1$", "NewPassword1$");
    assert_eq!(services::user::update_password(&user, &good), vec![]);
    let wrong = passwords("password123!", "NewPassword1$", "NewPassword1");
    assert_eq!(
        services::user::update_password(&user, &wrong),
        vec![
            flaw(Field::CurrentPassword, Flaw::Invalid),
            flaw(Field::PasswordConfirmation, Flaw::Mismatch)
        ]
    );
    let empty = passwords("", "", "");
    assert_eq!(
        services::user::update_password(&user, &empty),
        vec![
            flaw(Field::CurrentPassword, Flaw::Required),
            flaw(Field::NewPassword, Flaw::Required),
            flaw(Field::PasswordConfirmation, Flaw::Required)
        ]
    );
    let weak = passwords("Password123!", "weak", "weak");
    assert_eq!(
        services::user::update_password(&user, &weak),
        vec![
            flaw(Field::NewPassword, Flaw::TooShort),
            flaw(Field::NewPassword, Flaw::NoUppercase),
            flaw(Field::NewPassword, Flaw::NoDigit),
            flaw(Field::NewPassword, Flaw::NoSpecial)
        ]
    );
}

#[test]
fn user_messages() {
    assert_eq!(services::user::password_updated("john"), "Password for user john has been updated");
    assert_eq!(services::user::user_deleted("john"), "User john has been deleted");
}

#[test]
fn user_rows() {
    let request = new_user(" John Doe ", " John@Local.ID", "JOHN ", "Password123!");
    let row = dao::user::store(&request, 77);
    assert_eq!(row.name, "john doe");
    assert_eq!(row.email, "john@local.id");
    assert_eq!(row.username, "john");
    assert_eq!(row.password, hash::make(&row.id.to_string(), "Password123!").to_string());
    assert!(hash::verify(&hash::Hash::from_string(row.password.clone()), &row.id.to_string(), "Password123!"));
    assert_eq!((row.created_at, row.updated_at, row.deleted_at), (77, 77, None));
    assert_eq!((row.profile_photo_id.clone(), row.email_verified_at), (None, None));

    let user = john();
    let updated = dao::user::update_general_information(user.clone(), &change(" Jane ", "J@x", " J "), 9);
    assert_eq!((updated.name.as_str(), updated.email.as_str(), updated.username.as_str()), ("jane", "j@x", "j"));
    assert_eq!((updated.id, updated.updated_at, updated.created_at), (user.id, 9, 1));
    assert_eq!(updated.password, user.password);
    assert_eq!(updated.profile_photo_id, Some("photo".to_string()));
    assert_eq!(updated.email_verified_at, Some(5));

    let changed = dao::user::update_password(user.clone(), "Other1!", 10);
    assert_eq!(changed.password, hash::make(&user.id.to_string(), "Other1!").to_string());
    assert_eq!((changed.updated_at, changed.username.as_str()), (10, "john"));

    let gone = dao::user::delete(user.clone(), 11);
    assert_eq!((gone.deleted_at, gone.updated_at), (Some(11), 2));
    assert!(gone.is_deleted());
    assert!(!user.is_deleted());
}

#[test]
fn assignment_rows() {
    let user = Id { raw: 1 };
    let permissions = vec![
        Permission { id: Id { raw: 10 }, code: "A".to_string(), name: "a".to_string() },
        Permission { id: Id { raw: 11 }, code: "B".to_string(), name: "b".to_string() },
    ];
    let rows = dao::user::permission_rows(user, &permissions);
    assert_eq!(rows.iter().map(|r| (r.user_id.raw, r.permission_id.raw)).collect::<Vec<_>>(), vec![(1, 10), (1, 11)]);
    assert_ne!(rows[0].id, rows[1].id);
    let roles = vec![Role { id: Id { raw: 20 }, code: "R".to_string(), name: "r".to_string() }];
    let rows = dao::user::role_rows(user, &roles);
    assert_eq!(rows.iter().map(|r| (r.user_id.raw, r.role_id.raw)).collect::<Vec<_>>(), vec![(1, 20)]);
    assert!(dao::user::role_rows(user, &vec![]).is_empty());
}

#[test]
fn permission_requests_are_checked() {
    let request = PermissionStoreRequest { code: " create user ".to_string(), name: "Create User".to_string() };
    assert_eq!(services::permission::code(&request), "CREATE USER");
    assert_eq!(services::permission::store(&request, 0), vec![]);
    assert_eq!(services::permission::store(&request, 2), vec![flaw(Field::Code, Flaw::Taken)]);
    let empty = PermissionStoreRequest { code: "  ".to_string(), name: String::new() };
    assert_eq!(
        services::permission::store(&empty, 1),
        vec![
            flaw(Field::Name, Flaw::Required),
            flaw(Field::Code, Flaw::Required),
            flaw(Field::Code, Flaw::Taken)
        ]
    );
    assert_eq!(services::permission::update(&PermissionUpdateRequest { name: "x".to_string() }), vec![]);
    assert_eq!(
        services::permission::update(&PermissionUpdateRequest { name: " ".to_string() }),
        vec![flaw(Field::Name, Flaw::Required)]
    );
    assert_eq!(services::permission::created("CREATE_USER"), "Permission CREATE_USER has been created");
    assert_eq!(services::permission::deleted("CREATE_USER"), "Permission CREATE_USER has been deleted");
}

#[test]
fn permission_rows() {
    let request = PermissionStoreRequest { code: "create user".to_string(), name: "Create User".to_string() };
    let row = dao::permission::store(&request);
    assert_eq!((row.code.as_str(), row.name.as_str()), ("CREATE_USER", "create user"));
    let (same, changed) = dao::permission::update(row.clone(), &PermissionUpdateRequest { name: "create user".to_string() });
    assert!(!changed);
    assert_eq!(same.name, "create user");
    let (renamed, changed) = dao::permission::update(row.clone(), &PermissionUpdateRequest { name: "Make User".to_string() });
    assert!(changed);
    assert_eq!((renamed.id, renamed.code.as_str(), renamed.name.as_str()), (row.id, "CREATE_USER", "Make User"));
}

#[test]
fn role_requests_and_rows() {
    let request = RoleStoreRequest { code: " area manager".to_string(), name: "Area Manager".to_string() };
    assert_eq!(services::role::code(&request), "AREA MANAGER");
    assert_eq!(services::role::store(&request, 0), vec![]);
    assert_eq!(services::role::store(&request, 1), vec![flaw(Field::Code, Flaw::Taken)]);
    assert_eq!(
        services::role::update(&RoleUpdateRequest { name: String::new() }),
        vec![flaw(Field::Name, Flaw::Required)]
    );
    assert_eq!(services::role::created("ADMIN"), "Role ADMIN has been created");
    assert_eq!(services::role::deleted("ADMIN"), "Role ADMIN has been deleted");
    let row = dao::role::store(&request);
    assert_eq!((row.code.as_str(), row.name.as_str()), ("_AREA_MANAGER", "area manager"));
    let (renamed, changed) = dao::role::update(row, &RoleUpdateRequest { name: "boss".to_string() });
    assert!(changed);
    assert_eq!(renamed.name, "boss");
}

#[test]
fn full_pages_of_a_listing() {
    let asked: PaginationRequest<u8> =
        PaginationRequest { page: None, limit: Some(25), search: None, order: None, sort: None };
    assert_eq!(asked.pages(0), 0);
    assert_eq!(asked.pages(24), 0);
    assert_eq!(asked.pages(25), 1);
    assert_eq!(asked.pages(101), 4);
}

fn assignment(user: u128, codes: &[&str]) -> (PermissionUser, Vec<Permission>) {
    (
        PermissionUser { id: Id::random(), permission_id: Id { raw: 0 }, user_id: Id { raw: user } },
        codes
            .iter()
            .map(|code| Permission { id: Id::random(), code: code.to_string(), name: code.to_lowercase() })
            .collect(),
    )
}

fn role_assignment(user: u128, codes: &[&str]) -> (RoleUser, Vec<Role>) {
    (
        RoleUser { id: Id::random(), role_id: Id { raw: 0 }, user_id: Id { raw: user } },
        codes
            .iter()
            .map(|code| Role { id: Id::random(), code: code.to_string(), name: code.to_lowercase() })
            .collect(),
    )
}

#[test]
fn page_of_users_joins_the_assignments() {
    let mut first = john();
    first.id = Id { raw: 1 };
    let mut second = john();
    second.id = Id { raw: 2 };
    second.username = "jane".to_string();
    let mut third = john();
    third.id = Id { raw: 3 };
    let permissions = vec![
        assignment(1, &["A"]),
        assignment(2, &["B", "C"]),
        assignment(1, &["D"]),
        assignment(9, &["E"]),
        assignment(2, &[]),
    ];
    let roles = vec![role_assignment(2, &["ADMIN"]), role_assignment(1, &["SUPERUSER", "ADMIN"])];
    let asked: PaginationRequest<u8> =
        PaginationRequest { page: Some(2), limit: Some(10), search: None, order: None, sort: None };
    let page = services::user::paginate(&asked, 35, &vec![first, second, third], &permissions, &roles);
    assert_eq!((page.total, page.page, page.data.len()), (35, 3, 3));
    let codes = |shown: &learning_management_system::responses::user::UserOAS| {
        (
            shown.permissions.iter().map(|p| p.code.clone()).collect::<Vec<_>>(),
            shown.roles.iter().map(|r| r.code.clone()).collect::<Vec<_>>(),
        )
    };
    assert_eq!(codes(&page.data[0]), (vec!["A".to_string(), "D".to_string()], vec!["SUPERUSER".to_string(), "ADMIN".to_string()]));
    assert_eq!(codes(&page.data[1]), (vec!["B".to_string(), "C".to_string()], vec!["ADMIN".to_string()]));
    assert_eq!(codes(&page.data[2]), (vec![], vec![]));
    assert_eq!(page.data[1].username, "jane");
    assert_eq!(page.data[0].id, Id { raw: 1 });
}

#[test]
fn page_of_permissions_and_roles() {
    let asked: PaginationRequest<u8> =
        PaginationRequest { page: None, limit: None, search: None, order: None, sort: None };
    let rows = assignment(1, &["A", "B"]).1;
    let page = services::permission::paginate(&asked, 21, &rows);
    assert_eq!((page.total, page.page), (21, 2));
    assert_eq!(page.data.iter().map(|p| p.code.as_str()).collect::<Vec<_>>(), vec!["A", "B"]);
    assert_eq!(page.data[0].id, rows[0].id);
    let rows = role_assignment(1, &["R"]).1;
    let page = services::role::paginate(&asked, 9, &rows);
    assert_eq!((page.total, page.page, page.data.len()), (9, 0, 1));
    assert_eq!(page.data[0].name, "r");
}

#[test]
fn initial_rows() {
    let permissions = learning_management_system::seed::permissions();
    let codes: Vec<&str> = permissions.iter().map(|p| p.code.as_str()).collect();
    assert_eq!(
        codes,
        vec![
            "CREATE_USER",
            "READ_USER",
            "UPDATE_USER",
            "DELETE_USER",
            "CREATE_PERMISSION",
            "READ_PERMISSION",
            "UPDATE_PERMISSION",
            "DELETE_PERMISSION",
            "CREATE_ROLE",
            "READ_ROLE",
            "UPDATE_ROLE",
            "DELETE_ROLE"
        ]
    );
    assert_eq!(permissions[0].name, "create user");
    assert_eq!(permissions[7].name, "delete permission");
    assert_eq!(permissions[10].name, "update role");
    let roles = learning_management_system::seed::roles();
    assert_eq!(
        roles.iter().map(|r| (r.code.as_str(), r.name.as_str())).collect::<Vec<_>>(),
        vec![("SUPERUSER", "superuser"), ("ADMIN", "admin")]
    );
    let root = learning_management_system::seed::root(42);
    assert_eq!((root.name.as_str(), root.email.as_str(), root.username.as_str()), ("root", "root@local", "root"));
    assert!(hash::verify(&hash::Hash::from_string(root.password.clone()), &root.id.to_string(), "LetMe!nM4te"));
    assert_eq!((root.created_at, root.updated_at, root.deleted_at), (42, 42, None));
    let given = dao::user::permission_rows(root.id, &permissions);
    assert_eq!(given.len(), 12);
    assert!(given.iter().zip(&permissions).all(|(row, p)| row.user_id == root.id && row.permission_id == p.id));
}

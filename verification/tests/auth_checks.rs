use otaniemipeli::auth::{
    authorize_user_creation, authorize_user_deletion, check_login, compare_pw_to_db, hash_password, hash_with_salt, namespace_role,
    new_session_hash, new_team_hash, session_allows,
};
use otaniemipeli::errors::AppError;
use otaniemipeli::ids::UserId;
use otaniemipeli::types::{SessionInfo, UserCreateInfo, UserType, UsersTypes};
use otaniemipeli::users::{get_users, UserTypeRow};

fn session(roles: Vec<UserType>) -> SessionInfo {
    SessionInfo {
        uid: UserId(1),
        session_hash: "ABC".to_string(),
        user_types: UsersTypes { user_types: roles },
    }
}

fn new_user(user_type: UserType) -> UserCreateInfo {
    UserCreateInfo {
        username: "teemu".to_string(),
        email: "teemu@example.org".to_string(),
        user_type,
        password: "hunter2".to_string(),
    }
}

fn is_upper_hex(s: &str) -> bool {
    s.chars().all(|c| c.is_ascii_digit() || ('A'..='F').contains(&c))
}

#[test]
fn salted_hash_is_salt_then_sha256_in_upper_hex() {
    // SHA-256("abc")
    assert_eq!(
        hash_with_salt("a", "bc"),
        "aBA7816BF8F01CFEA414140DE5DAE2223B00361A396177A9CB410FF61F20015AD"
    );
    assert_eq!(
        hash_with_salt("ab", "c"),
        "abBA7816BF8F01CFEA414140DE5DAE2223B00361A396177A9CB410FF61F20015AD"
    );
    // SHA-256("")
    assert_eq!(
        hash_with_salt("", ""),
        "E3B0C44298FC1C149AFBF4C8996FB92427AE41E4649B934CA495991B7852B855"
    );
}

#[test]
fn hashed_password_has_a_salt_of_32_letters_and_digits() {
    let stored = hash_password("hunter2".to_string());
    assert_eq!(stored.chars().count(), 32 + 64);
    let salt: String = stored.chars().take(32).collect();
    assert!(salt.chars().all(|c| c.is_ascii_alphanumeric()));
    assert!(is_upper_hex(&stored[32..]));
    assert_eq!(stored, hash_with_salt(&salt, "hunter2"));
}

#[test]
fn stored_password_is_accepted_and_others_are_not() {
    let stored = hash_password("hunter2".to_string());
    assert!(compare_pw_to_db("hunter2".to_string(), stored.clone()));
    assert!(!compare_pw_to_db("hunter3".to_string(), stored.clone()));
    assert!(!compare_pw_to_db("".to_string(), stored));
}

#[test]
fn compare_uses_the_first_32_characters_as_salt() {
    let salt = "0123456789abcdefghijklmnopqrstuv";
    let stored = hash_with_salt(salt, "salasana");
    assert!(compare_pw_to_db("salasana".to_string(), stored.clone()));
    let mut tampered = stored.clone();
    tampered.pop();
    tampered.push('0');
    assert!(!compare_pw_to_db("salasana".to_string(), tampered) || stored.ends_with('0'));
    // A stored value shorter than a salt is all salt, and never matches.
    assert!(!compare_pw_to_db("pw".to_string(), "short".to_string()));
    assert!(!compare_pw_to_db("".to_string(), "".to_string()));
}

#[test]
fn password_with_non_ascii_characters() {
    let stored = hash_password("pässwörd€".to_string());
    assert!(compare_pw_to_db("pässwörd€".to_string(), stored.clone()));
    assert!(!compare_pw_to_db("passwords".to_string(), stored));
}

#[test]
fn session_hash_is_64_upper_hex_digits() {
    let a = new_session_hash();
    let b = new_session_hash();
    assert_eq!(a.len(), 64);
    assert!(is_upper_hex(&a));
    assert_eq!(b.len(), 64);
    assert!(is_upper_hex(&b));
}

#[test]
fn team_hash_is_32_upper_hex_digits() {
    let a = new_team_hash();
    assert_eq!(a.len(), 32);
    assert!(is_upper_hex(&a));
}

#[test]
fn namespaces_map_to_roles() {
    assert_eq!(namespace_role("/admin"), Some(UserType::Admin));
    assert_eq!(namespace_role("/referee"), Some(UserType::Referee));
    assert_eq!(namespace_role("/secretary"), Some(UserType::Secretary));
    assert_eq!(namespace_role("/ie"), Some(UserType::Ie));
    assert_eq!(namespace_role("/"), None);
    assert_eq!(namespace_role("admin"), None);
    assert_eq!(namespace_role("/Admin"), None);
}

#[test]
fn session_allows_only_roles_it_holds() {
    let s = session(vec![UserType::Referee, UserType::Secretary]);
    assert!(session_allows(&s, UserType::Referee));
    assert!(session_allows(&s, UserType::Secretary));
    assert!(!session_allows(&s, UserType::Admin));
    assert!(!session_allows(&session(vec![]), UserType::Ie));
}

#[test]
fn first_user_needs_no_session() {
    assert!(authorize_user_creation(false, None, &new_user(UserType::Admin)).is_ok());
}

#[test]
fn later_users_need_a_session_with_the_role() {
    let admin = session(vec![UserType::Admin, UserType::Referee]);
    assert!(authorize_user_creation(true, Some(&admin), &new_user(UserType::Referee)).is_ok());
    match authorize_user_creation(true, None, &new_user(UserType::Referee)) {
        Err(AppError::Unauthorized(m)) => assert_eq!(m, "You are not authorized to perform this!"),
        other => panic!("expected unauthorized, got {other:?}"),
    }
    match authorize_user_creation(true, Some(&admin), &new_user(UserType::Ie)) {
        Err(AppError::Unauthorized(m)) => {
            assert_eq!(m, "You are not authorized to create user with type Ie!")
        }
        other => panic!("expected unauthorized, got {other:?}"),
    }
}

#[test]
fn missing_parameters_are_refused_first() {
    for blank in 0..3 {
        let mut u = new_user(UserType::Admin);
        match blank {
            0 => u.username.clear(),
            1 => u.email.clear(),
            _ => u.password.clear(),
        }
        for any_users in [false, true] {
            match authorize_user_creation(any_users, None, &u) {
                Err(AppError::Validation(m)) => assert_eq!(m, "missing parameters"),
                other => panic!("expected a validation error, got {other:?}"),
            }
        }
    }
}

fn user_row(uid: i32, name: &str, role: Option<UserType>) -> UserTypeRow {
    UserTypeRow { uid: UserId(uid), username: name.to_string(), user_type: role }
}

#[test]
fn users_are_listed_once_with_all_their_roles() {
    let rows = vec![
        user_row(1, "anna", Some(UserType::Admin)),
        user_row(1, "anna", Some(UserType::Referee)),
        user_row(2, "bert", None),
        user_row(3, "cilla", Some(UserType::Ie)),
        user_row(1, "anna", Some(UserType::Secretary)),
        user_row(3, "cilla", Some(UserType::Secretary)),
    ];
    let users = get_users(&rows);
    let seen: Vec<(i32, String, Vec<UserType>)> = users
        .into_iter()
        .map(|u| (u.uid.0, u.username, u.user_types.user_types))
        .collect();
    assert_eq!(
        seen,
        vec![
            (1, "anna".to_string(), vec![UserType::Admin, UserType::Referee, UserType::Secretary]),
            (2, "bert".to_string(), vec![]),
            (3, "cilla".to_string(), vec![UserType::Ie, UserType::Secretary]),
        ]
    );
    assert!(get_users(&vec![]).is_empty());
}

#[test]
fn user_keeps_the_name_of_the_first_row() {
    let rows = vec![user_row(5, "first", None), user_row(5, "second", Some(UserType::Ie))];
    let users = get_users(&rows);
    assert_eq!(users.len(), 1);
    assert_eq!(users[0].username, "first");
    assert_eq!(users[0].user_types.user_types, vec![UserType::Ie]);
}

#[test]
fn login_is_refused_with_one_message() {
    let stored = hash_password("hunter2".to_string());
    assert!(check_login(Some(stored.clone()), "hunter2".to_string()).is_ok());
    for (stored, password) in [(Some(stored), "wrong"), (None, "hunter2")] {
        match check_login(stored, password.to_string()) {
            Err(AppError::Unauthorized(m)) => assert_eq!(m, "Invalid username or password"),
            other => panic!("expected unauthorized, got {other:?}"),
        }
    }
}

#[test]
fn only_admins_delete_users() {
    assert!(authorize_user_deletion(&session(vec![UserType::Referee, UserType::Admin])).is_ok());
    for roles in [vec![], vec![UserType::Referee, UserType::Secretary, UserType::Ie]] {
        match authorize_user_deletion(&session(roles)) {
            Err(AppError::Unauthorized(m)) => assert_eq!(m, "Only admins can delete users"),
            other => panic!("expected unauthorized, got {other:?}"),
        }
    }
}

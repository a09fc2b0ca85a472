use chapter_exercises::accounts::{create_user, User};

#[test]
fn new_accounts_are_active_and_never_signed_in() {
    let user = create_user(
        "amir@example.com".to_string(),
        "Amir".to_string(),
        "open sesame".to_string(),
        "amir42".to_string(),
        23,
        "Civil Lines".to_string(),
    );
    assert_eq!(
        user,
        User {
            active: true,
            name: "Amir".to_string(),
            age: 23,
            address: "Civil Lines".to_string(),
            email: "amir@example.com".to_string(),
            username: "amir42".to_string(),
            password: "open sesame".to_string(),
            sign_in_count: 0,
        }
    );
}

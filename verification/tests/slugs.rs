//! Names that can stand in a path.

use web_bridge::slug::validate_slug;

fn complaint(s: &str, what: &str) -> String {
    match validate_slug(s, what) {
        Ok(slug) => panic!("{slug} was accepted"),
        Err(message) => message,
    }
}

#[test]
fn slugs_are_given_back() {
    for s in ["a", "7", "todo", "my-app_2", "0-_", "api2", "apis"] {
        assert_eq!(validate_slug(s, "app name"), Ok(s.to_owned()));
    }
}

#[test]
fn slugs_have_at_most_64_characters() {
    let longest = "x".repeat(64);
    assert_eq!(validate_slug(&longest, "app name"), Ok(longest.clone()));
    let longer = "x".repeat(65);
    assert_eq!(
        complaint(&longer, "app name"),
        format!("Invalid app name '{longer}': use 1-64 chars of [a-z0-9_-], starting with a letter or digit.")
    );
}

#[test]
fn texts_that_are_no_slugs_are_refused() {
    for s in ["", "-a", "_a", "A", "aB", "a b", "a/b", "a.b", "é", "aé", "a\n"] {
        assert_eq!(
            complaint(s, "instance id"),
            format!("Invalid instance id '{s}': use 1-64 chars of [a-z0-9_-], starting with a letter or digit.")
        );
    }
}

#[test]
fn routes_are_reserved() {
    for s in ["api", "mcp", "ws", "apps", "status", "tools"] {
        assert_eq!(complaint(s, "app name"), format!("Invalid app name '{s}': that name is reserved."));
    }
}

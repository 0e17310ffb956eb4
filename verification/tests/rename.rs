use squeel::rename::{split_words, Rename};

fn apply(r: Rename, s: &str) -> String {
    r.apply(s)
}

#[test]
fn lower_and_upper_change_ascii_case_only() {
    assert_eq!(apply(Rename::Lower, "HelloWorld_42"), "helloworld_42");
    assert_eq!(apply(Rename::Upper, "HelloWorld_42"), "HELLOWORLD_42");
    assert_eq!(apply(Rename::Upper, "émile"), "éMILE");
}

#[test]
fn words_break_on_separators_and_class_changes() {
    assert_eq!(split_words("user id"), vec!["user".to_string(), "id".to_string()]);
    assert_eq!(split_words("HTTP_SERVER-port"), vec!["HTTP", "SERVER", "port"]);
    assert_eq!(split_words("field2x"), vec!["field", "2", "x"]);
    assert_eq!(split_words("fooBar"), vec!["foo", "B", "ar"]);
    assert_eq!(split_words("__a__b__"), vec!["a", "b"]);
    assert!(split_words("").is_empty());
    assert!(split_words(" -_").is_empty());
}

#[test]
fn snake_and_kebab_join_lowered_words() {
    assert_eq!(apply(Rename::Snake, "user id"), "user_id");
    assert_eq!(apply(Rename::Snake, "HTTP_SERVER"), "http_server");
    assert_eq!(apply(Rename::Snake, "fooBar"), "foo_b_ar");
    assert_eq!(apply(Rename::Snake, "field2x"), "field_2_x");
    assert_eq!(apply(Rename::Kebab, "user_id"), "user-id");
    assert_eq!(apply(Rename::UpperSnake, "user id"), "USER_ID");
    assert_eq!(apply(Rename::UpperKebab, "user_id"), "USER-ID");
}

#[test]
fn pascal_and_camel_capitalize_words() {
    assert_eq!(apply(Rename::Pascal, "user_id"), "UserId");
    assert_eq!(apply(Rename::Pascal, "HTTP server"), "HttpServer");
    assert_eq!(apply(Rename::Camel, "user_id"), "userId");
    assert_eq!(apply(Rename::Camel, "FOO_BAR_BAZ"), "fooBarBaz");
}

#[test]
fn empty_names_stay_empty() {
    for r in [
        Rename::Snake,
        Rename::UpperSnake,
        Rename::Kebab,
        Rename::UpperKebab,
        Rename::Pascal,
        Rename::Camel,
        Rename::Lower,
        Rename::Upper,
    ] {
        assert_eq!(r.apply(""), "");
        assert_eq!(r.apply("__"), if matches!(r, Rename::Lower | Rename::Upper) { "__" } else { "" });
    }
}

#[test]
fn renaming_twice_is_renaming_once() {
    for s in ["user id", "HTTP_SERVER-port", "fooBar", "a1b2", "x__y", ""] {
        for r in [Rename::Snake, Rename::Kebab, Rename::Lower, Rename::Upper, Rename::UpperSnake, Rename::UpperKebab] {
            let once = r.apply(s);
            assert_eq!(r.apply(&once), once, "{:?} on {:?}", r, s);
        }
    }
}

#[test]
fn upper_snake_is_not_idempotent_beyond_ascii() {
    let once = Rename::UpperSnake.apply("aé");
    assert_eq!(once, "Aé");
    assert_eq!(Rename::UpperSnake.apply(&once), "A_é");
}

#[test]
fn convention_names_parse() {
    assert_eq!(Rename::parse("snake_case"), Ok(Rename::Snake));
    assert_eq!(Rename::parse("UPPER_SNAKE_CASE"), Ok(Rename::UpperSnake));
    assert_eq!(Rename::parse("kebab-case"), Ok(Rename::Kebab));
    assert_eq!(Rename::parse("UPPER-KEBAB-CASE"), Ok(Rename::UpperKebab));
    assert_eq!(Rename::parse("PascalCase"), Ok(Rename::Pascal));
    assert_eq!(Rename::parse("camelCase"), Ok(Rename::Camel));
    assert_eq!(Rename::parse("lower"), Ok(Rename::Lower));
    assert_eq!(Rename::parse("UPPER"), Ok(Rename::Upper));
    assert_eq!("lower".parse::<Rename>(), Ok(Rename::Lower));
}

#[test]
fn unknown_convention_lists_the_names() {
    assert_eq!(
        Rename::parse("Snake"),
        Err("did you mean: `snake_case`, `UPPER_SNAKE_CASE`, `kebab-case`, `UPPER-KEBAB-CASE`, `camelCase`, `PascalCase`, `lower`, `UPPER`".to_string())
    );
    assert!(Rename::parse("").is_err());
}

#[test]
fn capitals_form_words_of_their_own() {
    assert_eq!(split_words("ItemsTable"), vec!["I", "tems", "T", "able"]);
    assert_eq!(apply(Rename::Snake, "ItemsTable"), "i_tems_t_able");
    assert_eq!(apply(Rename::Pascal, "items_table"), "ItemsTable");
}

#[test]
fn words_put_together_give_the_name_without_separators() {
    for s in ["user id", "HTTP_SERVER-port", "fooBar", "a1b2", "x__y", "", "-_ ", "ÉtéChaud 2"] {
        let ws = split_words(s);
        let stripped: String = s.chars().filter(|c| !matches!(c, ' ' | '-' | '_')).collect();
        assert_eq!(ws.concat(), stripped, "{:?}", s);
        assert!(ws.len() <= s.chars().count());
        assert!(ws.iter().all(|w| !w.is_empty()));
    }
}

#[test]
fn upper_and_kebab_conventions_follow_snake_case() {
    for s in ["user id", "HTTP_SERVER-port", "fooBar", "a1b2", "x__y", "", "émileZola"] {
        let snake = Rename::Snake.apply(s);
        let kebab = Rename::Kebab.apply(s);
        assert_eq!(Rename::UpperSnake.apply(s), snake.to_ascii_uppercase());
        assert_eq!(kebab, snake.replace('_', "-"));
        assert_eq!(Rename::UpperKebab.apply(s), kebab.to_ascii_uppercase());
    }
}

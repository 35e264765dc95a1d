use stalkerd::text::{chars_contain, chars_equal, chars_occur_at, str_eq, to_chars};

fn chars(s: &str) -> Vec<char> {
    s.chars().collect()
}

#[test]
fn to_chars_gives_one_element_per_character() {
    assert_eq!(to_chars("abc"), vec!['a', 'b', 'c']);
    assert_eq!(to_chars(""), Vec::<char>::new());
    assert_eq!(to_chars("né€"), vec!['n', 'é', '€']);
}

#[test]
fn str_eq_compares_whole_strings() {
    assert!(str_eq("Live", "Live"));
    assert!(str_eq("", ""));
    assert!(!str_eq("Live", "live"));
    assert!(!str_eq("Live", "Live "));
    assert!(!str_eq("Live", "Liv"));
    assert!(!str_eq("", "x"));
    assert!(str_eq("zoé", "zoé"));
    assert!(!str_eq("zoé", "zoe"));
}

#[test]
fn occurrence_at_a_given_position() {
    let hay = chars("minecraft-launcher");
    assert!(chars_occur_at(&chars("mine"), &hay, 0));
    assert!(chars_occur_at(&chars("craft"), &hay, 4));
    assert!(!chars_occur_at(&chars("craft"), &hay, 3));
    assert!(chars_occur_at(&chars(""), &hay, 18));
    assert!(chars_occur_at(&chars("launcher"), &hay, 10));
}

#[test]
fn contains_finds_the_needle_anywhere() {
    let hay = chars("/opt/minecraft/server.jar");
    assert!(chars_contain(&hay, &chars("minecraft")));
    assert!(chars_contain(&hay, &chars("/opt")));
    assert!(chars_contain(&hay, &chars(".jar")));
    assert!(chars_contain(&hay, &hay));
    assert!(!chars_contain(&hay, &chars("Minecraft")));
    assert!(!chars_contain(&hay, &chars("minecraftx")));
}

#[test]
fn contains_at_the_edges() {
    assert!(chars_contain(&chars("abc"), &chars("")));
    assert!(chars_contain(&chars(""), &chars("")));
    assert!(!chars_contain(&chars(""), &chars("a")));
    assert!(!chars_contain(&chars("ab"), &chars("abc")));
    assert!(chars_contain(&chars("aab"), &chars("ab")));
}

#[test]
fn chars_equal_compares_whole_runs() {
    assert!(chars_equal(&chars("abc"), &chars("abc")));
    assert!(chars_equal(&chars(""), &chars("")));
    assert!(!chars_equal(&chars("abc"), &chars("abd")));
    assert!(!chars_equal(&chars("abc"), &chars("ab")));
    assert!(!chars_equal(&chars("ab"), &chars("abc")));
}

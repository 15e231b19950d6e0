use dotman::error::ErrorKind;
use dotman::glob::{accepts, depth, file_name, is_glob, is_match, pairs, root, tokens, Token};

fn hit(pattern: &str, path: &str) -> bool {
    is_match(&tokens(pattern).unwrap(), path)
}

#[test]
fn plain_paths_are_no_patterns() {
    assert!(!is_glob(""));
    assert!(!is_glob("./vimrc"));
    assert!(!is_glob("~/.config/nvim"));
    assert!(!is_glob("a]b!c-d"));
}

#[test]
fn wildcards_make_a_pattern() {
    assert!(is_glob("*.conf"));
    assert!(is_glob("/etc/host?"));
    assert!(is_glob("dir/[ab]"));
    assert!(is_glob("["));
}

#[test]
fn the_tokens_of_a_pattern() {
    assert_eq!(
        tokens("a*?/").unwrap(),
        vec![Token::Literal('a'), Token::AnyRun, Token::AnyChar, Token::Literal('/')]
    );
    assert_eq!(tokens("").unwrap(), Vec::new());
}

#[test]
fn the_tokens_of_sets() {
    assert_eq!(
        tokens("[abc]").unwrap(),
        vec![Token::Class { negated: false, ranges: vec![('a', 'a'), ('b', 'b'), ('c', 'c')] }]
    );
    assert_eq!(
        tokens("[!a-z0]x").unwrap(),
        vec![
            Token::Class { negated: true, ranges: vec![('a', 'z'), ('0', '0')] },
            Token::Literal('x')
        ]
    );
    assert_eq!(
        tokens("[a-]").unwrap(),
        vec![Token::Class { negated: false, ranges: vec![('a', 'a'), ('-', '-')] }]
    );
    assert_eq!(
        tokens("[-a]").unwrap(),
        vec![Token::Class { negated: false, ranges: vec![('-', '-'), ('a', 'a')] }]
    );
    assert_eq!(tokens("[]").unwrap(), vec![Token::Class { negated: false, ranges: Vec::new() }]);
    assert_eq!(tokens("[!]").unwrap(), vec![Token::Class { negated: true, ranges: Vec::new() }]);
    assert_eq!(
        tokens("[*?[]").unwrap(),
        vec![Token::Class { negated: false, ranges: vec![('*', '*'), ('?', '?'), ('[', '[')] }]
    );
}

#[test]
fn an_unclosed_set_is_malformed() {
    for pattern in ["[", "[abc", "a/[!", "x[a-", "[a-z", "*[", "[a][b"] {
        let e = tokens(pattern).unwrap_err();
        assert_eq!(e.kind(), ErrorKind::Pattern);
        assert_eq!(
            e.message(),
            format!("invalid pattern {}: a set is opened by [ and never closed", pattern)
        );
    }
}

#[test]
fn literals_match_themselves() {
    assert!(hit("vimrc", "vimrc"));
    assert!(!hit("vimrc", "vimr"));
    assert!(!hit("vimrc", "vimrcs"));
    assert!(!hit("vimrc", "Vimrc"));
    assert!(hit("", ""));
    assert!(!hit("", "a"));
    assert!(hit("a/b", "a/b"));
}

#[test]
fn a_question_mark_is_one_character() {
    assert!(hit("host?", "hosts"));
    assert!(!hit("host?", "host"));
    assert!(!hit("host?", "hostss"));
    assert!(!hit("a?b", "a/b"));
    assert!(hit("?", "ü"));
}

#[test]
fn a_star_is_any_run_within_a_component() {
    assert!(hit("*", ""));
    assert!(hit("*", "anything"));
    assert!(!hit("*", "a/b"));
    assert!(hit("*.conf", "kitty.conf"));
    assert!(hit("*.conf", ".conf"));
    assert!(!hit("*.conf", "kitty.conf.bak"));
    assert!(hit("a*b*c", "abc"));
    assert!(hit("a*b*c", "aXbYbZc"));
    assert!(!hit("a*b*c", "aXbYbZ"));
    assert!(hit("/dots/*/init.lua", "/dots/nvim/init.lua"));
    assert!(!hit("/dots/*/init.lua", "/dots/nvim/lua/init.lua"));
    assert!(hit("**", "abc"));
    assert!(!hit("**", "a/b"));
}

#[test]
fn many_stars_are_no_trouble() {
    let text = "a".repeat(200);
    assert!(hit("*a*a*a*a*a*a*a*a*a*a*a*a", &text));
    assert!(!hit("*a*a*a*a*a*a*a*a*a*a*a*b", &text));
}

#[test]
fn sets() {
    assert!(hit("[abc]", "b"));
    assert!(!hit("[abc]", "d"));
    assert!(!hit("[abc]", ""));
    assert!(!hit("[abc]", "ab"));
    assert!(hit("file[0-9].txt", "file7.txt"));
    assert!(!hit("file[0-9].txt", "filex.txt"));
    assert!(hit("[!0-9]", "x"));
    assert!(!hit("[!0-9]", "5"));
    assert!(!hit("[!0-9]", "/"));
    assert!(!hit("[/]", "/"));
    assert!(!hit("[]", "a"));
    assert!(hit("[!]", "a"));
    assert!(!hit("[z-a]", "m"));
    assert!(hit("[a-cx-z]", "y"));
}

#[test]
fn a_token_alone() {
    assert!(accepts(&Token::Literal('/'), '/'));
    assert!(!accepts(&Token::AnyChar, '/'));
    assert!(!accepts(&Token::AnyRun, '/'));
    assert!(accepts(&Token::AnyRun, 'x'));
    assert!(accepts(&Token::Class { negated: false, ranges: vec![('a', 'c')] }, 'c'));
    assert!(!accepts(&Token::Class { negated: true, ranges: vec![('a', 'c')] }, 'c'));
}

#[test]
fn the_depth_of_a_pattern() {
    assert_eq!(depth(&tokens("*.conf").unwrap()), 0);
    assert_eq!(depth(&tokens("/dots/*/init.lua").unwrap()), 3);
    assert_eq!(depth(&tokens("a/[/]/b").unwrap()), 2);
    for (pattern, path) in [("/dots/*/init.lua", "/dots/nvim/init.lua"), ("*", "x"), ("a/?", "a/b")] {
        assert!(hit(pattern, path));
        assert_eq!(depth(&tokens(pattern).unwrap()), path.matches('/').count());
    }
}

#[test]
fn the_last_component() {
    assert_eq!(file_name("/dots/nvim/init.lua"), "init.lua");
    assert_eq!(file_name("vimrc"), "vimrc");
    assert_eq!(file_name("/dots/nvim/"), "");
    assert_eq!(file_name(""), "");
    assert_eq!(file_name("/"), "");
    assert_eq!(file_name("a/ü"), "ü");
}

#[test]
fn the_root_of_a_pattern() {
    assert_eq!(root("/home/u/dots/*.conf"), "/home/u/dots/");
    assert_eq!(root("/a/b*/c"), "/a/");
    assert_eq!(root("*.conf"), "");
    assert_eq!(root("dots/[ab]/x"), "dots/");
    assert_eq!(root("/*"), "/");
    assert_eq!(root("/plain/path"), "/plain/");
    assert_eq!(root("plain"), "");
}

#[test]
fn matches_are_linked_under_the_destination_by_name() {
    let t = tokens("/dots/*.conf").unwrap();
    let candidates = vec![
        "/dots/kitty.conf".to_string(),
        "/dots/README".to_string(),
        "/dots/tmux.conf".to_string(),
        "/dots/sub/deep.conf".to_string(),
    ];
    assert_eq!(
        pairs(&t, &candidates, "/home/u/.config"),
        vec![
            ("/dots/kitty.conf".to_string(), "/home/u/.config/kitty.conf".to_string()),
            ("/dots/tmux.conf".to_string(), "/home/u/.config/tmux.conf".to_string()),
        ]
    );
    assert!(pairs(&t, &Vec::new(), "/d").is_empty());
    assert!(pairs(&t, &vec!["/other/x.conf".to_string()], "/d").is_empty());
}

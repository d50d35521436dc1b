use watchdog::config::{holds_quote_run, rewrite_fork, ForkRewrite};

fn rewritten(text: &str, id: &str, fork: &str) -> String {
    match rewrite_fork(text, id, fork) {
        ForkRewrite::Rewritten(written) => written,
        ForkRewrite::Unreadable => panic!("unreadable"),
        ForkRewrite::Obstructed => panic!("obstructed"),
    }
}

fn fork_in(text: &str, id: &str) -> Option<String> {
    let document: toml_edit::DocumentMut = text.parse().unwrap();
    document
        .get("instances")
        .and_then(|instances| instances.get(id))
        .and_then(|instance| instance.get("fork"))
        .and_then(|fork| fork.as_str())
        .map(|fork| fork.to_string())
}

const CONFIG: &str = r#"# The watchdog.
base_url = "http://localhost:5000"

[instances.lizard] # the main server
name = "Lizard"
port = 1212
fork = "wizards"

[instances.salamander]
name = "Salamander"
fork = "vikings"
"#;

#[test]
fn fork_is_replaced_in_place() {
    assert_eq!(
        rewritten(CONFIG, "lizard", "goblins"),
        CONFIG.replace("\"wizards\"", "\"goblins\"")
    );
}

#[test]
fn rewritten_fork_is_read_again() {
    let written = rewritten(CONFIG, "lizard", "goblins");
    assert_eq!(fork_in(&written, "lizard").as_deref(), Some("goblins"));
    assert_eq!(fork_in(&written, "salamander").as_deref(), Some("vikings"));
    let again = rewritten(&written, "lizard", "elves");
    assert_eq!(again, rewritten(CONFIG, "lizard", "elves"));
}

#[test]
fn missing_tables_are_made() {
    for text in ["", "base_url = \"x\"\n", "[instances.other]\nfork = \"a\"\n", "[instances]\n"] {
        let written = rewritten(text, "lizard", "goblins");
        assert_eq!(fork_in(&written, "lizard").as_deref(), Some("goblins"));
    }
    let written = rewritten("[instances.other]\nfork = \"a\"\n", "lizard", "goblins");
    assert_eq!(fork_in(&written, "other").as_deref(), Some("a"));
}

#[test]
fn inline_and_dotted_tables_are_kept() {
    for text in [
        "instances = { lizard = { fork = \"a\", port = 1 } }\n",
        "instances.lizard.fork = \"a\"\ninstances.lizard.port = 1\n",
        "[instances]\nlizard.port = 1\n",
        "[instances.lizard.fork]\nx = 1\n",
        "[instances.lizard]\nfork = [1, 2]\n",
        "instances.other.port = 1\n[instances.lizard]\nport = 2\n",
        "instances.other.port = 1\n[instances.lizard.extra]\nx = 2\n",
        "[[list]]\nx = 1\n[instances.other]\nport = 1\n[[list]]\nx = 2\n",
        "instances = { lizard.port = 1 } # one\n",
    ] {
        let written = rewritten(text, "lizard", "goblins");
        assert_eq!(fork_in(&written, "lizard").as_deref(), Some("goblins"));
    }
}

#[test]
fn odd_names_survive() {
    for fork in ["", "a\"b", "it's", "two\nlines", "\r\n", "\\", "\t\u{7f}\u{1}", "\"\"\"'''", "ü"] {
        for id in ["lizard", "a.b", "", "it's \"it\"", "ü\n"] {
            let written = rewritten(CONFIG, id, fork);
            assert_eq!(fork_in(&written, id).as_deref(), Some(fork));
            assert_eq!(fork_in(&written, "salamander").as_deref(), Some("vikings"));
        }
    }
}

#[test]
fn what_is_no_document_is_unreadable() {
    assert!(matches!(rewrite_fork("[instances", "lizard", "a"), ForkRewrite::Unreadable));
    assert!(matches!(rewrite_fork("a = 1\na = 2\n", "lizard", "a"), ForkRewrite::Unreadable));
}

#[test]
fn something_else_in_the_way_obstructs() {
    for text in [
        "instances = 3\n",
        "[[instances]]\nx = 1\n",
        "[instances]\nlizard = \"x\"\n",
        "[[instances.lizard]]\nx = 1\n",
    ] {
        assert!(matches!(rewrite_fork(text, "lizard", "a"), ForkRewrite::Obstructed));
    }
    assert!(matches!(
        rewrite_fork("instances = 3\n[x", "lizard", "a"),
        ForkRewrite::Unreadable
    ));
}

#[test]
fn long_rows_of_quotation_marks_cannot_be_counted() {
    assert!(!holds_quote_run(""));
    assert!(!holds_quote_run(&"\"".repeat(255)));
    assert!(holds_quote_run(&"\"".repeat(256)));
    assert!(holds_quote_run(&format!("a{}b", "'".repeat(256))));
    assert!(!holds_quote_run(&"\"'".repeat(300)));
    assert!(!holds_quote_run(&"x".repeat(1000)));
    assert!(matches!(
        rewrite_fork(CONFIG, "lizard", &"'".repeat(256)),
        ForkRewrite::Obstructed
    ));
    let long = "'".repeat(255);
    let written = rewritten(CONFIG, "lizard", &long);
    assert_eq!(fork_in(&written, "lizard"), Some(long));
}

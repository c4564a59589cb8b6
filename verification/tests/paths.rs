//! Paths, held against those of the standard library.

use std::path::Path;
use std::path::PathBuf;

use mtui::paths::default_config_path;
use mtui::paths::default_key_path;
use mtui::paths::expand_tilde;
use mtui::paths::ssh_config_path;
use mtui::paths::Environment;
use mtui::paths::FilePath;

fn at_home(home: Option<&str>) -> Environment {
    Environment {
        home: home.map(PathBuf::from),
        user: None,
        logname: None,
        config_dir: None,
        xdg_config_home: None,
        backslash: false,
    }
}

fn shown(path: &FilePath) -> String {
    let text = |bytes: &Vec<u8>| String::from_utf8(bytes.clone()).unwrap();
    let mut joined = PathBuf::from(text(&path.base));
    for part in &path.below {
        joined = joined.join(text(part));
    }
    joined.to_str().unwrap().to_string()
}

#[test]
fn expanding_is_that_of_the_standard_library() {
    let homes = ["/home/me", "/home/me/", "", "rel"];
    let paths = [
        "", "~", "~/", "~/x", "~/x/y", "~//x", "~/./x", "~/x/", "~/x/.", "~/.", "~/..", "~x", "/~/x",
        "./~/x", "a/~", "/abs", "~/x//y", "~/x/./y", "~/.hidden", "~\\x", "~/a\\b",
    ];
    for home in homes {
        for path in paths {
            let expected = match Path::new(path).strip_prefix("~") {
                Ok(rest) => PathBuf::from(home).join(rest),
                Err(_) => PathBuf::from(path),
            };
            let found = expand_tilde(&FilePath::of_text(path), &at_home(Some(home)));
            assert_eq!(shown(&found), expected.to_str().unwrap(), "{} in {}", path, home);
        }
    }
    let none = expand_tilde(&FilePath::of_text("~/x"), &at_home(None));
    assert_eq!(none, FilePath::of_text("~/x"));
}

#[test]
fn expanding_twice_is_that_of_the_standard_library() {
    let expand = |path: PathBuf, home: &str| match path.strip_prefix("~") {
        Ok(rest) => PathBuf::from(home).join(rest),
        Err(_) => path,
    };
    for home in ["/home/me", "", "~", "~/a", "~/a/.", "~/./a/", "~//", "rel"] {
        for path in ["~/~/k", "~/k", "~", "k", "~/~", "~/~/~/k", "~/k/./", "~/."] {
            let expected = expand(expand(PathBuf::from(path), home), home);
            let env = at_home(Some(home));
            let once = expand_tilde(&FilePath::of_text(path), &env);
            let twice = expand_tilde(&once, &env);
            assert_eq!(shown(&twice), expected.to_str().unwrap(), "{} in {}", path, home);
        }
    }
    let once = expand_tilde(&FilePath::of_text("~/~/k"), &at_home(Some("/home/me")));
    assert_eq!(shown(&once), "/home/me/~/k");
    assert_eq!(expand_tilde(&once, &at_home(Some("/home/me"))), once);
}

#[test]
fn a_backslash_separates_where_the_machine_says_so() {
    let mut env = at_home(Some("/h"));
    env.backslash = true;
    let found = |path: &str, env: &Environment| expand_tilde(&FilePath::of_text(path), env);
    assert_eq!(found("~\\.ssh\\key", &env), FilePath::of_text("/h").join(".ssh\\key"));
    assert_eq!(found("~/.\\a/\\.", &env), FilePath::of_text("/h").join("a"));
    env.backslash = false;
    assert_eq!(found("~\\.ssh\\key", &env), FilePath::of_text("~\\.ssh\\key"));
}

#[test]
fn bytes_that_are_no_text_are_kept() {
    let path = FilePath::plain(vec![b'~', b'/', 0xff, 0xfe]);
    let found = expand_tilde(&path, &at_home(Some("/h")));
    assert_eq!(found, FilePath { base: b"/h".to_vec(), below: vec![vec![0xff, 0xfe]] });
    assert_eq!(found.clone(), found);
}

#[test]
fn where_files_lie() {
    let mut env = at_home(Some("/home/me"));
    env.config_dir = Some("/dir".into());
    env.xdg_config_home = Some("/xdg".into());
    assert_eq!(shown(&default_config_path(&env)), "/dir/config.json");
    env.config_dir = None;
    assert_eq!(shown(&default_config_path(&env)), "/xdg/mtui/config.json");
    env.xdg_config_home = None;
    assert_eq!(shown(&default_config_path(&env)), "/home/me/.config/mtui/config.json");
    assert_eq!(shown(&default_key_path(&env)), "/home/me/.ssh/id_ed25519");
    assert_eq!(shown(&ssh_config_path(&env).unwrap()), "/home/me/.ssh/config");
    assert_eq!(ssh_config_path(&env), Some(FilePath::of_text("/home/me").join(".ssh/config")));
    env.home = None;
    assert_eq!(shown(&default_config_path(&env)), "mtui_config.json");
    assert_eq!(shown(&default_key_path(&env)), ".ssh/id_ed25519");
    assert_eq!(ssh_config_path(&env), None);
}

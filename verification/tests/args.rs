use giss::args::{read_repo_from_file, repo_from_lines};
use giss::text::{begins_with, ends_with, has_text, split_terminator, trim_end, trim_start};

const SSH_CONFIG: &str = "[core]\n\trepositoryformatversion = 0\n[remote \"origin\"]\n\turl = git@github.com:acme/widgets.git\n\tfetch = +refs/heads/*:refs/remotes/origin/*\n";

#[test]
fn the_repository_stands_behind_the_last_colon() {
    assert_eq!(read_repo_from_file(SSH_CONFIG), Some(String::from("acme/widgets")));
}

#[test]
fn windows_line_ends_do_not_get_into_the_name() {
    let config = SSH_CONFIG.replace('\n', "\r\n");
    assert_eq!(read_repo_from_file(&config), Some(String::from("acme/widgets")));
}

#[test]
fn a_configuration_without_the_host_names_no_repository() {
    assert_eq!(read_repo_from_file("[core]\n\tbare = false\n"), None);
    assert_eq!(read_repo_from_file(""), None);
}

#[test]
fn the_first_line_with_the_host_is_taken() {
    let config = "url = git@github.com:first/one.git\nurl = git@github.com:second/two.git\n";
    assert_eq!(read_repo_from_file(config), Some(String::from("first/one")));
}

#[test]
fn an_address_with_a_scheme_keeps_what_stands_behind_its_colon() {
    let config = "\turl = https://github.com/acme/widgets.git\n";
    assert_eq!(read_repo_from_file(config), Some(String::from("//github.com/acme/widgets")));
}

#[test]
fn a_colon_at_the_end_does_not_count() {
    let lines = vec![String::from("github.com:acme/widgets:")];
    assert_eq!(repo_from_lines(&lines), Some(String::from("acme/widgets")));
    let lines = vec![String::from("github.com")];
    assert_eq!(repo_from_lines(&lines), Some(String::from("github.com")));
}

#[test]
fn every_git_suffix_is_taken_off() {
    let lines = vec![String::from("git@github.com:acme/widgets.git.git")];
    assert_eq!(repo_from_lines(&lines), Some(String::from("acme/widgets")));
}

#[test]
fn the_result_agrees_with_the_iterator_chain_of_std() {
    for config in [
        SSH_CONFIG,
        "a\ngithub.com\n",
        "x = github.com:\n",
        "github.com::a.git\n",
        ":github.com.git:.git\n",
        "no host here\n",
    ] {
        let expected = config.lines().find(|l| l.contains("github.com")).map(|line| {
            line.split_terminator(':').last().unwrap().trim_end_matches(".git").to_string()
        });
        assert_eq!(read_repo_from_file(config), expected, "{:?}", config);
    }
}

#[test]
fn text_helpers_agree_with_std() {
    let texts = ["", "a", "abc", "abcabc", ".git", "x.git.git", "gitgit", "labels:labels: a", "aaa"];
    let patterns = ["", "a", "bc", "abc", ".git", "git", "labels:", "aa", "abcd"];
    for text in texts {
        for pattern in patterns {
            assert_eq!(has_text(text, pattern), text.contains(pattern), "{:?} {:?}", text, pattern);
            assert_eq!(begins_with(text, pattern), text.starts_with(pattern));
            assert_eq!(ends_with(text, pattern), text.ends_with(pattern));
            if !pattern.is_empty() {
                assert_eq!(trim_end(text, pattern), text.trim_end_matches(pattern));
                assert_eq!(trim_start(text, pattern), text.trim_start_matches(pattern));
            }
        }
    }
    assert_eq!(trim_end("abc", ""), "abc");
    assert_eq!(trim_start("abc", ""), "abc");
}

#[test]
fn split_terminator_agrees_with_std() {
    for text in ["", ",", "a", "a,", "a,b", "a,b,", "a,,", ",,", " a , b "] {
        let expected: Vec<String> = text.split_terminator(',').map(String::from).collect();
        assert_eq!(split_terminator(text, ','), expected, "{:?}", text);
    }
}

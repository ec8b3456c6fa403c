use tais_core::lines::{join_lines, replace_all, split_lines};
use tais_core::mcp::{all_capsule_tools, route_tool, ToolRoute};
use tais_core::text::{contains_any, decimal, trim_str};

fn chars(s: &str) -> Vec<char> {
    s.chars().collect()
}

#[test]
fn lines_like_std() {
    let ls: Vec<String> = split_lines(&chars("a\r\nb\n\nc\r")).iter().map(|l| l.iter().collect()).collect();
    assert_eq!(ls, vec!["a", "b", "", "c\r"]);
    assert!(split_lines(&chars("")).is_empty());
    let joined: String = join_lines(&vec![chars("x"), chars("y")]).iter().collect();
    assert_eq!(joined, "x\ny");
}

#[test]
fn replace_like_std() {
    let r: String = replace_all(&chars("aaa"), &chars("aa"), &chars("b")).iter().collect();
    assert_eq!(r, "aaa".replace("aa", "b"));
    let r: String = replace_all(&chars("abc"), &chars(""), &chars("-")).iter().collect();
    assert_eq!(r, "abc".replace("", "-"));
}

#[test]
fn small_helpers() {
    assert!(contains_any("学习物理", &["数学", "物理"]));
    assert!(!contains_any("学习", &[]));
    assert_eq!(decimal(0), "0");
    assert_eq!(decimal(1234567890), "1234567890");
    assert_eq!(trim_str("\u{3000} x \n"), "x");
}

#[test]
fn capsule_catalogue() {
    let tools = all_capsule_tools();
    assert_eq!(tools.len(), 37);
    assert_eq!(tools[0].0, "oo-prd-generator");
    assert_eq!(tools[36].0, "update_working_checkpoint");
}

#[test]
fn tool_routing() {
    let pipes = vec!["oo-prd-generator".to_string()];
    let servers = vec![vec!["a".to_string()], vec!["b".to_string(), "a".to_string()]];
    assert_eq!(route_tool(&pipes, &servers, "oo-prd-generator"), ToolRoute::Pipe);
    assert_eq!(route_tool(&pipes, &servers, "a"), ToolRoute::External(0));
    assert_eq!(route_tool(&pipes, &servers, "b"), ToolRoute::External(1));
    assert_eq!(route_tool(&pipes, &servers, "z"), ToolRoute::NotFound);
}
